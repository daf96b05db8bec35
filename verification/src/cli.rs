//! The parsed command line of the subcommands, as plain data. The argument
//! parser itself lives with the program; these are the values it produces.
use vstd::prelude::*;
use crate::text::opt_view;

verus! {

/// `repo docs [KIND]`.
pub struct DocsArgs {
    pub command: Option<DocsCommand>,
}

/// The kind of document to list.
pub enum DocsCommand {
    Plans(DocsListArgs),
    Designs(DocsListArgs),
    Adrs(DocsListArgs),
    References(DocsListArgs),
}

/// The options of a listing.
pub struct DocsListArgs {
    /// A document to show by file name, stem, or title prefix.
    pub query: Option<String>,
    pub status: Option<String>,
    pub sort: Option<DocsSort>,
    pub limit: Option<usize>,
    pub details: Option<DocsDetails>,
    pub interactive: bool,
    pub json: bool,
}

#[derive(Clone, Copy, Debug, PartialEq, Eq, Structural)]
pub enum DocsSort {
    Date,
    Status,
    Title,
    Progress,
}

/// How much phase detail to show (`none`, `incomplete` or `all`).
#[derive(Clone, Copy, Debug, PartialEq, Eq, Structural)]
pub enum DocsDetails {
    Off,
    Incomplete,
    All,
}

/// `repo health [init|export] [-v] [-u]`.
pub struct HealthArgs {
    pub command: Option<HealthCommand>,
    pub verbose: bool,
    pub check_updates: bool,
}

#[derive(Clone, Copy, Debug, PartialEq, Eq, Structural)]
pub enum HealthCommand {
    Init,
    Export,
}

/// `repo skills [COMMAND]`.
pub struct SkillsArgs {
    pub command: Option<SkillsCommand>,
}

pub enum SkillsCommand {
    Init,
    Export,
    Sync,
    Install,
    Fix,
    Deploy(DeployArgs),
}

pub struct DeployArgs {
    pub force: bool,
}

/// `repo prompt [--tag T] [COMMAND]`.
pub struct PromptArgs {
    pub tag: Option<String>,
    pub command: Option<PromptCommand>,
}

pub enum PromptCommand {
    Init,
    List(PromptListArgs),
    /// A prompt name and whatever follows it.
    Show(Vec<String>),
}

pub struct PromptListArgs {
    pub tag: Option<String>,
}

/// `repo ulid [-n N]`.
pub struct UlidArgs {
    pub count: usize,
}

/// `repo plugins [list|info NAME]`.
pub struct PluginsArgs {
    pub command: Option<PluginsCommand>,
}

pub enum PluginsCommand {
    List,
    Info { name: String },
}

/// The value of [`DocsListArgs`].
pub struct ListArgsV {
    pub query: Option<Seq<char>>,
    pub status: Option<Seq<char>>,
    pub sort: Option<DocsSort>,
    pub limit: Option<usize>,
    pub details: Option<DocsDetails>,
    pub interactive: bool,
    pub json: bool,
}

impl View for DocsListArgs {
    type V = ListArgsV;

    open spec fn view(&self) -> ListArgsV {
        ListArgsV {
            query: opt_view(self.query),
            status: opt_view(self.status),
            sort: self.sort,
            limit: self.limit,
            details: self.details,
            interactive: self.interactive,
            json: self.json,
        }
    }
}

} // verus!

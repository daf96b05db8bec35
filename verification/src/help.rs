//! The help texts of the subcommands.
use vstd::prelude::*;
use crate::docs::model::{label_s, subdir_s, DocKind};
use crate::docs::table::append_str;
use crate::output::{bold, styled};
use crate::text::string_of;

verus! {

/// `repo docs --help`.
pub const DOCS_HELP: &'static str = "repo docs \u{2014} Browse plans, ADRs, and references\n\nUSAGE:\n    repo docs [COMMAND] [OPTIONS]\n\nCOMMANDS:\n    plans       List plans in .repo/storage/\n    designs     List documents in _docs/designs/\n    adrs        List documents in _docs/adrs/\n    references  List documents in _docs/references/  (alias: refs)\n\nOPTIONS:\n    -h, --help  Print this help message\n\nWhen no command is given, a summary of all document kinds is shown.";

/// `repo prompt --help`.
pub const PROMPT_HELP: &'static str = "repo prompt \u{2014} Reusable prompt snippets for AI agents and workflows\n\nUSAGE:\n    repo prompt [COMMAND] [OPTIONS]\n\nCOMMANDS:\n    <name>      Output the named prompt snippet to stdout\n    list        List all available prompts (default when no args)\n    init        Write built-in defaults to .repo/prompts/ for customization\n\nOPTIONS:\n    --tag <TAG>  Filter by tag (e.g. plan, format, review)\n    --json       Emit machine-readable JSON for `list`\n    -h, --help   Print this help message\n\nBuilt-in prompts are always available. User prompts in .repo/prompts/\noverride built-ins by name. Run `repo prompt init` to copy defaults to\ndisk for customization.\n\nSNIPPET FORMAT:\n    Prompt snippets are markdown files with optional YAML frontmatter:\n\n        ---\n        name: my-prompt\n        description: What this prompt does\n        tags: [review, format]\n        ---\n\n        <prompt body here>\n\n    Files without frontmatter use the filename (minus .md) as the name.";

/// `repo skills --help`.
pub const SKILLS_HELP: &'static str = "repo skills \u{2014} Manage required agent skills\n\nUSAGE:\n    repo skills [COMMAND]\n\nCOMMANDS:\n    (none)      Check installed skills against .repo/skills.toml\n    init        Create .repo/skills.toml and copy built-in skills, references, schemas\n    export      Snapshot currently installed skills into .repo/skills.toml\n    sync        Merge installed skills into .repo/skills.toml (keeps existing entries)\n    install     Install missing skills declared in .repo/skills.toml\n    fix         Remove unfixable entries (empty source, skill not found) from .repo/skills.toml\n    deploy      Install all built-in skills into the agent skills ecosystem\n\nOPTIONS:\n    --json       Emit machine-readable JSON where supported\n    -h, --help  Print this help message\n\nSkills are declared in .repo/skills.toml and installed via `npx skills add`.\nThe init command also copies built-in skills to .repo/skills/, references to\n.repo/references/, and schemas to .repo/schemas/. Existing files are never\noverwritten. The check command verifies each declared skill has a SKILL.md\nin the project's .agents/skills/ directory.\n\nRun `repo skills fix` to automatically remove entries that cannot be installed\n(missing source field or skill not found at the declared source).\n\n`repo skills deploy` writes all 10 built-in skills directly into ~/.agents/skills/\nand creates agent-specific symlinks (e.g. ~/.cursor/skills/) for every detected\nagent. No external registry required \u{2014} the skill content is embedded in the binary.\n\n  --global, -g   Install to ~/.agents/skills/ (default and only scope)\n  --force,  -f   Overwrite already-installed skills and existing symlinks";

/// Where documents of a kind are scanned, as the help names it.
pub open spec fn kind_location_s(kind: DocKind) -> Seq<char> {
    if kind == DocKind::Plans {
        ".repo/storage/**/*.{md,json}"@
    } else {
        "_docs/"@ + subdir_s(kind) + "/*.md"@
    }
}

/// `repo docs <kind> --help`: the kind's usage, options, and where it
/// looks.
pub open spec fn kind_help_s(kind: DocKind) -> Seq<char> {
    "repo docs "@ + subdir_s(kind) + " \u{2014} List "@ + label_s(kind) + "s\n\nUSAGE:\n    repo docs "@ + subdir_s(kind)
        + " [OPTIONS]\n\nOPTIONS:\n    <QUERY>            Show one document by filename, stem, or title prefix\n    --status <STATUS>  Filter by status (e.g. proposal, draft, active, accepted)\n    --sort <SORT>      Sort by date, status, title, or progress\n    --limit <N>        Limit the number of listed documents\n    --details <MODE>   Expand phase details: none, incomplete, or all\n    --interactive      Choose one document interactively from a TTY\n    --json             Emit machine-readable JSON instead of a table\n    -h, --help         Print this help message\n\nScans "@ + kind_location_s(kind) + " for plan documents."@
}

pub fn docs_kind_help(kind: DocKind) -> (r: String)
    ensures
        r@ == kind_help_s(kind),
{
    let mut v: Vec<char> = Vec::new();
    append_str(&mut v, "repo docs ");
    append_str(&mut v, kind.subdir());
    append_str(&mut v, " \u{2014} List ");
    append_str(&mut v, kind.label());
    append_str(&mut v, "s\n\nUSAGE:\n    repo docs ");
    append_str(&mut v, kind.subdir());
    append_str(&mut v, " [OPTIONS]\n\nOPTIONS:\n    <QUERY>            Show one document by filename, stem, or title prefix\n    --status <STATUS>  Filter by status (e.g. proposal, draft, active, accepted)\n    --sort <SORT>      Sort by date, status, title, or progress\n    --limit <N>        Limit the number of listed documents\n    --details <MODE>   Expand phase details: none, incomplete, or all\n    --interactive      Choose one document interactively from a TTY\n    --json             Emit machine-readable JSON instead of a table\n    -h, --help         Print this help message\n\nScans ");
    if kind == DocKind::Plans {
        append_str(&mut v, ".repo/storage/**/*.{md,json}");
    } else {
        append_str(&mut v, "_docs/");
        append_str(&mut v, kind.subdir());
        append_str(&mut v, "/*.md");
    }
    append_str(&mut v, " for plan documents.");
    string_of(&v)
}

/// `repo ulid --help`: the bold command name, then its usage.
pub open spec fn ulid_help_s(color: bool) -> Seq<char> {
    styled("repo ulid"@, "1"@, color) + " \u{2014} Generate valid ULIDs (Universally Unique Lexicographically Sortable Identifiers)\n\nUSAGE:\n    repo ulid            Generate one ULID\n    repo ulid -n <N>     Generate N ULIDs\n\nOPTIONS:\n    -n <N>         Number of ULIDs to generate (default: 1)\n    -h, --help     Print this help message"@
}

pub fn ulid_help(color: bool) -> (r: String)
    ensures
        r@ == ulid_help_s(color),
{
    let mut v: Vec<char> = Vec::new();
    append_str(&mut v, bold("repo ulid", color).as_str());
    append_str(&mut v, " \u{2014} Generate valid ULIDs (Universally Unique Lexicographically Sortable Identifiers)\n\nUSAGE:\n    repo ulid            Generate one ULID\n    repo ulid -n <N>     Generate N ULIDs\n\nOPTIONS:\n    -n <N>         Number of ULIDs to generate (default: 1)\n    -h, --help     Print this help message");
    string_of(&v)
}

} // verus!

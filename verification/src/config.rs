//! Repository configuration, `.repo/config.toml`, with its defaults.
use vstd::prelude::*;
use crate::paths::{file_name, path_file_name};
use crate::text::{opt_view, owned};

verus! {

/// The whole file; every section defaults when absent.
pub struct RepoConfig {
    pub repo: RepoSection,
    pub plugins: PluginsSection,
    pub hooks: HooksSection,
    pub check: CheckSection,
}

/// `[repo]`.
pub struct RepoSection {
    /// The name shown in the overview (the directory name by default).
    pub name: Option<String>,
}

/// `[plugins]`.
pub struct PluginsSection {
    pub extra_paths: Vec<String>,
    pub disabled: Vec<String>,
}

/// `[hooks]`.
pub struct HooksSection {
    pub enabled: bool,
    /// Seconds.
    pub timeout: u64,
    pub skip_in_ci: bool,
}

/// `[check]`.
pub struct CheckSection {
    /// The lowest severity that fails a check.
    pub fail_on: String,
}

/// Hooks are enabled unless the file says otherwise.
pub fn default_true() -> (r: bool)
    ensures
        r,
{
    true
}

/// The hook timeout when the file does not set one.
pub fn default_timeout() -> (r: u64)
    ensures
        r == 30,
{
    30
}

/// The failing severity when the file does not set one.
pub fn default_fail_on() -> (r: String)
    ensures
        r@ == "error"@,
{
    owned("error")
}

impl Default for RepoSection {
    fn default() -> (r: Self)
        ensures
            r.name is None,
    {
        RepoSection { name: None }
    }
}

impl Default for PluginsSection {
    fn default() -> (r: Self)
        ensures
            r.extra_paths@.len() == 0,
            r.disabled@.len() == 0,
    {
        PluginsSection { extra_paths: Vec::new(), disabled: Vec::new() }
    }
}

impl Default for HooksSection {
    fn default() -> (r: Self)
        ensures
            r.enabled,
            r.timeout == 30,
            !r.skip_in_ci,
    {
        HooksSection { enabled: default_true(), timeout: default_timeout(), skip_in_ci: false }
    }
}

impl Default for CheckSection {
    fn default() -> (r: Self)
        ensures
            r.fail_on@ == "error"@,
    {
        CheckSection { fail_on: default_fail_on() }
    }
}

/// The configuration of a repository without `.repo/config.toml` (or with
/// one that does not parse).
pub open spec fn is_default_config(c: RepoConfig) -> bool {
    &&& c.repo.name is None
    &&& c.plugins.extra_paths@.len() == 0
    &&& c.plugins.disabled@.len() == 0
    &&& c.hooks.enabled
    &&& c.hooks.timeout == 30
    &&& !c.hooks.skip_in_ci
    &&& c.check.fail_on@ == "error"@
}

impl Default for RepoConfig {
    fn default() -> (r: Self)
        ensures
            is_default_config(r),
    {
        RepoConfig {
            repo: RepoSection::default(),
            plugins: PluginsSection::default(),
            hooks: HooksSection::default(),
            check: CheckSection::default(),
        }
    }
}

/// The name the overview shows: the configured one, else the name of the
/// repository's directory, else `repo`.
pub open spec fn display_name_s(configured: Option<Seq<char>>, root: Seq<char>) -> Seq<char> {
    match configured {
        Some(n) => n,
        None => match path_file_name(root) {
            Some(n) => n,
            None => "repo"@,
        },
    }
}

/// The repository's display name (see [`display_name_s`]).
pub fn display_name(config: &RepoConfig, repo_root: &str) -> (r: String)
    ensures
        r@ == display_name_s(opt_view(config.repo.name), repo_root@),
{
    match &config.repo.name {
        Some(n) => n.clone(),
        None => match file_name(repo_root) {
            Some(n) => n,
            None => owned("repo"),
        },
    }
}

// ── Finding the repository root ─────────────────────────────────────

/// What was found in one directory on the way up from the working
/// directory: a strong marker (a `.repo/` directory or `.git`) and a weak
/// one (`Cargo.toml`).
pub struct Markers {
    pub strong: bool,
    pub weak: bool,
}

/// The last (outermost) directory with a strong marker.
pub open spec fn last_strong(ms: Seq<Markers>) -> Option<int>
    decreases ms.len(),
{
    if ms.len() == 0 {
        None
    } else if ms.last().strong {
        Some(ms.len() - 1)
    } else {
        last_strong(ms.drop_last())
    }
}

/// The first (innermost) directory with a weak marker.
pub open spec fn first_weak(ms: Seq<Markers>) -> Option<int>
    decreases ms.len(),
{
    if ms.len() == 0 {
        None
    } else {
        match first_weak(ms.drop_last()) {
            Some(i) => Some(i),
            None => if ms.last().weak {
                Some(ms.len() - 1)
            } else {
                None
            },
        }
    }
}

/// The repository root among the directories from the working directory
/// up to the file-system root (`markers[i]` for the `i`-th of them): the
/// outermost with a strong marker, else the innermost with a weak one;
/// none means the working directory itself.
pub open spec fn repo_root_index_s(ms: Seq<Markers>) -> Option<int> {
    match last_strong(ms) {
        Some(i) => Some(i),
        None => first_weak(ms),
    }
}

pub fn repo_root_index(markers: &Vec<Markers>) -> (r: Option<usize>)
    ensures
        match r {
            Some(i) => repo_root_index_s(markers@) == Some(i as int),
            None => repo_root_index_s(markers@) is None,
        },
{
    let ghost ms = markers@;
    let mut strong: Option<usize> = None;
    let mut weak: Option<usize> = None;
    let mut i: usize = 0;
    while i < markers.len()
        invariant
            i <= markers.len(),
            ms == markers@,
            match strong {
                Some(k) => last_strong(ms.take(i as int)) == Some(k as int),
                None => last_strong(ms.take(i as int)) is None,
            },
            match weak {
                Some(k) => first_weak(ms.take(i as int)) == Some(k as int),
                None => first_weak(ms.take(i as int)) is None,
            },
        decreases markers.len() - i,
    {
        assert(ms.take(i + 1).drop_last() =~= ms.take(i as int));
        if markers[i].strong {
            strong = Some(i);
        }
        if weak.is_none() && markers[i].weak {
            weak = Some(i);
        }
        i += 1;
    }
    assert(ms.take(markers.len() as int) =~= ms);
    match strong {
        Some(k) => Some(k),
        None => weak,
    }
}

proof fn lemma_last_strong(ms: Seq<Markers>)
    ensures
        match last_strong(ms) {
            Some(k) => 0 <= k < ms.len() && ms[k].strong && forall|j: int|
                k < j < ms.len() ==> !(#[trigger] ms[j]).strong,
            None => forall|j: int| 0 <= j < ms.len() ==> !(#[trigger] ms[j]).strong,
        },
    decreases ms.len(),
{
    if ms.len() > 0 {
        lemma_last_strong(ms.drop_last());
        assert forall|j: int| 0 <= j < ms.len() - 1 implies ms.drop_last()[j] == ms[j] by {}
    }
}

proof fn lemma_first_weak(ms: Seq<Markers>)
    ensures
        match first_weak(ms) {
            Some(k) => 0 <= k < ms.len() && ms[k].weak && forall|j: int|
                0 <= j < k ==> !(#[trigger] ms[j]).weak,
            None => forall|j: int| 0 <= j < ms.len() ==> !(#[trigger] ms[j]).weak,
        },
    decreases ms.len(),
{
    if ms.len() > 0 {
        lemma_first_weak(ms.drop_last());
        assert forall|j: int| 0 <= j < ms.len() - 1 implies ms.drop_last()[j] == ms[j] by {}
    }
}

/// The outermost directory with a strong marker is the root whenever there
/// is one, whatever weak markers lie below it; only without any strong
/// marker does the innermost weak marker decide, and without either the
/// working directory is kept.
pub proof fn law_outermost_strong_marker_wins(ms: Seq<Markers>)
    ensures
        (exists|i: int| 0 <= i < ms.len() && (#[trigger] ms[i]).strong) ==> match repo_root_index_s(
            ms,
        ) {
            Some(k) => 0 <= k < ms.len() && ms[k].strong && forall|j: int|
                k < j < ms.len() ==> !(#[trigger] ms[j]).strong,
            None => false,
        },
        (forall|i: int| 0 <= i < ms.len() ==> !(#[trigger] ms[i]).strong) ==> match repo_root_index_s(
            ms,
        ) {
            Some(k) => 0 <= k < ms.len() && ms[k].weak && forall|j: int|
                0 <= j < k ==> !(#[trigger] ms[j]).weak,
            None => forall|j: int| 0 <= j < ms.len() ==> !(#[trigger] ms[j]).weak,
        },
{
    lemma_last_strong(ms);
    lemma_first_weak(ms);
}

} // verus!

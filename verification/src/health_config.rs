//! `.repo/health.toml`: the environment a repository expects (privilege
//! escalation, runtimes, shell), the tools it needs and their versions,
//! and custom checks; plus the snapshot of a current environment and the
//! reading of tool versions.
use vstd::prelude::*;
use crate::paths::{file_name, path_file_name};
use crate::text::{
    chars_of, contains_char, find, find_s, is_digit, is_ws, is_whitespace, lemma_word_end, lines,
    lines_s, opt_view, owned, seq_eq, seq_lt, starts_with, str_lt, string_of, strings_view, subvec,
    trim, trim_s, views, word_end,
};

verus! {

// ── Model ───────────────────────────────────────────────────────────

/// A custom check: a shell command that must exit 0.
pub struct CustomCheck {
    pub command: String,
    /// Shown in output.
    pub description: String,
    /// `"error"` (the default: fails the health check) or `"warning"`.
    pub severity: String,
    /// Shown on failure.
    pub hint: Option<String>,
}

/// The environment section.
pub struct EnvironmentConfig {
    /// `sudo`, `doas`, `pkexec`, `none`, or `auto`.
    pub privilege: String,
    /// Allowed runtime cages; empty means any.
    pub allowed_runtimes: Vec<String>,
    /// The shell that must be in use.
    pub required_shell: Option<String>,
}

/// A required (or optional) tool.
pub struct ToolRequirement {
    pub required: bool,
    /// Minimum version, inclusive.
    pub min_version: Option<String>,
    pub exact_version: Option<String>,
    /// The binary to probe (the tool's key by default).
    pub command: Option<String>,
    /// Arguments that print the version (`--version` by default).
    pub version_args: Option<Vec<String>>,
    /// Where releases are published.
    pub url: Option<String>,
    /// How to install it.
    pub install: Option<String>,
    /// Command that prints the latest available version.
    pub latest_cmd: Option<String>,
    pub latest_args: Option<Vec<String>>,
}

/// The whole file. Tools and checks are keyed by name, in ascending key
/// order without repeats (see [`HealthConfig::wf`]).
pub struct HealthConfig {
    pub environment: EnvironmentConfig,
    pub tools: Vec<(String, ToolRequirement)>,
    pub checks: Vec<(String, CustomCheck)>,
}

pub open spec fn opt_strings_view(o: Option<Vec<String>>) -> Option<Seq<Seq<char>>> {
    match o {
        Some(v) => Some(strings_view(v@)),
        None => None,
    }
}

/// The value of a [`ToolRequirement`].
pub struct ToolV {
    pub required: bool,
    pub min_version: Option<Seq<char>>,
    pub exact_version: Option<Seq<char>>,
    pub command: Option<Seq<char>>,
    pub version_args: Option<Seq<Seq<char>>>,
    pub url: Option<Seq<char>>,
    pub install: Option<Seq<char>>,
    pub latest_cmd: Option<Seq<char>>,
    pub latest_args: Option<Seq<Seq<char>>>,
}

impl View for ToolRequirement {
    type V = ToolV;

    open spec fn view(&self) -> ToolV {
        ToolV {
            required: self.required,
            min_version: opt_view(self.min_version),
            exact_version: opt_view(self.exact_version),
            command: opt_view(self.command),
            version_args: opt_strings_view(self.version_args),
            url: opt_view(self.url),
            install: opt_view(self.install),
            latest_cmd: opt_view(self.latest_cmd),
            latest_args: opt_strings_view(self.latest_args),
        }
    }
}

pub open spec fn tool_views(v: Seq<(String, ToolRequirement)>) -> Seq<(Seq<char>, ToolV)> {
    v.map_values(|p: (String, ToolRequirement)| (p.0@, p.1@))
}

pub open spec fn check_keys(v: Seq<(String, CustomCheck)>) -> Seq<(Seq<char>, ())> {
    v.map_values(|p: (String, CustomCheck)| (p.0@, ()))
}

// ── Keyed entries ───────────────────────────────────────────────────

/// Keys strictly ascending: sorted, no key twice.
pub open spec fn keys_ordered<V>(s: Seq<(Seq<char>, V)>) -> bool {
    forall|i: int, j: int| 0 <= i < j < s.len() ==> seq_lt(#[trigger] s[i].0, #[trigger] s[j].0)
}

/// The value stored under `k`.
pub open spec fn key_lookup<V>(s: Seq<(Seq<char>, V)>, k: Seq<char>) -> Option<V>
    decreases s.len(),
{
    if s.len() == 0 {
        None
    } else if s[0].0 == k {
        Some(s[0].1)
    } else {
        key_lookup(s.drop_first(), k)
    }
}

/// The first position whose key is not below `k`.
pub open spec fn key_pos<V>(s: Seq<(Seq<char>, V)>, k: Seq<char>) -> int
    decreases s.len(),
{
    if s.len() == 0 {
        0
    } else if !seq_lt(s[0].0, k) {
        0
    } else {
        1 + key_pos(s.drop_first(), k)
    }
}

/// `v` stored under `k`, replacing what was there (as `BTreeMap::insert`).
pub open spec fn key_insert<V>(s: Seq<(Seq<char>, V)>, k: Seq<char>, v: V) -> Seq<(Seq<char>, V)> {
    let p = key_pos(s, k);
    if 0 <= p < s.len() && s[p].0 == k {
        s.update(p, (k, v))
    } else {
        s.insert(p, (k, v))
    }
}

proof fn lemma_key_pos<V>(s: Seq<(Seq<char>, V)>, k: Seq<char>, p: int)
    requires
        0 <= p <= s.len(),
        forall|j: int| 0 <= j < p ==> seq_lt((#[trigger] s[j]).0, k),
        p < s.len() ==> !seq_lt(s[p].0, k),
    ensures
        key_pos(s, k) == p,
    decreases s.len(),
{
    if s.len() > 0 && p > 0 {
        assert(seq_lt(s[0].0, k));
        assert forall|j: int| 0 <= j < p - 1 implies seq_lt((#[trigger] s.drop_first()[j]).0, k) by {
            assert(s.drop_first()[j] == s[j + 1]);
        }
        lemma_key_pos(s.drop_first(), k, p - 1);
    }
}

proof fn lemma_key_pos_spec<V>(s: Seq<(Seq<char>, V)>, k: Seq<char>)
    ensures
        0 <= key_pos(s, k) <= s.len(),
        forall|j: int| 0 <= j < key_pos(s, k) ==> seq_lt((#[trigger] s[j]).0, k),
        key_pos(s, k) < s.len() ==> !seq_lt(s[key_pos(s, k)].0, k),
    decreases s.len(),
{
    if s.len() > 0 && seq_lt(s[0].0, k) {
        lemma_key_pos_spec(s.drop_first(), k);
        assert forall|j: int| 0 <= j < key_pos(s, k) implies seq_lt((#[trigger] s[j]).0, k) by {
            if j > 0 {
                assert(s[j] == s.drop_first()[j - 1]);
            }
        }
    }
}

proof fn lemma_key_lookup<V>(s: Seq<(Seq<char>, V)>, k: Seq<char>, p: int)
    requires
        0 <= p < s.len(),
        s[p].0 == k,
        forall|j: int| 0 <= j < p ==> (#[trigger] s[j]).0 != k,
    ensures
        key_lookup(s, k) == Some(s[p].1),
    decreases s.len(),
{
    if p > 0 {
        assert forall|j: int| 0 <= j < p - 1 implies (#[trigger] s.drop_first()[j]).0 != k by {
            assert(s.drop_first()[j] == s[j + 1]);
        }
        lemma_key_lookup(s.drop_first(), k, p - 1);
    }
}

proof fn lemma_key_lookup_none<V>(s: Seq<(Seq<char>, V)>, k: Seq<char>)
    requires
        forall|j: int| 0 <= j < s.len() ==> (#[trigger] s[j]).0 != k,
    ensures
        key_lookup(s, k) is None,
    decreases s.len(),
{
    if s.len() > 0 {
        assert forall|j: int| 0 <= j < s.len() - 1 implies (#[trigger] s.drop_first()[j]).0 != k by {
            assert(s.drop_first()[j] == s[j + 1]);
        }
        lemma_key_lookup_none(s.drop_first(), k);
    }
}

proof fn lemma_key_lookup_ordered<V>(s: Seq<(Seq<char>, V)>, k: Seq<char>)
    requires
        keys_ordered(s),
    ensures
        match key_lookup(s, k) {
            Some(v) => exists|p: int| 0 <= p < s.len() && s[p].0 == k && s[p].1 == v,
            None => forall|j: int| 0 <= j < s.len() ==> (#[trigger] s[j]).0 != k,
        },
{
    if exists|p: int| 0 <= p < s.len() && s[p].0 == k {
        let p = choose|p: int| 0 <= p < s.len() && s[p].0 == k;
        assert forall|j: int| 0 <= j < p implies (#[trigger] s[j]).0 != k by {
            crate::text::lemma_seq_lt_irrefl(k);
        }
        lemma_key_lookup(s, k, p);
    } else {
        lemma_key_lookup_none(s, k);
    }
}

/// Storing under a key keeps the keys ordered; reading that key gives the
/// stored value back, and every other key reads as before.
pub proof fn law_key_insert<V>(s: Seq<(Seq<char>, V)>, k: Seq<char>, v: V, other: Seq<char>)
    requires
        keys_ordered(s),
    ensures
        keys_ordered(key_insert(s, k, v)),
        key_lookup(key_insert(s, k, v), k) == Some(v),
        other != k ==> key_lookup(key_insert(s, k, v), other) == key_lookup(s, other),
{
    lemma_key_pos_spec(s, k);
    let p = key_pos(s, k);
    let t = key_insert(s, k, v);
    let replace = 0 <= p < s.len() && s[p].0 == k;
    // Order.
    assert forall|i: int, j: int| 0 <= i < j < t.len() implies seq_lt(
        #[trigger] t[i].0,
        #[trigger] t[j].0,
    ) by {
        if replace {
            assert(t[i].0 == s[i].0 && t[j].0 == s[j].0);
        } else {
            if j < p {
                assert(t[i] == s[i] && t[j] == s[j]);
            } else if j == p {
                assert(t[i] == s[i]);
            } else if i < p {
                assert(t[i] == s[i] && t[j] == s[j - 1]);
            } else if i == p {
                assert(t[j] == s[j - 1]);
                crate::text::lemma_seq_lt_total(s[p].0, k);
                if j - 1 > p {
                    if seq_lt(k, s[p].0) {
                        crate::text::lemma_seq_lt_trans(k, s[p].0, s[j - 1].0);
                    }
                }
            } else {
                assert(t[i] == s[i - 1] && t[j] == s[j - 1]);
            }
        }
    }
    // Reading back.
    assert(t[p] == (k, v));
    assert forall|j: int| 0 <= j < p implies (#[trigger] t[j]).0 != k by {
        assert(t[j] == s[j]);
        if s[j].0 == k {
            crate::text::lemma_seq_lt_irrefl(k);
        }
    }
    lemma_key_lookup(t, k, p);
    if other != k {
        lemma_key_lookup_ordered(s, other);
        match key_lookup(s, other) {
            Some(w) => {
                let q = choose|q: int| 0 <= q < s.len() && s[q].0 == other && s[q].1 == w;
                let q2 = if replace || q < p {
                    q
                } else {
                    q + 1
                };
                assert(t[q2] == s[q]);
                assert forall|j: int| 0 <= j < q2 implies (#[trigger] t[j]).0 != other by {
                    assert(seq_lt(t[j].0, t[q2].0));
                    if t[j].0 == other {
                        crate::text::lemma_seq_lt_irrefl(other);
                    }
                }
                lemma_key_lookup(t, other, q2);
            },
            None => {
                assert forall|j: int| 0 <= j < t.len() implies (#[trigger] t[j]).0 != other by {
                    if replace {
                        if j != p {
                            assert(t[j] == s[j]);
                        }
                    } else if j < p {
                        assert(t[j] == s[j]);
                    } else if j > p {
                        assert(t[j] == s[j - 1]);
                    }
                }
                lemma_key_lookup_none(t, other);
            },
        }
    }
}

// ── Defaults ────────────────────────────────────────────────────────

/// The severity of a check that does not name one.
pub fn default_error() -> (r: String)
    ensures
        r@ == "error"@,
{
    owned("error")
}

/// The privilege escalation of an environment that does not name one.
pub fn default_privilege() -> (r: String)
    ensures
        r@ == "auto"@,
{
    owned("auto")
}

/// Whether a tool is required when the file does not say.
pub fn default_true() -> (r: bool)
    ensures
        r,
{
    true
}

impl Default for EnvironmentConfig {
    fn default() -> (r: Self)
        ensures
            r.privilege@ == "auto"@,
            r.allowed_runtimes@.len() == 0,
            r.required_shell is None,
    {
        EnvironmentConfig {
            privilege: default_privilege(),
            allowed_runtimes: Vec::new(),
            required_shell: None,
        }
    }
}

impl Default for HealthConfig {
    fn default() -> (r: Self)
        ensures
            r.environment.privilege@ == "auto"@,
            r.environment.allowed_runtimes@.len() == 0,
            r.environment.required_shell is None,
            r.tools@.len() == 0,
            r.checks@.len() == 0,
    {
        HealthConfig {
            environment: EnvironmentConfig::default(),
            tools: Vec::new(),
            checks: Vec::new(),
        }
    }
}

/// The commented template that `health init` writes.
pub fn blank_template() -> (r: &'static str)
    ensures
        r@ == health_template(),
{
    "# .repo/health.toml — environment requirements for this repository.\n\
     # Check with `repo health`; snapshot the current environment with\n\
     # `repo health export`.\n\
     \n\
     [environment]\n\
     # Privilege escalation: sudo, doas, pkexec, none, or auto.\n\
     privilege = \"auto\"\n\
     # Allowed runtime cages (empty = any), e.g. [\"host\", \"docker\"].\n\
     allowed_runtimes = []\n\
     # required_shell = \"zsh\"\n\
     \n\
     # [tools.rustc]\n\
     # required = true\n\
     # min_version = \"1.85.0\"\n\
     # install = \"curl --proto '=https' --tlsv1.2 -sSf https://sh.rustup.rs | sh\"\n\
     \n\
     # [checks.build]\n\
     # command = \"cargo build\"\n\
     # description = \"The workspace builds\"\n\
     # severity = \"error\"\n"
}

/// The text of the template.
pub open spec fn health_template() -> Seq<char> {
    "# .repo/health.toml — environment requirements for this repository.\n\
     # Check with `repo health`; snapshot the current environment with\n\
     # `repo health export`.\n\
     \n\
     [environment]\n\
     # Privilege escalation: sudo, doas, pkexec, none, or auto.\n\
     privilege = \"auto\"\n\
     # Allowed runtime cages (empty = any), e.g. [\"host\", \"docker\"].\n\
     allowed_runtimes = []\n\
     # required_shell = \"zsh\"\n\
     \n\
     # [tools.rustc]\n\
     # required = true\n\
     # min_version = \"1.85.0\"\n\
     # install = \"curl --proto '=https' --tlsv1.2 -sSf https://sh.rustup.rs | sh\"\n\
     \n\
     # [checks.build]\n\
     # command = \"cargo build\"\n\
     # description = \"The workspace builds\"\n\
     # severity = \"error\"\n"@
}

// ── Tools by name ───────────────────────────────────────────────────

impl HealthConfig {
    /// Tools and checks are keyed in strictly ascending order.
    pub open spec fn wf(&self) -> bool {
        keys_ordered(tool_views(self.tools@)) && keys_ordered(check_keys(self.checks@))
    }

    /// The requirement for the tool `name`.
    pub fn get_tool(&self, name: &str) -> (r: Option<&ToolRequirement>)
        ensures
            match r {
                Some(t) => key_lookup(tool_views(self.tools@), name@) == Some(t@),
                None => key_lookup(tool_views(self.tools@), name@) is None,
            },
    {
        let ghost tv = tool_views(self.tools@);
        let n = chars_of(name);
        let mut i: usize = 0;
        assert(tv.skip(0) =~= tv);
        while i < self.tools.len()
            invariant
                i <= self.tools.len(),
                tv == tool_views(self.tools@),
                n@ == name@,
                key_lookup(tv, name@) == key_lookup(tv.skip(i as int), name@),
            decreases self.tools.len() - i,
        {
            assert(tv.skip(i as int).drop_first() =~= tv.skip(i + 1));
            assert(tv.skip(i as int)[0] == (self.tools@[i as int].0@, self.tools@[i as int].1@));
            if seq_eq(&chars_of(self.tools[i].0.as_str()), &n) {
                return Some(&self.tools[i].1);
            }
            i += 1;
        }
        None
    }

    /// Stores `req` under `name`, replacing an earlier requirement.
    pub fn insert_tool(&mut self, name: String, req: ToolRequirement)
        requires
            keys_ordered(tool_views(old(self).tools@)),
        ensures
            tool_views(final(self).tools@) == key_insert(tool_views(old(self).tools@), name@, req@),
            keys_ordered(tool_views(final(self).tools@)),
            final(self).environment == old(self).environment,
            final(self).checks == old(self).checks,
    {
        let ghost tv = tool_views(self.tools@);
        let n = chars_of(name.as_str());
        let mut p: usize = 0;
        loop
            invariant
                p <= self.tools.len(),
                tv == tool_views(self.tools@),
                n@ == name@,
                forall|j: int| 0 <= j < p ==> seq_lt((#[trigger] tv[j]).0, name@),
            ensures
                p <= self.tools.len(),
                forall|j: int| 0 <= j < p ==> seq_lt((#[trigger] tv[j]).0, name@),
                p < self.tools.len() ==> !seq_lt(tv[p as int].0, name@),
            decreases self.tools.len() - p,
        {
            if p >= self.tools.len() {
                break;
            }
            assert(tv[p as int] == (self.tools@[p as int].0@, self.tools@[p as int].1@));
            if !str_lt(&chars_of(self.tools[p].0.as_str()), &n) {
                break;
            }
            p += 1;
        }
        proof {
            lemma_key_pos(tv, name@, p as int);
            law_key_insert(tv, name@, req@, name@);
        }
        let replace = p < self.tools.len() && seq_eq(&chars_of(self.tools[p].0.as_str()), &n);
        if replace {
            assert(tv[p as int].0 == name@);
            self.tools.set(p, (name, req));
        } else {
            self.tools.insert(p, (name, req));
        }
        assert(tool_views(self.tools@) =~= key_insert(tv, name@, req@));
    }
}

// ── Well-known tools ────────────────────────────────────────────────

/// What is known of a tool without configuration: where it is published,
/// how to install it, and how to ask for its latest version.
pub struct ToolMeta {
    pub url: Option<String>,
    pub install: Option<String>,
    pub latest_cmd: Option<String>,
    pub latest_args: Option<Vec<String>>,
}

pub struct MetaV {
    pub url: Option<Seq<char>>,
    pub install: Option<Seq<char>>,
    pub latest_cmd: Option<Seq<char>>,
    pub latest_args: Option<Seq<Seq<char>>>,
}

impl View for ToolMeta {
    type V = MetaV;

    open spec fn view(&self) -> MetaV {
        MetaV {
            url: opt_view(self.url),
            install: opt_view(self.install),
            latest_cmd: opt_view(self.latest_cmd),
            latest_args: opt_strings_view(self.latest_args),
        }
    }
}

pub open spec fn meta_s(url: Option<Seq<char>>, install: Option<Seq<char>>, cmd: Option<Seq<char>>, args: Option<Seq<Seq<char>>>) -> MetaV {
    MetaV { url, install, latest_cmd: cmd, latest_args: args }
}

/// `npm view <pkg> version`.
pub open spec fn npm_latest(pkg: Seq<char>) -> Option<Seq<Seq<char>>> {
    Some(seq!["view"@, pkg, "version"@])
}

/// The metadata of the well-known tools.
pub open spec fn tool_meta_s(name: Seq<char>) -> MetaV {
    if name == "git"@ {
        meta_s(Some("https://git-scm.com/downloads"@), Some("apt install git"@), None, None)
    } else if name == "rustc"@ || name == "cargo"@ || name == "clippy"@ || name == "rustfmt"@ {
        meta_s(
            Some("https://github.com/rust-lang/rust/releases"@),
            Some("curl --proto '=https' --tlsv1.2 -sSf https://sh.rustup.rs | sh"@),
            Some("rustup"@),
            Some(seq!["check"@]),
        )
    } else if name == "node"@ {
        meta_s(
            Some("https://nodejs.org/en/download"@),
            Some("curl -fsSL https://fnm.vercel.app/install | bash && fnm install --lts"@),
            Some("npm"@),
            npm_latest("node"@),
        )
    } else if name == "npm"@ {
        meta_s(
            Some("https://docs.npmjs.com/downloading-and-installing-node-js-and-npm"@),
            None,
            Some("npm"@),
            npm_latest("npm"@),
        )
    } else if name == "pnpm"@ {
        meta_s(
            Some("https://pnpm.io/installation"@),
            Some("npm install -g pnpm"@),
            Some("npm"@),
            npm_latest("pnpm"@),
        )
    } else if name == "bun"@ {
        meta_s(Some("https://bun.sh"@), Some("curl -fsSL https://bun.sh/install | bash"@), None, None)
    } else if name == "skills"@ {
        meta_s(
            Some("https://www.npmjs.com/package/skills"@),
            Some("npm install -g skills"@),
            Some("npm"@),
            npm_latest("skills"@),
        )
    } else if name == "python"@ {
        meta_s(Some("https://www.python.org/downloads/"@), Some("apt install python3"@), None, None)
    } else if name == "uv"@ {
        meta_s(
            Some("https://docs.astral.sh/uv/getting-started/installation/"@),
            Some("curl -LsSf https://astral.sh/uv/install.sh | sh"@),
            Some("uv"@),
            Some(seq!["self"@, "update"@, "--dry-run"@]),
        )
    } else if name == "docker"@ {
        meta_s(
            Some("https://docs.docker.com/get-docker/"@),
            Some("curl -fsSL https://get.docker.com | sh"@),
            None,
            None,
        )
    } else if name == "make"@ {
        meta_s(Some("https://www.gnu.org/software/make/"@), Some("apt install make"@), None, None)
    } else if name == "cmake"@ {
        meta_s(Some("https://cmake.org/download/"@), Some("apt install cmake"@), None, None)
    } else if name == "go"@ {
        meta_s(Some("https://go.dev/dl/"@), Some("https://go.dev/doc/install"@), None, None)
    } else if name == "zsh"@ {
        meta_s(Some("https://www.zsh.org/"@), Some("apt install zsh"@), None, None)
    } else if name == "bash"@ {
        meta_s(Some("https://www.gnu.org/software/bash/"@), None, None, None)
    } else {
        meta_s(None, None, None, None)
    }
}

fn some(s: &str) -> (r: Option<String>)
    ensures
        opt_view(r) == Some(s@),
{
    Some(owned(s))
}

fn meta(url: Option<String>, install: Option<String>, cmd: Option<String>, args: Option<Vec<String>>) -> (r: ToolMeta)
    ensures
        r@ == meta_s(opt_view(url), opt_view(install), opt_view(cmd), opt_strings_view(args)),
{
    ToolMeta { url, install, latest_cmd: cmd, latest_args: args }
}

fn arg_list(items: &[&str]) -> (r: Vec<String>)
    ensures
        r@.len() == items@.len(),
        forall|i: int| 0 <= i < items@.len() ==> (#[trigger] r@[i])@ == items@[i]@,
{
    let mut out: Vec<String> = Vec::new();
    let mut i: usize = 0;
    while i < items.len()
        invariant
            i <= items.len(),
            out@.len() == i,
            forall|j: int| 0 <= j < i ==> (#[trigger] out@[j])@ == items@[j]@,
        decreases items.len() - i,
    {
        out.push(owned(items[i]));
        i += 1;
    }
    out
}

fn npm_view(pkg: &str) -> (r: Option<Vec<String>>)
    ensures
        opt_strings_view(r) == npm_latest(pkg@),
{
    let v = arg_list(&["view", pkg, "version"]);
    assert(strings_view(v@) =~= seq!["view"@, pkg@, "version"@]);
    Some(v)
}

/// The metadata of a well-known tool (nothing for others).
pub fn tool_metadata(name: &str) -> (r: ToolMeta)
    ensures
        r@ == tool_meta_s(name@),
{
    let n = chars_of(name);
    let is = |lit: &str| -> (b: bool)
        ensures
            b == (name@ == lit@),
        { seq_eq(&n, &chars_of(lit)) };
    if is("git") {
        meta(some("https://git-scm.com/downloads"), some("apt install git"), None, None)
    } else if is("rustc") || is("cargo") || is("clippy") || is("rustfmt") {
        let args = arg_list(&["check"]);
        assert(strings_view(args@) =~= seq!["check"@]);
        meta(
            some("https://github.com/rust-lang/rust/releases"),
            some("curl --proto '=https' --tlsv1.2 -sSf https://sh.rustup.rs | sh"),
            some("rustup"),
            Some(args),
        )
    } else if is("node") {
        meta(
            some("https://nodejs.org/en/download"),
            some("curl -fsSL https://fnm.vercel.app/install | bash && fnm install --lts"),
            some("npm"),
            npm_view("node"),
        )
    } else if is("npm") {
        meta(
            some("https://docs.npmjs.com/downloading-and-installing-node-js-and-npm"),
            None,
            some("npm"),
            npm_view("npm"),
        )
    } else if is("pnpm") {
        meta(some("https://pnpm.io/installation"), some("npm install -g pnpm"), some("npm"), npm_view("pnpm"))
    } else if is("bun") {
        meta(some("https://bun.sh"), some("curl -fsSL https://bun.sh/install | bash"), None, None)
    } else if is("skills") {
        meta(
            some("https://www.npmjs.com/package/skills"),
            some("npm install -g skills"),
            some("npm"),
            npm_view("skills"),
        )
    } else if is("python") {
        meta(some("https://www.python.org/downloads/"), some("apt install python3"), None, None)
    } else if is("uv") {
        let args = arg_list(&["self", "update", "--dry-run"]);
        assert(strings_view(args@) =~= seq!["self"@, "update"@, "--dry-run"@]);
        meta(
            some("https://docs.astral.sh/uv/getting-started/installation/"),
            some("curl -LsSf https://astral.sh/uv/install.sh | sh"),
            some("uv"),
            Some(args),
        )
    } else if is("docker") {
        meta(some("https://docs.docker.com/get-docker/"), some("curl -fsSL https://get.docker.com | sh"), None, None)
    } else if is("make") {
        meta(some("https://www.gnu.org/software/make/"), some("apt install make"), None, None)
    } else if is("cmake") {
        meta(some("https://cmake.org/download/"), some("apt install cmake"), None, None)
    } else if is("go") {
        meta(some("https://go.dev/dl/"), some("https://go.dev/doc/install"), None, None)
    } else if is("zsh") {
        meta(some("https://www.zsh.org/"), some("apt install zsh"), None, None)
    } else if is("bash") {
        meta(some("https://www.gnu.org/software/bash/"), None, None, None)
    } else {
        meta(None, None, None, None)
    }
}

// ── Versions ────────────────────────────────────────────────────────

/// How many leading characters of `w` are digits or dots.
pub open spec fn digits_dots_len(w: Seq<char>) -> nat
    decreases w.len(),
{
    if w.len() > 0 && (is_digit(w[0]) || w[0] == '.') {
        1 + digits_dots_len(w.drop_first())
    } else {
        0
    }
}

/// The version a word spells, if any: after an optional leading `v`, a word
/// that starts with a digit and has a dot gives its leading run of digits
/// and dots, when that run has a dot.
pub open spec fn word_version(w: Seq<char>) -> Option<Seq<char>> {
    let u = if w.len() > 0 && w[0] == 'v' {
        w.drop_first()
    } else {
        w
    };
    if u.len() > 0 && is_digit(u[0]) && u.contains('.') {
        let c = u.take(digits_dots_len(u) as int);
        if c.contains('.') {
            Some(c)
        } else {
            None
        }
    } else {
        None
    }
}

/// The first version among the whitespace-separated words of `s` from `i`.
pub open spec fn version_from(s: Seq<char>, i: int) -> Seq<char>
    decreases s.len() - i,
{
    if i < 0 || i >= s.len() {
        Seq::empty()
    } else if is_ws(s[i]) {
        version_from(s, i + 1)
    } else {
        let j = word_end(s, i);
        proof {
            lemma_word_end(s, i + 1);
        }
        match word_version(s.subrange(i, j)) {
            Some(v) => v,
            None => version_from(s, j),
        }
    }
}

/// The semver-like fragment of a version banner: `"rustc 1.94.0 (...)"`
/// gives `"1.94.0"`, `"v20.11.0"` gives `"20.11.0"`; empty when none.
pub open spec fn extract_version_s(raw: Seq<char>) -> Seq<char> {
    version_from(raw, 0)
}

fn digits_dots_prefix(u: &Vec<char>) -> (r: Vec<char>)
    ensures
        r@ == u@.take(digits_dots_len(u@) as int),
{
    let mut k: usize = 0;
    assert(u@.skip(0) =~= u@);
    while k < u.len() && (('0' <= u[k] && u[k] <= '9') || u[k] == '.')
        invariant
            k <= u.len(),
            digits_dots_len(u@) == k + digits_dots_len(u@.skip(k as int)),
        decreases u.len() - k,
    {
        assert(u@.skip(k as int).drop_first() =~= u@.skip(k + 1));
        k += 1;
    }
    subvec(u, 0, k)
}

fn version_of_word(w: &Vec<char>) -> (r: Option<Vec<char>>)
    ensures
        match r {
            Some(v) => word_version(w@) == Some(v@),
            None => word_version(w@) is None,
        },
{
    let u = if w.len() > 0 && w[0] == 'v' {
        subvec(w, 1, w.len())
    } else {
        subvec(w, 0, w.len())
    };
    assert(u@ =~= (if w@.len() > 0 && w@[0] == 'v' {
        w@.drop_first()
    } else {
        w@
    }));
    if u.len() > 0 && '0' <= u[0] && u[0] <= '9' && contains_char(&u, '.') {
        let c = digits_dots_prefix(&u);
        if contains_char(&c, '.') {
            Some(c)
        } else {
            None
        }
    } else {
        None
    }
}

/// Finds the version in a version banner (see [`extract_version_s`]).
pub fn extract_version_number(raw: &str) -> (r: String)
    ensures
        r@ == extract_version_s(raw@),
{
    let s = chars_of(raw);
    let mut i: usize = 0;
    while i < s.len()
        invariant
            i <= s.len(),
            s@ == raw@,
            version_from(raw@, 0) == version_from(raw@, i as int),
        decreases s.len() - i,
    {
        if is_whitespace(s[i]) {
            i += 1;
        } else {
            let mut j = i + 1;
            while j < s.len() && !is_whitespace(s[j])
                invariant
                    i < j <= s.len(),
                    s@ == raw@,
                    word_end(raw@, i as int) == word_end(raw@, j as int),
                decreases s.len() - j,
            {
                j += 1;
            }
            proof {
                lemma_word_end(raw@, j as int);
            }
            let w = subvec(&s, i, j);
            match version_of_word(&w) {
                Some(v) => {
                    return string_of(&v);
                },
                None => {},
            }
            i = j;
        }
    }
    String::new()
}

// ── Snapshot ────────────────────────────────────────────────────────

/// The requirement a snapshot records for a tool found at version `raw`:
/// required, at least the version it reports (when one is found), with the
/// tool's well-known metadata.
pub open spec fn snapshot_tool_s(name: Seq<char>, raw: Seq<char>) -> ToolV {
    let clean = extract_version_s(raw);
    let m = tool_meta_s(name);
    ToolV {
        required: true,
        min_version: if clean.len() == 0 {
            None
        } else {
            Some(clean)
        },
        exact_version: None,
        command: None,
        version_args: None,
        url: m.url,
        install: m.install,
        latest_cmd: m.latest_cmd,
        latest_args: m.latest_args,
    }
}

pub open spec fn probe_views(v: Seq<(String, Option<String>)>) -> Seq<(Seq<char>, Option<Seq<char>>)> {
    v.map_values(|p: (String, Option<String>)| (p.0@, opt_view(p.1)))
}

/// The tools of a snapshot: each probed tool that reported a version,
/// later probes of a name replacing earlier ones.
pub open spec fn snapshot_tools_s(probes: Seq<(Seq<char>, Option<Seq<char>>)>) -> Seq<(Seq<char>, ToolV)>
    decreases probes.len(),
{
    if probes.len() == 0 {
        seq![]
    } else {
        let rest = snapshot_tools_s(probes.drop_last());
        match probes.last().1 {
            Some(raw) => key_insert(rest, probes.last().0, snapshot_tool_s(probes.last().0, raw)),
            None => rest,
        }
    }
}

/// The shell a `$SHELL` value names: its file name.
pub open spec fn shell_name_s(shell: Option<Seq<char>>) -> Option<Seq<char>> {
    match shell {
        Some(s) => path_file_name(s),
        None => None,
    }
}

fn snapshot_tool(name: &str, raw: &str) -> (r: ToolRequirement)
    ensures
        r@ == snapshot_tool_s(name@, raw@),
{
    let clean = extract_version_number(raw);
    let m = tool_metadata(name);
    let min_version = if clean.as_str().is_empty() {
        None
    } else {
        Some(clean)
    };
    ToolRequirement {
        required: true,
        min_version,
        exact_version: None,
        command: None,
        version_args: None,
        url: m.url,
        install: m.install,
        latest_cmd: m.latest_cmd,
        latest_args: m.latest_args,
    }
}

/// The configuration of the current environment: every probed tool that
/// reported a version (see [`snapshot_tools_s`]), the privilege escalation
/// found, the runtime cage as the only allowed one, and the shell named by
/// `$SHELL`.
pub fn snapshot_current(
    checks: &[(String, Option<String>)],
    cage: &str,
    privilege: String,
    shell: Option<&str>,
) -> (r: HealthConfig)
    ensures
        tool_views(r.tools@) == snapshot_tools_s(probe_views(checks@)),
        r.wf(),
        r.environment.privilege@ == privilege@,
        strings_view(r.environment.allowed_runtimes@) == seq![cage@],
        opt_view(r.environment.required_shell) == shell_name_s(
            match shell {
                Some(s) => Some(s@),
                None => None,
            },
        ),
        r.checks@.len() == 0,
{
    let mut cfg = HealthConfig {
        environment: EnvironmentConfig {
            privilege,
            allowed_runtimes: Vec::new(),
            required_shell: match shell {
                Some(s) => file_name(s),
                None => None,
            },
        },
        tools: Vec::new(),
        checks: Vec::new(),
    };
    cfg.environment.allowed_runtimes.push(owned(cage));
    let ghost pv = probe_views(checks@);
    let mut i: usize = 0;
    while i < checks.len()
        invariant
            i <= checks.len(),
            pv == probe_views(checks@),
            tool_views(cfg.tools@) == snapshot_tools_s(pv.take(i as int)),
            keys_ordered(tool_views(cfg.tools@)),
            cfg.checks@.len() == 0,
            cfg.environment.privilege@ == privilege@,
            strings_view(cfg.environment.allowed_runtimes@) == seq![cage@],
            opt_view(cfg.environment.required_shell) == shell_name_s(
                match shell {
                    Some(s) => Some(s@),
                    None => None,
                },
            ),
        decreases checks.len() - i,
    {
        assert(pv.take(i + 1).drop_last() =~= pv.take(i as int));
        assert(pv.take(i + 1).last() == (checks@[i as int].0@, opt_view(checks@[i as int].1)));
        let (name, version) = &checks[i];
        match version {
            Some(raw) => {
                let req = snapshot_tool(name.as_str(), raw.as_str());
                cfg.insert_tool(name.clone(), req);
            },
            None => {},
        }
        i += 1;
    }
    assert(pv.take(checks.len() as int) =~= pv);
    assert(keys_ordered(check_keys(cfg.checks@)));
    cfg
}

// ── Latest versions ─────────────────────────────────────────────────

/// The command that asks for a tool's latest version: the configured
/// `latest_cmd` (with `latest_args`, `--version` by default), else the
/// well-known one (with its arguments, none by default); none when neither
/// exists.
pub open spec fn latest_command_s(name: Seq<char>, tool: Option<ToolV>) -> Option<(Seq<char>, Seq<Seq<char>>)> {
    match tool {
        Some(req) if req.latest_cmd is Some => Some(
            (
                req.latest_cmd.unwrap(),
                match req.latest_args {
                    Some(a) => a,
                    None => seq!["--version"@],
                },
            ),
        ),
        _ => {
            let m = tool_meta_s(name);
            match m.latest_cmd {
                Some(c) => Some(
                    (
                        c,
                        match m.latest_args {
                            Some(a) => a,
                            None => seq![],
                        },
                    ),
                ),
                None => None,
            }
        },
    }
}

fn copy_strings(v: &Vec<String>) -> (r: Vec<String>)
    ensures
        strings_view(r@) == strings_view(v@),
{
    let mut out: Vec<String> = Vec::new();
    let mut i: usize = 0;
    while i < v.len()
        invariant
            i <= v.len(),
            strings_view(out@) == strings_view(v@).take(i as int),
        decreases v.len() - i,
    {
        let ghost b = strings_view(out@);
        out.push(v[i].clone());
        assert(strings_view(out@) =~= b.push(v@[i as int]@));
        assert(strings_view(v@).take(i + 1) =~= strings_view(v@).take(i as int).push(v@[i as int]@));
        i += 1;
    }
    assert(strings_view(v@).take(v.len() as int) =~= strings_view(v@));
    out
}

/// The command and arguments that ask for the latest version of `name`
/// (see [`latest_command_s`]).
pub fn latest_command(name: &str, cfg: Option<&HealthConfig>) -> (r: Option<(String, Vec<String>)>)
    ensures
        match r {
            Some((c, a)) => latest_command_s(
                name@,
                match cfg {
                    Some(h) => key_lookup(tool_views(h.tools@), name@),
                    None => None,
                },
            ) == Some((c@, strings_view(a@))),
            None => latest_command_s(
                name@,
                match cfg {
                    Some(h) => key_lookup(tool_views(h.tools@), name@),
                    None => None,
                },
            ) is None,
        },
{
    let configured = match cfg {
        Some(h) => h.get_tool(name),
        None => None,
    };
    match configured {
        Some(req) => match &req.latest_cmd {
            Some(lc) => {
                let args = match &req.latest_args {
                    Some(a) => copy_strings(a),
                    None => {
                        let v = arg_list(&["--version"]);
                        assert(strings_view(v@) =~= seq!["--version"@]);
                        v
                    },
                };
                return Some((lc.clone(), args));
            },
            None => {},
        },
        None => {},
    }
    let m = tool_metadata(name);
    match m.latest_cmd {
        Some(c) => {
            let args = match m.latest_args {
                Some(a) => a,
                None => {
                    let v: Vec<String> = Vec::new();
                    assert(strings_view(v@) =~= seq![]);
                    v
                },
            };
            Some((c, args))
        },
        None => None,
    }
}

/// The latest version `rustup check` reports for the stable toolchain: on
/// the first `stable` line with an arrow, the version after it (when one is
/// found there); nothing when such a line says it is up to date.
pub open spec fn rustup_latest_s(lines: Seq<Seq<char>>) -> Option<Seq<char>>
    decreases lines.len(),
{
    if lines.len() == 0 {
        None
    } else {
        let line = lines[0];
        let rest = rustup_latest_s(lines.drop_first());
        if "stable"@.is_prefix_of(line) {
            match find_s(line, "->"@) {
                Some(p) => {
                    let v = extract_version_s(trim_s(line.skip(p + 2)));
                    if v.len() > 0 {
                        Some(v)
                    } else {
                        rest
                    }
                },
                None => if find_s(line, "Up to date"@) is Some {
                    None
                } else {
                    rest
                },
            }
        } else {
            rest
        }
    }
}

/// The latest version a check command printed: its standard output, or its
/// error output when the former is empty, read as `rustup check` output for
/// `rustup` and as a bare version otherwise.
pub open spec fn latest_from_output_s(cmd: Seq<char>, stdout: Seq<char>, stderr: Seq<char>) -> Option<Seq<char>> {
    let raw = if stdout.len() == 0 {
        stderr
    } else {
        stdout
    };
    if cmd == "rustup"@ {
        rustup_latest_s(lines_s(raw))
    } else {
        let v = extract_version_s(trim_s(raw));
        if v.len() == 0 {
            None
        } else {
            Some(v)
        }
    }
}

/// Reads the latest version from what a check command printed (see
/// [`latest_from_output_s`]).
pub fn latest_from_output(cmd: &str, stdout: &str, stderr: &str) -> (r: Option<String>)
    ensures
        opt_view(r) == latest_from_output_s(cmd@, stdout@, stderr@),
{
    let raw = if stdout.is_empty() {
        chars_of(stderr)
    } else {
        chars_of(stdout)
    };
    if seq_eq(&chars_of(cmd), &chars_of("rustup")) {
        let ls = lines(&raw);
        let ghost lv = views(ls@);
        let stable = chars_of("stable");
        let arrow = chars_of("->");
        let up = chars_of("Up to date");
        let mut i: usize = 0;
        assert(lv.skip(0) =~= lv);
        while i < ls.len()
            invariant
                i <= ls.len(),
                lv == views(ls@),
                lv == lines_s(raw@),
                stable@ == "stable"@,
                arrow@ == "->"@,
                up@ == "Up to date"@,
                rustup_latest_s(lv) == rustup_latest_s(lv.skip(i as int)),
                raw@ == (if stdout@.len() == 0 {
                    stderr@
                } else {
                    stdout@
                }),
                cmd@ == "rustup"@,
            decreases ls.len() - i,
        {
            assert(lv.skip(i as int).drop_first() =~= lv.skip(i + 1));
            assert(lv.skip(i as int)[0] == ls@[i as int]@);
            let line = &ls[i];
            if starts_with(line, &stable) {
                match find(line, &arrow) {
                    Some(p) => {
                        proof {
                            reveal_strlit("->");
                            assert(arrow@.len() == 2);
                            crate::frontmatter::lemma_find_bound(line@, arrow@, p as int);
                        }
                        let after = subvec(line, p + 2, line.len());
                        assert(after@ =~= line@.skip(p + 2));
                        let t = trim(&after);
                        let v = extract_version_number(string_of(&t).as_str());
                        if !v.as_str().is_empty() {
                            return Some(v);
                        }
                    },
                    None => {
                        if find(line, &up).is_some() {
                            assert(rustup_latest_s(lv.skip(i as int)) is None);
                            return None;
                        }
                    },
                }
            }
            i += 1;
        }
        None
    } else {
        let t = trim(&raw);
        let v = extract_version_number(string_of(&t).as_str());
        if v.as_str().is_empty() {
            None
        } else {
            Some(v)
        }
    }
}

// ── Privilege escalation ────────────────────────────────────────────

/// The privilege-escalation tool recorded in a snapshot: the first of
/// `sudo`, `doas`, `pkexec` that is on the `PATH`, else `none`.
pub open spec fn privilege_s(sudo: bool, doas: bool, pkexec: bool) -> Seq<char> {
    if sudo {
        "sudo"@
    } else if doas {
        "doas"@
    } else if pkexec {
        "pkexec"@
    } else {
        "none"@
    }
}

/// The privilege tool, given which of `sudo`, `doas` and `pkexec` exist.
pub fn privilege_from(sudo: bool, doas: bool, pkexec: bool) -> (r: String)
    ensures
        r@ == privilege_s(sudo, doas, pkexec),
{
    if sudo {
        "sudo".to_string()
    } else if doas {
        "doas".to_string()
    } else if pkexec {
        "pkexec".to_string()
    } else {
        "none".to_string()
    }
}

} // verus!

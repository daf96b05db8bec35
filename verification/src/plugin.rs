//! Plugins: what they provide, the built-in ones, those declared under
//! `.repo/plugins/`, and how they are listed and looked up.
use vstd::prelude::*;
use crate::manifest::Manifest;
use crate::order::{law_sort_by_key, lemma_key_insert_pos, ordered_by_key, sort_by_key_s};
use crate::text::{chars_of, opt_view, owned, seq_eq, seq_lt, str_lt, strings_view};

verus! {

/// What a plugin can provide.
#[derive(Clone, Copy, Debug, PartialEq, Eq, Structural)]
pub enum Capability {
    Command,
    Validation,
    Hook,
}

/// A discovered plugin, built in or external.
pub struct PluginInfo {
    pub name: String,
    pub version: String,
    pub description: String,
    pub capabilities: Vec<Capability>,
    pub builtin: bool,
    /// Where an external plugin lives.
    pub path: Option<String>,
}

/// The value of a [`PluginInfo`].
pub struct PluginV {
    pub name: Seq<char>,
    pub version: Seq<char>,
    pub description: Seq<char>,
    pub capabilities: Seq<Capability>,
    pub builtin: bool,
    pub path: Option<Seq<char>>,
}

impl View for PluginInfo {
    type V = PluginV;

    open spec fn view(&self) -> PluginV {
        PluginV {
            name: self.name@,
            version: self.version@,
            description: self.description@,
            capabilities: self.capabilities@,
            builtin: self.builtin,
            path: opt_view(self.path),
        }
    }
}

pub open spec fn plugin_views(v: Seq<PluginInfo>) -> Seq<PluginV> {
    v.map_values(|p: PluginInfo| p@)
}

// ── Capabilities ────────────────────────────────────────────────────

/// The capability a manifest names.
pub open spec fn capability_s(s: Seq<char>) -> Option<Capability> {
    if s == "command"@ {
        Some(Capability::Command)
    } else if s == "validation"@ {
        Some(Capability::Validation)
    } else if s == "hook"@ {
        Some(Capability::Hook)
    } else {
        None
    }
}

/// The capability named `s`, if it is one.
pub fn capability_of(s: &str) -> (r: Option<Capability>)
    ensures
        r == capability_s(s@),
{
    let v = chars_of(s);
    if seq_eq(&v, &chars_of("command")) {
        Some(Capability::Command)
    } else if seq_eq(&v, &chars_of("validation")) {
        Some(Capability::Validation)
    } else if seq_eq(&v, &chars_of("hook")) {
        Some(Capability::Hook)
    } else {
        None
    }
}

/// The name of a capability.
pub open spec fn capability_label_s(c: Capability) -> Seq<char> {
    match c {
        Capability::Command => "command"@,
        Capability::Validation => "validation"@,
        Capability::Hook => "hook"@,
    }
}

pub fn capability_label(c: Capability) -> (r: &'static str)
    ensures
        r@ == capability_label_s(c),
{
    match c {
        Capability::Command => "command",
        Capability::Validation => "validation",
        Capability::Hook => "hook",
    }
}

/// A capability named by its label is that capability.
pub proof fn law_capability_label_round_trip(c: Capability)
    ensures
        capability_s(capability_label_s(c)) == Some(c),
{
    reveal_strlit("command");
    reveal_strlit("validation");
    reveal_strlit("hook");
    assert("command"@[0] != "validation"@[0] && "command"@[0] != "hook"@[0]);
    assert("validation"@[0] != "hook"@[0]);
}

/// The labels of capabilities, in order.
pub fn capability_labels(capabilities: &Vec<Capability>) -> (r: Vec<&'static str>)
    ensures
        r.len() == capabilities.len(),
        forall|i: int| 0 <= i < r.len() ==> (#[trigger] r@[i])@ == capability_label_s(capabilities@[i]),
{
    let mut out: Vec<&'static str> = Vec::new();
    let mut i: usize = 0;
    while i < capabilities.len()
        invariant
            i <= capabilities.len(),
            out.len() == i,
            forall|j: int| 0 <= j < i ==> (#[trigger] out@[j])@ == capability_label_s(capabilities@[j]),
        decreases capabilities.len() - i,
    {
        out.push(capability_label(capabilities[i]));
        i += 1;
    }
    out
}

/// The capabilities a manifest's `provides` list names, in order; unknown
/// names are skipped.
pub open spec fn capabilities_s(provides: Seq<Seq<char>>) -> Seq<Capability>
    decreases provides.len(),
{
    if provides.len() == 0 {
        seq![]
    } else {
        let rest = capabilities_s(provides.drop_last());
        match capability_s(provides.last()) {
            Some(c) => rest.push(c),
            None => rest,
        }
    }
}

pub fn capabilities_from(provides: &Vec<String>) -> (r: Vec<Capability>)
    ensures
        r@ == capabilities_s(strings_view(provides@)),
{
    let ghost pv = strings_view(provides@);
    let mut out: Vec<Capability> = Vec::new();
    let mut i: usize = 0;
    while i < provides.len()
        invariant
            i <= provides.len(),
            pv == strings_view(provides@),
            out@ == capabilities_s(pv.take(i as int)),
        decreases provides.len() - i,
    {
        assert(pv.take(i + 1).drop_last() =~= pv.take(i as int));
        assert(pv.take(i + 1).last() == provides@[i as int]@);
        match capability_of(provides[i].as_str()) {
            Some(c) => out.push(c),
            None => {},
        }
        i += 1;
    }
    assert(pv.take(provides.len() as int) =~= pv);
    out
}

// ── Built-in and external plugins ───────────────────────────────────

pub open spec fn builtin_s(name: Seq<char>, version: Seq<char>, description: Seq<char>, caps: Seq<Capability>) -> PluginV {
    PluginV { name, version, description, capabilities: caps, builtin: true, path: None }
}

/// The built-in plugins, each at the tool's version.
pub open spec fn builtin_plugins_s(version: Seq<char>) -> Seq<PluginV> {
    seq![
        builtin_s("docs"@, version, "Browse plans, ADRs, and references in _docs/"@, seq![Capability::Command, Capability::Validation]),
        builtin_s("health"@, version, "Check development environment and repository health"@, seq![Capability::Command, Capability::Validation]),
        builtin_s("skills"@, version, "Manage required agent skills"@, seq![Capability::Command]),
        builtin_s("prompt"@, version, "Reusable prompt snippets for AI agents and workflows"@, seq![Capability::Command]),
        builtin_s("ulid"@, version, "Generate valid ULIDs"@, seq![Capability::Command]),
    ]
}

fn builtin(name: &str, version: &str, description: &str, validation: bool) -> (r: PluginInfo)
    ensures
        r@ == builtin_s(
            name@,
            version@,
            description@,
            if validation {
                seq![Capability::Command, Capability::Validation]
            } else {
                seq![Capability::Command]
            },
        ),
{
    let mut caps: Vec<Capability> = Vec::new();
    caps.push(Capability::Command);
    if validation {
        caps.push(Capability::Validation);
    }
    let r = PluginInfo {
        name: owned(name),
        version: owned(version),
        description: owned(description),
        capabilities: caps,
        builtin: true,
        path: None,
    };
    assert(r@.capabilities =~= (if validation {
        seq![Capability::Command, Capability::Validation]
    } else {
        seq![Capability::Command]
    }));
    r
}

/// The built-in plugins (see [`builtin_plugins_s`]).
pub fn builtin_plugins(version: &str) -> (r: Vec<PluginInfo>)
    ensures
        plugin_views(r@) == builtin_plugins_s(version@),
{
    let mut v: Vec<PluginInfo> = Vec::new();
    v.push(builtin("docs", version, "Browse plans, ADRs, and references in _docs/", true));
    v.push(
        builtin("health", version, "Check development environment and repository health", true),
    );
    v.push(builtin("skills", version, "Manage required agent skills", false));
    v.push(builtin("prompt", version, "Reusable prompt snippets for AI agents and workflows", false));
    v.push(builtin("ulid", version, "Generate valid ULIDs", false));
    assert(plugin_views(v@) =~= builtin_plugins_s(version@));
    v
}

/// An external plugin declared by a manifest in the directory `path`.
pub open spec fn manifest_plugin_s(name: Seq<char>, version: Seq<char>, description: Seq<char>, provides: Seq<Seq<char>>, path: Seq<char>) -> PluginV {
    PluginV {
        name,
        version,
        description,
        capabilities: capabilities_s(provides),
        builtin: false,
        path: Some(path),
    }
}

/// The plugin a manifest declares, found in the directory `path`.
pub fn from_manifest(m: Manifest, path: String) -> (r: PluginInfo)
    ensures
        r@ == manifest_plugin_s(
            m.plugin.name@,
            m.plugin.version@,
            m.plugin.description@,
            strings_view(m.plugin.provides@),
            path@,
        ),
{
    let capabilities = capabilities_from(&m.plugin.provides);
    PluginInfo {
        name: m.plugin.name,
        version: m.plugin.version,
        description: m.plugin.description,
        capabilities,
        builtin: false,
        path: Some(path),
    }
}

/// A plugin directory without a manifest that holds an executable of its
/// own name: an unversioned command plugin.
pub open spec fn executable_plugin_s(name: Seq<char>, exe_path: Seq<char>) -> PluginV {
    PluginV {
        name,
        version: Seq::empty(),
        description: "Plugin at .repo/plugins/"@ + name,
        capabilities: seq![Capability::Command],
        builtin: false,
        path: Some(exe_path),
    }
}

pub fn executable_plugin(name: String, exe_path: String) -> (r: PluginInfo)
    ensures
        r@ == executable_plugin_s(name@, exe_path@),
{
    let mut description = owned("Plugin at .repo/plugins/");
    description.append(name.as_str());
    let mut caps: Vec<Capability> = Vec::new();
    caps.push(Capability::Command);
    let r = PluginInfo {
        name,
        version: String::new(),
        description,
        capabilities: caps,
        builtin: false,
        path: Some(exe_path),
    };
    assert(r@.capabilities =~= seq![Capability::Command]);
    r
}

// ── Listing and lookup ──────────────────────────────────────────────

/// The name of a plugin: the key plugins are listed by.
pub open spec fn plugin_name() -> spec_fn(PluginV) -> Seq<char> {
    |p: PluginV| p.name
}

/// Sorts plugins by name, keeping the order of plugins with the same name.
pub fn sort_plugins(v: Vec<PluginInfo>) -> (r: Vec<PluginInfo>)
    ensures
        plugin_views(r@) == sort_by_key_s(plugin_views(v@), plugin_name()),
{
    let ghost input = plugin_views(v@);
    let mut v = v;
    let mut i: usize = 0;
    assert(input.take(0) =~= sort_by_key_s(input.take(0), plugin_name()));
    assert(plugin_views(v@).take(0) =~= input.take(0));
    while i < v.len()
        invariant
            i <= v.len(),
            v.len() == input.len(),
            plugin_views(v@).take(i as int) == sort_by_key_s(input.take(i as int), plugin_name()),
            plugin_views(v@).skip(i as int) == input.skip(i as int),
        decreases v.len() - i,
    {
        let ghost before = plugin_views(v@);
        let ghost sorted = before.take(i as int);
        let x = v.remove(i);
        assert(x@ == input[i as int]) by {
            assert(before.skip(i as int)[0] == before[i as int]);
            assert(input.skip(i as int)[0] == input[i as int]);
        }
        assert(plugin_views(v@) =~= before.remove(i as int));
        assert(plugin_views(v@).take(i as int) =~= sorted);
        let xn = chars_of(x.name.as_str());
        let mut k: usize = 0;
        loop
            invariant
                k <= i,
                i < v.len() + 1,
                xn@ == x@.name,
                plugin_views(v@).take(i as int) == sorted,
                forall|j: int| 0 <= j < k ==> !seq_lt(x@.name, #[trigger] sorted[j].name),
            ensures
                k <= i,
                forall|j: int| 0 <= j < k ==> !seq_lt(x@.name, #[trigger] sorted[j].name),
                k < i ==> seq_lt(x@.name, sorted[k as int].name),
            decreases i - k,
        {
            if k >= i {
                break;
            }
            assert(sorted[k as int] == v@[k as int]@) by {
                assert(plugin_views(v@).take(i as int)[k as int] == plugin_views(v@)[k as int]);
            }
            if str_lt(&xn, &chars_of(v[k].name.as_str())) {
                break;
            }
            k += 1;
        }
        proof {
            lemma_key_insert_pos(sorted, x@, plugin_name(), k as int);
            assert(input.take(i + 1).drop_last() =~= input.take(i as int));
            assert(input.take(i + 1).last() == input[i as int]);
        }
        let ghost mid = plugin_views(v@);
        v.insert(k, x);
        assert(plugin_views(v@) =~= mid.insert(k as int, x@));
        assert(plugin_views(v@).take(i + 1) =~= sorted.insert(k as int, x@));
        assert(plugin_views(v@).skip(i + 1) =~= input.skip(i + 1)) by {
            assert forall|j: int| 0 <= j < input.len() - (i + 1) implies #[trigger] plugin_views(
                v@,
            ).skip(i + 1)[j] == input.skip(i + 1)[j] by {
                assert(plugin_views(v@)[i + 1 + j] == mid[i + j]);
                assert(mid[i + j] == before[i + 1 + j]);
                assert(before.skip(i as int)[j + 1] == input.skip(i as int)[j + 1]);
            }
        }
        i += 1;
    }
    assert(input.take(v.len() as int) =~= input);
    assert(plugin_views(v@).take(v.len() as int) =~= plugin_views(v@));
    v
}

/// The first plugin named `name`.
pub open spec fn named_pos(ps: Seq<PluginV>, name: Seq<char>) -> Option<int>
    decreases ps.len(),
{
    if ps.len() == 0 {
        None
    } else if ps[0].name == name {
        Some(0)
    } else {
        match named_pos(ps.drop_first(), name) {
            Some(k) => Some(k + 1),
            None => None,
        }
    }
}

proof fn lemma_named_pos(ps: Seq<PluginV>, name: Seq<char>, k: int)
    requires
        0 <= k <= ps.len(),
        forall|j: int| 0 <= j < k ==> (#[trigger] ps[j]).name != name,
        k < ps.len() ==> ps[k].name == name,
    ensures
        named_pos(ps, name) == (if k < ps.len() {
            Some(k)
        } else {
            None::<int>
        }),
    decreases ps.len(),
{
    if ps.len() > 0 && k > 0 {
        assert forall|j: int| 0 <= j < k - 1 implies (#[trigger] ps.drop_first()[j]).name != name by {
            assert(ps.drop_first()[j] == ps[j + 1]);
        }
        lemma_named_pos(ps.drop_first(), name, k - 1);
    }
}

/// The plugin `repo plugins info <name>` shows.
pub fn find_plugin(plugins: &Vec<PluginInfo>, name: &str) -> (r: Option<usize>)
    ensures
        match r {
            Some(k) => k < plugins.len() && named_pos(plugin_views(plugins@), name@) == Some(k as int),
            None => named_pos(plugin_views(plugins@), name@) is None,
        },
{
    let ghost pv = plugin_views(plugins@);
    let n = chars_of(name);
    let mut i: usize = 0;
    while i < plugins.len()
        invariant
            i <= plugins.len(),
            pv == plugin_views(plugins@),
            n@ == name@,
            forall|j: int| 0 <= j < i ==> (#[trigger] pv[j]).name != name@,
        decreases plugins.len() - i,
    {
        assert(pv[i as int] == plugins@[i as int]@);
        if seq_eq(&chars_of(plugins[i].name.as_str()), &n) {
            proof {
                lemma_named_pos(pv, name@, i as int);
            }
            return Some(i);
        }
        i += 1;
    }
    proof {
        lemma_named_pos(pv, name@, plugins.len() as int);
    }
    None
}

/// Whether an external command plugin named `cmd` was discovered.
pub open spec fn runs_external_s(ps: Seq<PluginV>, cmd: Seq<char>) -> bool {
    exists|i: int|
        0 <= i < ps.len() && !(#[trigger] ps[i]).builtin && ps[i].capabilities.contains(
            Capability::Command,
        ) && ps[i].name == cmd
}

/// Whether `repo <cmd>` names a discovered external command plugin.
pub fn external_command_found(plugins: &Vec<PluginInfo>, cmd: &str) -> (r: bool)
    ensures
        r == runs_external_s(plugin_views(plugins@), cmd@),
{
    let ghost pv = plugin_views(plugins@);
    let c = chars_of(cmd);
    let mut i: usize = 0;
    while i < plugins.len()
        invariant
            i <= plugins.len(),
            pv == plugin_views(plugins@),
            c@ == cmd@,
            forall|j: int|
                0 <= j < i ==> !(!(#[trigger] pv[j]).builtin && pv[j].capabilities.contains(
                    Capability::Command,
                ) && pv[j].name == cmd@),
        decreases plugins.len() - i,
    {
        assert(pv[i as int] == plugins@[i as int]@);
        let p = &plugins[i];
        let mut has_command = false;
        let mut k: usize = 0;
        while k < p.capabilities.len()
            invariant
                k <= p.capabilities.len(),
                has_command == exists|m: int| 0 <= m < k && p.capabilities@[m] == Capability::Command,
            decreases p.capabilities.len() - k,
        {
            if p.capabilities[k] == Capability::Command {
                has_command = true;
            }
            k += 1;
        }
        assert(has_command == p@.capabilities.contains(Capability::Command));
        if !p.builtin && has_command && seq_eq(&chars_of(p.name.as_str()), &c) {
            return true;
        }
        i += 1;
    }
    false
}

/// How many of the plugins are built in and how many external.
pub open spec fn builtin_count_s(ps: Seq<PluginV>) -> nat
    decreases ps.len(),
{
    if ps.len() == 0 {
        0
    } else {
        builtin_count_s(ps.drop_last()) + if ps.last().builtin {
            1nat
        } else {
            0nat
        }
    }
}

/// `(built-in, external)` counts of the plugins.
pub fn plugin_counts(plugins: &Vec<PluginInfo>) -> (r: (usize, usize))
    ensures
        r.0 == builtin_count_s(plugin_views(plugins@)),
        r.0 + r.1 == plugins.len(),
{
    let ghost pv = plugin_views(plugins@);
    let mut b: usize = 0;
    let mut i: usize = 0;
    while i < plugins.len()
        invariant
            i <= plugins.len(),
            pv == plugin_views(plugins@),
            b == builtin_count_s(pv.take(i as int)),
            b <= i,
        decreases plugins.len() - i,
    {
        assert(pv.take(i + 1).drop_last() =~= pv.take(i as int));
        assert(pv.take(i + 1).last() == plugins@[i as int]@);
        if plugins[i].builtin {
            b += 1;
        }
        i += 1;
    }
    assert(pv.take(plugins.len() as int) =~= pv);
    (b, plugins.len() - b)
}

/// The plugins are listed by name, and every plugin found is listed: the
/// built-ins (marked built in, without a path) and the external ones.
pub proof fn law_plugins_listed_by_name(builtins: Seq<PluginV>, external: Seq<PluginV>, version: Seq<char>)
    requires
        builtins == builtin_plugins_s(version),
    ensures
        ordered_by_key(sort_by_key_s(builtins + external, plugin_name()), plugin_name()),
        sort_by_key_s(builtins + external, plugin_name()).to_multiset() == (builtins
            + external).to_multiset(),
        forall|i: int| 0 <= i < builtins.len() ==> (#[trigger] builtins[i]).builtin && builtins[i].path is None,
{
    law_sort_by_key(builtins + external, plugin_name());
}

} // verus!

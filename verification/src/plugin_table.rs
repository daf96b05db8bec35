//! How plugins are shown: the `plugins list` table, the `plugins info`
//! lines, and the plugin and config lines of the repository overview.
use vstd::prelude::*;
use crate::docs::table::{
    append, append_str, cells_line, head_cell, head_cell_exec, join_s, line_of, max_n, pad_cell,
    pad_right, push_line, rule_cell, rule_cell_exec,
};
use crate::output::{bold, dim, styled};
use crate::plugin::{
    builtin_count_s, capability_label, capability_label_s, plugin_counts, plugin_views, Capability,
    PluginInfo, PluginV,
};
use crate::text::{chars_of, dec, decimal, sat, string_of, strings_view, utf8_len, utf8_len_sat};

verus! {

/// The labels of a plugin's capabilities, in order.
pub open spec fn labels_s(caps: Seq<Capability>) -> Seq<Seq<char>> {
    caps.map_values(|c: Capability| capability_label_s(c))
}

/// `built-in` or `external`.
pub open spec fn kind_s(builtin: bool) -> Seq<char> {
    if builtin {
        "built-in"@
    } else {
        "external"@
    }
}

/// The widest name (`names`) or version (otherwise), in UTF-8 bytes.
pub open spec fn plugin_col_max(ps: Seq<PluginV>, names: bool) -> nat
    decreases ps.len(),
{
    if ps.len() == 0 {
        0
    } else {
        max_n(
            plugin_col_max(ps.drop_last(), names),
            sat(
                utf8_len(
                    if names {
                        ps.last().name
                    } else {
                        ps.last().version
                    },
                ),
            ),
        )
    }
}

/// One plugin's row, the name and version columns `wn` and `wv` wide.
pub open spec fn plugin_row_s(p: PluginV, wn: nat, wv: nat) -> Seq<char> {
    cells_line(
        seq![
            pad_right(p.name, wn),
            pad_right(p.version, wv),
            pad_right(kind_s(p.builtin), 10),
            pad_right(join_s(labels_s(p.capabilities), ", "@), 20),
            p.description,
        ],
    )
}

pub open spec fn plugin_rows_s(ps: Seq<PluginV>, wn: nat, wv: nat) -> Seq<Seq<char>>
    decreases ps.len(),
{
    if ps.len() == 0 {
        Seq::empty()
    } else {
        plugin_rows_s(ps.drop_last(), wn, wv).push(plugin_row_s(ps.last(), wn, wv))
    }
}

/// The `plugins list` output: `No plugins found.`, or a table (name and
/// version columns as wide as their widest entry and header, type 10,
/// capabilities 20, description unpadded) and the count.
pub open spec fn plugin_list_s(ps: Seq<PluginV>, color: bool) -> Seq<Seq<char>> {
    if ps.len() == 0 {
        seq!["No plugins found."@]
    } else {
        let wn = max_n(plugin_col_max(ps, true), 4);
        let wv = max_n(plugin_col_max(ps, false), 7);
        seq![
            cells_line(
                seq![
                    head_cell("NAME"@, wn, color),
                    head_cell("VERSION"@, wv, color),
                    head_cell("TYPE"@, 10, color),
                    head_cell("CAPABILITIES"@, 20, color),
                    styled("DESCRIPTION"@, "1"@, color),
                ],
            ),
            cells_line(
                seq![
                    rule_cell(wn, color),
                    rule_cell(wv, color),
                    rule_cell(10, color),
                    rule_cell(20, color),
                    rule_cell(30, color),
                ],
            ),
        ] + plugin_rows_s(ps, wn, wv) + seq![Seq::<char>::empty(), "  "@ + dec(ps.len()) + " plugin(s)"@]
    }
}

/// `  {dim label} {value}`.
pub open spec fn field_line_s(label: Seq<char>, value: Seq<char>, color: bool) -> Seq<char> {
    "  "@ + styled(label, "2"@, color) + " "@ + value
}

/// The `plugins info` output: the bold name, then version, type,
/// description, capabilities, and the path when there is one.
pub open spec fn plugin_info_s(p: PluginV, color: bool) -> Seq<Seq<char>> {
    seq![
        styled(p.name, "1"@, color),
        field_line_s("version:"@, p.version, color),
        field_line_s("type:"@, kind_s(p.builtin), color),
        field_line_s("description:"@, p.description, color),
        field_line_s("capabilities:"@, join_s(labels_s(p.capabilities), ", "@), color),
    ] + match p.path {
        Some(path) => seq![field_line_s("path:"@, path, color)],
        None => Seq::empty(),
    }
}

/// The overview's plugin line: `  {bold plugins} {b} built-in, {e} external`.
pub open spec fn plugins_line_s(ps: Seq<PluginV>, color: bool) -> Seq<char> {
    let b = builtin_count_s(ps);
    "  "@ + styled("plugins"@, "1"@, color) + " "@ + dec(b) + " built-in, "@ + dec(
        (ps.len() - b) as nat,
    ) + " external"@
}

/// The overview's config line, by whether `.repo/config.toml` exists.
pub open spec fn config_line_s(exists: bool, color: bool) -> Seq<char> {
    if exists {
        "  "@ + styled("config "@, "2"@, color) + " .repo/config.toml"@
    } else {
        "  "@ + styled("config "@, "2"@, color) + " "@ + styled(
            "no .repo/config.toml found"@,
            "2"@,
            color,
        )
    }
}

// ── Exec ────────────────────────────────────────────────────────────

/// The capability labels joined with `, `.
pub fn joined_labels(caps: &Vec<Capability>) -> (r: Vec<char>)
    ensures
        r@ == join_s(labels_s(caps@), ", "@),
{
    let ghost lv = labels_s(caps@);
    let mut r: Vec<char> = Vec::new();
    let mut i: usize = 0;
    while i < caps.len()
        invariant
            i <= caps.len(),
            lv == labels_s(caps@),
            r@ == join_s(lv.take(i as int), ", "@),
        decreases caps.len() - i,
    {
        assert(lv.take(i + 1).drop_last() =~= lv.take(i as int));
        if i > 0 {
            append_str(&mut r, ", ");
        } else {
            assert(lv.take(0) =~= Seq::<Seq<char>>::empty());
        }
        append_str(&mut r, capability_label(caps[i]));
        i += 1;
        assert(r@ =~= join_s(lv.take(i as int), ", "@));
    }
    assert(lv.take(caps.len() as int) =~= lv);
    r
}

fn kind_of(builtin: bool) -> (r: &'static str)
    ensures
        r@ == kind_s(builtin),
{
    if builtin {
        "built-in"
    } else {
        "external"
    }
}

fn plugin_width(plugins: &Vec<PluginInfo>, names: bool) -> (r: usize)
    ensures
        r == plugin_col_max(plugin_views(plugins@), names),
{
    let ghost pv = plugin_views(plugins@);
    let mut w: usize = 0;
    let mut i: usize = 0;
    while i < plugins.len()
        invariant
            i <= plugins.len(),
            pv == plugin_views(plugins@),
            w == plugin_col_max(pv.take(i as int), names),
        decreases plugins.len() - i,
    {
        assert(pv.take(i + 1).drop_last() =~= pv.take(i as int));
        assert(pv[i as int] == plugins@[i as int]@);
        let n = if names {
            utf8_len_sat(&chars_of(plugins[i].name.as_str()))
        } else {
            utf8_len_sat(&chars_of(plugins[i].version.as_str()))
        };
        if n > w {
            w = n;
        }
        i += 1;
    }
    assert(pv.take(plugins.len() as int) =~= pv);
    w
}

fn plugin_row(p: &PluginInfo, wn: usize, wv: usize) -> (r: String)
    ensures
        r@ == plugin_row_s(p@, wn as nat, wv as nat),
{
    let cells = vec![
        pad_cell(&chars_of(p.name.as_str()), wn),
        pad_cell(&chars_of(p.version.as_str()), wv),
        pad_cell(&chars_of(kind_of(p.builtin)), 10),
        pad_cell(&joined_labels(&p.capabilities), 20),
        chars_of(p.description.as_str()),
    ];
    assert(cells@.map_values(|c: Vec<char>| c@) =~= seq![
        pad_right(p@.name, wn as nat),
        pad_right(p@.version, wv as nat),
        pad_right(kind_s(p@.builtin), 10),
        pad_right(join_s(labels_s(p@.capabilities), ", "@), 20),
        p@.description,
    ]);
    line_of(cells)
}

/// The lines of `repo plugins list`.
pub fn plugin_list_lines(plugins: &Vec<PluginInfo>, color: bool) -> (r: Vec<String>)
    ensures
        strings_view(r@) == plugin_list_s(plugin_views(plugins@), color),
{
    let ghost pv = plugin_views(plugins@);
    let mut out: Vec<String> = Vec::new();
    if plugins.len() == 0 {
        push_line(&mut out, "No plugins found.".to_string());
        assert(strings_view(out@) =~= plugin_list_s(pv, color));
        return out;
    }
    let wn0 = plugin_width(plugins, true);
    let wn: usize = if wn0 > 4 {
        wn0
    } else {
        4
    };
    let wv0 = plugin_width(plugins, false);
    let wv: usize = if wv0 > 7 {
        wv0
    } else {
        7
    };
    let head = vec![
        head_cell_exec("NAME", wn, color),
        head_cell_exec("VERSION", wv, color),
        head_cell_exec("TYPE", 10, color),
        head_cell_exec("CAPABILITIES", 20, color),
        chars_of(bold("DESCRIPTION", color).as_str()),
    ];
    assert(head@.map_values(|c: Vec<char>| c@) =~= seq![
        head_cell("NAME"@, wn as nat, color),
        head_cell("VERSION"@, wv as nat, color),
        head_cell("TYPE"@, 10, color),
        head_cell("CAPABILITIES"@, 20, color),
        styled("DESCRIPTION"@, "1"@, color),
    ]);
    push_line(&mut out, line_of(head));
    let rules = vec![
        rule_cell_exec(wn, color),
        rule_cell_exec(wv, color),
        rule_cell_exec(10, color),
        rule_cell_exec(20, color),
        rule_cell_exec(30, color),
    ];
    assert(rules@.map_values(|c: Vec<char>| c@) =~= seq![
        rule_cell(wn as nat, color),
        rule_cell(wv as nat, color),
        rule_cell(10, color),
        rule_cell(20, color),
        rule_cell(30, color),
    ]);
    push_line(&mut out, line_of(rules));
    let ghost start = strings_view(out@);
    let mut i: usize = 0;
    while i < plugins.len()
        invariant
            i <= plugins.len(),
            pv == plugin_views(plugins@),
            strings_view(out@) == start + plugin_rows_s(pv.take(i as int), wn as nat, wv as nat),
        decreases plugins.len() - i,
    {
        assert(pv.take(i + 1).drop_last() =~= pv.take(i as int));
        assert(pv[i as int] == plugins@[i as int]@);
        push_line(&mut out, plugin_row(&plugins[i], wn, wv));
        i += 1;
        assert(strings_view(out@) =~= start + plugin_rows_s(pv.take(i as int), wn as nat, wv as nat));
    }
    assert(pv.take(plugins.len() as int) =~= pv);
    push_line(&mut out, String::new());
    let mut count: Vec<char> = Vec::new();
    append_str(&mut count, "  ");
    append(&mut count, &decimal(plugins.len()));
    append_str(&mut count, " plugin(s)");
    push_line(&mut out, string_of(&count));
    assert(strings_view(out@) =~= plugin_list_s(pv, color));
    out
}

fn field_line(label: &str, value: &[char], color: bool) -> (r: String)
    ensures
        r@ == field_line_s(label@, value@, color),
{
    let mut v: Vec<char> = Vec::new();
    append_str(&mut v, "  ");
    append_str(&mut v, dim(label, color).as_str());
    append_str(&mut v, " ");
    append(&mut v, value);
    string_of(&v)
}

/// The lines of `repo plugins info <name>` for the plugin found.
pub fn plugin_info_lines(p: &PluginInfo, color: bool) -> (r: Vec<String>)
    ensures
        strings_view(r@) == plugin_info_s(p@, color),
{
    let mut out: Vec<String> = Vec::new();
    push_line(&mut out, bold(p.name.as_str(), color));
    push_line(&mut out, field_line("version:", &chars_of(p.version.as_str()), color));
    push_line(&mut out, field_line("type:", &chars_of(kind_of(p.builtin)), color));
    push_line(&mut out, field_line("description:", &chars_of(p.description.as_str()), color));
    push_line(&mut out, field_line("capabilities:", &joined_labels(&p.capabilities), color));
    match &p.path {
        Some(path) => {
            push_line(&mut out, field_line("path:", &chars_of(path.as_str()), color));
        },
        None => {},
    }
    assert(strings_view(out@) =~= plugin_info_s(p@, color));
    out
}

/// The overview's plugin line.
pub fn plugins_line(plugins: &Vec<PluginInfo>, color: bool) -> (r: String)
    ensures
        r@ == plugins_line_s(plugin_views(plugins@), color),
{
    let (b, e) = plugin_counts(plugins);
    let mut v: Vec<char> = Vec::new();
    append_str(&mut v, "  ");
    append_str(&mut v, bold("plugins", color).as_str());
    append_str(&mut v, " ");
    append(&mut v, &decimal(b));
    append_str(&mut v, " built-in, ");
    append(&mut v, &decimal(e));
    append_str(&mut v, " external");
    assert(v@ =~= plugins_line_s(plugin_views(plugins@), color));
    string_of(&v)
}

/// The overview's config line.
pub fn config_line(exists: bool, color: bool) -> (r: String)
    ensures
        r@ == config_line_s(exists, color),
{
    let mut v: Vec<char> = Vec::new();
    append_str(&mut v, "  ");
    append_str(&mut v, dim("config ", color).as_str());
    if exists {
        append_str(&mut v, " .repo/config.toml");
    } else {
        append_str(&mut v, " ");
        append_str(&mut v, dim("no .repo/config.toml found", color).as_str());
    }
    string_of(&v)
}

} // verus!

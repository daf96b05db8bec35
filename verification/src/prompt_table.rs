//! What the `prompt` subcommands print: the prompt table, the `init`
//! report, and the answer to an unknown name.
use vstd::prelude::*;
use crate::docs::table::{
    append, append_str, cells_line, head_cell, head_cell_exec, join_s, join_strings, line_of,
    max_n, pad_cell, pad_right, push_line, push_spaces, rule_cell, rule_cell_exec, spaces,
    sub_sat,
};
use crate::output::{cyan, dim, green, styled};
use crate::prompt::{prompt_views, source_summary, source_summary_s, Prompt, PromptV};
use crate::skills_report::{names_max, widest};
use crate::text::{chars_of, dec, decimal, sat, string_of, strings_view, utf8_len, utf8_len_sat};

verus! {

/// A prompt's tags joined with `, `.
pub open spec fn tags_text(p: PromptV) -> Seq<char> {
    join_s(p.tags, ", "@)
}

pub open spec fn prompt_names(ps: Seq<PromptV>) -> Seq<Seq<char>> {
    ps.map_values(|p: PromptV| p.name)
}

pub open spec fn prompt_tag_texts(ps: Seq<PromptV>) -> Seq<Seq<char>> {
    ps.map_values(|p: PromptV| tags_text(p))
}

pub open spec fn prompt_descs(ps: Seq<PromptV>) -> Seq<Seq<char>> {
    ps.map_values(|p: PromptV| p.description)
}

/// The widths of the prompt table: name, tags and description as wide as
/// their widest entry and header; the source column 8.
pub struct PromptWidths {
    pub name: nat,
    pub tags: nat,
    pub desc: nat,
}

pub open spec fn prompt_widths_s(ps: Seq<PromptV>) -> PromptWidths {
    PromptWidths {
        name: max_n(names_max(prompt_names(ps)), 4),
        tags: max_n(names_max(prompt_tag_texts(ps)), 4),
        desc: max_n(names_max(prompt_descs(ps)), 11),
    }
}

/// The tags cell: the tags in cyan, or a dim dash; padded by the plain
/// width (the dash counts one).
pub open spec fn tags_cell_s(p: PromptV, w: nat, color: bool) -> Seq<char> {
    if p.tags.len() == 0 {
        styled("\u{2014}"@, "2"@, color) + spaces(sub_sat(w, 1))
    } else {
        styled(tags_text(p), "36"@, color) + spaces(sub_sat(w, sat(utf8_len(tags_text(p)))))
    }
}

/// The source cell: a dim `built-in`, or `custom`, padded to 8.
pub open spec fn src_cell_s(p: PromptV, color: bool) -> Seq<char> {
    if p.builtin {
        styled("built-in"@, "2"@, color)
    } else {
        "custom"@ + spaces(2)
    }
}

pub open spec fn prompt_row_s(p: PromptV, w: PromptWidths, color: bool) -> Seq<char> {
    cells_line(
        seq![pad_right(p.name, w.name), tags_cell_s(p, w.tags, color), src_cell_s(p, color), p.description],
    )
}

pub open spec fn prompt_rows_s(ps: Seq<PromptV>, w: PromptWidths, color: bool) -> Seq<Seq<char>>
    decreases ps.len(),
{
    if ps.len() == 0 {
        Seq::empty()
    } else {
        prompt_rows_s(ps.drop_last(), w, color).push(prompt_row_s(ps.last(), w, color))
    }
}

/// The prompt table: header, rule, a row per prompt, the count with how
/// many are built in and custom, and how to print one.
pub open spec fn prompt_table_s(ps: Seq<PromptV>, color: bool) -> Seq<Seq<char>> {
    let w = prompt_widths_s(ps);
    seq![
        cells_line(
            seq![
                head_cell("NAME"@, w.name, color),
                head_cell("TAGS"@, w.tags, color),
                head_cell("SRC"@, 8, color),
                head_cell("DESCRIPTION"@, w.desc, color),
            ],
        ),
        cells_line(
            seq![
                rule_cell(w.name, color),
                rule_cell(w.tags, color),
                rule_cell(8, color),
                rule_cell(w.desc, color),
            ],
        ),
    ] + prompt_rows_s(ps, w, color) + seq![
        Seq::<char>::empty(),
        "  "@ + dec(ps.len()) + " prompt(s)  "@ + styled(source_summary_s(ps), "2"@, color),
        "  Run "@ + styled("repo prompt <name>"@, "2"@, color) + " to output a snippet."@,
    ]
}

fn texts_of(prompts: &Vec<Prompt>, which: u8) -> (r: Vec<String>)
    ensures
        strings_view(r@) == (if which == 0 {
            prompt_names(prompt_views(prompts@))
        } else if which == 1 {
            prompt_tag_texts(prompt_views(prompts@))
        } else {
            prompt_descs(prompt_views(prompts@))
        }),
{
    let ghost target = if which == 0 {
        prompt_names(prompt_views(prompts@))
    } else if which == 1 {
        prompt_tag_texts(prompt_views(prompts@))
    } else {
        prompt_descs(prompt_views(prompts@))
    };
    let mut out: Vec<String> = Vec::new();
    let mut i: usize = 0;
    while i < prompts.len()
        invariant
            i <= prompts.len(),
            target == (if which == 0 {
                prompt_names(prompt_views(prompts@))
            } else if which == 1 {
                prompt_tag_texts(prompt_views(prompts@))
            } else {
                prompt_descs(prompt_views(prompts@))
            }),
            target.len() == prompts.len(),
            strings_view(out@) == target.take(i as int),
        decreases prompts.len() - i,
    {
        let t = if which == 0 {
            prompts[i].name.clone()
        } else if which == 1 {
            string_of(&join_strings(&prompts[i].tags, ", "))
        } else {
            prompts[i].description.clone()
        };
        assert(t@ == target[i as int]);
        let ghost b = strings_view(out@);
        out.push(t);
        assert(strings_view(out@) =~= b.push(target[i as int]));
        i += 1;
        assert(strings_view(out@) =~= target.take(i as int));
    }
    assert(target.take(prompts.len() as int) =~= target);
    out
}

fn prompt_row(p: &Prompt, wn: usize, wt: usize, color: bool) -> (r: String)
    ensures
        r@ == prompt_row_s(
            p@,
            PromptWidths { name: wn as nat, tags: wt as nat, desc: 0 },
            color,
        ),
{
    let mut tags: Vec<char> = Vec::new();
    if p.tags.len() == 0 {
        append_str(&mut tags, dim("\u{2014}", color).as_str());
        let pad: usize = if wt > 1 {
            wt - 1
        } else {
            0
        };
        push_spaces(&mut tags, pad);
    } else {
        let joined = join_strings(&p.tags, ", ");
        let js = string_of(&joined);
        append_str(&mut tags, cyan(js.as_str(), color).as_str());
        let n = utf8_len_sat(&joined);
        let pad: usize = if wt > n {
            wt - n
        } else {
            0
        };
        push_spaces(&mut tags, pad);
    }
    let src: Vec<char> = if p.builtin {
        chars_of(dim("built-in", color).as_str())
    } else {
        let mut v = chars_of("custom");
        push_spaces(&mut v, 2);
        v
    };
    let cells = vec![
        pad_cell(&chars_of(p.name.as_str()), wn),
        tags,
        src,
        chars_of(p.description.as_str()),
    ];
    assert(cells@.map_values(|c: Vec<char>| c@) =~= seq![
        pad_right(p@.name, wn as nat),
        tags_cell_s(p@, wt as nat, color),
        src_cell_s(p@, color),
        p@.description,
    ]);
    line_of(cells)
}

/// The lines of the prompt table.
pub fn prompt_table_lines(prompts: &Vec<Prompt>, color: bool) -> (r: Vec<String>)
    ensures
        strings_view(r@) == prompt_table_s(prompt_views(prompts@), color),
{
    let ghost pv = prompt_views(prompts@);
    let wn0 = widest(&texts_of(prompts, 0));
    let wn: usize = if wn0 > 4 {
        wn0
    } else {
        4
    };
    let wt0 = widest(&texts_of(prompts, 1));
    let wt: usize = if wt0 > 4 {
        wt0
    } else {
        4
    };
    let wd0 = widest(&texts_of(prompts, 2));
    let wd: usize = if wd0 > 11 {
        wd0
    } else {
        11
    };
    let ghost w = prompt_widths_s(pv);
    assert(w.name == wn && w.tags == wt && w.desc == wd);
    let mut out: Vec<String> = Vec::new();
    let head = vec![
        head_cell_exec("NAME", wn, color),
        head_cell_exec("TAGS", wt, color),
        head_cell_exec("SRC", 8, color),
        head_cell_exec("DESCRIPTION", wd, color),
    ];
    assert(head@.map_values(|c: Vec<char>| c@) =~= seq![
        head_cell("NAME"@, wn as nat, color),
        head_cell("TAGS"@, wt as nat, color),
        head_cell("SRC"@, 8, color),
        head_cell("DESCRIPTION"@, wd as nat, color),
    ]);
    push_line(&mut out, line_of(head));
    let rules = vec![
        rule_cell_exec(wn, color),
        rule_cell_exec(wt, color),
        rule_cell_exec(8, color),
        rule_cell_exec(wd, color),
    ];
    assert(rules@.map_values(|c: Vec<char>| c@) =~= seq![
        rule_cell(wn as nat, color),
        rule_cell(wt as nat, color),
        rule_cell(8, color),
        rule_cell(wd as nat, color),
    ]);
    push_line(&mut out, line_of(rules));
    let ghost start = strings_view(out@);
    let mut i: usize = 0;
    while i < prompts.len()
        invariant
            i <= prompts.len(),
            pv == prompt_views(prompts@),
            w == prompt_widths_s(pv),
            w.name == wn && w.tags == wt,
            strings_view(out@) == start + prompt_rows_s(pv.take(i as int), w, color),
        decreases prompts.len() - i,
    {
        assert(pv.take(i + 1).drop_last() =~= pv.take(i as int));
        assert(pv[i as int] == prompts@[i as int]@);
        let row = prompt_row(&prompts[i], wn, wt, color);
        assert(row@ == prompt_row_s(pv[i as int], w, color));
        push_line(&mut out, row);
        i += 1;
        assert(strings_view(out@) =~= start + prompt_rows_s(pv.take(i as int), w, color));
    }
    assert(pv.take(prompts.len() as int) =~= pv);
    push_line(&mut out, String::new());
    let mut c: Vec<char> = Vec::new();
    append_str(&mut c, "  ");
    append(&mut c, &decimal(prompts.len()));
    append_str(&mut c, " prompt(s)  ");
    append_str(&mut c, dim(source_summary(prompts).as_str(), color).as_str());
    push_line(&mut out, string_of(&c));
    let mut h: Vec<char> = Vec::new();
    append_str(&mut h, "  Run ");
    append_str(&mut h, dim("repo prompt <name>", color).as_str());
    append_str(&mut h, " to output a snippet.");
    push_line(&mut out, string_of(&h));
    assert(strings_view(out@) =~= prompt_table_s(pv, color));
    out
}

/// What `prompt init` reports: how many defaults it wrote, how many it left
/// because they existed, and a note when all were already there.
pub open spec fn prompt_init_s(written: nat, skipped: nat, color: bool) -> Seq<Seq<char>> {
    (if written > 0 {
        seq![
            styled("\u{2713}"@, "32"@, color) + " Wrote "@ + dec(written)
                + " default prompt(s) to .repo/prompts/"@,
        ]
    } else {
        Seq::empty()
    }) + (if skipped > 0 {
        seq![
            "  "@ + styled("\u{21b3}"@, "2"@, color) + " "@ + dec(skipped)
                + " already existed (not overwritten)"@,
        ]
    } else {
        Seq::empty()
    }) + (if written == 0 && skipped > 0 {
        seq!["  All defaults already present. Edit them in .repo/prompts/"@]
    } else {
        Seq::empty()
    })
}

pub fn prompt_init_lines(written: usize, skipped: usize, color: bool) -> (r: Vec<String>)
    ensures
        strings_view(r@) == prompt_init_s(written as nat, skipped as nat, color),
{
    let mut out: Vec<String> = Vec::new();
    if written > 0 {
        let mut v: Vec<char> = Vec::new();
        append_str(&mut v, green("\u{2713}", color).as_str());
        append_str(&mut v, " Wrote ");
        append(&mut v, &decimal(written));
        append_str(&mut v, " default prompt(s) to .repo/prompts/");
        push_line(&mut out, string_of(&v));
    }
    if skipped > 0 {
        let mut v: Vec<char> = Vec::new();
        append_str(&mut v, "  ");
        append_str(&mut v, dim("\u{21b3}", color).as_str());
        append_str(&mut v, " ");
        append(&mut v, &decimal(skipped));
        append_str(&mut v, " already existed (not overwritten)");
        push_line(&mut out, string_of(&v));
    }
    if written == 0 && skipped > 0 {
        push_line(&mut out, "  All defaults already present. Edit them in .repo/prompts/".to_string());
    }
    assert(strings_view(out@) =~= prompt_init_s(written as nat, skipped as nat, color));
    out
}

pub open spec fn suggestion_lines_s(names: Seq<Seq<char>>) -> Seq<Seq<char>>
    decreases names.len(),
{
    if names.len() == 0 {
        Seq::empty()
    } else {
        suggestion_lines_s(names.drop_last()).push("  "@ + names.last())
    }
}

/// What `prompt <name>` writes to standard error for an unknown name: the
/// name, a blank line, and the suggestions or where to look.
pub open spec fn unknown_prompt_s(name: Seq<char>, suggestions: Seq<Seq<char>>) -> Seq<Seq<char>> {
    seq!["Unknown prompt: "@ + name, Seq::<char>::empty()] + if suggestions.len() == 0 {
        seq!["Run `repo prompt list` to see available prompts."@]
    } else {
        seq!["Did you mean:"@] + suggestion_lines_s(suggestions)
    }
}

pub fn unknown_prompt_lines(name: &str, suggestions: &Vec<String>) -> (r: Vec<String>)
    ensures
        strings_view(r@) == unknown_prompt_s(name@, strings_view(suggestions@)),
{
    let ghost sv = strings_view(suggestions@);
    let mut out: Vec<String> = Vec::new();
    let mut first: Vec<char> = Vec::new();
    append_str(&mut first, "Unknown prompt: ");
    append_str(&mut first, name);
    push_line(&mut out, string_of(&first));
    push_line(&mut out, String::new());
    if suggestions.len() == 0 {
        push_line(&mut out, "Run `repo prompt list` to see available prompts.".to_string());
    } else {
        push_line(&mut out, "Did you mean:".to_string());
        let ghost start = strings_view(out@);
        let mut i: usize = 0;
        while i < suggestions.len()
            invariant
                i <= suggestions.len(),
                sv == strings_view(suggestions@),
                strings_view(out@) == start + suggestion_lines_s(sv.take(i as int)),
            decreases suggestions.len() - i,
        {
            assert(sv.take(i + 1).drop_last() =~= sv.take(i as int));
            let mut l: Vec<char> = Vec::new();
            append_str(&mut l, "  ");
            append_str(&mut l, suggestions[i].as_str());
            push_line(&mut out, string_of(&l));
            i += 1;
            assert(strings_view(out@) =~= start + suggestion_lines_s(sv.take(i as int)));
        }
        assert(sv.take(suggestions.len() as int) =~= sv);
    }
    assert(strings_view(out@) =~= unknown_prompt_s(name@, sv));
    out
}

} // verus!

//! What the `skills` subcommands print: one block per declared skill as it
//! is checked, installed, fixed or synced, and the summary under it.
//!
//! The binary probes the disk and runs the installer between blocks; these
//! functions turn each result into lines.
use vstd::prelude::*;
use crate::docs::table::{
    append, append_str, join_s, join_strings, max_n, pad_cell, pad_right, push_line, push_spaces,
    spaces,
};
use crate::output::{bold, dim, green, red, styled, yellow};
use crate::skills::{
    build_install_cmd, entry_views, install_cmd_s, is_installed, EntryV, InstallOutcome, SkillEntry,
    SyncResult,
};
use crate::text::{
    chars_of, dec, decimal, opt_view, sat, string_of, strings_view, utf8_len, utf8_len_sat,
};

verus! {

// ── Shared shapes ───────────────────────────────────────────────────

/// The widest of `names` in UTF-8 bytes (capped), 0 for none.
pub open spec fn names_max(names: Seq<Seq<char>>) -> nat
    decreases names.len(),
{
    if names.len() == 0 {
        0
    } else {
        max_n(names_max(names.drop_last()), sat(utf8_len(names.last())))
    }
}

/// The names of entries, in order.
pub open spec fn entry_names(es: Seq<EntryV>) -> Seq<Seq<char>> {
    es.map_values(|e: EntryV| e.name)
}

/// The name column: as wide as the widest name, at least 4.
pub open spec fn name_width(names: Seq<Seq<char>>) -> nat {
    max_n(names_max(names), 4)
}

/// `  {tag} {name:<w}  {rest}`.
pub open spec fn name_line(tag: Seq<char>, name: Seq<char>, w: nat, rest: Seq<char>) -> Seq<char> {
    "  "@ + tag + " "@ + pad_right(name, w) + "  "@ + rest
}

/// `    {"":<w}  {rest}`: a note under a name line.
pub open spec fn note_line(w: nat, rest: Seq<char>) -> Seq<char> {
    "    "@ + spaces(w) + "  "@ + rest
}

/// An entry's description, or nothing.
pub open spec fn desc_s(e: EntryV) -> Seq<char> {
    match e.description {
        Some(d) => d,
        None => Seq::empty(),
    }
}

/// The width of the name column for `names`.
pub fn names_width(names: &Vec<String>) -> (r: usize)
    ensures
        r == name_width(strings_view(names@)),
{
    let ghost nv = strings_view(names@);
    let mut w: usize = 0;
    let mut i: usize = 0;
    while i < names.len()
        invariant
            i <= names.len(),
            nv == strings_view(names@),
            w == names_max(nv.take(i as int)),
        decreases names.len() - i,
    {
        assert(nv.take(i + 1).drop_last() =~= nv.take(i as int));
        assert(nv[i as int] == names@[i as int]@);
        let n = utf8_len_sat(&chars_of(names[i].as_str()));
        if n > w {
            w = n;
        }
        i += 1;
    }
    assert(nv.take(names.len() as int) =~= nv);
    if w > 4 {
        w
    } else {
        4
    }
}

/// The names of entries.
pub fn names_of(es: &Vec<SkillEntry>) -> (r: Vec<String>)
    ensures
        strings_view(r@) == entry_names(entry_views(es@)),
{
    let mut out: Vec<String> = Vec::new();
    let mut i: usize = 0;
    while i < es.len()
        invariant
            i <= es.len(),
            strings_view(out@) == entry_names(entry_views(es@)).take(i as int),
        decreases es.len() - i,
    {
        let ghost b = strings_view(out@);
        out.push(es[i].name.clone());
        assert(strings_view(out@) =~= b.push(es@[i as int].name@));
        i += 1;
        assert(strings_view(out@) =~= entry_names(entry_views(es@)).take(i as int));
    }
    assert(entry_names(entry_views(es@)).take(es.len() as int) =~= entry_names(
        entry_views(es@),
    ));
    out
}

fn name_line_exec(tag: &str, name: &str, w: usize, rest: &str) -> (r: String)
    ensures
        r@ == name_line(tag@, name@, w as nat, rest@),
{
    let mut v: Vec<char> = Vec::new();
    append_str(&mut v, "  ");
    append_str(&mut v, tag);
    append_str(&mut v, " ");
    append(&mut v, &pad_cell(&chars_of(name), w));
    append_str(&mut v, "  ");
    append_str(&mut v, rest);
    string_of(&v)
}

fn note_line_exec(w: usize, rest: &str) -> (r: String)
    ensures
        r@ == note_line(w as nat, rest@),
{
    let mut v: Vec<char> = Vec::new();
    append_str(&mut v, "    ");
    push_spaces(&mut v, w);
    append_str(&mut v, "  ");
    append_str(&mut v, rest);
    string_of(&v)
}

fn desc_of(e: &SkillEntry) -> (r: &str)
    ensures
        r@ == desc_s(e@),
{
    proof {
        reveal_strlit("");
    }
    match &e.description {
        Some(d) => d.as_str(),
        None => "",
    }
}

fn concat2(a: &str, b: &str) -> (r: String)
    ensures
        r@ == a@ + b@,
{
    let mut v: Vec<char> = Vec::new();
    append_str(&mut v, a);
    append_str(&mut v, b);
    string_of(&v)
}

fn concat3(a: &str, b: &str, c: &str) -> (r: String)
    ensures
        r@ == a@ + b@ + c@,
{
    let mut v: Vec<char> = Vec::new();
    append_str(&mut v, a);
    append_str(&mut v, b);
    append_str(&mut v, c);
    string_of(&v)
}

// ── check ───────────────────────────────────────────────────────────

/// The block of a declared skill in `skills check`: `ok` and its
/// description when installed; else `!!`, `not installed`, and how to
/// install it or that a source is needed.
pub open spec fn check_block_s(e: EntryV, installed: bool, w: nat, color: bool) -> Seq<Seq<char>> {
    if installed {
        seq![name_line(styled("ok"@, "32"@, color), e.name, w, styled(desc_s(e), "2"@, color))]
    } else {
        seq![
            name_line(
                styled("!!"@, "31"@, color),
                e.name,
                w,
                styled("not installed"@, "31"@, color),
            ),
            match install_cmd_s(e) {
                Some(c) => note_line(w, styled("install: "@ + c, "2"@, color)),
                None => note_line(
                    w,
                    styled("fill in 'source' in .repo/skills.toml to enable install"@, "33"@, color),
                ),
            },
        ]
    }
}

pub fn check_block(entry: &SkillEntry, installed: bool, w: usize, color: bool) -> (r: Vec<String>)
    ensures
        strings_view(r@) == check_block_s(entry@, installed, w as nat, color),
{
    let mut out: Vec<String> = Vec::new();
    if installed {
        let tag = green("ok", color);
        let d = dim(desc_of(entry), color);
        push_line(&mut out, name_line_exec(tag.as_str(), entry.name.as_str(), w, d.as_str()));
    } else {
        let tag = red("!!", color);
        let m = red("not installed", color);
        push_line(&mut out, name_line_exec(tag.as_str(), entry.name.as_str(), w, m.as_str()));
        match build_install_cmd(entry) {
            Some(c) => {
                let t = concat2("install: ", c.as_str());
                let d = dim(t.as_str(), color);
                push_line(&mut out, note_line_exec(w, d.as_str()));
            },
            None => {
                let y = yellow("fill in 'source' in .repo/skills.toml to enable install", color);
                push_line(&mut out, note_line_exec(w, y.as_str()));
            },
        }
    }
    assert(strings_view(out@) =~= check_block_s(entry@, installed, w as nat, color));
    out
}

/// How many of the flags are false.
pub open spec fn false_count(flags: Seq<bool>) -> nat
    decreases flags.len(),
{
    if flags.len() == 0 {
        0
    } else {
        false_count(flags.drop_last()) + if flags.last() {
            0nat
        } else {
            1nat
        }
    }
}

/// The blocks of all declared skills, in order.
pub open spec fn check_blocks_s(es: Seq<EntryV>, installed: Seq<bool>, w: nat, color: bool) -> Seq<
    Seq<char>,
>
    decreases es.len(),
{
    if es.len() == 0 || installed.len() != es.len() {
        Seq::empty()
    } else {
        check_blocks_s(es.drop_last(), installed.drop_last(), w, color) + check_block_s(
            es.last(),
            installed.last(),
            w,
            color,
        )
    }
}

/// The summary of `skills check`: installed and missing counts, and a hint
/// when some are missing.
pub open spec fn check_summary_s(pass: nat, fail: nat, color: bool) -> Seq<Seq<char>> {
    seq![
        Seq::<char>::empty(),
        "  "@ + styled(dec(pass), "32"@, color) + " installed, "@ + (if fail > 0 {
            styled(dec(fail), "31"@, color)
        } else {
            dec(fail)
        }) + " missing"@,
    ] + if fail > 0 {
        seq![
            Seq::<char>::empty(),
            "  Run "@ + styled("repo skills install"@, "2"@, color) + " to install missing skills."@,
        ]
    } else {
        Seq::empty()
    }
}

/// The human output of `skills check` for a non-empty manifest, given
/// which skills are installed: a heading, a block per skill (names padded
/// to the widest), and the summary.
pub open spec fn check_report_s(es: Seq<EntryV>, installed: Seq<bool>, color: bool) -> Seq<
    Seq<char>,
> {
    seq![
        styled("Agent skills"@, "1"@, color),
        "  "@ + styled("validating against .repo/skills.toml"@, "2"@, color),
        Seq::<char>::empty(),
    ] + check_blocks_s(es, installed, name_width(entry_names(es)), color) + check_summary_s(
        (es.len() - false_count(installed)) as nat,
        false_count(installed),
        color,
    )
}

/// The exit code of `skills check`: 1 when a declared skill is missing.
pub open spec fn check_exit_s(installed: Seq<bool>) -> i32 {
    if false_count(installed) > 0 {
        1
    } else {
        0
    }
}

proof fn lemma_false_count_le(flags: Seq<bool>)
    ensures
        false_count(flags) <= flags.len(),
    decreases flags.len(),
{
    if flags.len() > 0 {
        lemma_false_count_le(flags.drop_last());
    }
}

/// The human output of `skills check`.
pub fn check_report(entries: &Vec<SkillEntry>, installed: &Vec<bool>, color: bool) -> (r: Vec<
    String,
>)
    requires
        installed.len() == entries.len(),
    ensures
        strings_view(r@) == check_report_s(entry_views(entries@), installed@, color),
{
    let ghost ev = entry_views(entries@);
    let mut out: Vec<String> = Vec::new();
    push_line(&mut out, bold("Agent skills", color));
    let mut sub: Vec<char> = Vec::new();
    append_str(&mut sub, "  ");
    append_str(&mut sub, dim("validating against .repo/skills.toml", color).as_str());
    push_line(&mut out, string_of(&sub));
    push_line(&mut out, String::new());
    let names = names_of(entries);
    let w = names_width(&names);
    let ghost start = strings_view(out@);
    let mut fail: usize = 0;
    let mut i: usize = 0;
    while i < entries.len()
        invariant
            i <= entries.len(),
            installed.len() == entries.len(),
            ev == entry_views(entries@),
            w == name_width(entry_names(ev)),
            fail == false_count(installed@.take(i as int)),
            fail <= i,
            strings_view(out@) == start + check_blocks_s(
                ev.take(i as int),
                installed@.take(i as int),
                w as nat,
                color,
            ),
        decreases entries.len() - i,
    {
        assert(ev.take(i + 1).drop_last() =~= ev.take(i as int));
        assert(installed@.take(i + 1).drop_last() =~= installed@.take(i as int));
        assert(ev[i as int] == entries@[i as int]@);
        let block = check_block(&entries[i], installed[i], w, color);
        let ghost b = strings_view(out@);
        let mut k: usize = 0;
        while k < block.len()
            invariant
                k <= block.len(),
                strings_view(out@) == b + strings_view(block@).take(k as int),
            decreases block.len() - k,
        {
            push_line(&mut out, block[k].clone());
            k += 1;
            assert(strings_view(out@) =~= b + strings_view(block@).take(k as int));
        }
        assert(strings_view(block@).take(block.len() as int) =~= strings_view(block@));
        if !installed[i] {
            fail += 1;
        }
        i += 1;
        assert(strings_view(out@) =~= start + check_blocks_s(
            ev.take(i as int),
            installed@.take(i as int),
            w as nat,
            color,
        ));
    }
    assert(ev.take(entries.len() as int) =~= ev);
    assert(installed@.take(entries.len() as int) =~= installed@);
    let pass = entries.len() - fail;
    push_line(&mut out, String::new());
    let mut counts: Vec<char> = Vec::new();
    append_str(&mut counts, "  ");
    append_str(&mut counts, green(string_of(&decimal(pass)).as_str(), color).as_str());
    append_str(&mut counts, " installed, ");
    if fail > 0 {
        append_str(&mut counts, red(string_of(&decimal(fail)).as_str(), color).as_str());
    } else {
        append(&mut counts, &decimal(fail));
    }
    append_str(&mut counts, " missing");
    push_line(&mut out, string_of(&counts));
    if fail > 0 {
        push_line(&mut out, String::new());
        let mut hint: Vec<char> = Vec::new();
        append_str(&mut hint, "  Run ");
        append_str(&mut hint, dim("repo skills install", color).as_str());
        append_str(&mut hint, " to install missing skills.");
        push_line(&mut out, string_of(&hint));
    }
    assert(strings_view(out@) =~= check_report_s(ev, installed@, color));
    out
}

/// The exit code of `skills check`.
pub fn check_exit_code(installed: &Vec<bool>) -> (r: i32)
    ensures
        r == check_exit_s(installed@),
{
    let mut fail: usize = 0;
    let mut i: usize = 0;
    while i < installed.len()
        invariant
            i <= installed.len(),
            fail == false_count(installed@.take(i as int)),
            fail <= i,
        decreases installed.len() - i,
    {
        assert(installed@.take(i + 1).drop_last() =~= installed@.take(i as int));
        if !installed[i] {
            fail += 1;
        }
        i += 1;
    }
    assert(installed@.take(installed.len() as int) =~= installed@);
    if fail > 0 {
        1
    } else {
        0
    }
}

// ── install ─────────────────────────────────────────────────────────

/// A printed line and whether it goes to standard error.
pub struct OutLine {
    pub to_stderr: bool,
    pub text: String,
}

pub open spec fn out_views(v: Seq<OutLine>) -> Seq<(bool, Seq<char>)> {
    v.map_values(|l: OutLine| (l.to_stderr, l.text@))
}

/// The block of one missing skill in `skills install`, by the outcome of
/// its install: `ok`; a missing source; not found at the source (with how
/// to fix it); a failed or unstartable install (on standard error); then a
/// blank line.
pub open spec fn install_block_s(e: EntryV, o: InstallOutcome, w: nat, color: bool) -> Seq<
    (bool, Seq<char>),
> {
    (match o {
        InstallOutcome::Installed => seq![
            (false, "  "@ + styled("ok"@, "32"@, color) + " "@ + e.name),
        ],
        InstallOutcome::NoSource => seq![
            (
                false,
                name_line(
                    styled("!!"@, "33"@, color),
                    e.name,
                    w,
                    styled(
                        "no source \u{2014} set 'source' in .repo/skills.toml or run: repo skills fix"@,
                        "33"@,
                        color,
                    ),
                ),
            ),
        ],
        InstallOutcome::NotFound { source } => seq![
            (
                false,
                name_line(
                    styled("!!"@, "31"@, color),
                    e.name,
                    w,
                    styled("skill not found in "@ + source@, "31"@, color),
                ),
            ),
            (
                false,
                note_line(
                    w,
                    styled(
                        "fix: correct the 'source'/'skill' fields in .repo/skills.toml, or run: repo skills fix"@,
                        "2"@,
                        color,
                    ),
                ),
            ),
        ],
        InstallOutcome::Failed { exit_status } => seq![
            (
                true,
                name_line(
                    styled("!!"@, "31"@, color),
                    e.name,
                    w,
                    styled("install failed ("@ + exit_status@ + ")"@, "31"@, color),
                ),
            ),
        ],
        InstallOutcome::Error { message } => seq![
            (
                true,
                name_line(
                    styled("!!"@, "31"@, color),
                    e.name,
                    w,
                    styled("could not run install: "@ + message@, "31"@, color),
                ),
            ),
        ],
    }) + seq![(false, Seq::<char>::empty())]
}

fn push_out(out: &mut Vec<OutLine>, to_stderr: bool, text: String)
    ensures
        out_views(final(out)@) == out_views(old(out)@).push((to_stderr, text@)),
{
    let ghost t = text@;
    out.push(OutLine { to_stderr, text });
    assert(out_views(out@) =~= out_views(old(out)@).push((to_stderr, t)));
}

pub fn install_block(entry: &SkillEntry, outcome: &InstallOutcome, w: usize, color: bool) -> (r: Vec<
    OutLine,
>)
    ensures
        out_views(r@) == install_block_s(entry@, *outcome, w as nat, color),
{
    let mut out: Vec<OutLine> = Vec::new();
    match outcome {
        InstallOutcome::Installed => {
            let t = concat3("  ", green("ok", color).as_str(), " ");
            push_out(&mut out, false, concat2(t.as_str(), entry.name.as_str()));
        },
        InstallOutcome::NoSource => {
            let tag = yellow("!!", color);
            let m = yellow(
                "no source \u{2014} set 'source' in .repo/skills.toml or run: repo skills fix",
                color,
            );
            push_out(
                &mut out,
                false,
                name_line_exec(tag.as_str(), entry.name.as_str(), w, m.as_str()),
            );
        },
        InstallOutcome::NotFound { source } => {
            let tag = red("!!", color);
            let m = red(concat2("skill not found in ", source.as_str()).as_str(), color);
            push_out(
                &mut out,
                false,
                name_line_exec(tag.as_str(), entry.name.as_str(), w, m.as_str()),
            );
            let fix = dim(
                "fix: correct the 'source'/'skill' fields in .repo/skills.toml, or run: repo skills fix",
                color,
            );
            push_out(&mut out, false, note_line_exec(w, fix.as_str()));
        },
        InstallOutcome::Failed { exit_status } => {
            let tag = red("!!", color);
            let m = red(concat3("install failed (", exit_status.as_str(), ")").as_str(), color);
            push_out(
                &mut out,
                true,
                name_line_exec(tag.as_str(), entry.name.as_str(), w, m.as_str()),
            );
        },
        InstallOutcome::Error { message } => {
            let tag = red("!!", color);
            let m = red(concat2("could not run install: ", message.as_str()).as_str(), color);
            push_out(
                &mut out,
                true,
                name_line_exec(tag.as_str(), entry.name.as_str(), w, m.as_str()),
            );
        },
    }
    push_out(&mut out, false, String::new());
    assert(out_views(out@) =~= install_block_s(entry@, *outcome, w as nat, color));
    out
}

/// The heading of `skills install`: how many skills are missing.
pub open spec fn install_heading_s(missing: nat, color: bool) -> Seq<Seq<char>> {
    seq![
        styled("Installing"@, "1"@, color) + " "@ + dec(missing) + " missing skill(s)"@,
        Seq::<char>::empty(),
    ]
}

pub fn install_heading(missing: usize, color: bool) -> (r: Vec<String>)
    ensures
        strings_view(r@) == install_heading_s(missing as nat, color),
{
    let mut out: Vec<String> = Vec::new();
    let mut v: Vec<char> = Vec::new();
    append_str(&mut v, bold("Installing", color).as_str());
    append_str(&mut v, " ");
    append(&mut v, &decimal(missing));
    append_str(&mut v, " missing skill(s)");
    push_line(&mut out, string_of(&v));
    push_line(&mut out, String::new());
    assert(strings_view(out@) =~= install_heading_s(missing as nat, color));
    out
}

/// The close of `skills install`: when some entries cannot be installed as
/// declared, how many and what to run; else nothing.
pub open spec fn install_summary_s(needs_fix: nat, color: bool) -> Seq<Seq<char>> {
    if needs_fix == 0 {
        Seq::empty()
    } else {
        seq![
            "  "@ + styled("!!"@, "33"@, color) + " "@ + dec(needs_fix)
                + " entry/entries cannot be installed as configured."@,
            "  Run "@ + styled("repo skills fix"@, "1"@, color)
                + " to remove them from .repo/skills.toml."@,
        ]
    }
}

pub fn install_summary(needs_fix: usize, color: bool) -> (r: Vec<String>)
    ensures
        strings_view(r@) == install_summary_s(needs_fix as nat, color),
{
    let mut out: Vec<String> = Vec::new();
    if needs_fix > 0 {
        let mut a: Vec<char> = Vec::new();
        append_str(&mut a, "  ");
        append_str(&mut a, yellow("!!", color).as_str());
        append_str(&mut a, " ");
        append(&mut a, &decimal(needs_fix));
        append_str(&mut a, " entry/entries cannot be installed as configured.");
        push_line(&mut out, string_of(&a));
        let mut b: Vec<char> = Vec::new();
        append_str(&mut b, "  Run ");
        append_str(&mut b, bold("repo skills fix", color).as_str());
        append_str(&mut b, " to remove them from .repo/skills.toml.");
        push_line(&mut out, string_of(&b));
    }
    assert(strings_view(out@) =~= install_summary_s(needs_fix as nat, color));
    out
}

// ── fix ─────────────────────────────────────────────────────────────

/// What `skills fix` does with one entry: keep it or remove it (and why),
/// and what it prints.
pub struct FixStep {
    pub keep: bool,
    pub reason: Option<String>,
    pub lines: Vec<String>,
}

/// Whether `skills fix` probes the entry by running its install: only when
/// it has a source.
pub fn fix_needs_probe(entry: &SkillEntry) -> (r: bool)
    ensures
        r == (entry@.source.len() > 0),
{
    !entry.source.as_str().is_empty()
}

/// The line of an entry without a source, which `skills fix` removes
/// without probing.
pub open spec fn fix_unsourced_s(e: EntryV, w: nat, color: bool) -> Seq<Seq<char>> {
    seq![
        name_line(
            styled("rm"@, "33"@, color),
            e.name,
            w,
            styled("no source field \u{2014} cannot install"@, "33"@, color),
        ),
    ]
}

pub fn fix_unsourced(entry: &SkillEntry, w: usize, color: bool) -> (r: FixStep)
    ensures
        !r.keep,
        opt_view(r.reason) == Some("no source"@),
        strings_view(r.lines@) == fix_unsourced_s(entry@, w as nat, color),
{
    let mut lines: Vec<String> = Vec::new();
    let tag = yellow("rm", color);
    let m = yellow("no source field \u{2014} cannot install", color);
    push_line(&mut lines, name_line_exec(tag.as_str(), entry.name.as_str(), w, m.as_str()));
    assert(strings_view(lines@) =~= fix_unsourced_s(entry@, w as nat, color));
    FixStep { keep: false, reason: Some("no source".to_string()), lines }
}

/// What `skills fix` prints after probing an entry, by the outcome.
pub open spec fn fix_probe_lines_s(o: InstallOutcome, w: nat, color: bool) -> Seq<Seq<char>> {
    match o {
        InstallOutcome::Installed => seq![styled("ok (now installed)"@, "32"@, color)],
        InstallOutcome::NotFound { source } => seq![
            styled("skill not found in "@ + source@, "31"@, color),
            note_line(w, styled("removed \u{2014} fix source/skill fields to re-add"@, "2"@, color)),
        ],
        InstallOutcome::NoSource => seq![styled("no source"@, "33"@, color)],
        InstallOutcome::Failed { exit_status } => seq![
            styled("install failed ("@ + exit_status@ + ") \u{2014} kept"@, "33"@, color),
            note_line(
                w,
                styled(
                    "kept \u{2014} failure may be transient (network, auth). Re-run to retry."@,
                    "2"@,
                    color,
                ),
            ),
        ],
        InstallOutcome::Error { message } => seq![
            styled("could not run install: "@ + message@ + " \u{2014} kept"@, "33"@, color),
        ],
    }
}

/// The step for a probed entry: removed exactly when the outcome gives a
/// reason to (see `fix_reason_s`), with that reason.
pub fn fix_after_probe(outcome: &InstallOutcome, w: usize, color: bool) -> (r: FixStep)
    ensures
        r.keep == (crate::skills::fix_reason_s(*outcome) is None),
        opt_view(r.reason) == crate::skills::fix_reason_s(*outcome),
        strings_view(r.lines@) == fix_probe_lines_s(*outcome, w as nat, color),
{
    let mut lines: Vec<String> = Vec::new();
    let reason: Option<String> = match crate::skills::fix_reason(outcome) {
        Some(r) => Some(r.to_string()),
        None => None,
    };
    match outcome {
        InstallOutcome::Installed => {
            push_line(&mut lines, green("ok (now installed)", color));
        },
        InstallOutcome::NotFound { source } => {
            push_line(
                &mut lines,
                red(concat2("skill not found in ", source.as_str()).as_str(), color),
            );
            let d = dim("removed \u{2014} fix source/skill fields to re-add", color);
            push_line(&mut lines, note_line_exec(w, d.as_str()));
        },
        InstallOutcome::NoSource => {
            push_line(&mut lines, yellow("no source", color));
        },
        InstallOutcome::Failed { exit_status } => {
            let t = concat3("install failed (", exit_status.as_str(), ") \u{2014} kept");
            push_line(&mut lines, yellow(t.as_str(), color));
            let d = dim(
                "kept \u{2014} failure may be transient (network, auth). Re-run to retry.",
                color,
            );
            push_line(&mut lines, note_line_exec(w, d.as_str()));
        },
        InstallOutcome::Error { message } => {
            let t = concat3("could not run install: ", message.as_str(), " \u{2014} kept");
            push_line(&mut lines, yellow(t.as_str(), color));
        },
    }
    assert(strings_view(lines@) =~= fix_probe_lines_s(*outcome, w as nat, color));
    FixStep { keep: reason.is_none(), reason, lines }
}

/// The pairs of removed names and reasons, by value.
pub open spec fn pair_views(v: Seq<(String, String)>) -> Seq<(Seq<char>, Seq<char>)> {
    v.map_values(|p: (String, String)| (p.0@, p.1@))
}

pub open spec fn removed_lines_s(removed: Seq<(Seq<char>, Seq<char>)>, color: bool) -> Seq<
    Seq<char>,
>
    decreases removed.len(),
{
    if removed.len() == 0 {
        Seq::empty()
    } else {
        removed_lines_s(removed.drop_last(), color).push(
            "    "@ + removed.last().0 + " \u{2014} "@ + styled(removed.last().1, "2"@, color),
        )
    }
}

/// The close of `skills fix`: nothing to fix, or what was removed (after
/// the manifest was rewritten) and what to do next.
pub open spec fn fix_summary_s(removed: Seq<(Seq<char>, Seq<char>)>, color: bool) -> Seq<
    Seq<char>,
> {
    if removed.len() == 0 {
        seq![
            Seq::<char>::empty(),
            "  "@ + styled("ok"@, "32"@, color) + " nothing to fix \u{2014} all entries look valid"@,
        ]
    } else {
        seq![
            Seq::<char>::empty(),
            "  "@ + styled("ok"@, "32"@, color) + " removed "@ + dec(removed.len())
                + " entry/entries from .repo/skills.toml:"@,
        ] + removed_lines_s(removed, color) + seq![
            Seq::<char>::empty(),
            "  Add corrected entries back manually, or re-run "@ + styled(
                "repo skills install"@,
                "2"@,
                color,
            ) + " after editing."@,
        ]
    }
}

pub fn fix_summary(removed: &Vec<(String, String)>, color: bool) -> (r: Vec<String>)
    ensures
        strings_view(r@) == fix_summary_s(pair_views(removed@), color),
{
    let ghost rv = pair_views(removed@);
    let mut out: Vec<String> = Vec::new();
    push_line(&mut out, String::new());
    let ok = green("ok", color);
    if removed.len() == 0 {
        push_line(
            &mut out,
            concat3("  ", ok.as_str(), " nothing to fix \u{2014} all entries look valid"),
        );
        assert(strings_view(out@) =~= fix_summary_s(rv, color));
        return out;
    }
    let mut head: Vec<char> = Vec::new();
    append_str(&mut head, "  ");
    append_str(&mut head, ok.as_str());
    append_str(&mut head, " removed ");
    append(&mut head, &decimal(removed.len()));
    append_str(&mut head, " entry/entries from .repo/skills.toml:");
    push_line(&mut out, string_of(&head));
    let ghost start = strings_view(out@);
    let mut i: usize = 0;
    while i < removed.len()
        invariant
            i <= removed.len(),
            rv == pair_views(removed@),
            strings_view(out@) == start + removed_lines_s(rv.take(i as int), color),
        decreases removed.len() - i,
    {
        assert(rv.take(i + 1).drop_last() =~= rv.take(i as int));
        assert(rv[i as int] == (removed@[i as int].0@, removed@[i as int].1@));
        let mut l: Vec<char> = Vec::new();
        append_str(&mut l, "    ");
        append_str(&mut l, removed[i].0.as_str());
        append_str(&mut l, " \u{2014} ");
        append_str(&mut l, dim(removed[i].1.as_str(), color).as_str());
        push_line(&mut out, string_of(&l));
        i += 1;
        assert(strings_view(out@) =~= start + removed_lines_s(rv.take(i as int), color));
    }
    assert(rv.take(removed.len() as int) =~= rv);
    push_line(&mut out, String::new());
    let mut tail: Vec<char> = Vec::new();
    append_str(&mut tail, "  Add corrected entries back manually, or re-run ");
    append_str(&mut tail, dim("repo skills install", color).as_str());
    append_str(&mut tail, " after editing.");
    push_line(&mut out, string_of(&tail));
    assert(strings_view(out@) =~= fix_summary_s(rv, color));
    out
}

// ── sync ────────────────────────────────────────────────────────────

/// The line of a synced entry: `kept` when it was declared before, else
/// `added`, with its description.
pub open spec fn sync_entry_line_s(e: EntryV, existing: Seq<EntryV>, w: nat, color: bool) -> Seq<
    char,
> {
    name_line(
        if is_installed(existing, e.name) {
            styled("kept"@, "2"@, color)
        } else {
            styled("added"@, "32"@, color)
        },
        e.name,
        w,
        styled(desc_s(e), "2"@, color),
    )
}

pub open spec fn sync_entry_lines_s(
    merged: Seq<EntryV>,
    existing: Seq<EntryV>,
    w: nat,
    color: bool,
) -> Seq<Seq<char>>
    decreases merged.len(),
{
    if merged.len() == 0 {
        Seq::empty()
    } else {
        sync_entry_lines_s(merged.drop_last(), existing, w, color).push(
            sync_entry_line_s(merged.last(), existing, w, color),
        )
    }
}

/// The line of a declared skill that is no longer installed.
pub open spec fn gone_line_s(name: Seq<char>, w: nat, color: bool) -> Seq<char> {
    name_line(
        styled("gone"@, "33"@, color),
        name,
        w,
        styled("no longer installed \u{2014} removed from config"@, "2"@, color),
    )
}

pub open spec fn gone_lines_s(names: Seq<Seq<char>>, w: nat, color: bool) -> Seq<Seq<char>>
    decreases names.len(),
{
    if names.len() == 0 {
        Seq::empty()
    } else {
        gone_lines_s(names.drop_last(), w, color).push(gone_line_s(names.last(), w, color))
    }
}

/// What `skills sync` prints before writing the manifest: a heading, the
/// merged entries, then the removed names, names padded to the widest of
/// both.
pub open spec fn sync_report_s(
    merged: Seq<EntryV>,
    existing: Seq<EntryV>,
    removed: Seq<Seq<char>>,
    color: bool,
) -> Seq<Seq<char>> {
    let w = name_width(entry_names(merged) + removed);
    seq![styled("Syncing skills"@, "1"@, color), Seq::<char>::empty()] + sync_entry_lines_s(
        merged,
        existing,
        w,
        color,
    ) + gone_lines_s(removed, w, color)
}

pub fn sync_report(result: &SyncResult, existing: &Vec<SkillEntry>, color: bool) -> (r: Vec<
    String,
>)
    ensures
        strings_view(r@) == sync_report_s(
            entry_views(result.merged@),
            entry_views(existing@),
            strings_view(result.removed@),
            color,
        ),
{
    let ghost mv = entry_views(result.merged@);
    let ghost ev = entry_views(existing@);
    let ghost rv = strings_view(result.removed@);
    let mut names = names_of(&result.merged);
    let mut j: usize = 0;
    let ghost mn = strings_view(names@);
    while j < result.removed.len()
        invariant
            j <= result.removed.len(),
            rv == strings_view(result.removed@),
            strings_view(names@) == mn + rv.take(j as int),
        decreases result.removed.len() - j,
    {
        let ghost b = strings_view(names@);
        names.push(result.removed[j].clone());
        assert(strings_view(names@) =~= b.push(rv[j as int]));
        j += 1;
        assert(strings_view(names@) =~= mn + rv.take(j as int));
    }
    assert(rv.take(result.removed.len() as int) =~= rv);
    let w = names_width(&names);
    let mut out: Vec<String> = Vec::new();
    push_line(&mut out, bold("Syncing skills", color));
    push_line(&mut out, String::new());
    let ghost start = strings_view(out@);
    let mut i: usize = 0;
    while i < result.merged.len()
        invariant
            i <= result.merged.len(),
            mv == entry_views(result.merged@),
            ev == entry_views(existing@),
            strings_view(out@) == start + sync_entry_lines_s(mv.take(i as int), ev, w as nat, color),
        decreases result.merged.len() - i,
    {
        assert(mv.take(i + 1).drop_last() =~= mv.take(i as int));
        assert(mv[i as int] == result.merged@[i as int]@);
        let e = &result.merged[i];
        let tag = if crate::skills::installed_named(existing, &e.name) {
            dim("kept", color)
        } else {
            green("added", color)
        };
        let d = dim(desc_of(e), color);
        push_line(&mut out, name_line_exec(tag.as_str(), e.name.as_str(), w, d.as_str()));
        i += 1;
        assert(strings_view(out@) =~= start + sync_entry_lines_s(
            mv.take(i as int),
            ev,
            w as nat,
            color,
        ));
    }
    assert(mv.take(result.merged.len() as int) =~= mv);
    let ghost mid = strings_view(out@);
    let mut k: usize = 0;
    while k < result.removed.len()
        invariant
            k <= result.removed.len(),
            rv == strings_view(result.removed@),
            strings_view(out@) == mid + gone_lines_s(rv.take(k as int), w as nat, color),
        decreases result.removed.len() - k,
    {
        assert(rv.take(k + 1).drop_last() =~= rv.take(k as int));
        let tag = yellow("gone", color);
        let d = dim("no longer installed \u{2014} removed from config", color);
        push_line(
            &mut out,
            name_line_exec(tag.as_str(), result.removed[k].as_str(), w, d.as_str()),
        );
        k += 1;
        assert(strings_view(out@) =~= mid + gone_lines_s(rv.take(k as int), w as nat, color));
    }
    assert(rv.take(result.removed.len() as int) =~= rv);
    assert(strings_view(out@) =~= sync_report_s(mv, ev, rv, color));
    out
}

pub open spec fn empty_source_lines_s(names: Seq<Seq<char>>, color: bool) -> Seq<Seq<char>>
    decreases names.len(),
{
    if names.len() == 0 {
        Seq::empty()
    } else {
        empty_source_lines_s(names.drop_last(), color).push(
            "    "@ + styled(names.last(), "2"@, color),
        )
    }
}

/// What `skills sync` prints after writing the manifest: the counts, that
/// it was written, and the skills whose source is still empty.
pub open spec fn sync_summary_s(
    kept: nat,
    added: nat,
    removed: nat,
    empty: Seq<Seq<char>>,
    color: bool,
) -> Seq<Seq<char>> {
    seq![
        Seq::<char>::empty(),
        "  "@ + dec(kept) + " kept, "@ + styled(dec(added), "32"@, color) + " added, "@ + (if removed
            == 0 {
            "0"@
        } else {
            styled(dec(removed), "33"@, color)
        }) + " removed"@,
        "  "@ + styled("ok"@, "32"@, color) + " wrote .repo/skills.toml"@,
    ] + if empty.len() > 0 {
        seq![
            Seq::<char>::empty(),
            "  "@ + styled("!!"@, "33"@, color) + " "@ + dec(empty.len())
                + " skill(s) have empty source \u{2014} fill in so teammates can install:"@,
        ] + empty_source_lines_s(empty, color)
    } else {
        Seq::empty()
    }
}

pub fn sync_summary(result: &SyncResult, color: bool) -> (r: Vec<String>)
    ensures
        strings_view(r@) == sync_summary_s(
            result.kept as nat,
            result.added as nat,
            result.removed.len() as nat,
            strings_view(result.empty_sources@),
            color,
        ),
{
    proof {
        reveal_strlit("0");
    }
    let ghost es = strings_view(result.empty_sources@);
    let mut out: Vec<String> = Vec::new();
    push_line(&mut out, String::new());
    let mut c: Vec<char> = Vec::new();
    append_str(&mut c, "  ");
    append(&mut c, &decimal(result.kept));
    append_str(&mut c, " kept, ");
    append_str(&mut c, green(string_of(&decimal(result.added)).as_str(), color).as_str());
    append_str(&mut c, " added, ");
    if result.removed.len() == 0 {
        append_str(&mut c, "0");
    } else {
        append_str(
            &mut c,
            yellow(string_of(&decimal(result.removed.len())).as_str(), color).as_str(),
        );
    }
    append_str(&mut c, " removed");
    push_line(&mut out, string_of(&c));
    push_line(
        &mut out,
        concat3("  ", green("ok", color).as_str(), " wrote .repo/skills.toml"),
    );
    if result.empty_sources.len() > 0 {
        push_line(&mut out, String::new());
        let mut h: Vec<char> = Vec::new();
        append_str(&mut h, "  ");
        append_str(&mut h, yellow("!!", color).as_str());
        append_str(&mut h, " ");
        append(&mut h, &decimal(result.empty_sources.len()));
        append_str(
            &mut h,
            " skill(s) have empty source \u{2014} fill in so teammates can install:",
        );
        push_line(&mut out, string_of(&h));
        let ghost start = strings_view(out@);
        let mut i: usize = 0;
        while i < result.empty_sources.len()
            invariant
                i <= result.empty_sources.len(),
                es == strings_view(result.empty_sources@),
                strings_view(out@) == start + empty_source_lines_s(es.take(i as int), color),
            decreases result.empty_sources.len() - i,
        {
            assert(es.take(i + 1).drop_last() =~= es.take(i as int));
            push_line(&mut out, concat2("    ", dim(result.empty_sources[i].as_str(), color).as_str()));
            i += 1;
            assert(strings_view(out@) =~= start + empty_source_lines_s(es.take(i as int), color));
        }
        assert(es.take(result.empty_sources.len() as int) =~= es);
    }
    assert(strings_view(out@) =~= sync_summary_s(
        result.kept as nat,
        result.added as nat,
        result.removed.len() as nat,
        es,
        color,
    ));
    out
}

// ── The manifest file ───────────────────────────────────────────────

/// The first line of a manifest written by `skills sync` (or `fix`): it was
/// synced, or created when there was none.
pub open spec fn manifest_header_s(existed: bool) -> Seq<char> {
    if existed {
        "# .repo/skills.toml \u{2014} Synced with installed skills\n"@
    } else {
        "# .repo/skills.toml \u{2014} Created by repo skills sync\n"@
    }
}

pub fn manifest_header(existed: bool) -> (r: &'static str)
    ensures
        r@ == manifest_header_s(existed),
{
    if existed {
        "# .repo/skills.toml \u{2014} Synced with installed skills\n"
    } else {
        "# .repo/skills.toml \u{2014} Created by repo skills sync\n"
    }
}

/// The text of a written manifest: the header, two comment lines, a blank
/// line, the TOML body and a newline.
pub open spec fn manifest_text_s(header: Seq<char>, body: Seq<char>) -> Seq<char> {
    header + "# Run `repo skills` to check, `repo skills install` to install missing.\n"@
        + "# Fill in empty `source` fields so teammates can install too.\n\n"@ + body + "\n"@
}

pub fn manifest_text(header: &str, body: &str) -> (r: String)
    ensures
        r@ == manifest_text_s(header@, body@),
{
    let mut v: Vec<char> = Vec::new();
    append_str(&mut v, header);
    append_str(&mut v, "# Run `repo skills` to check, `repo skills install` to install missing.\n");
    append_str(&mut v, "# Fill in empty `source` fields so teammates can install too.\n\n");
    append_str(&mut v, body);
    append_str(&mut v, "\n");
    string_of(&v)
}

// ── deploy ──────────────────────────────────────────────────────────

/// The heading of `skills deploy`: the agents whose config directories
/// exist (or a warning that there are none) and where skills go.
pub open spec fn deploy_heading_s(agents: Seq<Seq<char>>, color: bool) -> Seq<Seq<char>> {
    seq![styled("Deploying built-in skills"@, "1"@, color), Seq::<char>::empty()] + seq![
        if agents.len() == 0 {
            "  "@ + styled("!!"@, "33"@, color) + " no agent config dirs found \u{2014} writing to "@
                + styled("~/.agents/skills/"@, "2"@, color) + " only"@
        } else {
            "  "@ + styled("agents :"@, "2"@, color) + "  "@ + join_s(agents, ", "@)
        },
        "  "@ + styled("install:"@, "2"@, color) + "  ~/.agents/skills/"@,
        Seq::<char>::empty(),
    ]
}

pub fn deploy_heading(agents: &Vec<String>, color: bool) -> (r: Vec<String>)
    ensures
        strings_view(r@) == deploy_heading_s(strings_view(agents@), color),
{
    let mut out: Vec<String> = Vec::new();
    push_line(&mut out, bold("Deploying built-in skills", color));
    push_line(&mut out, String::new());
    let mut v: Vec<char> = Vec::new();
    append_str(&mut v, "  ");
    if agents.len() == 0 {
        append_str(&mut v, yellow("!!", color).as_str());
        append_str(&mut v, " no agent config dirs found \u{2014} writing to ");
        append_str(&mut v, dim("~/.agents/skills/", color).as_str());
        append_str(&mut v, " only");
    } else {
        append_str(&mut v, dim("agents :", color).as_str());
        append_str(&mut v, "  ");
        append(&mut v, &join_strings(agents, ", "));
    }
    push_line(&mut out, string_of(&v));
    push_line(&mut out, concat3("  ", dim("install:", color).as_str(), "  ~/.agents/skills/"));
    push_line(&mut out, String::new());
    assert(strings_view(out@) =~= deploy_heading_s(strings_view(agents@), color));
    out
}

/// Whether deploying a skill is skipped: it is installed and `--force` was
/// not given.
pub open spec fn deploy_skips_s(installed: bool, force: bool) -> bool {
    installed && !force
}

pub fn deploy_skips(installed: bool, force: bool) -> (r: bool)
    ensures
        r == deploy_skips_s(installed, force),
{
    installed && !force
}

/// The line of a skill left alone: `  -- {name:<w}  already installed`.
pub open spec fn deploy_skip_line_s(name: Seq<char>, w: nat, color: bool) -> Seq<char> {
    name_line(styled("--"@, "2"@, color), name, w, styled("already installed"@, "2"@, color))
}

pub fn deploy_skip_line(name: &str, w: usize, color: bool) -> (r: String)
    ensures
        r@ == deploy_skip_line_s(name@, w as nat, color),
{
    let tag = dim("--", color);
    let d = dim("already installed", color);
    name_line_exec(tag.as_str(), name, w, d.as_str())
}

/// `{n}{unit}` for each non-empty part of a bundle, in order.
pub open spec fn extras_s(refs: nat, scripts: nat, examples: nat) -> Seq<Seq<char>> {
    (if refs > 0 {
        seq![dec(refs) + "ref"@]
    } else {
        Seq::empty()
    }) + (if scripts > 0 {
        seq![dec(scripts) + "script"@]
    } else {
        Seq::empty()
    }) + (if examples > 0 {
        seq![dec(examples) + "example"@]
    } else {
        Seq::empty()
    })
}

/// The line of a deployed skill: `ok`, the padded name, the agents it was
/// linked for, and the bundled parts when there are any.
pub open spec fn deploy_ok_line_s(
    name: Seq<char>,
    w: nat,
    linked: Seq<Seq<char>>,
    refs: nat,
    scripts: nat,
    examples: nat,
    color: bool,
) -> Seq<char> {
    let extras = extras_s(refs, scripts, examples);
    name_line(styled("ok"@, "32"@, color), name, w, styled(join_s(linked, ", "@), "2"@, color)) + if extras.len()
        == 0 {
        Seq::empty()
    } else {
        "  "@ + styled("["@ + join_s(extras, " "@) + "]"@, "2"@, color)
    }
}

fn unit_count(n: usize, unit: &str) -> (r: String)
    ensures
        r@ == dec(n as nat) + unit@,
{
    let mut v = decimal(n);
    append_str(&mut v, unit);
    string_of(&v)
}

pub fn deploy_ok_line(
    name: &str,
    w: usize,
    linked: &Vec<String>,
    refs: usize,
    scripts: usize,
    examples: usize,
    color: bool,
) -> (r: String)
    ensures
        r@ == deploy_ok_line_s(
            name@,
            w as nat,
            strings_view(linked@),
            refs as nat,
            scripts as nat,
            examples as nat,
            color,
        ),
{
    let agents = string_of(&join_strings(linked, ", "));
    let tag = green("ok", color);
    let d = dim(agents.as_str(), color);
    let line = name_line_exec(tag.as_str(), name, w, d.as_str());
    let mut extras: Vec<String> = Vec::new();
    if refs > 0 {
        push_line(&mut extras, unit_count(refs, "ref"));
    }
    if scripts > 0 {
        push_line(&mut extras, unit_count(scripts, "script"));
    }
    if examples > 0 {
        push_line(&mut extras, unit_count(examples, "example"));
    }
    assert(strings_view(extras@) =~= extras_s(refs as nat, scripts as nat, examples as nat));
    let mut v = chars_of(line.as_str());
    if extras.len() > 0 {
        let inner = concat3("[", string_of(&join_strings(&extras, " ")).as_str(), "]");
        append_str(&mut v, "  ");
        append_str(&mut v, dim(inner.as_str(), color).as_str());
    }
    string_of(&v)
}

/// The close of `skills deploy`: counts (failures only when there are
/// some) and, when skills were skipped, how to overwrite them.
pub open spec fn deploy_summary_s(installed: nat, skipped: nat, failed: nat, color: bool) -> Seq<
    Seq<char>,
> {
    seq![
        Seq::<char>::empty(),
        "  "@ + styled(dec(installed), "32"@, color) + " installed, "@ + dec(skipped) + if failed
            > 0 {
            ", "@ + styled(dec(failed), "31"@, color) + " "@ + styled("failed"@, "31"@, color)
        } else {
            Seq::empty()
        },
    ] + if skipped > 0 {
        seq!["  Run "@ + styled("`repo skills deploy --force`"@, "2"@, color) + " to overwrite."@]
    } else {
        Seq::empty()
    }
}

pub fn deploy_summary(installed: usize, skipped: usize, failed: usize, color: bool) -> (r: Vec<
    String,
>)
    ensures
        strings_view(r@) == deploy_summary_s(installed as nat, skipped as nat, failed as nat, color),
{
    let mut out: Vec<String> = Vec::new();
    push_line(&mut out, String::new());
    let mut v: Vec<char> = Vec::new();
    append_str(&mut v, "  ");
    append_str(&mut v, green(string_of(&decimal(installed)).as_str(), color).as_str());
    append_str(&mut v, " installed, ");
    append(&mut v, &decimal(skipped));
    if failed > 0 {
        append_str(&mut v, ", ");
        append_str(&mut v, red(string_of(&decimal(failed)).as_str(), color).as_str());
        append_str(&mut v, " ");
        append_str(&mut v, red("failed", color).as_str());
    }
    assert(v@ =~= "  "@ + styled(dec(installed as nat), "32"@, color) + " installed, "@ + dec(
        skipped as nat,
    ) + if failed > 0 {
        ", "@ + styled(dec(failed as nat), "31"@, color) + " "@ + styled("failed"@, "31"@, color)
    } else {
        Seq::empty()
    });
    push_line(&mut out, string_of(&v));
    if skipped > 0 {
        push_line(
            &mut out,
            concat3(
                "  Run ",
                dim("`repo skills deploy --force`", color).as_str(),
                " to overwrite.",
            ),
        );
    }
    assert(strings_view(out@) =~= deploy_summary_s(
        installed as nat,
        skipped as nat,
        failed as nat,
        color,
    ));
    out
}

/// The widest of `names` in UTF-8 bytes (capped), 0 for none; `skills deploy`
/// pads skill names to it.
pub fn widest(names: &Vec<String>) -> (r: usize)
    ensures
        r == names_max(strings_view(names@)),
{
    let ghost nv = strings_view(names@);
    let mut w: usize = 0;
    let mut i: usize = 0;
    while i < names.len()
        invariant
            i <= names.len(),
            nv == strings_view(names@),
            w == names_max(nv.take(i as int)),
        decreases names.len() - i,
    {
        assert(nv.take(i + 1).drop_last() =~= nv.take(i as int));
        assert(nv[i as int] == names@[i as int]@);
        let n = utf8_len_sat(&chars_of(names[i].as_str()));
        if n > w {
            w = n;
        }
        i += 1;
    }
    assert(nv.take(names.len() as int) =~= nv);
    w
}

// ── init and export ─────────────────────────────────────────────────

/// What `skills init` reports for one group of built-in files: how many it
/// wrote and how many it left because they existed.
pub open spec fn init_group_s(dir: Seq<char>, written: nat, skipped: nat, color: bool) -> Seq<
    Seq<char>,
> {
    (if written > 0 {
        seq!["  "@ + styled("ok"@, "32"@, color) + " wrote "@ + dec(written) + " built-in "@ + dir]
    } else {
        Seq::empty()
    }) + (if skipped > 0 {
        seq![
            "  "@ + styled("--"@, "2"@, color) + " "@ + dec(skipped) + " "@ + dir
                + " already existed (not overwritten)"@,
        ]
    } else {
        Seq::empty()
    })
}

pub fn init_group_lines(dir: &str, written: usize, skipped: usize, color: bool) -> (r: Vec<String>)
    ensures
        strings_view(r@) == init_group_s(dir@, written as nat, skipped as nat, color),
{
    let mut out: Vec<String> = Vec::new();
    if written > 0 {
        let mut v: Vec<char> = Vec::new();
        append_str(&mut v, "  ");
        append_str(&mut v, green("ok", color).as_str());
        append_str(&mut v, " wrote ");
        append(&mut v, &decimal(written));
        append_str(&mut v, " built-in ");
        append_str(&mut v, dir);
        push_line(&mut out, string_of(&v));
    }
    if skipped > 0 {
        let mut v: Vec<char> = Vec::new();
        append_str(&mut v, "  ");
        append_str(&mut v, dim("--", color).as_str());
        append_str(&mut v, " ");
        append(&mut v, &decimal(skipped));
        append_str(&mut v, " ");
        append_str(&mut v, dir);
        append_str(&mut v, " already existed (not overwritten)");
        push_line(&mut out, string_of(&v));
    }
    assert(strings_view(out@) =~= init_group_s(dir@, written as nat, skipped as nat, color));
    out
}

pub open spec fn export_skill_lines_s(es: Seq<EntryV>, color: bool) -> Seq<Seq<char>>
    decreases es.len(),
{
    if es.len() == 0 {
        Seq::empty()
    } else {
        export_skill_lines_s(es.drop_last(), color).push(
            "  "@ + styled("ok"@, "32"@, color) + " "@ + es.last().name + "  "@ + styled(
                desc_s(es.last()),
                "2"@,
                color,
            ),
        )
    }
}

/// What `skills export` prints after writing the manifest: that it was
/// written, each exported skill with its description, and the count.
pub open spec fn export_report_s(es: Seq<EntryV>, color: bool) -> Seq<Seq<char>> {
    seq!["  "@ + styled("ok"@, "32"@, color) + " wrote .repo/skills.toml"@, Seq::<char>::empty()]
        + export_skill_lines_s(es, color) + seq![
        Seq::<char>::empty(),
        "  "@ + dec(es.len()) + " skill(s) exported"@,
    ]
}

pub fn export_report(skills: &Vec<SkillEntry>, color: bool) -> (r: Vec<String>)
    ensures
        strings_view(r@) == export_report_s(entry_views(skills@), color),
{
    let ghost ev = entry_views(skills@);
    let mut out: Vec<String> = Vec::new();
    let ok = green("ok", color);
    push_line(&mut out, concat3("  ", ok.as_str(), " wrote .repo/skills.toml"));
    push_line(&mut out, String::new());
    let ghost start = strings_view(out@);
    let mut i: usize = 0;
    while i < skills.len()
        invariant
            i <= skills.len(),
            ev == entry_views(skills@),
            ok@ == styled("ok"@, "32"@, color),
            strings_view(out@) == start + export_skill_lines_s(ev.take(i as int), color),
        decreases skills.len() - i,
    {
        assert(ev.take(i + 1).drop_last() =~= ev.take(i as int));
        assert(ev[i as int] == skills@[i as int]@);
        let mut v: Vec<char> = Vec::new();
        append_str(&mut v, "  ");
        append_str(&mut v, ok.as_str());
        append_str(&mut v, " ");
        append_str(&mut v, skills[i].name.as_str());
        append_str(&mut v, "  ");
        append_str(&mut v, dim(desc_of(&skills[i]), color).as_str());
        push_line(&mut out, string_of(&v));
        i += 1;
        assert(strings_view(out@) =~= start + export_skill_lines_s(ev.take(i as int), color));
    }
    assert(ev.take(skills.len() as int) =~= ev);
    push_line(&mut out, String::new());
    let mut c: Vec<char> = Vec::new();
    append_str(&mut c, "  ");
    append(&mut c, &decimal(skills.len()));
    append_str(&mut c, " skill(s) exported");
    push_line(&mut out, string_of(&c));
    assert(strings_view(out@) =~= export_report_s(ev, color));
    out
}

/// The text of an exported manifest.
pub open spec fn export_text_s(body: Seq<char>) -> Seq<char> {
    "# .repo/skills.toml \u{2014} Exported from installed skills\n"@
        + "# Generated by `repo skills export`\n"@
        + "# Edit source fields as needed, then run `repo skills` to validate.\n\n"@ + body + "\n"@
}

pub fn export_text(body: &str) -> (r: String)
    ensures
        r@ == export_text_s(body@),
{
    let mut v: Vec<char> = Vec::new();
    append_str(&mut v, "# .repo/skills.toml \u{2014} Exported from installed skills\n");
    append_str(&mut v, "# Generated by `repo skills export`\n");
    append_str(&mut v, "# Edit source fields as needed, then run `repo skills` to validate.\n\n");
    append_str(&mut v, body);
    append_str(&mut v, "\n");
    string_of(&v)
}

} // verus!

//! The document table: column widths, header, rows, phase details and the
//! closing count, as the lines the terminal shows.
//!
//! Widths are measured in UTF-8 bytes (`str::len`), padding is counted in
//! characters (as `{:<w$}` does), and escape codes count as characters.
use vstd::prelude::*;
use crate::docs::model::{
    color_summary_s, format_progress_summary, color_progress_summary, label_s, progress_bar, subdir_s,
    progress_bar_s, progress_summary_s, tasks_fit, Doc, DocKind, DocV, PhaseV,
};
use crate::docs::select::{
    all_fit, doc_views, ref_views, should_expand_doc, should_expand_s, DetailsMode,
};
use crate::docs::overview::{status_summary, status_summary_s};
use crate::output::{bold, dim, green, styled, yellow, status_color, status_colored};
use crate::text::{
    chars_of, concat, dec, decimal, sat, string_of, strings_view, utf8_len, utf8_len_sat,
};

verus! {

// ── Cells ───────────────────────────────────────────────────────────

/// `n` spaces.
pub open spec fn spaces(n: nat) -> Seq<char> {
    Seq::new(n, |i: int| ' ')
}

/// `a - b`, or 0 when `b` is larger (`usize::saturating_sub`).
pub open spec fn sub_sat(a: nat, b: nat) -> nat {
    if a > b {
        (a - b) as nat
    } else {
        0
    }
}

/// `s` left-aligned in `w` characters (`{:<w$}`): spaces are added up to
/// `w` characters, and a longer `s` is kept whole.
pub open spec fn pad_right(s: Seq<char>, w: nat) -> Seq<char> {
    s + spaces(sub_sat(w, s.len()))
}

/// A horizontal rule of `w` box-drawing characters.
pub open spec fn rule(w: nat) -> Seq<char> {
    Seq::new(w, |i: int| '\u{2500}')
}

/// A table line: each cell preceded by two spaces.
pub open spec fn cells_line(cells: Seq<Seq<char>>) -> Seq<char>
    decreases cells.len(),
{
    if cells.len() == 0 {
        Seq::empty()
    } else {
        cells_line(cells.drop_last()) + "  "@ + cells.last()
    }
}

// ── Column widths ───────────────────────────────────────────────────

/// The columns whose widths follow their contents.
#[derive(Clone, Copy, PartialEq, Eq, Structural)]
pub enum Col {
    File,
    Title,
    Version,
    Status,
    Date,
    Progress,
}

/// The text a column shows for a document, before colouring.
pub open spec fn cell_text(d: DocV, c: Col) -> Seq<char> {
    match c {
        Col::File => d.file,
        Col::Title => d.title,
        Col::Version => d.version,
        Col::Status => d.status,
        Col::Date => d.date,
        Col::Progress => progress_summary_s(d.phases),
    }
}

pub open spec fn max_n(a: nat, b: nat) -> nat {
    if a >= b {
        a
    } else {
        b
    }
}

/// The widest cell of column `c` in UTF-8 bytes (capped at `usize::MAX`),
/// 0 with no documents.
pub open spec fn col_max(ds: Seq<DocV>, c: Col) -> nat
    decreases ds.len(),
{
    if ds.len() == 0 {
        0
    } else {
        max_n(col_max(ds.drop_last(), c), sat(utf8_len(cell_text(ds.last(), c))))
    }
}

/// Whether some document of a plan listing has phases (then the table shows
/// progress in place of versions).
pub open spec fn any_phases(ds: Seq<DocV>) -> bool
    decreases ds.len(),
{
    if ds.len() == 0 {
        false
    } else {
        any_phases(ds.drop_last()) || ds.last().phases.len() > 0
    }
}

pub open spec fn has_phases_s(kind: DocKind, ds: Seq<DocV>) -> bool {
    kind == DocKind::Plans && any_phases(ds)
}

/// The column widths of a table.
pub struct ColWidths {
    pub file: nat,
    pub title: nat,
    pub version: nat,
    pub status: nat,
    pub date: nat,
    pub progress: nat,
}

/// Each column is as wide as its widest cell and its header; plans have no
/// version header, and the progress column exists only with phases.
pub open spec fn widths_s(kind: DocKind, ds: Seq<DocV>) -> ColWidths {
    ColWidths {
        file: max_n(col_max(ds, Col::File), 4),
        title: max_n(col_max(ds, Col::Title), 5),
        version: max_n(
            col_max(ds, Col::Version),
            if kind == DocKind::Plans {
                0
            } else {
                7
            },
        ),
        status: max_n(col_max(ds, Col::Status), 6),
        date: max_n(col_max(ds, Col::Date), 4),
        progress: if has_phases_s(kind, ds) {
            max_n(col_max(ds, Col::Progress), 8)
        } else {
            0
        },
    }
}

// ── Exec helpers ────────────────────────────────────────────────────

pub fn append(v: &mut Vec<char>, s: &[char])
    ensures
        final(v)@ == old(v)@ + s@,
{
    let mut i: usize = 0;
    while i < s.len()
        invariant
            i <= s.len(),
            v@ == old(v)@ + s@.take(i as int),
        decreases s.len() - i,
    {
        v.push(s[i]);
        i += 1;
        assert(v@ =~= old(v)@ + s@.take(i as int));
    }
    assert(s@.take(s.len() as int) =~= s@);
}

pub fn append_str(v: &mut Vec<char>, s: &str)
    ensures
        final(v)@ == old(v)@ + s@,
{
    let c = chars_of(s);
    append(v, &c);
}

pub fn push_spaces(v: &mut Vec<char>, n: usize)
    ensures
        final(v)@ == old(v)@ + spaces(n as nat),
{
    let mut i: usize = 0;
    while i < n
        invariant
            i <= n,
            v@ == old(v)@ + spaces(i as nat),
        decreases n - i,
    {
        v.push(' ');
        i += 1;
        assert(v@ =~= old(v)@ + spaces(i as nat));
    }
}

/// `s` left-aligned in `w` characters.
pub fn pad_cell(s: &[char], w: usize) -> (r: Vec<char>)
    ensures
        r@ == pad_right(s@, w as nat),
{
    let mut r = concat(s, &[]);
    assert(r@ =~= s@);
    let n: usize = if w > s.len() {
        w - s.len()
    } else {
        0
    };
    push_spaces(&mut r, n);
    r
}

/// Appends a cell preceded by two spaces.
fn push_cell(line: &mut Vec<char>, cell: &[char])
    ensures
        final(line)@ == old(line)@ + "  "@ + cell@,
{
    proof {
        reveal_strlit("  ");
    }
    line.push(' ');
    line.push(' ');
    assert(line@ =~= old(line)@ + "  "@);
    append(line, cell);
    assert(line@ =~= old(line)@ + "  "@ + cell@);
}

/// Joins cells into a table line.
pub fn join_cells(cells: &Vec<Vec<char>>) -> (r: Vec<char>)
    ensures
        r@ == cells_line(cells@.map_values(|c: Vec<char>| c@)),
{
    let ghost cv = cells@.map_values(|c: Vec<char>| c@);
    let mut r: Vec<char> = Vec::new();
    let mut i: usize = 0;
    while i < cells.len()
        invariant
            i <= cells.len(),
            cv == cells@.map_values(|c: Vec<char>| c@),
            r@ == cells_line(cv.take(i as int)),
        decreases cells.len() - i,
    {
        assert(cv.take(i + 1).drop_last() =~= cv.take(i as int));
        push_cell(&mut r, &cells[i]);
        i += 1;
    }
    assert(cv.take(cells.len() as int) =~= cv);
    r
}

/// The UTF-8 length (capped) of a column's cell for a document.
fn cell_len(doc: &Doc, c: Col) -> (r: usize)
    requires
        c == Col::Progress ==> tasks_fit(doc@.phases),
    ensures
        r == sat(utf8_len(cell_text(doc@, c))),
{
    match c {
        Col::File => utf8_len_sat(&chars_of(doc.file.as_str())),
        Col::Title => utf8_len_sat(&chars_of(doc.title.as_str())),
        Col::Version => utf8_len_sat(&chars_of(doc.version.as_str())),
        Col::Status => utf8_len_sat(&chars_of(doc.status.as_str())),
        Col::Date => utf8_len_sat(&chars_of(doc.date.as_str())),
        Col::Progress => {
            let s = format_progress_summary(&doc.phases);
            utf8_len_sat(&chars_of(s.as_str()))
        },
    }
}

/// The width of column `c`: its widest cell, at least `floor`.
pub fn col_width(docs: &[&Doc], c: Col, floor: usize) -> (r: usize)
    requires
        c == Col::Progress ==> all_fit(ref_views(docs@)),
    ensures
        r == max_n(col_max(ref_views(docs@), c), floor as nat),
{
    let ghost ds = ref_views(docs@);
    let mut w: usize = 0;
    let mut i: usize = 0;
    while i < docs.len()
        invariant
            i <= docs.len(),
            ds == ref_views(docs@),
            c == Col::Progress ==> all_fit(ds),
            w == col_max(ds.take(i as int), c),
        decreases docs.len() - i,
    {
        assert(ds.take(i + 1).drop_last() =~= ds.take(i as int));
        assert(ds[i as int] == docs@[i as int]@);
        let n = cell_len(docs[i], c);
        if n > w {
            w = n;
        }
        i += 1;
    }
    assert(ds.take(docs.len() as int) =~= ds);
    if floor > w {
        floor
    } else {
        w
    }
}

/// Whether any document has phases.
pub fn docs_have_phases(docs: &[&Doc]) -> (r: bool)
    ensures
        r == any_phases(ref_views(docs@)),
{
    let ghost ds = ref_views(docs@);
    let mut any = false;
    let mut i: usize = 0;
    while i < docs.len()
        invariant
            i <= docs.len(),
            ds == ref_views(docs@),
            any == any_phases(ds.take(i as int)),
        decreases docs.len() - i,
    {
        assert(ds.take(i + 1).drop_last() =~= ds.take(i as int));
        assert(ds[i as int] == docs@[i as int]@);
        if docs[i].phases.len() > 0 {
            any = true;
        }
        i += 1;
    }
    assert(ds.take(docs.len() as int) =~= ds);
    any
}

// ── Header and rows ─────────────────────────────────────────────────

/// A bold header cell, padded to `w`.
pub open spec fn head_cell(h: Seq<char>, w: nat, color: bool) -> Seq<char> {
    pad_right(styled(h, "1"@, color), w)
}

/// A dim rule under a column of width `w`.
pub open spec fn rule_cell(w: nat, color: bool) -> Seq<char> {
    styled(rule(w), "2"@, color)
}

/// The header line and the rule under it.
pub open spec fn header_s(kind: DocKind, ds: Seq<DocV>, color: bool) -> Seq<Seq<char>> {
    let w = widths_s(kind, ds);
    if has_phases_s(kind, ds) {
        seq![
            cells_line(seq![
                head_cell("FILE"@, w.file, color),
                head_cell("TITLE"@, w.title, color),
                head_cell("STATUS"@, w.status, color),
                head_cell("DATE"@, w.date, color),
                head_cell("PROGRESS"@, w.progress, color),
            ]),
            cells_line(seq![
                rule_cell(w.file, color),
                rule_cell(w.title, color),
                rule_cell(w.status, color),
                rule_cell(w.date, color),
                rule_cell(w.progress, color),
            ]),
        ]
    } else {
        seq![
            cells_line(seq![
                head_cell("FILE"@, w.file, color),
                head_cell("TITLE"@, w.title, color),
                head_cell("VERSION"@, w.version, color),
                head_cell("STATUS"@, w.status, color),
                head_cell("DATE"@, w.date, color),
            ]),
            cells_line(seq![
                rule_cell(w.file, color),
                rule_cell(w.title, color),
                rule_cell(w.version, color),
                rule_cell(w.status, color),
                rule_cell(w.date, color),
            ]),
        ]
    }
}

/// The coloured status, padded by the bytes the plain status lacks.
pub open spec fn status_cell(d: DocV, w: ColWidths, color: bool) -> Seq<char> {
    status_colored(d.status, color) + spaces(sub_sat(w.status, sat(utf8_len(d.status))))
}

/// The coloured progress summary, padded by the bytes the plain one lacks.
pub open spec fn progress_cell(d: DocV, w: ColWidths, color: bool) -> Seq<char> {
    color_summary_s(d.phases, color) + spaces(
        sub_sat(w.progress, sat(utf8_len(progress_summary_s(d.phases)))),
    )
}

/// One document's row.
pub open spec fn row_s(d: DocV, w: ColWidths, phases: bool, color: bool) -> Seq<char> {
    if phases {
        cells_line(seq![
            pad_right(d.file, w.file),
            pad_right(d.title, w.title),
            status_cell(d, w, color),
            pad_right(d.date, w.date),
            progress_cell(d, w, color),
        ])
    } else {
        cells_line(seq![
            pad_right(d.file, w.file),
            pad_right(d.title, w.title),
            pad_right(d.version, w.version),
            status_cell(d, w, color),
            pad_right(d.date, w.date),
        ])
    }
}

/// The rows of `ds`, in order.
pub open spec fn rows_s(ds: Seq<DocV>, w: ColWidths, phases: bool, color: bool) -> Seq<
    Seq<char>,
>
    decreases ds.len(),
{
    if ds.len() == 0 {
        Seq::empty()
    } else {
        rows_s(ds.drop_last(), w, phases, color).push(row_s(ds.last(), w, phases, color))
    }
}

/// The widths of a table, as machine integers.
pub struct Widths {
    pub file: usize,
    pub title: usize,
    pub version: usize,
    pub status: usize,
    pub date: usize,
    pub progress: usize,
}

impl View for Widths {
    type V = ColWidths;

    open spec fn view(&self) -> ColWidths {
        ColWidths {
            file: self.file as nat,
            title: self.title as nat,
            version: self.version as nat,
            status: self.status as nat,
            date: self.date as nat,
            progress: self.progress as nat,
        }
    }
}

/// The column widths of the table of `docs`.
pub fn table_widths(kind: DocKind, docs: &[&Doc]) -> (r: Widths)
    requires
        has_phases_s(kind, ref_views(docs@)) ==> all_fit(ref_views(docs@)),
    ensures
        r@ == widths_s(kind, ref_views(docs@)),
{
    let phases = kind == DocKind::Plans && docs_have_phases(docs);
    let ver_floor: usize = if kind == DocKind::Plans {
        0
    } else {
        7
    };
    Widths {
        file: col_width(docs, Col::File, 4),
        title: col_width(docs, Col::Title, 5),
        version: col_width(docs, Col::Version, ver_floor),
        status: col_width(docs, Col::Status, 6),
        date: col_width(docs, Col::Date, 4),
        progress: if phases {
            col_width(docs, Col::Progress, 8)
        } else {
            0
        },
    }
}

pub fn styled_chars(s: &[char], code: &str, color: bool) -> (r: Vec<char>)
    ensures
        r@ == styled(s@, code@, color),
{
    let st = string_of(s);
    let r = crate::output::apply_style(st.as_str(), code, color);
    chars_of(r.as_str())
}

pub fn head_cell_exec(h: &str, w: usize, color: bool) -> (r: Vec<char>)
    ensures
        r@ == head_cell(h@, w as nat, color),
{
    let b = bold(h, color);
    pad_cell(&chars_of(b.as_str()), w)
}

pub fn rule_cell_exec(w: usize, color: bool) -> (r: Vec<char>)
    ensures
        r@ == rule_cell(w as nat, color),
{
    let v = crate::docs::model::repeat_char('\u{2500}', w);
    assert(v@ =~= rule(w as nat));
    styled_chars(&v, "2", color)
}

pub fn line_of(cells: Vec<Vec<char>>) -> (r: String)
    ensures
        r@ == cells_line(cells@.map_values(|c: Vec<char>| c@)),
{
    let l = join_cells(&cells);
    string_of(&l)
}

/// The header line and its rule.
pub fn header_lines(kind: DocKind, docs: &[&Doc], w: &Widths, color: bool) -> (r: Vec<String>)
    requires
        w@ == widths_s(kind, ref_views(docs@)),
    ensures
        strings_view(r@) == header_s(kind, ref_views(docs@), color),
{
    let phases = kind == DocKind::Plans && docs_have_phases(docs);
    let mut r: Vec<String> = Vec::new();
    if phases {
        let h = vec![
            head_cell_exec("FILE", w.file, color),
            head_cell_exec("TITLE", w.title, color),
            head_cell_exec("STATUS", w.status, color),
            head_cell_exec("DATE", w.date, color),
            head_cell_exec("PROGRESS", w.progress, color),
        ];
        let ghost hv = h@.map_values(|c: Vec<char>| c@);
        r.push(line_of(h));
        let u = vec![
            rule_cell_exec(w.file, color),
            rule_cell_exec(w.title, color),
            rule_cell_exec(w.status, color),
            rule_cell_exec(w.date, color),
            rule_cell_exec(w.progress, color),
        ];
        let ghost uv = u@.map_values(|c: Vec<char>| c@);
        r.push(line_of(u));
        assert(hv =~= seq![
            head_cell("FILE"@, w@.file, color),
            head_cell("TITLE"@, w@.title, color),
            head_cell("STATUS"@, w@.status, color),
            head_cell("DATE"@, w@.date, color),
            head_cell("PROGRESS"@, w@.progress, color),
        ]);
        assert(uv =~= seq![
            rule_cell(w@.file, color),
            rule_cell(w@.title, color),
            rule_cell(w@.status, color),
            rule_cell(w@.date, color),
            rule_cell(w@.progress, color),
        ]);
    } else {
        let h = vec![
            head_cell_exec("FILE", w.file, color),
            head_cell_exec("TITLE", w.title, color),
            head_cell_exec("VERSION", w.version, color),
            head_cell_exec("STATUS", w.status, color),
            head_cell_exec("DATE", w.date, color),
        ];
        let ghost hv = h@.map_values(|c: Vec<char>| c@);
        r.push(line_of(h));
        let u = vec![
            rule_cell_exec(w.file, color),
            rule_cell_exec(w.title, color),
            rule_cell_exec(w.version, color),
            rule_cell_exec(w.status, color),
            rule_cell_exec(w.date, color),
        ];
        let ghost uv = u@.map_values(|c: Vec<char>| c@);
        r.push(line_of(u));
        assert(hv =~= seq![
            head_cell("FILE"@, w@.file, color),
            head_cell("TITLE"@, w@.title, color),
            head_cell("VERSION"@, w@.version, color),
            head_cell("STATUS"@, w@.status, color),
            head_cell("DATE"@, w@.date, color),
        ]);
        assert(uv =~= seq![
            rule_cell(w@.file, color),
            rule_cell(w@.title, color),
            rule_cell(w@.version, color),
            rule_cell(w@.status, color),
            rule_cell(w@.date, color),
        ]);
    }
    assert(strings_view(r@) =~= header_s(kind, ref_views(docs@), color));
    r
}

fn status_cell_exec(doc: &Doc, w: &Widths, color: bool) -> (r: Vec<char>)
    ensures
        r@ == status_cell(doc@, w@, color),
{
    let sc = status_color(doc.status.as_str(), color);
    let mut r = chars_of(sc.as_str());
    let n = utf8_len_sat(&chars_of(doc.status.as_str()));
    let pad: usize = if w.status > n {
        w.status - n
    } else {
        0
    };
    push_spaces(&mut r, pad);
    r
}

fn progress_cell_exec(doc: &Doc, w: &Widths, color: bool) -> (r: Vec<char>)
    requires
        tasks_fit(doc@.phases),
    ensures
        r@ == progress_cell(doc@, w@, color),
{
    let plain = format_progress_summary(&doc.phases);
    let colored = color_progress_summary(&doc.phases, color);
    let mut r = chars_of(colored.as_str());
    let n = utf8_len_sat(&chars_of(plain.as_str()));
    let pad: usize = if w.progress > n {
        w.progress - n
    } else {
        0
    };
    push_spaces(&mut r, pad);
    r
}

/// One document's row.
pub fn row_line(doc: &Doc, w: &Widths, phases: bool, color: bool) -> (r: String)
    requires
        phases ==> tasks_fit(doc@.phases),
    ensures
        r@ == row_s(doc@, w@, phases, color),
{
    let ghost d = doc@;
    if phases {
        let cells = vec![
            pad_cell(&chars_of(doc.file.as_str()), w.file),
            pad_cell(&chars_of(doc.title.as_str()), w.title),
            status_cell_exec(doc, w, color),
            pad_cell(&chars_of(doc.date.as_str()), w.date),
            progress_cell_exec(doc, w, color),
        ];
        assert(cells@.map_values(|c: Vec<char>| c@) =~= seq![
            pad_right(d.file, w@.file),
            pad_right(d.title, w@.title),
            status_cell(d, w@, color),
            pad_right(d.date, w@.date),
            progress_cell(d, w@, color),
        ]);
        line_of(cells)
    } else {
        let cells = vec![
            pad_cell(&chars_of(doc.file.as_str()), w.file),
            pad_cell(&chars_of(doc.title.as_str()), w.title),
            pad_cell(&chars_of(doc.version.as_str()), w.version),
            status_cell_exec(doc, w, color),
            pad_cell(&chars_of(doc.date.as_str()), w.date),
        ];
        assert(cells@.map_values(|c: Vec<char>| c@) =~= seq![
            pad_right(d.file, w@.file),
            pad_right(d.title, w@.title),
            pad_right(d.version, w@.version),
            status_cell(d, w@, color),
            pad_right(d.date, w@.date),
        ]);
        line_of(cells)
    }
}

/// The rows of `docs`, appended to `out`.
fn push_rows(out: &mut Vec<String>, docs: &[&Doc], w: &Widths, phases: bool, color: bool)
    requires
        phases ==> all_fit(ref_views(docs@)),
    ensures
        strings_view(final(out)@) == strings_view(old(out)@) + rows_s(
            ref_views(docs@),
            w@,
            phases,
            color,
        ),
{
    let ghost ds = ref_views(docs@);
    let ghost start = strings_view(out@);
    let mut i: usize = 0;
    while i < docs.len()
        invariant
            i <= docs.len(),
            ds == ref_views(docs@),
            phases ==> all_fit(ds),
            strings_view(out@) == start + rows_s(ds.take(i as int), w@, phases, color),
        decreases docs.len() - i,
    {
        assert(ds.take(i + 1).drop_last() =~= ds.take(i as int));
        assert(ds[i as int] == docs@[i as int]@);
        let line = row_line(docs[i], w, phases, color);
        let ghost prev = out@;
        let ghost lv = line@;
        out.push(line);
        assert(strings_view(out@) =~= strings_view(prev).push(lv));
        i += 1;
    }
    assert(ds.take(docs.len() as int) =~= ds);
}

// ── Phase details and the closing lines ─────────────────────────────

/// A phase's state word: `--` without tasks, `done`, `partial`, `pending`.
pub open spec fn phase_tag_s(p: PhaseV, color: bool) -> Seq<char> {
    if p.total == 0 {
        styled("--"@, "2"@, color)
    } else if p.done == p.total {
        styled("done"@, "32"@, color)
    } else if p.done > 0 {
        styled("partial"@, "33"@, color)
    } else {
        styled("pending"@, "2"@, color)
    }
}

/// `    {bar}  {done}/{total}  {tag}  {name}` with a 16-cell bar.
pub open spec fn phase_line_s(p: PhaseV, color: bool) -> Seq<char> {
    "    "@ + progress_bar_s(p.done as nat, p.total as nat, 16, color) + "  "@ + dec(p.done as nat)
        + "/"@ + dec(p.total as nat) + "  "@ + phase_tag_s(p, color) + "  "@ + p.name
}

pub open spec fn phase_lines_s(ps: Seq<PhaseV>, color: bool) -> Seq<Seq<char>>
    decreases ps.len(),
{
    if ps.len() == 0 {
        Seq::empty()
    } else {
        phase_lines_s(ps.drop_last(), color).push(phase_line_s(ps.last(), color))
    }
}

/// The phase block of one document: a title line, a line per phase and a
/// blank line, when it has phases and `details` expands it.
pub open spec fn doc_details_s(d: DocV, details: DetailsMode, color: bool) -> Seq<Seq<char>> {
    if d.phases.len() == 0 || !should_expand_s(details, d) {
        Seq::empty()
    } else {
        seq!["  "@ + styled(d.title, "1"@, color) + " "@ + styled("phases:"@, "2"@, color)]
            + phase_lines_s(d.phases, color) + seq![Seq::<char>::empty()]
    }
}

pub open spec fn details_s(ds: Seq<DocV>, details: DetailsMode, color: bool) -> Seq<Seq<char>>
    decreases ds.len(),
{
    if ds.len() == 0 {
        Seq::empty()
    } else {
        details_s(ds.drop_last(), details, color) + doc_details_s(ds.last(), details, color)
    }
}

/// A 16-cell bar can be drawn for the phase: without tasks it is empty;
/// otherwise its filled part fits the bar.
pub open spec fn bar_fits(p: PhaseV) -> bool {
    p.total > 0 ==> p.done * 16 <= usize::MAX && (p.done * 16) / (p.total as int) <= 16
}

/// Every phase of every document that `details` expands can be drawn.
pub open spec fn expanded_bars_fit(ds: Seq<DocV>, details: DetailsMode) -> bool {
    forall|i: int, j: int|
        0 <= i < ds.len() && should_expand_s(details, ds[i]) && 0 <= j < ds[i].phases.len()
            ==> #[trigger] bar_fits(ds[i].phases[j])
}

/// `  {n} {label}(s) found`.
pub open spec fn count_line_s(kind: DocKind, n: nat) -> Seq<char> {
    "  "@ + dec(n) + " "@ + label_s(kind) + "(s) found"@
}

/// The two hints under a plan listing without details.
pub open spec fn hints_s(color: bool) -> Seq<Seq<char>> {
    seq![
        "  Run "@ + styled("repo docs plans <query>"@, "2"@, color) + " to inspect one plan."@,
        "  Run "@ + styled("repo docs plans --details incomplete"@, "2"@, color)
            + " to expand active plans."@,
    ]
}

/// The whole table: header, rows, a blank line, the phase blocks (plans with
/// phases, when details are asked for), the count, and for plans without
/// details the two hints.
pub open spec fn table_s(kind: DocKind, ds: Seq<DocV>, details: DetailsMode, color: bool) -> Seq<
    Seq<char>,
> {
    let w = widths_s(kind, ds);
    let hp = has_phases_s(kind, ds);
    header_s(kind, ds, color) + rows_s(ds, w, hp, color) + seq![Seq::<char>::empty()] + (if hp
        && details != DetailsMode::Off {
        details_s(ds, details, color)
    } else {
        Seq::empty()
    }) + seq![count_line_s(kind, ds.len())] + (if kind == DocKind::Plans && details
        == DetailsMode::Off {
        hints_s(color)
    } else {
        Seq::empty()
    })
}

fn phase_tag(p: &crate::docs::model::PlanPhase, color: bool) -> (r: String)
    ensures
        r@ == phase_tag_s(p@, color),
{
    if p.total == 0 {
        dim("--", color)
    } else if p.done == p.total {
        green("done", color)
    } else if p.done > 0 {
        yellow("partial", color)
    } else {
        dim("pending", color)
    }
}

/// One phase line.
pub fn phase_line(p: &crate::docs::model::PlanPhase, color: bool) -> (r: String)
    requires
        bar_fits(p@),
    ensures
        r@ == phase_line_s(p@, color),
{
    let mut v: Vec<char> = Vec::new();
    append_str(&mut v, "    ");
    let bar = progress_bar(p.done, p.total, 16, color);
    append_str(&mut v, bar.as_str());
    append_str(&mut v, "  ");
    append(&mut v, &decimal(p.done));
    append_str(&mut v, "/");
    append(&mut v, &decimal(p.total));
    append_str(&mut v, "  ");
    let tag = phase_tag(p, color);
    append_str(&mut v, tag.as_str());
    append_str(&mut v, "  ");
    append_str(&mut v, p.name.as_str());
    assert(v@ =~= phase_line_s(p@, color));
    string_of(&v)
}

pub fn push_line(out: &mut Vec<String>, line: String)
    ensures
        strings_view(final(out)@) == strings_view(old(out)@).push(line@),
{
    out.push(line);
    assert(strings_view(out@) =~= strings_view(old(out)@).push(line@));
}

/// The phase block of one document, appended to `out`.
fn push_doc_details(out: &mut Vec<String>, doc: &Doc, details: DetailsMode, color: bool)
    requires
        should_expand_s(details, doc@) ==> forall|j: int|
            0 <= j < doc@.phases.len() ==> #[trigger] bar_fits(doc@.phases[j]),
    ensures
        strings_view(final(out)@) == strings_view(old(out)@) + doc_details_s(doc@, details, color),
{
    let ghost start = strings_view(out@);
    if doc.phases.len() == 0 || !should_expand_doc(details, doc) {
        assert(strings_view(out@) =~= start + doc_details_s(doc@, details, color));
        return;
    }
    let mut head: Vec<char> = Vec::new();
    append_str(&mut head, "  ");
    let t = bold(doc.title.as_str(), color);
    append_str(&mut head, t.as_str());
    append_str(&mut head, " ");
    let ph = dim("phases:", color);
    append_str(&mut head, ph.as_str());
    push_line(out, string_of(&head));
    let ghost ps = doc@.phases;
    let ghost after_head = strings_view(out@);
    let mut j: usize = 0;
    while j < doc.phases.len()
        invariant
            j <= doc.phases.len(),
            ps == doc@.phases,
            forall|k: int| 0 <= k < ps.len() ==> #[trigger] bar_fits(ps[k]),
            strings_view(out@) == after_head + phase_lines_s(ps.take(j as int), color),
        decreases doc.phases.len() - j,
    {
        assert(ps.take(j + 1).drop_last() =~= ps.take(j as int));
        assert(ps[j as int] == doc.phases@[j as int]@);
        let l = phase_line(&doc.phases[j], color);
        push_line(out, l);
        j += 1;
        assert(strings_view(out@) =~= after_head + phase_lines_s(ps.take(j as int), color));
    }
    assert(ps.take(doc.phases.len() as int) =~= ps);
    push_line(out, String::new());
    assert(strings_view(out@) =~= start + doc_details_s(doc@, details, color));
}

/// The phase blocks of all documents, appended to `out`.
fn push_details(out: &mut Vec<String>, docs: &[&Doc], details: DetailsMode, color: bool)
    requires
        expanded_bars_fit(ref_views(docs@), details),
    ensures
        strings_view(final(out)@) == strings_view(old(out)@) + details_s(
            ref_views(docs@),
            details,
            color,
        ),
{
    let ghost ds = ref_views(docs@);
    let ghost start = strings_view(out@);
    let mut i: usize = 0;
    while i < docs.len()
        invariant
            i <= docs.len(),
            ds == ref_views(docs@),
            expanded_bars_fit(ds, details),
            strings_view(out@) == start + details_s(ds.take(i as int), details, color),
        decreases docs.len() - i,
    {
        assert(ds.take(i + 1).drop_last() =~= ds.take(i as int));
        assert(ds[i as int] == docs@[i as int]@);
        assert forall|j: int|
            should_expand_s(details, ds[i as int]) && 0 <= j < ds[i as int].phases.len()
                implies #[trigger] bar_fits(ds[i as int].phases[j]) by {}
        push_doc_details(out, docs[i], details, color);
        i += 1;
        assert(strings_view(out@) =~= start + details_s(ds.take(i as int), details, color));
    }
    assert(ds.take(docs.len() as int) =~= ds);
}

/// The lines of the document table, as the terminal shows them.
pub fn table_lines(kind: DocKind, docs: &[&Doc], details: DetailsMode, color: bool) -> (r: Vec<
    String,
>)
    requires
        has_phases_s(kind, ref_views(docs@)) ==> all_fit(ref_views(docs@)),
        has_phases_s(kind, ref_views(docs@)) ==> expanded_bars_fit(ref_views(docs@), details),
    ensures
        strings_view(r@) == table_s(kind, ref_views(docs@), details, color),
{
    let ghost ds = ref_views(docs@);
    let phases = kind == DocKind::Plans && docs_have_phases(docs);
    let w = table_widths(kind, docs);
    let mut out = header_lines(kind, docs, &w, color);
    push_rows(&mut out, docs, &w, phases, color);
    push_line(&mut out, String::new());
    let ghost before_details = strings_view(out@);
    if phases && details != DetailsMode::Off {
        push_details(&mut out, docs, details, color);
    } else {
        assert(strings_view(out@) =~= before_details + Seq::<Seq<char>>::empty());
    }
    let mut count: Vec<char> = Vec::new();
    append_str(&mut count, "  ");
    append(&mut count, &decimal(docs.len()));
    append_str(&mut count, " ");
    append_str(&mut count, kind.label());
    append_str(&mut count, "(s) found");
    assert(count@ =~= count_line_s(kind, ds.len()));
    push_line(&mut out, string_of(&count));
    let ghost before_hints = strings_view(out@);
    if kind == DocKind::Plans && details == DetailsMode::Off {
        let mut h1: Vec<char> = Vec::new();
        append_str(&mut h1, "  Run ");
        append_str(&mut h1, dim("repo docs plans <query>", color).as_str());
        append_str(&mut h1, " to inspect one plan.");
        push_line(&mut out, string_of(&h1));
        let mut h2: Vec<char> = Vec::new();
        append_str(&mut h2, "  Run ");
        append_str(&mut h2, dim("repo docs plans --details incomplete", color).as_str());
        append_str(&mut h2, " to expand active plans.");
        push_line(&mut out, string_of(&h2));
        assert(strings_view(out@) =~= before_hints + hints_s(color));
    } else {
        assert(strings_view(out@) =~= before_hints + Seq::<Seq<char>>::empty());
    }
    assert(strings_view(out@) =~= table_s(kind, ds, details, color));
    out
}

// ── Overview lines ──────────────────────────────────────────────────

/// `s` right-aligned in `w` characters (`{:>w$}`).
pub open spec fn pad_left(s: Seq<char>, w: nat) -> Seq<char> {
    spaces(sub_sat(w, s.len())) + s
}

/// `parts` joined with `sep`.
pub open spec fn join_s(parts: Seq<Seq<char>>, sep: Seq<char>) -> Seq<char>
    decreases parts.len(),
{
    if parts.len() == 0 {
        Seq::empty()
    } else if parts.len() == 1 {
        parts[0]
    } else {
        join_s(parts.drop_last(), sep) + sep + parts.last()
    }
}

/// Where a kind's documents live, as the overview shows it.
pub open spec fn overview_location(kind: DocKind) -> Seq<char> {
    if kind == DocKind::Plans {
        ".repo/storage/"@
    } else {
        "_docs/"@
    }
}

/// A kind's overview line: `  {kind:<12} {count:>3} doc(s)  {summary}  {location}`,
/// the summary being the sorted status counts, or `(empty)`.
pub open spec fn overview_line_s(kind: DocKind, ds: Seq<DocV>, color: bool) -> Seq<char> {
    let summary = if ds.len() == 0 {
        styled("(empty)"@, "2"@, color)
    } else {
        styled(join_s(status_summary_s(ds), ", "@), "2"@, color)
    };
    "  "@ + pad_right(styled(subdir_s(kind), "1"@, color), 12) + " "@ + pad_left(dec(ds.len()), 3)
        + " doc(s)  "@ + summary + "  "@ + styled(overview_location(kind), "2"@, color)
}

/// Joins strings with `sep`.
pub fn join_strings(parts: &Vec<String>, sep: &str) -> (r: Vec<char>)
    ensures
        r@ == join_s(strings_view(parts@), sep@),
{
    let ghost pv = strings_view(parts@);
    let mut r: Vec<char> = Vec::new();
    let mut i: usize = 0;
    while i < parts.len()
        invariant
            i <= parts.len(),
            pv == strings_view(parts@),
            r@ == join_s(pv.take(i as int), sep@),
        decreases parts.len() - i,
    {
        assert(pv.take(i + 1).drop_last() =~= pv.take(i as int));
        assert(pv[i as int] == parts@[i as int]@);
        if i > 0 {
            append_str(&mut r, sep);
        } else {
            assert(pv.take(0) =~= Seq::<Seq<char>>::empty());
        }
        append_str(&mut r, parts[i].as_str());
        i += 1;
        assert(r@ =~= join_s(pv.take(i as int), sep@));
    }
    assert(pv.take(parts.len() as int) =~= pv);
    r
}

/// A kind's line in the docs overview.
pub fn overview_line(kind: DocKind, docs: &[Doc], color: bool) -> (r: String)
    ensures
        r@ == overview_line_s(kind, doc_views(docs@), color),
{
    let mut v: Vec<char> = Vec::new();
    append_str(&mut v, "  ");
    let name = bold(kind.subdir(), color);
    let name_cell = pad_cell(&chars_of(name.as_str()), 12);
    append(&mut v, &name_cell);
    append_str(&mut v, " ");
    let n = decimal(docs.len());
    let lead: usize = if n.len() < 3 {
        3 - n.len()
    } else {
        0
    };
    push_spaces(&mut v, lead);
    append(&mut v, &n);
    append_str(&mut v, " doc(s)  ");
    let summary = if docs.len() == 0 {
        dim("(empty)", color)
    } else {
        let parts = status_summary(docs);
        let joined = string_of(&join_strings(&parts, ", "));
        dim(joined.as_str(), color)
    };
    append_str(&mut v, summary.as_str());
    append_str(&mut v, "  ");
    let loc = if kind == DocKind::Plans {
        ".repo/storage/"
    } else {
        "_docs/"
    };
    append_str(&mut v, dim(loc, color).as_str());
    assert(v@ =~= overview_line_s(kind, doc_views(docs@), color));
    string_of(&v)
}

// ── Listing messages ────────────────────────────────────────────────

/// Where an empty kind was looked for: `.repo/storage/` for plans, else
/// `_docs/{kind}/`.
pub open spec fn empty_location_s(kind: DocKind) -> Seq<char> {
    if kind == DocKind::Plans {
        ".repo/storage/"@
    } else {
        "_docs/"@ + subdir_s(kind) + "/"@
    }
}

/// `No {label}s found in {location}`.
pub open spec fn no_docs_s(kind: DocKind) -> Seq<char> {
    "No "@ + label_s(kind) + "s found in "@ + empty_location_s(kind)
}

pub fn no_docs_message(kind: DocKind) -> (r: String)
    ensures
        r@ == no_docs_s(kind),
{
    let mut v: Vec<char> = Vec::new();
    append_str(&mut v, "No ");
    append_str(&mut v, kind.label());
    append_str(&mut v, "s found in ");
    if kind == DocKind::Plans {
        append_str(&mut v, ".repo/storage/");
    } else {
        append_str(&mut v, "_docs/");
        append_str(&mut v, kind.subdir());
        append_str(&mut v, "/");
    }
    string_of(&v)
}

/// `No {label}s match the given filter.`
pub open spec fn no_match_s(kind: DocKind) -> Seq<char> {
    "No "@ + label_s(kind) + "s match the given filter."@
}

pub fn no_match_message(kind: DocKind) -> (r: String)
    ensures
        r@ == no_match_s(kind),
{
    let mut v: Vec<char> = Vec::new();
    append_str(&mut v, "No ");
    append_str(&mut v, kind.label());
    append_str(&mut v, "s match the given filter.");
    string_of(&v)
}

/// What a query that matches nothing writes to standard error.
pub open spec fn query_miss_s(kind: DocKind, query: Seq<char>) -> Seq<Seq<char>> {
    seq![
        "No "@ + label_s(kind) + " matched `"@ + query + "`."@,
        "Run `repo docs "@ + subdir_s(kind) + " --help` for usage."@,
    ]
}

pub fn query_miss_lines(kind: DocKind, query: &str) -> (r: Vec<String>)
    ensures
        strings_view(r@) == query_miss_s(kind, query@),
{
    let mut out: Vec<String> = Vec::new();
    let mut a: Vec<char> = Vec::new();
    append_str(&mut a, "No ");
    append_str(&mut a, kind.label());
    append_str(&mut a, " matched `");
    append_str(&mut a, query);
    append_str(&mut a, "`.");
    push_line(&mut out, string_of(&a));
    let mut b: Vec<char> = Vec::new();
    append_str(&mut b, "Run `repo docs ");
    append_str(&mut b, kind.subdir());
    append_str(&mut b, " --help` for usage.");
    push_line(&mut out, string_of(&b));
    assert(strings_view(out@) =~= query_miss_s(kind, query@));
    out
}

// ── What the table needs ────────────────────────────────────────────

fn bars_fit_exec(phases: &Vec<crate::docs::model::PlanPhase>) -> (r: bool)
    ensures
        r == forall|j: int| 0 <= j < phases@.len() ==> #[trigger] bar_fits(phases@[j]@),
{
    let mut i: usize = 0;
    while i < phases.len()
        invariant
            i <= phases.len(),
            forall|j: int| 0 <= j < i ==> #[trigger] bar_fits(phases@[j]@),
        decreases phases.len() - i,
    {
        let p = &phases[i];
        if p.total == 0 {
            i += 1;
            continue;
        }
        if p.done > usize::MAX / 16 {
            assert(!bar_fits(phases@[i as int]@)) by (nonlinear_arith)
                requires
                    p.done > usize::MAX / 16,
                    phases@[i as int]@.total > 0,
                    phases@[i as int]@.done == p.done,
            {}
            return false;
        }
        assert(p.done * 16 <= usize::MAX) by (nonlinear_arith)
            requires
                p.done <= usize::MAX / 16,
        {}
        if p.total > 0 && (p.done * 16) / p.total > 16 {
            assert(!bar_fits(phases@[i as int]@));
            return false;
        }
        i += 1;
    }
    true
}

/// Whether [`table_lines`] can draw the table: with phases shown, every
/// document's task sums fit and every expanded phase's bar fits.
pub fn table_fits(kind: DocKind, docs: &[&Doc], details: DetailsMode) -> (r: bool)
    ensures
        r == (has_phases_s(kind, ref_views(docs@)) ==> all_fit(ref_views(docs@))
            && expanded_bars_fit(ref_views(docs@), details)),
{
    let ghost ds = ref_views(docs@);
    if !(kind == DocKind::Plans && docs_have_phases(docs)) {
        return true;
    }
    let mut i: usize = 0;
    while i < docs.len()
        invariant
            i <= docs.len(),
            ds == ref_views(docs@),
            has_phases_s(kind, ds),
            forall|k: int| 0 <= k < i ==> tasks_fit(#[trigger] ds[k].phases),
            forall|k: int, j: int|
                0 <= k < i && should_expand_s(details, ds[k]) && 0 <= j < ds[k].phases.len()
                    ==> #[trigger] bar_fits(ds[k].phases[j]),
        decreases docs.len() - i,
    {
        assert(ds[i as int] == docs@[i as int]@);
        assert(ds[i as int].phases == crate::docs::model::phase_views(docs@[i as int].phases@));
        if !crate::docs::select::phases_fit(&docs[i].phases) {
            assert(!tasks_fit(ds[i as int].phases));
            return false;
        }
        if should_expand_doc(details, docs[i]) && !bars_fit_exec(&docs[i].phases) {
            assert(!expanded_bars_fit(ds, details)) by {
                let j = choose|j: int|
                    0 <= j < docs@[i as int].phases@.len() && !bar_fits(
                        docs@[i as int].phases@[j]@,
                    );
                assert(ds[i as int].phases[j] == docs@[i as int].phases@[j]@);
                assert(!bar_fits(ds[i as int].phases[j]));
            }
            return false;
        }
        proof {
            assert forall|j: int|
                should_expand_s(details, ds[i as int]) && 0 <= j < ds[i as int].phases.len()
                    implies #[trigger] bar_fits(ds[i as int].phases[j]) by {
                assert(ds[i as int].phases[j] == docs@[i as int].phases@[j]@);
            }
        }
        i += 1;
    }
    true
}

// ── The pick menu ───────────────────────────────────────────────────

pub open spec fn pick_items_s(ds: Seq<DocV>, color: bool) -> Seq<Seq<char>>
    decreases ds.len(),
{
    if ds.len() == 0 {
        Seq::empty()
    } else {
        pick_items_s(ds.drop_last(), color).push(
            "  "@ + dec(ds.len()) + ". "@ + ds.last().file + " "@ + styled(
                "("@ + ds.last().title + ")"@,
                "2"@,
                color,
            ),
        )
    }
}

/// The menu of `--interactive`: `Select a {label}:` in bold, then each
/// document numbered from 1 with its title.
pub open spec fn pick_menu_s(kind: DocKind, ds: Seq<DocV>, color: bool) -> Seq<Seq<char>> {
    seq![styled("Select a "@ + label_s(kind) + ":"@, "1"@, color)] + pick_items_s(ds, color)
}

pub fn pick_menu_lines(kind: DocKind, docs: &[&Doc], color: bool) -> (r: Vec<String>)
    ensures
        strings_view(r@) == pick_menu_s(kind, ref_views(docs@), color),
{
    let ghost ds = ref_views(docs@);
    let mut out: Vec<String> = Vec::new();
    let mut head: Vec<char> = Vec::new();
    append_str(&mut head, "Select a ");
    append_str(&mut head, kind.label());
    append_str(&mut head, ":");
    push_line(&mut out, bold(string_of(&head).as_str(), color));
    let ghost start = strings_view(out@);
    let mut i: usize = 0;
    while i < docs.len()
        invariant
            i <= docs.len(),
            ds == ref_views(docs@),
            strings_view(out@) == start + pick_items_s(ds.take(i as int), color),
        decreases docs.len() - i,
    {
        assert(ds.take(i + 1).drop_last() =~= ds.take(i as int));
        assert(ds[i as int] == docs@[i as int]@);
        let mut v: Vec<char> = Vec::new();
        append_str(&mut v, "  ");
        append(&mut v, &decimal(i + 1));
        append_str(&mut v, ". ");
        append_str(&mut v, docs[i].file.as_str());
        append_str(&mut v, " ");
        let mut t: Vec<char> = Vec::new();
        append_str(&mut t, "(");
        append_str(&mut t, docs[i].title.as_str());
        append_str(&mut t, ")");
        append_str(&mut v, dim(string_of(&t).as_str(), color).as_str());
        push_line(&mut out, string_of(&v));
        i += 1;
        assert(strings_view(out@) =~= start + pick_items_s(ds.take(i as int), color));
    }
    assert(ds.take(docs.len() as int) =~= ds);
    out
}

} // verus!

//! Markdown documents: frontmatter metadata and `## Phase` task checklists.
use vstd::prelude::*;
use crate::docs::model::{
    phase_views, total_sum, done_sum, tasks_fit, Doc, DocV, PhaseV, PlanPhase,
};
use crate::frontmatter::{
    field_or, frontmatter_parts, lookup, parse_yaml_chars, split_frontmatter, yaml_pairs,
};
use crate::paths::{
    dashes_to_spaces, file_name_or_empty, path_file_name, path_file_stem, stem_title,
};
use crate::text::{
    chars_of, lines, lines_s, owned, starts_with, string_of, strip_leading, strip_leading_s, trim,
    trim_s, trim_start, trim_start_s, views, is_ws,
};

verus! {

/// The file name of `path`, or empty.
pub open spec fn name_or_empty(path: Seq<char>) -> Seq<char> {
    match path_file_name(path) {
        Some(n) => n,
        None => Seq::<char>::empty(),
    }
}

/// The title a document without frontmatter gets: its stem, dashes as spaces.
pub open spec fn fallback_title(path: Seq<char>) -> Seq<char> {
    dashes_to_spaces(
        match path_file_stem(path) {
            Some(n) => n,
            None => Seq::<char>::empty(),
        },
    )
}

pub open spec fn or_default(v: Option<Seq<char>>, d: Seq<char>) -> Seq<char> {
    match v {
        Some(x) => x,
        None => d,
    }
}

/// The document a frontmatter block describes; it must give a `title`.
/// Missing `version` is empty; missing `status`/`date` are `—`.
pub open spec fn frontmatter_doc_s(content: Seq<char>, path: Seq<char>) -> Option<DocV> {
    match split_frontmatter(content) {
        None => None,
        Some((f, _)) => {
            let pairs = yaml_pairs(lines_s(f));
            match lookup(pairs, "title"@) {
                None => None,
                Some(t) => Some(
                    DocV {
                        file: name_or_empty(path),
                        title: t,
                        version: or_default(lookup(pairs, "version"@), Seq::<char>::empty()),
                        status: or_default(lookup(pairs, "status"@), "\u{2014}"@),
                        date: or_default(lookup(pairs, "date"@), "\u{2014}"@),
                        phases: seq![],
                    },
                ),
            }
        },
    }
}

/// Reads a document's metadata from its frontmatter (`None` without a title).
pub fn parse_frontmatter(content: &str, path: &str) -> (r: Option<Doc>)
    ensures
        match r {
            Some(d) => frontmatter_doc_s(content@, path@) == Some(d@),
            None => frontmatter_doc_s(content@, path@) is None,
        },
{
    let cv = chars_of(content);
    let (f, _rest) = match frontmatter_parts(&cv) {
        Some(p) => p,
        None => return None,
    };
    let fields = parse_yaml_chars(&f);
    let title = match fields.get("title") {
        Some(t) => t.clone(),
        None => return None,
    };
    let d = Doc {
        file: file_name_or_empty(path),
        title,
        version: field_or(&fields, "version", ""),
        status: field_or(&fields, "status", "\u{2014}"),
        date: field_or(&fields, "date", "\u{2014}"),
        phases: Vec::new(),
    };
    proof {
        let spec_d = frontmatter_doc_s(content@, path@);
        assert(split_frontmatter(content@) == Some((f@, _rest@)));
        assert(spec_d is Some);
        assert(d@.phases =~= spec_d.unwrap().phases);
        reveal_strlit("");
        assert(""@ =~= Seq::<char>::empty());
        assert(d@ =~= spec_d.unwrap());
    }
    Some(d)
}

// ── Phases ──────────────────────────────────────────────────────────

pub open spec fn is_phase_heading(line: Seq<char>) -> bool {
    "## Phase "@.is_prefix_of(line) || "## phase "@.is_prefix_of(line)
}

/// The scan state: finished phases, the open phase, its done and total.
pub type ScanState = (Seq<PhaseV>, Option<Seq<char>>, nat, nat);

pub open spec fn flush(st: ScanState) -> Seq<PhaseV> {
    match st.1 {
        Some(n) => st.0.push(PhaseV { name: n, done: st.2 as usize, total: st.3 as usize }),
        None => st.0,
    }
}

/// One line of the phase scan: a `## Phase` heading opens a phase; inside
/// one, `- [x]`/`- [X]` count as done tasks and `- [ ]` as open tasks.
pub open spec fn scan_step(st: ScanState, line: Seq<char>) -> ScanState {
    if is_phase_heading(line) {
        (flush(st), Some(trim_s(strip_leading_s(line, '#'))), 0, 0)
    } else if st.1 is Some {
        let t = trim_start_s(line);
        if "- [x]"@.is_prefix_of(t) || "- [X]"@.is_prefix_of(t) {
            (st.0, st.1, st.2 + 1, st.3 + 1)
        } else if "- [ ]"@.is_prefix_of(t) {
            (st.0, st.1, st.2, st.3 + 1)
        } else {
            st
        }
    } else {
        st
    }
}

proof fn lemma_trim_start_after_ws(w: Seq<char>, l: Seq<char>)
    requires
        forall|k: int| 0 <= k < w.len() ==> is_ws(#[trigger] w[k]),
    ensures
        trim_start_s(w + l) == trim_start_s(l),
    decreases w.len(),
{
    if w.len() > 0 {
        assert((w + l).drop_first() =~= w.drop_first() + l);
        assert((w + l)[0] == w[0]);
        assert forall|k: int| 0 <= k < w.drop_first().len() implies is_ws(
            #[trigger] w.drop_first()[k],
        ) by {
            assert(w.drop_first()[k] == w[k + 1]);
        }
        lemma_trim_start_after_ws(w.drop_first(), l);
    }
}

/// Indenting a line that is not a phase heading does not change what the
/// scan makes of it: an indented `- [x]` task counts like one at the start
/// of the line.
pub proof fn law_task_indent_ignored(st: ScanState, w: Seq<char>, line: Seq<char>)
    requires
        forall|k: int| 0 <= k < w.len() ==> is_ws(#[trigger] w[k]),
        !is_phase_heading(line),
    ensures
        scan_step(st, w + line) == scan_step(st, line),
{
    lemma_trim_start_after_ws(w, line);
    if w.len() > 0 {
        reveal_strlit("## Phase ");
        reveal_strlit("## phase ");
        assert((w + line)[0] == w[0]);
        assert(is_ws(w[0]));
        assert(!"## Phase "@.is_prefix_of(w + line)) by {
            assert("## Phase "@[0] == '#');
        }
        assert(!"## phase "@.is_prefix_of(w + line)) by {
            assert("## phase "@[0] == '#');
        }
    } else {
        assert(w + line =~= line);
    }
}

/// Inside a phase, a line whose text (after its indentation) starts with
/// `- [x]` or `- [X]` adds one done task and one task, one that starts with
/// `- [ ]` adds one open task, and any other line that is not a heading
/// changes nothing; outside a phase such lines change nothing at all.
pub proof fn law_task_counts(st: ScanState, line: Seq<char>)
    requires
        !is_phase_heading(line),
    ensures
        ({
            let t = trim_start_s(line);
            let r = scan_step(st, line);
            if st.1 is None {
                r == st
            } else if "- [x]"@.is_prefix_of(t) || "- [X]"@.is_prefix_of(t) {
                r == (st.0, st.1, st.2 + 1, st.3 + 1)
            } else if "- [ ]"@.is_prefix_of(t) {
                r == (st.0, st.1, st.2, st.3 + 1)
            } else {
                r == st
            }
        }),
{
}

pub open spec fn scan_lines(ls: Seq<Seq<char>>) -> ScanState
    decreases ls.len(),
{
    if ls.len() == 0 {
        (seq![], None, 0, 0)
    } else {
        scan_step(scan_lines(ls.drop_last()), ls.last())
    }
}

/// How many of `ls` are phase headings.
pub open spec fn heading_count(ls: Seq<Seq<char>>) -> nat
    decreases ls.len(),
{
    if ls.len() == 0 {
        0
    } else {
        heading_count(ls.drop_last()) + if is_phase_heading(ls.last()) {
            1nat
        } else {
            0nat
        }
    }
}

proof fn lemma_scan_shape(ls: Seq<Seq<char>>)
    ensures
        flush(scan_lines(ls)).len() == heading_count(ls),
        scan_lines(ls).1 is Some <==> heading_count(ls) > 0,
    decreases ls.len(),
{
    if ls.len() > 0 {
        lemma_scan_shape(ls.drop_last());
    }
}

/// A markdown plan has one phase per `## Phase` heading line.
pub proof fn law_one_phase_per_heading(content: Seq<char>)
    ensures
        plan_phases_s(content).len() == heading_count(lines_s(content)),
{
    lemma_scan_shape(lines_s(content));
}

/// The phases of a markdown plan.
pub open spec fn plan_phases_s(content: Seq<char>) -> Seq<PhaseV> {
    flush(scan_lines(lines_s(content)))
}

/// Groups `## Phase …` headings with the checkbox tasks under them.
pub fn parse_plan_phases(content: &str) -> (r: Vec<PlanPhase>)
    ensures
        phase_views(r@) == plan_phases_s(content@),
        tasks_fit(phase_views(r@)),
{
    let cv = chars_of(content);
    parse_plan_phases_chars(&cv)
}

proof fn lemma_push_sums(ps: Seq<PhaseV>, p: PhaseV)
    ensures
        done_sum(ps.push(p)) == done_sum(ps) + p.done,
        total_sum(ps.push(p)) == total_sum(ps) + p.total,
{
    assert(ps.push(p).drop_last() =~= ps);
}

/// [`parse_plan_phases`] on characters.
pub fn parse_plan_phases_chars(cv: &[char]) -> (r: Vec<PlanPhase>)
    ensures
        phase_views(r@) == plan_phases_s(cv@),
        tasks_fit(phase_views(r@)),
{
    let ls = lines(cv);
    let h1 = chars_of("## Phase ");
    let h2 = chars_of("## phase ");
    let x1 = chars_of("- [x]");
    let x2 = chars_of("- [X]");
    let o = chars_of("- [ ]");
    let mut phases: Vec<PlanPhase> = Vec::new();
    let mut current: Option<Vec<char>> = None;
    let mut done: usize = 0;
    let mut total: usize = 0;
    let mut i: usize = 0;
    while i < ls.len()
        invariant
            i <= ls.len(),
            views(ls@) == lines_s(cv@),
            h1@ == "## Phase "@,
            h2@ == "## phase "@,
            x1@ == "- [x]"@,
            x2@ == "- [X]"@,
            o@ == "- [ ]"@,
            ({
                let st = scan_lines(views(ls@).take(i as int));
                &&& phase_views(phases@) == st.0
                &&& (match current {
                    Some(c) => st.1 == Some(c@),
                    None => st.1 is None,
                })
                &&& st.2 == done
                &&& st.3 == total
            }),
            done <= total,
            done_sum(phase_views(phases@)) <= total_sum(phase_views(phases@)),
            total_sum(phase_views(phases@)) + total <= i,
        decreases ls.len() - i,
    {
        let ghost st = scan_lines(views(ls@).take(i as int));
        assert(views(ls@).take(i + 1).drop_last() =~= views(ls@).take(i as int));
        assert(views(ls@).take(i + 1).last() == ls@[i as int]@);
        let line = &ls[i];
        if starts_with(line, &h1) || starts_with(line, &h2) {
            match current {
                Some(name) => {
                    let ghost before = phase_views(phases@);
                    let p = PlanPhase { name: string_of(&name), done, total };
                    phases.push(p);
                    assert(phase_views(phases@) =~= before.push(p@));
                    proof {
                        lemma_push_sums(before, p@);
                    }
                },
                None => {},
            }
            let heading = trim(&strip_leading(line, '#'));
            current = Some(heading);
            done = 0;
            total = 0;
        } else if current.is_some() {
            let t = trim_start(line);
            if starts_with(&t, &x1) || starts_with(&t, &x2) {
                total += 1;
                done += 1;
            } else if starts_with(&t, &o) {
                total += 1;
            }
        }
        i += 1;
    }
    assert(views(ls@).take(ls.len() as int) =~= views(ls@));
    match current {
        Some(name) => {
            let ghost before = phase_views(phases@);
            let p = PlanPhase { name: string_of(&name), done, total };
            phases.push(p);
            assert(phase_views(phases@) =~= before.push(p@));
            proof {
                lemma_push_sums(before, p@);
            }
        },
        None => {},
    }
    phases
}

// ── Documents from markdown files ───────────────────────────────────

/// The fallback document for a markdown file without usable frontmatter.
pub open spec fn bare_doc_s(path: Seq<char>, phases: Seq<PhaseV>) -> DocV {
    DocV {
        file: name_or_empty(path),
        title: fallback_title(path),
        version: Seq::<char>::empty(),
        status: "\u{2014}"@,
        date: "\u{2014}"@,
        phases: phases,
    }
}

pub open spec fn with_phases(d: DocV, phases: Seq<PhaseV>) -> DocV {
    DocV { phases: phases, ..d }
}

/// A document under `_docs/`: its frontmatter, else its file name.
pub open spec fn markdown_doc_s(content: Seq<char>, path: Seq<char>) -> DocV {
    let phases = plan_phases_s(content);
    match frontmatter_doc_s(content, path) {
        Some(d) => with_phases(d, phases),
        None => bare_doc_s(path, phases),
    }
}

/// A plan in `.repo/storage/`: markdown counts only with frontmatter or at
/// least one `## Phase` heading.
pub open spec fn markdown_plan_s(content: Seq<char>, path: Seq<char>) -> Option<DocV> {
    let phases = plan_phases_s(content);
    match frontmatter_doc_s(content, path) {
        Some(d) => Some(with_phases(d, phases)),
        None => if phases.len() > 0 {
            Some(bare_doc_s(path, phases))
        } else {
            None
        },
    }
}

fn bare_doc(path: &str, phases: Vec<PlanPhase>) -> (d: Doc)
    ensures
        d@ == bare_doc_s(path@, phase_views(phases@)),
{
    Doc {
        file: file_name_or_empty(path),
        title: stem_title(path),
        version: String::new(),
        status: owned("\u{2014}"),
        date: owned("\u{2014}"),
        phases,
    }
}

/// The listing entry of a markdown file under `_docs/`.
pub fn doc_from_markdown(content: &str, path: &str) -> (d: Doc)
    ensures
        d@ == markdown_doc_s(content@, path@),
        tasks_fit(d@.phases),
{
    let phases = parse_plan_phases(content);
    match parse_frontmatter(content, path) {
        Some(mut d) => {
            d.phases = phases;
            d
        },
        None => bare_doc(path, phases),
    }
}

/// The plan a markdown file in `.repo/storage/` describes, if it is one.
pub fn plan_from_markdown(content: &str, path: &str) -> (r: Option<Doc>)
    ensures
        match r {
            Some(d) => markdown_plan_s(content@, path@) == Some(d@) && tasks_fit(d@.phases),
            None => markdown_plan_s(content@, path@) is None,
        },
{
    let phases = parse_plan_phases(content);
    let has_phases = phases.len() > 0;
    match parse_frontmatter(content, path) {
        Some(mut d) => {
            d.phases = phases;
            Some(d)
        },
        None => if has_phases {
            Some(bare_doc(path, phases))
        } else {
            None
        },
    }
}

} // verus!

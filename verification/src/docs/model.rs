//! The document model (plans, designs, ADRs, references) and plan progress.
use vstd::prelude::*;
use crate::output::{cyan, dim, green, styled, yellow};
use crate::text::{chars_of, dec, owned, string_of, usize_to_string};

verus! {

/// A phase of a plan, by value.
pub struct PhaseV {
    pub name: Seq<char>,
    pub done: usize,
    pub total: usize,
}

/// A document, by value.
pub struct DocV {
    pub file: Seq<char>,
    pub title: Seq<char>,
    pub version: Seq<char>,
    pub status: Seq<char>,
    pub date: Seq<char>,
    pub phases: Seq<PhaseV>,
}

/// One phase of a plan: a name and its done/total task counts.
pub struct PlanPhase {
    pub name: String,
    pub done: usize,
    pub total: usize,
}

/// A listed document.
pub struct Doc {
    pub file: String,
    pub title: String,
    pub version: String,
    pub status: String,
    pub date: String,
    pub phases: Vec<PlanPhase>,
}

impl View for PlanPhase {
    type V = PhaseV;

    open spec fn view(&self) -> PhaseV {
        PhaseV { name: self.name@, done: self.done, total: self.total }
    }
}

pub open spec fn phase_views(v: Seq<PlanPhase>) -> Seq<PhaseV> {
    v.map_values(|p: PlanPhase| p@)
}

impl View for Doc {
    type V = DocV;

    open spec fn view(&self) -> DocV {
        DocV {
            file: self.file@,
            title: self.title@,
            version: self.version@,
            status: self.status@,
            date: self.date@,
            phases: phase_views(self.phases@),
        }
    }
}

/// The kinds of document the `docs` command lists.
#[derive(Clone, Copy, PartialEq, Eq, Structural, Debug)]
pub enum DocKind {
    Plans,
    Designs,
    Adrs,
    References,
}

/// The kinds, in listing order.
pub fn all_kinds() -> (r: [DocKind; 4])
    ensures
        r@ == seq![DocKind::Plans, DocKind::Designs, DocKind::Adrs, DocKind::References],
{
    let r = [DocKind::Plans, DocKind::Designs, DocKind::Adrs, DocKind::References];
    assert(r@ =~= seq![DocKind::Plans, DocKind::Designs, DocKind::Adrs, DocKind::References]);
    r
}

pub open spec fn subdir_s(k: DocKind) -> Seq<char> {
    match k {
        DocKind::Plans => "plans"@,
        DocKind::Designs => "designs"@,
        DocKind::Adrs => "adrs"@,
        DocKind::References => "references"@,
    }
}

pub open spec fn label_s(k: DocKind) -> Seq<char> {
    match k {
        DocKind::Plans => "plan"@,
        DocKind::Designs => "design"@,
        DocKind::Adrs => "ADR"@,
        DocKind::References => "reference"@,
    }
}

/// The command / subcommand name of a kind (`refs` is an alias).
pub open spec fn parse_kind_s(s: Seq<char>) -> Option<DocKind> {
    if s == "plans"@ {
        Some(DocKind::Plans)
    } else if s == "designs"@ {
        Some(DocKind::Designs)
    } else if s == "adrs"@ {
        Some(DocKind::Adrs)
    } else if s == "references"@ || s == "refs"@ {
        Some(DocKind::References)
    } else {
        None
    }
}

impl DocKind {
    /// The directory name under `_docs/` (and the subcommand name).
    pub fn subdir(self) -> (r: &'static str)
        ensures
            r@ == subdir_s(self),
    {
        match self {
            DocKind::Plans => "plans",
            DocKind::Designs => "designs",
            DocKind::Adrs => "adrs",
            DocKind::References => "references",
        }
    }

    /// The singular label used in messages.
    pub fn label(self) -> (r: &'static str)
        ensures
            r@ == label_s(self),
    {
        match self {
            DocKind::Plans => "plan",
            DocKind::Designs => "design",
            DocKind::Adrs => "ADR",
            DocKind::References => "reference",
        }
    }

    /// The kind named by a subcommand.
    pub fn parse(s: &str) -> (r: Option<DocKind>)
        ensures
            r == parse_kind_s(s@),
    {
        let v = chars_of(s);
        if crate::text::seq_eq(&v, &chars_of("plans")) {
            Some(DocKind::Plans)
        } else if crate::text::seq_eq(&v, &chars_of("designs")) {
            Some(DocKind::Designs)
        } else if crate::text::seq_eq(&v, &chars_of("adrs")) {
            Some(DocKind::Adrs)
        } else if crate::text::seq_eq(&v, &chars_of("references")) || crate::text::seq_eq(
            &v,
            &chars_of("refs"),
        ) {
            Some(DocKind::References)
        } else {
            None
        }
    }
}

/// Parsing a kind's subcommand name gives the kind back.
pub proof fn law_kind_subdir_round_trip(k: DocKind)
    ensures
        parse_kind_s(subdir_s(k)) == Some(k),
{
    reveal_strlit("plans");
    reveal_strlit("designs");
    reveal_strlit("adrs");
    reveal_strlit("references");
    reveal_strlit("refs");
    match k {
        DocKind::Plans => {},
        DocKind::Designs => {
            assert("designs"@.len() != "plans"@.len());
        },
        DocKind::Adrs => {
            assert("adrs"@.len() != "plans"@.len());
            assert("adrs"@.len() != "designs"@.len());
        },
        DocKind::References => {
            assert("references"@.len() != "plans"@.len());
            assert("references"@.len() != "designs"@.len());
            assert("references"@.len() != "adrs"@.len());
        },
    }
}

// ── Progress ────────────────────────────────────────────────────────

pub open spec fn phase_complete(p: PhaseV) -> bool {
    p.total > 0 && p.done == p.total
}

/// How many phases are complete.
pub open spec fn complete_count(ps: Seq<PhaseV>) -> nat
    decreases ps.len(),
{
    if ps.len() == 0 {
        0
    } else {
        complete_count(ps.drop_last()) + if phase_complete(ps.last()) {
            1nat
        } else {
            0nat
        }
    }
}

/// Total done tasks.
pub open spec fn done_sum(ps: Seq<PhaseV>) -> nat
    decreases ps.len(),
{
    if ps.len() == 0 {
        0
    } else {
        done_sum(ps.drop_last()) + ps.last().done as nat
    }
}

/// Total tasks.
pub open spec fn total_sum(ps: Seq<PhaseV>) -> nat
    decreases ps.len(),
{
    if ps.len() == 0 {
        0
    } else {
        total_sum(ps.drop_last()) + ps.last().total as nat
    }
}

/// The task sums fit in a `usize`.
pub open spec fn tasks_fit(ps: Seq<PhaseV>) -> bool {
    done_sum(ps) <= usize::MAX && total_sum(ps) <= usize::MAX
}

pub proof fn lemma_sums_prefix(ps: Seq<PhaseV>, i: int)
    requires
        0 <= i <= ps.len(),
    ensures
        done_sum(ps.take(i)) <= done_sum(ps),
        total_sum(ps.take(i)) <= total_sum(ps),
        complete_count(ps.take(i)) <= complete_count(ps),
        complete_count(ps) <= ps.len(),
    decreases ps.len() - i,
{
    if i < ps.len() {
        lemma_sums_prefix(ps, i + 1);
        assert(ps.take(i + 1).drop_last() =~= ps.take(i));
    } else {
        assert(ps.take(i) =~= ps);
        lemma_complete_le_len(ps);
    }
}

pub proof fn lemma_complete_le_len(ps: Seq<PhaseV>)
    ensures
        complete_count(ps) <= ps.len(),
    decreases ps.len(),
{
    if ps.len() > 0 {
        lemma_complete_le_len(ps.drop_last());
    }
}

/// Progress of a plan across its phases.
#[derive(Debug, Clone, Copy, PartialEq, Eq, Structural)]
pub struct JsonProgress {
    pub complete_phases: usize,
    pub total_phases: usize,
    pub done_tasks: usize,
    pub total_tasks: usize,
}

/// Counts complete phases and sums the tasks.
pub fn plan_progress(phases: &[PlanPhase]) -> (r: JsonProgress)
    requires
        tasks_fit(phase_views(phases@)),
    ensures
        r.complete_phases == complete_count(phase_views(phases@)),
        r.total_phases == phases.len(),
        r.done_tasks == done_sum(phase_views(phases@)),
        r.total_tasks == total_sum(phase_views(phases@)),
{
    let ghost ps = phase_views(phases@);
    let mut complete: usize = 0;
    let mut done: usize = 0;
    let mut total: usize = 0;
    let mut i: usize = 0;
    while i < phases.len()
        invariant
            i <= phases.len(),
            ps == phase_views(phases@),
            tasks_fit(ps),
            complete == complete_count(ps.take(i as int)),
            done == done_sum(ps.take(i as int)),
            total == total_sum(ps.take(i as int)),
        decreases phases.len() - i,
    {
        proof {
            lemma_sums_prefix(ps, i + 1);
            assert(ps.take(i + 1).drop_last() =~= ps.take(i as int));
            lemma_complete_le_len(ps.take(i + 1));
        }
        let p = &phases[i];
        if p.total > 0 && p.done == p.total {
            complete += 1;
        }
        done += p.done;
        total += p.total;
        i += 1;
    }
    assert(ps.take(phases.len() as int) =~= ps);
    JsonProgress { complete_phases: complete, total_phases: phases.len(), done_tasks: done, total_tasks: total }
}

/// How many phases are complete (no task sums needed).
pub fn count_complete(phases: &[PlanPhase]) -> (r: usize)
    ensures
        r == complete_count(phase_views(phases@)),
{
    let ghost ps = phase_views(phases@);
    let mut complete: usize = 0;
    let mut i: usize = 0;
    while i < phases.len()
        invariant
            i <= phases.len(),
            ps == phase_views(phases@),
            complete == complete_count(ps.take(i as int)),
        decreases phases.len() - i,
    {
        proof {
            assert(ps.take(i + 1).drop_last() =~= ps.take(i as int));
            lemma_complete_le_len(ps.take(i + 1));
        }
        if phases[i].total > 0 && phases[i].done == phases[i].total {
            complete += 1;
        }
        i += 1;
    }
    assert(ps.take(phases.len() as int) =~= ps);
    complete
}

pub open spec fn phase_status_s(p: PhaseV) -> Seq<char> {
    if p.total == 0 {
        "unknown"@
    } else if p.done == p.total {
        "done"@
    } else if p.done > 0 {
        "partial"@
    } else {
        "pending"@
    }
}

/// `unknown` (no tasks), `done`, `partial`, or `pending`.
pub fn phase_status(phase: &PlanPhase) -> (r: &'static str)
    ensures
        r@ == phase_status_s(phase@),
{
    if phase.total == 0 {
        "unknown"
    } else if phase.done == phase.total {
        "done"
    } else if phase.done > 0 {
        "partial"
    } else {
        "pending"
    }
}

/// `"{a}/{b} {unit}"`.
pub open spec fn ratio_s(a: nat, b: nat, unit: Seq<char>) -> Seq<char> {
    dec(a) + "/"@ + dec(b) + " "@ + unit
}

pub open spec fn progress_summary_s(ps: Seq<PhaseV>) -> Seq<char> {
    if ps.len() == 0 {
        "\u{2014}"@
    } else {
        ratio_s(complete_count(ps), ps.len(), "phases"@) + "  "@ + ratio_s(
            done_sum(ps),
            total_sum(ps),
            "tasks"@,
        )
    }
}

fn ratio(a: usize, b: usize, unit: &str) -> (r: String)
    ensures
        r@ == ratio_s(a as nat, b as nat, unit@),
{
    let mut r = usize_to_string(a);
    r.append("/");
    let bs = usize_to_string(b);
    r.append(bs.as_str());
    r.append(" ");
    r.append(unit);
    r
}

/// `"{complete}/{phases} phases  {done}/{total} tasks"`, or `—` for none.
pub fn format_progress_summary(phases: &[PlanPhase]) -> (r: String)
    requires
        tasks_fit(phase_views(phases@)),
    ensures
        r@ == progress_summary_s(phase_views(phases@)),
{
    if phases.len() == 0 {
        return owned("\u{2014}");
    }
    let p = plan_progress(phases);
    let mut r = ratio(p.complete_phases, p.total_phases, "phases");
    r.append("  ");
    let t = ratio(p.done_tasks, p.total_tasks, "tasks");
    r.append(t.as_str());
    r
}

pub open spec fn phase_part_code(ps: Seq<PhaseV>) -> Seq<char> {
    if complete_count(ps) == ps.len() {
        "32"@
    } else if complete_count(ps) > 0 {
        "33"@
    } else {
        "2"@
    }
}

pub open spec fn task_part_code(ps: Seq<PhaseV>) -> Seq<char> {
    if done_sum(ps) == total_sum(ps) && total_sum(ps) > 0 {
        "32"@
    } else if done_sum(ps) > 0 {
        "33"@
    } else {
        "2"@
    }
}

pub open spec fn color_summary_s(ps: Seq<PhaseV>, color: bool) -> Seq<char> {
    if ps.len() == 0 {
        styled("\u{2014}"@, "2"@, color)
    } else {
        styled(ratio_s(complete_count(ps), ps.len(), "phases"@), phase_part_code(ps), color) + "  "@
            + styled(ratio_s(done_sum(ps), total_sum(ps), "tasks"@), task_part_code(ps), color)
    }
}

/// The progress summary with its parts coloured: all complete green,
/// some yellow, none dim.
pub fn color_progress_summary(phases: &[PlanPhase], color: bool) -> (r: String)
    requires
        tasks_fit(phase_views(phases@)),
    ensures
        r@ == color_summary_s(phase_views(phases@), color),
{
    if phases.len() == 0 {
        return dim("\u{2014}", color);
    }
    let p = plan_progress(phases);
    let pr = ratio(p.complete_phases, p.total_phases, "phases");
    let phase_part = if p.complete_phases == p.total_phases {
        green(pr.as_str(), color)
    } else if p.complete_phases > 0 {
        yellow(pr.as_str(), color)
    } else {
        dim(pr.as_str(), color)
    };
    let tr = ratio(p.done_tasks, p.total_tasks, "tasks");
    let task_part = if p.done_tasks == p.total_tasks && p.total_tasks > 0 {
        green(tr.as_str(), color)
    } else if p.done_tasks > 0 {
        yellow(tr.as_str(), color)
    } else {
        dim(tr.as_str(), color)
    };
    let mut r = phase_part;
    r.append("  ");
    r.append(task_part.as_str());
    r
}

/// `n` copies of `c`.
pub fn repeat_char(c: char, n: usize) -> (r: Vec<char>)
    ensures
        r@ == Seq::new(n as nat, |i: int| c),
{
    let mut r: Vec<char> = Vec::new();
    let mut i: usize = 0;
    while i < n
        invariant
            i <= n,
            r@ == Seq::new(i as nat, |j: int| c),
        decreases n - i,
    {
        r.push(c);
        i += 1;
        assert(r@ =~= Seq::new(i as nat, |j: int| c));
    }
    r
}

pub open spec fn bar_code(done: nat, total: nat) -> Seq<char> {
    if done == total {
        "32"@
    } else if done > 0 {
        "33"@
    } else {
        "36"@
    }
}

/// The bar text: `[` + filled + empty + `]`.
pub open spec fn bar_s(done: nat, total: nat, width: nat) -> Seq<char> {
    if total == 0 {
        "["@ + Seq::new(width, |i: int| ' ') + "]"@
    } else {
        let filled = (done * width) / total;
        "["@ + Seq::new(filled, |i: int| '\u{2588}') + Seq::new(
            (width - filled) as nat,
            |i: int| '\u{2591}',
        ) + "]"@
    }
}

pub open spec fn progress_bar_s(done: nat, total: nat, width: nat, color: bool) -> Seq<char> {
    if total == 0 {
        styled(bar_s(done, total, width), "2"@, color)
    } else {
        styled(bar_s(done, total, width), bar_code(done, total), color)
    }
}

/// A `width`-cell bar: `done * width / total` filled cells; green when done,
/// yellow when started, cyan otherwise, dim and empty with no tasks.
pub fn progress_bar(done: usize, total: usize, width: usize, color: bool) -> (r: String)
    requires
        total > 0 ==> done * width <= usize::MAX && (done * width) / (total as int) <= width,
    ensures
        r@ == progress_bar_s(done as nat, total as nat, width as nat, color),
{
    proof {
        reveal_strlit("[");
        reveal_strlit("]");
    }
    if total == 0 {
        let mut b: Vec<char> = Vec::new();
        b.push('[');
        let sp = repeat_char(' ', width);
        let mut b = crate::text::concat(&b, &sp);
        b.push(']');
        assert(b@ =~= bar_s(done as nat, total as nat, width as nat));
        let bs = string_of(&b);
        return dim(bs.as_str(), color);
    }
    let filled = (done * width) / total;
    let empty = width - filled;
    let mut b: Vec<char> = Vec::new();
    b.push('[');
    let f = repeat_char('\u{2588}', filled);
    let b = crate::text::concat(&b, &f);
    let e = repeat_char('\u{2591}', empty);
    let mut b = crate::text::concat(&b, &e);
    b.push(']');
    assert(b@ =~= bar_s(done as nat, total as nat, width as nat));
    let bs = string_of(&b);
    if done == total {
        green(bs.as_str(), color)
    } else if done > 0 {
        yellow(bs.as_str(), color)
    } else {
        cyan(bs.as_str(), color)
    }
}

} // verus!

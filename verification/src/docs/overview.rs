//! The `docs` command's dispatch, its overview summary, and the JSON shape
//! of a listed document.
use vstd::prelude::*;
use crate::docs::model::{
    complete_count, done_sum, parse_kind_s, phase_status, phase_status_s, plan_progress, tasks_fit,
    total_sum, Doc, DocKind, DocV, JsonProgress, PhaseV,
};
use crate::args::{arg_views, contains_arg, has_arg, is_flag, wants_help_s};
use crate::docs::select::doc_views;
use crate::text::{chars_of, dec, owned, seq_eq, seq_lt, str_lt, strings_view, usize_to_string};

verus! {

// ── Dispatch ────────────────────────────────────────────────────────

/// What `repo docs <args>` does.
pub enum DocsAction {
    /// Print help: a kind's when the subcommand names one, else the general one.
    Help(Option<DocKind>),
    /// List one kind with the arguments after the subcommand.
    ListKind(DocKind, Vec<String>),
    /// Reject an unknown subcommand (exit 1).
    UnknownSubcommand(String),
    /// Summarise every kind (as JSON when asked).
    Overview(bool),
}

/// The index of the first argument that is not a flag.
pub open spec fn first_non_flag(args: Seq<Seq<char>>) -> Option<int>
    decreases args.len(),
{
    if args.len() == 0 {
        None
    } else if !is_flag(args[0]) {
        Some(0)
    } else {
        match first_non_flag(args.drop_first()) {
            Some(k) => Some(k + 1),
            None => None,
        }
    }
}

/// The dispatch of `docs`: help wins; then the first non-flag argument picks
/// a kind (the rest after it are its options) or is rejected; with none the
/// overview is shown.
pub open spec fn docs_action_ok(args: Seq<Seq<char>>, act: DocsAction) -> bool {
    let sub = first_non_flag(args);
    if wants_help_s(args) {
        act == DocsAction::Help(
            match sub {
                Some(i) => parse_kind_s(args[i]),
                None => None,
            },
        )
    } else {
        match sub {
            Some(i) => match parse_kind_s(args[i]) {
                Some(k) => act matches DocsAction::ListKind(k2, rest) && k2 == k && strings_view(
                    rest@,
                ) == args.skip(i + 1),
                None => act matches DocsAction::UnknownSubcommand(s) && s@ == args[i],
            },
            None => act == DocsAction::Overview(has_arg(args, "--json"@)),
        }
    }
}

fn first_sub(args: &[&str]) -> (r: Option<usize>)
    ensures
        match r {
            Some(i) => i < args.len() && first_non_flag(arg_views(args@)) == Some(i as int),
            None => first_non_flag(arg_views(args@)) is None,
        },
{
    let ghost av = arg_views(args@);
    let mut i: usize = 0;
    assert(av.skip(0) =~= av);
    while i < args.len()
        invariant
            i <= args.len(),
            av == arg_views(args@),
            first_non_flag(av) == (match first_non_flag(av.skip(i as int)) {
                Some(k) => Some(k + i),
                None => None,
            }),
        decreases args.len() - i,
    {
        let a = chars_of(args[i]);
        assert(av.skip(i as int)[0] == a@);
        assert(av.skip(i as int).drop_first() =~= av.skip(i + 1));
        if !(a.len() > 0 && a[0] == '-') {
            return Some(i);
        }
        i += 1;
    }
    None
}

/// Decides what `docs <args>` does (see [`docs_action_ok`]).
pub fn plan_docs_run(args: &[&str]) -> (r: DocsAction)
    ensures
        docs_action_ok(arg_views(args@), r),
{
    let ghost av = arg_views(args@);
    let sub = first_sub(args);
    if contains_arg(args, "--help") || contains_arg(args, "-h") {
        return DocsAction::Help(
            match sub {
                Some(i) => {
                    assert(av[i as int] == args@[i as int]@);
                    DocKind::parse(args[i])
                },
                None => None,
            },
        );
    }
    match sub {
        Some(i) => {
            assert(av[i as int] == args@[i as int]@);
            match DocKind::parse(args[i]) {
                Some(k) => {
                    let mut rest: Vec<String> = Vec::new();
                    let mut j = i + 1;
                    while j < args.len()
                        invariant
                            i < j <= args.len(),
                            av == arg_views(args@),
                            strings_view(rest@) == av.subrange(i + 1, j as int),
                        decreases args.len() - j,
                    {
                        let ghost b = strings_view(rest@);
                        rest.push(owned(args[j]));
                        assert(strings_view(rest@) =~= b.push(args@[j as int]@));
                        assert(av.subrange(i + 1, j + 1) =~= av.subrange(i + 1, j as int).push(
                            av[j as int],
                        ));
                        j += 1;
                    }
                    assert(av.subrange(i + 1, args.len() as int) =~= av.skip(i + 1));
                    DocsAction::ListKind(k, rest)
                },
                None => DocsAction::UnknownSubcommand(owned(args[i])),
            }
        },
        None => DocsAction::Overview(contains_arg(args, "--json")),
    }
}

// ── Overview summary ────────────────────────────────────────────────

/// How many documents have status `s`.
pub open spec fn status_count(ds: Seq<DocV>, s: Seq<char>) -> nat
    decreases ds.len(),
{
    if ds.len() == 0 {
        0
    } else {
        status_count(ds.drop_last(), s) + if ds.last().status == s {
            1nat
        } else {
            0nat
        }
    }
}

/// The distinct statuses of `ds`, in order of first appearance.
pub open spec fn distinct_statuses(ds: Seq<DocV>) -> Seq<Seq<char>>
    decreases ds.len(),
{
    if ds.len() == 0 {
        seq![]
    } else {
        let rest = distinct_statuses(ds.drop_last());
        if rest.contains(ds.last().status) {
            rest
        } else {
            rest.push(ds.last().status)
        }
    }
}

/// Where `x` goes in the ordered `sorted`.
pub open spec fn str_insert_pos(sorted: Seq<Seq<char>>, x: Seq<char>) -> int
    decreases sorted.len(),
{
    if sorted.len() == 0 {
        0
    } else if seq_lt(x, sorted[0]) {
        0
    } else {
        1 + str_insert_pos(sorted.drop_first(), x)
    }
}

/// `s` in ascending order.
pub open spec fn sort_strs(s: Seq<Seq<char>>) -> Seq<Seq<char>>
    decreases s.len(),
{
    if s.len() == 0 {
        s
    } else {
        let rest = sort_strs(s.drop_last());
        rest.insert(str_insert_pos(rest, s.last()), s.last())
    }
}

/// `"{count} {status}"` for each distinct status, sorted.
pub open spec fn status_summary_s(ds: Seq<DocV>) -> Seq<Seq<char>> {
    let st = distinct_statuses(ds);
    sort_strs(Seq::new(st.len(), |i: int| dec(status_count(ds, st[i])) + " "@ + st[i]))
}

proof fn lemma_str_insert_pos(sorted: Seq<Seq<char>>, x: Seq<char>, k: int)
    requires
        0 <= k <= sorted.len(),
        forall|j: int| 0 <= j < k ==> !seq_lt(x, #[trigger] sorted[j]),
        k < sorted.len() ==> seq_lt(x, sorted[k]),
    ensures
        str_insert_pos(sorted, x) == k,
    decreases sorted.len(),
{
    if sorted.len() > 0 && k > 0 {
        assert(!seq_lt(x, sorted[0]));
        assert forall|j: int| 0 <= j < k - 1 implies !seq_lt(x, #[trigger] sorted.drop_first()[j]) by {
            assert(sorted.drop_first()[j] == sorted[j + 1]);
        }
        lemma_str_insert_pos(sorted.drop_first(), x, k - 1);
    }
}

/// Sorts strings ascending.
pub fn sort_strings(v: Vec<String>) -> (r: Vec<String>)
    ensures
        strings_view(r@) == sort_strs(strings_view(v@)),
{
    let ghost input = strings_view(v@);
    let mut out: Vec<String> = Vec::new();
    let mut i: usize = 0;
    while i < v.len()
        invariant
            i <= v.len(),
            input == strings_view(v@),
            strings_view(out@) == sort_strs(input.take(i as int)),
        decreases v.len() - i,
    {
        let x = v[i].clone();
        assert(input[i as int] == x@);
        let xc = chars_of(x.as_str());
        let mut k: usize = 0;
        loop
            invariant
                k <= out.len(),
                xc@ == x@,
                forall|j: int| 0 <= j < k ==> !seq_lt(x@, #[trigger] strings_view(out@)[j]),
            ensures
                k <= out.len(),
                forall|j: int| 0 <= j < k ==> !seq_lt(x@, #[trigger] strings_view(out@)[j]),
                k < out.len() ==> seq_lt(x@, strings_view(out@)[k as int]),
            decreases out.len() - k,
        {
            if k >= out.len() {
                break;
            }
            assert(strings_view(out@)[k as int] == out@[k as int]@);
            if str_lt(&xc, &chars_of(out[k].as_str())) {
                break;
            }
            k += 1;
        }
        proof {
            lemma_str_insert_pos(strings_view(out@), x@, k as int);
            assert(input.take(i + 1).drop_last() =~= input.take(i as int));
        }
        let ghost b = strings_view(out@);
        out.insert(k, x);
        assert(strings_view(out@) =~= b.insert(k as int, x@));
        i += 1;
    }
    assert(input.take(v.len() as int) =~= input);
    out
}

fn count_status(docs: &[Doc], s: &String) -> (r: usize)
    ensures
        r == status_count(doc_views(docs@), s@),
{
    let ghost ds = doc_views(docs@);
    let sv = chars_of(s.as_str());
    let mut n: usize = 0;
    let mut i: usize = 0;
    while i < docs.len()
        invariant
            i <= docs.len(),
            ds == doc_views(docs@),
            sv@ == s@,
            n == status_count(ds.take(i as int), s@),
            n <= i,
        decreases docs.len() - i,
    {
        assert(ds.take(i + 1).drop_last() =~= ds.take(i as int));
        assert(ds.take(i + 1).last() == docs@[i as int]@);
        if seq_eq(&chars_of(docs[i].status.as_str()), &sv) {
            n += 1;
        }
        i += 1;
    }
    assert(ds.take(docs.len() as int) =~= ds);
    n
}

fn contains_string(v: &Vec<String>, s: &String) -> (r: bool)
    ensures
        r == strings_view(v@).contains(s@),
{
    let sv = chars_of(s.as_str());
    let mut i: usize = 0;
    while i < v.len()
        invariant
            i <= v.len(),
            sv@ == s@,
            forall|j: int| 0 <= j < i ==> #[trigger] strings_view(v@)[j] != s@,
        decreases v.len() - i,
    {
        assert(strings_view(v@)[i as int] == v@[i as int]@);
        if seq_eq(&chars_of(v[i].as_str()), &sv) {
            return true;
        }
        i += 1;
    }
    false
}

/// The sorted `"{count} {status}"` parts of a kind's overview line.
pub fn status_summary(docs: &[Doc]) -> (r: Vec<String>)
    ensures
        strings_view(r@) == status_summary_s(doc_views(docs@)),
{
    let ghost ds = doc_views(docs@);
    let mut st: Vec<String> = Vec::new();
    let mut i: usize = 0;
    while i < docs.len()
        invariant
            i <= docs.len(),
            ds == doc_views(docs@),
            strings_view(st@) == distinct_statuses(ds.take(i as int)),
        decreases docs.len() - i,
    {
        assert(ds.take(i + 1).drop_last() =~= ds.take(i as int));
        assert(ds.take(i + 1).last() == docs@[i as int]@);
        if !contains_string(&st, &docs[i].status) {
            let ghost b = strings_view(st@);
            st.push(docs[i].status.clone());
            assert(strings_view(st@) =~= b.push(docs@[i as int].status@));
        }
        i += 1;
    }
    assert(ds.take(docs.len() as int) =~= ds);
    let ghost stv = strings_view(st@);
    let mut parts: Vec<String> = Vec::new();
    let mut j: usize = 0;
    while j < st.len()
        invariant
            j <= st.len(),
            ds == doc_views(docs@),
            stv == strings_view(st@),
            stv == distinct_statuses(ds),
            strings_view(parts@) == Seq::new(
                j as nat,
                |k: int| dec(status_count(ds, stv[k])) + " "@ + stv[k],
            ),
        decreases st.len() - j,
    {
        let n = count_status(docs, &st[j]);
        let mut p = usize_to_string(n);
        p.append(" ");
        p.append(st[j].as_str());
        assert(stv[j as int] == st@[j as int]@);
        assert(p@ == dec(status_count(ds, stv[j as int])) + " "@ + stv[j as int]);
        let ghost b = strings_view(parts@);
        parts.push(p);
        assert(strings_view(parts@) =~= b.push(p@));
        assert(strings_view(parts@) =~= Seq::new(
            (j + 1) as nat,
            |k: int| dec(status_count(ds, stv[k])) + " "@ + stv[k],
        ));
        j += 1;
    }
    sort_strings(parts)
}

// ── JSON shape ──────────────────────────────────────────────────────

/// A phase as listed in JSON.
pub struct JsonPlanPhase {
    pub name: String,
    pub done: usize,
    pub total: usize,
    pub status: String,
}

/// A document as listed in JSON.
pub struct JsonDoc {
    pub file: String,
    pub title: String,
    pub version: String,
    pub status: String,
    pub date: String,
    pub progress: JsonProgress,
    pub phases: Vec<JsonPlanPhase>,
}

pub open spec fn json_phase_ok(j: JsonPlanPhase, p: PhaseV) -> bool {
    j.name@ == p.name && j.done == p.done && j.total == p.total && j.status@ == phase_status_s(p)
}

/// The JSON listing entry of a document: its fields, its progress, and its
/// phases with their status.
pub fn to_json_doc(doc: &Doc) -> (r: JsonDoc)
    requires
        tasks_fit(doc@.phases),
    ensures
        r.file@ == doc.file@,
        r.title@ == doc.title@,
        r.version@ == doc.version@,
        r.status@ == doc.status@,
        r.date@ == doc.date@,
        r.progress.complete_phases == complete_count(doc@.phases),
        r.progress.total_phases == doc.phases.len(),
        r.progress.done_tasks == done_sum(doc@.phases),
        r.progress.total_tasks == total_sum(doc@.phases),
        r.phases.len() == doc.phases.len(),
        forall|i: int| 0 <= i < r.phases.len() ==> json_phase_ok(#[trigger] r.phases@[i], doc@.phases[i]),
{
    let mut phases: Vec<JsonPlanPhase> = Vec::new();
    let mut i: usize = 0;
    while i < doc.phases.len()
        invariant
            i <= doc.phases.len(),
            phases.len() == i,
            forall|j: int| 0 <= j < i ==> json_phase_ok(#[trigger] phases@[j], doc@.phases[j]),
        decreases doc.phases.len() - i,
    {
        let p = &doc.phases[i];
        let st = phase_status(p);
        phases.push(JsonPlanPhase { name: p.name.clone(), done: p.done, total: p.total, status: owned(st) });
        assert(doc@.phases[i as int] == p@);
        i += 1;
    }
    JsonDoc {
        file: doc.file.clone(),
        title: doc.title.clone(),
        version: doc.version.clone(),
        status: doc.status.clone(),
        date: doc.date.clone(),
        progress: plan_progress(&doc.phases),
        phases,
    }
}

} // verus!

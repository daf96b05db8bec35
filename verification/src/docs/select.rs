//! Choosing what a `docs <kind>` listing shows: option parsing, status
//! filtering, ordering, lookup by query, and limits.
use vstd::prelude::*;
use crate::docs::model::{
    complete_count, count_complete, done_sum, lemma_sums_prefix, phase_views, plan_progress,
    tasks_fit, total_sum, Doc, DocV,
    PlanPhase,
};
use crate::args::arg_views;
use crate::paths::{path_file_stem, file_stem};
use crate::text::{
    chars_of, eq_ignore_ascii_case, eq_ignore_ascii_case_s, lemma_seq_lt_irrefl,
    lemma_seq_lt_trans, lowercase_s, opt_view, owned, parse_usize, parse_usize_s, seq_eq, seq_lt,
    starts_with, str_lt, string_of, to_lowercase,
};

verus! {

/// Listing order.
#[derive(Clone, Copy, Debug, PartialEq, Eq, Structural)]
pub enum SortMode {
    Date,
    Status,
    Title,
    Progress,
}

/// How much phase detail the table shows.
#[derive(Clone, Copy, Debug, PartialEq, Eq, Structural)]
pub enum DetailsMode {
    Off,
    Incomplete,
    All,
}

/// The options of `docs <kind>`.
pub struct ListOptions {
    pub query: Option<String>,
    pub status_filter: Option<String>,
    pub json_output: bool,
    pub sort: SortMode,
    pub limit: Option<usize>,
    pub details: DetailsMode,
    pub interactive: bool,
}

/// The options, by value.
pub struct OptsV {
    pub query: Option<Seq<char>>,
    pub status_filter: Option<Seq<char>>,
    pub json_output: bool,
    pub sort: SortMode,
    pub limit: Option<usize>,
    pub details: DetailsMode,
    pub interactive: bool,
}


impl View for ListOptions {
    type V = OptsV;

    open spec fn view(&self) -> OptsV {
        OptsV {
            query: opt_view(self.query),
            status_filter: opt_view(self.status_filter),
            json_output: self.json_output,
            sort: self.sort,
            limit: self.limit,
            details: self.details,
            interactive: self.interactive,
        }
    }
}

pub open spec fn default_opts() -> OptsV {
    OptsV {
        query: None,
        status_filter: None,
        json_output: false,
        sort: SortMode::Date,
        limit: None,
        details: DetailsMode::Off,
        interactive: false,
    }
}

pub open spec fn sort_mode_s(v: Seq<char>) -> Option<SortMode> {
    if v == "date"@ {
        Some(SortMode::Date)
    } else if v == "status"@ {
        Some(SortMode::Status)
    } else if v == "title"@ {
        Some(SortMode::Title)
    } else if v == "progress"@ {
        Some(SortMode::Progress)
    } else {
        None
    }
}

pub open spec fn details_mode_s(v: Seq<char>) -> Option<DetailsMode> {
    if v == "none"@ {
        Some(DetailsMode::Off)
    } else if v == "incomplete"@ {
        Some(DetailsMode::Incomplete)
    } else if v == "all"@ {
        Some(DetailsMode::All)
    } else {
        None
    }
}

/// The options read from `args[i..]`, on top of `acc`.
pub open spec fn opts_from(args: Seq<Seq<char>>, i: int, acc: OptsV) -> Result<OptsV, Seq<char>>
    decreases args.len() - i,
{
    if i >= args.len() || i < 0 {
        Ok(acc)
    } else {
        let a = args[i];
        if a == "--json"@ {
            opts_from(args, i + 1, OptsV { json_output: true, ..acc })
        } else if a == "--interactive"@ {
            opts_from(args, i + 1, OptsV { interactive: true, ..acc })
        } else if a == "--status"@ {
            if i + 1 >= args.len() {
                Err("Missing value for --status. Usage: --status <STATUS>"@)
            } else {
                opts_from(
                    args,
                    i + 2,
                    OptsV { status_filter: Some(lowercase_s(args[i + 1])), ..acc },
                )
            }
        } else if a == "--sort"@ {
            if i + 1 >= args.len() {
                Err("Missing value for --sort. Usage: --sort <date|status|title|progress>"@)
            } else {
                match sort_mode_s(args[i + 1]) {
                    Some(m) => opts_from(args, i + 2, OptsV { sort: m, ..acc }),
                    None => Err("Unknown sort mode: "@ + args[i + 1]),
                }
            }
        } else if a == "--limit"@ {
            if i + 1 >= args.len() {
                Err("Missing value for --limit. Usage: --limit <N>"@)
            } else {
                match parse_usize_s(args[i + 1]) {
                    Some(n) => opts_from(args, i + 2, OptsV { limit: Some(n), ..acc }),
                    None => Err("Invalid limit: "@ + args[i + 1]),
                }
            }
        } else if a == "--details"@ {
            if i + 1 >= args.len() {
                Err("Missing value for --details. Usage: --details <none|incomplete|all>"@)
            } else {
                match details_mode_s(args[i + 1]) {
                    Some(m) => opts_from(args, i + 2, OptsV { details: m, ..acc }),
                    None => Err("Unknown details mode: "@ + args[i + 1]),
                }
            }
        } else if a.len() > 0 && a[0] == '-' {
            Err("Unknown docs option: "@ + a)
        } else if acc.query is Some {
            Err("Only one docs query is supported at a time."@)
        } else {
            opts_from(args, i + 1, OptsV { query: Some(a), ..acc })
        }
    }
}

/// Reading options from `x + q` past `x` is reading them from `q`.
pub proof fn lemma_opts_shift(x: Seq<Seq<char>>, q: Seq<Seq<char>>, j: int, acc: OptsV)
    requires
        0 <= j <= q.len(),
    ensures
        opts_from(x + q, x.len() + j, acc) == opts_from(q, j, acc),
    decreases q.len() - j,
{
    let a = x + q;
    let i = x.len() + j;
    if j < q.len() {
        assert(a[i] == q[j]);
        if j + 1 < q.len() {
            assert(a[i + 1] == q[j + 1]);
        }
        let w = q[j];
        if w == "--json"@ {
            lemma_opts_shift(x, q, j + 1, OptsV { json_output: true, ..acc });
        } else if w == "--interactive"@ {
            lemma_opts_shift(x, q, j + 1, OptsV { interactive: true, ..acc });
        } else if w == "--status"@ {
            if j + 1 < q.len() {
                lemma_opts_shift(x, q, j + 2, OptsV { status_filter: Some(lowercase_s(q[j + 1])), ..acc });
            }
        } else if w == "--sort"@ {
            if j + 1 < q.len() {
                match sort_mode_s(q[j + 1]) {
                    Some(m) => lemma_opts_shift(x, q, j + 2, OptsV { sort: m, ..acc }),
                    None => {},
                }
            }
        } else if w == "--limit"@ {
            if j + 1 < q.len() {
                match parse_usize_s(q[j + 1]) {
                    Some(n) => lemma_opts_shift(x, q, j + 2, OptsV { limit: Some(n), ..acc }),
                    None => {},
                }
            }
        } else if w == "--details"@ {
            if j + 1 < q.len() {
                match details_mode_s(q[j + 1]) {
                    Some(m) => lemma_opts_shift(x, q, j + 2, OptsV { details: m, ..acc }),
                    None => {},
                }
            }
        } else if w.len() > 0 && w[0] == '-' {
        } else if acc.query is Some {
        } else {
            lemma_opts_shift(x, q, j + 1, OptsV { query: Some(w), ..acc });
        }
    }
}

/// Options read without error from `p` carry over when more arguments follow.
pub proof fn lemma_opts_prefix(p: Seq<Seq<char>>, q: Seq<Seq<char>>, i: int, acc: OptsV)
    requires
        0 <= i <= p.len(),
        opts_from(p, i, acc) is Ok,
    ensures
        opts_from(p + q, i, acc) == opts_from(p + q, p.len() as int, opts_from(p, i, acc)->Ok_0),
    decreases p.len() - i,
{
    let a = p + q;
    if i < p.len() {
        assert(a[i] == p[i]);
        if i + 1 < p.len() {
            assert(a[i + 1] == p[i + 1]);
        }
        let w = p[i];
        if w == "--json"@ {
            lemma_opts_prefix(p, q, i + 1, OptsV { json_output: true, ..acc });
        } else if w == "--interactive"@ {
            lemma_opts_prefix(p, q, i + 1, OptsV { interactive: true, ..acc });
        } else if w == "--status"@ {
            lemma_opts_prefix(p, q, i + 2, OptsV { status_filter: Some(lowercase_s(p[i + 1])), ..acc });
        } else if w == "--sort"@ {
            lemma_opts_prefix(p, q, i + 2, OptsV { sort: sort_mode_s(p[i + 1]).unwrap(), ..acc });
        } else if w == "--limit"@ {
            lemma_opts_prefix(p, q, i + 2, OptsV { limit: Some(parse_usize_s(p[i + 1]).unwrap()), ..acc });
        } else if w == "--details"@ {
            lemma_opts_prefix(p, q, i + 2, OptsV { details: details_mode_s(p[i + 1]).unwrap(), ..acc });
        } else {
            lemma_opts_prefix(p, q, i + 1, OptsV { query: Some(w), ..acc });
        }
    }
}

/// Reading `p + q` is reading `p`, then reading `q` on top of it.
pub proof fn lemma_opts_concat(p: Seq<Seq<char>>, q: Seq<Seq<char>>, acc: OptsV)
    requires
        opts_from(p, 0, acc) is Ok,
    ensures
        opts_from(p + q, 0, acc) == opts_from(q, 0, opts_from(p, 0, acc)->Ok_0),
{
    lemma_opts_prefix(p, q, 0, acc);
    lemma_opts_shift(p, q, 0, opts_from(p, 0, acc)->Ok_0);
}

/// The options of `docs <kind>`, or the message that rejects them.
pub open spec fn list_options_s(args: Seq<Seq<char>>) -> Result<OptsV, Seq<char>> {
    match opts_from(args, 0, default_opts()) {
        Err(e) => Err(e),
        Ok(o) => if o.interactive && o.json_output {
            Err("`--interactive` cannot be combined with `--json`."@)
        } else if o.interactive && o.query is Some {
            Err("`--interactive` cannot be combined with a docs query."@)
        } else {
            Ok(o)
        },
    }
}

fn message(prefix: &str, tail: &str) -> (r: String)
    ensures
        r@ == prefix@ + tail@,
{
    let mut r = owned(prefix);
    r.append(tail);
    r
}

fn is(a: &str, lit: &str) -> (r: bool)
    ensures
        r == (a@ == lit@),
{
    seq_eq(&chars_of(a), &chars_of(lit))
}

/// Parses `--json`, `--interactive`, `--status S`, `--sort M`, `--limit N`,
/// `--details D` and at most one query.
pub fn parse_list_options(args: &[&str]) -> (r: Result<ListOptions, String>)
    ensures
        match r {
            Ok(o) => list_options_s(arg_views(args@)) == Ok::<OptsV, Seq<char>>(o@),
            Err(e) => list_options_s(arg_views(args@)) == Err::<OptsV, Seq<char>>(e@),
        },
{
    let ghost av = arg_views(args@);
    let mut o = ListOptions {
        query: None,
        status_filter: None,
        json_output: false,
        sort: SortMode::Date,
        limit: None,
        details: DetailsMode::Off,
        interactive: false,
    };
    assert(o@ == default_opts());
    let mut i: usize = 0;
    while i < args.len()
        invariant
            i <= args.len(),
            av == arg_views(args@),
            opts_from(av, 0, default_opts()) == opts_from(av, i as int, o@),
        decreases args.len() - i,
    {
        let a = args[i];
        assert(av[i as int] == a@);
        if is(a, "--json") {
            o.json_output = true;
            i += 1;
        } else if is(a, "--interactive") {
            o.interactive = true;
            i += 1;
        } else if is(a, "--status") {
            if i + 1 >= args.len() {
                return Err(owned("Missing value for --status. Usage: --status <STATUS>"));
            }
            assert(av[i + 1] == args[i + 1]@);
            let v = to_lowercase(&chars_of(args[i + 1]));
            o.status_filter = Some(string_of(&v));
            i += 2;
        } else if is(a, "--sort") {
            if i + 1 >= args.len() {
                return Err(
                    owned("Missing value for --sort. Usage: --sort <date|status|title|progress>"),
                );
            }
            let v = args[i + 1];
            assert(av[i + 1] == v@);
            if is(v, "date") {
                o.sort = SortMode::Date;
            } else if is(v, "status") {
                o.sort = SortMode::Status;
            } else if is(v, "title") {
                o.sort = SortMode::Title;
            } else if is(v, "progress") {
                o.sort = SortMode::Progress;
            } else {
                return Err(message("Unknown sort mode: ", v));
            }
            i += 2;
        } else if is(a, "--limit") {
            if i + 1 >= args.len() {
                return Err(owned("Missing value for --limit. Usage: --limit <N>"));
            }
            let v = args[i + 1];
            assert(av[i + 1] == v@);
            match parse_usize(&chars_of(v)) {
                Some(n) => {
                    o.limit = Some(n);
                },
                None => {
                    return Err(message("Invalid limit: ", v));
                },
            }
            i += 2;
        } else if is(a, "--details") {
            if i + 1 >= args.len() {
                return Err(
                    owned("Missing value for --details. Usage: --details <none|incomplete|all>"),
                );
            }
            let v = args[i + 1];
            assert(av[i + 1] == v@);
            if is(v, "none") {
                o.details = DetailsMode::Off;
            } else if is(v, "incomplete") {
                o.details = DetailsMode::Incomplete;
            } else if is(v, "all") {
                o.details = DetailsMode::All;
            } else {
                return Err(message("Unknown details mode: ", v));
            }
            i += 2;
        } else {
            let av_ = chars_of(a);
            if av_.len() > 0 && av_[0] == '-' {
                return Err(message("Unknown docs option: ", a));
            }
            if o.query.is_some() {
                return Err(owned("Only one docs query is supported at a time."));
            }
            o.query = Some(owned(a));
            i += 1;
        }
    }
    if o.interactive && o.json_output {
        return Err(owned("`--interactive` cannot be combined with `--json`."));
    }
    if o.interactive && o.query.is_some() {
        return Err(owned("`--interactive` cannot be combined with a docs query."));
    }
    Ok(o)
}

// ── Ordering ────────────────────────────────────────────────────────

/// The progress score of a plan: complete phases, then done tasks.
pub open spec fn score_lt(a: DocV, b: DocV) -> bool {
    complete_count(a.phases) < complete_count(b.phases) || (complete_count(a.phases)
        == complete_count(b.phases) && done_sum(a.phases) < done_sum(b.phases))
}

pub open spec fn score_eq(a: DocV, b: DocV) -> bool {
    complete_count(a.phases) == complete_count(b.phases) && done_sum(a.phases) == done_sum(
        b.phases,
    )
}

/// Newest date first, then title.
pub open spec fn date_title_before(a: DocV, b: DocV) -> bool {
    seq_lt(b.date, a.date) || (a.date == b.date && seq_lt(a.title, b.title))
}

/// `a` comes strictly before `b` in the listing order `mode`.
pub open spec fn before(mode: SortMode, a: DocV, b: DocV) -> bool {
    match mode {
        SortMode::Date => date_title_before(a, b),
        SortMode::Status => seq_lt(a.status, b.status) || (a.status == b.status && seq_lt(
            a.title,
            b.title,
        )),
        SortMode::Title => seq_lt(a.title, b.title),
        SortMode::Progress => score_lt(b, a) || (score_eq(a, b) && date_title_before(a, b)),
    }
}

/// Where `d` goes in the ordered `sorted`: before the first entry it
/// strictly precedes, so equal entries keep their order.
pub open spec fn insert_pos(sorted: Seq<DocV>, d: DocV, mode: SortMode) -> int
    decreases sorted.len(),
{
    if sorted.len() == 0 {
        0
    } else if before(mode, d, sorted[0]) {
        0
    } else {
        1 + insert_pos(sorted.drop_first(), d, mode)
    }
}

/// The stable ordering of `s` by `mode`.
pub open spec fn stable_sort(s: Seq<DocV>, mode: SortMode) -> Seq<DocV>
    decreases s.len(),
{
    if s.len() == 0 {
        s
    } else {
        let rest = stable_sort(s.drop_last(), mode);
        rest.insert(insert_pos(rest, s.last(), mode), s.last())
    }
}

pub open spec fn ref_views(v: Seq<&Doc>) -> Seq<DocV> {
    v.map_values(|d: &Doc| d@)
}

/// Every document's task sums fit a `usize` (needed to score progress).
pub open spec fn all_fit(ds: Seq<DocV>) -> bool {
    forall|i: int| 0 <= i < ds.len() ==> tasks_fit(#[trigger] ds[i].phases)
}

/// `(complete phases, done tasks)` of a plan.
pub fn plan_score(doc: &Doc) -> (r: (usize, usize))
    requires
        tasks_fit(doc@.phases),
    ensures
        r.0 == complete_count(doc@.phases),
        r.1 == done_sum(doc@.phases),
{
    let p = plan_progress(&doc.phases);
    (p.complete_phases, p.done_tasks)
}

fn eq_str(a: &String, b: &String) -> (r: bool)
    ensures
        r == (a@ == b@),
{
    seq_eq(&chars_of(a.as_str()), &chars_of(b.as_str()))
}

fn lt_str(a: &String, b: &String) -> (r: bool)
    ensures
        r == seq_lt(a@, b@),
{
    str_lt(&chars_of(a.as_str()), &chars_of(b.as_str()))
}

/// Whether `a` strictly precedes `b` in the order `mode`.
pub fn doc_before(mode: SortMode, a: &Doc, b: &Doc) -> (r: bool)
    requires
        mode == SortMode::Progress ==> tasks_fit(a@.phases) && tasks_fit(b@.phases),
    ensures
        r == before(mode, a@, b@),
{
    let date_title = lt_str(&b.date, &a.date) || (eq_str(&a.date, &b.date) && lt_str(
        &a.title,
        &b.title,
    ));
    match mode {
        SortMode::Date => date_title,
        SortMode::Status => lt_str(&a.status, &b.status) || (eq_str(&a.status, &b.status)
            && lt_str(&a.title, &b.title)),
        SortMode::Title => lt_str(&a.title, &b.title),
        SortMode::Progress => {
            let sa = plan_score(a);
            let sb = plan_score(b);
            (sb.0 < sa.0 || (sb.0 == sa.0 && sb.1 < sa.1)) || (sa.0 == sb.0 && sa.1 == sb.1
                && date_title)
        },
    }
}

proof fn lemma_insert_pos_bounds(sorted: Seq<DocV>, d: DocV, mode: SortMode)
    ensures
        0 <= insert_pos(sorted, d, mode) <= sorted.len(),
    decreases sorted.len(),
{
    if sorted.len() > 0 && !before(mode, d, sorted[0]) {
        lemma_insert_pos_bounds(sorted.drop_first(), d, mode);
    }
}

proof fn lemma_insert_pos(sorted: Seq<DocV>, d: DocV, mode: SortMode, k: int)
    requires
        0 <= k <= sorted.len(),
        forall|j: int| 0 <= j < k ==> !before(mode, d, #[trigger] sorted[j]),
        k < sorted.len() ==> before(mode, d, sorted[k]),
    ensures
        insert_pos(sorted, d, mode) == k,
    decreases sorted.len(),
{
    if sorted.len() > 0 && k > 0 {
        assert(!before(mode, d, sorted[0]));
        assert forall|j: int| 0 <= j < k - 1 implies !before(
            mode,
            d,
            #[trigger] sorted.drop_first()[j],
        ) by {
            assert(sorted.drop_first()[j] == sorted[j + 1]);
        }
        lemma_insert_pos(sorted.drop_first(), d, mode, k - 1);
    }
}

proof fn lemma_date_title_strict(a: DocV, b: DocV, c: DocV)
    ensures
        !date_title_before(a, a),
        date_title_before(a, b) && date_title_before(b, c) ==> date_title_before(a, c),
{
    lemma_seq_lt_irrefl(a.date);
    lemma_seq_lt_irrefl(a.title);
    if date_title_before(a, b) && date_title_before(b, c) {
        if seq_lt(b.date, a.date) && seq_lt(c.date, b.date) {
            lemma_seq_lt_trans(c.date, b.date, a.date);
        } else if a.date == b.date && b.date == c.date {
            lemma_seq_lt_trans(a.title, b.title, c.title);
        }
    }
}

/// Each listing order is a strict order: nothing precedes itself, and
/// preceding is transitive.
proof fn lemma_before_strict(mode: SortMode, a: DocV, b: DocV, c: DocV)
    ensures
        !before(mode, a, a),
        before(mode, a, b) && before(mode, b, c) ==> before(mode, a, c),
{
    lemma_date_title_strict(a, b, c);
    lemma_seq_lt_irrefl(a.status);
    lemma_seq_lt_irrefl(a.title);
    if before(mode, a, b) && before(mode, b, c) {
        match mode {
            SortMode::Status => {
                if seq_lt(a.status, b.status) && seq_lt(b.status, c.status) {
                    lemma_seq_lt_trans(a.status, b.status, c.status);
                } else if a.status == b.status && b.status == c.status {
                    lemma_seq_lt_trans(a.title, b.title, c.title);
                }
            },
            SortMode::Title => {
                lemma_seq_lt_trans(a.title, b.title, c.title);
            },
            _ => {},
        }
    }
}

proof fn lemma_insert_pos_spec(sorted: Seq<DocV>, d: DocV, mode: SortMode)
    ensures
        0 <= insert_pos(sorted, d, mode) <= sorted.len(),
        forall|j: int|
            0 <= j < insert_pos(sorted, d, mode) ==> !before(mode, d, #[trigger] sorted[j]),
        insert_pos(sorted, d, mode) < sorted.len() ==> before(
            mode,
            d,
            sorted[insert_pos(sorted, d, mode)],
        ),
    decreases sorted.len(),
{
    if sorted.len() > 0 && !before(mode, d, sorted[0]) {
        lemma_insert_pos_spec(sorted.drop_first(), d, mode);
        assert forall|j: int| 0 <= j < insert_pos(sorted, d, mode) implies !before(
            mode,
            d,
            #[trigger] sorted[j],
        ) by {
            if j > 0 {
                assert(sorted[j] == sorted.drop_first()[j - 1]);
            }
        }
    }
}

/// No document comes after one it strictly precedes in the order `mode`.
pub open spec fn listing_ordered(s: Seq<DocV>, mode: SortMode) -> bool {
    forall|i: int, j: int| 0 <= i < j < s.len() ==> !before(mode, #[trigger] s[j], #[trigger] s[i])
}

proof fn lemma_insert_keeps_listing_order(sorted: Seq<DocV>, d: DocV, mode: SortMode)
    requires
        listing_ordered(sorted, mode),
    ensures
        listing_ordered(sorted.insert(insert_pos(sorted, d, mode), d), mode),
{
    lemma_insert_pos_spec(sorted, d, mode);
    let k = insert_pos(sorted, d, mode);
    let t = sorted.insert(k, d);
    assert forall|i: int, j: int| 0 <= i < j < t.len() implies !before(
        mode,
        #[trigger] t[j],
        #[trigger] t[i],
    ) by {
        if j < k {
            assert(t[i] == sorted[i] && t[j] == sorted[j]);
        } else if j == k {
            assert(t[i] == sorted[i]);
        } else if i < k {
            assert(t[i] == sorted[i] && t[j] == sorted[j - 1]);
        } else if i == k {
            assert(t[j] == sorted[j - 1]);
            lemma_before_strict(mode, sorted[j - 1], d, sorted[k]);
            lemma_before_strict(mode, sorted[k], d, sorted[k]);
            if before(mode, sorted[j - 1], d) {
                if j - 1 == k {
                    lemma_before_strict(mode, d, sorted[k], d);
                } else {
                    assert(!before(mode, sorted[j - 1], sorted[k]));
                }
            }
        } else {
            assert(t[i] == sorted[i - 1] && t[j] == sorted[j - 1]);
        }
    }
}

/// The listing is ordered as asked and loses nothing: sorting the documents
/// by date (newest first), status, title or progress (most advanced first)
/// leaves no document after one it strictly precedes, and the result is a
/// rearrangement of the documents, of the same length.
pub proof fn law_listing_sorted(s: Seq<DocV>, mode: SortMode)
    ensures
        listing_ordered(stable_sort(s, mode), mode),
        stable_sort(s, mode).to_multiset() == s.to_multiset(),
        stable_sort(s, mode).len() == s.len(),
    decreases s.len(),
{
    if s.len() == 0 {
        assert(stable_sort(s, mode) =~= s);
    } else {
        let rest = stable_sort(s.drop_last(), mode);
        law_listing_sorted(s.drop_last(), mode);
        lemma_insert_keeps_listing_order(rest, s.last(), mode);
        lemma_insert_pos_spec(rest, s.last(), mode);
        vstd::seq_lib::to_multiset_insert(rest, insert_pos(rest, s.last(), mode), s.last());
        vstd::seq_lib::to_multiset_build(s.drop_last(), s.last());
        assert(s.drop_last().push(s.last()) =~= s);
    }
}

/// What the sorted listing looks like, field by field: for any two entries,
/// the earlier one is
/// - by date: not older, and with the same date not later by title;
/// - by status: not later by status, and with the same status not later by
///   title;
/// - by title: not later by title;
/// - by progress: not behind (complete phases, then done tasks), and with
///   the same progress ordered as by date.
pub proof fn law_listing_order_by_fields(s: Seq<DocV>, mode: SortMode)
    ensures
        forall|i: int, j: int|
            0 <= i < j < stable_sort(s, mode).len() ==> {
                let a = #[trigger] stable_sort(s, mode)[i];
                let b = #[trigger] stable_sort(s, mode)[j];
                let by_date = !seq_lt(a.date, b.date) && (a.date == b.date ==> !seq_lt(
                    b.title,
                    a.title,
                ));
                match mode {
                    SortMode::Date => by_date,
                    SortMode::Status => !seq_lt(b.status, a.status) && (a.status == b.status
                        ==> !seq_lt(b.title, a.title)),
                    SortMode::Title => !seq_lt(b.title, a.title),
                    SortMode::Progress => {
                        &&& complete_count(b.phases) <= complete_count(a.phases)
                        &&& complete_count(a.phases) == complete_count(b.phases) ==> done_sum(
                            b.phases,
                        ) <= done_sum(a.phases)
                        &&& complete_count(a.phases) == complete_count(b.phases) && done_sum(
                            a.phases,
                        ) == done_sum(b.phases) ==> by_date
                    },
                }
            },
{
    law_listing_sorted(s, mode);
    let r = stable_sort(s, mode);
    assert forall|i: int, j: int| 0 <= i < j < r.len() implies !before(mode, #[trigger] r[j], #[trigger] r[i]) by {}
}

proof fn lemma_insert_pos_at_end(sorted: Seq<DocV>, d: DocV, mode: SortMode)
    requires
        forall|k: int| 0 <= k < sorted.len() ==> !before(mode, d, #[trigger] sorted[k]),
    ensures
        insert_pos(sorted, d, mode) == sorted.len(),
    decreases sorted.len(),
{
    if sorted.len() > 0 {
        assert(!before(mode, d, sorted[0]));
        assert forall|k: int| 0 <= k < sorted.drop_first().len() implies !before(
            mode,
            d,
            #[trigger] sorted.drop_first()[k],
        ) by {
            assert(sorted.drop_first()[k] == sorted[k + 1]);
        }
        lemma_insert_pos_at_end(sorted.drop_first(), d, mode);
    }
}

/// Whether `a` and `b` agree on everything the order `mode` compares.
pub open spec fn same_sort_key(mode: SortMode, a: DocV, b: DocV) -> bool {
    match mode {
        SortMode::Date => a.date == b.date && a.title == b.title,
        SortMode::Status => a.status == b.status && a.title == b.title,
        SortMode::Title => a.title == b.title,
        SortMode::Progress => complete_count(a.phases) == complete_count(b.phases) && done_sum(
            a.phases,
        ) == done_sum(b.phases) && a.date == b.date && a.title == b.title,
    }
}

/// The sort is stable: documents that all agree on what the order compares
/// are listed in the order they came in.
pub proof fn law_listing_stable(s: Seq<DocV>, mode: SortMode)
    requires
        forall|i: int| 0 <= i < s.len() ==> same_sort_key(mode, s[0], #[trigger] s[i]),
    ensures
        stable_sort(s, mode) == s,
    decreases s.len(),
{
    if s.len() > 0 {
        let init = s.drop_last();
        assert forall|i: int| 0 <= i < init.len() implies same_sort_key(mode, init[0], #[trigger] init[i]) by {
            assert(init[i] == s[i]);
            assert(init[0] == s[0]);
        }
        law_listing_stable(init, mode);
        let d = s.last();
        assert(same_sort_key(mode, s[0], s[s.len() - 1]));
        assert forall|k: int| 0 <= k < init.len() implies !before(mode, d, #[trigger] init[k]) by {
            assert(init[k] == s[k]);
            assert(same_sort_key(mode, s[0], s[k]));
            lemma_seq_lt_irrefl(d.title);
            lemma_seq_lt_irrefl(d.date);
            lemma_seq_lt_irrefl(d.status);
        }
        lemma_insert_pos_at_end(init, d, mode);
        assert(init.insert(init.len() as int, d) =~= s);
    }
}

/// Orders the listing: by date (newest first), status, title, or progress
/// (most advanced first), each with ties broken as in the listing; the
/// ordering is stable.
pub fn sort_docs(docs: &mut Vec<&Doc>, sort: SortMode)
    requires
        sort == SortMode::Progress ==> all_fit(ref_views(old(docs)@)),
    ensures
        ref_views(final(docs)@) == stable_sort(ref_views(old(docs)@), sort),
{
    let ghost input = ref_views(docs@);
    let mut out: Vec<&Doc> = Vec::new();
    let mut i: usize = 0;
    while i < docs.len()
        invariant
            i <= docs.len(),
            input == ref_views(docs@),
            sort == SortMode::Progress ==> all_fit(input),
            sort == SortMode::Progress ==> all_fit(ref_views(out@)),
            ref_views(out@) == stable_sort(input.take(i as int), sort),
        decreases docs.len() - i,
    {
        let d = docs[i];
        assert(input[i as int] == d@);
        let mut k: usize = 0;
        loop
            invariant
                k <= out.len(),
                input[i as int] == d@,
                sort == SortMode::Progress ==> tasks_fit(d@.phases),
                sort == SortMode::Progress ==> all_fit(ref_views(out@)),
                forall|j: int| 0 <= j < k ==> !before(sort, d@, #[trigger] ref_views(out@)[j]),
            ensures
                k <= out.len(),
                forall|j: int| 0 <= j < k ==> !before(sort, d@, #[trigger] ref_views(out@)[j]),
                k < out.len() ==> before(sort, d@, ref_views(out@)[k as int]),
            decreases out.len() - k,
        {
            if k >= out.len() {
                break;
            }
            assert(ref_views(out@)[k as int] == out@[k as int]@);
            if doc_before(sort, d, out[k]) {
                break;
            }
            k += 1;
        }
        proof {
            if k < out.len() {
                assert(ref_views(out@)[k as int] == out@[k as int]@);
            }
            lemma_insert_pos(ref_views(out@), d@, sort, k as int);
            assert(input.take(i + 1).drop_last() =~= input.take(i as int));
            assert(input.take(i + 1).last() == d@);
        }
        let ghost before_out = ref_views(out@);
        out.insert(k, d);
        assert(ref_views(out@) =~= before_out.insert(k as int, d@));
        proof {
            if sort == SortMode::Progress {
                assert forall|j: int| 0 <= j < out.len() implies tasks_fit(
                    #[trigger] ref_views(out@)[j].phases,
                ) by {
                    if j < k {
                        assert(ref_views(out@)[j] == before_out[j]);
                    } else if j > k {
                        assert(ref_views(out@)[j] == before_out[j - 1]);
                    }
                }
            }
        }
        i += 1;
    }
    assert(input.take(docs.len() as int) =~= input);
    *docs = out;
}

/// Orders owned documents as [`sort_docs`] orders references; the scans
/// keep their documents by date (newest first), then title.
pub fn sort_owned_docs(docs: Vec<Doc>, sort: SortMode) -> (r: Vec<Doc>)
    requires
        sort == SortMode::Progress ==> all_fit(doc_views(docs@)),
    ensures
        doc_views(r@) == stable_sort(doc_views(docs@), sort),
{
    let ghost input = doc_views(docs@);
    let mut rest = docs;
    let mut out: Vec<Doc> = Vec::new();
    let ghost mut i: int = 0;
    while rest.len() > 0
        invariant
            0 <= i <= input.len(),
            rest.len() == input.len() - i,
            doc_views(rest@) == input.skip(i),
            sort == SortMode::Progress ==> all_fit(input),
            sort == SortMode::Progress ==> all_fit(doc_views(out@)),
            doc_views(out@) == stable_sort(input.take(i), sort),
        decreases rest.len(),
    {
        let ghost rest_before = doc_views(rest@);
        let d = rest.remove(0);
        assert(d@ == rest_before[0]);
        assert(input[i] == d@) by {
            assert(input.skip(i)[0] == input[i]);
        }
        assert(doc_views(rest@) =~= input.skip(i + 1)) by {
            assert forall|j: int| 0 <= j < rest@.len() implies #[trigger] doc_views(rest@)[j]
                == input.skip(i + 1)[j] by {
                assert(doc_views(rest@)[j] == rest_before[j + 1]);
                assert(input.skip(i)[j + 1] == input.skip(i + 1)[j]);
            }
        }
        let mut k: usize = 0;
        loop
            invariant
                k <= out.len(),
                input[i] == d@,
                sort == SortMode::Progress ==> tasks_fit(d@.phases),
                sort == SortMode::Progress ==> all_fit(doc_views(out@)),
                forall|j: int| 0 <= j < k ==> !before(sort, d@, #[trigger] doc_views(out@)[j]),
            ensures
                k <= out.len(),
                forall|j: int| 0 <= j < k ==> !before(sort, d@, #[trigger] doc_views(out@)[j]),
                k < out.len() ==> before(sort, d@, doc_views(out@)[k as int]),
            decreases out.len() - k,
        {
            if k >= out.len() {
                break;
            }
            assert(doc_views(out@)[k as int] == out@[k as int]@);
            if doc_before(sort, &d, &out[k]) {
                break;
            }
            k += 1;
        }
        proof {
            if k < out.len() {
                assert(doc_views(out@)[k as int] == out@[k as int]@);
            }
            lemma_insert_pos(doc_views(out@), d@, sort, k as int);
            assert(input.take(i + 1).drop_last() =~= input.take(i));
            assert(input.take(i + 1).last() == d@);
        }
        let ghost before_out = doc_views(out@);
        let ghost dv = d@;
        out.insert(k, d);
        assert(doc_views(out@) =~= before_out.insert(k as int, dv));
        proof {
            if sort == SortMode::Progress {
                assert forall|j: int| 0 <= j < out.len() implies tasks_fit(
                    #[trigger] doc_views(out@)[j].phases,
                ) by {
                    if j < k {
                        assert(doc_views(out@)[j] == before_out[j]);
                    } else if j > k {
                        assert(doc_views(out@)[j] == before_out[j - 1]);
                    }
                }
            }
            i = i + 1;
        }
    }
    assert(input.take(i) =~= input);
    out
}

// ── Lookup by query ─────────────────────────────────────────────────

/// The first index of `ds` satisfying `p`.
pub open spec fn first_where(ds: Seq<DocV>, p: spec_fn(DocV) -> bool) -> Option<int>
    decreases ds.len(),
{
    if ds.len() == 0 {
        None
    } else if p(ds[0]) {
        Some(0)
    } else {
        match first_where(ds.drop_first(), p) {
            Some(k) => Some(k + 1),
            None => None,
        }
    }
}

pub open spec fn file_match(d: DocV, q: Seq<char>) -> bool {
    eq_ignore_ascii_case_s(d.file, q)
}

pub open spec fn stem_match(d: DocV, q: Seq<char>) -> bool {
    match path_file_stem(d.file) {
        Some(s) => eq_ignore_ascii_case_s(s, q),
        None => false,
    }
}

pub open spec fn prefix_match(d: DocV, q: Seq<char>) -> bool {
    lowercase_s(q).is_prefix_of(lowercase_s(d.title)) || lowercase_s(q).is_prefix_of(
        lowercase_s(d.file),
    )
}

/// The document a query names: exact file name, then file stem (both
/// ASCII case-insensitive), then a case-insensitive title or file prefix.
pub open spec fn find_doc_s(ds: Seq<DocV>, q: Seq<char>) -> Option<int> {
    match first_where(ds, |d: DocV| file_match(d, q)) {
        Some(i) => Some(i),
        None => match first_where(ds, |d: DocV| stem_match(d, q)) {
            Some(i) => Some(i),
            None => first_where(ds, |d: DocV| prefix_match(d, q)),
        },
    }
}

proof fn lemma_first_where(ds: Seq<DocV>, p: spec_fn(DocV) -> bool, k: int)
    requires
        0 <= k <= ds.len(),
        forall|j: int| 0 <= j < k ==> !p(#[trigger] ds[j]),
        k < ds.len() ==> p(ds[k]),
    ensures
        first_where(ds, p) == (if k < ds.len() {
            Some(k)
        } else {
            None::<int>
        }),
    decreases ds.len(),
{
    if ds.len() > 0 && k > 0 {
        assert(!p(ds[0]));
        assert forall|j: int| 0 <= j < k - 1 implies !p(#[trigger] ds.drop_first()[j]) by {
            assert(ds.drop_first()[j] == ds[j + 1]);
        }
        lemma_first_where(ds.drop_first(), p, k - 1);
    }
}

fn matches_file(d: &Doc, q: &[char]) -> (r: bool)
    ensures
        r == file_match(d@, q@),
{
    eq_ignore_ascii_case(&chars_of(d.file.as_str()), q)
}

fn matches_stem(d: &Doc, q: &[char]) -> (r: bool)
    ensures
        r == stem_match(d@, q@),
{
    match file_stem(d.file.as_str()) {
        Some(s) => eq_ignore_ascii_case(&chars_of(s.as_str()), q),
        None => false,
    }
}

fn matches_prefix(d: &Doc, needle: &[char]) -> (r: bool)
    requires
        exists|q: Seq<char>| needle@ == lowercase_s(q),
    ensures
        forall|q: Seq<char>| needle@ == lowercase_s(q) ==> r == prefix_match(d@, q),
{
    let t = to_lowercase(&chars_of(d.title.as_str()));
    let f = to_lowercase(&chars_of(d.file.as_str()));
    starts_with(&t, needle) || starts_with(&f, needle)
}

/// Finds the document a query names (see [`find_doc_s`]).
pub fn find_doc<'a>(docs: &[&'a Doc], query: &str) -> (r: Option<&'a Doc>)
    ensures
        match find_doc_s(ref_views(docs@), query@) {
            Some(i) => r is Some && r.unwrap()@ == ref_views(docs@)[i],
            None => r is None,
        },
{
    let ghost ds = ref_views(docs@);
    let q = chars_of(query);
    let mut i: usize = 0;
    while i < docs.len()
        invariant
            i <= docs.len(),
            ds == ref_views(docs@),
            q@ == query@,
            forall|j: int| 0 <= j < i ==> !file_match(#[trigger] ds[j], query@),
        decreases docs.len() - i,
    {
        assert(ds[i as int] == docs@[i as int]@);
        if matches_file(docs[i], &q) {
            proof {
                lemma_first_where(ds, |d: DocV| file_match(d, query@), i as int);
            }
            return Some(docs[i]);
        }
        i += 1;
    }
    proof {
        lemma_first_where(ds, |d: DocV| file_match(d, query@), docs.len() as int);
    }
    let mut i: usize = 0;
    while i < docs.len()
        invariant
            i <= docs.len(),
            ds == ref_views(docs@),
            q@ == query@,
            first_where(ds, |d: DocV| file_match(d, query@)) is None,
            forall|j: int| 0 <= j < i ==> !stem_match(#[trigger] ds[j], query@),
        decreases docs.len() - i,
    {
        assert(ds[i as int] == docs@[i as int]@);
        if matches_stem(docs[i], &q) {
            proof {
                lemma_first_where(ds, |d: DocV| stem_match(d, query@), i as int);
            }
            return Some(docs[i]);
        }
        i += 1;
    }
    proof {
        lemma_first_where(ds, |d: DocV| stem_match(d, query@), docs.len() as int);
    }
    let needle = to_lowercase(&q);
    let mut i: usize = 0;
    while i < docs.len()
        invariant
            i <= docs.len(),
            ds == ref_views(docs@),
            q@ == query@,
            needle@ == lowercase_s(query@),
            first_where(ds, |d: DocV| file_match(d, query@)) is None,
            first_where(ds, |d: DocV| stem_match(d, query@)) is None,
            forall|j: int| 0 <= j < i ==> !prefix_match(#[trigger] ds[j], query@),
        decreases docs.len() - i,
    {
        assert(ds[i as int] == docs@[i as int]@);
        if matches_prefix(docs[i], &needle) {
            proof {
                lemma_first_where(ds, |d: DocV| prefix_match(d, query@), i as int);
            }
            return Some(docs[i]);
        }
        i += 1;
    }
    proof {
        lemma_first_where(ds, |d: DocV| prefix_match(d, query@), docs.len() as int);
    }
    None
}

// ── Filtering, limits, details ──────────────────────────────────────

/// The documents whose lowercased status equals `filter` (all without one).
pub open spec fn keep_status(ds: Seq<DocV>, filter: Option<Seq<char>>) -> Seq<DocV>
    decreases ds.len(),
{
    if ds.len() == 0 {
        ds
    } else {
        let rest = keep_status(ds.drop_last(), filter);
        match filter {
            Some(f) => if lowercase_s(ds.last().status) == f {
                rest.push(ds.last())
            } else {
                rest
            },
            None => rest.push(ds.last()),
        }
    }
}

pub open spec fn doc_views(v: Seq<Doc>) -> Seq<DocV> {
    v.map_values(|d: Doc| d@)
}

/// References to the documents whose status matches `filter`, in order.
pub fn filter_by_status<'a>(docs: &'a [Doc], filter: Option<&str>) -> (r: Vec<&'a Doc>)
    ensures
        ref_views(r@) == keep_status(
            doc_views(docs@),
            match filter {
                Some(f) => Some(f@),
                None => None,
            },
        ),
{
    let ghost f = match filter {
        Some(f) => Some(f@),
        None => None::<Seq<char>>,
    };
    let ghost ds = doc_views(docs@);
    let mut out: Vec<&Doc> = Vec::new();
    let mut i: usize = 0;
    while i < docs.len()
        invariant
            i <= docs.len(),
            ds == doc_views(docs@),
            f == (match filter {
                Some(x) => Some(x@),
                None => None::<Seq<char>>,
            }),
            ref_views(out@) == keep_status(ds.take(i as int), f),
        decreases docs.len() - i,
    {
        let d = &docs[i];
        assert(ds.take(i + 1).drop_last() =~= ds.take(i as int));
        assert(ds.take(i + 1).last() == d@);
        let keep = match filter {
            Some(fs) => seq_eq(&to_lowercase(&chars_of(d.status.as_str())), &chars_of(fs)),
            None => true,
        };
        if keep {
            let ghost b = ref_views(out@);
            out.push(d);
            assert(ref_views(out@) =~= b.push(d@));
        }
        i += 1;
    }
    assert(ds.take(docs.len() as int) =~= ds);
    out
}

/// Keeps at most `limit` entries (all without a limit).
pub fn apply_limit<'a>(docs: &mut Vec<&'a Doc>, limit: Option<usize>)
    ensures
        final(docs)@ == (match limit {
            Some(n) => if n <= old(docs)@.len() {
                old(docs)@.subrange(0, n as int)
            } else {
                old(docs)@
            },
            None => old(docs)@,
        }),
{
    if let Some(n) = limit {
        docs.truncate(n);
    }
}

/// Whether a document's phases are expanded under `details`: never, always,
/// or only for plans with phases not all complete.
pub open spec fn should_expand_s(details: DetailsMode, d: DocV) -> bool {
    match details {
        DetailsMode::Off => false,
        DetailsMode::All => true,
        DetailsMode::Incomplete => d.phases.len() > 0 && complete_count(d.phases)
            < d.phases.len(),
    }
}

pub fn should_expand_doc(details: DetailsMode, doc: &Doc) -> (r: bool)
    ensures
        r == should_expand_s(details, doc@),
{
    match details {
        DetailsMode::Off => false,
        DetailsMode::All => true,
        DetailsMode::Incomplete => {
            let complete = count_complete(&doc.phases);
            doc.phases.len() > 0 && complete < doc.phases.len()
        },
    }
}

/// The detail level of the table: everything for a single looked-up or
/// picked document, else what `--details` asked for.
pub fn effective_details(options: &ListOptions) -> (r: DetailsMode)
    ensures
        r == (if options.query is Some || options.interactive {
            DetailsMode::All
        } else {
            options.details
        }),
{
    if options.query.is_some() || options.interactive {
        DetailsMode::All
    } else {
        options.details
    }
}

// ── The listing pipeline ────────────────────────────────────────────

/// Whether the task sums of `phases` fit a `usize`.
pub fn phases_fit(phases: &Vec<PlanPhase>) -> (r: bool)
    ensures
        r == tasks_fit(phase_views(phases@)),
{
    let ghost pv = phase_views(phases@);
    let mut done: usize = 0;
    let mut total: usize = 0;
    let mut i: usize = 0;
    while i < phases.len()
        invariant
            i <= phases.len(),
            pv == phase_views(phases@),
            done == done_sum(pv.take(i as int)),
            total == total_sum(pv.take(i as int)),
        decreases phases.len() - i,
    {
        assert(pv.take(i + 1).drop_last() =~= pv.take(i as int));
        assert(pv.take(i + 1).last() == phases@[i as int]@);
        if done > usize::MAX - phases[i].done || total > usize::MAX - phases[i].total {
            proof {
                lemma_sums_prefix(pv, i + 1);
            }
            return false;
        }
        done = done + phases[i].done;
        total = total + phases[i].total;
        i += 1;
    }
    assert(pv.take(phases.len() as int) =~= pv);
    true
}

/// Whether every document's task sums fit a `usize`.
pub fn docs_fit(docs: &[Doc]) -> (r: bool)
    ensures
        r == all_fit(doc_views(docs@)),
{
    let ghost ds = doc_views(docs@);
    let mut i: usize = 0;
    while i < docs.len()
        invariant
            i <= docs.len(),
            ds == doc_views(docs@),
            forall|j: int| 0 <= j < i ==> tasks_fit(#[trigger] ds[j].phases),
        decreases docs.len() - i,
    {
        assert(ds[i as int] == docs@[i as int]@);
        if !phases_fit(&docs[i].phases) {
            assert(!tasks_fit(ds[i as int].phases));
            return false;
        }
        i += 1;
    }
    true
}

/// At most `limit` entries (all without a limit).
pub open spec fn limited(s: Seq<DocV>, limit: Option<usize>) -> Seq<DocV> {
    match limit {
        Some(n) => if n <= s.len() {
            s.take(n as int)
        } else {
            s
        },
        None => s,
    }
}

/// What a listing shows.
pub enum Selection<'a> {
    /// These documents.
    Show(Vec<&'a Doc>),
    /// The query matched nothing.
    NoMatch,
    /// Let the user pick one of these (then apply the limit).
    Pick(Vec<&'a Doc>),
}

/// The documents of a listing: those with the status asked for, in the
/// order asked for; then the one the query names (the query failing when
/// none does), or all of them for the user to pick from, or all of them;
/// at most `limit` of those shown.
pub open spec fn selection_ok(ds: Seq<DocV>, o: OptsV, r: Selection) -> bool {
    let f = stable_sort(keep_status(ds, o.status_filter), o.sort);
    match o.query {
        Some(q) => match find_doc_s(f, q) {
            Some(i) => r matches Selection::Show(v) && ref_views(v@) == limited(seq![f[i]], o.limit),
            None => r is NoMatch,
        },
        None => if o.interactive {
            r matches Selection::Pick(v) && ref_views(v@) == f
        } else {
            r matches Selection::Show(v) && ref_views(v@) == limited(f, o.limit)
        },
    }
}

/// Selects what a listing shows (see [`selection_ok`]).
pub fn select_docs<'a>(docs: &'a [Doc], options: &ListOptions) -> (r: Selection<'a>)
    requires
        options.sort == SortMode::Progress ==> all_fit(doc_views(docs@)),
    ensures
        selection_ok(doc_views(docs@), options@, r),
{
    let status = match &options.status_filter {
        Some(s) => Some(s.as_str()),
        None => None,
    };
    let mut filtered = filter_by_status(docs, status);
    proof {
        assert(status matches Some(f) ==> f@ == options@.status_filter.unwrap());
        if options.sort == SortMode::Progress {
            lemma_keep_status_fit(doc_views(docs@), options@.status_filter);
        }
    }
    sort_docs(&mut filtered, options.sort);
    match &options.query {
        Some(q) => match find_doc(&filtered, q.as_str()) {
            Some(d) => {
                let mut one: Vec<&Doc> = Vec::new();
                one.push(d);
                assert(ref_views(one@) =~= seq![d@]);
                apply_limit(&mut one, options.limit);
                assert(ref_views(one@) =~= limited(seq![d@], options.limit));
                Selection::Show(one)
            },
            None => Selection::NoMatch,
        },
        None => {
            if options.interactive {
                Selection::Pick(filtered)
            } else {
                let ghost before = filtered@;
                apply_limit(&mut filtered, options.limit);
                assert(ref_views(filtered@) =~= limited(ref_views(before), options.limit));
                Selection::Show(filtered)
            }
        },
    }
}

proof fn lemma_keep_status_fit(ds: Seq<DocV>, filter: Option<Seq<char>>)
    requires
        all_fit(ds),
    ensures
        all_fit(keep_status(ds, filter)),
    decreases ds.len(),
{
    if ds.len() > 0 {
        lemma_keep_status_fit(ds.drop_last(), filter);
        let rest = keep_status(ds.drop_last(), filter);
        assert(tasks_fit(ds[ds.len() - 1].phases));
        assert forall|i: int| 0 <= i < rest.len() + 1 && i < keep_status(ds, filter).len() implies tasks_fit(
            #[trigger] keep_status(ds, filter)[i].phases,
        ) by {
            if i < rest.len() {
                assert(keep_status(ds, filter)[i] == rest[i]);
            }
        }
    }
}

// ── Picking one interactively ───────────────────────────────────────

/// What a line typed at the pick prompt chooses among `n` documents.
#[derive(Clone, Copy, Debug, PartialEq, Eq, Structural)]
pub enum PickChoice {
    /// Nothing typed: pick nothing.
    Cancel,
    /// The document at this index.
    Chosen(usize),
    /// Not a number of a listed document.
    Invalid,
}

/// The choice a typed line makes: nothing after trimming cancels; a number
/// `k` picks the `k`-th document (0 also picks the first); anything else,
/// or a number past the list, is invalid.
pub open spec fn pick_choice_s(input: Seq<char>, n: nat) -> PickChoice {
    let t = crate::text::trim_s(input);
    if t.len() == 0 {
        PickChoice::Cancel
    } else {
        match crate::text::parse_usize_s(t) {
            Some(k) => if (if k > 0 {
                k - 1
            } else {
                0
            }) < n {
                PickChoice::Chosen(
                    if k > 0 {
                        (k - 1) as usize
                    } else {
                        0
                    },
                )
            } else {
                PickChoice::Invalid
            },
            None => PickChoice::Invalid,
        }
    }
}

pub fn pick_choice(input: &str, n: usize) -> (r: PickChoice)
    ensures
        r == pick_choice_s(input@, n as nat),
{
    let t = crate::text::trim(&chars_of(input));
    if t.len() == 0 {
        return PickChoice::Cancel;
    }
    match crate::text::parse_usize(&t) {
        Some(k) => {
            let i: usize = if k > 0 {
                k - 1
            } else {
                0
            };
            if i < n {
                PickChoice::Chosen(i)
            } else {
                PickChoice::Invalid
            }
        },
        None => PickChoice::Invalid,
    }
}

} // verus!

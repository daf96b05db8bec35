//! The argument lists the front end hands to the built-in plugins, built
//! from the parsed command line.
use vstd::prelude::*;
use crate::cli::{
    DocsArgs, DocsCommand, DocsDetails, DocsListArgs, DocsSort, HealthArgs, HealthCommand,
    ListArgsV, PluginsArgs, PluginsCommand, PromptArgs, PromptCommand, PromptListArgs, SkillsArgs,
    SkillsCommand, UlidArgs,
};
use crate::args::{has_arg, is_flag, wants_help_s};
use crate::docs::model::{parse_kind_s, DocKind};
use crate::docs::overview::{docs_action_ok, first_non_flag, DocsAction};
use crate::prompt::{prompt_action_ok, tag_arg_from, PromptAction};
use crate::skills::{skills_action_ok, SkillsAction};
use crate::ulid::count_from;
use crate::docs::select::{
    default_opts, lemma_opts_concat, list_options_s, opts_from, DetailsMode, OptsV, SortMode,
};
use crate::text::{
    dec, is_digit, law_dec_parses, lemma_dec_digits, lowercase_s, opt_view, owned, strings_view,
    usize_to_string,
};

verus! {

fn strs(items: &[&str]) -> (r: Vec<String>)
    ensures
        strings_view(r@) == items@.map_values(|s: &str| s@),
{
    let mut out: Vec<String> = Vec::new();
    let mut i: usize = 0;
    while i < items.len()
        invariant
            i <= items.len(),
            strings_view(out@) == items@.map_values(|s: &str| s@).take(i as int),
        decreases items.len() - i,
    {
        let ghost b = strings_view(out@);
        out.push(owned(items[i]));
        assert(strings_view(out@) =~= b.push(items@[i as int]@));
        assert(items@.map_values(|s: &str| s@).take(i + 1) =~= items@.map_values(|s: &str| s@).take(
            i as int,
        ).push(items@[i as int]@));
        i += 1;
    }
    assert(items@.map_values(|s: &str| s@).take(items.len() as int) =~= items@.map_values(
        |s: &str| s@,
    ));
    out
}

fn push_str(v: &mut Vec<String>, s: &str)
    ensures
        strings_view(final(v)@) == strings_view(old(v)@).push(s@),
{
    let ghost b = strings_view(v@);
    v.push(owned(s));
    assert(strings_view(v@) =~= b.push(s@));
}

fn push_string(v: &mut Vec<String>, s: String)
    ensures
        strings_view(final(v)@) == strings_view(old(v)@).push(s@),
{
    let ghost b = strings_view(v@);
    v.push(s);
    assert(strings_view(v@) =~= b.push(s@));
}

// ── docs ────────────────────────────────────────────────────────────

pub open spec fn sort_name_s(m: DocsSort) -> Seq<char> {
    match m {
        DocsSort::Date => "date"@,
        DocsSort::Status => "status"@,
        DocsSort::Title => "title"@,
        DocsSort::Progress => "progress"@,
    }
}

pub open spec fn details_name_s(d: DocsDetails) -> Seq<char> {
    match d {
        DocsDetails::Off => "none"@,
        DocsDetails::Incomplete => "incomplete"@,
        DocsDetails::All => "all"@,
    }
}

pub open spec fn opt_pair(flag: Seq<char>, v: Option<Seq<char>>) -> Seq<Seq<char>> {
    match v {
        Some(x) => seq![flag, x],
        None => seq![],
    }
}

pub open spec fn flag_if(flag: Seq<char>, b: bool) -> Seq<Seq<char>> {
    if b {
        seq![flag]
    } else {
        seq![]
    }
}

/// The listing arguments after the kind: the query, then `--status`,
/// `--sort`, `--limit`, `--details`, `--interactive` and `--json` when set.
pub open spec fn list_flags_s(f: ListArgsV, global_json: bool) -> Seq<Seq<char>> {
    query_part(f) + opt_pair("--status"@, f.status) + sort_part(f) + limit_part(f) + details_part(f)
        + flag_if("--interactive"@, f.interactive) + flag_if("--json"@, f.json || global_json)
}

pub open spec fn query_part(f: ListArgsV) -> Seq<Seq<char>> {
    match f.query {
        Some(q) => seq![q],
        None => seq![],
    }
}

pub open spec fn sort_part(f: ListArgsV) -> Seq<Seq<char>> {
    opt_pair(
        "--sort"@,
        match f.sort {
            Some(m) => Some(sort_name_s(m)),
            None => None,
        },
    )
}

pub open spec fn limit_part(f: ListArgsV) -> Seq<Seq<char>> {
    opt_pair(
        "--limit"@,
        match f.limit {
            Some(n) => Some(dec(n as nat)),
            None => None,
        },
    )
}

pub open spec fn details_part(f: ListArgsV) -> Seq<Seq<char>> {
    opt_pair(
        "--details"@,
        match f.details {
            Some(d) => Some(details_name_s(d)),
            None => None,
        },
    )
}

/// The arguments of a listing of kind `name`.
pub open spec fn list_args_s(name: Seq<char>, f: ListArgsV, global_json: bool) -> Seq<Seq<char>> {
    seq![name] + list_flags_s(f, global_json)
}

fn sort_name(m: DocsSort) -> (r: &'static str)
    ensures
        r@ == sort_name_s(m),
{
    match m {
        DocsSort::Date => "date",
        DocsSort::Status => "status",
        DocsSort::Title => "title",
        DocsSort::Progress => "progress",
    }
}

fn details_name(d: DocsDetails) -> (r: &'static str)
    ensures
        r@ == details_name_s(d),
{
    match d {
        DocsDetails::Off => "none",
        DocsDetails::Incomplete => "incomplete",
        DocsDetails::All => "all",
    }
}

fn push_opt_pair(v: &mut Vec<String>, flag: &str, val: Option<String>)
    ensures
        strings_view(final(v)@) == strings_view(old(v)@) + opt_pair(flag@, opt_view(val)),
{
    let ghost b = strings_view(v@);
    match val {
        Some(x) => {
            push_str(v, flag);
            push_string(v, x);
        },
        None => {},
    }
    assert(strings_view(v@) =~= b + opt_pair(flag@, opt_view(val)));
}

fn push_flag_if(v: &mut Vec<String>, flag: &str, b: bool)
    ensures
        strings_view(final(v)@) == strings_view(old(v)@) + flag_if(flag@, b),
{
    let ghost before = strings_view(v@);
    if b {
        push_str(v, flag);
    }
    assert(strings_view(v@) =~= before + flag_if(flag@, b));
}

fn push_query(v: &mut Vec<String>, f: &DocsListArgs)
    ensures
        strings_view(final(v)@) == strings_view(old(v)@) + query_part(f@),
{
    let ghost b = strings_view(v@);
    match &f.query {
        Some(q) => push_string(v, q.clone()),
        None => {},
    }
    assert(strings_view(v@) =~= b + query_part(f@));
}

fn push_status(v: &mut Vec<String>, f: &DocsListArgs)
    ensures
        strings_view(final(v)@) == strings_view(old(v)@) + opt_pair("--status"@, f@.status),
{
    let value = match &f.status {
        Some(x) => Some(x.clone()),
        None => None,
    };
    push_opt_pair(v, "--status", value);
}

fn push_sort(v: &mut Vec<String>, f: &DocsListArgs)
    ensures
        strings_view(final(v)@) == strings_view(old(v)@) + sort_part(f@),
{
    let value = match f.sort {
        Some(m) => Some(owned(sort_name(m))),
        None => None,
    };
    push_opt_pair(v, "--sort", value);
}

fn push_limit(v: &mut Vec<String>, f: &DocsListArgs)
    ensures
        strings_view(final(v)@) == strings_view(old(v)@) + limit_part(f@),
{
    let value = match f.limit {
        Some(n) => Some(usize_to_string(n)),
        None => None,
    };
    push_opt_pair(v, "--limit", value);
}

fn push_details(v: &mut Vec<String>, f: &DocsListArgs)
    ensures
        strings_view(final(v)@) == strings_view(old(v)@) + details_part(f@),
{
    let value = match f.details {
        Some(d) => Some(owned(details_name(d))),
        None => None,
    };
    push_opt_pair(v, "--details", value);
}

/// The arguments of a listing of kind `name` with `flags`.
pub fn list_args(name: &str, flags: DocsListArgs, global_json: bool) -> (r: Vec<String>)
    ensures
        strings_view(r@) == list_args_s(name@, flags@, global_json),
{
    let mut rest: Vec<String> = Vec::new();
    assert(strings_view(rest@) =~= Seq::<Seq<char>>::empty());
    push_query(&mut rest, &flags);
    assert(strings_view(rest@) =~= query_part(flags@));
    push_status(&mut rest, &flags);
    push_sort(&mut rest, &flags);
    push_limit(&mut rest, &flags);
    push_details(&mut rest, &flags);
    push_flag_if(&mut rest, "--interactive", flags.interactive);
    push_flag_if(&mut rest, "--json", flags.json || global_json);
    let ghost tail = strings_view(rest@);
    assert(tail == list_flags_s(flags@, global_json));
    let mut args: Vec<String> = Vec::new();
    push_str(&mut args, name);
    args.append(&mut rest);
    assert(strings_view(args@) =~= seq![name@] + tail);
    args
}

/// The sort mode a `--sort` flag asks for (by date when absent).
pub open spec fn sort_mode_of(s: Option<DocsSort>) -> SortMode {
    match s {
        Some(DocsSort::Date) => SortMode::Date,
        Some(DocsSort::Status) => SortMode::Status,
        Some(DocsSort::Title) => SortMode::Title,
        Some(DocsSort::Progress) => SortMode::Progress,
        None => SortMode::Date,
    }
}

/// The detail level a `--details` flag asks for (none when absent).
pub open spec fn details_mode_of(d: Option<DocsDetails>) -> DetailsMode {
    match d {
        Some(DocsDetails::Off) => DetailsMode::Off,
        Some(DocsDetails::Incomplete) => DetailsMode::Incomplete,
        Some(DocsDetails::All) => DetailsMode::All,
        None => DetailsMode::Off,
    }
}

/// The listing options the parsed flags stand for.
pub open spec fn options_of(f: ListArgsV, global_json: bool) -> OptsV {
    OptsV {
        query: f.query,
        status_filter: match f.status {
            Some(s) => Some(lowercase_s(s)),
            None => None,
        },
        json_output: f.json || global_json,
        sort: sort_mode_of(f.sort),
        limit: f.limit,
        details: details_mode_of(f.details),
        interactive: f.interactive,
    }
}

/// A query that the listing parser takes as a query (not as a flag).
pub open spec fn plain_query(f: ListArgsV) -> bool {
    match f.query {
        Some(q) => !is_flag(q),
        None => true,
    }
}

/// Interactive choice goes with neither JSON nor a query.
pub open spec fn interactive_ok(f: ListArgsV, global_json: bool) -> bool {
    f.interactive ==> !(f.json || global_json) && f.query is None
}

proof fn lemma_reveal_flags()
    ensures
        "--json"@ =~= seq!['-', '-', 'j', 's', 'o', 'n'],
        "--interactive"@ =~= seq!['-', '-', 'i', 'n', 't', 'e', 'r', 'a', 'c', 't', 'i', 'v', 'e'],
        "--status"@ =~= seq!['-', '-', 's', 't', 'a', 't', 'u', 's'],
        "--sort"@ =~= seq!['-', '-', 's', 'o', 'r', 't'],
        "--limit"@ =~= seq!['-', '-', 'l', 'i', 'm', 'i', 't'],
        "--details"@ =~= seq!['-', '-', 'd', 'e', 't', 'a', 'i', 'l', 's'],
        "date"@ =~= seq!['d', 'a', 't', 'e'],
        "status"@ =~= seq!['s', 't', 'a', 't', 'u', 's'],
        "title"@ =~= seq!['t', 'i', 't', 'l', 'e'],
        "progress"@ =~= seq!['p', 'r', 'o', 'g', 'r', 'e', 's', 's'],
        "none"@ =~= seq!['n', 'o', 'n', 'e'],
        "incomplete"@ =~= seq!['i', 'n', 'c', 'o', 'm', 'p', 'l', 'e', 't', 'e'],
        "all"@ =~= seq!['a', 'l', 'l'],
{
    reveal_strlit("--json");
    reveal_strlit("--interactive");
    reveal_strlit("--status");
    reveal_strlit("--sort");
    reveal_strlit("--limit");
    reveal_strlit("--details");
    reveal_strlit("date");
    reveal_strlit("status");
    reveal_strlit("title");
    reveal_strlit("progress");
    reveal_strlit("none");
    reveal_strlit("incomplete");
    reveal_strlit("all");
}

proof fn lemma_read_query(f: ListArgsV, acc: OptsV)
    requires
        plain_query(f),
        acc.query is None,
    ensures
        opts_from(query_part(f), 0, acc) == Ok::<OptsV, Seq<char>>(OptsV { query: f.query, ..acc }),
{
    lemma_reveal_flags();
    let q = query_part(f);
    match f.query {
        Some(x) => {
            assert(q[0] == x);
            assert(opts_from(q, 1, OptsV { query: f.query, ..acc }) == Ok::<OptsV, Seq<char>>(
                OptsV { query: f.query, ..acc },
            ));
        },
        None => {
            assert(OptsV { query: f.query, ..acc } == acc);
        },
    }
}

proof fn lemma_read_status(f: ListArgsV, acc: OptsV)
    requires
        f.status is Some || acc.status_filter is None,
    ensures
        opts_from(opt_pair("--status"@, f.status), 0, acc) == Ok::<OptsV, Seq<char>>(
            OptsV { status_filter: options_of(f, false).status_filter, ..acc },
        ),
{
    lemma_reveal_flags();
    let p = opt_pair("--status"@, f.status);
    let o = OptsV { status_filter: options_of(f, false).status_filter, ..acc };
    match f.status {
        Some(x) => {
            assert(p[0] == "--status"@ && p[1] == x);
            assert(opts_from(p, 2, o) == Ok::<OptsV, Seq<char>>(o));
        },
        None => {
            assert(o == acc);
        },
    }
}

proof fn lemma_read_sort(f: ListArgsV, acc: OptsV)
    requires
        f.sort is Some || acc.sort == SortMode::Date,
    ensures
        opts_from(sort_part(f), 0, acc) == Ok::<OptsV, Seq<char>>(
            OptsV { sort: sort_mode_of(f.sort), ..acc },
        ),
{
    lemma_reveal_flags();
    let p = sort_part(f);
    let o = OptsV { sort: sort_mode_of(f.sort), ..acc };
    match f.sort {
        Some(m) => {
            assert(p[0] == "--sort"@ && p[1] == sort_name_s(m));
            assert(opts_from(p, 2, o) == Ok::<OptsV, Seq<char>>(o));
        },
        None => {
            assert(o == acc);
        },
    }
}

proof fn lemma_read_limit(f: ListArgsV, acc: OptsV)
    requires
        f.limit is Some || acc.limit is None,
    ensures
        opts_from(limit_part(f), 0, acc) == Ok::<OptsV, Seq<char>>(OptsV { limit: f.limit, ..acc }),
{
    lemma_reveal_flags();
    let p = limit_part(f);
    let o = OptsV { limit: f.limit, ..acc };
    match f.limit {
        Some(n) => {
            law_dec_parses(n);
            assert(p[0] == "--limit"@ && p[1] == dec(n as nat));
            assert(opts_from(p, 2, o) == Ok::<OptsV, Seq<char>>(o));
        },
        None => {
            assert(o == acc);
        },
    }
}

proof fn lemma_read_details(f: ListArgsV, acc: OptsV)
    requires
        f.details is Some || acc.details == DetailsMode::Off,
    ensures
        opts_from(details_part(f), 0, acc) == Ok::<OptsV, Seq<char>>(
            OptsV { details: details_mode_of(f.details), ..acc },
        ),
{
    lemma_reveal_flags();
    let p = details_part(f);
    let o = OptsV { details: details_mode_of(f.details), ..acc };
    match f.details {
        Some(m) => {
            assert(p[0] == "--details"@ && p[1] == details_name_s(m));
            assert(opts_from(p, 2, o) == Ok::<OptsV, Seq<char>>(o));
        },
        None => {
            assert(o == acc);
        },
    }
}

proof fn lemma_read_flag(flag: Seq<char>, b: bool, acc: OptsV)
    requires
        flag == "--json"@ || flag == "--interactive"@,
    ensures
        opts_from(flag_if(flag, b), 0, acc) == Ok::<OptsV, Seq<char>>(
            if !b {
                acc
            } else if flag == "--json"@ {
                OptsV { json_output: true, ..acc }
            } else {
                OptsV { interactive: true, ..acc }
            },
        ),
{
    lemma_reveal_flags();
    if b {
        let p = flag_if(flag, b);
        assert(p[0] == flag);
        if flag == "--json"@ {
            assert(opts_from(p, 1, OptsV { json_output: true, ..acc }) == Ok::<OptsV, Seq<char>>(
                OptsV { json_output: true, ..acc },
            ));
        } else {
            assert(opts_from(p, 1, OptsV { interactive: true, ..acc }) == Ok::<OptsV, Seq<char>>(
                OptsV { interactive: true, ..acc },
            ));
        }
    }
}

/// The listing flags that `repo docs <kind>` passes on are read back by the
/// docs plugin as the options they were parsed from: the status
/// lowercased, the sort and detail level by name, the limit as a number.
/// The query must not look like a flag, and `--interactive` must come
/// alone (the plugin rejects the other combinations).
pub proof fn law_list_flags_read_back(f: ListArgsV, global_json: bool)
    requires
        plain_query(f),
        interactive_ok(f, global_json),
    ensures
        list_options_s(list_flags_s(f, global_json)) == Ok::<OptsV, Seq<char>>(
            options_of(f, global_json),
        ),
{
    let d = default_opts();
    let q = query_part(f);
    let st = opt_pair("--status"@, f.status);
    let so = sort_part(f);
    let li = limit_part(f);
    let de = details_part(f);
    let it = flag_if("--interactive"@, f.interactive);
    let js = flag_if("--json"@, f.json || global_json);
    let o1 = OptsV { query: f.query, ..d };
    let o2 = OptsV { status_filter: options_of(f, false).status_filter, ..o1 };
    let o3 = OptsV { sort: sort_mode_of(f.sort), ..o2 };
    let o4 = OptsV { limit: f.limit, ..o3 };
    let o5 = OptsV { details: details_mode_of(f.details), ..o4 };
    let o6 = OptsV { interactive: f.interactive, ..o5 };
    let o7 = OptsV { json_output: f.json || global_json, ..o6 };
    lemma_reveal_flags();
    lemma_read_query(f, d);
    lemma_read_status(f, o1);
    lemma_read_sort(f, o2);
    lemma_read_limit(f, o3);
    lemma_read_details(f, o4);
    lemma_read_flag("--interactive"@, f.interactive, o5);
    lemma_read_flag("--json"@, f.json || global_json, o6);
    assert(o6 == (if !f.interactive {
        o5
    } else {
        OptsV { interactive: true, ..o5 }
    }));
    assert(o7 == (if !(f.json || global_json) {
        o6
    } else {
        OptsV { json_output: true, ..o6 }
    }));
    lemma_opts_concat(q, st, d);
    assert(opts_from(q + st, 0, d) == Ok::<OptsV, Seq<char>>(o2));
    lemma_opts_concat(q + st, so, d);
    assert(opts_from(q + st + so, 0, d) == Ok::<OptsV, Seq<char>>(o3));
    lemma_opts_concat(q + st + so, li, d);
    assert(opts_from(q + st + so + li, 0, d) == Ok::<OptsV, Seq<char>>(o4));
    lemma_opts_concat(q + st + so + li, de, d);
    assert(opts_from(q + st + so + li + de, 0, d) == Ok::<OptsV, Seq<char>>(o5));
    lemma_opts_concat(q + st + so + li + de, it, d);
    assert(opts_from(q + st + so + li + de + it, 0, d) == Ok::<OptsV, Seq<char>>(o6));
    lemma_opts_concat(q + st + so + li + de + it, js, d);
    assert(opts_from(q + st + so + li + de + it + js, 0, d) == Ok::<OptsV, Seq<char>>(o7));
    assert(list_flags_s(f, global_json) == q + st + so + li + de + it + js);
    assert(o7 == options_of(f, global_json));
}

pub open spec fn kind_name_s(c: DocsCommand) -> Seq<char> {
    match c {
        DocsCommand::Plans(_) => "plans"@,
        DocsCommand::Designs(_) => "designs"@,
        DocsCommand::Adrs(_) => "adrs"@,
        DocsCommand::References(_) => "references"@,
    }
}

pub open spec fn kind_flags_s(c: DocsCommand) -> ListArgsV {
    match c {
        DocsCommand::Plans(f) => f@,
        DocsCommand::Designs(f) => f@,
        DocsCommand::Adrs(f) => f@,
        DocsCommand::References(f) => f@,
    }
}

/// The arguments `repo docs` hands to the docs plugin: a kind's listing,
/// or just `--json` for the overview.
pub open spec fn docs_args_s(cmd: DocsArgs, json: bool) -> Seq<Seq<char>> {
    match cmd.command {
        Some(c) => list_args_s(kind_name_s(c), kind_flags_s(c), json),
        None => flag_if("--json"@, json),
    }
}

/// The arguments for the docs plugin (see [`docs_args_s`]).
pub fn docs_args(cmd: DocsArgs, json: bool) -> (r: Vec<String>)
    ensures
        strings_view(r@) == docs_args_s(cmd, json),
{
    match cmd.command {
        Some(DocsCommand::Plans(flags)) => list_args("plans", flags, json),
        Some(DocsCommand::Designs(flags)) => list_args("designs", flags, json),
        Some(DocsCommand::Adrs(flags)) => list_args("adrs", flags, json),
        Some(DocsCommand::References(flags)) => list_args("references", flags, json),
        None => {
            let mut args: Vec<String> = Vec::new();
            if json {
                push_str(&mut args, "--json");
            }
            assert(strings_view(args@) =~= flag_if("--json"@, json));
            args
        },
    }
}

/// The kind a docs subcommand lists.
pub open spec fn kind_of(c: DocsCommand) -> DocKind {
    match c {
        DocsCommand::Plans(_) => DocKind::Plans,
        DocsCommand::Designs(_) => DocKind::Designs,
        DocsCommand::Adrs(_) => DocKind::Adrs,
        DocsCommand::References(_) => DocKind::References,
    }
}

/// No argument asks for help.
pub open spec fn no_help(s: Seq<Seq<char>>) -> bool {
    forall|i: int| 0 <= i < s.len() ==> #[trigger] s[i] != "--help"@ && s[i] != "-h"@
}

/// The status filter is not itself `--help` or `-h`.
pub open spec fn status_not_help(f: ListArgsV) -> bool {
    f.status != Some("--help"@) && f.status != Some("-h"@)
}

proof fn lemma_no_help_concat(a: Seq<Seq<char>>, b: Seq<Seq<char>>)
    requires
        no_help(a),
        no_help(b),
    ensures
        no_help(a + b),
{
    assert forall|i: int| 0 <= i < (a + b).len() implies #[trigger] (a + b)[i] != "--help"@ && (a
        + b)[i] != "-h"@ by {
        if i < a.len() {
            assert((a + b)[i] == a[i]);
        } else {
            assert((a + b)[i] == b[i - a.len()]);
        }
    }
}

proof fn lemma_flags_no_help(f: ListArgsV, global_json: bool)
    requires
        plain_query(f),
        status_not_help(f),
    ensures
        no_help(list_flags_s(f, global_json)),
{
    lemma_reveal_flags();
    reveal_strlit("--help");
    reveal_strlit("-h");
    let q = query_part(f);
    let st = opt_pair("--status"@, f.status);
    let so = sort_part(f);
    let li = limit_part(f);
    let de = details_part(f);
    let it = flag_if("--interactive"@, f.interactive);
    let js = flag_if("--json"@, f.json || global_json);
    assert(no_help(q)) by {
        match f.query {
            Some(x) => {
                assert(q[0] == x);
                if x == "--help"@ || x == "-h"@ {
                    assert(x[0] == '-');
                }
            },
            None => {},
        }
    }
    assert(no_help(st)) by {
        if f.status is Some {
            assert(st[0] == "--status"@);
        }
    }
    assert(no_help(so)) by {
        if f.sort is Some {
            assert(so[0] == "--sort"@);
        }
    }
    assert(no_help(li)) by {
        match f.limit {
            Some(n) => {
                lemma_dec_digits(n as nat);
                assert(li[0] == "--limit"@ && li[1] == dec(n as nat));
                assert(is_digit(dec(n as nat)[0]));
            },
            None => {},
        }
    }
    assert(no_help(de)) by {
        if f.details is Some {
            assert(de[0] == "--details"@);
        }
    }
    assert(no_help(it)) by {
        if f.interactive {
            assert(it[0] == "--interactive"@);
        }
    }
    assert(no_help(js)) by {
        if f.json || global_json {
            assert(js[0] == "--json"@);
        }
    }
    lemma_no_help_concat(q, st);
    lemma_no_help_concat(q + st, so);
    lemma_no_help_concat(q + st + so, li);
    lemma_no_help_concat(q + st + so + li, de);
    lemma_no_help_concat(q + st + so + li + de, it);
    lemma_no_help_concat(q + st + so + li + de + it, js);
}

/// What `repo docs` runs: for a kind, the docs plugin lists that kind with
/// exactly the options given on the command line; without one it shows
/// the overview (as JSON when asked). The query must not look like a flag,
/// the status must not be `--help` or `-h`, and `--interactive` must come
/// alone.
pub proof fn law_docs_args_dispatch(cmd: DocsArgs, json: bool, act: DocsAction)
    requires
        docs_action_ok(docs_args_s(cmd, json), act),
        match cmd.command {
            Some(c) => plain_query(kind_flags_s(c)) && status_not_help(kind_flags_s(c))
                && interactive_ok(kind_flags_s(c), json),
            None => true,
        },
    ensures
        match cmd.command {
            Some(c) => act matches DocsAction::ListKind(k, rest) && k == kind_of(c) && list_options_s(
                strings_view(rest@),
            ) == Ok::<OptsV, Seq<char>>(options_of(kind_flags_s(c), json)),
            None => act == DocsAction::Overview(json),
        },
{
    reveal_strlit("--help");
    reveal_strlit("-h");
    reveal_strlit("--json");
    let args = docs_args_s(cmd, json);
    match cmd.command {
        Some(c) => {
            let f = kind_flags_s(c);
            let name = kind_name_s(c);
            reveal_strlit("plans");
            reveal_strlit("designs");
            reveal_strlit("adrs");
            reveal_strlit("references");
            lemma_flags_no_help(f, json);
            assert(no_help(seq![name]));
            lemma_no_help_concat(seq![name], list_flags_s(f, json));
            assert(args == seq![name] + list_flags_s(f, json));
            assert(!has_arg(args, "--help"@));
            assert(!has_arg(args, "-h"@));
            assert(args[0] == name);
            assert(first_non_flag(args) == Some(0int));
            assert(parse_kind_s(name) == Some(kind_of(c)));
            assert(args.skip(1) =~= list_flags_s(f, json));
            law_list_flags_read_back(f, json);
        },
        None => {
            if json {
                assert(args[0] == "--json"@);
                assert(first_non_flag(args.drop_first()) is None);
                assert(has_arg(args, "--json"@));
            } else {
                assert(!has_arg(args, "--json"@));
            }
            assert(no_help(args)) by {
                if json {
                    assert(args.len() == 1 && args[0] == "--json"@);
                    assert("--json"@[2] != "--help"@[2]);
                    assert("--json"@.len() != "-h"@.len());
                }
            }
            assert(!has_arg(args, "--help"@));
            assert(!has_arg(args, "-h"@));
        },
    }
}

// ── health ──────────────────────────────────────────────────────────

/// The arguments `repo health` hands to the health plugin.
pub open spec fn health_args_s(cmd: HealthArgs, json: bool) -> Seq<Seq<char>> {
    match cmd.command {
        Some(HealthCommand::Init) => seq!["init"@],
        Some(HealthCommand::Export) => seq!["export"@],
        None => flag_if("--verbose"@, cmd.verbose) + flag_if("--check-updates"@, cmd.check_updates)
            + flag_if("--json"@, json),
    }
}

pub fn health_args(cmd: &HealthArgs, json: bool) -> (r: Vec<String>)
    ensures
        strings_view(r@) == health_args_s(*cmd, json),
{
    let mut args: Vec<String> = Vec::new();
    match cmd.command {
        Some(HealthCommand::Init) => push_str(&mut args, "init"),
        Some(HealthCommand::Export) => push_str(&mut args, "export"),
        None => {
            if cmd.verbose {
                push_str(&mut args, "--verbose");
            }
            if cmd.check_updates {
                push_str(&mut args, "--check-updates");
            }
            if json {
                push_str(&mut args, "--json");
            }
        },
    }
    assert(strings_view(args@) =~= health_args_s(*cmd, json));
    args
}

// ── prompt ──────────────────────────────────────────────────────────

/// `list`, then `--tag T` and `--json` when set.
pub open spec fn prompt_list_args_s(tag: Option<Seq<char>>, json: bool) -> Seq<Seq<char>> {
    seq!["list"@] + opt_pair("--tag"@, tag) + flag_if("--json"@, json)
}

pub fn prompt_list_args(flags: PromptListArgs, json: bool) -> (r: Vec<String>)
    ensures
        strings_view(r@) == prompt_list_args_s(opt_view(flags.tag), json),
{
    let ghost t = opt_view(flags.tag);
    let mut args: Vec<String> = Vec::new();
    push_str(&mut args, "list");
    match flags.tag {
        Some(tag) => {
            push_str(&mut args, "--tag");
            push_string(&mut args, tag);
        },
        None => {},
    }
    if json {
        push_str(&mut args, "--json");
    }
    assert(strings_view(args@) =~= prompt_list_args_s(t, json));
    args
}

/// The arguments `repo prompt` hands to the prompt plugin: `init`, a
/// listing, the words of a prompt name, or a listing when only `--tag` or
/// `--json` was given.
pub open spec fn prompt_args_s(cmd: PromptArgs, json: bool) -> Seq<Seq<char>> {
    match cmd.command {
        Some(PromptCommand::Init) => seq!["init"@] + flag_if("--json"@, json),
        Some(PromptCommand::List(f)) => prompt_list_args_s(opt_view(f.tag), json),
        Some(PromptCommand::Show(values)) => strings_view(values@),
        None => if cmd.tag is Some || json {
            prompt_list_args_s(opt_view(cmd.tag), json)
        } else {
            seq![]
        },
    }
}

pub fn prompt_args(cmd: PromptArgs, json: bool) -> (r: Vec<String>)
    ensures
        strings_view(r@) == prompt_args_s(cmd, json),
{
    let PromptArgs { tag, command } = cmd;
    match command {
        Some(PromptCommand::Init) => {
            let mut args: Vec<String> = Vec::new();
            push_str(&mut args, "init");
            if json {
                push_str(&mut args, "--json");
            }
            assert(strings_view(args@) =~= seq!["init"@] + flag_if("--json"@, json));
            args
        },
        Some(PromptCommand::List(flags)) => prompt_list_args(flags, json),
        Some(PromptCommand::Show(values)) => values,
        None => {
            if tag.is_some() || json {
                prompt_list_args(PromptListArgs { tag }, json)
            } else {
                let args: Vec<String> = Vec::new();
                assert(strings_view(args@) =~= seq![]);
                args
            }
        },
    }
}

/// A listing built by `repo prompt list` reaches the prompt plugin as a
/// listing with the same JSON choice and the tag lowercased. The tag must
/// not itself be `--help`, `-h` or `--json`.
pub proof fn law_prompt_list_dispatch(tag: Option<Seq<char>>, json: bool, act: PromptAction)
    requires
        prompt_action_ok(prompt_list_args_s(tag, json), act),
        tag != Some("--help"@),
        tag != Some("-h"@),
        tag != Some("--json"@),
    ensures
        act matches PromptAction::List { json: j, tag: t } && j == json && opt_view(t) == match tag {
            Some(x) => Some(lowercase_s(x)),
            None => None,
        },
{
    reveal_strlit("list");
    reveal_strlit("init");
    reveal_strlit("--tag");
    reveal_strlit("--json");
    reveal_strlit("--help");
    reveal_strlit("-h");
    let args = prompt_list_args_s(tag, json);
    assert("--tag"@[2] != "--help"@[2] && "--tag"@[2] != "--json"@[2]);
    assert("--json"@[2] != "--help"@[2]);
    assert("list"@[0] != "--help"@[0] && "list"@[0] != "--json"@[0] && "list"@[0] != "-h"@[0]);
    assert("list"@[0] != "init"@[0]);
    assert(args[0] == "list"@);
    match tag {
        Some(x) => {
            assert(args[1] == "--tag"@ && args[2] == x);
            assert(tag_arg_from(args, 1) == Some(lowercase_s(x)));
        },
        None => {
            if json {
                assert(args[1] == "--json"@);
                assert(tag_arg_from(args, 1) is None);
            }
        },
    }
    assert(tag_arg_from(args, 0) == match tag {
        Some(x) => Some(lowercase_s(x)),
        None => None,
    });
    assert forall|i: int| 0 <= i < args.len() implies #[trigger] args[i] != "--help"@ && args[i]
        != "-h"@ && (args[i] == "--json"@ ==> json) by {
        if i == 0 {
        } else if tag is Some && i == 1 {
        } else if tag is Some && i == 2 {
        } else {
            assert(args[i] == "--json"@);
        }
    }
    if json {
        assert(args[args.len() - 1] == "--json"@);
    }
}

// ── skills ──────────────────────────────────────────────────────────

/// `name`, then `--json` when set.
pub open spec fn with_json_s(name: Seq<char>, json: bool) -> Seq<Seq<char>> {
    seq![name] + flag_if("--json"@, json)
}

pub fn with_json(name: &str, json: bool) -> (r: Vec<String>)
    ensures
        strings_view(r@) == with_json_s(name@, json),
{
    let mut args: Vec<String> = Vec::new();
    push_str(&mut args, name);
    if json {
        push_str(&mut args, "--json");
    }
    assert(strings_view(args@) =~= with_json_s(name@, json));
    args
}

/// The arguments `repo skills` hands to the skills plugin.
pub open spec fn skills_args_s(cmd: SkillsArgs, json: bool) -> Seq<Seq<char>> {
    match cmd.command {
        Some(SkillsCommand::Init) => seq!["init"@],
        Some(SkillsCommand::Export) => with_json_s("export"@, json),
        Some(SkillsCommand::Sync) => with_json_s("sync"@, json),
        Some(SkillsCommand::Install) => with_json_s("install"@, json),
        Some(SkillsCommand::Fix) => with_json_s("fix"@, json),
        Some(SkillsCommand::Deploy(d)) => seq!["deploy"@] + flag_if("--force"@, d.force) + flag_if(
            "--json"@,
            json,
        ),
        None => flag_if("--json"@, json),
    }
}

pub fn skills_args(cmd: SkillsArgs, json: bool) -> (r: Vec<String>)
    ensures
        strings_view(r@) == skills_args_s(cmd, json),
{
    match cmd.command {
        Some(SkillsCommand::Init) => {
            let v = strs(&["init"]);
            assert(strings_view(v@) =~= seq!["init"@]);
            v
        },
        Some(SkillsCommand::Export) => with_json("export", json),
        Some(SkillsCommand::Sync) => with_json("sync", json),
        Some(SkillsCommand::Install) => with_json("install", json),
        Some(SkillsCommand::Fix) => with_json("fix", json),
        Some(SkillsCommand::Deploy(flags)) => {
            let mut args: Vec<String> = Vec::new();
            push_str(&mut args, "deploy");
            if flags.force {
                push_str(&mut args, "--force");
            }
            if json {
                push_str(&mut args, "--json");
            }
            assert(strings_view(args@) =~= seq!["deploy"@] + flag_if("--force"@, flags.force)
                + flag_if("--json"@, json));
            args
        },
        None => {
            let mut args: Vec<String> = Vec::new();
            if json {
                push_str(&mut args, "--json");
            }
            assert(strings_view(args@) =~= flag_if("--json"@, json));
            args
        },
    }
}

// ── ulid ────────────────────────────────────────────────────────────

/// The arguments `repo ulid` hands to the ulid plugin: `-n N` unless `N`
/// is 1, then `--json` when set.
pub open spec fn ulid_args_s(count: usize, json: bool) -> Seq<Seq<char>> {
    (if count == 1 {
        seq![]
    } else {
        seq!["-n"@, dec(count as nat)]
    }) + flag_if("--json"@, json)
}

pub fn ulid_args(cmd: &UlidArgs, json: bool) -> (r: Vec<String>)
    ensures
        strings_view(r@) == ulid_args_s(cmd.count, json),
{
    let mut args: Vec<String> = Vec::new();
    if cmd.count != 1 {
        push_str(&mut args, "-n");
        push_string(&mut args, usize_to_string(cmd.count));
    }
    if json {
        push_str(&mut args, "--json");
    }
    assert(strings_view(args@) =~= ulid_args_s(cmd.count, json));
    args
}

// ── plugins ─────────────────────────────────────────────────────────

/// The plugins subcommand to run: listing unless one was named.
pub fn plugins_command(args: PluginsArgs) -> (r: PluginsCommand)
    ensures
        match args.command {
            Some(c) => r == c,
            None => r is List,
        },
{
    match args.command {
        Some(c) => c,
        None => PluginsCommand::List,
    }
}

/// The count `repo ulid -n N` passes on is read back by the ulid plugin as
/// `N`, with the same JSON choice and no request for help.
pub proof fn law_ulid_args_read_back(count: usize, json: bool)
    ensures
        count_from(ulid_args_s(count, json), 0) == count,
        has_arg(ulid_args_s(count, json), "--json"@) == json,
        !wants_help_s(ulid_args_s(count, json)),
{
    reveal_strlit("-n");
    reveal_strlit("--json");
    reveal_strlit("--help");
    reveal_strlit("-h");
    let args = ulid_args_s(count, json);
    assert("--json"@[2] != "--help"@[2] && "-n"@[1] != "-h"@[1]);
    assert("-n"@ != "--json"@ && "-n"@ != "--help"@);
    if count != 1 {
        law_dec_parses(count);
        lemma_dec_digits(count as nat);
        assert(args[0] == "-n"@ && args[1] == dec(count as nat));
        assert(is_digit(dec(count as nat)[0]));
    }
    assert forall|i: int| 0 <= i < args.len() implies #[trigger] args[i] != "--help"@ && args[i]
        != "-h"@ && (args[i] == "--json"@ ==> json) by {
        if count != 1 && i == 1 {
            assert(is_digit(dec(count as nat)[0]));
        } else if count != 1 && i == 0 {
        } else {
            assert(args[i] == "--json"@);
        }
    }
    if json {
        assert(args[args.len() - 1] == "--json"@);
    }
    if count == 1 {
        if json {
            assert(count_from(args, 1) == 1);
        }
    }
}

/// What `repo skills` runs is the subcommand given on the command line,
/// with the same JSON and force choices.
pub proof fn law_skills_args_dispatch(cmd: SkillsArgs, json: bool, act: SkillsAction)
    requires
        skills_action_ok(skills_args_s(cmd, json), act),
    ensures
        match cmd.command {
            Some(SkillsCommand::Init) => act is Init,
            Some(SkillsCommand::Export) => act == SkillsAction::Export { json },
            Some(SkillsCommand::Sync) => act == SkillsAction::Sync { json },
            Some(SkillsCommand::Install) => act == SkillsAction::Install { json },
            Some(SkillsCommand::Fix) => act == SkillsAction::Fix { json },
            Some(SkillsCommand::Deploy(d)) => act == SkillsAction::Deploy { force: d.force },
            None => act == SkillsAction::Check { json },
        },
{
    reveal_strlit("init");
    reveal_strlit("export");
    reveal_strlit("sync");
    reveal_strlit("install");
    reveal_strlit("fix");
    reveal_strlit("deploy");
    reveal_strlit("--json");
    reveal_strlit("--force");
    reveal_strlit("--help");
    reveal_strlit("-h");
    reveal_strlit("-f");
    let args = skills_args_s(cmd, json);
    assert("--json"@[2] != "--help"@[2] && "--force"@[2] != "--help"@[2] && "--force"@[2]
        != "--json"@[2]);
    assert("--json"@.len() != "-h"@.len() && "--force"@.len() != "-h"@.len() && "--json"@.len()
        != "-f"@.len() && "--force"@.len() != "-f"@.len());
    assert("init"@[0] != "export"@[0] && "init"@[0] != "sync"@[0] && "init"@[2] != "install"@[2]
        && "init"@[0] != "fix"@[0] && "init"@[0] != "deploy"@[0]);
    assert("export"@[0] != "sync"@[0] && "export"@[0] != "install"@[0] && "export"@[0]
        != "fix"@[0] && "export"@[0] != "deploy"@[0]);
    assert("sync"@[0] != "install"@[0] && "sync"@[0] != "fix"@[0] && "sync"@[0] != "deploy"@[0]);
    assert("install"@[0] != "fix"@[0] && "install"@[0] != "deploy"@[0]);
    assert("fix"@[0] != "deploy"@[0]);
    let names = seq!["init"@, "export"@, "sync"@, "install"@, "fix"@, "deploy"@];
    assert forall|k: int| 0 <= k < 6 implies (#[trigger] names[k])[0] != '-' && names[k] != "--help"@
        && names[k] != "-h"@ && names[k] != "--json"@ && names[k] != "--force"@ && names[k] != "-f"@ by {
        assert(names[k][0] != '-');
    }
    assert(names[0] == "init"@ && names[1] == "export"@ && names[2] == "sync"@ && names[3]
        == "install"@ && names[4] == "fix"@ && names[5] == "deploy"@);
    match cmd.command {
        Some(SkillsCommand::Init) => {
            assert(args =~= seq!["init"@]);
            assert(args[0] == names[0]);
        },
        Some(SkillsCommand::Export) => {
            assert(args[0] == names[1]);
            assert(json ==> args.len() == 2 && args[1] == "--json"@);
            assert(!json ==> args.len() == 1);
        },
        Some(SkillsCommand::Sync) => {
            assert(args[0] == names[2]);
            assert(json ==> args.len() == 2 && args[1] == "--json"@);
            assert(!json ==> args.len() == 1);
        },
        Some(SkillsCommand::Install) => {
            assert(args[0] == names[3]);
            assert(json ==> args.len() == 2 && args[1] == "--json"@);
            assert(!json ==> args.len() == 1);
        },
        Some(SkillsCommand::Fix) => {
            assert(args[0] == names[4]);
            assert(json ==> args.len() == 2 && args[1] == "--json"@);
            assert(!json ==> args.len() == 1);
        },
        Some(SkillsCommand::Deploy(d)) => {
            assert(args[0] == names[5]);
            assert forall|i: int| 1 <= i < args.len() implies #[trigger] args[i] == "--force"@ || args[i]
                == "--json"@ by {}
            assert(!has_arg(args, "-f"@));
            if d.force {
                assert(args[1] == "--force"@);
            } else {
                assert(!has_arg(args, "--force"@));
            }
        },
        None => {
            assert(json ==> args.len() == 1 && args[0] == "--json"@);
            assert(!json ==> args.len() == 0);
        },
    }
    assert(!has_arg(args, "--help"@));
    assert(!has_arg(args, "-h"@));
}

} // verus!

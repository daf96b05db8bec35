//! `repo ulid`: generating ULIDs.
use vstd::prelude::*;
use crate::args::{arg_views, contains_arg, has_arg, wants_help_s};
use crate::text::{chars_of, parse_usize, parse_usize_s, seq_eq, strings_view};

verus! {

/// The Crockford base32 alphabet that ULIDs are written in.
pub open spec fn is_ulid_char(c: char) -> bool {
    ('0' <= c && c <= '9') || ('A' <= c && c <= 'Z' && c != 'I' && c != 'L' && c != 'O' && c != 'U')
}

/// A ULID's text: 26 base32 characters, the first at most `7` (128 bits
/// fill 26 characters of 5 bits only with the top one holding 3).
pub open spec fn is_ulid_text(s: Seq<char>) -> bool {
    &&& s.len() == 26
    &&& forall|i: int| 0 <= i < 26 ==> is_ulid_char(#[trigger] s[i])
    &&& s[0] <= '7'
}

/// A fresh ULID for the current time (`ulid::Ulid::new`), as text
/// (`Ulid::to_string`). Trusted: the text is 26 characters of the Crockford
/// base32 alphabet, the first at most `7`, as the crate's encoder writes
/// it; which ULID comes out depends on the clock and a random source and is
/// not claimed.
#[verifier::external_body]
fn new_ulid() -> (r: String)
    ensures
        is_ulid_text(r@),
{
    ulid::Ulid::new().to_string()
}

/// What `serde_json::to_string_pretty` writes for a list of strings.
pub uninterp spec fn pretty_json_strings(v: Seq<Seq<char>>) -> Seq<char>;

/// A list of strings as pretty-printed JSON (`serde_json::to_string_pretty`
/// on a `Vec<String>`, which cannot fail). Trusted: the text is named by
/// [`pretty_json_strings`] on the same strings.
#[verifier::external_body]
fn json_string_list(v: &Vec<String>) -> (r: String)
    ensures
        r@ == pretty_json_strings(strings_view(v@)),
{
    serde_json::to_string_pretty(v).unwrap_or_else(|_| "[]".to_string())
}

/// The count after the first `-n` (counting from `i`), when that value
/// parses; 1 otherwise.
pub open spec fn count_from(args: Seq<Seq<char>>, i: nat) -> usize
    decreases args.len() - i,
{
    if i + 1 >= args.len() {
        1
    } else if args[i as int] == "-n"@ {
        match parse_usize_s(args[i + 1 as int]) {
            Some(n) => n,
            None => 1,
        }
    } else {
        count_from(args, i + 1)
    }
}

/// The number of ULIDs asked for: the value of the first `-n` that has one,
/// if it is a number; 1 otherwise.
pub fn parse_count(args: &[&str]) -> (r: usize)
    ensures
        r == count_from(arg_views(args@), 0),
{
    let ghost av = arg_views(args@);
    if args.len() < 2 {
        return 1;
    }
    let flag = chars_of("-n");
    let mut i: usize = 0;
    while i < args.len() - 1
        invariant
            args.len() >= 2,
            av == arg_views(args@),
            flag@ == "-n"@,
            count_from(av, 0) == count_from(av, i as nat),
        decreases args.len() - i,
    {
        assert(av[i as int] == args@[i as int]@);
        if seq_eq(&chars_of(args[i]), &flag) {
            assert(av[i + 1] == args@[i + 1]@);
            return match parse_usize(&chars_of(args[i + 1])) {
                Some(n) => n,
                None => 1,
            };
        }
        i += 1;
    }
    1
}

/// What `repo ulid <args>` does.
pub enum UlidRun {
    /// Print the usage.
    Help,
    /// Reject a count of zero (exit 1).
    ZeroCount,
    /// Print these lines: one ULID each, or the JSON list.
    Output(Vec<String>),
}

impl UlidRun {
    /// The exit status of the run.
    pub fn exit_code(&self) -> (r: i32)
        ensures
            r == (if self is ZeroCount {
                1i32
            } else {
                0i32
            }),
    {
        match self {
            UlidRun::ZeroCount => 1,
            _ => 0,
        }
    }
}

/// `count` fresh ULIDs.
pub fn generate(count: usize) -> (r: Vec<String>)
    ensures
        r.len() == count,
        forall|i: int| 0 <= i < count ==> is_ulid_text(#[trigger] r@[i]@),
{
    let mut out: Vec<String> = Vec::new();
    let mut i: usize = 0;
    while i < count
        invariant
            i <= count,
            out.len() == i,
            forall|j: int| 0 <= j < i ==> is_ulid_text(#[trigger] out@[j]@),
        decreases count - i,
    {
        out.push(new_ulid());
        i += 1;
    }
    out
}

/// The run of `repo ulid <args>`: help wins; a count of zero is an error;
/// otherwise that many ULIDs are printed, one per line or (with `--json`)
/// as a JSON list.
pub open spec fn ulid_run_ok(args: Seq<Seq<char>>, r: UlidRun) -> bool {
    if wants_help_s(args) {
        r is Help
    } else if count_from(args, 0) == 0 {
        r is ZeroCount
    } else {
        r matches UlidRun::Output(lines) && if has_arg(args, "--json"@) {
            lines.len() == 1 && exists|ids: Seq<Seq<char>>|
                ids.len() == count_from(args, 0) && (forall|i: int|
                    0 <= i < ids.len() ==> is_ulid_text(#[trigger] ids[i]))
                    && lines@[0]@ == pretty_json_strings(ids)
        } else {
            lines.len() == count_from(args, 0) && forall|i: int|
                0 <= i < lines.len() ==> is_ulid_text(#[trigger] lines@[i]@)
        }
    }
}

/// Runs `repo ulid <args>` up to the printing (see [`ulid_run_ok`]).
pub fn run(_repo_root: &str, args: &[&str]) -> (r: UlidRun)
    ensures
        ulid_run_ok(arg_views(args@), r),
{
    if crate::args::wants_help(args) {
        return UlidRun::Help;
    }
    let json = contains_arg(args, "--json");
    let count = parse_count(args);
    if count == 0 {
        return UlidRun::ZeroCount;
    }
    let values = generate(count);
    if json {
        let text = json_string_list(&values);
        let ghost ids = strings_view(values@);
        assert(forall|i: int| 0 <= i < ids.len() ==> ids[i] == values@[i]@);
        let mut lines: Vec<String> = Vec::new();
        lines.push(text);
        UlidRun::Output(lines)
    } else {
        UlidRun::Output(values)
    }
}

} // verus!

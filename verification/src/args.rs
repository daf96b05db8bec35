//! Command-line arguments as the subcommands see them: a slice of `&str`.
use vstd::prelude::*;
use crate::text::{chars_of, seq_eq};

verus! {

/// The arguments as character sequences.
pub open spec fn arg_views(args: Seq<&str>) -> Seq<Seq<char>> {
    args.map_values(|a: &str| a@)
}

/// Whether `a` is among the arguments.
pub open spec fn has_arg(args: Seq<Seq<char>>, a: Seq<char>) -> bool {
    exists|i: int| 0 <= i < args.len() && #[trigger] args[i] == a
}

/// Whether `--help` or `-h` was given.
pub open spec fn wants_help_s(args: Seq<Seq<char>>) -> bool {
    has_arg(args, "--help"@) || has_arg(args, "-h"@)
}

/// An argument that starts with `-`.
pub open spec fn is_flag(a: Seq<char>) -> bool {
    a.len() > 0 && a[0] == '-'
}

/// `args.contains(&lit)`.
pub fn contains_arg(args: &[&str], lit: &str) -> (r: bool)
    ensures
        r == has_arg(arg_views(args@), lit@),
{
    let l = chars_of(lit);
    let mut i: usize = 0;
    while i < args.len()
        invariant
            i <= args.len(),
            l@ == lit@,
            forall|j: int| 0 <= j < i ==> #[trigger] arg_views(args@)[j] != lit@,
        decreases args.len() - i,
    {
        assert(arg_views(args@)[i as int] == args@[i as int]@);
        if seq_eq(&chars_of(args[i]), &l) {
            return true;
        }
        i += 1;
    }
    false
}

/// Whether `--help` or `-h` was given.
pub fn wants_help(args: &[&str]) -> (r: bool)
    ensures
        r == wants_help_s(arg_views(args@)),
{
    contains_arg(args, "--help") || contains_arg(args, "-h")
}

/// Whether `a` starts with `-`.
pub fn starts_with_dash(a: &str) -> (r: bool)
    ensures
        r == is_flag(a@),
{
    let v = chars_of(a);
    v.len() > 0 && v[0] == '-'
}

} // verus!

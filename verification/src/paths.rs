//! File-name handling for the paths the scanners hand in.
use vstd::prelude::*;
use crate::text::{chars_of, seq_eq, string_of, subvec};

verus! {

/// What `Path::file_name` gives for the path `p`: its last normal
/// component, or nothing (for `/`, `..`, or an empty path).
pub uninterp spec fn path_file_name(p: Seq<char>) -> Option<Seq<char>>;

/// Index of the last `c` in `s`, or `-1`.
pub open spec fn last_index_of(s: Seq<char>, c: char) -> int
    decreases s.len(),
{
    if s.len() == 0 {
        -1
    } else if s.last() == c {
        s.len() - 1
    } else {
        last_index_of(s.drop_last(), c)
    }
}

/// The stem of a file name (`Path::file_stem` on that name): the part before
/// the last `.`, unless the only `.` leads the name or there is none.
pub open spec fn stem_of_name(n: Seq<char>) -> Seq<char> {
    if n == ".."@ {
        n
    } else {
        let i = last_index_of(n, '.');
        if i <= 0 {
            n
        } else {
            n.take(i)
        }
    }
}

/// `Path::file_stem` of the path `p`.
pub open spec fn path_file_stem(p: Seq<char>) -> Option<Seq<char>> {
    match path_file_name(p) {
        Some(n) => Some(stem_of_name(n)),
        None => None,
    }
}

/// A file name with every `-` replaced by a space (`str::replace('-', " ")`).
pub open spec fn dashes_to_spaces(s: Seq<char>) -> Seq<char> {
    s.map_values(|c: char| if c == '-' { ' ' } else { c })
}

/// The last component of `path` (`Path::file_name`), as text.
#[verifier::external_body]
pub fn file_name(path: &str) -> (r: Option<String>)
    ensures
        match r {
            Some(n) => path_file_name(path@) == Some(n@),
            None => path_file_name(path@) is None,
        },
{
    std::path::Path::new(path).file_name().map(|n| n.to_string_lossy().into_owned())
}

/// Index of the last `c` in `s`, or `-1`.
pub fn find_last(s: &[char], c: char) -> (r: Option<usize>)
    ensures
        match r {
            Some(k) => k < s.len() && k == last_index_of(s@, c),
            None => last_index_of(s@, c) == -1,
        },
{
    let mut i: usize = s.len();
    assert(s@.take(s.len() as int) =~= s@);
    while i > 0
        invariant
            i <= s.len(),
            last_index_of(s@, c) == last_index_of(s@.take(i as int), c),
        decreases i,
    {
        assert(s@.take(i as int).drop_last() =~= s@.take(i - 1));
        if s[i - 1] == c {
            return Some(i - 1);
        }
        i -= 1;
    }
    None
}

/// The stem of the file name `n`.
pub fn stem_of(n: &[char]) -> (r: Vec<char>)
    ensures
        r@ == stem_of_name(n@),
{
    if seq_eq(n, &chars_of("..")) {
        return subvec(n, 0, n.len());
    }
    match find_last(n, '.') {
        Some(i) if i > 0 => subvec(n, 0, i),
        _ => subvec(n, 0, n.len()),
    }
}

/// `Path::file_stem` of `path`.
pub fn file_stem(path: &str) -> (r: Option<String>)
    ensures
        match r {
            Some(s) => path_file_stem(path@) == Some(s@),
            None => path_file_stem(path@) is None,
        },
{
    match file_name(path) {
        Some(n) => {
            let nv = chars_of(n.as_str());
            let st = stem_of(&nv);
            Some(string_of(&st))
        },
        None => None,
    }
}

/// The file name of `path`, or empty (`file_name().unwrap_or_default()`).
pub fn file_name_or_empty(path: &str) -> (r: String)
    ensures
        r@ == (match path_file_name(path@) {
            Some(n) => n,
            None => Seq::<char>::empty(),
        }),
{
    match file_name(path) {
        Some(n) => n,
        None => String::new(),
    }
}

/// The stem of `path` with dashes turned into spaces, or empty.
pub fn stem_title(path: &str) -> (r: String)
    ensures
        r@ == dashes_to_spaces(
            match path_file_stem(path@) {
                Some(n) => n,
                None => Seq::<char>::empty(),
            },
        ),
{
    let stem = match file_stem(path) {
        Some(s) => chars_of(s.as_str()),
        None => Vec::new(),
    };
    let mut out: Vec<char> = Vec::new();
    let mut i: usize = 0;
    while i < stem.len()
        invariant
            i <= stem.len(),
            out@ == dashes_to_spaces(stem@.take(i as int)),
        decreases stem.len() - i,
    {
        out.push(if stem[i] == '-' { ' ' } else { stem[i] });
        i += 1;
        assert(out@ =~= dashes_to_spaces(stem@.take(i as int)));
    }
    assert(stem@.take(stem.len() as int) =~= stem@);
    string_of(&out)
}

} // verus!

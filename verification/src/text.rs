//! Character-level text utilities: a verified model of the handful of `str`
//! operations the parsers rely on (`lines`, `trim`, `find`, `split_once`, ...).
//!
//! Text is processed as `Vec<char>`; the spec side works on `Seq<char>`.
use vstd::prelude::*;

verus! {

// ── Specifications ──────────────────────────────────────────────────

/// Unicode `White_Space`, the property behind `char::is_whitespace`.
pub open spec fn is_ws(c: char) -> bool {
    let u = c as u32;
    (9 <= u && u <= 13) || u == 32 || u == 0x85 || u == 0xA0 || u == 0x1680 || (0x2000 <= u
        && u <= 0x200A) || u == 0x2028 || u == 0x2029 || u == 0x202F || u == 0x205F || u == 0x3000
}

/// `s` with leading whitespace removed (`str::trim_start`).
pub open spec fn trim_start_s(s: Seq<char>) -> Seq<char>
    decreases s.len(),
{
    if s.len() > 0 && is_ws(s[0]) {
        trim_start_s(s.drop_first())
    } else {
        s
    }
}

/// `s` with trailing whitespace removed (`str::trim_end`).
pub open spec fn trim_end_s(s: Seq<char>) -> Seq<char>
    decreases s.len(),
{
    if s.len() > 0 && is_ws(s.last()) {
        trim_end_s(s.drop_last())
    } else {
        s
    }
}

/// `str::trim`.
pub open spec fn trim_s(s: Seq<char>) -> Seq<char> {
    trim_end_s(trim_start_s(s))
}

/// `s` with every leading `c` removed (`str::trim_start_matches(c)`).
pub open spec fn strip_leading_s(s: Seq<char>, c: char) -> Seq<char>
    decreases s.len(),
{
    if s.len() > 0 && s[0] == c {
        strip_leading_s(s.drop_first(), c)
    } else {
        s
    }
}

/// `s` with every trailing `c` removed (`str::trim_end_matches(c)`).
pub open spec fn strip_trailing_s(s: Seq<char>, c: char) -> Seq<char>
    decreases s.len(),
{
    if s.len() > 0 && s.last() == c {
        strip_trailing_s(s.drop_last(), c)
    } else {
        s
    }
}

/// A comma-separated piece cleaned up: trimmed of whitespace, then of
/// double quotes, then of single quotes.
pub open spec fn clean_piece(t: Seq<char>) -> Seq<char> {
    trim_matches_s(trim_matches_s(trim_s(t), '"'), '\'')
}

/// `str::trim_matches(c)`: every leading and trailing `c` removed.
pub open spec fn trim_matches_s(s: Seq<char>, c: char) -> Seq<char> {
    strip_trailing_s(strip_leading_s(s, c), c)
}

/// Index of the first `c` in `s`, or `s.len()` when there is none.
pub open spec fn index_of(s: Seq<char>, c: char) -> int
    decreases s.len(),
{
    if s.len() == 0 {
        0
    } else if s[0] == c {
        0
    } else {
        1 + index_of(s.drop_first(), c)
    }
}

/// Index of the first occurrence of `p` in `s` (`str::find`).
pub open spec fn find_s(s: Seq<char>, p: Seq<char>) -> Option<int>
    decreases s.len(),
{
    if p.is_prefix_of(s) {
        Some(0)
    } else if s.len() == 0 {
        None
    } else {
        match find_s(s.drop_first(), p) {
            Some(k) => Some(k + 1),
            None => None,
        }
    }
}

/// A line without its `\r` terminator, if it had one.
pub open spec fn strip_cr(l: Seq<char>) -> Seq<char> {
    if l.len() > 0 && l.last() == '\r' {
        l.drop_last()
    } else {
        l
    }
}

/// `str::lines`: split at `\n`, drop a `\r` before it, no empty last line.
pub open spec fn lines_s(s: Seq<char>) -> Seq<Seq<char>>
    decreases s.len(),
{
    if s.len() == 0 {
        seq![]
    } else {
        let i = index_of(s, '\n');
        if i >= s.len() {
            seq![s]
        } else {
            proof {
                lemma_index_of_bounds(s, '\n');
            }
            seq![strip_cr(s.take(i))] + lines_s(s.skip(i + 1))
        }
    }
}

/// `str::split_once(c)`.
pub open spec fn split_once_s(s: Seq<char>, c: char) -> Option<(Seq<char>, Seq<char>)> {
    let i = index_of(s, c);
    if i >= s.len() {
        None
    } else {
        Some((s.take(i), s.skip(i + 1)))
    }
}

/// `str::split(c)`: the pieces between the occurrences of `c` (one more
/// piece than there are occurrences).
pub open spec fn split_s(s: Seq<char>, c: char) -> Seq<Seq<char>>
    decreases s.len(),
{
    let i = index_of(s, c);
    if i >= s.len() {
        seq![s]
    } else {
        proof {
            lemma_index_of_bounds(s, c);
        }
        seq![s.take(i)] + split_s(s.skip(i + 1), c)
    }
}

/// The end of the word that starts at `i`: the next whitespace or the end.
pub open spec fn word_end(s: Seq<char>, i: int) -> int
    decreases s.len() - i,
{
    if i < 0 || i >= s.len() || is_ws(s[i]) {
        i
    } else {
        word_end(s, i + 1)
    }
}

pub proof fn lemma_word_end(s: Seq<char>, i: int)
    requires
        0 <= i <= s.len(),
    ensures
        i <= word_end(s, i) <= s.len(),
        forall|j: int| i <= j < word_end(s, i) ==> !is_ws(#[trigger] s[j]),
        word_end(s, i) < s.len() ==> is_ws(s[word_end(s, i)]),
    decreases s.len() - i,
{
    if i < s.len() && !is_ws(s[i]) {
        lemma_word_end(s, i + 1);
    }
}

/// ASCII lowercase of one character.
pub open spec fn ascii_lower(c: char) -> char {
    if 'A' <= c && c <= 'Z' {
        ((c as u32) + 32) as char
    } else {
        c
    }
}

/// `str::eq_ignore_ascii_case`.
pub open spec fn eq_ignore_ascii_case_s(a: Seq<char>, b: Seq<char>) -> bool {
    a.len() == b.len() && forall|i: int| 0 <= i < a.len() ==> ascii_lower(a[i]) == ascii_lower(b[i])
}

/// Decimal digit character of `d < 10`.
pub open spec fn digit_char(d: nat) -> char {
    ((d + 48) as u32) as char
}

/// Decimal rendering of `n` (`usize`'s `Display`).
pub open spec fn dec(n: nat) -> Seq<char>
    decreases n,
{
    if n < 10 {
        seq![digit_char(n)]
    } else {
        dec(n / 10).push(digit_char(n % 10))
    }
}

/// Value of the decimal digits `s` (all ASCII digits).
pub open spec fn digits_value(s: Seq<char>) -> nat
    decreases s.len(),
{
    if s.len() == 0 {
        0
    } else {
        digits_value(s.drop_last()) * 10 + ((s.last() as u32) - 48) as nat
    }
}

pub open spec fn is_digit(c: char) -> bool {
    '0' <= c && c <= '9'
}

pub open spec fn all_digits(s: Seq<char>) -> bool {
    forall|i: int| 0 <= i < s.len() ==> is_digit(#[trigger] s[i])
}

/// `str::parse::<usize>`: an optional `+`, then at least one digit, in range.
pub open spec fn parse_usize_s(s: Seq<char>) -> Option<usize> {
    let d = if s.len() > 0 && s[0] == '+' {
        s.drop_first()
    } else {
        s
    };
    if d.len() > 0 && all_digits(d) && digits_value(d) <= usize::MAX {
        Some(digits_value(d) as usize)
    } else {
        None
    }
}

/// Strict lexicographic order of character sequences (the order of `str`).
pub open spec fn seq_lt(a: Seq<char>, b: Seq<char>) -> bool
    decreases a.len(),
{
    if a.len() == 0 {
        b.len() > 0
    } else if b.len() == 0 {
        false
    } else if a[0] != b[0] {
        a[0] < b[0]
    } else {
        seq_lt(a.drop_first(), b.drop_first())
    }
}

/// What `str::to_lowercase` returns for `s` (full Unicode case mapping).
pub uninterp spec fn lowercase_s(s: Seq<char>) -> Seq<char>;

/// The views of a sequence of character vectors.
pub open spec fn views(v: Seq<Vec<char>>) -> Seq<Seq<char>> {
    v.map_values(|x: Vec<char>| x@)
}

/// The view of an optional string.
pub open spec fn opt_view(o: Option<String>) -> Option<Seq<char>> {
    match o {
        Some(s) => Some(s@),
        None => None,
    }
}

/// The views of a sequence of strings.
pub open spec fn strings_view(v: Seq<String>) -> Seq<Seq<char>> {
    v.map_values(|s: String| s@)
}

// ── Lemmas ──────────────────────────────────────────────────────────

pub proof fn lemma_index_of(s: Seq<char>, c: char, k: int)
    requires
        0 <= k <= s.len(),
        forall|j: int| 0 <= j < k ==> s[j] != c,
        k < s.len() ==> s[k] == c,
    ensures
        index_of(s, c) == k,
    decreases s.len(),
{
    if s.len() > 0 && s[0] != c {
        assert forall|j: int| 0 <= j < k - 1 implies s.drop_first()[j] != c by {
            assert(s.drop_first()[j] == s[j + 1]);
        }
        lemma_index_of(s.drop_first(), c, k - 1);
    }
}

pub proof fn lemma_index_of_bounds(s: Seq<char>, c: char)
    ensures
        0 <= index_of(s, c) <= s.len(),
        forall|j: int| 0 <= j < index_of(s, c) ==> s[j] != c,
        index_of(s, c) < s.len() ==> s[index_of(s, c)] == c,
    decreases s.len(),
{
    if s.len() > 0 && s[0] != c {
        lemma_index_of_bounds(s.drop_first(), c);
        assert forall|j: int| 0 <= j < index_of(s, c) implies s[j] != c by {
            if j > 0 {
                assert(s[j] == s.drop_first()[j - 1]);
            }
        }
    }
}

pub proof fn lemma_seq_lt_irrefl(a: Seq<char>)
    ensures
        !seq_lt(a, a),
    decreases a.len(),
{
    if a.len() > 0 {
        lemma_seq_lt_irrefl(a.drop_first());
    }
}

pub proof fn lemma_seq_lt_trans(a: Seq<char>, b: Seq<char>, c: Seq<char>)
    requires
        seq_lt(a, b),
        seq_lt(b, c),
    ensures
        seq_lt(a, c),
    decreases a.len(),
{
    if a.len() > 0 && b.len() > 0 && c.len() > 0 && a[0] == b[0] && b[0] == c[0] {
        lemma_seq_lt_trans(a.drop_first(), b.drop_first(), c.drop_first());
    }
}

/// Two distinct sequences are ordered one way or the other.
pub proof fn lemma_seq_lt_total(a: Seq<char>, b: Seq<char>)
    ensures
        a == b || seq_lt(a, b) || seq_lt(b, a),
    decreases a.len(),
{
    if a.len() > 0 && b.len() > 0 && a[0] == b[0] {
        lemma_seq_lt_total(a.drop_first(), b.drop_first());
        if a.drop_first() == b.drop_first() {
            assert(a =~= seq![a[0]] + a.drop_first());
            assert(b =~= seq![b[0]] + b.drop_first());
        }
    } else if a.len() == 0 && b.len() == 0 {
        assert(a =~= b);
    }
}

pub proof fn lemma_seq_lt_asym(a: Seq<char>, b: Seq<char>)
    requires
        seq_lt(a, b),
    ensures
        !seq_lt(b, a),
{
    if seq_lt(b, a) {
        lemma_seq_lt_trans(a, b, a);
        lemma_seq_lt_irrefl(a);
    }
}

// ── Conversions ─────────────────────────────────────────────────────

/// The characters of `s`, in order.
pub fn chars_of(s: &str) -> (v: Vec<char>)
    ensures
        v@ == s@,
{
    let mut v: Vec<char> = Vec::new();
    for c in it: s.chars()
        invariant
            v@ == it.seq().take(it.index() as int),
    {
        v.push(c);
    }
    v
}

/// Appends one character (`String::push`).
#[verifier::external_body]
fn push_char(s: &mut String, c: char)
    ensures
        final(s)@ == old(s)@.push(c),
{
    s.push(c);
}

/// The string made of the characters `v`.
pub fn string_of(v: &[char]) -> (s: String)
    ensures
        s@ == v@,
{
    let mut s = String::new();
    let mut i: usize = 0;
    while i < v.len()
        invariant
            i <= v.len(),
            s@ == v@.take(i as int),
        decreases v.len() - i,
    {
        push_char(&mut s, v[i]);
        i += 1;
        assert(s@ =~= v@.take(i as int));
    }
    assert(v@.take(v.len() as int) =~= v@);
    s
}

/// An owned copy of `s` (`str::to_string`).
pub fn owned(s: &str) -> (r: String)
    ensures
        r@ == s@,
{
    s.to_owned()
}

/// The characters `s[a..b]`.
pub fn subvec(s: &[char], a: usize, b: usize) -> (r: Vec<char>)
    requires
        a <= b <= s.len(),
    ensures
        r@ == s@.subrange(a as int, b as int),
{
    let mut r: Vec<char> = Vec::new();
    let mut i = a;
    while i < b
        invariant
            a <= i <= b <= s.len(),
            r@ == s@.subrange(a as int, i as int),
        decreases b - i,
    {
        r.push(s[i]);
        i += 1;
        assert(r@ =~= s@.subrange(a as int, i as int));
    }
    r
}

/// `a` followed by `b`.
pub fn concat(a: &[char], b: &[char]) -> (r: Vec<char>)
    ensures
        r@ == a@ + b@,
{
    let mut r = subvec(a, 0, a.len());
    let mut i: usize = 0;
    assert(a@.subrange(0, a@.len() as int) =~= a@);
    while i < b.len()
        invariant
            i <= b.len(),
            r@ == a@ + b@.take(i as int),
        decreases b.len() - i,
    {
        r.push(b[i]);
        i += 1;
        assert(r@ =~= a@ + b@.take(i as int));
    }
    assert(b@.take(b.len() as int) =~= b@);
    r
}

/// Lowercases `s` with `str::to_lowercase` (full Unicode case mapping).
#[verifier::external_body]
pub fn to_lowercase(s: &[char]) -> (r: Vec<char>)
    ensures
        r@ == lowercase_s(s@),
{
    let owned: String = s.iter().collect();
    owned.to_lowercase().chars().collect()
}

// ── Predicates and searches ─────────────────────────────────────────

pub fn is_whitespace(c: char) -> (b: bool)
    ensures
        b == is_ws(c),
{
    let u = c as u32;
    (9 <= u && u <= 13) || u == 32 || u == 0x85 || u == 0xA0 || u == 0x1680 || (0x2000 <= u
        && u <= 0x200A) || u == 0x2028 || u == 0x2029 || u == 0x202F || u == 0x205F || u == 0x3000
}

/// `a == b`.
pub fn seq_eq(a: &[char], b: &[char]) -> (r: bool)
    ensures
        r == (a@ == b@),
{
    if a.len() != b.len() {
        return false;
    }
    let mut i: usize = 0;
    while i < a.len()
        invariant
            a.len() == b.len(),
            i <= a.len(),
            forall|j: int| 0 <= j < i ==> a@[j] == b@[j],
        decreases a.len() - i,
    {
        if a[i] != b[i] {
            return false;
        }
        i += 1;
    }
    assert(a@ =~= b@);
    true
}

/// `s.starts_with(p)`.
pub fn starts_with(s: &[char], p: &[char]) -> (r: bool)
    ensures
        r == p@.is_prefix_of(s@),
{
    if p.len() > s.len() {
        return false;
    }
    let mut i: usize = 0;
    while i < p.len()
        invariant
            p.len() <= s.len(),
            i <= p.len(),
            forall|j: int| 0 <= j < i ==> p@[j] == s@[j],
        decreases p.len() - i,
    {
        if p[i] != s[i] {
            return false;
        }
        i += 1;
    }
    assert(s@.take(p@.len() as int) =~= p@);
    true
}

/// `s.ends_with(p)`.
pub fn ends_with(s: &[char], p: &[char]) -> (r: bool)
    ensures
        r == p@.is_suffix_of(s@),
{
    if p.len() > s.len() {
        return false;
    }
    let off = s.len() - p.len();
    let mut i: usize = 0;
    while i < p.len()
        invariant
            p.len() <= s.len(),
            off == s.len() - p.len(),
            i <= p.len(),
            forall|j: int| 0 <= j < i ==> p@[j] == s@[off + j],
        decreases p.len() - i,
    {
        if p[i] != s[off + i] {
            return false;
        }
        i += 1;
    }
    assert(s@.skip(off as int) =~= p@);
    true
}

/// `s.contains(c)`.
pub fn contains_char(s: &[char], c: char) -> (r: bool)
    ensures
        r == s@.contains(c),
{
    let mut i: usize = 0;
    while i < s.len()
        invariant
            i <= s.len(),
            forall|j: int| 0 <= j < i ==> s@[j] != c,
        decreases s.len() - i,
    {
        if s[i] == c {
            return true;
        }
        i += 1;
    }
    false
}

/// Index of the first `c` in `s`, or `s.len()`.
pub fn find_char(s: &[char], c: char) -> (i: usize)
    ensures
        i == index_of(s@, c),
{
    let mut i: usize = 0;
    while i < s.len()
        invariant
            i <= s.len(),
            forall|j: int| 0 <= j < i ==> s@[j] != c,
        decreases s.len() - i,
    {
        if s[i] == c {
            proof {
                lemma_index_of(s@, c, i as int);
            }
            return i;
        }
        i += 1;
    }
    proof {
        lemma_index_of(s@, c, i as int);
    }
    i
}

pub proof fn lemma_find_s_none(s: Seq<char>, p: Seq<char>)
    requires
        forall|k: int| 0 <= k <= s.len() ==> !p.is_prefix_of(#[trigger] s.skip(k)),
    ensures
        find_s(s, p) is None,
    decreases s.len(),
{
    assert(s.skip(0) =~= s);
    if s.len() > 0 {
        assert forall|k: int| 0 <= k <= s.drop_first().len() implies !p.is_prefix_of(
            #[trigger] s.drop_first().skip(k),
        ) by {
            assert(s.drop_first().skip(k) =~= s.skip(k + 1));
        }
        lemma_find_s_none(s.drop_first(), p);
    }
}

pub proof fn lemma_find_s_some(s: Seq<char>, p: Seq<char>, k: int)
    requires
        0 <= k <= s.len(),
        forall|j: int| 0 <= j < k ==> !p.is_prefix_of(#[trigger] s.skip(j)),
        p.is_prefix_of(s.skip(k)),
    ensures
        find_s(s, p) == Some(k),
    decreases s.len(),
{
    assert(s.skip(0) =~= s);
    if k > 0 {
        assert forall|j: int| 0 <= j < k - 1 implies !p.is_prefix_of(
            #[trigger] s.drop_first().skip(j),
        ) by {
            assert(s.drop_first().skip(j) =~= s.skip(j + 1));
        }
        assert(s.drop_first().skip(k - 1) =~= s.skip(k));
        lemma_find_s_some(s.drop_first(), p, k - 1);
    }
}

/// `s.find(p)`: index of the first occurrence of `p`.
pub fn find(s: &[char], p: &[char]) -> (r: Option<usize>)
    ensures
        match r {
            Some(k) => find_s(s@, p@) == Some(k as int),
            None => find_s(s@, p@) is None,
        },
{
    let n = s.len();
    let mut k: usize = 0;
    loop
        invariant
            n == s.len(),
            k <= n,
            forall|j: int| 0 <= j < k ==> !p@.is_prefix_of(#[trigger] s@.skip(j)),
        ensures
            forall|j: int| 0 <= j <= n ==> !p@.is_prefix_of(#[trigger] s@.skip(j)),
        decreases n - k,
    {
        let mut ok = p.len() <= s.len() - k;
        let mut i: usize = 0;
        while ok && i < p.len()
            invariant
                k <= s.len(),
                i <= p.len(),
                ok ==> p.len() <= s.len() - k,
                ok ==> forall|j: int| 0 <= j < i ==> p@[j] == s@[k + j],
                !ok ==> !p@.is_prefix_of(s@.skip(k as int)),
            decreases p.len() - i,
        {
            if p[i] != s[k + i] {
                ok = false;
                assert(s@.skip(k as int)[i as int] == s@[k + i]);
            }
            i += 1;
        }
        if ok {
            assert(s@.skip(k as int).take(p@.len() as int) =~= p@);
            proof {
                lemma_find_s_some(s@, p@, k as int);
            }
            return Some(k);
        }
        if k == n {
            assert(!p@.is_prefix_of(s@.skip(k as int)));
            break;
        }
        k += 1;
    }
    proof {
        lemma_find_s_none(s@, p@);
    }
    None
}

// ── Trimming ────────────────────────────────────────────────────────

proof fn lemma_trim_start_step(s: Seq<char>, i: int)
    requires
        0 <= i < s.len(),
        is_ws(s[i]),
    ensures
        trim_start_s(s.skip(i)) == trim_start_s(s.skip(i + 1)),
{
    assert(s.skip(i).drop_first() =~= s.skip(i + 1));
}

proof fn lemma_trim_end_step(s: Seq<char>, i: int)
    requires
        0 < i <= s.len(),
        is_ws(s[i - 1]),
    ensures
        trim_end_s(s.take(i)) == trim_end_s(s.take(i - 1)),
{
    assert(s.take(i).drop_last() =~= s.take(i - 1));
}

/// `s.trim_start()`.
pub fn trim_start(s: &[char]) -> (r: Vec<char>)
    ensures
        r@ == trim_start_s(s@),
{
    let mut i: usize = 0;
    assert(s@.skip(0) =~= s@);
    while i < s.len() && is_whitespace(s[i])
        invariant
            i <= s.len(),
            trim_start_s(s@) == trim_start_s(s@.skip(i as int)),
        decreases s.len() - i,
    {
        proof {
            lemma_trim_start_step(s@, i as int);
        }
        i += 1;
    }
    assert(s@.skip(i as int) =~= s@.subrange(i as int, s.len() as int));
    subvec(s, i, s.len())
}

/// `s.trim_end()`.
pub fn trim_end(s: &[char]) -> (r: Vec<char>)
    ensures
        r@ == trim_end_s(s@),
{
    let mut i: usize = s.len();
    assert(s@.take(s.len() as int) =~= s@);
    while i > 0 && is_whitespace(s[i - 1])
        invariant
            i <= s.len(),
            trim_end_s(s@) == trim_end_s(s@.take(i as int)),
        decreases i,
    {
        proof {
            lemma_trim_end_step(s@, i as int);
        }
        i -= 1;
    }
    assert(s@.take(i as int) =~= s@.subrange(0, i as int));
    subvec(s, 0, i)
}

/// `s.trim()`.
pub fn trim(s: &[char]) -> (r: Vec<char>)
    ensures
        r@ == trim_s(s@),
{
    let t = trim_start(s);
    trim_end(&t)
}

/// `s.trim_start_matches(c)`.
pub fn strip_leading(s: &[char], c: char) -> (r: Vec<char>)
    ensures
        r@ == strip_leading_s(s@, c),
{
    let mut i: usize = 0;
    assert(s@.skip(0) =~= s@);
    while i < s.len() && s[i] == c
        invariant
            i <= s.len(),
            strip_leading_s(s@, c) == strip_leading_s(s@.skip(i as int), c),
        decreases s.len() - i,
    {
        assert(s@.skip(i as int).drop_first() =~= s@.skip(i + 1));
        i += 1;
    }
    assert(s@.skip(i as int) =~= s@.subrange(i as int, s.len() as int));
    subvec(s, i, s.len())
}

/// `s.trim_end_matches(c)`.
pub fn strip_trailing(s: &[char], c: char) -> (r: Vec<char>)
    ensures
        r@ == strip_trailing_s(s@, c),
{
    let mut i: usize = s.len();
    assert(s@.take(s.len() as int) =~= s@);
    while i > 0 && s[i - 1] == c
        invariant
            i <= s.len(),
            strip_trailing_s(s@, c) == strip_trailing_s(s@.take(i as int), c),
        decreases i,
    {
        assert(s@.take(i as int).drop_last() =~= s@.take(i - 1));
        i -= 1;
    }
    assert(s@.take(i as int) =~= s@.subrange(0, i as int));
    subvec(s, 0, i)
}

/// `s.trim_matches(c)`.
pub fn trim_matches(s: &[char], c: char) -> (r: Vec<char>)
    ensures
        r@ == trim_matches_s(s@, c),
{
    let t = strip_leading(s, c);
    strip_trailing(&t, c)
}

// ── Lines ───────────────────────────────────────────────────────────

proof fn lemma_lines_step(s: Seq<char>, start: int, i: int)
    requires
        0 <= start <= i < s.len(),
        s[i] == '\n',
        forall|j: int| start <= j < i ==> s[j] != '\n',
    ensures
        lines_s(s.skip(start)) == seq![strip_cr(s.subrange(start, i))] + lines_s(s.skip(i + 1)),
{
    let t = s.skip(start);
    assert forall|j: int| 0 <= j < i - start implies t[j] != '\n' by {
        assert(t[j] == s[start + j]);
    }
    lemma_index_of(t, '\n', i - start);
    assert(t.take(i - start) =~= s.subrange(start, i));
    assert(t.skip(i - start + 1) =~= s.skip(i + 1));
}

proof fn lemma_lines_last(s: Seq<char>, start: int)
    requires
        0 <= start <= s.len(),
        forall|j: int| start <= j < s.len() ==> s[j] != '\n',
    ensures
        start < s.len() ==> lines_s(s.skip(start)) == seq![s.skip(start)],
        start == s.len() ==> lines_s(s.skip(start)) == Seq::<Seq<char>>::empty(),
{
    let t = s.skip(start);
    if start < s.len() {
        assert forall|j: int| 0 <= j < t.len() implies t[j] != '\n' by {
            assert(t[j] == s[start + j]);
        }
        lemma_index_of(t, '\n', t.len() as int);
    } else {
        assert(t.len() == 0);
    }
}

/// `s.lines()`.
pub fn lines(s: &[char]) -> (r: Vec<Vec<char>>)
    ensures
        views(r@) == lines_s(s@),
{
    let mut r: Vec<Vec<char>> = Vec::new();
    let mut start: usize = 0;
    let mut i: usize = 0;
    assert(s@.skip(0) =~= s@);
    while i < s.len()
        invariant
            start <= i <= s.len(),
            forall|j: int| start <= j < i ==> s@[j] != '\n',
            lines_s(s@) == views(r@) + lines_s(s@.skip(start as int)),
        decreases s.len() - i,
    {
        if s[i] == '\n' {
            let mut line = subvec(s, start, i);
            if line.len() > 0 && line[line.len() - 1] == '\r' {
                line.pop();
            }
            proof {
                lemma_lines_step(s@, start as int, i as int);
            }
            let ghost old_r = views(r@);
            r.push(line);
            assert(views(r@) =~= old_r.push(strip_cr(s@.subrange(start as int, i as int))));
            assert(lines_s(s@) =~= views(r@) + lines_s(s@.skip(i + 1)));
            start = i + 1;
        }
        i += 1;
    }
    proof {
        lemma_lines_last(s@, start as int);
    }
    if start < s.len() {
        let line = subvec(s, start, s.len());
        let ghost old_r = views(r@);
        r.push(line);
        assert(s@.subrange(start as int, s.len() as int) =~= s@.skip(start as int));
        assert(views(r@) =~= old_r.push(s@.skip(start as int)));
        assert(lines_s(s@) =~= views(r@));
    } else {
        assert(lines_s(s@) =~= views(r@));
    }
    r
}

proof fn lemma_split_step(s: Seq<char>, c: char, start: int, i: int)
    requires
        0 <= start <= i < s.len(),
        s[i] == c,
        forall|j: int| start <= j < i ==> s[j] != c,
    ensures
        split_s(s.skip(start), c) == seq![s.subrange(start, i)] + split_s(s.skip(i + 1), c),
{
    let t = s.skip(start);
    assert forall|j: int| 0 <= j < i - start implies t[j] != c by {
        assert(t[j] == s[start + j]);
    }
    lemma_index_of(t, c, i - start);
    assert(t.take(i - start) =~= s.subrange(start, i));
    assert(t.skip(i - start + 1) =~= s.skip(i + 1));
}

proof fn lemma_split_last(s: Seq<char>, c: char, start: int)
    requires
        0 <= start <= s.len(),
        forall|j: int| start <= j < s.len() ==> s[j] != c,
    ensures
        split_s(s.skip(start), c) == seq![s.skip(start)],
{
    let t = s.skip(start);
    assert forall|j: int| 0 <= j < t.len() implies t[j] != c by {
        assert(t[j] == s[start + j]);
    }
    lemma_index_of(t, c, t.len() as int);
}

/// `s.split(c)`, collected.
pub fn split_char(s: &[char], c: char) -> (r: Vec<Vec<char>>)
    ensures
        views(r@) == split_s(s@, c),
{
    let mut r: Vec<Vec<char>> = Vec::new();
    let mut start: usize = 0;
    let mut i: usize = 0;
    assert(s@.skip(0) =~= s@);
    while i < s.len()
        invariant
            start <= i <= s.len(),
            forall|j: int| start <= j < i ==> s@[j] != c,
            split_s(s@, c) == views(r@) + split_s(s@.skip(start as int), c),
        decreases s.len() - i,
    {
        if s[i] == c {
            let piece = subvec(s, start, i);
            proof {
                lemma_split_step(s@, c, start as int, i as int);
            }
            let ghost old_r = views(r@);
            r.push(piece);
            assert(views(r@) =~= old_r.push(s@.subrange(start as int, i as int)));
            assert(split_s(s@, c) =~= views(r@) + split_s(s@.skip(i + 1), c));
            start = i + 1;
        }
        i += 1;
    }
    proof {
        lemma_split_last(s@, c, start as int);
    }
    let piece = subvec(s, start, s.len());
    let ghost old_r = views(r@);
    r.push(piece);
    assert(s@.subrange(start as int, s.len() as int) =~= s@.skip(start as int));
    assert(views(r@) =~= old_r.push(s@.skip(start as int)));
    assert(split_s(s@, c) =~= views(r@));
    r
}

/// `s.split_once(c)`.
pub fn split_once(s: &[char], c: char) -> (r: Option<(Vec<char>, Vec<char>)>)
    ensures
        match r {
            Some((a, b)) => split_once_s(s@, c) == Some((a@, b@)),
            None => split_once_s(s@, c) is None,
        },
{
    let i = find_char(s, c);
    if i >= s.len() {
        None
    } else {
        let a = subvec(s, 0, i);
        let b = subvec(s, i + 1, s.len());
        assert(a@ =~= s@.take(i as int));
        assert(b@ =~= s@.skip(i + 1));
        Some((a, b))
    }
}

// ── Case, numbers, order ────────────────────────────────────────────

pub fn ascii_lower_char(c: char) -> (r: char)
    ensures
        r == ascii_lower(c),
{
    if 'A' <= c && c <= 'Z' {
        let u = (c as u8) + 32;
        (u as char)
    } else {
        c
    }
}

/// `a.eq_ignore_ascii_case(b)`.
pub fn eq_ignore_ascii_case(a: &[char], b: &[char]) -> (r: bool)
    ensures
        r == eq_ignore_ascii_case_s(a@, b@),
{
    if a.len() != b.len() {
        return false;
    }
    let mut i: usize = 0;
    while i < a.len()
        invariant
            a.len() == b.len(),
            i <= a.len(),
            forall|j: int| 0 <= j < i ==> ascii_lower(a@[j]) == ascii_lower(b@[j]),
        decreases a.len() - i,
    {
        if ascii_lower_char(a[i]) != ascii_lower_char(b[i]) {
            return false;
        }
        i += 1;
    }
    true
}

/// Decimal rendering of `n`.
pub fn decimal(n: usize) -> (r: Vec<char>)
    ensures
        r@ == dec(n as nat),
    decreases n,
{
    let d = n % 10;
    let c = ((d as u8) + 48) as char;
    if n < 10 {
        let mut r = Vec::new();
        r.push(c);
        assert(r@ =~= seq![digit_char(n as nat)]);
        r
    } else {
        let mut r = decimal(n / 10);
        r.push(c);
        r
    }
}

/// Decimal rendering of `n` as a `String`.
pub fn usize_to_string(n: usize) -> (r: String)
    ensures
        r@ == dec(n as nat),
{
    let v = decimal(n);
    string_of(&v)
}

/// `s.parse::<usize>()`, as an `Option`.
pub fn parse_usize(s: &[char]) -> (r: Option<usize>)
    ensures
        r == parse_usize_s(s@),
{
    let start: usize = if s.len() > 0 && s[0] == '+' {
        1
    } else {
        0
    };
    let ghost d = s@.skip(start as int);
    assert(d =~= (if s@.len() > 0 && s@[0] == '+' {
        s@.drop_first()
    } else {
        s@
    }));
    if start >= s.len() {
        return None;
    }
    let mut acc: usize = 0;
    let mut i = start;
    while i < s.len()
        invariant
            start <= i <= s.len(),
            d == s@.skip(start as int),
            d == (if s@.len() > 0 && s@[0] == '+' {
                s@.drop_first()
            } else {
                s@
            }),
            all_digits(s@.subrange(start as int, i as int)),
            acc as nat == digits_value(s@.subrange(start as int, i as int)),
        decreases s.len() - i,
    {
        let c = s[i];
        assert(s@.subrange(start as int, i + 1).drop_last() =~= s@.subrange(
            start as int,
            i as int,
        ));
        if !('0' <= c && c <= '9') {
            assert(d[i - start] == c);
            assert(!all_digits(d)) by {
                assert(!is_digit(d[i - start]));
            }
            return None;
        }
        let v = (c as u32 - 48) as usize;
        if acc > (usize::MAX - v) / 10 {
            proof {
                let ds = s@.subrange(start as int, i + 1);
                assert(ds.drop_last() =~= s@.subrange(start as int, i as int));
                assert(digits_value(ds) == acc * 10 + v);
                assert(acc * 10 + v > usize::MAX) by (nonlinear_arith)
                    requires
                        acc > (usize::MAX - v) / 10,
                        v <= 9,
                ;
                if all_digits(d) {
                    lemma_digits_value_mono(d, i + 1 - start);
                    assert(d.take(i + 1 - start) =~= ds);
                    assert(digits_value(d) > usize::MAX);
                }
                assert(parse_usize_s(s@) is None);
            }
            return None;
        }
        acc = acc * 10 + v;
        i += 1;
        assert(all_digits(s@.subrange(start as int, i as int))) by {
            assert forall|j: int| 0 <= j < i - start implies is_digit(
                #[trigger] s@.subrange(start as int, i as int)[j],
            ) by {
                if j < i - 1 - start {
                    assert(s@.subrange(start as int, i as int)[j] == s@.subrange(
                        start as int,
                        i - 1,
                    )[j]);
                }
            }
        }
    }
    assert(s@.subrange(start as int, s.len() as int) =~= d);
    Some(acc)
}

/// The value of a digit prefix never exceeds that of a longer digit prefix.
pub proof fn lemma_digits_value_mono(d: Seq<char>, k: int)
    requires
        0 <= k <= d.len(),
        all_digits(d),
    ensures
        digits_value(d.take(k)) <= digits_value(d),
    decreases d.len() - k,
{
    if k < d.len() {
        lemma_digits_value_mono(d, k + 1);
        assert(d.take(k + 1).drop_last() =~= d.take(k));
        assert(is_digit(d[k]));
    } else {
        assert(d.take(k) =~= d);
    }
}

/// The decimal rendering of a number is all digits and reads back as the
/// number.
pub proof fn lemma_dec_digits(n: nat)
    ensures
        dec(n).len() > 0,
        all_digits(dec(n)),
        digits_value(dec(n)) == n,
    decreases n,
{
    if n < 10 {
        assert(digit_char(n) as u32 == n + 48) by {
            assert((n + 48) as u32 == n + 48);
        }
        assert(dec(n).drop_last() =~= Seq::<char>::empty());
        assert(digits_value(dec(n)) == digits_value(Seq::<char>::empty()) * 10 + n);
    } else {
        lemma_dec_digits(n / 10);
        let d = dec(n / 10).push(digit_char(n % 10));
        assert(d.drop_last() =~= dec(n / 10));
        assert(digit_char(n % 10) as u32 == n % 10 + 48) by {
            assert(((n % 10) + 48) as u32 == (n % 10) + 48);
        }
        assert forall|i: int| 0 <= i < d.len() implies is_digit(#[trigger] d[i]) by {
            if i < d.len() - 1 {
                assert(d[i] == dec(n / 10)[i]);
            }
        }
        assert((n / 10) * 10 + n % 10 == n) by (nonlinear_arith);
        assert(digits_value(d) == digits_value(dec(n / 10)) * 10 + n % 10);
    }
}

/// The decimal rendering of a `usize` parses back to it.
pub proof fn law_dec_parses(n: usize)
    ensures
        parse_usize_s(dec(n as nat)) == Some(n),
{
    lemma_dec_digits(n as nat);
    assert(dec(n as nat)[0] != '+') by {
        assert(is_digit(dec(n as nat)[0]));
    }
}

/// `a < b` in the order of `str`.
pub fn str_lt(a: &[char], b: &[char]) -> (r: bool)
    ensures
        r == seq_lt(a@, b@),
{
    let mut i: usize = 0;
    assert(a@.skip(0) =~= a@ && b@.skip(0) =~= b@);
    while i < a.len() && i < b.len() && a[i] == b[i]
        invariant
            i <= a.len(),
            i <= b.len(),
            seq_lt(a@, b@) == seq_lt(a@.skip(i as int), b@.skip(i as int)),
        decreases a.len() - i,
    {
        assert(a@.skip(i as int).drop_first() =~= a@.skip(i + 1));
        assert(b@.skip(i as int).drop_first() =~= b@.skip(i + 1));
        i += 1;
    }
    if i == a.len() {
        i < b.len()
    } else if i == b.len() {
        false
    } else {
        a[i] < b[i]
    }
}

} // verus!

verus! {

// ── UTF-8 lengths ───────────────────────────────────────────────────

/// Bytes `c` takes in UTF-8 (`char::len_utf8`).
pub open spec fn char_len(c: char) -> nat {
    let u = c as u32;
    if u < 0x80 {
        1
    } else if u < 0x800 {
        2
    } else if u < 0x10000 {
        3
    } else {
        4
    }
}

/// Bytes `s` takes in UTF-8 (`str::len`).
pub open spec fn utf8_len(s: Seq<char>) -> nat
    decreases s.len(),
{
    if s.len() == 0 {
        0
    } else {
        utf8_len(s.drop_last()) + char_len(s.last())
    }
}

/// `x`, capped at `usize::MAX`.
pub open spec fn sat(x: nat) -> nat {
    if x > usize::MAX {
        usize::MAX as nat
    } else {
        x
    }
}

/// The number of characters whose UTF-8 encoding is exactly the first `n`
/// bytes of `s` (searching from `k`), if byte `n` is a character boundary.
pub open spec fn boundary_from(s: Seq<char>, n: nat, k: int) -> Option<int>
    decreases s.len() + 1 - k,
{
    if k < 0 || k > s.len() {
        None
    } else if utf8_len(s.take(k)) == n {
        Some(k)
    } else {
        boundary_from(s, n, k + 1)
    }
}

pub fn char_len_of(c: char) -> (r: usize)
    ensures
        r == char_len(c),
{
    let u = c as u32;
    if u < 0x80 {
        1
    } else if u < 0x800 {
        2
    } else if u < 0x10000 {
        3
    } else {
        4
    }
}

pub fn sat_add(a: usize, b: usize) -> (r: usize)
    ensures
        r == sat((a + b) as nat),
{
    if a > usize::MAX - b {
        usize::MAX
    } else {
        a + b
    }
}

pub proof fn lemma_utf8_take_step(s: Seq<char>, k: int)
    requires
        0 <= k < s.len(),
    ensures
        utf8_len(s.take(k + 1)) == utf8_len(s.take(k)) + char_len(s[k]),
        utf8_len(s.take(k)) < utf8_len(s.take(k + 1)),
{
    assert(s.take(k + 1).drop_last() =~= s.take(k));
}

/// The UTF-8 length of `s`, capped at `usize::MAX`.
pub fn utf8_len_sat(s: &[char]) -> (r: usize)
    ensures
        r == sat(utf8_len(s@)),
{
    let mut off: usize = 0;
    let mut k: usize = 0;
    while k < s.len()
        invariant
            k <= s.len(),
            off == sat(utf8_len(s@.take(k as int))),
        decreases s.len() - k,
    {
        proof {
            lemma_utf8_take_step(s@, k as int);
        }
        off = sat_add(off, char_len_of(s[k]));
        k += 1;
    }
    assert(s@.take(s.len() as int) =~= s@);
    off
}

pub proof fn lemma_utf8_mono(s: Seq<char>, a: int, b: int)
    requires
        0 <= a <= b <= s.len(),
    ensures
        utf8_len(s.take(a)) <= utf8_len(s.take(b)),
        a < b ==> utf8_len(s.take(a)) < utf8_len(s.take(b)),
    decreases b - a,
{
    if a < b {
        lemma_utf8_mono(s, a, b - 1);
        lemma_utf8_take_step(s, b - 1);
    }
}

/// Where byte `n` of `s` falls between characters: the character count.
pub fn byte_boundary(s: &[char], n: usize) -> (r: Option<usize>)
    requires
        n < usize::MAX,
    ensures
        match r {
            Some(k) => k <= s.len() && boundary_from(s@, n as nat, 0) == Some(k as int),
            None => boundary_from(s@, n as nat, 0) is None,
        },
{
    let mut off: usize = 0;
    let mut k: usize = 0;
    while k <= s.len()
        invariant
            k <= s.len() + 1,
            n < usize::MAX,
            k <= s.len() ==> off == sat(utf8_len(s@.take(k as int))),
            boundary_from(s@, n as nat, 0) == boundary_from(s@, n as nat, k as int),
            k > s.len() ==> boundary_from(s@, n as nat, k as int) is None,
        decreases s.len() + 1 - k,
    {
        if off == n {
            assert(k <= s.len());
            assert(off == sat(utf8_len(s@.take(k as int))));
            assert(n < usize::MAX);
            assert(utf8_len(s@.take(k as int)) == n);
            assert(boundary_from(s@, n as nat, k as int) == Some(k as int));
            return Some(k);
        }
        if off > n {
            proof {
                lemma_boundary_none(s@, n as nat, k as int);
            }
            return None;
        }
        if k == s.len() {
            assert(boundary_from(s@, n as nat, k + 1) is None);
            return None;
        }
        proof {
            lemma_utf8_take_step(s@, k as int);
        }
        off = sat_add(off, char_len_of(s[k]));
        k += 1;
    }
    None
}

pub proof fn lemma_boundary_none(s: Seq<char>, n: nat, k: int)
    requires
        0 <= k <= s.len(),
        utf8_len(s.take(k)) > n,
    ensures
        boundary_from(s, n, k) is None,
    decreases s.len() + 1 - k,
{
    if k < s.len() {
        lemma_utf8_take_step(s, k);
        lemma_boundary_none(s, n, k + 1);
    } else {
        assert(boundary_from(s, n, k + 1) is None);
    }
}

/// A character takes at most four bytes.
pub proof fn lemma_utf8_le4(s: Seq<char>)
    ensures
        utf8_len(s) <= 4 * s.len(),
    decreases s.len(),
{
    if s.len() > 0 {
        lemma_utf8_le4(s.drop_last());
    }
}

/// The UTF-8 length of `s`, exactly (it always fits a `u128`).
pub fn utf8_len_wide(s: &[char]) -> (r: u128)
    ensures
        r == utf8_len(s@),
{
    let mut off: u128 = 0;
    let mut k: usize = 0;
    while k < s.len()
        invariant
            k <= s.len(),
            off == utf8_len(s@.take(k as int)),
        decreases s.len() - k,
    {
        proof {
            lemma_utf8_take_step(s@, k as int);
            lemma_utf8_le4(s@.take(k + 1));
        }
        off = off + char_len_of(s[k]) as u128;
        k += 1;
    }
    assert(s@.take(s.len() as int) =~= s@);
    off
}

} // verus!

//! YAML-ish frontmatter: the `---` block at the top of a markdown file and
//! its flat `key: value` fields.
use vstd::prelude::*;
use crate::text::{
    chars_of, find, find_s, lines, lines_s, lowercase_s, owned, seq_eq, split_once,
    split_once_s, starts_with, string_of, subvec, to_lowercase, trim, trim_s, trim_start,
    trim_start_s, views,
};

verus! {

/// A value without one pair of matching surrounding quotes (`"` or `'`).
pub open spec fn unquote(v: Seq<char>) -> Seq<char> {
    if v.len() >= 2 && v[0] == '"' && v.last() == '"' {
        v.subrange(1, v.len() - 1)
    } else if v.len() >= 2 && v[0] == '\'' && v.last() == '\'' {
        v.subrange(1, v.len() - 1)
    } else {
        v
    }
}

/// The field a frontmatter line declares, if any: non-indented, non-blank,
/// `key: value` with a value that is neither empty nor a block marker.
pub open spec fn yaml_line(line: Seq<char>) -> Option<(Seq<char>, Seq<char>)> {
    if (line.len() > 0 && (line[0] == ' ' || line[0] == '\t')) || trim_s(line).len() == 0 {
        None
    } else {
        match split_once_s(line, ':') {
            None => None,
            Some((k, v)) => {
                let v = trim_s(v);
                if v == ">"@ || v == "|"@ || v.len() == 0 {
                    None
                } else {
                    Some((lowercase_s(trim_s(k)), unquote(v)))
                }
            },
        }
    }
}

/// The fields declared by `lines`, in order (later ones win on lookup).
pub open spec fn yaml_pairs(lines: Seq<Seq<char>>) -> Seq<(Seq<char>, Seq<char>)>
    decreases lines.len(),
{
    if lines.len() == 0 {
        seq![]
    } else {
        match yaml_line(lines.last()) {
            Some(p) => yaml_pairs(lines.drop_last()).push(p),
            None => yaml_pairs(lines.drop_last()),
        }
    }
}

/// The value last given to `key` in `pairs`.
pub open spec fn lookup(pairs: Seq<(Seq<char>, Seq<char>)>, key: Seq<char>) -> Option<Seq<char>>
    decreases pairs.len(),
{
    if pairs.len() == 0 {
        None
    } else if pairs.last().0 == key {
        Some(pairs.last().1)
    } else {
        lookup(pairs.drop_last(), key)
    }
}

/// The frontmatter of `content`: the text between a leading `---` and the
/// next `\n---`, and what follows that closing marker.
pub open spec fn split_frontmatter(content: Seq<char>) -> Option<(Seq<char>, Seq<char>)> {
    let c = trim_start_s(content);
    if !"---"@.is_prefix_of(c) {
        None
    } else {
        let rest = c.skip("---"@.len() as int);
        match find_s(rest, "\n---"@) {
            None => None,
            Some(end) => Some((rest.take(end), rest.skip(end + "\n---"@.len()))),
        }
    }
}

/// Flat frontmatter fields: `key: value` pairs in declaration order.
/// Looking a key up gives its last value, as a map would.
pub struct YamlFields {
    pub pairs: Vec<(String, String)>,
}

impl YamlFields {
    pub open spec fn pairs_view(&self) -> Seq<(Seq<char>, Seq<char>)> {
        self.pairs@.map_values(|p: (String, String)| (p.0@, p.1@))
    }

    /// The value of `key`, if declared.
    pub fn get(&self, key: &str) -> (r: Option<&String>)
        ensures
            match r {
                Some(v) => lookup(self.pairs_view(), key@) == Some(v@),
                None => lookup(self.pairs_view(), key@) is None,
            },
    {
        let k = chars_of(key);
        let mut i = self.pairs.len();
        assert(self.pairs_view().take(i as int) =~= self.pairs_view());
        while i > 0
            invariant
                i <= self.pairs.len(),
                k@ == key@,
                lookup(self.pairs_view(), key@) == lookup(self.pairs_view().take(i as int), key@),
            decreases i,
        {
            let ghost pv = self.pairs_view().take(i as int);
            assert(pv.drop_last() =~= self.pairs_view().take(i - 1));
            assert(pv.last() == (self.pairs@[i - 1].0@, self.pairs@[i - 1].1@));
            let pk = chars_of(self.pairs[i - 1].0.as_str());
            if seq_eq(&pk, &k) {
                return Some(&self.pairs[i - 1].1);
            }
            i -= 1;
        }
        None
    }

    /// Whether `key` is declared.
    pub fn contains_key(&self, key: &str) -> (r: bool)
        ensures
            r == lookup(self.pairs_view(), key@) is Some,
    {
        self.get(key).is_some()
    }

    /// The number of distinct keys.
    pub fn len(&self) -> (n: usize)
        ensures
            n == distinct_keys(self.pairs_view()),
    {
        let mut n: usize = 0;
        let mut i: usize = 0;
        while i < self.pairs.len()
            invariant
                i <= self.pairs.len(),
                n <= i,
                n == distinct_from(self.pairs_view(), i as int),
            decreases self.pairs.len() - i,
        {
            let ki = chars_of(self.pairs[i].0.as_str());
            assert(self.pairs_view()[i as int].0 == ki@);
            let mut later = false;
            let mut j = i + 1;
            while j < self.pairs.len()
                invariant
                    i < j <= self.pairs.len(),
                    ki@ == self.pairs_view()[i as int].0,
                    later == exists|m: int|
                        i < m < j && #[trigger] self.pairs_view()[m].0 == self.pairs_view()[i as int].0,
                decreases self.pairs.len() - j,
            {
                let kj = chars_of(self.pairs[j].0.as_str());
                assert(self.pairs_view()[j as int].0 == kj@);
                if seq_eq(&kj, &ki) {
                    later = true;
                }
                j += 1;
            }
            if !later {
                n += 1;
            }
            i += 1;
        }
        n
    }
}

/// Keys of `pairs[..i]` that are not declared again later in `pairs`.
pub open spec fn distinct_from(pairs: Seq<(Seq<char>, Seq<char>)>, i: int) -> nat
    decreases i,
{
    if i <= 0 {
        0
    } else {
        let k = pairs[i - 1].0;
        let later = exists|m: int| i - 1 < m < pairs.len() && #[trigger] pairs[m].0 == k;
        distinct_from(pairs, i - 1) + if later {
            0nat
        } else {
            1nat
        }
    }
}

/// How many distinct keys `pairs` declares.
pub open spec fn distinct_keys(pairs: Seq<(Seq<char>, Seq<char>)>) -> nat {
    distinct_from(pairs, pairs.len() as int)
}

/// Drops one pair of matching surrounding quotes.
pub fn unquote_value(v: &[char]) -> (r: Vec<char>)
    ensures
        r@ == unquote(v@),
{
    let n = v.len();
    if n >= 2 && v[0] == '"' && v[n - 1] == '"' {
        subvec(v, 1, n - 1)
    } else if n >= 2 && v[0] == '\'' && v[n - 1] == '\'' {
        subvec(v, 1, n - 1)
    } else {
        subvec(v, 0, n)
    }
}

/// The field declared by one line, if any.
pub fn parse_yaml_line(line: &[char]) -> (r: Option<(Vec<char>, Vec<char>)>)
    ensures
        match r {
            Some((k, v)) => yaml_line(line@) == Some((k@, v@)),
            None => yaml_line(line@) is None,
        },
{
    if line.len() > 0 && (line[0] == ' ' || line[0] == '\t') {
        return None;
    }
    let t = trim(line);
    if t.len() == 0 {
        return None;
    }
    match split_once(line, ':') {
        None => None,
        Some((k, v)) => {
            let v = trim(&v);
            if seq_eq(&v, &chars_of(">")) || seq_eq(&v, &chars_of("|")) || v.len() == 0 {
                None
            } else {
                let key = to_lowercase(&trim(&k));
                Some((key, unquote_value(&v)))
            }
        },
    }
}

/// Parses flat `key: value` frontmatter. Indented lines, blank lines,
/// lines without `:` and block markers (`>`/`|`) are skipped; keys are
/// trimmed and lowercased; one pair of surrounding quotes is removed.
pub fn parse_yaml_fields(text: &str) -> (r: YamlFields)
    ensures
        r.pairs_view() == yaml_pairs(lines_s(text@)),
{
    let tv = chars_of(text);
    parse_yaml_chars(&tv)
}

/// [`parse_yaml_fields`] on characters.
pub fn parse_yaml_chars(text: &[char]) -> (r: YamlFields)
    ensures
        r.pairs_view() == yaml_pairs(lines_s(text@)),
{
    let ls = lines(text);
    let mut pairs: Vec<(String, String)> = Vec::new();
    let mut i: usize = 0;
    while i < ls.len()
        invariant
            i <= ls.len(),
            views(ls@) == lines_s(text@),
            pairs@.map_values(|p: (String, String)| (p.0@, p.1@)) == yaml_pairs(
                views(ls@).take(i as int),
            ),
        decreases ls.len() - i,
    {
        let ghost before = pairs@.map_values(|p: (String, String)| (p.0@, p.1@));
        assert(views(ls@).take(i + 1).drop_last() =~= views(ls@).take(i as int));
        assert(views(ls@).take(i + 1).last() == ls@[i as int]@);
        match parse_yaml_line(&ls[i]) {
            Some((k, v)) => {
                let ks = string_of(&k);
                let vs = string_of(&v);
                pairs.push((ks, vs));
                assert(pairs@.map_values(|p: (String, String)| (p.0@, p.1@)) =~= before.push(
                    (k@, v@),
                ));
            },
            None => {},
        }
        i += 1;
    }
    assert(views(ls@).take(ls.len() as int) =~= views(ls@));
    YamlFields { pairs }
}

/// Splits off the frontmatter block: `(frontmatter, rest after the marker)`.
pub fn frontmatter_parts(content: &[char]) -> (r: Option<(Vec<char>, Vec<char>)>)
    ensures
        match r {
            Some((f, rest)) => split_frontmatter(content@) == Some((f@, rest@)),
            None => split_frontmatter(content@) is None,
        },
{
    let c = trim_start(content);
    let open = chars_of("---");
    if !starts_with(&c, &open) {
        return None;
    }
    let rest = subvec(&c, open.len(), c.len());
    assert(rest@ =~= c@.skip("---"@.len() as int));
    let close = chars_of("\n---");
    match find(&rest, &close) {
        None => None,
        Some(end) => {
            proof {
                lemma_find_bound(rest@, close@, end as int);
            }
            let f = subvec(&rest, 0, end);
            let after = subvec(&rest, end + close.len(), rest.len());
            assert(f@ =~= rest@.take(end as int));
            assert(after@ =~= rest@.skip(end + "\n---"@.len()));
            Some((f, after))
        },
    }
}

/// A found occurrence lies inside the text.
pub proof fn lemma_find_bound(s: Seq<char>, p: Seq<char>, k: int)
    requires
        find_s(s, p) == Some(k),
    ensures
        0 <= k,
        k + p.len() <= s.len(),
        p.is_prefix_of(s.skip(k)),
    decreases s.len(),
{
    assert(s.skip(0) =~= s);
    if !p.is_prefix_of(s) && s.len() > 0 {
        lemma_find_bound(s.drop_first(), p, k - 1);
        assert(s.drop_first().skip(k - 1) =~= s.skip(k));
    }
}

/// The value of `key:` on the first frontmatter line that starts with it,
/// trimmed (used for `SKILL.md` headers).
pub open spec fn header_value(lines: Seq<Seq<char>>, key: Seq<char>) -> Option<Seq<char>>
    decreases lines.len(),
{
    if lines.len() == 0 {
        None
    } else if key.is_prefix_of(lines[0]) {
        Some(trim_s(lines[0].skip(key.len() as int)))
    } else {
        header_value(lines.drop_first(), key)
    }
}

/// The trimmed remainder of the first line of `text` that starts with `key`.
pub fn find_header_value(text: &[char], key: &str) -> (r: Option<Vec<char>>)
    ensures
        match r {
            Some(v) => header_value(lines_s(text@), key@) == Some(v@),
            None => header_value(lines_s(text@), key@) is None,
        },
{
    let ls = lines(text);
    let k = chars_of(key);
    let mut i: usize = 0;
    assert(views(ls@).skip(0) =~= views(ls@));
    while i < ls.len()
        invariant
            i <= ls.len(),
            views(ls@) == lines_s(text@),
            k@ == key@,
            header_value(lines_s(text@), key@) == header_value(views(ls@).skip(i as int), key@),
        decreases ls.len() - i,
    {
        assert(views(ls@).skip(i as int).drop_first() =~= views(ls@).skip(i + 1));
        assert(views(ls@).skip(i as int)[0] == ls@[i as int]@);
        if starts_with(&ls[i], &k) {
            let v = subvec(&ls[i], k.len(), ls[i].len());
            assert(v@ =~= ls@[i as int]@.skip(k@.len() as int));
            return Some(trim(&v));
        }
        i += 1;
    }
    None
}

/// An owned copy of the characters, as a `String`.
pub fn to_string(v: &Vec<char>) -> (s: String)
    ensures
        s@ == v@,
{
    string_of(v)
}

/// The owned value of a field lookup, or `default`.
pub fn field_or(fields: &YamlFields, key: &str, default: &str) -> (r: String)
    ensures
        r@ == (match lookup(fields.pairs_view(), key@) {
            Some(v) => v,
            None => default@,
        }),
{
    match fields.get(key) {
        Some(v) => v.clone(),
        None => owned(default),
    }
}

} // verus!

//! Reusable prompt snippets: the snippet format, the merge of built-in
//! prompts with the user's own, filtering by tag and lookup by name.
use vstd::prelude::*;
use crate::args::{arg_views, contains_arg, has_arg, is_flag, starts_with_dash, wants_help_s};
use crate::frontmatter::{
    frontmatter_parts, lookup, parse_yaml_chars, split_frontmatter, yaml_pairs,
};
use crate::order::{law_sort_by_key, lemma_key_insert_pos, ordered_by_key, sort_by_key_s};
use crate::paths::{file_stem, path_file_stem};
use crate::text::{
    chars_of, dec, usize_to_string, clean_piece, find, find_s, lines_s, lowercase_s, owned, seq_eq,
    seq_lt, split_char, split_s, str_lt, string_of, strings_view, subvec, to_lowercase, trim,
    trim_matches, trim_start, trim_start_s, views,
};

verus! {

// ── Model ───────────────────────────────────────────────────────────

/// A prompt snippet.
pub struct Prompt {
    pub name: String,
    pub description: String,
    pub tags: Vec<String>,
    pub body: String,
    /// Shipped with the tool rather than read from `.repo/prompts/`.
    pub builtin: bool,
}

/// The value of a [`Prompt`].
pub struct PromptV {
    pub name: Seq<char>,
    pub description: Seq<char>,
    pub tags: Seq<Seq<char>>,
    pub body: Seq<char>,
    pub builtin: bool,
}

impl View for Prompt {
    type V = PromptV;

    open spec fn view(&self) -> PromptV {
        PromptV {
            name: self.name@,
            description: self.description@,
            tags: strings_view(self.tags@),
            body: self.body@,
            builtin: self.builtin,
        }
    }
}

pub open spec fn prompt_views(v: Seq<Prompt>) -> Seq<PromptV> {
    v.map_values(|p: Prompt| p@)
}

/// A copy of the strings.
pub fn copy_strings(v: &Vec<String>) -> (r: Vec<String>)
    ensures
        strings_view(r@) == strings_view(v@),
{
    let mut out: Vec<String> = Vec::new();
    let mut i: usize = 0;
    while i < v.len()
        invariant
            i <= v.len(),
            strings_view(out@) == strings_view(v@).take(i as int),
        decreases v.len() - i,
    {
        let ghost b = strings_view(out@);
        out.push(v[i].clone());
        assert(strings_view(out@) =~= b.push(v@[i as int]@));
        assert(strings_view(v@).take(i + 1) =~= strings_view(v@).take(i as int).push(v@[i as int]@));
        i += 1;
    }
    assert(strings_view(v@).take(v.len() as int) =~= strings_view(v@));
    out
}

/// A copy of the prompt.
pub fn copy_prompt(p: &Prompt) -> (r: Prompt)
    ensures
        r@ == p@,
{
    Prompt {
        name: p.name.clone(),
        description: p.description.clone(),
        tags: copy_strings(&p.tags),
        body: p.body.clone(),
        builtin: p.builtin,
    }
}

// ── The snippet format ──────────────────────────────────────────────

/// A value inside one pair of square brackets, or the value itself.
pub open spec fn bracket_inner(v: Seq<char>) -> Seq<char> {
    if v.len() >= 2 && v[0] == '[' && v.last() == ']' {
        v.subrange(1, v.len() - 1)
    } else {
        v
    }
}

/// The non-empty cleaned pieces, in order.
pub open spec fn clean_tags(pieces: Seq<Seq<char>>) -> Seq<Seq<char>>
    decreases pieces.len(),
{
    if pieces.len() == 0 {
        seq![]
    } else {
        let rest = clean_tags(pieces.drop_last());
        let t = clean_piece(pieces.last());
        if t.len() == 0 {
            rest
        } else {
            rest.push(t)
        }
    }
}

/// The tags of a `tags:` value: `[a, "b", 'c']` or `a, b`, split at commas,
/// each trimmed of whitespace and quotes, empty ones dropped.
pub open spec fn tags_s(v: Seq<char>) -> Seq<Seq<char>> {
    clean_tags(split_s(bracket_inner(v), ','))
}

/// Parses a `tags:` value.
pub fn parse_tags(value: &str) -> (r: Vec<String>)
    ensures
        strings_view(r@) == tags_s(value@),
{
    let v = chars_of(value);
    let inner = if v.len() >= 2 && v[0] == '[' && v[v.len() - 1] == ']' {
        subvec(&v, 1, v.len() - 1)
    } else {
        subvec(&v, 0, v.len())
    };
    assert(inner@ =~= bracket_inner(value@));
    let pieces = split_char(&inner, ',');
    let ghost pv = views(pieces@);
    let mut out: Vec<String> = Vec::new();
    let mut i: usize = 0;
    while i < pieces.len()
        invariant
            i <= pieces.len(),
            pv == views(pieces@),
            strings_view(out@) == clean_tags(pv.take(i as int)),
        decreases pieces.len() - i,
    {
        assert(pv.take(i + 1).drop_last() =~= pv.take(i as int));
        assert(pv.take(i + 1).last() == pieces@[i as int]@);
        let t = trim_matches(&trim_matches(&trim(&pieces[i]), '"'), '\'');
        if t.len() > 0 {
            let ghost b = strings_view(out@);
            out.push(string_of(&t));
            assert(strings_view(out@) =~= b.push(t@));
        }
        i += 1;
    }
    assert(pv.take(pieces.len() as int) =~= pv);
    out
}

/// The file stem of `path`, or empty.
pub open spec fn stem_or_empty(path: Seq<char>) -> Seq<char> {
    match path_file_stem(path) {
        Some(s) => s,
        None => Seq::empty(),
    }
}

pub open spec fn value_or(v: Option<Seq<char>>, d: Seq<char>) -> Seq<char> {
    match v {
        Some(x) => x,
        None => d,
    }
}

/// The prompt a file holds. With frontmatter, `name`, `description` and
/// `tags` come from it (the name defaults to the file stem) and the body is
/// what follows it, without leading whitespace; without frontmatter the
/// name is the file stem and the body the whole content.
pub open spec fn prompt_s(content: Seq<char>, path: Seq<char>) -> PromptV {
    let filename = stem_or_empty(path);
    match split_frontmatter(content) {
        None => PromptV {
            name: filename,
            description: Seq::empty(),
            tags: seq![],
            body: content,
            builtin: false,
        },
        Some((fm, rest)) => {
            let fields = yaml_pairs(lines_s(fm));
            PromptV {
                name: value_or(lookup(fields, "name"@), filename),
                description: value_or(lookup(fields, "description"@), Seq::empty()),
                tags: match lookup(fields, "tags"@) {
                    Some(t) => tags_s(t),
                    None => seq![],
                },
                body: trim_start_s(rest),
                builtin: false,
            }
        },
    }
}

/// Parses the snippet file at `path` with content `content`.
pub fn parse_prompt(content: &str, path: &str) -> (r: Prompt)
    ensures
        r@ == prompt_s(content@, path@),
{
    let filename = match file_stem(path) {
        Some(s) => s,
        None => String::new(),
    };
    let cv = chars_of(content);
    match frontmatter_parts(&cv) {
        None => {
            let r = Prompt {
                name: filename,
                description: String::new(),
                tags: Vec::new(),
                body: owned(content),
                builtin: false,
            };
            assert(r@.tags =~= prompt_s(content@, path@).tags);
            r
        },
        Some((fm, rest)) => {
            let fields = parse_yaml_chars(&fm);
            let name = match fields.get("name") {
                Some(n) => n.clone(),
                None => filename,
            };
            let description = match fields.get("description") {
                Some(d) => d.clone(),
                None => String::new(),
            };
            let tags = match fields.get("tags") {
                Some(t) => parse_tags(t.as_str()),
                None => Vec::new(),
            };
            let body = string_of(&trim_start(&rest));
            let r = Prompt { name, description, tags, body, builtin: false };
            assert(r@.tags == prompt_s(content@, path@).tags);
            r
        },
    }
}

/// A prompt marked as built in.
pub open spec fn as_builtin(p: PromptV) -> PromptV {
    PromptV { name: p.name, description: p.description, tags: p.tags, body: p.body, builtin: true }
}

/// The built-in prompts, from `(file name, content)` pairs.
pub fn load_defaults(sources: &[(&str, &str)]) -> (r: Vec<Prompt>)
    ensures
        r.len() == sources.len(),
        forall|i: int|
            0 <= i < sources.len() ==> #[trigger] r@[i]@ == as_builtin(
                prompt_s(sources@[i].1@, sources@[i].0@),
            ),
{
    let mut out: Vec<Prompt> = Vec::new();
    let mut i: usize = 0;
    while i < sources.len()
        invariant
            i <= sources.len(),
            out.len() == i,
            forall|j: int|
                0 <= j < i ==> #[trigger] out@[j]@ == as_builtin(
                    prompt_s(sources@[j].1@, sources@[j].0@),
                ),
        decreases sources.len() - i,
    {
        let (filename, content) = sources[i];
        let mut p = parse_prompt(content, filename);
        p.builtin = true;
        out.push(p);
        i += 1;
    }
    out
}

// ── Arguments ───────────────────────────────────────────────────────

/// The lowercased value after the first `--tag` that has one.
pub open spec fn tag_arg_from(args: Seq<Seq<char>>, i: nat) -> Option<Seq<char>>
    decreases args.len() - i,
{
    if i + 1 >= args.len() {
        None
    } else if args[i as int] == "--tag"@ {
        Some(lowercase_s(args[i + 1 as int]))
    } else {
        tag_arg_from(args, i + 1)
    }
}

/// The `--tag` filter of the arguments, lowercased.
pub fn tag_filter(args: &[&str]) -> (r: Option<String>)
    ensures
        match r {
            Some(t) => tag_arg_from(arg_views(args@), 0) == Some(t@),
            None => tag_arg_from(arg_views(args@), 0) is None,
        },
{
    let ghost av = arg_views(args@);
    let flag = chars_of("--tag");
    if args.len() < 2 {
        return None;
    }
    let mut i: usize = 0;
    while i < args.len() - 1
        invariant
            args.len() >= 2,
            av == arg_views(args@),
            flag@ == "--tag"@,
            tag_arg_from(av, 0) == tag_arg_from(av, i as nat),
        decreases args.len() - i,
    {
        assert(av[i as int] == args@[i as int]@);
        if seq_eq(&chars_of(args[i]), &flag) {
            assert(av[i + 1] == args@[i + 1]@);
            let lower = to_lowercase(&chars_of(args[i + 1]));
            return Some(string_of(&lower));
        }
        i += 1;
    }
    None
}

// ── Tag filtering ───────────────────────────────────────────────────

/// Whether one of the prompt's tags, lowercased, is `t`.
pub open spec fn has_tag(p: PromptV, t: Seq<char>) -> bool {
    exists|j: int| 0 <= j < p.tags.len() && lowercase_s(#[trigger] p.tags[j]) == t
}

/// The prompts that have the tag `t`, in order.
pub open spec fn keep_tagged(ps: Seq<PromptV>, t: Seq<char>) -> Seq<PromptV>
    decreases ps.len(),
{
    if ps.len() == 0 {
        ps
    } else {
        let rest = keep_tagged(ps.drop_last(), t);
        if has_tag(ps.last(), t) {
            rest.push(ps.last())
        } else {
            rest
        }
    }
}

/// The tag filter keeps exactly the prompts one of whose tags, in any
/// position, lowercases to `t`, in their order and without adding any: a
/// prompt is listed iff it was offered and some `tags[j]` matches.
pub proof fn law_tag_filter_keeps_matching(ps: Seq<PromptV>, t: Seq<char>)
    ensures
        keep_tagged(ps, t).len() <= ps.len(),
        forall|p: PromptV|
            #[trigger] keep_tagged(ps, t).contains(p) <==> (ps.contains(p) && exists|j: int|
                0 <= j < p.tags.len() && lowercase_s(#[trigger] p.tags[j]) == t),
    decreases ps.len(),
{
    if ps.len() > 0 {
        let rest = keep_tagged(ps.drop_last(), t);
        law_tag_filter_keeps_matching(ps.drop_last(), t);
        assert forall|p: PromptV|
            #[trigger] keep_tagged(ps, t).contains(p) <==> (ps.contains(p) && exists|j: int|
                0 <= j < p.tags.len() && lowercase_s(#[trigger] p.tags[j]) == t) by {
            let m = exists|j: int| 0 <= j < p.tags.len() && lowercase_s(#[trigger] p.tags[j]) == t;
            assert(m == has_tag(p, t));
            if ps.contains(p) {
                let k = choose|k: int| 0 <= k < ps.len() && ps[k] == p;
                if k < ps.len() - 1 {
                    assert(ps.drop_last()[k] == p);
                    assert(ps.drop_last().contains(p));
                }
            }
            if ps.drop_last().contains(p) {
                let k = choose|k: int| 0 <= k < ps.drop_last().len() && ps.drop_last()[k] == p;
                assert(ps[k] == p);
            }
            assert(ps[ps.len() - 1] == ps.last());
            if has_tag(ps.last(), t) {
                assert(rest.push(ps.last())[rest.len() as int] == ps.last());
                if rest.contains(p) {
                    let k = choose|k: int| 0 <= k < rest.len() && rest[k] == p;
                    assert(rest.push(ps.last())[k] == p);
                }
                if rest.push(ps.last()).contains(p) {
                    let k = choose|k: int| 0 <= k < rest.len() + 1 && rest.push(ps.last())[k] == p;
                    if k < rest.len() {
                        assert(rest[k] == p);
                    }
                }
            }
        }
    }
}

fn tagged(p: &Prompt, t: &Vec<char>) -> (r: bool)
    ensures
        r == has_tag(p@, t@),
{
    let mut j: usize = 0;
    while j < p.tags.len()
        invariant
            j <= p.tags.len(),
            forall|k: int| 0 <= k < j ==> lowercase_s(#[trigger] p@.tags[k]) != t@,
        decreases p.tags.len() - j,
    {
        assert(p@.tags[j as int] == p.tags@[j as int]@);
        if seq_eq(&to_lowercase(&chars_of(p.tags[j].as_str())), t) {
            return true;
        }
        j += 1;
    }
    false
}

/// The prompts to list: all of them, or with a tag filter those that have
/// the tag, compared in lowercase.
pub fn list_prompts(prompts: Vec<Prompt>, tag: Option<&str>) -> (r: Vec<Prompt>)
    ensures
        prompt_views(r@) == (match tag {
            None => prompt_views(prompts@),
            Some(t) => keep_tagged(prompt_views(prompts@), lowercase_s(t@)),
        }),
{
    let t = match tag {
        None => {
            return prompts;
        },
        Some(t) => to_lowercase(&chars_of(t)),
    };
    let ghost ps = prompt_views(prompts@);
    let mut out: Vec<Prompt> = Vec::new();
    let mut i: usize = 0;
    while i < prompts.len()
        invariant
            i <= prompts.len(),
            ps == prompt_views(prompts@),
            prompt_views(out@) == keep_tagged(ps.take(i as int), t@),
        decreases prompts.len() - i,
    {
        assert(ps.take(i + 1).drop_last() =~= ps.take(i as int));
        assert(ps.take(i + 1).last() == prompts@[i as int]@);
        if tagged(&prompts[i], &t) {
            let ghost b = prompt_views(out@);
            out.push(copy_prompt(&prompts[i]));
            assert(prompt_views(out@) =~= b.push(prompts@[i as int]@));
        }
        i += 1;
    }
    assert(ps.take(prompts.len() as int) =~= ps);
    out
}

// ── Order by name ───────────────────────────────────────────────────

/// The name of a prompt: the key prompts are ordered by.
pub open spec fn prompt_name() -> spec_fn(PromptV) -> Seq<char> {
    |p: PromptV| p.name
}

/// `s` stably sorted by name.
pub open spec fn sort_by_name_s(s: Seq<PromptV>) -> Seq<PromptV> {
    sort_by_key_s(s, prompt_name())
}

/// Sorts prompts by name, keeping the order of prompts with the same name.
pub fn sort_prompts(v: Vec<Prompt>) -> (r: Vec<Prompt>)
    ensures
        prompt_views(r@) == sort_by_name_s(prompt_views(v@)),
{
    let ghost input = prompt_views(v@);
    let mut v = v;
    let mut i: usize = 0;
    assert(input.take(0) =~= sort_by_name_s(input.take(0)));
    assert(prompt_views(v@).take(0) =~= input.take(0));
    while i < v.len()
        invariant
            i <= v.len(),
            v.len() == input.len(),
            prompt_views(v@).take(i as int) == sort_by_name_s(input.take(i as int)),
            prompt_views(v@).skip(i as int) == input.skip(i as int),
        decreases v.len() - i,
    {
        let ghost before = prompt_views(v@);
        let ghost sorted = before.take(i as int);
        let x = v.remove(i);
        assert(x@ == input[i as int]) by {
            assert(before.skip(i as int)[0] == before[i as int]);
            assert(input.skip(i as int)[0] == input[i as int]);
        }
        assert(prompt_views(v@) =~= before.remove(i as int));
        assert(prompt_views(v@).take(i as int) =~= sorted);
        let xn = chars_of(x.name.as_str());
        let mut k: usize = 0;
        loop
            invariant
                k <= i,
                i < v.len() + 1,
                xn@ == x@.name,
                prompt_views(v@).take(i as int) == sorted,
                forall|j: int| 0 <= j < k ==> !seq_lt(x@.name, #[trigger] sorted[j].name),
            ensures
                k <= i,
                forall|j: int| 0 <= j < k ==> !seq_lt(x@.name, #[trigger] sorted[j].name),
                k < i ==> seq_lt(x@.name, sorted[k as int].name),
            decreases i - k,
        {
            if k >= i {
                break;
            }
            assert(sorted[k as int] == v@[k as int]@) by {
                assert(prompt_views(v@).take(i as int)[k as int] == prompt_views(v@)[k as int]);
            }
            if str_lt(&xn, &chars_of(v[k].name.as_str())) {
                break;
            }
            k += 1;
        }
        proof {
            lemma_key_insert_pos(sorted, x@, prompt_name(), k as int);
            assert(input.take(i + 1).drop_last() =~= input.take(i as int));
            assert(input.take(i + 1).last() == input[i as int]);
        }
        let ghost mid = prompt_views(v@);
        v.insert(k, x);
        assert(prompt_views(v@) =~= mid.insert(k as int, x@));
        assert(prompt_views(v@).take(i + 1) =~= sorted.insert(k as int, x@));
        assert(prompt_views(v@).skip(i + 1) =~= input.skip(i + 1)) by {
            assert forall|j: int| 0 <= j < input.len() - (i + 1) implies #[trigger] prompt_views(
                v@,
            ).skip(i + 1)[j] == input.skip(i + 1)[j] by {
                assert(prompt_views(v@)[i + 1 + j] == mid[i + j]);
                assert(mid[i + j] == before[i + 1 + j]);
                assert(before.skip(i as int)[j + 1] == input.skip(i as int)[j + 1]);
            }
        }
        i += 1;
    }
    assert(input.take(v.len() as int) =~= input);
    assert(prompt_views(v@).take(v.len() as int) =~= prompt_views(v@));
    v
}

// ── Built-ins and user prompts ──────────────────────────────────────

/// The first index of `ps` satisfying `pred`.
pub open spec fn first_prompt_where(ps: Seq<PromptV>, pred: spec_fn(PromptV) -> bool) -> Option<
    int,
>
    decreases ps.len(),
{
    if ps.len() == 0 {
        None
    } else if pred(ps[0]) {
        Some(0)
    } else {
        match first_prompt_where(ps.drop_first(), pred) {
            Some(k) => Some(k + 1),
            None => None,
        }
    }
}

proof fn lemma_first_prompt_where(ps: Seq<PromptV>, pred: spec_fn(PromptV) -> bool, k: int)
    requires
        0 <= k <= ps.len(),
        forall|j: int| 0 <= j < k ==> !pred(#[trigger] ps[j]),
        k < ps.len() ==> pred(ps[k]),
    ensures
        first_prompt_where(ps, pred) == (if k < ps.len() {
            Some(k)
        } else {
            None::<int>
        }),
    decreases ps.len(),
{
    if ps.len() > 0 && k > 0 {
        assert(!pred(ps[0]));
        assert forall|j: int| 0 <= j < k - 1 implies !pred(#[trigger] ps.drop_first()[j]) by {
            assert(ps.drop_first()[j] == ps[j + 1]);
        }
        lemma_first_prompt_where(ps.drop_first(), pred, k - 1);
    }
}

/// The first prompt named `n`.
pub open spec fn name_pos(ps: Seq<PromptV>, n: Seq<char>) -> Option<int> {
    first_prompt_where(ps, |p: PromptV| p.name == n)
}

/// `u` replaces the first prompt of its name, or joins the end.
pub open spec fn override_one(ps: Seq<PromptV>, u: PromptV) -> Seq<PromptV> {
    match name_pos(ps, u.name) {
        Some(k) => ps.update(k, u),
        None => ps.push(u),
    }
}

/// Each of `us`, in order, overrides `ps`.
pub open spec fn override_all(ps: Seq<PromptV>, us: Seq<PromptV>) -> Seq<PromptV>
    decreases us.len(),
{
    if us.len() == 0 {
        ps
    } else {
        override_one(override_all(ps, us.drop_last()), us.last())
    }
}

/// The prompts on offer: the built-ins with the user's prompts overriding
/// them by name, sorted by name.
pub open spec fn merged_s(defaults: Seq<PromptV>, user: Seq<PromptV>) -> Seq<PromptV> {
    sort_by_name_s(override_all(defaults, user))
}

proof fn lemma_first_prompt_where_spec(ps: Seq<PromptV>, pred: spec_fn(PromptV) -> bool)
    ensures
        match first_prompt_where(ps, pred) {
            Some(k) => 0 <= k < ps.len() && pred(ps[k]),
            None => forall|j: int| 0 <= j < ps.len() ==> !pred(#[trigger] ps[j]),
        },
    decreases ps.len(),
{
    if ps.len() > 0 && !pred(ps[0]) {
        lemma_first_prompt_where_spec(ps.drop_first(), pred);
        assert forall|j: int| 0 < j < ps.len() implies ps[j] == ps.drop_first()[j - 1] by {}
    }
}

/// No two prompts share a name.
pub open spec fn distinct_names(s: Seq<PromptV>) -> bool {
    forall|i: int, j: int| 0 <= i < j < s.len() ==> (#[trigger] s[i]).name != (#[trigger] s[j]).name
}

/// Whether one of `us` is named `n`.
pub open spec fn names_one(us: Seq<PromptV>, n: Seq<char>) -> bool {
    exists|i: int| 0 <= i < us.len() && (#[trigger] us[i]).name == n
}

/// What holds of `override_all(d, us)` when names are distinct.
pub open spec fn override_facts(d: Seq<PromptV>, us: Seq<PromptV>, r: Seq<PromptV>) -> bool {
    &&& distinct_names(r)
    &&& forall|i: int| 0 <= i < us.len() ==> r.contains(#[trigger] us[i])
    &&& forall|j: int|
        0 <= j < r.len() ==> us.contains(#[trigger] r[j]) || (d.contains(r[j]) && !names_one(
            us,
            r[j].name,
        ))
    &&& forall|j: int|
        0 <= j < d.len() && !names_one(us, (#[trigger] d[j]).name) ==> r.contains(d[j])
}

proof fn lemma_override_facts(d: Seq<PromptV>, us: Seq<PromptV>)
    requires
        distinct_names(d),
        distinct_names(us),
    ensures
        override_facts(d, us, override_all(d, us)),
    decreases us.len(),
{
    if us.len() == 0 {
        assert forall|j: int| 0 <= j < d.len() implies d.contains(#[trigger] d[j]) by {}
    } else {
        let pre = us.drop_last();
        let u = us.last();
        let r = override_all(d, pre);
        assert(distinct_names(pre));
        lemma_override_facts(d, pre);
        assert forall|i: int| 0 <= i < pre.len() implies (#[trigger] pre[i]).name != u.name by {
            assert(pre[i] == us[i] && u == us[us.len() - 1]);
        }
        assert forall|n: Seq<char>| names_one(us, n) implies names_one(pre, n) || n == u.name by {
            let i = choose|i: int| 0 <= i < us.len() && (#[trigger] us[i]).name == n;
            if i < us.len() - 1 {
                assert(pre[i] == us[i]);
            }
        }
        assert forall|n: Seq<char>| names_one(pre, n) implies names_one(us, n) by {
            let i = choose|i: int| 0 <= i < pre.len() && (#[trigger] pre[i]).name == n;
            assert(us[i] == pre[i]);
        }
        assert forall|x: PromptV| pre.contains(x) implies us.contains(x) by {
            let i = choose|i: int| 0 <= i < pre.len() && pre[i] == x;
            assert(us[i] == pre[i]);
        }
        assert(us.contains(u)) by {
            assert(us[us.len() - 1] == u);
        }
        lemma_first_prompt_where_spec(r, |p: PromptV| p.name == u.name);
        let r2 = override_one(r, u);
        match name_pos(r, u.name) {
            Some(k) => {
                assert(r2 == r.update(k, u));
                assert forall|i: int| 0 <= i < us.len() implies r2.contains(#[trigger] us[i]) by {
                    if i == us.len() - 1 {
                        assert(r2[k] == u);
                    } else {
                        assert(us[i] == pre[i]);
                        assert(r.contains(pre[i]));
                        let m = choose|m: int| 0 <= m < r.len() && r[m] == pre[i];
                        assert(m != k);
                        assert(r2[m] == pre[i]);
                    }
                }
                assert forall|j: int|
                    0 <= j < d.len() && !names_one(us, (#[trigger] d[j]).name) implies r2.contains(
                    d[j],
                ) by {
                    assert(!names_one(pre, d[j].name));
                    assert(r.contains(d[j]));
                    let m = choose|m: int| 0 <= m < r.len() && r[m] == d[j];
                    assert(d[j].name != u.name);
                    assert(m != k);
                    assert(r2[m] == d[j]);
                }
                assert forall|j: int| 0 <= j < r2.len() implies us.contains(#[trigger] r2[j]) || (
                d.contains(r2[j]) && !names_one(us, r2[j].name)) by {
                    if j != k {
                        assert(r2[j] == r[j]);
                        assert(r[j].name != r[k].name);
                    }
                }
            },
            None => {
                assert(r2 == r.push(u));
                assert forall|i: int| 0 <= i < us.len() implies r2.contains(#[trigger] us[i]) by {
                    if i == us.len() - 1 {
                        assert(r2[r.len() as int] == u);
                    } else {
                        assert(us[i] == pre[i]);
                        assert(r.contains(pre[i]));
                        let m = choose|m: int| 0 <= m < r.len() && r[m] == pre[i];
                        assert(r2[m] == pre[i]);
                    }
                }
                assert forall|j: int|
                    0 <= j < d.len() && !names_one(us, (#[trigger] d[j]).name) implies r2.contains(
                    d[j],
                ) by {
                    assert(!names_one(pre, d[j].name));
                    assert(r.contains(d[j]));
                    let m = choose|m: int| 0 <= m < r.len() && r[m] == d[j];
                    assert(r2[m] == d[j]);
                }
                assert forall|j: int| 0 <= j < r2.len() implies us.contains(#[trigger] r2[j]) || (
                d.contains(r2[j]) && !names_one(us, r2[j].name)) by {
                    if j < r.len() {
                        assert(r2[j] == r[j]);
                        assert(r[j].name != u.name);
                    }
                }
                assert forall|i: int, j: int| 0 <= i < j < r2.len() implies (
                #[trigger] r2[i]).name != (#[trigger] r2[j]).name by {
                    if j == r.len() {
                        assert(r2[i] == r[i]);
                    } else {
                        assert(r2[i] == r[i] && r2[j] == r[j]);
                    }
                }
            },
        }
    }
}

/// User prompts override built-ins by name: when neither list repeats a
/// name, every user prompt is offered, every built-in that no user prompt
/// names is offered, and nothing else is (a built-in that a user prompt
/// names is gone). The offer is sorted by name.
pub proof fn law_user_prompts_override(defaults: Seq<PromptV>, user: Seq<PromptV>)
    requires
        distinct_names(defaults),
        distinct_names(user),
    ensures
        ordered_by_key(merged_s(defaults, user), prompt_name()),
        forall|i: int| 0 <= i < user.len() ==> merged_s(defaults, user).contains(#[trigger] user[i]),
        forall|j: int|
            0 <= j < defaults.len() && !names_one(user, (#[trigger] defaults[j]).name)
                ==> merged_s(defaults, user).contains(defaults[j]),
        forall|p: PromptV|
            #[trigger] merged_s(defaults, user).contains(p) ==> user.contains(p) || (
            defaults.contains(p) && !names_one(user, p.name)),
{
    let r = override_all(defaults, user);
    let m = merged_s(defaults, user);
    lemma_override_facts(defaults, user);
    law_sort_by_key(r, prompt_name());
    assert forall|p: PromptV| m.contains(p) <==> r.contains(p) by {
        vstd::seq_lib::to_multiset_contains(m, p);
        vstd::seq_lib::to_multiset_contains(r, p);
    }
    assert forall|p: PromptV| #[trigger] m.contains(p) implies user.contains(p) || (
    defaults.contains(p) && !names_one(user, p.name)) by {
        let j = choose|j: int| 0 <= j < r.len() && r[j] == p;
        assert(user.contains(r[j]) || (defaults.contains(r[j]) && !names_one(user, r[j].name)));
    }
}

fn position_by_name(ps: &Vec<Prompt>, name: &String) -> (r: Option<usize>)
    ensures
        match r {
            Some(k) => k < ps.len() && name_pos(prompt_views(ps@), name@) == Some(k as int),
            None => name_pos(prompt_views(ps@), name@) is None,
        },
{
    let ghost pv = prompt_views(ps@);
    let n = chars_of(name.as_str());
    let mut i: usize = 0;
    while i < ps.len()
        invariant
            i <= ps.len(),
            pv == prompt_views(ps@),
            n@ == name@,
            forall|j: int| 0 <= j < i ==> (#[trigger] pv[j]).name != name@,
        decreases ps.len() - i,
    {
        assert(pv[i as int] == ps@[i as int]@);
        if seq_eq(&chars_of(ps[i].name.as_str()), &n) {
            proof {
                lemma_first_prompt_where(pv, |p: PromptV| p.name == name@, i as int);
            }
            return Some(i);
        }
        i += 1;
    }
    proof {
        lemma_first_prompt_where(pv, |p: PromptV| p.name == name@, ps.len() as int);
    }
    None
}

/// The built-in prompts with the user's prompts (in the order given)
/// overriding them by name, sorted by name.
pub fn merge_prompts(defaults: Vec<Prompt>, user: Vec<Prompt>) -> (r: Vec<Prompt>)
    ensures
        prompt_views(r@) == merged_s(prompt_views(defaults@), prompt_views(user@)),
{
    let ghost d = prompt_views(defaults@);
    let ghost us = prompt_views(user@);
    let mut out = defaults;
    let mut i: usize = 0;
    while i < user.len()
        invariant
            i <= user.len(),
            us == prompt_views(user@),
            prompt_views(out@) == override_all(d, us.take(i as int)),
        decreases user.len() - i,
    {
        assert(us.take(i + 1).drop_last() =~= us.take(i as int));
        assert(us.take(i + 1).last() == user@[i as int]@);
        let u = copy_prompt(&user[i]);
        let ghost before = prompt_views(out@);
        match position_by_name(&out, &u.name) {
            Some(k) => {
                out.set(k, u);
                assert(prompt_views(out@) =~= before.update(k as int, user@[i as int]@));
            },
            None => {
                out.push(u);
                assert(prompt_views(out@) =~= before.push(user@[i as int]@));
            },
        }
        i += 1;
    }
    assert(us.take(user.len() as int) =~= us);
    sort_prompts(out)
}

// ── Lookup and suggestions ──────────────────────────────────────────

/// The prompt `repo prompt <q>` shows: the first named exactly `q`, else
/// the first whose name starts with `q`.
pub open spec fn show_pos(ps: Seq<PromptV>, q: Seq<char>) -> Option<int> {
    match name_pos(ps, q) {
        Some(i) => Some(i),
        None => first_prompt_where(ps, |p: PromptV| q.is_prefix_of(p.name)),
    }
}

/// Finds the prompt to show for `name` (see [`show_pos`]).
pub fn find_prompt(prompts: &Vec<Prompt>, name: &str) -> (r: Option<usize>)
    ensures
        match r {
            Some(k) => k < prompts.len() && show_pos(prompt_views(prompts@), name@) == Some(
                k as int,
            ),
            None => show_pos(prompt_views(prompts@), name@) is None,
        },
{
    let ghost pv = prompt_views(prompts@);
    let owned_name = owned(name);
    match position_by_name(prompts, &owned_name) {
        Some(k) => {
            return Some(k);
        },
        None => {},
    }
    let q = chars_of(name);
    let mut i: usize = 0;
    while i < prompts.len()
        invariant
            i <= prompts.len(),
            pv == prompt_views(prompts@),
            q@ == name@,
            name_pos(pv, name@) is None,
            forall|j: int| 0 <= j < i ==> !name@.is_prefix_of((#[trigger] pv[j]).name),
        decreases prompts.len() - i,
    {
        assert(pv[i as int] == prompts@[i as int]@);
        if crate::text::starts_with(&chars_of(prompts[i].name.as_str()), &q) {
            proof {
                lemma_first_prompt_where(pv, |p: PromptV| name@.is_prefix_of(p.name), i as int);
            }
            return Some(i);
        }
        i += 1;
    }
    proof {
        lemma_first_prompt_where(pv, |p: PromptV| name@.is_prefix_of(p.name), prompts.len() as int);
    }
    None
}

/// Whether `q` occurs in the prompt's name or in one of its tags.
pub open spec fn suggests(p: PromptV, q: Seq<char>) -> bool {
    find_s(p.name, q) is Some || exists|j: int|
        0 <= j < p.tags.len() && find_s(#[trigger] p.tags[j], q) is Some
}

/// The names of the prompts that mention `q`, in order.
pub open spec fn suggestions_s(ps: Seq<PromptV>, q: Seq<char>) -> Seq<Seq<char>>
    decreases ps.len(),
{
    if ps.len() == 0 {
        seq![]
    } else {
        let rest = suggestions_s(ps.drop_last(), q);
        if suggests(ps.last(), q) {
            rest.push(ps.last().name)
        } else {
            rest
        }
    }
}

fn mentions(p: &Prompt, q: &Vec<char>) -> (r: bool)
    ensures
        r == suggests(p@, q@),
{
    if find(&chars_of(p.name.as_str()), q).is_some() {
        return true;
    }
    let mut j: usize = 0;
    while j < p.tags.len()
        invariant
            j <= p.tags.len(),
            forall|k: int| 0 <= k < j ==> find_s(#[trigger] p@.tags[k], q@) is None,
        decreases p.tags.len() - j,
    {
        assert(p@.tags[j as int] == p.tags@[j as int]@);
        if find(&chars_of(p.tags[j].as_str()), q).is_some() {
            return true;
        }
        j += 1;
    }
    false
}

/// "Did you mean" names for an unknown prompt `q`.
pub fn suggestions(prompts: &Vec<Prompt>, q: &str) -> (r: Vec<String>)
    ensures
        strings_view(r@) == suggestions_s(prompt_views(prompts@), q@),
{
    let ghost pv = prompt_views(prompts@);
    let qv = chars_of(q);
    let mut out: Vec<String> = Vec::new();
    let mut i: usize = 0;
    while i < prompts.len()
        invariant
            i <= prompts.len(),
            pv == prompt_views(prompts@),
            qv@ == q@,
            strings_view(out@) == suggestions_s(pv.take(i as int), q@),
        decreases prompts.len() - i,
    {
        assert(pv.take(i + 1).drop_last() =~= pv.take(i as int));
        assert(pv.take(i + 1).last() == prompts@[i as int]@);
        if mentions(&prompts[i], &qv) {
            let ghost b = strings_view(out@);
            out.push(prompts[i].name.clone());
            assert(strings_view(out@) =~= b.push(prompts@[i as int].name@));
        }
        i += 1;
    }
    assert(pv.take(prompts.len() as int) =~= pv);
    out
}

// ── Dispatch ────────────────────────────────────────────────────────

/// What `repo prompt <args>` does.
pub enum PromptAction {
    Help,
    /// Write the built-ins to `.repo/prompts/` (report as JSON when asked).
    Init { json: bool },
    /// List the prompts, filtered by tag when one is given.
    List { json: bool, tag: Option<String> },
    /// Print the named prompt's body.
    Show(String),
}

/// The dispatch of `prompt`: help wins; a first argument that is not a flag
/// is the subcommand (`init`, `list`, or a prompt name); without one the
/// prompts are listed.
pub open spec fn prompt_action_ok(args: Seq<Seq<char>>, act: PromptAction) -> bool {
    let json = has_arg(args, "--json"@);
    let tag = tag_arg_from(args, 0);
    if wants_help_s(args) {
        act is Help
    } else if args.len() > 0 && !is_flag(args[0]) && args[0] == "init"@ {
        act == PromptAction::Init { json }
    } else if args.len() > 0 && !is_flag(args[0]) && args[0] != "list"@ {
        act matches PromptAction::Show(n) && n@ == args[0]
    } else {
        act matches PromptAction::List { json: j, tag: t } && j == json && match t {
            Some(s) => tag == Some(s@),
            None => tag is None,
        }
    }
}

/// Decides what `prompt <args>` does (see [`prompt_action_ok`]).
pub fn plan_prompt_run(args: &[&str]) -> (r: PromptAction)
    ensures
        prompt_action_ok(arg_views(args@), r),
{
    let ghost av = arg_views(args@);
    if crate::args::wants_help(args) {
        return PromptAction::Help;
    }
    let json = contains_arg(args, "--json");
    if args.len() > 0 && !starts_with_dash(args[0]) {
        assert(av[0] == args@[0]@);
        let first = chars_of(args[0]);
        if seq_eq(&first, &chars_of("init")) {
            return PromptAction::Init { json };
        }
        if !seq_eq(&first, &chars_of("list")) {
            return PromptAction::Show(owned(args[0]));
        }
    }
    PromptAction::List { json, tag: tag_filter(args) }
}

// ── Listing footer ──────────────────────────────────────────────────

/// How many of the prompts are built in.
pub open spec fn builtin_count(ps: Seq<PromptV>) -> nat
    decreases ps.len(),
{
    if ps.len() == 0 {
        0
    } else {
        builtin_count(ps.drop_last()) + if ps.last().builtin {
            1nat
        } else {
            0nat
        }
    }
}

/// `"{n} built-in, {m} custom"`, leaving out a part whose count is zero.
pub open spec fn source_summary_s(ps: Seq<PromptV>) -> Seq<char> {
    let b = builtin_count(ps);
    let c = (ps.len() - b) as nat;
    if b > 0 && c > 0 {
        dec(b) + " built-in, "@ + dec(c) + " custom"@
    } else if b > 0 {
        dec(b) + " built-in"@
    } else if c > 0 {
        dec(c) + " custom"@
    } else {
        Seq::empty()
    }
}

/// The footer of the prompt table: how many are built in and how many custom.
pub fn source_summary(prompts: &Vec<Prompt>) -> (r: String)
    ensures
        r@ == source_summary_s(prompt_views(prompts@)),
{
    let ghost pv = prompt_views(prompts@);
    let mut b: usize = 0;
    let mut i: usize = 0;
    while i < prompts.len()
        invariant
            i <= prompts.len(),
            pv == prompt_views(prompts@),
            b == builtin_count(pv.take(i as int)),
            b <= i,
        decreases prompts.len() - i,
    {
        assert(pv.take(i + 1).drop_last() =~= pv.take(i as int));
        assert(pv.take(i + 1).last() == prompts@[i as int]@);
        if prompts[i].builtin {
            b += 1;
        }
        i += 1;
    }
    assert(pv.take(prompts.len() as int) =~= pv);
    let c = prompts.len() - b;
    let mut out = String::new();
    if b > 0 {
        out.append(usize_to_string(b).as_str());
        out.append(" built-in");
    }
    if b > 0 && c > 0 {
        out.append(", ");
    }
    if c > 0 {
        out.append(usize_to_string(c).as_str());
        out.append(" custom");
    }
    proof {
        reveal_strlit(" built-in, ");
        reveal_strlit(" built-in");
        reveal_strlit(", ");
        reveal_strlit(" custom");
    }
    assert(out@ =~= source_summary_s(pv));
    out
}

} // verus!

//! PlanSchema JSON plans in `.repo/storage/`: title, date, status and
//! per-step progress.
use vstd::prelude::*;
use crate::docs::model::{phase_complete, phase_views, Doc, DocV, PhaseV, PlanPhase};
use crate::docs::markdown::{fallback_title, name_or_empty};
use crate::paths::{dashes_to_spaces, file_name_or_empty, last_index_of, stem_title};
use crate::paths::find_last;
use crate::text::{
    boundary_from, byte_boundary, chars_of, char_len_of, concat, lemma_utf8_le4,
    lemma_utf8_take_step, owned, seq_eq, string_of, subvec, trim, trim_s, utf8_len,
    utf8_len_sat, utf8_len_wide,
};

verus! {

/// A JSON value as the plan logic reads it. Numbers keep only their value as
/// a non-negative integer (what `as_u64` gives).
pub enum Json {
    Null,
    Bool(bool),
    Number(Option<u64>),
    Str(String),
    Array(Vec<Json>),
    Object(Vec<(String, Json)>),
}

#[verifier::external_type_specification]
#[verifier::external_body]
pub struct ExJsonValue(serde_json::Value);

/// What parsing `s` with `serde_json::from_str::<Value>` gives, if it parses.
pub uninterp spec fn json_parse(s: Seq<char>) -> Option<Json>;

/// Converts a `serde_json::Value` variant by variant (objects keep the map's
/// entry order; numbers keep `Number::as_u64`).
#[verifier::external_body]
fn json_from_value(v: serde_json::Value) -> Json {
    match v {
        serde_json::Value::Null => Json::Null,
        serde_json::Value::Bool(b) => Json::Bool(b),
        serde_json::Value::Number(n) => Json::Number(n.as_u64()),
        serde_json::Value::String(s) => Json::Str(s),
        serde_json::Value::Array(a) => Json::Array(a.into_iter().map(json_from_value).collect()),
        serde_json::Value::Object(o) => Json::Object(
            o.into_iter().map(|(k, v)| (k, json_from_value(v))).collect(),
        ),
    }
}

/// Parses JSON text with `serde_json::from_str`; `None` when it does not parse.
#[verifier::external_body]
fn parse_json(s: &str) -> (r: Option<Json>)
    ensures
        r == json_parse(s@),
{
    match serde_json::from_str::<serde_json::Value>(s) {
        Ok(v) => Some(json_from_value(v)),
        Err(_) => None,
    }
}

// ── Reading values ──────────────────────────────────────────────────

pub open spec fn entry_get(es: Seq<(String, Json)>, key: Seq<char>) -> Option<Json>
    decreases es.len(),
{
    if es.len() == 0 {
        None
    } else if es[0].0@ == key {
        Some(es[0].1)
    } else {
        entry_get(es.drop_first(), key)
    }
}

/// `value.get(key)`: the member of an object.
pub open spec fn jget(j: Option<Json>, key: Seq<char>) -> Option<Json> {
    match j {
        Some(Json::Object(es)) => entry_get(es@, key),
        _ => None,
    }
}

pub open spec fn jstr(j: Option<Json>) -> Option<Seq<char>> {
    match j {
        Some(Json::Str(s)) => Some(s@),
        _ => None,
    }
}

pub open spec fn ju64(j: Option<Json>) -> Option<u64> {
    match j {
        Some(Json::Number(n)) => n,
        _ => None,
    }
}

pub open spec fn jarr(j: Option<Json>) -> Option<Seq<Json>> {
    match j {
        Some(Json::Array(a)) => Some(a@),
        _ => None,
    }
}

pub open spec fn is_object(j: Option<Json>) -> bool {
    j matches Some(Json::Object(_))
}

/// The member `key` of `j`, if `j` is an object that has it.
pub fn get<'a>(j: &'a Json, key: &str) -> (r: Option<&'a Json>)
    ensures
        match r {
            Some(x) => jget(Some(*j), key@) == Some(*x),
            None => jget(Some(*j), key@) is None,
        },
{
    match j {
        Json::Object(es) => {
            let k = chars_of(key);
            let mut i: usize = 0;
            assert(es@.skip(0) =~= es@);
            while i < es.len()
                invariant
                    i <= es.len(),
                    k@ == key@,
                    *j == Json::Object(*es),
                    entry_get(es@, key@) == entry_get(es@.skip(i as int), key@),
                decreases es.len() - i,
            {
                assert(es@.skip(i as int).drop_first() =~= es@.skip(i + 1));
                assert(es@.skip(i as int)[0] == es@[i as int]);
                if seq_eq(&chars_of(es[i].0.as_str()), &k) {
                    assert(entry_get(es@.skip(i as int), key@) == Some(es@[i as int].1));
                    return Some(&es[i].1);
                }
                i += 1;
            }
            None
        },
        _ => None,
    }
}

/// The member `key` of an optional value.
pub fn get_opt<'a>(j: Option<&'a Json>, key: &str) -> (r: Option<&'a Json>)
    ensures
        match r {
            Some(x) => jget(opt_val(j), key@) == Some(*x),
            None => jget(opt_val(j), key@) is None,
        },
{
    match j {
        Some(v) => get(v, key),
        None => None,
    }
}

pub open spec fn opt_val(j: Option<&Json>) -> Option<Json> {
    match j {
        Some(x) => Some(*x),
        None => None,
    }
}

/// The string of a string value.
pub fn as_str(j: Option<&Json>) -> (r: Option<&String>)
    ensures
        match r {
            Some(s) => jstr(opt_val(j)) == Some(s@),
            None => jstr(opt_val(j)) is None,
        },
{
    match j {
        Some(Json::Str(s)) => Some(s),
        _ => None,
    }
}

/// The value of a non-negative integer.
pub fn as_u64(j: Option<&Json>) -> (r: Option<u64>)
    ensures
        r == ju64(opt_val(j)),
{
    match j {
        Some(Json::Number(n)) => *n,
        _ => None,
    }
}

/// The items of an array.
pub fn as_array(j: Option<&Json>) -> (r: Option<&Vec<Json>>)
    ensures
        match r {
            Some(a) => jarr(opt_val(j)) == Some(a@),
            None => jarr(opt_val(j)) is None,
        },
{
    match j {
        Some(Json::Array(a)) => Some(a),
        _ => None,
    }
}

// ── Step progress ───────────────────────────────────────────────────

/// `usize::try_from(x).unwrap_or(usize::MAX)`.
pub open spec fn clamp(x: u64) -> usize {
    if x <= usize::MAX {
        x as usize
    } else {
        usize::MAX
    }
}

fn clamp_exec(x: u64) -> (r: usize)
    ensures
        r == clamp(x),
{
    if x <= usize::MAX as u64 {
        x as usize
    } else {
        usize::MAX
    }
}

/// `(done, total)` of a step from its `validationBudget`: `valDone`/`valReq`,
/// else `performed`/`required`, else `(0, 1)`.
pub open spec fn step_progress_s(step: Json) -> (usize, usize) {
    let b = jget(Some(step), "validationBudget"@);
    if !is_object(b) {
        (0, 1)
    } else {
        match (ju64(jget(b, "valReq"@)), ju64(jget(b, "valDone"@))) {
            (Some(total), Some(done)) => (clamp(done), clamp(total)),
            _ => match (ju64(jget(b, "required"@)), ju64(jget(b, "performed"@))) {
                (Some(total), Some(done)) => (clamp(done), clamp(total)),
                _ => (0, 1),
            },
        }
    }
}

/// The progress a step reports.
pub fn step_progress(step: &Json) -> (r: (usize, usize))
    ensures
        r == step_progress_s(*step),
{
    let b = get(step, "validationBudget");
    match b {
        Some(Json::Object(_)) => {},
        _ => return (0, 1),
    }
    match (as_u64(get_opt(b, "valReq")), as_u64(get_opt(b, "valDone"))) {
        (Some(total), Some(done)) => return (clamp_exec(done), clamp_exec(total)),
        _ => {},
    }
    match (as_u64(get_opt(b, "required")), as_u64(get_opt(b, "performed"))) {
        (Some(total), Some(done)) => (clamp_exec(done), clamp_exec(total)),
        _ => (0, 1),
    }
}

// ── Phases from steps ───────────────────────────────────────────────

/// The string ids of `steps`, in order.
pub open spec fn step_ids(steps: Seq<Json>) -> Seq<Seq<char>>
    decreases steps.len(),
{
    if steps.len() == 0 {
        seq![]
    } else {
        match jstr(jget(Some(steps.last()), "id"@)) {
            Some(id) => step_ids(steps.drop_last()).push(id),
            None => step_ids(steps.drop_last()),
        }
    }
}

/// The strings among `items`, in order.
pub open spec fn strs(items: Seq<Json>) -> Seq<Seq<char>>
    decreases items.len(),
{
    if items.len() == 0 {
        seq![]
    } else {
        match items.last() {
            Json::Str(s) => strs(items.drop_last()).push(s@),
            _ => strs(items.drop_last()),
        }
    }
}

/// The last step whose id is `id`.
pub open spec fn step_by_id(steps: Seq<Json>, id: Seq<char>) -> Option<Json>
    decreases steps.len(),
{
    if steps.len() == 0 {
        None
    } else if jstr(jget(Some(steps.last()), "id"@)) == Some(id) {
        Some(steps.last())
    } else {
        step_by_id(steps.drop_last(), id)
    }
}

pub open spec fn group_has(g: Json, id: Seq<char>) -> bool {
    match g {
        Json::Array(a) => exists|i: int| 0 <= i < a@.len() && (#[trigger] a@[i] matches Json::Str(s) && s@ == id),
        _ => false,
    }
}

/// The index of the last parallel group listing `id`.
pub open spec fn group_of(groups: Seq<Json>, id: Seq<char>) -> Option<int>
    decreases groups.len(),
{
    if groups.len() == 0 {
        None
    } else if group_has(groups.last(), id) {
        Some(groups.len() - 1)
    } else {
        group_of(groups.drop_last(), id)
    }
}

/// The marker of a step in a parallel group: first, middle, last, or alone.
pub open spec fn tag_s(g: Option<int>, prev: Option<int>, next: Option<int>) -> Seq<char> {
    match g {
        None => seq![],
        Some(gi) => {
            let p = prev == Some(gi);
            let n = next == Some(gi);
            if !p && n {
                "\u{250c} "@
            } else if p && n {
                "\u{251c} "@
            } else if p && !n {
                "\u{2514} "@
            } else {
                "\u{2500} "@
            }
        },
    }
}

/// The members `executionOrder.<key>` of a plan.
pub open spec fn exec_order(obj: Json, key: Seq<char>) -> Option<Json> {
    jget(jget(Some(obj), "executionOrder"@), key)
}

/// The step ids in execution order: `executionOrder.sequence`, else the
/// steps' own order.
pub open spec fn ordered_ids(obj: Json, steps: Seq<Json>) -> Seq<Seq<char>> {
    match jarr(exec_order(obj, "sequence"@)) {
        Some(seq) => strs(seq),
        None => step_ids(steps),
    }
}

pub open spec fn groups_of(obj: Json) -> Seq<Json> {
    match jarr(exec_order(obj, "parallelizableGroups"@)) {
        Some(g) => g,
        None => seq![],
    }
}

/// The `i`-th phase: `[size] title` with a group marker, and the step's
/// progress (`(0, 1)` for an unknown id).
pub open spec fn phase_at(obj: Json, steps: Seq<Json>, ids: Seq<Seq<char>>, i: int) -> PhaseV {
    let id = ids[i];
    let groups = groups_of(obj);
    let step = step_by_id(steps, id);
    let title = match jstr(jget(step, "title"@)) {
        Some(t) => t,
        None => id,
    };
    let size = match jstr(jget(step, "size"@)) {
        Some(s) => s,
        None => "?"@,
    };
    let prev = if i > 0 {
        group_of(groups, ids[i - 1])
    } else {
        None
    };
    let next = if i + 1 < ids.len() {
        group_of(groups, ids[i + 1])
    } else {
        None
    };
    let tag = tag_s(group_of(groups, id), prev, next);
    let (done, total) = match step {
        Some(s) => step_progress_s(s),
        None => (0usize, 1usize),
    };
    PhaseV { name: tag + "["@ + size + "] "@ + title, done, total }
}

/// The pseudo-phases of a plan: one per step, in execution order.
pub open spec fn json_phases_s(obj: Json) -> Seq<PhaseV> {
    match jarr(jget(Some(obj), "steps"@)) {
        None => seq![],
        Some(steps) => if steps.len() == 0 {
            seq![]
        } else {
            let ids = ordered_ids(obj, steps);
            Seq::new(ids.len(), |i: int| phase_at(obj, steps, ids, i))
        },
    }
}

fn collect_step_ids(steps: &Vec<Json>) -> (r: Vec<String>)
    ensures
        r@.map_values(|s: String| s@) == step_ids(steps@),
{
    let mut r: Vec<String> = Vec::new();
    let mut i: usize = 0;
    while i < steps.len()
        invariant
            i <= steps.len(),
            r@.map_values(|s: String| s@) == step_ids(steps@.take(i as int)),
        decreases steps.len() - i,
    {
        assert(steps@.take(i + 1).drop_last() =~= steps@.take(i as int));
        assert(steps@.take(i + 1).last() == steps@[i as int]);
        match as_str(get(&steps[i], "id")) {
            Some(id) => {
                let ghost b = r@.map_values(|s: String| s@);
                r.push(id.clone());
                assert(r@.map_values(|s: String| s@) =~= b.push(id@));
            },
            None => {},
        }
        i += 1;
    }
    assert(steps@.take(steps.len() as int) =~= steps@);
    r
}

fn collect_strs(items: &Vec<Json>) -> (r: Vec<String>)
    ensures
        r@.map_values(|s: String| s@) == strs(items@),
{
    let mut r: Vec<String> = Vec::new();
    let mut i: usize = 0;
    while i < items.len()
        invariant
            i <= items.len(),
            r@.map_values(|s: String| s@) == strs(items@.take(i as int)),
        decreases items.len() - i,
    {
        assert(items@.take(i + 1).drop_last() =~= items@.take(i as int));
        assert(items@.take(i + 1).last() == items@[i as int]);
        match &items[i] {
            Json::Str(s) => {
                let ghost b = r@.map_values(|s: String| s@);
                r.push(s.clone());
                assert(r@.map_values(|s: String| s@) =~= b.push(s@));
            },
            _ => {},
        }
        i += 1;
    }
    assert(items@.take(items.len() as int) =~= items@);
    r
}

fn find_step<'a>(steps: &'a Vec<Json>, id: &String) -> (r: Option<&'a Json>)
    ensures
        opt_val(r) == step_by_id(steps@, id@),
{
    let mut i = steps.len();
    assert(steps@.take(i as int) =~= steps@);
    while i > 0
        invariant
            i <= steps.len(),
            step_by_id(steps@, id@) == step_by_id(steps@.take(i as int), id@),
        decreases i,
    {
        assert(steps@.take(i as int).drop_last() =~= steps@.take(i - 1));
        assert(steps@.take(i as int).last() == steps@[i - 1]);
        match as_str(get(&steps[i - 1], "id")) {
            Some(s) => {
                if seq_eq(&chars_of(s.as_str()), &chars_of(id.as_str())) {
                    return Some(&steps[i - 1]);
                }
            },
            None => {},
        }
        i -= 1;
    }
    None
}

fn in_group(g: &Json, id: &String) -> (r: bool)
    ensures
        r == group_has(*g, id@),
{
    match g {
        Json::Array(a) => {
            let mut i: usize = 0;
            while i < a.len()
                invariant
                    i <= a.len(),
                    *g == Json::Array(*a),
                    forall|j: int|
                        0 <= j < i ==> !(#[trigger] a@[j] matches Json::Str(s) && s@ == id@),
                decreases a.len() - i,
            {
                match &a[i] {
                    Json::Str(s) => {
                        if seq_eq(&chars_of(s.as_str()), &chars_of(id.as_str())) {
                            assert(a@[i as int] matches Json::Str(x) && x@ == id@);
                            assert(*g == Json::Array(*a));
                            return true;
                        }
                    },
                    _ => {},
                }
                i += 1;
            }
            false
        },
        _ => false,
    }
}

fn find_group(groups: &Vec<Json>, id: &String) -> (r: Option<usize>)
    ensures
        match r {
            Some(g) => group_of(groups@, id@) == Some(g as int),
            None => group_of(groups@, id@) is None,
        },
{
    let mut i = groups.len();
    assert(groups@.take(i as int) =~= groups@);
    while i > 0
        invariant
            i <= groups.len(),
            group_of(groups@, id@) == group_of(groups@.take(i as int), id@),
        decreases i,
    {
        assert(groups@.take(i as int).drop_last() =~= groups@.take(i - 1));
        assert(groups@.take(i as int).last() == groups@[i - 1]);
        if in_group(&groups[i - 1], id) {
            return Some(i - 1);
        }
        i -= 1;
    }
    None
}

fn group_tag(g: Option<usize>, prev: Option<usize>, next: Option<usize>) -> (r: &'static str)
    ensures
        r@ == tag_s(
            match g {
                Some(x) => Some(x as int),
                None => None,
            },
            match prev {
                Some(x) => Some(x as int),
                None => None,
            },
            match next {
                Some(x) => Some(x as int),
                None => None,
            },
        ),
{
    match g {
        None => {
            proof {
                reveal_strlit("");
            }
            ""
        },
        Some(gi) => {
            let p = match prev {
                Some(x) => x == gi,
                None => false,
            };
            let n = match next {
                Some(x) => x == gi,
                None => false,
            };
            if !p && n {
                "\u{250c} "
            } else if p && n {
                "\u{251c} "
            } else if p && !n {
                "\u{2514} "
            } else {
                "\u{2500} "
            }
        },
    }
}

/// One pseudo-phase per step, in execution order, with parallel groups
/// marked `┌`/`├`/`└` and each step's validation progress.
pub fn extract_json_phases(obj: &Json) -> (r: Vec<PlanPhase>)
    ensures
        phase_views(r@) == json_phases_s(*obj),
{
    let steps = match as_array(get(obj, "steps")) {
        Some(s) => s,
        None => {
            assert(phase_views(Seq::<PlanPhase>::empty()) =~= Seq::<PhaseV>::empty());
            return Vec::new();
        },
    };
    if steps.len() == 0 {
        assert(phase_views(Seq::<PlanPhase>::empty()) =~= Seq::<PhaseV>::empty());
        return Vec::new();
    }
    let eo = get(obj, "executionOrder");
    let empty: Vec<Json> = Vec::new();
    let groups: &Vec<Json> = match as_array(get_opt(eo, "parallelizableGroups")) {
        Some(g) => g,
        None => &empty,
    };
    assert(groups@ == groups_of(*obj));
    let ids: Vec<String> = match as_array(get_opt(eo, "sequence")) {
        Some(seq) => collect_strs(seq),
        None => collect_step_ids(steps),
    };
    let ghost idv = ids@.map_values(|s: String| s@);
    assert(idv == ordered_ids(*obj, steps@));
    let mut out: Vec<PlanPhase> = Vec::new();
    let mut i: usize = 0;
    while i < ids.len()
        invariant
            i <= ids.len(),
            idv == ids@.map_values(|s: String| s@),
            idv == ordered_ids(*obj, steps@),
            groups@ == groups_of(*obj),
            jarr(jget(Some(*obj), "steps"@)) == Some(steps@),
            phase_views(out@) == Seq::new(i as nat, |k: int| phase_at(*obj, steps@, idv, k)),
        decreases ids.len() - i,
    {
        let id = &ids[i];
        assert(idv[i as int] == id@);
        let step = find_step(steps, id);
        let title: String = match as_str(get_opt(step, "title")) {
            Some(t) => t.clone(),
            None => id.clone(),
        };
        let size: String = match as_str(get_opt(step, "size")) {
            Some(s) => s.clone(),
            None => owned("?"),
        };
        let g = find_group(groups, id);
        let prev = if i > 0 {
            assert(idv[i - 1] == ids@[i - 1]@);
            find_group(groups, &ids[i - 1])
        } else {
            None
        };
        let next = if i + 1 < ids.len() {
            assert(idv[i + 1] == ids@[i + 1]@);
            find_group(groups, &ids[i + 1])
        } else {
            None
        };
        let tag = group_tag(g, prev, next);
        let mut name = owned(tag);
        name.append("[");
        name.append(size.as_str());
        name.append("] ");
        name.append(title.as_str());
        let (done, total) = match step {
            Some(s) => step_progress(s),
            None => (0, 1),
        };
        let ghost b = phase_views(out@);
        let p = PlanPhase { name, done, total };
        out.push(p);
        assert(phase_views(out@) =~= b.push(p@));
        proof {
            assert(p@ == phase_at(*obj, steps@, idv, i as int));
            assert(phase_views(out@) =~= Seq::new(
                (i + 1) as nat,
                |k: int| phase_at(*obj, steps@, idv, k),
            ));
        }
        i += 1;
    }
    out
}

// ── Status ──────────────────────────────────────────────────────────

pub open spec fn all_complete(ps: Seq<PhaseV>) -> bool {
    forall|i: int| 0 <= i < ps.len() ==> phase_complete(#[trigger] ps[i])
}

pub open spec fn started(p: PhaseV) -> bool {
    p.done > 0
}

pub open spec fn any_progress(ps: Seq<PhaseV>) -> bool {
    exists|i: int| 0 <= i < ps.len() && started(#[trigger] ps[i])
}

/// A plan's status: `complete` when every phase is done (whatever it says),
/// else its `metadata.status`, else `active` with progress or a version
/// history, else `proposal`.
pub open spec fn plan_status_s(obj: Json, ps: Seq<PhaseV>) -> Seq<char> {
    let meta = jget(Some(obj), "metadata"@);
    if ps.len() > 0 && all_complete(ps) {
        "complete"@
    } else if jstr(jget(meta, "status"@)) is Some {
        jstr(jget(meta, "status"@)).unwrap()
    } else if ps.len() > 0 && any_progress(ps) {
        "active"@
    } else if (match jarr(jget(meta, "versionHistory"@)) {
        Some(a) => a.len() > 0,
        None => false,
    }) {
        "active"@
    } else {
        "proposal"@
    }
}

/// How a plan's status follows from its phases and metadata: with at least
/// one phase and every phase complete (tasks, all done) it is `complete`
/// whatever `metadata.status` says; otherwise a string `metadata.status`
/// wins; otherwise some phase with a done task makes it `active`; otherwise
/// a non-empty `versionHistory` makes it `active`, and nothing makes it
/// `proposal`.
pub proof fn law_plan_status(obj: Json, ps: Seq<PhaseV>)
    ensures
        ({
            let meta = jget(Some(obj), "metadata"@);
            let complete = ps.len() > 0 && forall|i: int|
                0 <= i < ps.len() ==> (#[trigger] ps[i]).total > 0 && ps[i].done == ps[i].total;
            let progress = exists|i: int| 0 <= i < ps.len() && (#[trigger] ps[i]).done > 0;
            let history = match jarr(jget(meta, "versionHistory"@)) {
                Some(a) => a.len() > 0,
                None => false,
            };
            &&& complete ==> plan_status_s(obj, ps) == "complete"@
            &&& !complete && jstr(jget(meta, "status"@)) is Some ==> plan_status_s(obj, ps) == jstr(
                jget(meta, "status"@),
            ).unwrap()
            &&& !complete && jstr(jget(meta, "status"@)) is None && progress ==> plan_status_s(
                obj,
                ps,
            ) == "active"@
            &&& !complete && jstr(jget(meta, "status"@)) is None && !progress ==> plan_status_s(
                obj,
                ps,
            ) == if history {
                "active"@
            } else {
                "proposal"@
            }
        }),
{
    let complete = ps.len() > 0 && forall|i: int|
        0 <= i < ps.len() ==> (#[trigger] ps[i]).total > 0 && ps[i].done == ps[i].total;
    assert(complete == (ps.len() > 0 && all_complete(ps)));
    let progress = exists|i: int| 0 <= i < ps.len() && (#[trigger] ps[i]).done > 0;
    assert(progress == any_progress(ps)) by {
        if progress {
            let i = choose|i: int| 0 <= i < ps.len() && (#[trigger] ps[i]).done > 0;
            assert(started(ps[i]));
        }
        if any_progress(ps) {
            let i = choose|i: int| 0 <= i < ps.len() && started(#[trigger] ps[i]);
            assert(ps[i].done > 0);
        }
    }
}

/// Derives a plan's status (see [`plan_status_s`]).
pub fn derive_plan_status(obj: &Json, phases: &[PlanPhase]) -> (r: String)
    ensures
        r@ == plan_status_s(*obj, phase_views(phases@)),
{
    let ghost ps = phase_views(phases@);
    if phases.len() > 0 {
        let mut all = true;
        let mut i: usize = 0;
        while i < phases.len()
            invariant
                i <= phases.len(),
                ps == phase_views(phases@),
                all == (forall|j: int| 0 <= j < i ==> phase_complete(#[trigger] ps[j])),
            decreases phases.len() - i,
        {
            assert(ps[i as int] == phases@[i as int]@);
            if !(phases[i].total > 0 && phases[i].done == phases[i].total) {
                all = false;
            }
            i += 1;
        }
        if all {
            return owned("complete");
        }
    }
    let meta = get(obj, "metadata");
    if let Some(s) = as_str(get_opt(meta, "status")) {
        return s.clone();
    }
    if phases.len() > 0 {
        let mut any = false;
        let mut i: usize = 0;
        while i < phases.len()
            invariant
                i <= phases.len(),
                ps == phase_views(phases@),
                any == (exists|j: int| 0 <= j < i && started(#[trigger] ps[j])),
            decreases phases.len() - i,
        {
            assert(ps[i as int] == phases@[i as int]@);
            if phases[i].done > 0 {
                any = true;
            }
            i += 1;
        }
        if any {
            return owned("active");
        }
    }
    let has_history = match as_array(get_opt(meta, "versionHistory")) {
        Some(a) => a.len() > 0,
        None => false,
    };
    if has_history {
        owned("active")
    } else {
        owned("proposal")
    }
}

// ── Titles ──────────────────────────────────────────────────────────

/// The first early cut of a title: the trimmed text before a `:` or `;` at
/// byte offset `1..=max`, if that keeps at least `max / 3` bytes.
pub open spec fn early_cut_from(s: Seq<char>, max: nat, k: int) -> Option<Seq<char>>
    decreases s.len() - k,
{
    if k < 0 || k >= s.len() {
        None
    } else {
        let i = utf8_len(s.take(k));
        if i > 0 && i <= max && (s[k] == ':' || s[k] == ';') && utf8_len(trim_s(s.take(k)))
            >= max / 3 {
            Some(trim_s(s.take(k)))
        } else {
            early_cut_from(s, max, k + 1)
        }
    }
}

/// Cutting the title will not split a character (nor underflow).
pub open spec fn title_cut_ok(s: Seq<char>, max: nat) -> bool {
    (early_cut_from(s, max, 0) is None && utf8_len(s) > max) ==> (max >= 3 && boundary_from(
        s,
        (max - 3) as nat,
        0,
    ) is Some)
}

/// A title of at most about `max` bytes: cut at an early `:`/`;`, kept
/// whole when short, else cut at `max - 3` bytes (at the last space past
/// `max / 2` if any) with `...` appended.
pub open spec fn truncate_title_s(s: Seq<char>, max: nat) -> Seq<char> {
    match early_cut_from(s, max, 0) {
        Some(c) => c,
        None => if utf8_len(s) <= max {
            s
        } else {
            let k = boundary_from(s, (max - 3) as nat, 0).unwrap();
            let t = s.take(k);
            let j = last_index_of(t, ' ');
            if j >= 0 && utf8_len(t.take(j)) > max / 2 {
                s.take(j) + "..."@
            } else {
                t + "..."@
            }
        },
    }
}

/// Shortens a title (see [`truncate_title_s`]).
pub fn truncate_title(s: &str, max: usize) -> (r: String)
    requires
        title_cut_ok(s@, max as nat),
    ensures
        r@ == truncate_title_s(s@, max as nat),
{
    let v = chars_of(s);
    let mut off: u128 = 0;
    let mut k: usize = 0;
    assert(v@ == s@);
    while k < v.len()
        invariant
            k <= v.len(),
            v@ == s@,
            off == utf8_len(v@.take(k as int)),
            early_cut_from(s@, max as nat, 0) == early_cut_from(s@, max as nat, k as int),
        decreases v.len() - k,
    {
        let c = v[k];
        if off > 0 && off <= max as u128 && (c == ':' || c == ';') {
            let head = subvec(&v, 0, k);
            assert(head@ =~= v@.take(k as int));
            let cand = trim(&head);
            if utf8_len_wide(&cand) >= (max / 3) as u128 {
                assert(s@.take(k as int) == v@.take(k as int));
                assert(utf8_len(s@.take(k as int)) > 0);
                assert(utf8_len(s@.take(k as int)) <= max);
                assert(s@[k as int] == c);
                assert(cand@ == trim_s(s@.take(k as int)));
                assert(utf8_len(cand@) >= max as nat / 3);
                assert(early_cut_from(s@, max as nat, k as int) == Some(cand@));
                return string_of(&cand);
            }
        }
        proof {
            lemma_utf8_take_step(v@, k as int);
            lemma_utf8_le4(v@.take(k + 1));
        }
        off = off + char_len_of(c) as u128;
        k += 1;
    }
    assert(v@.take(v.len() as int) =~= v@);
    assert(early_cut_from(s@, max as nat, v.len() as int) is None);
    if off <= max as u128 {
        return owned(s);
    }
    let cut = max - 3;
    let kb = byte_boundary(&v, cut).unwrap();
    let t = subvec(&v, 0, kb);
    assert(t@ =~= v@.take(kb as int));
    let dots = chars_of("...");
    match find_last(&t, ' ') {
        Some(j) => {
            let tj = subvec(&t, 0, j);
            assert(tj@ =~= t@.take(j as int));
            if utf8_len_wide(&tj) > (max / 2) as u128 {
                let sj = subvec(&v, 0, j);
                assert(sj@ =~= v@.take(j as int));
                return string_of(&concat(&sj, &dots));
            }
            string_of(&concat(&t, &dots))
        },
        None => string_of(&concat(&t, &dots)),
    }
}

/// The date part of an ISO timestamp: its first 10 bytes when longer.
pub open spec fn date_part_s(d: Seq<char>) -> Seq<char> {
    if utf8_len(d) >= 10 {
        d.take(boundary_from(d, 10, 0).unwrap())
    } else {
        d
    }
}

pub open spec fn date_cut_ok(d: Seq<char>) -> bool {
    utf8_len(d) >= 10 ==> boundary_from(d, 10, 0) is Some
}

fn date_part(d: &String) -> (r: String)
    requires
        date_cut_ok(d@),
    ensures
        r@ == date_part_s(d@),
{
    let v = chars_of(d.as_str());
    if utf8_len_sat(&v) >= 10 {
        let k = byte_boundary(&v, 10).unwrap();
        let t = subvec(&v, 0, k);
        assert(t@ =~= v@.take(k as int));
        string_of(&t)
    } else {
        d.clone()
    }
}

// ── Plans ───────────────────────────────────────────────────────────

pub open spec fn meta_of(obj: Json) -> Option<Json> {
    jget(Some(obj), "metadata"@)
}

pub open spec fn problem_of(obj: Json) -> Option<Json> {
    let p = jget(Some(obj), "problem"@);
    if is_object(p) {
        p
    } else {
        None
    }
}

pub open spec fn plan_id_s(obj: Json) -> Seq<char> {
    match jstr(jget(meta_of(obj), "planId"@)) {
        Some(s) => s,
        None => seq![],
    }
}

/// The raw date: `updatedAt` if present, else `createdAt`, if a string.
pub open spec fn raw_date_s(obj: Json) -> Option<Seq<char>> {
    let m = meta_of(obj);
    let d = match jget(m, "updatedAt"@) {
        Some(x) => Some(x),
        None => jget(m, "createdAt"@),
    };
    jstr(d)
}

/// Neither the text the title is cut from (see [`plan_title_s`]) nor the
/// date would be cut through a character.
pub open spec fn plan_json_ok(obj: Json) -> bool {
    let pr = problem_of(obj);
    &&& (match jstr(jget(pr, "successOutcome"@)) {
        Some(s) => title_cut_ok(s, 72),
        None => plan_id_s(obj).len() > 0 || match jstr(jget(pr, "problemStatement"@)) {
            Some(s) => title_cut_ok(s, 72),
            None => true,
        },
    })
    &&& (match raw_date_s(obj) {
        Some(d) => date_cut_ok(d),
        None => true,
    })
}

/// A plan's title: the (shortened) success outcome, else the plan id with
/// dashes as spaces, else the (shortened) problem statement, else the file
/// stem.
pub open spec fn plan_title_s(obj: Json, path: Seq<char>) -> Seq<char> {
    let pr = problem_of(obj);
    match jstr(jget(pr, "successOutcome"@)) {
        Some(s) => truncate_title_s(s, 72),
        None => if plan_id_s(obj).len() > 0 {
            dashes_to_spaces(plan_id_s(obj))
        } else {
            match jstr(jget(pr, "problemStatement"@)) {
                Some(s) => truncate_title_s(s, 72),
                None => fallback_title(path),
            }
        },
    }
}

/// Phases with every one marked done, as for a plan declared complete.
pub open spec fn all_done(ps: Seq<PhaseV>) -> Seq<PhaseV> {
    ps.map_values(
        |p: PhaseV|
            if p.done < p.total {
                PhaseV { done: p.total, ..p }
            } else {
                p
            },
    )
}

/// Marking a plan's phases done keeps each phase's name and task count and
/// raises its done count to its task count (never lowering it).
pub proof fn law_all_done(ps: Seq<PhaseV>)
    ensures
        all_done(ps).len() == ps.len(),
        forall|i: int|
            0 <= i < ps.len() ==> {
                let q = #[trigger] all_done(ps)[i];
                &&& q.name == ps[i].name
                &&& q.total == ps[i].total
                &&& q.done == if ps[i].done < ps[i].total {
                    ps[i].total
                } else {
                    ps[i].done
                }
            },
{
}

/// The document a PlanSchema file describes: it needs a string
/// `schemaVersion` and a `metadata` object.
pub open spec fn plan_doc_s(obj: Json, path: Seq<char>) -> Option<DocV> {
    if !(obj matches Json::Object(_)) || jstr(jget(Some(obj), "schemaVersion"@)) is None
        || !is_object(meta_of(obj)) {
        None
    } else {
        let phases = json_phases_s(obj);
        let status = plan_status_s(obj, phases);
        Some(
            DocV {
                file: name_or_empty(path),
                title: plan_title_s(obj, path),
                version: match jstr(jget(meta_of(obj), "version"@)) {
                    Some(v) => v,
                    None => seq![],
                },
                status: status,
                date: match raw_date_s(obj) {
                    Some(d) => date_part_s(d),
                    None => "\u{2014}"@,
                },
                phases: if status == "complete"@ {
                    all_done(phases)
                } else {
                    phases
                },
            },
        )
    }
}

fn dashes(s: &String) -> (r: String)
    ensures
        r@ == dashes_to_spaces(s@),
{
    let v = chars_of(s.as_str());
    let mut out: Vec<char> = Vec::new();
    let mut i: usize = 0;
    while i < v.len()
        invariant
            i <= v.len(),
            out@ == dashes_to_spaces(v@.take(i as int)),
        decreases v.len() - i,
    {
        out.push(if v[i] == '-' { ' ' } else { v[i] });
        i += 1;
        assert(out@ =~= dashes_to_spaces(v@.take(i as int)));
    }
    assert(v@.take(v.len() as int) =~= v@);
    string_of(&out)
}

fn is_complete(s: &String) -> (r: bool)
    ensures
        r == (s@ == "complete"@),
{
    seq_eq(&chars_of(s.as_str()), &chars_of("complete"))
}

/// The listing entry of a parsed PlanSchema document.
pub fn plan_from_json(obj: &Json, path: &str) -> (r: Option<Doc>)
    requires
        plan_json_ok(*obj),
    ensures
        match r {
            Some(d) => plan_doc_s(*obj, path@) == Some(d@),
            None => plan_doc_s(*obj, path@) is None,
        },
{
    match obj {
        Json::Object(_) => {},
        _ => return None,
    }
    if as_str(get(obj, "schemaVersion")).is_none() {
        return None;
    }
    let meta = get(obj, "metadata");
    match meta {
        Some(Json::Object(_)) => {},
        _ => return None,
    }
    let pr0 = get(obj, "problem");
    let problem = match pr0 {
        Some(Json::Object(_)) => pr0,
        _ => None,
    };
    assert(opt_val(problem) == problem_of(*obj));
    let plan_id: String = match as_str(get_opt(meta, "planId")) {
        Some(s) => s.clone(),
        None => String::new(),
    };
    let version: String = match as_str(get_opt(meta, "version")) {
        Some(s) => s.clone(),
        None => String::new(),
    };
    let title = match as_str(get_opt(problem, "successOutcome")) {
        Some(s) => truncate_title(s.as_str(), 72),
        None => if !plan_id.as_str().is_empty() {
            dashes(&plan_id)
        } else {
            match as_str(get_opt(problem, "problemStatement")) {
                Some(s) => truncate_title(s.as_str(), 72),
                None => stem_title(path),
            }
        },
    };
    let up = get_opt(meta, "updatedAt");
    let dv = match up {
        Some(_) => up,
        None => get_opt(meta, "createdAt"),
    };
    let date = match as_str(dv) {
        Some(d) => date_part(d),
        None => owned("\u{2014}"),
    };
    let mut phases = extract_json_phases(obj);
    let status = derive_plan_status(obj, &phases);
    let ghost ps = phase_views(phases@);
    if is_complete(&status) {
        let mut fixed: Vec<PlanPhase> = Vec::new();
        let mut i: usize = 0;
        while i < phases.len()
            invariant
                i <= phases.len(),
                ps == phase_views(phases@),
                phase_views(fixed@) == all_done(ps).take(i as int),
            decreases phases.len() - i,
        {
            let p = &phases[i];
            let q = PlanPhase {
                name: p.name.clone(),
                done: if p.done < p.total {
                    p.total
                } else {
                    p.done
                },
                total: p.total,
            };
            let ghost b = phase_views(fixed@);
            fixed.push(q);
            assert(ps[i as int] == phases@[i as int]@);
            assert(phase_views(fixed@) =~= b.push(q@));
            assert(q@ == all_done(ps)[i as int]);
            assert(all_done(ps).take(i + 1) =~= all_done(ps).take(i as int).push(all_done(ps)[i as int]));
            assert(phase_views(fixed@) =~= all_done(ps).take(i + 1));
            i += 1;
        }
        assert(all_done(ps).take(phases.len() as int) =~= all_done(ps));
        phases = fixed;
    }
    let d = Doc { file: file_name_or_empty(path), title, version, status, date, phases };
    proof {
        reveal_strlit("");
        assert(""@ =~= Seq::<char>::empty());
        assert(d@ =~= plan_doc_s(*obj, path@).unwrap());
    }
    Some(d)
}

/// Reads a PlanSchema JSON file. `None` when the text is not JSON, is not a
/// plan, or holds a title or date that the listing could not cut cleanly.
pub fn parse_plan_json(content: &str, path: &str) -> (r: Option<Doc>)
    ensures
        match json_parse(content@) {
            None => r is None,
            Some(obj) => if plan_json_ok(obj) {
                match r {
                    Some(d) => plan_doc_s(obj, path@) == Some(d@),
                    None => plan_doc_s(obj, path@) is None,
                }
            } else {
                r is None
            },
        },
{
    let obj = match parse_json(content) {
        Some(o) => o,
        None => return None,
    };
    if !plan_checks_pass(&obj) {
        return None;
    }
    plan_from_json(&obj, path)
}

fn title_ok(s: &String, max: usize) -> (r: bool)
    requires
        3 <= max,
    ensures
        r == title_cut_ok(s@, max as nat),
{
    let v = chars_of(s.as_str());
    let mut off: u128 = 0;
    let mut k: usize = 0;
    while k < v.len()
        invariant
            k <= v.len(),
            v@ == s@,
            off == utf8_len(v@.take(k as int)),
            early_cut_from(s@, max as nat, 0) == early_cut_from(s@, max as nat, k as int),
        decreases v.len() - k,
    {
        let c = v[k];
        if off > 0 && off <= max as u128 && (c == ':' || c == ';') {
            let head = subvec(&v, 0, k);
            assert(head@ =~= v@.take(k as int));
            let cand = trim(&head);
            if utf8_len_wide(&cand) >= (max / 3) as u128 {
                assert(s@.take(k as int) == v@.take(k as int));
                assert(utf8_len(s@.take(k as int)) > 0);
                assert(utf8_len(s@.take(k as int)) <= max);
                assert(s@[k as int] == c);
                assert(cand@ == trim_s(s@.take(k as int)));
                assert(utf8_len(cand@) >= max as nat / 3);
                assert(early_cut_from(s@, max as nat, k as int) == Some(cand@));
                return true;
            }
        }
        proof {
            lemma_utf8_take_step(v@, k as int);
            lemma_utf8_le4(v@.take(k + 1));
        }
        off = off + char_len_of(c) as u128;
        k += 1;
    }
    assert(v@.take(v.len() as int) =~= v@);
    assert(early_cut_from(s@, max as nat, v.len() as int) is None);
    if off <= max as u128 {
        return true;
    }
    byte_boundary(&v, max - 3).is_some()
}

fn plan_checks_pass(obj: &Json) -> (r: bool)
    ensures
        r == plan_json_ok(*obj),
{
    let pr0 = get(obj, "problem");
    let problem = match pr0 {
        Some(Json::Object(_)) => pr0,
        _ => None,
    };
    let meta = get(obj, "metadata");
    let has_plan_id = match as_str(get_opt(meta, "planId")) {
        Some(id) => !id.as_str().is_empty(),
        None => false,
    };
    let a = match as_str(get_opt(problem, "successOutcome")) {
        Some(s) => title_ok(s, 72),
        None => has_plan_id || match as_str(get_opt(problem, "problemStatement")) {
            Some(s) => title_ok(s, 72),
            None => true,
        },
    };
    let up = get_opt(meta, "updatedAt");
    let dv = match up {
        Some(_) => up,
        None => get_opt(meta, "createdAt"),
    };
    let c = match as_str(dv) {
        Some(d) => {
            let v = chars_of(d.as_str());
            utf8_len_sat(&v) < 10 || byte_boundary(&v, 10).is_some()
        },
        None => true,
    };
    a && c
}

} // verus!

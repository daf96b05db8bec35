//! Terminal styling: ANSI escape wrapping, status colouring, and the
//! process-wide colour / plain-output settings.
//!
//! The settings are a value of [`OutputState`]; the binary keeps one for the
//! whole process and hands it to these functions.
use vstd::prelude::*;
use crate::text::{chars_of, lowercase_s, owned, seq_eq, to_lowercase};

verus! {

/// `s` wrapped in the ANSI escape `code` when `color` is on.
pub open spec fn styled(s: Seq<char>, code: Seq<char>, color: bool) -> Seq<char> {
    if color {
        "\x1b["@ + code + "m"@ + s + "\x1b[0m"@
    } else {
        s
    }
}

/// The ANSI code a (lowercased) document status is shown in, if any.
pub open spec fn status_code(lower: Seq<char>) -> Option<Seq<char>> {
    if lower == "active"@ || lower == "accepted"@ || lower == "complete"@ {
        Some("32"@)
    } else if lower == "proposal"@ {
        Some("33"@)
    } else if lower == "draft"@ {
        Some("36"@)
    } else if lower == "superseded"@ || lower == "deprecated"@ || lower == "archived"@ || lower
        == "rejected"@ {
        Some("2"@)
    } else {
        None
    }
}

/// A status string coloured by its meaning (case-insensitively).
pub open spec fn status_colored(s: Seq<char>, color: bool) -> Seq<char> {
    if !color {
        s
    } else {
        match status_code(lowercase_s(s)) {
            Some(code) => styled(s, code, true),
            None => s,
        }
    }
}

/// The process-wide output settings: a colour override (set once, by
/// `--plain`), the cached terminal probe, and the plain-output flag.
/// Each slot is written at most once, like a `OnceLock`.
pub struct OutputState {
    pub color_override: Option<bool>,
    pub color_detected: Option<bool>,
    pub plain_output: Option<bool>,
}

/// The settings before any call: nothing decided.
pub open spec fn initial_state() -> OutputState {
    OutputState { color_override: None, color_detected: None, plain_output: None }
}

/// What [`use_color`] answers in `st` when the terminal probe gives `detected`.
pub open spec fn use_color_s(st: OutputState, detected: bool) -> bool {
    match st.color_override {
        Some(v) => v,
        None => match st.color_detected {
            Some(v) => v,
            None => detected,
        },
    }
}

/// The settings after [`use_color`]: the first probe is cached.
pub open spec fn after_use_color(st: OutputState, detected: bool) -> OutputState {
    if st.color_override is None && st.color_detected is None {
        OutputState { color_detected: Some(detected), ..st }
    } else {
        st
    }
}

/// The settings after [`disable_color`]: the override is `false` unless one
/// was already set.
pub open spec fn after_disable_color(st: OutputState) -> OutputState {
    if st.color_override is None {
        OutputState { color_override: Some(false), ..st }
    } else {
        st
    }
}

/// The settings after [`enable_plain_output`].
pub open spec fn after_enable_plain(st: OutputState) -> OutputState {
    after_disable_color(
        if st.plain_output is None {
            OutputState { plain_output: Some(true), ..st }
        } else {
            st
        },
    )
}

/// What [`is_plain_output`] answers in `st`.
pub open spec fn is_plain_s(st: OutputState) -> bool {
    match st.plain_output {
        Some(v) => v,
        None => false,
    }
}

/// A call that changes the settings.
pub enum OutputCall {
    /// [`use_color`] with this terminal probe.
    UseColor(bool),
    DisableColor,
    EnablePlainOutput,
}

pub open spec fn after_call(st: OutputState, c: OutputCall) -> OutputState {
    match c {
        OutputCall::UseColor(d) => after_use_color(st, d),
        OutputCall::DisableColor => after_disable_color(st),
        OutputCall::EnablePlainOutput => after_enable_plain(st),
    }
}

/// The settings after `calls`, made in order from `st`.
pub open spec fn after_calls(st: OutputState, calls: Seq<OutputCall>) -> OutputState
    decreases calls.len(),
{
    if calls.len() == 0 {
        st
    } else {
        after_call(after_calls(st, calls.drop_last()), calls.last())
    }
}

/// The probe the first [`use_color`] among `calls` saw, if any.
pub open spec fn first_probe(calls: Seq<OutputCall>) -> Option<bool>
    decreases calls.len(),
{
    if calls.len() == 0 {
        None
    } else {
        match first_probe(calls.drop_last()) {
            Some(v) => Some(v),
            None => match calls.last() {
                OutputCall::UseColor(d) => Some(d),
                _ => None,
            },
        }
    }
}

/// Whether `calls` turn colour off (directly or by plain output).
pub open spec fn turns_color_off(c: OutputCall) -> bool {
    c is DisableColor || c is EnablePlainOutput
}

impl OutputState {
    /// Nothing decided yet.
    pub fn new() -> (st: Self)
        ensures
            st == initial_state(),
    {
        OutputState { color_override: None, color_detected: None, plain_output: None }
    }
}

/// Whether to colour output: the override if one was set, else the first
/// terminal probe ever seen (`detected` is only used when none was cached).
pub fn use_color(state: &mut OutputState, detected: bool) -> (r: bool)
    ensures
        r == use_color_s(*old(state), detected),
        *final(state) == after_use_color(*old(state), detected),
{
    if let Some(v) = state.color_override {
        return v;
    }
    match state.color_detected {
        Some(v) => v,
        None => {
            state.color_detected = Some(detected);
            detected
        },
    }
}

/// Turns colour off for the rest of the process (first setting wins).
pub fn disable_color(state: &mut OutputState)
    ensures
        *final(state) == after_disable_color(*old(state)),
{
    if state.color_override.is_none() {
        state.color_override = Some(false);
    }
}

/// Switches to plain output, which also turns colour off.
pub fn enable_plain_output(state: &mut OutputState)
    ensures
        *final(state) == after_enable_plain(*old(state)),
{
    if state.plain_output.is_none() {
        state.plain_output = Some(true);
    }
    disable_color(state);
}

/// Whether plain output was requested (false until it is).
pub fn is_plain_output(state: &OutputState) -> (r: bool)
    ensures
        r == is_plain_s(*state),
{
    match state.plain_output {
        Some(v) => v,
        None => false,
    }
}

/// What any history of calls leaves: the override is never `true`, the
/// plain flag never `false`, and plain output comes with colour off.
pub proof fn lemma_reachable(calls: Seq<OutputCall>)
    ensures
        after_calls(initial_state(), calls).color_override != Some(true),
        after_calls(initial_state(), calls).plain_output != Some(false),
        after_calls(initial_state(), calls).plain_output is Some ==> after_calls(
            initial_state(),
            calls,
        ).color_override == Some(false),
    decreases calls.len(),
{
    if calls.len() > 0 {
        lemma_reachable(calls.drop_last());
    }
}

proof fn lemma_override_stays(st: OutputState, later: Seq<OutputCall>)
    requires
        st.color_override == Some(false),
    ensures
        after_calls(st, later).color_override == Some(false),
    decreases later.len(),
{
    if later.len() > 0 {
        lemma_override_stays(st, later.drop_last());
    }
}

proof fn lemma_plain_stays(st: OutputState, later: Seq<OutputCall>)
    requires
        st.plain_output == Some(true),
    ensures
        after_calls(st, later).plain_output == Some(true),
    decreases later.len(),
{
    if later.len() > 0 {
        lemma_plain_stays(st, later.drop_last());
    }
}

/// Once colour is disabled, whatever was called before and whatever comes
/// after, no terminal probe turns it back on.
pub proof fn law_disabled_color_stays_off(
    earlier: Seq<OutputCall>,
    later: Seq<OutputCall>,
    detected: bool,
)
    ensures
        !use_color_s(
            after_calls(after_disable_color(after_calls(initial_state(), earlier)), later),
            detected,
        ),
{
    let s0 = after_calls(initial_state(), earlier);
    lemma_reachable(earlier);
    if let Some(v) = s0.color_override {
        assert(v == false);
    }
    lemma_override_stays(after_disable_color(s0), later);
}

/// Once plain output is enabled, it stays enabled and colour stays off,
/// whatever was called before and whatever comes after.
pub proof fn law_plain_output_sticks(
    earlier: Seq<OutputCall>,
    later: Seq<OutputCall>,
    detected: bool,
)
    ensures
        is_plain_s(after_calls(after_enable_plain(after_calls(initial_state(), earlier)), later)),
        !use_color_s(
            after_calls(after_enable_plain(after_calls(initial_state(), earlier)), later),
            detected,
        ),
{
    let s0 = after_calls(initial_state(), earlier);
    let st = after_enable_plain(s0);
    lemma_reachable(earlier);
    if let Some(v) = s0.color_override {
        assert(v == false);
    }
    if let Some(v) = s0.plain_output {
        assert(v == true);
    }
    lemma_plain_stays(st, later);
    lemma_override_stays(st, later);
}

/// Plain output is on exactly when some call enabled it.
pub proof fn law_plain_only_when_enabled(calls: Seq<OutputCall>)
    ensures
        is_plain_s(after_calls(initial_state(), calls)) <==> calls.contains(
            OutputCall::EnablePlainOutput,
        ),
    decreases calls.len(),
{
    if calls.len() > 0 {
        law_plain_only_when_enabled(calls.drop_last());
        lemma_reachable(calls.drop_last());
        assert(calls =~= calls.drop_last().push(calls.last()));
        if calls.drop_last().contains(OutputCall::EnablePlainOutput) {
            let k = choose|k: int|
                0 <= k < calls.drop_last().len() && calls.drop_last()[k]
                    == OutputCall::EnablePlainOutput;
            assert(calls[k] == OutputCall::EnablePlainOutput);
        }
        if calls.last() == OutputCall::EnablePlainOutput {
            assert(calls[calls.len() - 1] == OutputCall::EnablePlainOutput);
        }
        if calls.contains(OutputCall::EnablePlainOutput) {
            let k = choose|k: int|
                0 <= k < calls.len() && calls[k] == OutputCall::EnablePlainOutput;
            if k < calls.len() - 1 {
                assert(calls.drop_last()[k] == OutputCall::EnablePlainOutput);
            }
        }
    } else {
        assert(!calls.contains(OutputCall::EnablePlainOutput));
    }
}

/// Until colour is turned off, [`use_color`] answers with the first
/// terminal probe it ever saw, or the present one when it saw none.
pub proof fn law_first_probe_is_kept(calls: Seq<OutputCall>, detected: bool)
    requires
        forall|i: int| 0 <= i < calls.len() ==> !turns_color_off(#[trigger] calls[i]),
    ensures
        use_color_s(after_calls(initial_state(), calls), detected) == match first_probe(calls) {
            Some(v) => v,
            None => detected,
        },
        after_calls(initial_state(), calls).color_detected == first_probe(calls),
    decreases calls.len(),
{
    if calls.len() > 0 {
        assert forall|i: int| 0 <= i < calls.drop_last().len() implies !turns_color_off(
            #[trigger] calls.drop_last()[i],
        ) by {
            assert(calls.drop_last()[i] == calls[i]);
        }
        law_first_probe_is_kept(calls.drop_last(), detected);
        assert(!turns_color_off(calls[calls.len() - 1]));
    }
}

/// Wraps `s` in the ANSI escape `code` when `color` is on.
pub fn apply_style(s: &str, code: &str, color: bool) -> (r: String)
    ensures
        r@ == styled(s@, code@, color),
{
    if color {
        let mut r = owned("\x1b[");
        r.append(code);
        r.append("m");
        r.append(s);
        r.append("\x1b[0m");
        r
    } else {
        owned(s)
    }
}

/// Bold (`1`).
pub fn bold(s: &str, color: bool) -> (r: String)
    ensures
        r@ == styled(s@, "1"@, color),
{
    apply_style(s, "1", color)
}

/// Dim (`2`).
pub fn dim(s: &str, color: bool) -> (r: String)
    ensures
        r@ == styled(s@, "2"@, color),
{
    apply_style(s, "2", color)
}

/// Green (`32`).
pub fn green(s: &str, color: bool) -> (r: String)
    ensures
        r@ == styled(s@, "32"@, color),
{
    apply_style(s, "32", color)
}

/// Yellow (`33`).
pub fn yellow(s: &str, color: bool) -> (r: String)
    ensures
        r@ == styled(s@, "33"@, color),
{
    apply_style(s, "33", color)
}

/// Red (`31`).
pub fn red(s: &str, color: bool) -> (r: String)
    ensures
        r@ == styled(s@, "31"@, color),
{
    apply_style(s, "31", color)
}

/// Cyan (`36`).
pub fn cyan(s: &str, color: bool) -> (r: String)
    ensures
        r@ == styled(s@, "36"@, color),
{
    apply_style(s, "36", color)
}

/// Colours a document status by its meaning: active/accepted/complete green,
/// proposal yellow, draft cyan, superseded/deprecated/archived/rejected dim,
/// anything else unchanged.
pub fn status_color_inner(s: &str, color: bool) -> (r: String)
    ensures
        r@ == status_colored(s@, color),
{
    if !color {
        return owned(s);
    }
    let sv = chars_of(s);
    let lower = to_lowercase(&sv);
    let code: Option<&str> = if seq_eq(&lower, &chars_of("active")) || seq_eq(
        &lower,
        &chars_of("accepted"),
    ) || seq_eq(&lower, &chars_of("complete")) {
        Some("32")
    } else if seq_eq(&lower, &chars_of("proposal")) {
        Some("33")
    } else if seq_eq(&lower, &chars_of("draft")) {
        Some("36")
    } else if seq_eq(&lower, &chars_of("superseded")) || seq_eq(&lower, &chars_of("deprecated"))
        || seq_eq(&lower, &chars_of("archived")) || seq_eq(&lower, &chars_of("rejected")) {
        Some("2")
    } else {
        None
    };
    match code {
        Some(c) => apply_style(s, c, true),
        None => owned(s),
    }
}

/// [`status_color_inner`] under the given colour setting.
pub fn status_color(s: &str, color: bool) -> (r: String)
    ensures
        r@ == status_colored(s@, color),
{
    status_color_inner(s, color)
}

} // verus!

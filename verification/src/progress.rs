//! What the progress spinner shows, and when it shows anything.
//!
//! The spinner itself (a thread that redraws a frame every 80 ms on
//! standard error) lives with the binary; these are its decisions.
use vstd::prelude::*;
use crate::text::{chars_of, concat, sat, seq_eq, string_of, utf8_len, utf8_len_sat};

verus! {

/// The spinner runs only when output is not plain, standard error is a
/// terminal, and `TERM` is not `dumb`.
pub open spec fn spinner_enabled_s(plain: bool, terminal: bool, term: Option<Seq<char>>) -> bool {
    !plain && terminal && term != Some("dumb"@)
}

/// Whether the spinner runs, given the plain-output setting, whether
/// standard error is a terminal, and the value of `TERM`.
pub fn is_enabled_inner(plain_output: bool, is_terminal: bool, term_var: Option<&str>) -> (r: bool)
    ensures
        r == spinner_enabled_s(
            plain_output,
            is_terminal,
            match term_var {
                Some(t) => Some(t@),
                None => None,
            },
        ),
{
    let dumb = match term_var {
        Some(t) => seq_eq(&chars_of(t), &chars_of("dumb")),
        None => false,
    };
    !plain_output && is_terminal && !dumb
}

/// The four frames, in turn.
pub open spec fn frame_s(idx: nat) -> Seq<char> {
    let k = idx % 4;
    if k == 0 {
        "|"@
    } else if k == 1 {
        "/"@
    } else if k == 2 {
        "-"@
    } else {
        "\\"@
    }
}

/// The frame shown at step `idx`.
pub fn spinner_frame(idx: usize) -> (r: &'static str)
    ensures
        r@ == frame_s(idx as nat),
{
    let k = idx % 4;
    if k == 0 {
        "|"
    } else if k == 1 {
        "/"
    } else if k == 2 {
        "-"
    } else {
        "\\"
    }
}

/// `\r{frame} {message}`: one redraw of the spinner line.
pub open spec fn frame_line_s(idx: nat, message: Seq<char>) -> Seq<char> {
    "\r"@ + frame_s(idx) + " "@ + message
}

pub fn frame_line(idx: usize, message: &str) -> (r: String)
    ensures
        r@ == frame_line_s(idx as nat, message@),
{
    let a = concat(&chars_of("\r"), &chars_of(spinner_frame(idx)));
    let b = concat(&a, &chars_of(" "));
    let c = concat(&b, &chars_of(message));
    string_of(&c)
}

/// `\r`, as many spaces as the message has bytes plus four, `\r`: blanks the
/// spinner line when it finishes.
pub open spec fn clear_line_s(message: Seq<char>) -> Seq<char> {
    "\r"@ + Seq::new(sat(utf8_len(message) + 4), |i: int| ' ') + "\r"@
}

pub fn clear_line(message: &str) -> (r: String)
    ensures
        r@ == clear_line_s(message@),
{
    let n = utf8_len_sat(&chars_of(message));
    let w: usize = if n > usize::MAX - 4 {
        usize::MAX
    } else {
        n + 4
    };
    let sp = crate::docs::model::repeat_char(' ', w);
    let a = concat(&chars_of("\r"), &sp);
    let b = concat(&a, &chars_of("\r"));
    assert(b@ =~= clear_line_s(message@));
    string_of(&b)
}

} // verus!

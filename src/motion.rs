//! Motions: where the cursor goes, computed from a buffer without changing it.

use crate::buffer::{
    end_of_line, horizontal_target, valid_cursor, vertical_target, Buffer, Cursor,
};
use crate::text::{
    alphanumeric, char_at, is_alphanumeric, len_chars, lemma_line_of, lemma_line_start,
    lemma_line_start_monotone, line_of,
};
use vstd::prelude::*;

verus! {

#[derive(Debug, Clone, Copy, PartialEq, Eq)]
pub enum Motion {
    Left,
    Right,
    Up,
    Down,
    ForwardWord,
    ForwardWordEnd,
    BackWord,
    EndOfLine,
}

/// How many chars from `p` on are alphanumeric exactly when `class` is.
pub open spec fn run_forward(s: Seq<char>, p: int, class: bool) -> nat
    decreases s.len() - p,
{
    if 0 <= p < s.len() && alphanumeric(s[p]) == class {
        1 + run_forward(s, p + 1, class)
    } else {
        0
    }
}

/// How many chars just before `p`, going back, are alphanumeric exactly when
/// `class` is.
pub open spec fn run_backward(s: Seq<char>, p: int, class: bool) -> nat
    decreases p,
{
    if 0 < p <= s.len() && alphanumeric(s[p - 1]) == class {
        1 + run_backward(s, p - 1, class)
    } else {
        0
    }
}

/// The run of chars from `p` on that share the class of the char at `p`.
pub open spec fn run_from(s: Seq<char>, p: int) -> nat {
    if 0 <= p < s.len() {
        run_forward(s, p, alphanumeric(s[p]))
    } else {
        0
    }
}

/// The run of chars before `p` that share the class of the char before `p`.
pub open spec fn run_before(s: Seq<char>, p: int) -> nat {
    if 0 < p <= s.len() {
        run_backward(s, p, alphanumeric(s[p - 1]))
    } else {
        0
    }
}

/// The first offset past the run that the cursor stands on.
pub open spec fn forward_word(s: Seq<char>, c: int) -> int {
    horizontal_target(s, c, run_from(s, c) as int)
}

/// The last offset of the run that starts one char past the cursor.
pub open spec fn forward_word_end(s: Seq<char>, c: int) -> int {
    horizontal_target(s, c, run_from(s, horizontal_target(s, c, 1)) as int)
}

/// The first offset of the run that ends just before the cursor.
pub open spec fn back_word(s: Seq<char>, c: int) -> int {
    c - run_before(s, c)
}

/// Where `m` takes a cursor at `c` in text `s`.
pub open spec fn motion_target(m: Motion, s: Seq<char>, c: int) -> int {
    match m {
        Motion::Left => horizontal_target(s, c, -1),
        Motion::Right => horizontal_target(s, c, 1),
        Motion::Up => vertical_target(s, c, -1),
        Motion::Down => vertical_target(s, c, 1),
        Motion::ForwardWord => forward_word(s, c),
        Motion::ForwardWordEnd => forward_word_end(s, c),
        Motion::BackWord => back_word(s, c),
        Motion::EndOfLine => end_of_line(s, c),
    }
}

/// Where the motions of `ms`, one after another, take a cursor at `c`.
pub open spec fn after_motions(s: Seq<char>, c: int, ms: Seq<Motion>) -> int
    decreases ms.len(),
{
    if ms.len() == 0 {
        c
    } else {
        after_motions(s, motion_target(ms[0], s, c), ms.skip(1))
    }
}

proof fn lemma_run_backward_bound(s: Seq<char>, p: int, class: bool)
    requires
        0 <= p,
    ensures
        run_backward(s, p, class) <= p,
    decreases p,
{
    if 0 < p <= s.len() && alphanumeric(s[p - 1]) == class {
        lemma_run_backward_bound(s, p - 1, class);
    }
}

/// Every motion keeps a cursor within the text, and takes a valid cursor to
/// a valid cursor.
pub proof fn lemma_motion_keeps_cursor_valid(m: Motion, s: Seq<char>, c: int)
    requires
        0 <= c <= s.len(),
    ensures
        0 <= motion_target(m, s, c) <= s.len(),
        valid_cursor(s, c) ==> valid_cursor(s, motion_target(m, s, c)),
{
    match m {
        Motion::BackWord => {
            if 0 < c <= s.len() {
                lemma_run_backward_bound(s, c, alphanumeric(s[c - 1]));
            }
        },
        Motion::EndOfLine => {
            let k = line_of(s, c);
            lemma_line_of(s, c);
            lemma_line_start(s, k + 1);
            lemma_line_start_monotone(s, k);
        },
        _ => {},
    }
}

/// After any sequence of motions the cursor still addresses a char of the
/// text, or is 0 in an empty text.
pub proof fn lemma_motions_keep_cursor_valid(s: Seq<char>, c: int, ms: Seq<Motion>)
    requires
        valid_cursor(s, c),
    ensures
        valid_cursor(s, after_motions(s, c, ms)),
    decreases ms.len(),
{
    if ms.len() > 0 {
        lemma_motion_keeps_cursor_valid(ms[0], s, c);
        lemma_motions_keep_cursor_valid(s, motion_target(ms[0], s, c), ms.skip(1));
    }
}

/// Moving the cursor past either end of the text leaves it at that end.
pub proof fn lemma_horizontal_saturates(s: Seq<char>)
    ensures
        horizontal_target(s, 0, -1) == 0,
        s.len() > 0 ==> horizontal_target(s, s.len() - 1, 1) == s.len() - 1,
{
}

/// The length of the run of chars from `p` on that share the class of the
/// char at `p`.
fn skip_forward(buffer: &Buffer, p: usize) -> (n: usize)
    ensures
        n == run_from(buffer.chars(), p as int),
{
    let ghost s = buffer.chars();
    let len = len_chars(&buffer.text);
    if p >= len {
        return 0;
    }
    let class = is_alphanumeric(char_at(&buffer.text, p));
    let mut i = p;
    while i < len && is_alphanumeric(char_at(&buffer.text, i)) == class
        invariant
            len == s.len(),
            s == buffer.chars(),
            p <= i <= len,
            p < len,
            class == alphanumeric(s[p as int]),
            run_forward(s, p as int, class) == (i - p) + run_forward(s, i as int, class),
        decreases len - i,
    {
        i = i + 1;
    }
    i - p
}

/// The length of the run of chars before `p` that share the class of the
/// char before `p`.
fn skip_backward(buffer: &Buffer, p: usize) -> (n: usize)
    requires
        p <= buffer.chars().len(),
    ensures
        n == run_before(buffer.chars(), p as int),
        n <= p,
{
    let ghost s = buffer.chars();
    if p == 0 {
        return 0;
    }
    let class = is_alphanumeric(char_at(&buffer.text, p - 1));
    let mut i = p;
    while i > 0 && is_alphanumeric(char_at(&buffer.text, i - 1)) == class
        invariant
            s == buffer.chars(),
            0 <= i <= p <= s.len(),
            p > 0,
            class == alphanumeric(s[p - 1]),
            run_backward(s, p as int, class) == (p - i) + run_backward(s, i as int, class),
        decreases i,
    {
        i = i - 1;
    }
    p - i
}

impl Motion {
    /// Return the target location of this movement
    pub fn get_target(self, buffer: &Buffer) -> (r: Cursor)
        requires
            buffer.cursor <= buffer.chars().len(),
        ensures
            r == motion_target(self, buffer.chars(), buffer.cursor as int),
            r <= buffer.chars().len(),
            buffer.wf() ==> valid_cursor(buffer.chars(), r as int),
    {
        proof {
            lemma_motion_keeps_cursor_valid(self, buffer.chars(), buffer.cursor as int);
        }
        let cursor = buffer.cursor;
        match self {
            Motion::ForwardWord => {
                let offset = skip_forward(buffer, cursor);
                buffer.advance(cursor, offset)
            },
            Motion::ForwardWordEnd => {
                let start = buffer.advance(cursor, 1);
                let offset = skip_forward(buffer, start);
                buffer.advance(cursor, offset)
            },
            Motion::BackWord => {
                let offset = skip_backward(buffer, cursor);
                cursor - offset
            },
            Motion::Left => buffer.get_movement_x(cursor, -1),
            Motion::Down => buffer.get_movement_y(cursor, 1),
            Motion::Up => buffer.get_movement_y(cursor, -1),
            Motion::Right => buffer.get_movement_x(cursor, 1),
            Motion::EndOfLine => buffer.get_end_of_line_cursor(cursor),
        }
    }
}

} // verus!

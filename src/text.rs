//! The text of a buffer: a `ropey::Rope` seen as a sequence of chars, the
//! line structure that the rope computes over it, and the calls made into it.
//!
//! The line structure is the one ropey keeps with its default features
//! (`unicode_lines`): every Unicode line break ends a line, and a CR LF pair
//! ends one line, at its LF.

use ropey::Rope;
use vstd::prelude::*;

verus! {

#[verifier::external_type_specification]
#[verifier::external_body]
pub struct ExRope(Rope);

/// The chars that a rope holds, in order.
pub uninterp spec fn rope_chars(r: Rope) -> Seq<char>;

/// A char that ends a line: LF, VT, FF, CR, NEL, LINE SEPARATOR and
/// PARAGRAPH SEPARATOR.
pub open spec fn is_break_char(c: char) -> bool {
    c == '\n' || c == '\u{0B}' || c == '\u{0C}' || c == '\r' || c == '\u{85}' || c == '\u{2028}'
        || c == '\u{2029}'
}

/// A line ends at `i`: the char there is a break, and it is not the CR of a
/// CR LF pair (the pair ends its line at the LF).
pub open spec fn ends_line(s: Seq<char>, i: int) -> bool {
    &&& 0 <= i < s.len()
    &&& is_break_char(s[i])
    &&& !(s[i] == '\r' && i + 1 < s.len() && s[i + 1] == '\n')
}

/// How many lines end before position `n`.
pub open spec fn breaks_before(s: Seq<char>, n: int) -> nat
    decreases n,
{
    if n <= 0 {
        0
    } else {
        breaks_before(s, n - 1) + if ends_line(s, n - 1) {
            1nat
        } else {
            0nat
        }
    }
}

/// The number of lines; text after the last break, even none, is a line.
pub open spec fn line_count(s: Seq<char>) -> nat {
    breaks_before(s, s.len() as int) + 1
}

/// The line that holds position `c`.
pub open spec fn line_of(s: Seq<char>, c: int) -> nat {
    breaks_before(s, c)
}

/// The first position at or after `i` that lies in line `k`, or the length.
pub open spec fn first_in_line(s: Seq<char>, k: nat, i: int) -> int
    decreases s.len() - i,
{
    if i >= s.len() {
        s.len() as int
    } else if breaks_before(s, i) == k {
        i
    } else {
        first_in_line(s, k, i + 1)
    }
}

/// The position where line `k` starts; the length for `k == line_count(s)`.
pub open spec fn line_start(s: Seq<char>, k: nat) -> int {
    first_in_line(s, k, 0)
}

/// The chars of line `k`, its break included.
pub open spec fn line_len(s: Seq<char>, k: nat) -> int {
    line_start(s, k + 1) - line_start(s, k)
}

proof fn lemma_breaks_step(s: Seq<char>, n: int)
    requires
        0 <= n,
    ensures
        breaks_before(s, n) <= breaks_before(s, n + 1) <= breaks_before(s, n) + 1,
{
}

proof fn lemma_breaks_monotone(s: Seq<char>, i: int, j: int)
    requires
        0 <= i <= j,
    ensures
        breaks_before(s, i) <= breaks_before(s, j),
    decreases j - i,
{
    if i < j {
        lemma_breaks_monotone(s, i, j - 1);
    }
}

/// Every count up to `breaks_before(s, i)` is met at some position up to `i`.
proof fn lemma_breaks_reach(s: Seq<char>, t: nat, i: int) -> (j: int)
    requires
        0 <= i,
        t <= breaks_before(s, i),
    ensures
        0 <= j <= i,
        breaks_before(s, j) == t,
    decreases i,
{
    if i == 0 {
        0
    } else if t <= breaks_before(s, i - 1) {
        lemma_breaks_reach(s, t, i - 1)
    } else {
        i
    }
}

proof fn lemma_first_bounds(s: Seq<char>, k: nat, i: int)
    requires
        0 <= i,
    ensures
        first_in_line(s, k, i) <= s.len(),
        i <= s.len() ==> i <= first_in_line(s, k, i),
    decreases s.len() - i,
{
    if i < s.len() && breaks_before(s, i) != k {
        lemma_first_bounds(s, k, i + 1);
    }
}

proof fn lemma_first_found(s: Seq<char>, k: nat, i: int, j: int)
    requires
        0 <= i <= j <= s.len(),
        breaks_before(s, j) == k,
    ensures
        i <= first_in_line(s, k, i) <= j,
        breaks_before(s, first_in_line(s, k, i)) == k,
    decreases s.len() - i,
{
    if i < s.len() && breaks_before(s, i) != k {
        lemma_first_found(s, k, i + 1, j);
    }
}

proof fn lemma_first_minimal(s: Seq<char>, k: nat, i: int, m: int)
    requires
        0 <= i <= m < first_in_line(s, k, i),
    ensures
        breaks_before(s, m) != k,
    decreases s.len() - i,
{
    if i < m {
        lemma_first_minimal(s, k, i + 1, m);
    }
}

/// Where line `k` starts, and which positions come before it.
pub proof fn lemma_line_start(s: Seq<char>, k: nat)
    ensures
        0 <= line_start(s, k) <= s.len(),
        k < line_count(s) ==> breaks_before(s, line_start(s, k)) == k,
        k >= line_count(s) ==> line_start(s, k) == s.len(),
        forall|m: int| 0 <= m < line_start(s, k) ==> breaks_before(s, m) < k,
{
    lemma_first_bounds(s, k, 0);
    if k < line_count(s) {
        let j = lemma_breaks_reach(s, k, s.len() as int);
        lemma_first_found(s, k, 0, j);
    } else {
        if line_start(s, k) < s.len() {
            lemma_first_bounds(s, k, 0);
            lemma_breaks_monotone(s, line_start(s, k), s.len() as int);
            if breaks_before(s, 0) == k {
            } else {
                lemma_first_found_none(s, k, 0);
            }
        }
    }
    assert forall|m: int| 0 <= m < line_start(s, k) implies breaks_before(s, m) < k by {
        if breaks_before(s, m) >= k {
            let j = lemma_breaks_reach(s, k, m);
            lemma_first_minimal(s, k, 0, j);
        }
    }
}

proof fn lemma_first_found_none(s: Seq<char>, k: nat, i: int)
    requires
        0 <= i,
        breaks_before(s, s.len() as int) < k,
    ensures
        first_in_line(s, k, i) == s.len(),
    decreases s.len() - i,
{
    if i < s.len() {
        lemma_breaks_monotone(s, i, s.len() as int);
        lemma_first_found_none(s, k, i + 1);
    }
}

/// Lines start in order, and the line of a position lies between its start
/// and the next line's start.
pub proof fn lemma_line_of(s: Seq<char>, c: int)
    requires
        0 <= c <= s.len(),
    ensures
        line_of(s, c) < line_count(s),
        line_start(s, line_of(s, c) as nat) <= c,
        c < s.len() ==> c < line_start(s, line_of(s, c) + 1),
{
    let k = line_of(s, c);
    lemma_breaks_monotone(s, c, s.len() as int);
    lemma_line_start(s, k);
    lemma_first_found(s, k, 0, c);
    lemma_line_start(s, k + 1);
    if c < s.len() && k + 1 < line_count(s) && line_start(s, k + 1) <= c {
        lemma_breaks_monotone(s, line_start(s, k + 1), c);
    }
}

/// Line starts never decrease.
pub proof fn lemma_line_start_monotone(s: Seq<char>, k: nat)
    ensures
        line_start(s, k) <= line_start(s, k + 1),
{
    lemma_line_start(s, k);
    lemma_line_start(s, k + 1);
    if k + 1 < line_count(s) {
        let j = lemma_breaks_reach(s, k, line_start(s, k + 1));
        lemma_first_found(s, k, 0, j);
    }
}

/// A position from a line's start up to (not including) the next line's
/// start lies in that line.
pub proof fn lemma_in_line(s: Seq<char>, k: nat, c: int)
    requires
        k < line_count(s),
        line_start(s, k) <= c < line_start(s, k + 1),
    ensures
        line_of(s, c) == k,
{
    lemma_line_start(s, k);
    lemma_line_start(s, k + 1);
    lemma_breaks_monotone(s, line_start(s, k), c);
    if k + 1 == line_count(s) {
        lemma_breaks_monotone(s, c, s.len() as int);
    }
}

/// Relies on `Rope::len_chars`: the number of chars held.
#[verifier::external_body]
pub(crate) fn len_chars(r: &Rope) -> (n: usize)
    ensures
        n == rope_chars(*r).len(),
{
    r.len_chars()
}

/// Relies on `Rope::len_lines`: one more than the number of line breaks,
/// a CR LF pair counting once.
#[verifier::external_body]
pub(crate) fn len_lines(r: &Rope) -> (n: usize)
    ensures
        n == line_count(rope_chars(*r)),
{
    r.len_lines()
}

/// Relies on `Rope::char`: the char at a position below the length.
#[verifier::external_body]
pub(crate) fn char_at(r: &Rope, i: usize) -> (c: char)
    requires
        i < rope_chars(*r).len(),
    ensures
        c == rope_chars(*r)[i as int],
{
    r.char(i)
}

/// Relies on `Rope::char_to_line`: the number of line breaks before the
/// position, for any position up to the length.
#[verifier::external_body]
pub(crate) fn char_to_line(r: &Rope, c: usize) -> (k: usize)
    requires
        c <= rope_chars(*r).len(),
    ensures
        k == line_of(rope_chars(*r), c as int),
{
    r.char_to_line(c)
}

/// Relies on `Rope::line_to_char`: where a line starts, and the length for
/// the line one past the last.
#[verifier::external_body]
pub(crate) fn line_to_char(r: &Rope, k: usize) -> (c: usize)
    requires
        k <= line_count(rope_chars(*r)),
    ensures
        c == line_start(rope_chars(*r), k as nat),
{
    r.line_to_char(k)
}

/// Relies on `Rope::insert_char`: the char goes in at the position.
#[verifier::external_body]
pub(crate) fn insert_char(r: &mut Rope, i: usize, c: char)
    requires
        i <= rope_chars(*old(r)).len(),
    ensures
        rope_chars(*final(r)) == rope_chars(*old(r)).insert(i as int, c),
{
    r.insert_char(i, c)
}

/// Relies on `Rope::insert`: the text goes in at the position.
#[verifier::external_body]
pub(crate) fn insert_str(r: &mut Rope, i: usize, t: &str)
    requires
        i <= rope_chars(*old(r)).len(),
    ensures
        rope_chars(*final(r)) == rope_chars(*old(r)).take(i as int) + t@ + rope_chars(
            *old(r),
        ).skip(i as int),
{
    r.insert(i, t)
}

/// Relies on `Rope::remove`: the chars of the range `start..end` go.
#[verifier::external_body]
pub(crate) fn remove_range(r: &mut Rope, start: usize, end: usize)
    requires
        start <= end <= rope_chars(*old(r)).len(),
    ensures
        rope_chars(*final(r)) == rope_chars(*old(r)).take(start as int) + rope_chars(
            *old(r),
        ).skip(end as int),
{
    r.remove(start..end)
}

/// Whether a char is alphabetic or numeric in Unicode's sense.
pub uninterp spec fn alphanumeric(c: char) -> bool;

/// Relies on `char::is_alphanumeric`, which depends on the char alone.
#[verifier::external_body]
pub(crate) fn is_alphanumeric(c: char) -> (r: bool)
    ensures
        r == alphanumeric(c),
{
    c.is_alphanumeric()
}

/// Whether a char has the general category of control codes.
pub uninterp spec fn control_code(c: char) -> bool;

/// Relies on `char::is_control`, which depends on the char alone.
#[verifier::external_body]
pub(crate) fn is_control(c: char) -> (r: bool)
    ensures
        r == control_code(c),
{
    c.is_control()
}

} // verus!

verus! {

/// Relies on `String::push`: the char is appended.
#[verifier::external_body]
pub(crate) fn push_char(s: &mut String, c: char)
    ensures
        final(s)@ == old(s)@.push(c),
{
    s.push(c)
}

/// Relies on `String::pop`: the last char, if any, is taken off and returned.
#[verifier::external_body]
pub(crate) fn pop_char(s: &mut String) -> (r: Option<char>)
    ensures
        old(s)@.len() == 0 ==> r is None && final(s)@ == old(s)@,
        old(s)@.len() > 0 ==> r == Some(old(s)@.last()) && final(s)@ == old(s)@.drop_last(),
{
    s.pop()
}

} // verus!

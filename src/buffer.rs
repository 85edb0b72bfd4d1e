//! A buffer: one text, one cursor into it, and the file it came from.

use crate::text::{
    char_to_line, insert_char, len_chars, len_lines, lemma_line_of, lemma_line_start,
    lemma_in_line, lemma_line_start_monotone, line_count, line_len, line_of, line_start, line_to_char,
    rope_chars,
};
use ropey::Rope;
use vstd::prelude::*;

verus! {

/// A char offset into a buffer's text.
pub type Cursor = usize;

/// `v` brought into `[0, len - 1]`; 0 where the text is empty.
pub open spec fn clamp_offset(v: int, len: int) -> int {
    if len <= 0 || v < 0 {
        0
    } else if v > len - 1 {
        len - 1
    } else {
        v
    }
}

/// A cursor that addresses a char of `s`, or 0 where `s` is empty.
pub open spec fn valid_cursor(s: Seq<char>, c: int) -> bool {
    c == 0 || (0 <= c < s.len())
}

/// The offset of `c` within its line.
pub open spec fn column_of(s: Seq<char>, c: int) -> int {
    c - line_start(s, line_of(s, c))
}

/// Offset `c` moved by `dx` chars, saturating at both ends of the text.
pub open spec fn horizontal_target(s: Seq<char>, c: int, dx: int) -> int {
    clamp_offset(c + dx, s.len() as int)
}

/// The line `dy` lines away from that of `c`, kept within the text.
pub open spec fn target_line(s: Seq<char>, c: int, dy: int) -> nat {
    let t = line_of(s, c) + dy;
    if t < 0 {
        0
    } else if t > line_count(s) - 1 {
        (line_count(s) - 1) as nat
    } else {
        t as nat
    }
}

/// The last column that line `k` allows, 0 for an empty line.
pub open spec fn last_column(s: Seq<char>, k: nat) -> int {
    if line_len(s, k) > 0 {
        line_len(s, k) - 1
    } else {
        0
    }
}

/// Offset `c` moved by `dy` lines: the same column on the target line, or its
/// last column where the line is shorter.
pub open spec fn vertical_target(s: Seq<char>, c: int, dy: int) -> int {
    let k = target_line(s, c, dy);
    let col = column_of(s, c);
    let new_col = if col < last_column(s, k) {
        col
    } else {
        last_column(s, k)
    };
    clamp_offset(line_start(s, k) + new_col, s.len() as int)
}

/// The last offset of the line that holds `c`, its break included; the line's
/// start for an empty line.
pub open spec fn end_of_line(s: Seq<char>, c: int) -> int {
    let k = line_of(s, c);
    if line_len(s, k) > 0 {
        line_start(s, k) + line_len(s, k) - 1
    } else {
        line_start(s, k)
    }
}

/// A move of `dy` lines that lands on a line long enough for the column keeps
/// the column.
proof fn lemma_vertical_keeps_column(s: Seq<char>, c: int, dy: int)
    requires
        0 <= c <= s.len(),
        0 <= line_of(s, c) + dy < line_count(s),
        column_of(s, c) < line_len(s, (line_of(s, c) + dy) as nat),
    ensures
        vertical_target(s, c, dy) == line_start(s, (line_of(s, c) + dy) as nat) + column_of(s, c),
        line_of(s, vertical_target(s, c, dy)) == line_of(s, c) + dy,
        column_of(s, vertical_target(s, c, dy)) == column_of(s, c),
{
    let k = (line_of(s, c) + dy) as nat;
    lemma_line_of(s, c);
    lemma_line_start(s, k + 1);
    lemma_line_start_monotone(s, k);
    let t = line_start(s, k) + column_of(s, c);
    lemma_in_line(s, k, t);
}

/// Moving down a line and back up returns to the starting offset wherever
/// the line below is long enough to hold the column.
pub proof fn lemma_vertical_round_trip(s: Seq<char>, c: int)
    requires
        0 <= c < s.len(),
        line_of(s, c) + 1 < line_count(s),
        column_of(s, c) < line_len(s, line_of(s, c) + 1),
    ensures
        vertical_target(s, vertical_target(s, c, 1), -1) == c,
{
    let k = line_of(s, c);
    lemma_vertical_keeps_column(s, c, 1);
    let d = vertical_target(s, c, 1);
    lemma_line_of(s, c);
    lemma_line_start(s, k + 1);
    lemma_line_start_monotone(s, k + 1);
    lemma_vertical_keeps_column(s, d, -1);
}

/// Moving up a line and back down returns to the starting offset wherever
/// the line above is long enough to hold the column.
pub proof fn lemma_vertical_round_trip_up(s: Seq<char>, c: int)
    requires
        0 <= c < s.len(),
        line_of(s, c) >= 1,
        column_of(s, c) < line_len(s, (line_of(s, c) - 1) as nat),
    ensures
        vertical_target(s, vertical_target(s, c, -1), 1) == c,
{
    let k = line_of(s, c);
    lemma_line_of(s, c);
    lemma_vertical_keeps_column(s, c, -1);
    let d = vertical_target(s, c, -1);
    lemma_line_start(s, k);
    lemma_line_start_monotone(s, (k - 1) as nat);
    lemma_line_start_monotone(s, k);
    lemma_vertical_keeps_column(s, d, 1);
}

/// `cursor + value`, or 0 where that is negative.
pub fn cursor_add(cursor: Cursor, value: i32) -> (r: Cursor)
    requires
        cursor + value <= usize::MAX,
    ensures
        r == if cursor + value < 0 {
            0
        } else {
            cursor + value
        },
{
    if value >= 0 {
        cursor + value as usize
    } else {
        let d = (-(value as i64)) as usize;
        if cursor <= d {
            0
        } else {
            cursor - d
        }
    }
}

pub struct Buffer {
    pub text: Rope,
    pub cursor: Cursor,
    pub filepath: Option<String>,
}

impl Buffer {
    /// The chars of the text.
    pub open spec fn chars(&self) -> Seq<char> {
        rope_chars(self.text)
    }

    /// The cursor addresses a char, or is 0 in an empty text.
    pub open spec fn wf(&self) -> bool {
        valid_cursor(self.chars(), self.cursor as int)
    }

    /// A buffer over `text` with the cursor at its start.
    pub fn new(text: Rope, filepath: Option<String>) -> (b: Buffer)
        ensures
            b.text == text,
            b.cursor == 0,
            b.filepath == filepath,
            b.wf(),
    {
        Buffer { text, cursor: 0, filepath }
    }

    /// The offset of `cursor` within its line.
    pub fn find_line_position(&self, cursor: Cursor) -> (r: usize)
        requires
            cursor <= self.chars().len(),
        ensures
            r == column_of(self.chars(), cursor as int),
    {
        let line = char_to_line(&self.text, cursor);
        proof {
            lemma_line_of(self.chars(), cursor as int);
        }
        let line_start = line_to_char(&self.text, line);
        cursor - line_start
    }

    /// `cursor` moved right by `d` chars, saturating at the end of the text.
    pub(crate) fn advance(&self, cursor: Cursor, d: usize) -> (r: Cursor)
        ensures
            r == horizontal_target(self.chars(), cursor as int, d as int),
    {
        let len = len_chars(&self.text);
        if len == 0 {
            0
        } else if cursor >= len - 1 || len - 1 - cursor <= d {
            len - 1
        } else {
            cursor + d
        }
    }

    /// `cursor` moved by `x` chars (right for positive `x`), saturating at
    /// both ends of the text.
    pub fn get_movement_x(&self, cursor: Cursor, x: i32) -> (r: Cursor)
        ensures
            r == horizontal_target(self.chars(), cursor as int, x as int),
    {
        let len = len_chars(&self.text);
        if len == 0 {
            return 0;
        }
        let last = len - 1;
        if x >= 0 {
            self.advance(cursor, x as usize)
        } else {
            let d = (-(x as i64)) as usize;
            if cursor <= d {
                0
            } else if cursor - d > last {
                last
            } else {
                cursor - d
            }
        }
    }

    /// Moves the cursor by `x` chars.
    pub fn move_x(&mut self, x: i32)
        ensures
            final(self).cursor == horizontal_target(old(self).chars(), old(self).cursor as int, x as int),
            final(self).text == old(self).text,
            final(self).filepath == old(self).filepath,
            final(self).wf(),
    {
        self.cursor = self.get_movement_x(self.cursor, x);
    }

    /// `cursor` moved by `y` lines (down for positive `y`).
    pub fn get_movement_y(&self, cursor: Cursor, y: i32) -> (r: Cursor)
        requires
            cursor <= self.chars().len(),
        ensures
            r == vertical_target(self.chars(), cursor as int, y as int),
    {
        let ghost s = self.chars();
        let current_y = char_to_line(&self.text, cursor);
        let lines = len_lines(&self.text);
        proof {
            lemma_line_of(s, cursor as int);
        }
        let new_y: usize = if y >= 0 {
            let d = y as usize;
            if lines - 1 - current_y <= d {
                lines - 1
            } else {
                current_y + d
            }
        } else {
            let d = (-(y as i64)) as usize;
            if current_y <= d {
                0
            } else {
                current_y - d
            }
        };
        let current_x = self.find_line_position(cursor);
        let start = line_to_char(&self.text, new_y);
        let next = line_to_char(&self.text, new_y + 1);
        proof {
            lemma_line_start_monotone(s, new_y as nat);
            lemma_line_start(s, (new_y + 1) as nat);
        }
        let line_length = next - start;
        let last_x = if line_length > 0 {
            line_length - 1
        } else {
            0
        };
        let new_x = if current_x < last_x {
            current_x
        } else {
            last_x
        };
        self.advance(start + new_x, 0)
    }

    /// Moves the cursor by `y` lines.
    pub fn move_y(&mut self, y: i32)
        requires
            old(self).cursor <= old(self).chars().len(),
        ensures
            final(self).cursor == vertical_target(old(self).chars(), old(self).cursor as int, y as int),
            final(self).text == old(self).text,
            final(self).filepath == old(self).filepath,
            final(self).wf(),
    {
        self.cursor = self.get_movement_y(self.cursor, y);
    }

    /// The last offset of the line that holds `cursor`.
    pub fn get_end_of_line_cursor(&self, cursor: Cursor) -> (r: Cursor)
        requires
            cursor <= self.chars().len(),
        ensures
            r == end_of_line(self.chars(), cursor as int),
    {
        let ghost s = self.chars();
        let y = char_to_line(&self.text, cursor);
        // the line count is a usize, so `y + 1` does not overflow
        let _lines = len_lines(&self.text);
        proof {
            lemma_line_of(s, cursor as int);
            lemma_line_start_monotone(s, y as nat);
            lemma_line_start(s, (y + 1) as nat);
        }
        let line_start = line_to_char(&self.text, y);
        let next = line_to_char(&self.text, y + 1);
        let line_length = next - line_start;
        if line_length > 0 {
            line_start + line_length - 1
        } else {
            line_start
        }
    }

    /// Inserts `c` at the cursor; the cursor stays where it is.
    pub fn insert_after_cursor(&mut self, c: char)
        requires
            old(self).cursor <= old(self).chars().len(),
        ensures
            final(self).chars() == old(self).chars().insert(old(self).cursor as int, c),
            final(self).cursor == old(self).cursor,
            final(self).filepath == old(self).filepath,
    {
        insert_char(&mut self.text, self.cursor, c);
    }

    /// The file to save to: the path given, else the buffer's own, else an
    /// error.
    pub fn save_target(&self, filepath: Option<String>) -> (r: Result<String, String>)
        ensures
            filepath is Some ==> r is Ok && r->Ok_0@ == filepath->Some_0@,
            filepath is None && self.filepath is Some ==> r is Ok && r->Ok_0@
                == self.filepath->Some_0@,
            filepath is None && self.filepath is None ==> r is Err && r->Err_0@
                == "No filepath specified"@,
    {
        match filepath {
            Some(path) => Ok(path),
            None => match &self.filepath {
                Some(path) => Ok(path.clone()),
                None => Err("No filepath specified".to_owned()),
            },
        }
    }
}

} // verus!

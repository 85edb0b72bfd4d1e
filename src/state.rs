//! The editor: its buffers, its mode, the pending operator and the lines
//! typed in Command and QuickMenu mode, and how each intent changes them.

use crate::action::Action;
use crate::commands::{
    models, prepare_command, reports_parse, Command, CommandAction, CommandParameter, ParamValue,
};
use crate::buffer::{horizontal_target, Buffer};
use crate::motion::{lemma_motion_keeps_cursor_valid, motion_target, Motion};
use crate::text::{
    control_code, insert_str, is_control, len_chars, pop_char, push_char, remove_range,
};
use ropey::Rope;
use vstd::arithmetic::div_mod::{lemma_add_mod_noop, lemma_mod_self_0, lemma_small_mod};
use vstd::prelude::*;

verus! {

/// How the host asks for a change of mode.
#[derive(Debug, Clone, Copy, PartialEq, Eq, Structural, Hash)]
pub enum ModeChange {
    Insert,
    InsertAfter,
    InsertEnd,
    InsertStart,
    Escape,
    EnterCommand,
    EnterQuickMenu,
}

/// How input is read.
#[derive(Debug, Clone, Copy, PartialEq, Eq, Structural, Hash)]
pub enum Mode {
    Normal,
    Insert,
    Command,
    QuickMenu,
}

/// A char that Insert, Command and QuickMenu mode take as typed text.
pub open spec fn printable(c: char) -> bool {
    c != '\u{7f}' && !control_code(c)
}

/// `s` without the chars of `lo..hi`.
pub open spec fn cut(s: Seq<char>, lo: int, hi: int) -> Seq<char> {
    s.take(lo) + s.skip(hi)
}

/// `n` spaces.
pub open spec fn spaces(n: nat) -> Seq<char> {
    Seq::new(n, |i: int| ' ')
}

/// What the host is to do once a command has run.
pub enum CommandEffect {
    /// Nothing more.
    Done,
    /// Save the active buffer, to this path where one is given.
    Save(Option<String>),
    /// Load this file into a new buffer and make it active.
    Load(String),
    /// End the process.
    Quit,
    /// The command's parameters did not fit it; nothing happened.
    Refused,
}

/// The path that `write` was given, if any.
pub open spec fn write_argument(ps: Seq<ParamValue>) -> Option<Seq<char>> {
    if ps.len() > 0 {
        match ps[0] {
            ParamValue::Optional(Some(b)) => match *b {
                ParamValue::Text(t) => Some(t),
                _ => None,
            },
            _ => None,
        }
    } else {
        None
    }
}

/// The path that `edit` was given, if any.
pub open spec fn edit_argument(ps: Seq<ParamValue>) -> Option<Seq<char>> {
    if ps.len() > 0 {
        match ps[0] {
            ParamValue::Text(t) => Some(t),
            _ => None,
        }
    } else {
        None
    }
}

pub struct Editor {
    pub buffers: Vec<Buffer>,
    pub current_buffer_index: usize,
    pub command_line: String,
    pub quick_menu_line: String,
    pub mode: Mode,
    pub action: Option<Action>,
}

impl Editor {
    /// There is a buffer, the index selects one, and every cursor lies
    /// within its text. A cursor may stand just past the last char: deleting
    /// forward at the last char leaves it there, as that key never moves the
    /// cursor. Every other intent keeps a buffer's `wf`.
    pub open spec fn wf(&self) -> bool {
        &&& self.buffers@.len() > 0
        &&& self.current_buffer_index < self.buffers@.len()
        &&& forall|i: int|
            0 <= i < self.buffers@.len() ==> #[trigger] self.buffers@[i].cursor
                <= self.buffers@[i].chars().len()
    }

    /// The active buffer.
    pub open spec fn current(&self) -> Buffer {
        self.buffers@[self.current_buffer_index as int]
    }

    /// `self` and `e` differ at most in the active buffer's text and cursor.
    pub open spec fn same_but_current(&self, e: &Editor) -> bool {
        &&& self.buffers@.len() == e.buffers@.len()
        &&& self.current_buffer_index == e.current_buffer_index
        &&& forall|i: int|
            0 <= i < self.buffers@.len() && i != self.current_buffer_index ==> #[trigger] self.buffers@[i]
                == e.buffers@[i]
        &&& self.current().filepath == e.current().filepath
        &&& self.command_line@ == e.command_line@
        &&& self.quick_menu_line@ == e.quick_menu_line@
    }

    /// Get the currently selected buffer.
    pub fn buffer(&mut self) -> (b: &mut Buffer)
        requires
            old(self).current_buffer_index < old(self).buffers@.len(),
        ensures
            *b == old(self).current(),
            final(self).buffers@ == old(self).buffers@.update(
                old(self).current_buffer_index as int,
                *final(b),
            ),
            final(self).current_buffer_index == old(self).current_buffer_index,
            final(self).mode == old(self).mode,
            final(self).action == old(self).action,
            final(self).command_line == old(self).command_line,
            final(self).quick_menu_line == old(self).quick_menu_line,
    {
        let i = self.current_buffer_index;
        &mut self.buffers[i]
    }

    /// Makes the next buffer active, the first after the last.
    pub fn next_buffer(&mut self)
        requires
            old(self).wf(),
        ensures
            final(self).current_buffer_index == (old(self).current_buffer_index + 1) % (old(
                self,
            ).buffers@.len() as int),
            final(self).buffers == old(self).buffers,
            final(self).mode == old(self).mode,
            final(self).action == old(self).action,
            final(self).command_line == old(self).command_line,
            final(self).quick_menu_line == old(self).quick_menu_line,
            final(self).wf(),
    {
        let n = self.buffers.len();
        self.current_buffer_index = (self.current_buffer_index + 1) % n;
    }

    /// Makes the previous buffer active, the last before the first.
    pub fn previous_buffer(&mut self)
        requires
            old(self).wf(),
        ensures
            final(self).current_buffer_index == (old(self).current_buffer_index + old(
                self,
            ).buffers@.len() - 1) % (old(self).buffers@.len() as int),
            final(self).buffers == old(self).buffers,
            final(self).mode == old(self).mode,
            final(self).action == old(self).action,
            final(self).command_line == old(self).command_line,
            final(self).quick_menu_line == old(self).quick_menu_line,
            final(self).wf(),
    {
        let ghost n = self.buffers@.len() as int;
        let ghost i = self.current_buffer_index as int;
        proof {
            if i == 0 {
                lemma_small_mod((n - 1) as nat, n as nat);
            } else {
                lemma_add_mod_noop(i - 1, n, n);
                lemma_mod_self_0(n);
                lemma_small_mod((i - 1) as nat, n as nat);
            }
        }
        if self.current_buffer_index == 0 {
            self.current_buffer_index = self.buffers.len() - 1;
        } else {
            self.current_buffer_index = self.current_buffer_index - 1;
        }
    }

    /// Appends a buffer over `rope`, with its cursor at the start, and makes
    /// it active.
    pub fn add_buffer(&mut self, rope: Rope, filepath: Option<String>)
        requires
            old(self).wf(),
        ensures
            final(self).buffers@ == old(self).buffers@.push(
                Buffer { text: rope, cursor: 0, filepath },
            ),
            final(self).current_buffer_index == old(self).buffers@.len(),
            final(self).mode == old(self).mode,
            final(self).action == old(self).action,
            final(self).command_line == old(self).command_line,
            final(self).quick_menu_line == old(self).quick_menu_line,
            final(self).wf(),
    {
        let buffer = Buffer::new(rope, filepath);
        self.buffers.push(buffer);
        self.current_buffer_index = self.buffers.len() - 1;
    }

    /// The mode that a change leads to.
    pub open spec fn mode_after(change: ModeChange) -> Mode {
        match change {
            ModeChange::Insert | ModeChange::InsertAfter | ModeChange::InsertEnd
            | ModeChange::InsertStart => Mode::Insert,
            ModeChange::Escape => Mode::Normal,
            ModeChange::EnterCommand => Mode::Command,
            ModeChange::EnterQuickMenu => Mode::QuickMenu,
        }
    }

    /// Performs a change of mode: `InsertAfter` first moves the cursor one
    /// char right, `EnterCommand` starts the command line with `:`, and
    /// `EnterQuickMenu` empties the quick-menu line.
    pub fn change_mode(&mut self, change: ModeChange)
        requires
            old(self).wf(),
        ensures
            final(self).mode == Self::mode_after(change),
            final(self).action == old(self).action,
            final(self).buffers@.len() == old(self).buffers@.len(),
            final(self).current_buffer_index == old(self).current_buffer_index,
            change == ModeChange::InsertAfter ==> {
                &&& final(self).current().text == old(self).current().text
                &&& final(self).current().cursor == horizontal_target(
                    old(self).current().chars(),
                    old(self).current().cursor as int,
                    1,
                )
                &&& final(self).same_but_current(old(self))
            },
            change != ModeChange::InsertAfter ==> final(self).buffers@ == old(self).buffers@,
            change == ModeChange::EnterCommand ==> final(self).command_line@ == seq![':'],
            change != ModeChange::EnterCommand ==> final(self).command_line@
                == old(self).command_line@,
            change == ModeChange::EnterQuickMenu ==> final(self).quick_menu_line@.len() == 0,
            change != ModeChange::EnterQuickMenu ==> final(self).quick_menu_line@
                == old(self).quick_menu_line@,
            old(self).current().wf() ==> final(self).current().wf(),
            final(self).wf(),
    {
        match change {
            ModeChange::Insert => {
                self.mode = Mode::Insert;
            },
            ModeChange::InsertAfter => {
                self.mode = Mode::Insert;
                let i = self.current_buffer_index;
                let c = self.buffers[i].get_movement_x(self.buffers[i].cursor, 1);
                self.buffers[i].cursor = c;
                assert(forall|j: int|
                    0 <= j < self.buffers@.len() && j != i ==> self.buffers@[j]
                        == old(self).buffers@[j]);
            },
            ModeChange::InsertEnd => {
                self.mode = Mode::Insert;
            },
            ModeChange::InsertStart => {
                self.mode = Mode::Insert;
            },
            ModeChange::Escape => {
                self.mode = Mode::Normal;
            },
            ModeChange::EnterCommand => {
                self.mode = Mode::Command;
                let mut line = String::new();
                push_char(&mut line, ':');
                self.command_line = line;
            },
            ModeChange::EnterQuickMenu => {
                self.mode = Mode::QuickMenu;
                self.quick_menu_line = String::new();
            },
        }
    }

    /// Takes an operator: in Normal mode it becomes the pending one, in place
    /// of any other; in other modes nothing changes.
    pub fn receive_action(&mut self, action: Action)
        ensures
            old(self).mode == Mode::Normal ==> final(self).action == Some(action),
            old(self).mode != Mode::Normal ==> final(self).action == old(self).action,
            final(self).buffers == old(self).buffers,
            final(self).current_buffer_index == old(self).current_buffer_index,
            final(self).mode == old(self).mode,
            final(self).command_line == old(self).command_line,
            final(self).quick_menu_line == old(self).quick_menu_line,
    {
        if self.mode == Mode::Normal {
            self.action = Some(action);
        }
    }

    /// Takes a motion in Normal mode. With no pending operator the cursor
    /// goes to the motion's target. With one, the chars between the cursor
    /// and the target go, the cursor goes to the lower of the two, the
    /// operator is cleared, and `Replace` enters Insert mode. In other modes
    /// nothing changes.
    pub fn apply_motion(&mut self, motion: Motion)
        requires
            old(self).wf(),
        ensures
            final(self).wf(),
            final(self).same_but_current(old(self)),
            old(self).mode != Mode::Normal ==> *final(self) == *old(self),
            old(self).mode == Mode::Normal ==> {
                let s = old(self).current().chars();
                let c = old(self).current().cursor as int;
                let t = motion_target(motion, s, c);
                let lo = if c <= t {
                    c
                } else {
                    t
                };
                let hi = if c <= t {
                    t
                } else {
                    c
                };
                &&& final(self).action is None
                &&& old(self).action is None ==> {
                    &&& final(self).current().text == old(self).current().text
                    &&& final(self).current().cursor == t
                    &&& final(self).mode == Mode::Normal
                }
                &&& old(self).action is Some ==> {
                    &&& final(self).current().chars() == cut(s, lo, hi)
                    &&& final(self).current().cursor == lo
                    &&& final(self).mode == if old(self).action == Some(Action::Replace) {
                        Mode::Insert
                    } else {
                        Mode::Normal
                    }
                }
            },
            old(self).current().wf() ==> final(self).current().wf(),
    {
        if self.mode != Mode::Normal {
            return;
        }
        let i = self.current_buffer_index;
        let ghost s = self.buffers@[i as int].chars();
        let ghost c = self.buffers@[i as int].cursor;
        let target = motion.get_target(&self.buffers[i]);
        proof {
            lemma_motion_keeps_cursor_valid(motion, s, c as int);
        }
        match self.action {
            Some(action) => {
                let cursor = self.buffers[i].cursor;
                if cursor <= target {
                    remove_range(&mut self.buffers[i].text, cursor, target);
                } else {
                    remove_range(&mut self.buffers[i].text, target, cursor);
                    self.buffers[i].cursor = target;
                }
                if action == Action::Replace {
                    self.mode = Mode::Insert;
                }
                self.action = None;
            },
            None => {
                self.buffers[i].cursor = target;
            },
        }
        assert(forall|j: int|
            0 <= j < self.buffers@.len() && j != i ==> self.buffers@[j] == old(self).buffers@[j]);
    }

    /// Takes a typed char. A printable one goes in at the cursor in Insert
    /// mode, the cursor moving one right after it, and at the end of the
    /// command line or the quick-menu line in those modes. Anything else
    /// changes nothing.
    pub fn receive_char(&mut self, c: char)
        requires
            old(self).wf(),
        ensures
            final(self).wf(),
            old(self).mode == Mode::Insert ==> final(self).same_but_current(old(self)),
            final(self).mode == old(self).mode,
            final(self).action == old(self).action,
            !printable(c) || old(self).mode == Mode::Normal ==> *final(self) == *old(self),
            printable(c) && old(self).mode == Mode::Insert ==> {
                let t = old(self).current().chars().insert(old(self).current().cursor as int, c);
                &&& final(self).current().chars() == t
                &&& final(self).current().cursor == horizontal_target(
                    t,
                    old(self).current().cursor as int,
                    1,
                )
                &&& final(self).current().filepath == old(self).current().filepath
            },
            printable(c) && old(self).mode == Mode::Command ==> {
                &&& final(self).command_line@ == old(self).command_line@.push(c)
                &&& final(self).buffers == old(self).buffers
                &&& final(self).quick_menu_line == old(self).quick_menu_line
                &&& final(self).current_buffer_index == old(self).current_buffer_index
            },
            printable(c) && old(self).mode == Mode::QuickMenu ==> {
                &&& final(self).quick_menu_line@ == old(self).quick_menu_line@.push(c)
                &&& final(self).buffers == old(self).buffers
                &&& final(self).command_line == old(self).command_line
                &&& final(self).current_buffer_index == old(self).current_buffer_index
            },
            old(self).current().wf() ==> final(self).current().wf(),
    {
        if c == '\u{7f}' || is_control(c) {
            return;
        }
        match self.mode {
            Mode::Normal => {},
            Mode::Insert => {
                let i = self.current_buffer_index;
                self.buffers[i].insert_after_cursor(c);
                self.buffers[i].move_x(1);
                assert(forall|j: int|
                    0 <= j < self.buffers@.len() && j != i ==> self.buffers@[j]
                        == old(self).buffers@[j]);
            },
            Mode::Command => {
                push_char(&mut self.command_line, c);
            },
            Mode::QuickMenu => {
                push_char(&mut self.quick_menu_line, c);
            },
        }
    }

    /// Takes the backspace key. In Insert mode the char before the cursor
    /// goes and the cursor moves one left; at offset 0 nothing changes. In
    /// Command mode the last char of the command line goes, and an emptied
    /// line returns to Normal mode. In QuickMenu mode the last char of the
    /// quick-menu line goes.
    pub fn backspace(&mut self)
        requires
            old(self).wf(),
        ensures
            final(self).wf(),
            final(self).action == old(self).action,
            old(self).mode == Mode::Normal ==> *final(self) == *old(self),
            old(self).mode == Mode::Insert ==> {
                let s = old(self).current().chars();
                let c = old(self).current().cursor as int;
                &&& final(self).same_but_current(old(self))
                &&& final(self).mode == Mode::Insert
                &&& c == 0 ==> final(self).buffers == old(self).buffers
                &&& c > 0 ==> final(self).current().chars() == cut(s, c - 1, c)
                    && final(self).current().cursor == horizontal_target(
                    cut(s, c - 1, c),
                    c,
                    -1,
                )
            },
            old(self).mode == Mode::Command ==> {
                &&& final(self).buffers == old(self).buffers
                &&& final(self).current_buffer_index == old(self).current_buffer_index
                &&& final(self).quick_menu_line == old(self).quick_menu_line
                &&& old(self).command_line@.len() == 0 ==> final(self).command_line@.len() == 0
                &&& old(self).command_line@.len() > 0 ==> final(self).command_line@ == old(
                    self,
                ).command_line@.drop_last()
                &&& final(self).mode == if final(self).command_line@.len() == 0 {
                    Mode::Normal
                } else {
                    Mode::Command
                }
            },
            old(self).mode == Mode::QuickMenu ==> {
                &&& final(self).buffers == old(self).buffers
                &&& final(self).current_buffer_index == old(self).current_buffer_index
                &&& final(self).command_line == old(self).command_line
                &&& final(self).mode == Mode::QuickMenu
                &&& old(self).quick_menu_line@.len() == 0 ==> final(self).quick_menu_line@.len()
                    == 0
                &&& old(self).quick_menu_line@.len() > 0 ==> final(self).quick_menu_line@ == old(
                    self,
                ).quick_menu_line@.drop_last()
            },
            old(self).current().wf() ==> final(self).current().wf(),
    {
        match self.mode {
            Mode::Normal => {},
            Mode::Insert => {
                let i = self.current_buffer_index;
                let cursor = self.buffers[i].cursor;
                if cursor > 0 {
                    remove_range(&mut self.buffers[i].text, cursor - 1, cursor);
                    self.buffers[i].move_x(-1);
                }
                assert(forall|j: int|
                    0 <= j < self.buffers@.len() && j != i ==> self.buffers@[j]
                        == old(self).buffers@[j]);
            },
            Mode::Command => {
                pop_char(&mut self.command_line);
                if self.command_line.as_str().is_empty() {
                    self.mode = Mode::Normal;
                }
            },
            Mode::QuickMenu => {
                pop_char(&mut self.quick_menu_line);
            },
        }
    }

    /// Takes the return key in Insert mode: a line break goes in at the
    /// cursor and the cursor moves one right. In other modes nothing changes.
    pub fn newline(&mut self)
        requires
            old(self).wf(),
        ensures
            final(self).wf(),
            final(self).same_but_current(old(self)),
            final(self).mode == old(self).mode,
            final(self).action == old(self).action,
            old(self).mode != Mode::Insert ==> *final(self) == *old(self),
            old(self).mode == Mode::Insert ==> {
                let t = old(self).current().chars().insert(
                    old(self).current().cursor as int,
                    '\n',
                );
                &&& final(self).current().chars() == t
                &&& final(self).current().cursor == horizontal_target(
                    t,
                    old(self).current().cursor as int,
                    1,
                )
            },
            old(self).current().wf() ==> final(self).current().wf(),
    {
        if self.mode != Mode::Insert {
            return;
        }
        let i = self.current_buffer_index;
        self.buffers[i].insert_after_cursor('\n');
        self.buffers[i].move_x(1);
        assert(forall|j: int|
            0 <= j < self.buffers@.len() && j != i ==> self.buffers@[j] == old(self).buffers@[j]);
    }

    /// Takes the tab key in Insert mode: `width` spaces go in at the cursor
    /// and the cursor moves `width` right. In other modes nothing changes.
    pub fn tab(&mut self, width: usize)
        requires
            old(self).wf(),
        ensures
            final(self).wf(),
            final(self).same_but_current(old(self)),
            final(self).mode == old(self).mode,
            final(self).action == old(self).action,
            old(self).mode != Mode::Insert ==> *final(self) == *old(self),
            old(self).mode == Mode::Insert ==> {
                let s = old(self).current().chars();
                let c = old(self).current().cursor as int;
                let t = s.take(c) + spaces(width as nat) + s.skip(c);
                &&& final(self).current().chars() == t
                &&& final(self).current().cursor == horizontal_target(t, c, width as int)
            },
            old(self).current().wf() ==> final(self).current().wf(),
    {
        if self.mode != Mode::Insert {
            return;
        }
        let mut run = String::new();
        let mut k: usize = 0;
        while k < width
            invariant
                k <= width,
                run@ == spaces(k as nat),
            decreases width - k,
        {
            push_char(&mut run, ' ');
            k = k + 1;
            assert(run@ =~= spaces(k as nat));
        }
        let i = self.current_buffer_index;
        let cursor = self.buffers[i].cursor;
        insert_str(&mut self.buffers[i].text, cursor, run.as_str());
        let c = self.buffers[i].advance(cursor, width);
        self.buffers[i].cursor = c;
        assert(forall|j: int|
            0 <= j < self.buffers@.len() && j != i ==> self.buffers@[j] == old(self).buffers@[j]);
    }

    /// Takes the delete key in Insert mode: the char at the cursor goes, if
    /// there is one, and the cursor stays. In other modes nothing changes.
    pub fn delete_forward(&mut self)
        requires
            old(self).wf(),
        ensures
            final(self).wf(),
            final(self).same_but_current(old(self)),
            final(self).mode == old(self).mode,
            final(self).action == old(self).action,
            old(self).mode != Mode::Insert ==> *final(self) == *old(self),
            old(self).mode == Mode::Insert ==> {
                let s = old(self).current().chars();
                let c = old(self).current().cursor as int;
                &&& final(self).current().chars() == if c < s.len() {
                    cut(s, c, c + 1)
                } else {
                    s
                }
                &&& final(self).current().cursor == c
                &&& c + 1 < s.len() ==> final(self).current().wf()
            },
    {
        if self.mode != Mode::Insert {
            return;
        }
        let i = self.current_buffer_index;
        let length = len_chars(&self.buffers[i].text);
        let cursor = self.buffers[i].cursor;
        let end = if cursor < length {
            cursor + 1
        } else {
            length
        };
        remove_range(&mut self.buffers[i].text, cursor, end);
        assert(forall|j: int|
            0 <= j < self.buffers@.len() && j != i ==> self.buffers@[j] == old(self).buffers@[j]);
        assert(cursor == length ==> self.buffers@[i as int].chars() =~= old(self).current().chars());
    }

    /// Takes the delete-char key of Normal mode: the char at the cursor goes,
    /// if there is one, and the cursor is brought back within the text. In
    /// other modes nothing changes.
    pub fn delete_under_cursor(&mut self)
        requires
            old(self).wf(),
        ensures
            final(self).wf(),
            final(self).same_but_current(old(self)),
            final(self).mode == old(self).mode,
            final(self).action == old(self).action,
            old(self).mode != Mode::Normal ==> *final(self) == *old(self),
            old(self).mode == Mode::Normal ==> {
                let s = old(self).current().chars();
                let c = old(self).current().cursor as int;
                let t = if c < s.len() {
                    cut(s, c, c + 1)
                } else {
                    s
                };
                &&& final(self).current().chars() == t
                &&& final(self).current().cursor == horizontal_target(t, c, 0)
                &&& final(self).current().wf()
            },
    {
        if self.mode != Mode::Normal {
            return;
        }
        let i = self.current_buffer_index;
        let length = len_chars(&self.buffers[i].text);
        let cursor = self.buffers[i].cursor;
        if cursor < length {
            remove_range(&mut self.buffers[i].text, cursor, cursor + 1);
        }
        self.buffers[i].move_x(0);
        assert(forall|j: int|
            0 <= j < self.buffers@.len() && j != i ==> self.buffers@[j] == old(self).buffers@[j]);
    }

    /// Takes the return key in Command mode: the command line is parsed
    /// against `commands`, then emptied, and the mode returns to Normal,
    /// whether the parse succeeded or not. The parse's outcome is handed
    /// back for the caller to run or report. In other modes nothing changes
    /// and nothing is handed back.
    pub fn submit_command(&mut self, commands: &Vec<Command>) -> (r: Option<
        Result<(Vec<CommandParameter>, usize), String>,
    >)
        requires
            old(self).wf(),
        ensures
            final(self).wf(),
            final(self).buffers == old(self).buffers,
            final(self).current_buffer_index == old(self).current_buffer_index,
            final(self).action == old(self).action,
            final(self).quick_menu_line == old(self).quick_menu_line,
            old(self).mode != Mode::Command ==> r is None && *final(self) == *old(self),
            old(self).mode == Mode::Command ==> {
                &&& r is Some
                &&& reports_parse(r->Some_0, commands@, old(self).command_line@)
                &&& final(self).command_line@.len() == 0
                &&& final(self).mode == Mode::Normal
            },
    {
        if self.mode != Mode::Command {
            return None;
        }
        let result = prepare_command(commands, self.command_line.as_str());
        self.command_line = String::new();
        self.mode = Mode::Normal;
        Some(result)
    }

    /// Runs a bound command with its parameter values. Switching buffers is
    /// done here; saving, loading and quitting are handed back to the host.
    pub fn run_command(&mut self, action: CommandAction, params: Vec<CommandParameter>) -> (r:
        CommandEffect)
        requires
            old(self).wf(),
        ensures
            final(self).wf(),
            action == CommandAction::BufferNext ==> {
                &&& final(self).current_buffer_index == (old(self).current_buffer_index + 1) % (old(
                    self,
                ).buffers@.len() as int)
                &&& final(self).buffers == old(self).buffers
                &&& r is Done
            },
            action == CommandAction::BufferPrevious ==> {
                &&& final(self).current_buffer_index == (old(self).current_buffer_index + old(
                    self,
                ).buffers@.len() - 1) % (old(self).buffers@.len() as int)
                &&& final(self).buffers == old(self).buffers
                &&& r is Done
            },
            action != CommandAction::BufferNext && action != CommandAction::BufferPrevious
                ==> *final(self) == *old(self),
            action == CommandAction::Quit ==> r is Quit,
            action == CommandAction::Write ==> r is Save && match write_argument(models(params@)) {
                Some(p) => r->Save_0 is Some && r->Save_0->Some_0@ == p,
                None => r->Save_0 is None,
            },
            action == CommandAction::Edit ==> match edit_argument(models(params@)) {
                Some(p) => r is Load && r->Load_0@ == p,
                None => r is Refused,
            },
            final(self).mode == old(self).mode,
            final(self).action == old(self).action,
            final(self).command_line == old(self).command_line,
            final(self).quick_menu_line == old(self).quick_menu_line,
    {
        assert(params@.len() > 0 ==> models(params@)[0] == params@[0].model());
        match action {
            CommandAction::Write => {
                let mut path: Option<String> = None;
                if params.len() > 0 {
                    if let CommandParameter::OptionalParameter(b) = &params[0] {
                        match &**b {
                            Some(inner) => {
                                assert(params@[0].model() == ParamValue::Optional(
                                    Some(Box::new(inner.model())),
                                ));
                                if let CommandParameter::StringParameter(s) = inner {
                                    path = Some(s.clone());
                                }
                            },
                            None => {},
                        }
                    }
                }
                CommandEffect::Save(path)
            },
            CommandAction::Edit => {
                if params.len() > 0 {
                    if let CommandParameter::StringParameter(s) = &params[0] {
                        return CommandEffect::Load(s.clone());
                    }
                }
                CommandEffect::Refused
            },
            CommandAction::Quit => CommandEffect::Quit,
            CommandAction::BufferNext => {
                self.next_buffer();
                CommandEffect::Done
            },
            CommandAction::BufferPrevious => {
                self.previous_buffer();
                CommandEffect::Done
            },
        }
    }
}

} // verus!

use modal_edit::action::Action;
use modal_edit::buffer::Buffer;
use modal_edit::commands::{get_standard_commands, CommandAction};
use modal_edit::motion::Motion;
use modal_edit::state::{CommandEffect, Editor, Mode, ModeChange};
use ropey::Rope;

fn editor_with(texts: &[&str]) -> Editor {
    let buffers = texts
        .iter()
        .map(|t| Buffer::new(Rope::from_str(t), None))
        .collect();
    Editor {
        buffers,
        current_buffer_index: 0,
        command_line: String::new(),
        quick_menu_line: String::new(),
        mode: Mode::Normal,
        action: None,
    }
}

fn text(e: &Editor) -> String {
    e.buffers[e.current_buffer_index].text.to_string()
}

fn cursor(e: &Editor) -> usize {
    e.buffers[e.current_buffer_index].cursor
}

#[test]
fn delete_word_composes_operator_and_motion() {
    let mut e = editor_with(&["hello world"]);
    e.receive_action(Action::Delete);
    e.apply_motion(Motion::ForwardWord);
    assert_eq!(text(&e), " world");
    assert_eq!(cursor(&e), 0);
    assert_eq!(e.action, None);
    assert_eq!(e.mode, Mode::Normal);
}

#[test]
fn replace_word_deletes_and_enters_insert() {
    let mut e = editor_with(&["hello world"]);
    e.receive_action(Action::Replace);
    e.apply_motion(Motion::ForwardWord);
    assert_eq!(text(&e), " world");
    assert_eq!(cursor(&e), 0);
    assert_eq!(e.action, None);
    assert_eq!(e.mode, Mode::Insert);
}

#[test]
fn delete_backwards_moves_cursor_to_target() {
    let mut e = editor_with(&["ab cd"]);
    e.buffers[0].cursor = 4;
    e.receive_action(Action::Delete);
    e.apply_motion(Motion::BackWord);
    assert_eq!(text(&e), "ab d");
    assert_eq!(cursor(&e), 3);
}

#[test]
fn motion_without_operator_moves_cursor() {
    let mut e = editor_with(&["hello world"]);
    e.apply_motion(Motion::ForwardWord);
    assert_eq!(text(&e), "hello world");
    assert_eq!(cursor(&e), 5);
}

#[test]
fn new_action_replaces_pending_one() {
    let mut e = editor_with(&["hello world"]);
    e.receive_action(Action::Replace);
    e.receive_action(Action::Delete);
    assert_eq!(e.action, Some(Action::Delete));
    e.apply_motion(Motion::ForwardWord);
    assert_eq!(e.mode, Mode::Normal);
}

#[test]
fn action_ignored_outside_normal_mode() {
    let mut e = editor_with(&["abc"]);
    e.change_mode(ModeChange::Insert);
    e.receive_action(Action::Delete);
    assert_eq!(e.action, None);
    e.apply_motion(Motion::Right);
    assert_eq!(cursor(&e), 0);
}

#[test]
fn buffer_cycling_wraps_both_ways() {
    let mut e = editor_with(&["a", "b", "c"]);
    e.current_buffer_index = 2;
    e.next_buffer();
    assert_eq!(e.current_buffer_index, 0);
    e.previous_buffer();
    assert_eq!(e.current_buffer_index, 2);
    e.previous_buffer();
    assert_eq!(e.current_buffer_index, 1);
}

#[test]
fn add_buffer_appends_and_activates() {
    let mut e = editor_with(&["a"]);
    e.add_buffer(Rope::from_str("new"), Some("f.txt".to_string()));
    assert_eq!(e.buffers.len(), 2);
    assert_eq!(e.current_buffer_index, 1);
    assert_eq!(text(&e), "new");
    assert_eq!(cursor(&e), 0);
    assert_eq!(e.buffers[1].filepath, Some("f.txt".to_string()));
}

#[test]
fn buffer_accessor_reaches_active_buffer() {
    let mut e = editor_with(&["a", "bc"]);
    e.next_buffer();
    e.buffer().cursor = 1;
    assert_eq!(e.buffers[1].cursor, 1);
    assert_eq!(e.buffers[0].cursor, 0);
}

#[test]
fn backspace_at_offset_zero_is_noop() {
    let mut e = editor_with(&["abc"]);
    e.change_mode(ModeChange::Insert);
    e.backspace();
    assert_eq!(text(&e), "abc");
    assert_eq!(cursor(&e), 0);
}

#[test]
fn backspace_removes_char_before_cursor() {
    let mut e = editor_with(&["abc"]);
    e.buffers[0].cursor = 2;
    e.change_mode(ModeChange::Insert);
    e.backspace();
    assert_eq!(text(&e), "ac");
    assert_eq!(cursor(&e), 1);
}

#[test]
fn typing_inserts_and_advances() {
    let mut e = editor_with(&["ac"]);
    e.buffers[0].cursor = 1;
    e.change_mode(ModeChange::Insert);
    e.receive_char('b');
    assert_eq!(text(&e), "abc");
    assert_eq!(cursor(&e), 2);
}

#[test]
fn control_chars_are_not_typed() {
    let mut e = editor_with(&["ac"]);
    e.change_mode(ModeChange::Insert);
    e.receive_char('\u{7f}');
    e.receive_char('\u{8}');
    e.receive_char('\n');
    assert_eq!(text(&e), "ac");
}

#[test]
fn typing_in_normal_mode_does_nothing() {
    let mut e = editor_with(&["ac"]);
    e.receive_char('x');
    assert_eq!(text(&e), "ac");
}

#[test]
fn newline_and_tab_insert() {
    let mut e = editor_with(&["ab"]);
    e.buffers[0].cursor = 1;
    e.change_mode(ModeChange::Insert);
    e.newline();
    assert_eq!(text(&e), "a\nb");
    assert_eq!(cursor(&e), 2);
    e.tab(4);
    assert_eq!(text(&e), "a\n    b");
    assert_eq!(cursor(&e), 6);
}

#[test]
fn delete_forward_removes_char_at_cursor() {
    let mut e = editor_with(&["abc"]);
    e.buffers[0].cursor = 1;
    e.change_mode(ModeChange::Insert);
    e.delete_forward();
    assert_eq!(text(&e), "ac");
    assert_eq!(cursor(&e), 1);
    e.buffers[0].cursor = 2;
    e.delete_forward();
    assert_eq!(text(&e), "ac");
}

#[test]
fn delete_under_cursor_keeps_cursor_valid() {
    let mut e = editor_with(&["abc"]);
    e.buffers[0].cursor = 2;
    e.delete_under_cursor();
    assert_eq!(text(&e), "ab");
    assert_eq!(cursor(&e), 1);
    let mut empty = editor_with(&[""]);
    empty.delete_under_cursor();
    assert_eq!(text(&empty), "");
    assert_eq!(cursor(&empty), 0);
}

#[test]
fn insert_after_moves_right() {
    let mut e = editor_with(&["abc"]);
    e.change_mode(ModeChange::InsertAfter);
    assert_eq!(e.mode, Mode::Insert);
    assert_eq!(cursor(&e), 1);
}

#[test]
fn insert_start_and_end_leave_cursor() {
    let mut e = editor_with(&["abc"]);
    e.buffers[0].cursor = 1;
    e.change_mode(ModeChange::InsertEnd);
    assert_eq!(e.mode, Mode::Insert);
    assert_eq!(cursor(&e), 1);
    e.change_mode(ModeChange::Escape);
    assert_eq!(e.mode, Mode::Normal);
    e.change_mode(ModeChange::InsertStart);
    assert_eq!(cursor(&e), 1);
}

#[test]
fn command_mode_line_editing() {
    let mut e = editor_with(&["abc"]);
    e.change_mode(ModeChange::EnterCommand);
    assert_eq!(e.mode, Mode::Command);
    assert_eq!(e.command_line, ":");
    e.receive_char('b');
    e.receive_char('n');
    assert_eq!(e.command_line, ":bn");
    e.backspace();
    e.backspace();
    assert_eq!(e.mode, Mode::Command);
    e.backspace();
    assert_eq!(e.command_line, "");
    assert_eq!(e.mode, Mode::Normal);
}

#[test]
fn quick_menu_line_editing() {
    let mut e = editor_with(&["abc"]);
    e.quick_menu_line = "old".to_string();
    e.change_mode(ModeChange::EnterQuickMenu);
    assert_eq!(e.mode, Mode::QuickMenu);
    assert_eq!(e.quick_menu_line, "");
    e.receive_char('x');
    e.receive_char('y');
    e.backspace();
    assert_eq!(e.quick_menu_line, "x");
    e.change_mode(ModeChange::Escape);
    assert_eq!(e.mode, Mode::Normal);
}

#[test]
fn submit_runs_buffer_switch() {
    let commands = get_standard_commands();
    let mut e = editor_with(&["a", "b"]);
    e.change_mode(ModeChange::EnterCommand);
    for c in "bnext".chars() {
        e.receive_char(c);
    }
    let result = e.submit_command(&commands).unwrap();
    assert_eq!(e.mode, Mode::Normal);
    assert_eq!(e.command_line, "");
    let (params, index) = result.unwrap();
    let effect = e.run_command(commands[index].execute, params);
    assert!(matches!(effect, CommandEffect::Done));
    assert_eq!(e.current_buffer_index, 1);
}

#[test]
fn submit_reports_unknown_command_and_returns_to_normal() {
    let commands = get_standard_commands();
    let mut e = editor_with(&["a"]);
    e.change_mode(ModeChange::EnterCommand);
    e.receive_char('z');
    let result = e.submit_command(&commands).unwrap();
    assert_eq!(result.unwrap_err(), "Could not find command \"z\"");
    assert_eq!(e.mode, Mode::Normal);
    assert_eq!(e.command_line, "");
}

#[test]
fn submit_outside_command_mode_gives_nothing() {
    let commands = get_standard_commands();
    let mut e = editor_with(&["a"]);
    assert!(e.submit_command(&commands).is_none());
}

#[test]
fn run_command_effects() {
    let commands = get_standard_commands();
    let mut e = editor_with(&["a", "b", "c"]);
    let (params, index) =
        modal_edit::commands::prepare_command(&commands, ":w out.txt").unwrap();
    match e.run_command(commands[index].execute, params) {
        CommandEffect::Save(Some(p)) => assert_eq!(p, "out.txt"),
        _ => panic!("expected a save with a path"),
    }
    let (params, index) = modal_edit::commands::prepare_command(&commands, ":w").unwrap();
    assert!(matches!(
        e.run_command(commands[index].execute, params),
        CommandEffect::Save(None)
    ));
    let (params, index) = modal_edit::commands::prepare_command(&commands, ":e f.txt").unwrap();
    match e.run_command(commands[index].execute, params) {
        CommandEffect::Load(p) => assert_eq!(p, "f.txt"),
        _ => panic!("expected a load"),
    }
    assert!(matches!(
        e.run_command(CommandAction::Quit, Vec::new()),
        CommandEffect::Quit
    ));
    assert!(matches!(
        e.run_command(CommandAction::Edit, Vec::new()),
        CommandEffect::Refused
    ));
    e.run_command(CommandAction::BufferPrevious, Vec::new());
    assert_eq!(e.current_buffer_index, 2);
}

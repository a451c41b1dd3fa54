//! The line that is typed while attached.
use container::client::editor::{Keystroke, LineEditor};
use container::client::keys::{KeyCode, KeyEvent, KeyModifiers};

fn press(code: KeyCode) -> KeyEvent {
    KeyEvent::new(code, KeyModifiers::none())
}

fn ctrl(c: char) -> KeyEvent {
    KeyEvent::new(KeyCode::Char(c), KeyModifiers::control())
}

fn type_str(ed: &mut LineEditor, text: &str) {
    for c in text.chars() {
        ed.handle(&press(KeyCode::Char(c)));
    }
}

#[test]
fn edits_at_the_cursor() {
    let mut ed = LineEditor::new();
    type_str(&mut ed, "stop");
    ed.handle(&press(KeyCode::Home));
    ed.handle(&press(KeyCode::Delete));
    type_str(&mut ed, "ST");
    ed.handle(&press(KeyCode::End));
    ed.handle(&press(KeyCode::Backspace));
    assert_eq!(ed.display(), "STto");
}

#[test]
fn submit_appends_the_terminator_and_resets() {
    let mut ed = LineEditor::new();
    type_str(&mut ed, "help");
    let Keystroke::Submit(sent) = ed.handle(&press(KeyCode::Enter)) else {
        panic!("expected a submit");
    };
    assert_eq!(sent, "help\r\n");
    assert_eq!(ed.display(), "");
    assert_eq!(ed.cursor(), 0);
}

#[test]
fn history_browses_back_and_restores_the_fresh_line() {
    let mut ed = LineEditor::new();
    type_str(&mut ed, "first");
    ed.handle(&press(KeyCode::Enter));
    type_str(&mut ed, "second");
    ed.handle(&press(KeyCode::Enter));

    type_str(&mut ed, "draft");
    ed.handle(&press(KeyCode::Up));
    assert_eq!(ed.display(), "second");
    ed.handle(&press(KeyCode::Up));
    assert_eq!(ed.display(), "first");
    ed.handle(&press(KeyCode::Down));
    ed.handle(&press(KeyCode::Down));
    assert_eq!(ed.display(), "draft");
}

#[test]
fn consecutive_duplicates_collapse_in_history() {
    let mut ed = LineEditor::new();
    for _ in 0..2 {
        type_str(&mut ed, "list");
        ed.handle(&press(KeyCode::Enter));
    }
    ed.handle(&press(KeyCode::Up));
    assert_eq!(ed.display(), "list");
    assert!(matches!(ed.handle(&press(KeyCode::Up)), Keystroke::Ignored));
}

#[test]
fn ctrl_shortcuts_kill_and_move() {
    let mut ed = LineEditor::new();
    type_str(&mut ed, "kill two words");
    ed.handle(&ctrl('w'));
    assert_eq!(ed.display(), "kill two ");
    ed.handle(&ctrl('a'));
    assert_eq!(ed.cursor(), 0);
    ed.handle(&ctrl('k'));
    assert_eq!(ed.display(), "");
}

#[test]
fn a_backspace_takes_back_what_was_typed() {
    let mut ed = LineEditor::new();
    type_str(&mut ed, "ab");
    ed.handle(&press(KeyCode::Left));
    type_str(&mut ed, "x");
    assert_eq!(ed.display(), "axb");
    ed.handle(&press(KeyCode::Backspace));
    assert_eq!(ed.display(), "ab");
    assert_eq!(ed.cursor(), 1);
}

#[test]
fn a_tab_is_shown_as_a_blank_and_sent_as_it_is() {
    let mut ed = LineEditor::new();
    type_str(&mut ed, "a\tb");
    assert_eq!(ed.display(), "a b");
    let Keystroke::Submit(sent) = ed.handle(&press(KeyCode::Enter)) else {
        panic!("expected a submit");
    };
    assert_eq!(sent, "a\tb\r\n");
}

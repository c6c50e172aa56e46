use pc_keyboard::KeyCode;
use xv0::keyboard::KeyEvent;
use xv0::line::{LineAction, LineEditor};

fn text(e: &LineEditor) -> String {
    e.chars().iter().collect()
}

#[test]
fn characters_are_appended_and_echoed() {
    let mut e = LineEditor::new();
    assert_eq!(e.feed_key(KeyEvent::Unicode('h')), LineAction::Insert('h'));
    assert_eq!(e.feed_key(KeyEvent::Unicode('i')), LineAction::Insert('i'));
    assert_eq!(text(&e), "hi");
}

#[test]
fn enter_and_return_submit() {
    let mut e = LineEditor::new();
    e.feed_key(KeyEvent::Unicode('x'));
    assert_eq!(e.feed_key(KeyEvent::Unicode('\n')), LineAction::Submit);
    assert_eq!(e.feed_key(KeyEvent::Unicode('\r')), LineAction::Submit);
    assert_eq!(text(&e), "x");
}

#[test]
fn backspace_removes_last_character() {
    let mut e = LineEditor::new();
    e.feed_key(KeyEvent::Unicode('a'));
    e.feed_key(KeyEvent::Unicode('b'));
    assert_eq!(e.feed_key(KeyEvent::Unicode('\u{8}')), LineAction::Erase);
    assert_eq!(text(&e), "a");
}

#[test]
fn backspace_on_empty_line_keeps_it_empty() {
    let mut e = LineEditor::new();
    assert_eq!(e.feed_key(KeyEvent::Unicode('\u{8}')), LineAction::Erase);
    assert_eq!(text(&e), "");
}

#[test]
fn raw_keys_are_ignored() {
    let mut e = LineEditor::new();
    e.feed_key(KeyEvent::Unicode('q'));
    assert_eq!(e.feed_key(KeyEvent::Raw(KeyCode::ArrowUp)), LineAction::Ignore);
    assert_eq!(text(&e), "q");
}

#[test]
fn insert_then_erase_restores_line() {
    let mut e = LineEditor::new();
    e.feed_key(KeyEvent::Unicode('o'));
    e.feed_key(KeyEvent::Unicode('k'));
    let before = text(&e);
    e.feed_key(KeyEvent::Unicode('!'));
    e.feed_key(KeyEvent::Unicode('\u{8}'));
    assert_eq!(text(&e), before);
}

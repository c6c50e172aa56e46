//! Line editing for the shell prompt: key events build up a line until
//! Enter submits it.
use vstd::prelude::*;
use crate::keyboard::KeyEvent;

verus! {

/// What the prompt does with one key event.
#[derive(Copy, Clone, Debug, PartialEq, Eq, Structural)]
pub enum LineAction {
    /// Enter or carriage return: the line is complete; a line feed is echoed.
    Submit,
    /// Backspace: the last character (if any) was removed; the screen backs
    /// up one cell.
    Erase,
    /// A character was added to the line and is echoed.
    Insert(char),
    /// A key without a character: nothing happens.
    Ignore,
}

/// The action a key event causes at the prompt.
pub open spec fn line_action(key: KeyEvent) -> LineAction {
    match key {
        KeyEvent::Unicode(c) => if c == '\n' || c == '\r' {
            LineAction::Submit
        } else if c == '\u{8}' {
            LineAction::Erase
        } else {
            LineAction::Insert(c)
        },
        KeyEvent::Raw(_) => LineAction::Ignore,
    }
}

/// The line after a key event: backspace drops the last character of a
/// non-empty line, a character is appended, anything else leaves it.
pub open spec fn line_after(line: Seq<char>, key: KeyEvent) -> Seq<char> {
    match line_action(key) {
        LineAction::Erase => if line.len() > 0 { line.drop_last() } else { line },
        LineAction::Insert(c) => line.push(c),
        _ => line,
    }
}

/// A line being typed at the prompt.
pub struct LineEditor {
    line: Vec<char>,
}

impl LineEditor {
    /// The characters typed so far.
    pub closed spec fn text(&self) -> Seq<char> {
        self.line@
    }

    /// An empty line.
    pub fn new() -> (e: LineEditor)
        ensures
            e.text() == Seq::<char>::empty(),
    {
        LineEditor { line: Vec::new() }
    }

    /// Applies one key event; see [`line_action`] and [`line_after`].
    pub fn feed_key(&mut self, key: KeyEvent) -> (action: LineAction)
        ensures
            action == line_action(key),
            final(self).text() == line_after(old(self).text(), key),
    {
        match key {
            KeyEvent::Unicode(ch) => {
                if ch == '\n' || ch == '\r' {
                    LineAction::Submit
                } else if ch == '\u{8}' {
                    if self.line.len() > 0 {
                        self.line.pop();
                    }
                    LineAction::Erase
                } else {
                    self.line.push(ch);
                    LineAction::Insert(ch)
                }
            },
            KeyEvent::Raw(_) => LineAction::Ignore,
        }
    }

    /// The characters typed so far.
    pub fn chars(&self) -> (c: &[char])
        ensures
            c@ == self.text(),
    {
        self.line.as_slice()
    }
}

/// Backspace right after typing a character restores the line: whatever was
/// typed, inserting a character and erasing it leaves the line as it was.
pub proof fn lemma_insert_then_erase(line: Seq<char>, c: char)
    requires
        c != '\n',
        c != '\r',
        c != '\u{8}',
    ensures
        line_after(line_after(line, KeyEvent::Unicode(c)), KeyEvent::Unicode('\u{8}')) == line,
{
    assert(line.push(c).drop_last() =~= line);
}

} // verus!

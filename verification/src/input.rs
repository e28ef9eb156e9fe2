//! The keyboard: what each key press means to the diary.

use vstd::prelude::*;

verus! {

/// A key press, as the terminal reports it.
#[derive(Debug, Clone, Copy, PartialEq, Eq, Structural)]
pub enum Key {
    /// A character key, Enter giving `'\n'`.
    Char(char),
    /// A character key with Alt held.
    Alt(char),
    /// A character key with Ctrl held.
    Ctrl(char),
    Backspace,
    Esc,
    /// Any other key.
    Other,
}

/// A command of the user.
#[derive(Debug, Clone, Copy, PartialEq, Eq, Structural)]
pub enum SignalType {
    /// Leave without saving.
    Close,
    /// Go on: to the files screen, or add the file typed.
    Go,
    /// Erase the last character typed.
    BackSpace,
    /// Save and leave, or dismiss an alert.
    Cancel,
}

/// What a key press sends to the diary: a command or a typed character.
#[derive(Debug, Clone, Copy, PartialEq, Eq, Structural)]
pub enum Data {
    Command(SignalType),
    Char(char),
}

/// The screen the diary shows.
#[derive(Debug, Clone, Copy, PartialEq, Eq, Structural)]
pub enum State {
    /// The text of the day's entry is typed.
    AddingText,
    /// The paths of files to attach are typed.
    AddingFile,
    /// An alert is shown.
    Popup,
}

/// What `key` means on the screen `mode`: the screen that the keyboard
/// expects next, and what the key sends, if anything.
///
/// On the text screen Enter is a character of the text; elsewhere it adds
/// the file typed. Alt+n leaves the text screen for the files screen, and
/// on the files screen adds the file typed. Ctrl+c closes and Esc cancels
/// on every screen.
pub open spec fn key_meaning(mode: State, key: Key) -> (State, Option<Data>) {
    match mode {
        State::AddingText => match key {
            Key::Ctrl('c') => (mode, Some(Data::Command(SignalType::Close))),
            Key::Alt('n') => (State::AddingFile, Some(Data::Command(SignalType::Go))),
            Key::Char(x) => (mode, Some(Data::Char(x))),
            Key::Backspace => (mode, Some(Data::Command(SignalType::BackSpace))),
            Key::Esc => (mode, Some(Data::Command(SignalType::Cancel))),
            _ => (mode, None),
        },
        _ => match key {
            Key::Char('\n') => (mode, Some(Data::Command(SignalType::Go))),
            Key::Alt('n') => (mode, Some(Data::Command(SignalType::Go))),
            Key::Backspace => (mode, Some(Data::Command(SignalType::BackSpace))),
            Key::Char(x) => (mode, Some(Data::Char(x))),
            Key::Ctrl('c') => (mode, Some(Data::Command(SignalType::Close))),
            Key::Esc => (mode, Some(Data::Command(SignalType::Cancel))),
            _ => (mode, None),
        },
    }
}

/// Reads `key` on the screen `mode`: returns the screen the keyboard expects
/// next and what the key sends, if anything.
pub fn decode_key(mode: State, key: Key) -> (r: (State, Option<Data>))
    ensures
        r == key_meaning(mode, key),
        key == Key::Ctrl('c') ==> r == (mode, Some(Data::Command(SignalType::Close))),
        key == Key::Esc ==> r == (mode, Some(Data::Command(SignalType::Cancel))),
        r.0 != mode ==> mode == State::AddingText && key == Key::Alt('n') && r.0 == State::AddingFile,
        key matches Key::Char(c) ==> (c != '\n' || mode == State::AddingText ==> r == (mode, Some(Data::Char(c)))),
{
    match mode {
        State::AddingText => match key {
            Key::Ctrl('c') => (mode, Some(Data::Command(SignalType::Close))),
            Key::Alt('n') => (State::AddingFile, Some(Data::Command(SignalType::Go))),
            Key::Char(x) => (mode, Some(Data::Char(x))),
            Key::Backspace => (mode, Some(Data::Command(SignalType::BackSpace))),
            Key::Esc => (mode, Some(Data::Command(SignalType::Cancel))),
            _ => (mode, None),
        },
        _ => match key {
            Key::Char('\n') => (mode, Some(Data::Command(SignalType::Go))),
            Key::Alt('n') => (mode, Some(Data::Command(SignalType::Go))),
            Key::Backspace => (mode, Some(Data::Command(SignalType::BackSpace))),
            Key::Char(x) => (mode, Some(Data::Char(x))),
            Key::Ctrl('c') => (mode, Some(Data::Command(SignalType::Close))),
            Key::Esc => (mode, Some(Data::Command(SignalType::Cancel))),
            _ => (mode, None),
        },
    }
}

/// A character key is typed as itself on every screen: any character but
/// Enter, and on the text screen Enter too, is sent as that character and
/// leaves the screen as it is. (On the other screens Enter adds the file.)
pub proof fn lemma_characters_are_typed(mode: State, c: char)
    requires
        c != '\n' || mode == State::AddingText,
    ensures
        key_meaning(mode, Key::Char(c)) == (mode, Some(Data::Char(c))),
{
}

} // verus!

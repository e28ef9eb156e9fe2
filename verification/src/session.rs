//! The editing session: the text typed on each screen, the files attached,
//! and what each command of the user does to them.

use vstd::prelude::*;

use crate::crypto::{aes_decrypt, aes_encrypt};
use crate::db_ops::{attach_file, file_type_of, File};
use crate::input::{Data, SignalType, State};
use crate::text::{last_segment, pop_char, push_char, push_str};

verus! {

/// The mark that ends the text being typed, where the next character goes.
pub const CURSOR: char = '\u{2016}';

/// `s` without its last character; the empty text stays empty.
pub open spec fn drop_one(s: Seq<char>) -> Seq<char> {
    if s.len() == 0 { s } else { s.drop_last() }
}

/// The buffer `b` after typing `c`: `c` takes the place of the cursor, which
/// moves behind it.
pub open spec fn typed(b: Seq<char>, c: char) -> Seq<char> {
    drop_one(b).push(c).push(CURSOR)
}

/// The buffer `b` after erasing: the cursor and the character before it go,
/// and the cursor comes back.
pub open spec fn erased(b: Seq<char>) -> Seq<char> {
    drop_one(drop_one(b)).push(CURSOR)
}

/// The text shown in an alert about the missing file `path`.
pub open spec fn missing_message(path: Seq<char>) -> Seq<char> {
    path + ": File not found!"@
}

/// The entry to save: its text and its attached files.
pub struct Draft {
    pub content: String,
    pub files: Vec<File>,
}

/// What the caller must do after a command.
pub enum Action {
    /// Nothing changed.
    Ignore,
    /// The screen changed and must be drawn again.
    Redraw,
    /// Leave without saving.
    Quit,
    /// Save the draft as the day's entry, then leave.
    Save(Draft),
    /// Open the file at this path: then report it with `file_found` or
    /// `file_missing`.
    OpenFile(String),
}

/// The state of an editing session.
pub struct Session {
    /// The screen shown.
    pub state: State,
    /// The text being typed, shown on the screen.
    pub buffer: String,
    /// The text of the entry, once the text screen is left.
    pub content_text: String,
    /// The files attached so far, encrypted.
    pub files: Vec<File>,
    /// The password of the database.
    pub password: String,
    /// The bytes that each attached file was read with, in order.
    pub read: Ghost<Seq<Seq<u8>>>,
}

impl Session {
    /// On the text screen the buffer ends with the cursor, and each attached
    /// file decrypts with the password to the bytes it was read with.
    pub open spec fn wf(&self) -> bool {
        &&& self.state == State::AddingText ==> self.buffer@.len() > 0 && self.buffer@.last() == CURSOR
        &&& self.read@.len() == self.files@.len()
        &&& forall|i: int| 0 <= i < self.files@.len()
            ==> aes_decrypt(self.password@, (#[trigger] self.files@[i]).data@) == Some(self.read@[i])
    }

    /// A session on the text screen, with nothing typed yet.
    pub fn new(password: String) -> (s: Session)
        ensures
            s.wf(),
            s.state == State::AddingText,
            s.buffer@ == seq![CURSOR],
            s.content_text@ == "Null"@,
            s.files@.len() == 0,
            s.password == password,
    {
        let mut buffer = String::new();
        push_char(&mut buffer, CURSOR);
        Session {
            state: State::AddingText,
            buffer: buffer,
            content_text: String::from_str("Null"),
            files: Vec::new(),
            password: password,
            read: Ghost(Seq::empty()),
        }
    }

    /// Applies the command or character `event`, and says what the caller
    /// must do next.
    pub fn handle(&mut self, event: Data) -> (a: Action)
        ensures
            final(self).password == old(self).password,
            old(self).wf() ==> final(self).wf(),
            match event {
                Data::Char(c) => if old(self).state != State::Popup {
                    &&& final(self).buffer@ == typed(old(self).buffer@, c)
                    &&& final(self).state == old(self).state
                    &&& final(self).content_text == old(self).content_text
                    &&& final(self).files == old(self).files
                    &&& a is Redraw
                } else {
                    *final(self) == *old(self) && a is Ignore
                },
                Data::Command(SignalType::Close) => *final(self) == *old(self) && a is Quit,
                Data::Command(SignalType::BackSpace) => if old(self).state != State::Popup {
                    &&& final(self).buffer@ == erased(old(self).buffer@)
                    &&& final(self).state == old(self).state
                    &&& final(self).content_text == old(self).content_text
                    &&& final(self).files == old(self).files
                    &&& a is Redraw
                } else {
                    *final(self) == *old(self) && a is Ignore
                },
                Data::Command(SignalType::Go) => match old(self).state {
                    State::AddingText => {
                        &&& final(self).state == State::AddingFile
                        &&& final(self).content_text@ == drop_one(old(self).buffer@)
                        &&& final(self).buffer@.len() == 0
                        &&& final(self).files == old(self).files
                        &&& a is Redraw
                    },
                    State::AddingFile => {
                        &&& final(self).state == State::AddingFile
                        &&& final(self).buffer@ == drop_one(old(self).buffer@)
                        &&& final(self).content_text == old(self).content_text
                        &&& final(self).files == old(self).files
                        &&& a matches Action::OpenFile(path) && path@ == drop_one(old(self).buffer@)
                    },
                    State::Popup => *final(self) == *old(self) && a is Ignore,
                },
                Data::Command(SignalType::Cancel) => match old(self).state {
                    State::AddingText => {
                        &&& final(self).state == old(self).state
                        &&& final(self).buffer == old(self).buffer
                        &&& final(self).content_text == old(self).content_text
                        &&& final(self).files@.len() == 0
                        &&& a matches Action::Save(d) && d.content@ == drop_one(old(self).buffer@)
                            && d.files@ == old(self).files@
                    },
                    State::AddingFile => {
                        &&& final(self).state == old(self).state
                        &&& final(self).buffer == old(self).buffer
                        &&& final(self).content_text == old(self).content_text
                        &&& final(self).files@.len() == 0
                        &&& a matches Action::Save(d) && d.content@ == old(self).content_text@
                            && d.files@ == old(self).files@
                    },
                    State::Popup => {
                        &&& final(self).state == State::AddingFile
                        &&& final(self).buffer@.len() == 0
                        &&& final(self).content_text == old(self).content_text
                        &&& final(self).files == old(self).files
                        &&& a is Redraw
                    },
                },
            },
    {
        match event {
            Data::Char(c) => {
                if self.state == State::AddingFile || self.state == State::AddingText {
                    pop_char(&mut self.buffer);
                    push_char(&mut self.buffer, c);
                    push_char(&mut self.buffer, CURSOR);
                    Action::Redraw
                } else {
                    Action::Ignore
                }
            },
            Data::Command(SignalType::Close) => Action::Quit,
            Data::Command(SignalType::BackSpace) => {
                if self.state == State::AddingFile || self.state == State::AddingText {
                    pop_char(&mut self.buffer);
                    pop_char(&mut self.buffer);
                    push_char(&mut self.buffer, CURSOR);
                    Action::Redraw
                } else {
                    Action::Ignore
                }
            },
            Data::Command(SignalType::Go) => {
                if self.state == State::AddingText {
                    pop_char(&mut self.buffer);
                    self.state = State::AddingFile;
                    self.content_text = self.buffer.clone();
                    self.buffer = String::new();
                    Action::Redraw
                } else if self.state == State::AddingFile {
                    pop_char(&mut self.buffer);
                    Action::OpenFile(self.buffer.clone())
                } else {
                    Action::Ignore
                }
            },
            Data::Command(SignalType::Cancel) => {
                if self.state == State::AddingFile {
                    let mut files: Vec<File> = Vec::new();
                    core::mem::swap(&mut files, &mut self.files);
                    self.read = Ghost(Seq::empty());
                    Action::Save(Draft { content: self.content_text.clone(), files: files })
                } else if self.state == State::AddingText {
                    let mut content = self.buffer.clone();
                    pop_char(&mut content);
                    let mut files: Vec<File> = Vec::new();
                    core::mem::swap(&mut files, &mut self.files);
                    self.read = Ghost(Seq::empty());
                    Action::Save(Draft { content: content, files: files })
                } else {
                    self.state = State::AddingFile;
                    self.buffer = String::new();
                    Action::Redraw
                }
            },
        }
    }

    /// Reports that the file whose path the files screen holds was read, with
    /// the bytes `plain`: it is attached, encrypted, and the path is cleared.
    /// Off the files screen nothing changes.
    pub fn file_found(&mut self, plain: &[u8]) -> (a: Action)
        ensures
            final(self).password == old(self).password,
            final(self).state == old(self).state,
            final(self).content_text == old(self).content_text,
            old(self).wf() ==> final(self).wf(),
            old(self).state == State::AddingFile ==> {
                let path = old(self).buffer@;
                let f = final(self).files@.last();
                &&& final(self).files@.len() == old(self).files@.len() + 1
                &&& final(self).files@.drop_last() == old(self).files@
                &&& f.data@ == aes_encrypt(old(self).password@, plain@)
                &&& aes_decrypt(old(self).password@, f.data@) == Some(plain@)
                &&& f.description@ == last_segment(path)
                &&& f.f_type == file_type_of(path)
                &&& final(self).read@ == old(self).read@.push(plain@)
                &&& final(self).buffer@.len() == 0
                &&& a is Redraw
            },
            old(self).state != State::AddingFile ==> *final(self) == *old(self) && a is Ignore,
    {
        if self.state != State::AddingFile {
            return Action::Ignore;
        }
        let f = attach_file(self.buffer.as_str(), plain, self.password.as_str());
        self.files.push(f);
        self.read = Ghost(self.read@.push(plain@));
        self.buffer = String::new();
        Action::Redraw
    }

    /// Reports that the file whose path the files screen holds cannot be
    /// opened: an alert about it is shown. Off the files screen nothing
    /// changes.
    pub fn file_missing(&mut self) -> (a: Action)
        ensures
            final(self).password == old(self).password,
            final(self).content_text == old(self).content_text,
            final(self).files == old(self).files,
            old(self).wf() ==> final(self).wf(),
            old(self).state == State::AddingFile ==> {
                &&& final(self).state == State::Popup
                &&& final(self).buffer@ == missing_message(old(self).buffer@)
                &&& a is Redraw
            },
            old(self).state != State::AddingFile ==> *final(self) == *old(self) && a is Ignore,
    {
        if self.state != State::AddingFile {
            return Action::Ignore;
        }
        push_str(&mut self.buffer, ": File not found!");
        self.state = State::Popup;
        Action::Redraw
    }
}

} // verus!

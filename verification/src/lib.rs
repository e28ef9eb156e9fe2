//! A diary whose entries and attachments are kept encrypted.
//!
//! The library holds the logic of the diary: the keyboard decoding, the
//! editing session, the sealing of entries, the password check of a
//! database and the rendering of the decrypted diary as an HTML page.

pub mod text;
pub mod crypto;
pub mod db_ops;
pub mod page;
pub mod input;
pub mod session;
pub mod laws;

pub use db_ops::{append_entry, Entry, File, FileType};
pub use input::{Data, SignalType, State};
pub use page::gen_page;

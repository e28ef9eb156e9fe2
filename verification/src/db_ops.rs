//! The records of the diary database: entries and their attached files, and
//! how an entry is sealed with the password on the day it is written.

use chrono::Datelike;
use vstd::prelude::*;
use vstd::utf8::*;

use crate::crypto::{aes_decrypt, aes_encrypt, encrypt};
use crate::text::{ends_with, chars_of, has_suffix, last_path_segment, last_segment};

verus! {

/// The kind of an attached file, which decides how the page shows it.
#[derive(Debug, Clone, Copy, PartialEq, Eq, Structural)]
pub enum FileType {
    Image,
    Audio,
    GenericFile,
}

/// A file attached to an entry: its encrypted bytes, the name it is shown
/// under and its kind.
pub struct File {
    pub data: Vec<u8>,
    pub description: String,
    pub f_type: FileType,
}

/// One diary entry: the day it was written, its encrypted text and its
/// attached files.
pub struct Entry {
    pub year: u64,
    pub month: u64,
    pub date: u64,
    pub content: Vec<u8>,
    pub files: Vec<File>,
}

impl Entry {
    /// An entry of the given day, text and files.
    pub fn new(date: u64, month: u64, year: u64, content: Vec<u8>, files: Vec<File>) -> (e: Self)
        ensures
            e.date == date,
            e.month == month,
            e.year == year,
            e.content == content,
            e.files == files,
    {
        Self { year: year, month: month, date: date, content: content, files: files }
    }
}

/// Why an entry cannot be sealed.
#[derive(Debug, Clone, Copy, PartialEq, Eq, Structural)]
pub enum EntryError {
    /// The year of the day is negative, and has no place in the entry's
    /// unsigned year.
    YearBeforeZero,
    /// The clock gives no date: it reads before 1970-01-01, or a time that
    /// has no date.
    NoDate,
}

/// Calls `std::time::SystemTime::now()` and `duration_since(UNIX_EPOCH)`, and
/// returns the whole seconds of that duration (`Duration::as_secs`); `None`
/// stands for the error that a clock before the Unix epoch gives.
///
/// Nothing is stated of the result: it depends on the clock.
#[verifier::external_body]
fn seconds_since_epoch() -> (s: Option<u64>) {
    match std::time::SystemTime::now().duration_since(std::time::UNIX_EPOCH) {
        Ok(d) => Some(d.as_secs()),
        Err(_) => None,
    }
}

/// The number of days from 1970-01-01 to the day `d` of month `m` of year
/// `y` in the proleptic Gregorian calendar (negative before it).
pub open spec fn days_from_civil(y: int, m: int, d: int) -> int {
    let yy = if m <= 2 { y - 1 } else { y };
    let era = yy / 400;
    let yoe = yy - era * 400;
    let mp = if m > 2 { m - 3 } else { m + 9 };
    let doy = (153 * mp + 2) / 5 + d - 1;
    let doe = yoe * 365 + yoe / 4 - yoe / 100 + doy;
    era * 146097 + doe - 719468
}

/// Calls `chrono::DateTime::from_timestamp(secs, 0)` and, when it gives a
/// time, `with_timezone(&chrono::Local)`, and returns the local year, month
/// and day of that time; `None` stands for a timestamp out of chrono's range.
///
/// Claimed of it: the month lies in 1..=12 and the day in 1..=31 (chrono's
/// documentation of `Datelike::month` and `Datelike::day`); a timestamp not
/// before the Unix epoch, 1970-01-01 UTC, gives a year of at least 1969
/// (chrono's source: a `FixedOffset`, the offset of the local time, is less
/// than a day in either direction); and the date is that of the UTC day of
/// `secs`, or of the day before or after it (chrono's source: the UTC day is
/// `secs.div_euclid(86_400)` days after 1970-01-01 in the proleptic Gregorian
/// calendar, and the local time differs from the UTC time by less than a
/// day). Which of the three it is depends on the time zone of the machine,
/// and is not stated.
#[verifier::external_body]
fn local_date(secs: i64) -> (d: Option<(i32, u32, u32)>)
    ensures
        d matches Some(x) ==> 1 <= x.1 <= 12 && 1 <= x.2 <= 31,
        d matches Some(x) ==> (secs >= 0 ==> x.0 >= 1969),
        d matches Some(x) ==> secs / 86400 - 1 <= days_from_civil(x.0 as int, x.1 as int, x.2 as int)
            <= secs / 86400 + 1,
{
    match chrono::DateTime::from_timestamp(secs, 0) {
        Some(utc) => {
            let local = utc.with_timezone(&chrono::Local);
            Some((local.year(), local.month(), local.day()))
        },
        None => None,
    }
}

/// The local date of the clock reading `reading`, in seconds after the
/// Unix epoch (`None` for a clock before it): the UTC day of that instant
/// (`secs / 86400` days after 1970-01-01), or the day before or after it, as
/// the time zone shifts it. `None` when there is no reading or the instant
/// is out of the calendar's range.
pub fn date_at(reading: Option<u64>) -> (d: Option<(i32, u32, u32)>)
    ensures
        reading is None ==> d is None,
        d matches Some(x) ==> x.0 >= 1969 && 1 <= x.1 <= 12 && 1 <= x.2 <= 31,
        d matches Some(x) ==> (reading matches Some(secs) && secs / 86400 - 1
            <= days_from_civil(x.0 as int, x.1 as int, x.2 as int) <= secs / 86400 + 1),
{
    match reading {
        None => None,
        Some(secs) => {
            if secs > 9223372036854775807u64 {
                None
            } else {
                local_date(secs as i64)
            }
        },
    }
}

/// The local date of the clock: `None` when the clock reads before the Unix
/// epoch or a time out of the calendar's range.
fn today() -> (d: Option<(i32, u32, u32)>)
    ensures
        d matches Some(x) ==> x.0 >= 1969 && 1 <= x.1 <= 12 && 1 <= x.2 <= 31,
{
    date_at(seconds_since_epoch())
}

/// Seals the entry written on the given day: `content` is encrypted with
/// `password` and the files are kept as they are.
pub fn seal_entry(year: i32, month: u32, day: u32, content: &str, files: Vec<File>, password: &str) -> (r: Result<Entry, EntryError>)
    ensures
        year < 0 ==> r == Err::<Entry, EntryError>(EntryError::YearBeforeZero),
        year >= 0 ==> (r matches Ok(e) && {
            &&& e.year == year
            &&& e.month == month
            &&& e.date == day
            &&& e.content@ == aes_encrypt(password@, encode_utf8(content@))
            &&& aes_decrypt(password@, e.content@) == Some(encode_utf8(content@))
            &&& e.files == files
        }),
{
    if year < 0 {
        return Err(EntryError::YearBeforeZero);
    }
    let sealed = encrypt(password, content.as_bytes());
    Ok(Entry::new(day as u64, month as u64, year as u64, sealed, files))
}

/// Seals an entry of `content` and `files`, dated today.
///
/// The day comes from the clock. When the clock gives no date (it reads
/// before 1970-01-01) the entry is refused with `NoDate`; otherwise the year
/// is at least 1969, the month lies in 1..=12 and the day of the month in
/// 1..=31, and the entry is sealed.
pub fn append_entry(content: String, files: Vec<File>, password: &str) -> (r: Result<Entry, EntryError>)
    ensures
        r matches Err(err) ==> err == EntryError::NoDate,
        r matches Ok(e) ==> {
            &&& e.year >= 1969
            &&& 1 <= e.month <= 12
            &&& 1 <= e.date <= 31
            &&& e.content@ == aes_encrypt(password@, encode_utf8(content@))
            &&& aes_decrypt(password@, e.content@) == Some(encode_utf8(content@))
            &&& e.files == files
        },
{
    match today() {
        None => Err(EntryError::NoDate),
        Some((year, month, day)) => seal_entry(year, month, day, content.as_str(), files, password),
    }
}

/// The kind of a file, by the extension of its path.
pub open spec fn file_type_of(path: Seq<char>) -> FileType {
    if has_suffix(path, ".png"@) || has_suffix(path, ".apng"@) || has_suffix(path, ".gif"@)
        || has_suffix(path, ".jpeg"@) || has_suffix(path, ".jpg"@) || has_suffix(path, ".svg"@)
        || has_suffix(path, ".webp"@) || has_suffix(path, ".avif"@) {
        FileType::Image
    } else if has_suffix(path, ".mp3"@) || has_suffix(path, ".wav"@) || has_suffix(path, ".ogg"@)
        || has_suffix(path, ".webm"@) {
        FileType::Audio
    } else {
        FileType::GenericFile
    }
}

/// A text that ends with `suffix` ends with it.
proof fn lemma_ends_with(prefix: Seq<char>, suffix: Seq<char>)
    ensures
        has_suffix(prefix + suffix, suffix),
{
    let s = prefix + suffix;
    assert(s.subrange(s.len() - suffix.len(), s.len() as int) =~= suffix);
}

/// A text that ends with `a` does not end with `b` when the last two
/// characters of `a` and `b` differ.
proof fn lemma_not_suffix(s: Seq<char>, a: Seq<char>, b: Seq<char>)
    requires
        has_suffix(s, a),
        a.len() >= 2,
        b.len() >= 2,
        a[a.len() - 1] != b[b.len() - 1] || a[a.len() - 2] != b[b.len() - 2],
    ensures
        !has_suffix(s, b),
{
    let n = s.len();
    assert(s.subrange(n - a.len(), n as int)[a.len() - 1] == s[n - 1]);
    assert(s.subrange(n - a.len(), n as int)[a.len() - 2] == s[n - 2]);
    if has_suffix(s, b) {
        assert(s.subrange(n - b.len(), n as int)[b.len() - 1] == s[n - 1]);
        assert(s.subrange(n - b.len(), n as int)[b.len() - 2] == s[n - 2]);
    }
}

/// The kind of a file depends only on how its path ends: whatever comes
/// before the extension (other dots included), a path ending in an image
/// extension is an image and one ending in an audio extension is audio.
pub proof fn lemma_kind_by_extension(prefix: Seq<char>)
    ensures
        file_type_of(prefix + ".png"@) == FileType::Image,
        file_type_of(prefix + ".apng"@) == FileType::Image,
        file_type_of(prefix + ".gif"@) == FileType::Image,
        file_type_of(prefix + ".jpeg"@) == FileType::Image,
        file_type_of(prefix + ".jpg"@) == FileType::Image,
        file_type_of(prefix + ".svg"@) == FileType::Image,
        file_type_of(prefix + ".webp"@) == FileType::Image,
        file_type_of(prefix + ".avif"@) == FileType::Image,
        file_type_of(prefix + ".mp3"@) == FileType::Audio,
        file_type_of(prefix + ".wav"@) == FileType::Audio,
        file_type_of(prefix + ".ogg"@) == FileType::Audio,
        file_type_of(prefix + ".webm"@) == FileType::Audio,
{
    reveal_strlit(".png");
    reveal_strlit(".apng");
    reveal_strlit(".gif");
    reveal_strlit(".jpeg");
    reveal_strlit(".jpg");
    reveal_strlit(".svg");
    reveal_strlit(".webp");
    reveal_strlit(".avif");
    reveal_strlit(".mp3");
    reveal_strlit(".wav");
    reveal_strlit(".ogg");
    reveal_strlit(".webm");
    lemma_ends_with(prefix, ".png"@);
    lemma_ends_with(prefix, ".apng"@);
    lemma_ends_with(prefix, ".gif"@);
    lemma_ends_with(prefix, ".jpeg"@);
    lemma_ends_with(prefix, ".jpg"@);
    lemma_ends_with(prefix, ".svg"@);
    lemma_ends_with(prefix, ".webp"@);
    lemma_ends_with(prefix, ".avif"@);
    lemma_ends_with(prefix, ".mp3"@);
    lemma_not_suffix(prefix + ".mp3"@, ".mp3"@, ".png"@);
    lemma_not_suffix(prefix + ".mp3"@, ".mp3"@, ".apng"@);
    lemma_not_suffix(prefix + ".mp3"@, ".mp3"@, ".gif"@);
    lemma_not_suffix(prefix + ".mp3"@, ".mp3"@, ".jpeg"@);
    lemma_not_suffix(prefix + ".mp3"@, ".mp3"@, ".jpg"@);
    lemma_not_suffix(prefix + ".mp3"@, ".mp3"@, ".svg"@);
    lemma_not_suffix(prefix + ".mp3"@, ".mp3"@, ".webp"@);
    lemma_not_suffix(prefix + ".mp3"@, ".mp3"@, ".avif"@);
    lemma_ends_with(prefix, ".wav"@);
    lemma_not_suffix(prefix + ".wav"@, ".wav"@, ".png"@);
    lemma_not_suffix(prefix + ".wav"@, ".wav"@, ".apng"@);
    lemma_not_suffix(prefix + ".wav"@, ".wav"@, ".gif"@);
    lemma_not_suffix(prefix + ".wav"@, ".wav"@, ".jpeg"@);
    lemma_not_suffix(prefix + ".wav"@, ".wav"@, ".jpg"@);
    lemma_not_suffix(prefix + ".wav"@, ".wav"@, ".svg"@);
    lemma_not_suffix(prefix + ".wav"@, ".wav"@, ".webp"@);
    lemma_not_suffix(prefix + ".wav"@, ".wav"@, ".avif"@);
    lemma_ends_with(prefix, ".ogg"@);
    lemma_not_suffix(prefix + ".ogg"@, ".ogg"@, ".png"@);
    lemma_not_suffix(prefix + ".ogg"@, ".ogg"@, ".apng"@);
    lemma_not_suffix(prefix + ".ogg"@, ".ogg"@, ".gif"@);
    lemma_not_suffix(prefix + ".ogg"@, ".ogg"@, ".jpeg"@);
    lemma_not_suffix(prefix + ".ogg"@, ".ogg"@, ".jpg"@);
    lemma_not_suffix(prefix + ".ogg"@, ".ogg"@, ".svg"@);
    lemma_not_suffix(prefix + ".ogg"@, ".ogg"@, ".webp"@);
    lemma_not_suffix(prefix + ".ogg"@, ".ogg"@, ".avif"@);
    lemma_ends_with(prefix, ".webm"@);
    lemma_not_suffix(prefix + ".webm"@, ".webm"@, ".png"@);
    lemma_not_suffix(prefix + ".webm"@, ".webm"@, ".apng"@);
    lemma_not_suffix(prefix + ".webm"@, ".webm"@, ".gif"@);
    lemma_not_suffix(prefix + ".webm"@, ".webm"@, ".jpeg"@);
    lemma_not_suffix(prefix + ".webm"@, ".webm"@, ".jpg"@);
    lemma_not_suffix(prefix + ".webm"@, ".webm"@, ".svg"@);
    lemma_not_suffix(prefix + ".webm"@, ".webm"@, ".webp"@);
    lemma_not_suffix(prefix + ".webm"@, ".webm"@, ".avif"@);
}

/// The kind of the file at `path`, by its extension.
pub fn classify(path: &str) -> (t: FileType)
    ensures
        t == file_type_of(path@),
{
    let p = chars_of(path);
    if ends_with(&p, ".png") || ends_with(&p, ".apng") || ends_with(&p, ".gif")
        || ends_with(&p, ".jpeg") || ends_with(&p, ".jpg") || ends_with(&p, ".svg")
        || ends_with(&p, ".webp") || ends_with(&p, ".avif") {
        FileType::Image
    } else if ends_with(&p, ".mp3") || ends_with(&p, ".wav") || ends_with(&p, ".ogg")
        || ends_with(&p, ".webm") {
        FileType::Audio
    } else {
        FileType::GenericFile
    }
}

/// The file read from `path`, its bytes `plain` encrypted with `password`,
/// shown under the last segment of its path.
pub fn attach_file(path: &str, plain: &[u8], password: &str) -> (f: File)
    ensures
        f.data@ == aes_encrypt(password@, plain@),
        aes_decrypt(password@, f.data@) == Some(plain@),
        f.description@ == last_segment(path@),
        f.f_type == file_type_of(path@),
{
    let f_type = classify(path);
    let description = last_path_segment(path);
    File { data: encrypt(password, plain), description: description, f_type: f_type }
}

} // verus!

//! The diary as an HTML page: every entry decrypted, with its attached
//! files decrypted to fresh files beside the page.

use vstd::prelude::*;
use vstd::utf8::*;

use crate::crypto::{aes_decrypt, decrypt, utf8_text};
use crate::db_ops::{Entry, File, FileType};
use crate::text::{push_char, push_str};

verus! {

/// The beginning of the page: its styles and its heading.
pub const PAGE_HEAD: &'static str = "<html>
<meta charset=\"UTF-8\">
    <head><style>
.header {
  padding: 5px;
  border-radius: 20px; 
  text-align: center;
  background: #1abc9c;
  color: #D3FFED;
  font-size: 35px;
  box-shadow: 0px 0px 30px 1px #092E13;
  transition: 0.3s;
}
.header:hover {
  color: white;
  box-shadow: 0px 0px 60px 1px #092E13;
}
.entries {
  padding: 30px;
  border-radius: 20px;
  text-align: center;
  background: #2BA67B;
  color: #D3FFED;
  font-size: 25px;
  box-shadow: 0px 0px 30px 1px #092E13;
  margin: 3%;
  transition: 0.3s;
}
.entries:hover { 
  color: white;
  box-shadow: 0px 0px 60px 1px #092E13;
}
.image {
  display: block;
  border: 5px;
  border-color: #D3FFED;
  border-style: solid;
  border-radius: 20px;
  margin-left: auto;
  margin-right: auto;
  width: 99%;
  box-shadow: 0px 0px 30px 1px #092E13;
  transition: 0.3s;
}
.image:hover {
  border-color: white;
  box-shadow: 0px 0px 60px 1px #092E13;
}
.downloader {
  border: 5px;
  padding: 10px;
  color: #D3FFED;
  border-style: solid;
  border-color: #D3FFED;
  border-radius: 20px;
  margin-right: 200px;
  margin-left: 200px;
  transition: 0.3s;
  box-shadow: 0px 0px 30px 1px #092E13;
}
.downloader:hover {
  color: white;
  border-color: white;
  margin-left: 190px;
  margin-right: 190px;
  box-shadow: 0px 0px 60px 1px #092E13;
}
audio {
  border: 5px;
  background-color: #D3FFED;
  border-style: solid;
  border-radius: 20px;
  border-color: #D3FFED;
  box-shadow: 0px 0px 30px 1px #092E13;
  width: 50%;
  transition: 0.3s;
}
audio:hover{
  border-color: white;
  width: 52%;
  box-shadow: 0px 0px 60px 1px #092E13;
}
body {
  background-color: #175942;
}
</style><body><div class=\"header\">
        <h2>My Diary<h2>
</div> <br><br>";

/// The end of the page.
pub const PAGE_TAIL: &'static str = "</body></html>";

/// The character of the decimal digit `d`.
pub open spec fn digit_char(d: nat) -> char {
    (d + 48) as char
}

/// The decimal numeral of `n`, without leading zeros.
pub open spec fn decimal(n: nat) -> Seq<char>
    decreases n,
{
    if n < 10 {
        seq![digit_char(n)]
    } else {
        decimal(n / 10).push(digit_char(n % 10))
    }
}

/// The decimal numeral of `n`.
pub fn decimal_text(n: u64) -> (s: String)
    ensures
        s@ == decimal(n as nat),
    decreases n,
{
    let d: u8 = (n % 10) as u8;
    let c: char = (d + 48) as char;
    if n < 10 {
        let mut s = String::new();
        push_char(&mut s, c);
        s
    } else {
        let mut s = decimal_text(n / 10);
        push_char(&mut s, c);
        s
    }
}

/// The path of the file named `name` in the directory `dir`.
pub open spec fn join_path(dir: Seq<char>, name: Seq<char>) -> Seq<char> {
    if dir.len() == 0 || dir.last() == '/' {
        dir + name
    } else {
        dir + "/"@ + name
    }
}

/// The path of the file named `name` in the directory `dir`: a `/` stands
/// between them unless `dir` is empty or already ends with one.
pub fn join_dir(dir: &str, name: &str) -> (p: String)
    ensures
        p@ == join_path(dir@, name@),
{
    let d = crate::text::chars_of(dir);
    let mut p = String::new();
    push_str(&mut p, dir);
    if d.len() > 0 && d[d.len() - 1] != '/' {
        push_char(&mut p, '/');
        proof { reveal_strlit("/"); }
        assert(p@ =~= dir@ + "/"@);
    }
    push_str(&mut p, name);
    p
}

/// Whether `c` may stand in a random file name: a lowercase hexadecimal
/// digit or `-`.
pub open spec fn is_name_char(c: char) -> bool {
    (48 <= c as u32 <= 57) || (97 <= c as u32 <= 102) || c == '-'
}

/// Whether `name` has the shape of a random file name.
pub open spec fn is_fresh_name(name: Seq<char>) -> bool {
    name.len() == 36 && forall|i: int| 0 <= i < 36 ==> is_name_char(#[trigger] name[i])
}

/// Calls `uuid::Uuid::new_v4()` and returns it as text (`to_string`).
///
/// Claimed of it (the crate's source: `Display` writes the hyphenated,
/// lowercase form): 36 characters, each a lowercase hexadecimal digit or `-`.
/// The identifier is random and nothing more is stated of it; in
/// particular, that two calls give different names is not stated. The call
/// panics if the operating system's random source fails (the crate's
/// `rng` module); no precondition can exclude that.
#[verifier::external_body]
fn fresh_name() -> (s: String)
    ensures
        is_fresh_name(s@),
{
    uuid::Uuid::new_v4().to_string()
}

/// A decrypted attached file, and the path the page links it under.
pub struct Attachment {
    pub path: String,
    pub data: Vec<u8>,
}

/// The page of the diary, and the decrypted files it links: one list per
/// entry, one item per attached file.
pub struct Page {
    pub html: String,
    pub attachments: Vec<Vec<Attachment>>,
}

/// Why the diary cannot be shown.
#[derive(Debug, Clone, Copy, PartialEq, Eq, Structural)]
pub enum PageError {
    /// An entry's text or an attached file does not decrypt with the password.
    Undecryptable,
    /// An entry's text decrypts, but not to UTF-8 text.
    NotText,
    /// Every random name drawn for an attached file was already the name
    /// of another attached file of the page.
    NameClash,
}

/// How many random names are drawn for an attached file before the page is
/// given up.
pub const NAME_ATTEMPTS: usize = 8;

/// The texts of `v`, in order.
pub open spec fn texts(v: Seq<String>) -> Seq<Seq<char>> {
    v.map_values(|s: String| s@)
}

/// The text of entry `e`, decrypted with `password`.
pub open spec fn entry_text(password: Seq<char>, e: Entry) -> Seq<char> {
    decode_utf8(aes_decrypt(password, e.content@).unwrap())
}

/// The first of `files` that does not decrypt with `password` makes this
/// `Undecryptable`.
pub open spec fn files_error(password: Seq<char>, files: Seq<File>) -> Option<PageError> {
    if exists|j: int| 0 <= j < files.len() && aes_decrypt(password, #[trigger] files[j].data@) is None {
        Some(PageError::Undecryptable)
    } else {
        None
    }
}

/// Why entry `e` cannot be shown with `password`, if it cannot: its text is
/// looked at before its files.
pub open spec fn entry_error(password: Seq<char>, e: Entry) -> Option<PageError> {
    match aes_decrypt(password, e.content@) {
        None => Some(PageError::Undecryptable),
        Some(plain) => if !valid_utf8(plain) {
            Some(PageError::NotText)
        } else {
            files_error(password, e.files@)
        },
    }
}

/// Why the entries `es` cannot be shown with `password`: the reason of the
/// first entry that cannot.
pub open spec fn page_error(password: Seq<char>, es: Seq<Entry>) -> Option<PageError>
    decreases es.len(),
{
    if es.len() == 0 {
        None
    } else {
        match page_error(password, es.drop_last()) {
            Some(err) => Some(err),
            None => entry_error(password, es.last()),
        }
    }
}

/// How the page shows the file `f`, kept at `path`.
pub open spec fn file_html(f: File, path: Seq<char>) -> Seq<char> {
    match f.f_type {
        FileType::Image => "<img src=\""@ + path + "\" class=\"image\"><br>"@,
        FileType::Audio => "<audio controls src=\""@ + path
            + "\">Audio playback not supported by this browser! File: "@ + f.description@
            + "</audio><br>"@,
        FileType::GenericFile => "<a href=\""@ + path + "\" style=\"text-decoration: none\" download=\""@
            + f.description@ + "\"><p class = \"downloader\">Download: "@ + f.description@
            + "</p></a><br>"@,
    }
}

/// How the page shows the files `files`, kept at `paths`, in order.
pub open spec fn files_html(files: Seq<File>, paths: Seq<Seq<char>>) -> Seq<char>
    decreases files.len(),
{
    if files.len() == 0 {
        Seq::empty()
    } else {
        files_html(files.drop_last(), paths.drop_last()) + file_html(files.last(), paths.last())
    }
}

/// The heading of entry `e`, whose text is `text`: its day as
/// `date/month/year`, then its text.
pub open spec fn entry_head(e: Entry, text: Seq<char>) -> Seq<char> {
    "<div class=\"entries\"><br> <h1><b> "@ + decimal(e.date as nat) + "/"@ + decimal(e.month as nat)
        + "/"@ + decimal(e.year as nat) + " </b></h1> <br> "@ + text + " <br><br><br><br>"@
}

/// How the page shows entry `e`, decrypted with `password`, its files kept
/// at `paths`.
pub open spec fn entry_html(password: Seq<char>, e: Entry, paths: Seq<Seq<char>>) -> Seq<char> {
    entry_head(e, entry_text(password, e)) + files_html(e.files@, paths) + "</div><br>"@
}

/// How the page shows the entries `es`, in order, the files of `es[i]` kept
/// at `paths[i]`.
pub open spec fn entries_html(password: Seq<char>, es: Seq<Entry>, paths: Seq<Seq<Seq<char>>>) -> Seq<char>
    decreases es.len(),
{
    if es.len() == 0 {
        Seq::empty()
    } else {
        entries_html(password, es.drop_last(), paths.drop_last()) + entry_html(password, es.last(), paths.last())
    }
}

/// The whole page of the entries `es`.
pub open spec fn page_html(password: Seq<char>, es: Seq<Entry>, paths: Seq<Seq<Seq<char>>>) -> Seq<char> {
    PAGE_HEAD@ + entries_html(password, es, paths) + PAGE_TAIL@
}

/// The paths of the attachments `row`, in order.
pub open spec fn row_paths(row: Seq<Attachment>) -> Seq<Seq<char>> {
    row.map_values(|a: Attachment| a.path@)
}

/// The paths of the attachments of every entry.
pub open spec fn page_paths(atts: Seq<Vec<Attachment>>) -> Seq<Seq<Seq<char>>> {
    atts.map_values(|row: Vec<Attachment>| row_paths(row@))
}

/// Whether `row` holds the decrypted files of `files`, in order, each at a
/// fresh path in `dir`.
pub open spec fn row_matches(password: Seq<char>, dir: Seq<char>, files: Seq<File>, row: Seq<Attachment>) -> bool {
    &&& row.len() == files.len()
    &&& forall|j: int| 0 <= j < row.len() ==> Some(#[trigger] row[j].data@) == aes_decrypt(password, files[j].data@)
    &&& forall|j: int| 0 <= j < row.len() ==> exists|name: Seq<char>| is_fresh_name(name) && #[trigger] row[j].path@ == join_path(dir, name)
}

/// A failure of the entries `es.take(k)` is the failure of all of `es`.
proof fn lemma_prefix_error(password: Seq<char>, es: Seq<Entry>, k: int)
    requires
        0 <= k <= es.len(),
        page_error(password, es.take(k)) is Some,
    ensures
        page_error(password, es) == page_error(password, es.take(k)),
    decreases es.len(),
{
    if k == es.len() {
        assert(es.take(k) =~= es);
    } else {
        assert(es.drop_last().take(k) =~= es.take(k));
        lemma_prefix_error(password, es.drop_last(), k);
    }
}

/// Whether the text of entry `e` decrypts with `password` to UTF-8 text.
pub open spec fn shows_text(password: Seq<char>, e: Entry) -> bool {
    match aes_decrypt(password, e.content@) {
        Some(plain) => valid_utf8(plain),
        None => false,
    }
}

/// How many files are attached to the entries `es`.
pub open spec fn file_count(es: Seq<Entry>) -> nat
    decreases es.len(),
{
    if es.len() == 0 {
        0
    } else {
        file_count(es.drop_last()) + es.last().files@.len()
    }
}

/// The entries `es.take(k)` have no more files than all of `es`.
proof fn lemma_file_count_prefix(es: Seq<Entry>, k: int)
    requires
        0 <= k <= es.len(),
    ensures
        file_count(es.take(k)) <= file_count(es),
    decreases es.len(),
{
    if k == es.len() {
        assert(es.take(k) =~= es);
    } else {
        assert(es.drop_last().take(k) =~= es.take(k));
        lemma_file_count_prefix(es.drop_last(), k);
    }
}

/// The paths of all the attachments of a page, entry after entry.
pub open spec fn flat_paths(atts: Seq<Vec<Attachment>>) -> Seq<Seq<char>>
    decreases atts.len(),
{
    if atts.len() == 0 {
        Seq::empty()
    } else {
        flat_paths(atts.drop_last()) + row_paths(atts.last()@)
    }
}

/// Adding a text that `s` does not hold keeps the texts of `s` distinct.
proof fn lemma_push_distinct(s: Seq<Seq<char>>, x: Seq<char>)
    requires
        s.no_duplicates(),
        !s.contains(x),
    ensures
        s.push(x).no_duplicates(),
{
    let t = s.push(x);
    assert forall|i: int, j: int| 0 <= i < t.len() && 0 <= j < t.len() && i != j implies t[i] != t[j] by {
        if i == s.len() as int {
            assert(s[j] == t[j]);
        } else if j == s.len() as int {
            assert(s[i] == t[i]);
        }
    }
}

/// Whether one of the paths `taken` is `p`.
fn is_taken(taken: &Vec<String>, p: &String) -> (r: bool)
    ensures
        r == texts(taken@).contains(p@),
{
    let mut i: usize = 0;
    while i < taken.len()
        invariant
            i <= taken@.len(),
            forall|k: int| 0 <= k < i ==> taken@[k]@ != p@,
        decreases taken@.len() - i,
    {
        if taken[i] == *p {
            assert(texts(taken@)[i as int] == p@);
            return true;
        }
        i = i + 1;
    }
    assert(!texts(taken@).contains(p@)) by {
        if texts(taken@).contains(p@) {
            let k = choose|k: int| 0 <= k < texts(taken@).len() && texts(taken@)[k] == p@;
            assert(taken@[k]@ == p@);
        }
    }
    false
}

/// How the page shows the file `f`, kept at `path`.
fn file_markup(f: &File, path: &str) -> (h: String)
    ensures
        h@ == file_html(*f, path@),
{
    let mut h = String::new();
    match f.f_type {
        FileType::Image => {
            push_str(&mut h, "<img src=\"");
            push_str(&mut h, path);
            push_str(&mut h, "\" class=\"image\"><br>");
        },
        FileType::Audio => {
            push_str(&mut h, "<audio controls src=\"");
            push_str(&mut h, path);
            push_str(&mut h, "\">Audio playback not supported by this browser! File: ");
            push_str(&mut h, f.description.as_str());
            push_str(&mut h, "</audio><br>");
        },
        FileType::GenericFile => {
            push_str(&mut h, "<a href=\"");
            push_str(&mut h, path);
            push_str(&mut h, "\" style=\"text-decoration: none\" download=\"");
            push_str(&mut h, f.description.as_str());
            push_str(&mut h, "\"><p class = \"downloader\">Download: ");
            push_str(&mut h, f.description.as_str());
            push_str(&mut h, "</p></a><br>");
        },
    }
    h
}

/// The first of the paths `dir/names[k]` that none of `taken` is; it gives
/// up with `NameClash` exactly when every one of them is taken.
pub fn pick_path(dir: &str, names: &Vec<String>, taken: &Vec<String>) -> (r: Result<String, PageError>)
    ensures
        match r {
            Ok(p) => exists|k: int| {
                &&& 0 <= k < names@.len()
                &&& p@ == join_path(dir@, #[trigger] names@[k]@)
                &&& !texts(taken@).contains(p@)
                &&& forall|m: int| 0 <= m < k ==> texts(taken@).contains(join_path(dir@, #[trigger] names@[m]@))
            },
            Err(err) => err == PageError::NameClash && forall|k: int| 0 <= k < names@.len()
                ==> texts(taken@).contains(join_path(dir@, #[trigger] names@[k]@)),
        },
{
    let mut k: usize = 0;
    while k < names.len()
        invariant
            k <= names@.len(),
            forall|m: int| 0 <= m < k ==> texts(taken@).contains(join_path(dir@, #[trigger] names@[m]@)),
        decreases names@.len() - k,
    {
        let path = join_dir(dir, names[k].as_str());
        if !is_taken(taken, &path) {
            assert(path@ == join_path(dir@, names@[k as int]@));
            return Ok(path);
        }
        k = k + 1;
    }
    Err(PageError::NameClash)
}

/// The decrypted file `f`, kept at a fresh path in `dir` that none of
/// `taken` is, and how the page shows it. `NAME_ATTEMPTS` random names are
/// drawn, and the first whose path is not taken is used (see `pick_path`).
fn render_file(f: &File, password: &str, dir: &str, taken: &Vec<String>) -> (r: Result<(String, Attachment), PageError>)
    ensures
        match r {
            Err(err) => (err == PageError::Undecryptable && aes_decrypt(password@, f.data@) is None)
                || (err == PageError::NameClash && aes_decrypt(password@, f.data@) is Some && taken@.len() > 0),
            Ok((h, a)) => {
                &&& Some(a.data@) == aes_decrypt(password@, f.data@)
                &&& exists|name: Seq<char>| is_fresh_name(name) && a.path@ == join_path(dir@, name)
                &&& !texts(taken@).contains(a.path@)
                &&& h@ == file_html(*f, a.path@)
            },
        },
{
    let data = match decrypt(password, f.data.as_slice()) {
        Err(_) => return Err(PageError::Undecryptable),
        Ok(d) => d,
    };
    let mut names: Vec<String> = Vec::new();
    while names.len() < NAME_ATTEMPTS
        invariant
            names@.len() <= NAME_ATTEMPTS,
            forall|k: int| 0 <= k < names@.len() ==> is_fresh_name(#[trigger] names@[k]@),
        decreases NAME_ATTEMPTS - names@.len(),
    {
        let name = fresh_name();
        names.push(name);
    }
    let path = match pick_path(dir, &names, taken) {
        Err(err) => {
            assert(names@.len() == NAME_ATTEMPTS);
            assert(texts(taken@).contains(join_path(dir@, names@[0]@)));
            assert(texts(taken@).len() == taken@.len());
            return Err(err);
        },
        Ok(p) => p,
    };
    let ghost k = choose|k: int| {
        &&& 0 <= k < names@.len()
        &&& path@ == join_path(dir@, #[trigger] names@[k]@)
        &&& !texts(taken@).contains(path@)
        &&& forall|m: int| 0 <= m < k ==> texts(taken@).contains(join_path(dir@, #[trigger] names@[m]@))
    };
    assert(is_fresh_name(names@[k]@) && path@ == join_path(dir@, names@[k]@));
    let h = file_markup(f, path.as_str());
    Ok((h, Attachment { path: path, data: data }))
}

/// Entry `e` decrypted with `password`, its files decrypted to fresh paths
/// in `dir` that none of `taken` is, and how the page shows it; the new
/// paths are added to `taken`.
fn render_entry(e: &Entry, password: &str, dir: &str, taken: &mut Vec<String>) -> (r: Result<(String, Vec<Attachment>), PageError>)
    ensures
        match r {
            Err(err) => {
                &&& entry_error(password@, *e) == Some(err) || err == PageError::NameClash
                &&& err == PageError::NameClash ==> shows_text(password@, *e) && e.files@.len() > 0
                    && old(taken)@.len() + e.files@.len() >= 2
            },
            Ok((h, row)) => {
                &&& entry_error(password@, *e) is None
                &&& row_matches(password@, dir@, e.files@, row@)
                &&& h@ == entry_html(password@, *e, row_paths(row@))
                &&& texts(final(taken)@) == texts(old(taken)@) + row_paths(row@)
                &&& texts(old(taken)@).no_duplicates() ==> texts(final(taken)@).no_duplicates()
            },
        },
        entry_error(password@, *e) is None && e.files@.len() == 0 ==> r is Ok,
{
    let plain = match decrypt(password, e.content.as_slice()) {
        Err(_) => return Err(PageError::Undecryptable),
        Ok(p) => p,
    };
    let text = match utf8_text(plain.as_slice()) {
        None => return Err(PageError::NotText),
        Some(t) => t,
    };
    let mut h = String::new();
    push_str(&mut h, "<div class=\"entries\"><br> <h1><b> ");
    let n = decimal_text(e.date);
    push_str(&mut h, n.as_str());
    push_str(&mut h, "/");
    let n = decimal_text(e.month);
    push_str(&mut h, n.as_str());
    push_str(&mut h, "/");
    let n = decimal_text(e.year);
    push_str(&mut h, n.as_str());
    push_str(&mut h, " </b></h1> <br> ");
    push_str(&mut h, text);
    push_str(&mut h, " <br><br><br><br>");
    assert(h@ =~= entry_head(*e, entry_text(password@, *e)));
    let ghost head = h@;
    let ghost start = texts(taken@);
    let mut row: Vec<Attachment> = Vec::new();
    let mut j: usize = 0;
    assert(e.files@.take(0) =~= Seq::<File>::empty());
    assert(row_paths(row@) =~= Seq::<Seq<char>>::empty());
    assert(start + row_paths(row@) =~= start);
    while j < e.files.len()
        invariant
            j <= e.files@.len(),
            head == entry_head(*e, entry_text(password@, *e)),
            h@ == head + files_html(e.files@.take(j as int), row_paths(row@)),
            row_matches(password@, dir@, e.files@.take(j as int), row@),
            aes_decrypt(password@, e.content@) == Some(plain@),
            valid_utf8(plain@),
            start == texts(old(taken)@),
            texts(taken@) == start + row_paths(row@),
            start.no_duplicates() ==> texts(taken@).no_duplicates(),
        decreases e.files@.len() - j,
    {
        let (fh, a) = match render_file(&e.files[j], password, dir, taken) {
            Err(err) => {
                assert(texts(taken@).len() == taken@.len());
                assert(texts(old(taken)@).len() == old(taken)@.len());
                if err == PageError::Undecryptable {
                    assert(aes_decrypt(password@, e.files@[j as int].data@) is None);
                }
                return Err(err);
            },
            Ok(x) => x,
        };
        let ghost old_row = row@;
        let ghost old_taken = texts(taken@);
        push_str(&mut h, fh.as_str());
        taken.push(a.path.clone());
        row.push(a);
        proof {
            let files = e.files@.take(j + 1);
            assert(texts(taken@) =~= old_taken.push(a.path@));
            if start.no_duplicates() {
                lemma_push_distinct(old_taken, a.path@);
            }
            assert(files.drop_last() =~= e.files@.take(j as int));
            assert(row_paths(row@) =~= row_paths(old_row).push(a.path@));
            assert(texts(taken@) =~= start + row_paths(row@));
            assert(row_paths(row@).drop_last() =~= row_paths(old_row));
            assert(files.last() == e.files@[j as int]);
            assert(h@ =~= head + files_html(files, row_paths(row@)));
            assert forall|k: int| 0 <= k < row@.len() implies Some(#[trigger] row@[k].data@) == aes_decrypt(password@, files[k].data@) by {
                if k < j {
                    assert(row@[k] == old_row[k]);
                }
            }
            assert forall|k: int| 0 <= k < row@.len() implies exists|name: Seq<char>| is_fresh_name(name) && #[trigger] row@[k].path@ == join_path(dir@, name) by {
                if k < j {
                    assert(row@[k] == old_row[k]);
                }
            }
        }
        j = j + 1;
    }
    assert(e.files@.take(j as int) =~= e.files@);
    push_str(&mut h, "</div><br>");
    assert forall|k: int| 0 <= k < e.files@.len() implies aes_decrypt(password@, #[trigger] e.files@[k].data@) is Some by {
        assert(Some(row@[k].data@) == aes_decrypt(password@, e.files@[k].data@));
    }
    Ok((h, row))
}

/// The page of the diary whose entries are `entries`, decrypted with
/// `password`; the attached files are decrypted to fresh paths in `dir`, no
/// two of them the same.
///
/// The page is refused as soon as an entry's text or an attached file does
/// not decrypt with the password, or an entry's text is not UTF-8: the
/// error is that of the first entry, in order, that cannot be shown. It is
/// also refused with `NameClash` when no random name drawn for a file is new
/// to the page; that can only happen at an entry with attached files whose
/// text shows and whose earlier entries all show, and only at a file that
/// has an earlier attached file on the page. A diary that can be shown and
/// has at most one attached file is always shown.
pub fn gen_page(password: &str, dir: &str, entries: &Vec<Entry>) -> (r: Result<Page, PageError>)
    ensures
        match r {
            Err(err) => {
                &&& page_error(password@, entries@) == Some(err) || err == PageError::NameClash
                &&& err == PageError::NameClash ==> exists|i: int| {
                    &&& 0 <= i < entries@.len()
                    &&& page_error(password@, entries@.take(i)) is None
                    &&& shows_text(password@, #[trigger] entries@[i])
                    &&& entries@[i].files@.len() > 0
                    &&& file_count(entries@.take(i)) + entries@[i].files@.len() >= 2
                }
            },
            Ok(page) => {
                &&& page_error(password@, entries@) is None
                &&& page.attachments@.len() == entries@.len()
                &&& forall|i: int| 0 <= i < entries@.len() ==>
                    row_matches(password@, dir@, entries@[i].files@, (#[trigger] page.attachments@[i])@)
                &&& page.html@ == page_html(password@, entries@, page_paths(page.attachments@))
                &&& flat_paths(page.attachments@).no_duplicates()
            },
        },
        page_error(password@, entries@) is None
            && (forall|i: int| 0 <= i < entries@.len() ==> (#[trigger] entries@[i]).files@.len() == 0)
            ==> r is Ok,
        page_error(password@, entries@) is None && file_count(entries@) <= 1 ==> r is Ok,
{
    let mut html = String::new();
    push_str(&mut html, PAGE_HEAD);
    let mut atts: Vec<Vec<Attachment>> = Vec::new();
    let mut taken: Vec<String> = Vec::new();
    let mut i: usize = 0;
    assert(entries@.take(0) =~= Seq::<Entry>::empty());
    assert(page_paths(atts@) =~= Seq::<Seq<Seq<char>>>::empty());
    assert(texts(taken@) =~= flat_paths(atts@));
    while i < entries.len()
        invariant
            i <= entries@.len(),
            html@ == PAGE_HEAD@ + entries_html(password@, entries@.take(i as int), page_paths(atts@)),
            page_error(password@, entries@.take(i as int)) is None,
            atts@.len() == i,
            forall|k: int| 0 <= k < i ==> row_matches(password@, dir@, entries@[k].files@, (#[trigger] atts@[k])@),
            texts(taken@) == flat_paths(atts@),
            texts(taken@).no_duplicates(),
            taken@.len() == file_count(entries@.take(i as int)),
        decreases entries@.len() - i,
    {
        let ghost es = entries@.take(i + 1);
        proof {
            assert(es.drop_last() =~= entries@.take(i as int));
            assert(es.last() == entries@[i as int]);
        }
        let (eh, row) = match render_entry(&entries[i], password, dir, &mut taken) {
            Err(err) => {
                proof {
                    if page_error(password@, es) is Some {
                        lemma_prefix_error(password@, entries@, i + 1);
                    }
                    if err == PageError::NameClash {
                        assert(shows_text(password@, entries@[i as int]));
                        assert(file_count(es) == file_count(entries@.take(i as int)) + entries@[i as int].files@.len());
                        lemma_file_count_prefix(entries@, i + 1);
                    }
                }
                return Err(err);
            },
            Ok(x) => x,
        };
        let ghost old_atts = atts@;
        proof {
            assert(texts(taken@).len() == taken@.len());
            assert(file_count(es) == file_count(entries@.take(i as int)) + entries@[i as int].files@.len());
        }
        push_str(&mut html, eh.as_str());
        atts.push(row);
        proof {
            assert(atts@.drop_last() =~= old_atts);
            assert(texts(taken@) =~= flat_paths(atts@));
            assert(page_paths(atts@) =~= page_paths(old_atts).push(row_paths(row@)));
            assert(page_paths(atts@).drop_last() =~= page_paths(old_atts));
            assert(html@ =~= PAGE_HEAD@ + entries_html(password@, es, page_paths(atts@)));
            assert forall|k: int| 0 <= k < i + 1 implies row_matches(password@, dir@, entries@[k].files@, (#[trigger] atts@[k])@) by {
                if k < i {
                    assert(atts@[k] == old_atts[k]);
                }
            }
        }
        i = i + 1;
    }
    assert(entries@.take(i as int) =~= entries@);
    push_str(&mut html, PAGE_TAIL);
    Ok(Page { html: html, attachments: atts })
}

} // verus!

//! Properties that relate the operations of the diary to one another.

use vstd::prelude::*;
use vstd::utf8::*;

use crate::crypto::aes_decrypt;
use crate::db_ops::{Entry, File};
use crate::page::{decimal, digit_char, entry_error, entry_text, page_error, row_matches, Attachment};
use crate::session::{drop_one, erased, typed, Session, CURSOR};

verus! {

/// An entry reads back as it was written: when the entry's stored text
/// decrypts with `password` to the UTF-8 encoding of `text` (as `seal_entry`
/// and `append_entry` ensure), and each attached file decrypts with it (as
/// `attach_file` ensures), the page shows the entry, and shows `text` as its
/// text.
pub proof fn lemma_sealed_entry_reads_back(password: Seq<char>, e: Entry, text: Seq<char>)
    requires
        aes_decrypt(password, e.content@) == Some(encode_utf8(text)),
        forall|j: int| 0 <= j < e.files@.len() ==> aes_decrypt(password, #[trigger] e.files@[j].data@) is Some,
    ensures
        entry_error(password, e) is None,
        entry_text(password, e) == text,
{
    encode_utf8_valid_utf8(text);
    encode_utf8_decode_utf8(text);
}

/// Typing a character and erasing it leaves the text being typed as it was,
/// when the text ends with the cursor, as it does on the text screen.
pub proof fn lemma_type_then_erase(b: Seq<char>, c: char)
    requires
        b.len() > 0,
        b.last() == CURSOR,
    ensures
        erased(typed(b, c)) == b,
{
    assert(erased(typed(b, c)) =~= b.drop_last().push(CURSOR));
    assert(b.drop_last().push(CURSOR) =~= b);
}

/// Typing a character adds it to the end of the text shown before the
/// cursor, when the buffer ends with the cursor.
pub proof fn lemma_typing_appends(b: Seq<char>, c: char)
    requires
        b.len() > 0,
        b.last() == CURSOR,
    ensures
        drop_one(typed(b, c)) == drop_one(b).push(c),
        typed(b, c).last() == CURSOR,
{
    assert(drop_one(typed(b, c)) =~= drop_one(b).push(c));
}

/// Erasing removes the last character of the text shown before the cursor,
/// when the buffer ends with the cursor; on an empty text it leaves it empty.
pub proof fn lemma_erasing_removes(b: Seq<char>)
    requires
        b.len() > 0,
        b.last() == CURSOR,
    ensures
        drop_one(erased(b)) == drop_one(drop_one(b)),
        erased(b).last() == CURSOR,
{
    assert(drop_one(erased(b)) =~= drop_one(drop_one(b)));
}

/// The attached files read back as they were read from disk: when the
/// stored bytes of each of `files` decrypt with `password` to the matching
/// `plains[j]` (as `attach_file` and `Session::file_found` ensure), the
/// decrypted files that `gen_page` gives for them (its `row_matches`) hold
/// exactly those bytes, in order.
pub proof fn lemma_attachments_read_back(
    password: Seq<char>,
    dir: Seq<char>,
    files: Seq<File>,
    row: Seq<Attachment>,
    plains: Seq<Seq<u8>>,
)
    requires
        row_matches(password, dir, files, row),
        plains.len() == files.len(),
        forall|j: int| 0 <= j < files.len() ==> aes_decrypt(password, #[trigger] files[j].data@) == Some(plains[j]),
    ensures
        forall|j: int| 0 <= j < row.len() ==> (#[trigger] row[j]).data@ == plains[j],
{
    assert forall|j: int| 0 <= j < row.len() implies (#[trigger] row[j]).data@ == plains[j] by {
        assert(Some(row[j].data@) == aes_decrypt(password, files[j].data@));
    }
}

/// A diary of sealed entries shows, each entry with the text it was written
/// with: when the stored text of each entry `es[i]` decrypts with
/// `password` to the UTF-8 encoding of `texts[i]` (as `seal_entry` and
/// `append_entry` ensure) and each attached file decrypts with it (as
/// `attach_file` ensures), no entry keeps the page from being shown; so
/// `gen_page` shows such a diary without attached files, and every page it
/// gives of such a diary shows the texts as written.
pub proof fn lemma_sealed_diary_shows(password: Seq<char>, es: Seq<Entry>, texts: Seq<Seq<char>>)
    requires
        es.len() == texts.len(),
        forall|i: int| 0 <= i < es.len() ==> aes_decrypt(password, (#[trigger] es[i]).content@) == Some(encode_utf8(texts[i])),
        forall|i: int, j: int| 0 <= i < es.len() && 0 <= j < es[i].files@.len()
            ==> aes_decrypt(password, (#[trigger] es[i].files@[j]).data@) is Some,
    ensures
        page_error(password, es) is None,
        forall|i: int| 0 <= i < es.len() ==> entry_text(password, #[trigger] es[i]) == texts[i],
    decreases es.len(),
{
    if es.len() > 0 {
        let n = es.len() - 1;
        lemma_sealed_diary_shows(password, es.drop_last(), texts.drop_last());
        assert forall|i: int| 0 <= i < es.len() implies entry_text(password, #[trigger] es[i]) == texts[i] by {
            assert forall|j: int| 0 <= j < es[i].files@.len() implies aes_decrypt(password, #[trigger] es[i].files@[j].data@) is Some by {
                assert(aes_decrypt(password, es[i].files@[j].data@) is Some);
            }
            lemma_sealed_entry_reads_back(password, es[i], texts[i]);
        }
        assert forall|j: int| 0 <= j < es[n].files@.len() implies aes_decrypt(password, #[trigger] es[n].files@[j].data@) is Some by {
            assert(aes_decrypt(password, es[n].files@[j].data@) is Some);
        }
        lemma_sealed_entry_reads_back(password, es[n], texts[n]);
    }
}

/// An entry written in a session reads back on the page as it was written:
/// for a well-formed session `s` whose attached files become the files of
/// entry `e` (as `Session::handle` hands them over in a `Save`), whose text
/// `e` holds sealed (as `seal_entry` and `append_entry` ensure), the entry
/// does not keep the page from being shown, the page shows `text` as its
/// text, and the decrypted files that `gen_page` gives for it (its
/// `row_matches`) hold exactly the bytes each file was read with.
pub proof fn lemma_saved_entry_reads_back(
    s: Session,
    e: Entry,
    text: Seq<char>,
    dir: Seq<char>,
    row: Seq<Attachment>,
)
    requires
        s.wf(),
        e.files@ == s.files@,
        aes_decrypt(s.password@, e.content@) == Some(encode_utf8(text)),
        row_matches(s.password@, dir, e.files@, row),
    ensures
        entry_error(s.password@, e) is None,
        entry_text(s.password@, e) == text,
        forall|j: int| 0 <= j < row.len() ==> (#[trigger] row[j]).data@ == s.read@[j],
{
    assert forall|j: int| 0 <= j < e.files@.len() implies aes_decrypt(s.password@, #[trigger] e.files@[j].data@) is Some by {
        assert(aes_decrypt(s.password@, s.files@[j].data@) == Some(s.read@[j]));
    }
    lemma_sealed_entry_reads_back(s.password@, e, text);
    assert forall|j: int| 0 <= j < e.files@.len() implies aes_decrypt(s.password@, #[trigger] e.files@[j].data@) == Some(s.read@[j]) by {
        assert(aes_decrypt(s.password@, s.files@[j].data@) == Some(s.read@[j]));
    }
    lemma_attachments_read_back(s.password@, dir, e.files@, row, s.read@);
}

/// Whether `c` is one of the decimal digits `0`..`9`.
pub open spec fn is_digit(c: char) -> bool {
    48 <= c as u32 <= 57
}

/// The number that the decimal digits `s` stand for, the last digit being
/// the units.
pub open spec fn digits_value(s: Seq<char>) -> int
    decreases s.len(),
{
    if s.len() == 0 {
        0
    } else {
        digits_value(s.drop_last()) * 10 + (s.last() as u32 - 48)
    }
}

/// The numeral that the page shows for a number (`decimal`, the result of
/// `decimal_text`) stands for that number: it is a non-empty run of decimal
/// digits, it has no leading zero, and read in base ten it is `n`.
pub proof fn lemma_decimal_denotes(n: nat)
    ensures
        decimal(n).len() > 0,
        forall|i: int| 0 <= i < decimal(n).len() ==> is_digit(#[trigger] decimal(n)[i]),
        digits_value(decimal(n)) == n,
        decimal(n)[0] == '0' ==> n == 0,
    decreases n,
{
    let k = n % 10;
    assert(digit_char(k) as u32 == k + 48);
    if n >= 10 {
        lemma_decimal_denotes(n / 10);
        let d = decimal(n);
        let p = decimal(n / 10);
        assert(d.drop_last() =~= p);
        assert forall|i: int| 0 <= i < d.len() implies is_digit(#[trigger] d[i]) by {
            if i < p.len() {
                assert(d[i] == p[i]);
            }
        }
        assert(d[0] == p[0]);
        assert(d.last() == digit_char(k));
        assert(digits_value(d) == digits_value(p) * 10 + k);
        assert((n / 10) * 10 + n % 10 == n);
    } else {
        assert(decimal(n).drop_last() =~= Seq::<char>::empty());
        assert(digits_value(decimal(n)) == digits_value(Seq::<char>::empty()) * 10 + k);
    }
}

} // verus!

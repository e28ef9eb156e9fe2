//! Encryption of diary data with a password, and the check that a password
//! opens a database.
//!
//! The cipher is AES-128 in CBC mode with PKCS#7 padding, as the `magic_crypt`
//! crate implements it: the key is the MD5 digest of the password and the
//! initialisation vector is all zeros, so that encryption is a function of
//! the password and the plaintext.

use magic_crypt::MagicCryptTrait;
use vstd::prelude::*;
use vstd::utf8::*;

use crate::text::chars_of;

verus! {

/// What `MagicCrypt128::encrypt_bytes_to_bytes` returns for the plaintext
/// `plain`, with the cipher that `MagicCrypt128::new(password, None)` makes.
pub uninterp spec fn aes_encrypt(password: Seq<char>, plain: Seq<u8>) -> Seq<u8>;

/// What `MagicCrypt128::decrypt_bytes_to_bytes` returns for `cipher`, with
/// the cipher that `MagicCrypt128::new(password, None)` makes: `None` stands
/// for its error.
pub uninterp spec fn aes_decrypt(password: Seq<char>, cipher: Seq<u8>) -> Option<Seq<u8>>;

#[verifier::external_type_specification]
#[verifier::external_body]
pub struct ExMagicCryptError(magic_crypt::MagicCryptError);

/// Calls `MagicCrypt128::encrypt_bytes_to_bytes` on `plain`, with the key made
/// from `password` and no initialisation vector (the zero vector).
///
/// Claimed of it: the result is the named `aes_encrypt(password, plain)`;
/// decrypting it with the same password gives `plain` back (CBC decryption
/// inverts CBC encryption under the same key and vector, and the PKCS#7
/// padding that encryption adds is the one that decryption removes); its
/// length is that of `plain` rounded up to the next multiple of 16
/// (`get_aes_cipher_len` in the crate's source).
#[verifier::external_body]
pub(crate) fn encrypt(password: &str, plain: &[u8]) -> (c: Vec<u8>)
    ensures
        c@ == aes_encrypt(password@, plain@),
        aes_decrypt(password@, c@) == Some(plain@),
        c@.len() == (plain@.len() / 16 + 1) * 16,
{
    magic_crypt::MagicCrypt128::new(password, None::<String>).encrypt_bytes_to_bytes(plain)
}

/// Calls `MagicCrypt128::decrypt_bytes_to_bytes` on `cipher`, with the key made
/// from `password` and no initialisation vector (the zero vector).
///
/// Claimed of it: it succeeds exactly when the named `aes_decrypt(password,
/// cipher)` is `Some`, and then returns that plaintext.
#[verifier::external_body]
pub(crate) fn decrypt(password: &str, cipher: &[u8]) -> (r: Result<Vec<u8>, magic_crypt::MagicCryptError>)
    ensures
        match r {
            Ok(p) => aes_decrypt(password@, cipher@) == Some(p@),
            Err(_) => aes_decrypt(password@, cipher@) is None,
        },
{
    magic_crypt::MagicCrypt128::new(password, None::<String>).decrypt_bytes_to_bytes(cipher)
}

/// Calls `std::str::from_utf8` on `bytes`, its error turned into `None`.
///
/// Claimed of it (std's documentation): it succeeds exactly when `bytes` is
/// valid UTF-8, and then the text is the decoding of `bytes`.
#[verifier::external_body]
pub(crate) fn utf8_text(bytes: &[u8]) -> (r: Option<&str>)
    ensures
        r is Some <==> valid_utf8(bytes@),
        r matches Some(s) ==> s@ == decode_utf8(bytes@),
{
    std::str::from_utf8(bytes).ok()
}

/// The plaintext that marks a database as opened with the right password.
pub const PASSWORD_CHECK: &'static str = "917994806418";

/// Why a password does not open a database.
#[derive(Debug, Clone, Copy, PartialEq, Eq)]
pub enum PasswordError {
    /// The stored check value does not decrypt under this password.
    WrongPassword,
    /// The stored check value decrypts, but not to UTF-8 text.
    NotText,
    /// The stored check value decrypts to text other than the marker.
    Mismatch,
}

/// The outcome of checking `password` against the stored check value `stored`.
pub open spec fn check_outcome(password: Seq<char>, stored: Seq<u8>) -> Result<(), PasswordError> {
    match aes_decrypt(password, stored) {
        None => Err(PasswordError::WrongPassword),
        Some(plain) => if !valid_utf8(plain) {
            Err(PasswordError::NotText)
        } else if decode_utf8(plain) == PASSWORD_CHECK@ {
            Ok(())
        } else {
            Err(PasswordError::Mismatch)
        },
    }
}

/// Whether two texts hold the same characters.
pub fn same_text(a: &str, b: &str) -> (r: bool)
    ensures
        r == (a@ == b@),
{
    let x = chars_of(a);
    let y = chars_of(b);
    if x.len() != y.len() {
        return false;
    }
    let mut i: usize = 0;
    while i < x.len()
        invariant
            x@ == a@,
            y@ == b@,
            x@.len() == y@.len(),
            i <= x@.len(),
            forall|j: int| 0 <= j < i ==> x@[j] == y@[j],
        decreases x@.len() - i,
    {
        if x[i] != y[i] {
            return false;
        }
        i = i + 1;
    }
    assert(x@ =~= y@);
    true
}

/// The check value that a new database stores: the marker, encrypted with
/// `password`.
pub fn new_verifier(password: &str) -> (v: Vec<u8>)
    ensures
        v@ == aes_encrypt(password@, encode_utf8(PASSWORD_CHECK@)),
        check_outcome(password@, v@) == Ok::<(), PasswordError>(()),
{
    let v = encrypt(password, PASSWORD_CHECK.as_bytes());
    proof {
        encode_utf8_valid_utf8(PASSWORD_CHECK@);
        encode_utf8_decode_utf8(PASSWORD_CHECK@);
    }
    v
}

/// Checks that `password` opens a database whose stored check value is
/// `stored`.
pub fn check_verifier(password: &str, stored: &[u8]) -> (r: Result<(), PasswordError>)
    ensures
        r == check_outcome(password@, stored@),
{
    match decrypt(password, stored) {
        Err(_) => Err(PasswordError::WrongPassword),
        Ok(plain) => match utf8_text(plain.as_slice()) {
            None => Err(PasswordError::NotText),
            Some(t) => if same_text(t, PASSWORD_CHECK) {
                Ok(())
            } else {
                Err(PasswordError::Mismatch)
            },
        },
    }
}

} // verus!

//! Binary strings, like `zend_string`.

use vstd::prelude::*;
use vstd::string::StringSliceAdditionalSpecFns;
use vstd::utf8::{decode_utf8, encode_utf8, valid_utf8};
use crate::numeric::{nat_digits, usize_to_bytes};
use crate::utils::{append_bytes, ascii, lit};

verus! {

/// The error of reading bytes as UTF-8 text: the bytes before
/// `valid_up_to` are well-formed; `error_len` is the length of the malformed
/// sequence that starts there, `None` when the input ends inside a
/// character.
#[derive(Debug, Clone, Copy, PartialEq, Eq, Structural)]
pub struct Utf8Error {
    /// The length of the longest well-formed prefix.
    pub valid_up_to: usize,
    /// The length of the malformed sequence, if the input did not just end.
    pub error_len: Option<usize>,
}

/// The text an [`Utf8Error`] is shown as.
pub open spec fn utf8_error_message(e: Utf8Error) -> Seq<u8> {
    match e.error_len {
        Some(n) => ascii("invalid utf-8 sequence of "@) + nat_digits(n as nat) + ascii(
            " bytes from index "@,
        ) + nat_digits(e.valid_up_to as nat),
        None => ascii("incomplete utf-8 byte sequence from index "@) + nat_digits(
            e.valid_up_to as nat,
        ),
    }
}

impl Utf8Error {
    /// The error message.
    pub fn message(&self) -> (r: Vec<u8>)
        ensures
            r@ == utf8_error_message(*self),
    {
        proof {
            reveal_strlit("invalid utf-8 sequence of ");
            reveal_strlit(" bytes from index ");
            reveal_strlit("incomplete utf-8 byte sequence from index ");
        }
        match self.error_len {
            Some(n) => {
                let mut m = lit("invalid utf-8 sequence of ");
                let d = usize_to_bytes(n);
                append_bytes(&mut m, d.as_slice());
                let mid = lit(" bytes from index ");
                append_bytes(&mut m, mid.as_slice());
                let i = usize_to_bytes(self.valid_up_to);
                append_bytes(&mut m, i.as_slice());
                m
            },
            None => {
                let mut m = lit("incomplete utf-8 byte sequence from index ");
                let i = usize_to_bytes(self.valid_up_to);
                append_bytes(&mut m, i.as_slice());
                m
            },
        }
    }
}

/// The result of decoding bytes as UTF-8 and replacing every malformed
/// sequence with U+FFFD.
pub uninterp spec fn utf8_lossy(bytes: Seq<u8>) -> Seq<char>;

/// What an error of reading `bytes` as UTF-8 says of them: `valid_up_to`
/// is the length of their longest well-formed prefix, short of the whole,
/// and `error_len`, when there is one, is the length of the malformed
/// sequence that starts there; without one, the input ended in the middle
/// of a sequence, one to three bytes after the prefix.
pub open spec fn utf8_error_of(bytes: Seq<u8>, e: Utf8Error) -> bool {
    &&& e.valid_up_to < bytes.len()
    &&& valid_utf8(bytes.take(e.valid_up_to as int))
    &&& forall|j: int| e.valid_up_to < j <= bytes.len() ==> !valid_utf8(#[trigger] bytes.take(j))
    &&& (e.error_len matches Some(l) ==> 1 <= l && e.valid_up_to + l <= bytes.len())
    &&& (e.error_len is None ==> bytes.len() - e.valid_up_to <= 3)
}

/// Calls `std::str::from_utf8`. Its documentation promises `Ok` exactly when
/// the bytes are well-formed UTF-8, and then a `str` whose bytes are the
/// input; on an error, `valid_up_to` is the length of the longest
/// well-formed prefix, so it is short of the whole input, and `error_len`,
/// when there is one, is the length of the malformed sequence that starts
/// there; when there is none, the input ends one to three bytes after that
/// prefix, in the middle of a sequence. Which sequences count as incomplete
/// rather than malformed is not stated beyond that, nor a bound on
/// `error_len`.
#[verifier::external_body]
fn str_from_utf8(bytes: &[u8]) -> (r: Result<&str, Utf8Error>)
    ensures
        r is Ok <==> valid_utf8(bytes@),
        r matches Ok(s) ==> s.spec_bytes() == bytes@,
        r matches Err(e) ==> utf8_error_of(bytes@, e),
{
    match std::str::from_utf8(bytes) {
        Ok(s) => Ok(s),
        Err(e) => Err(Utf8Error { valid_up_to: e.valid_up_to(), error_len: e.error_len() }),
    }
}

/// Calls `String::from_utf8_lossy` and takes the owned text. The result is
/// named by [`utf8_lossy`]; for well-formed input the documentation promises
/// the decoded text itself.
#[verifier::external_body]
fn string_from_utf8_lossy(bytes: &[u8]) -> (r: String)
    ensures
        r@ == utf8_lossy(bytes@),
        valid_utf8(bytes@) ==> r@ == decode_utf8(bytes@),
{
    String::from_utf8_lossy(bytes).into_owned()
}

/// The lower-case form of a text, by the Unicode rules that
/// `str::to_lowercase` follows.
pub uninterp spec fn unicode_lowercase(s: Seq<char>) -> Seq<char>;

/// Calls `str::to_lowercase`. The result is named by
/// [`unicode_lowercase`]; its documentation defines it by the Unicode
/// `Lowercase` property and promises nothing shorter to state.
#[verifier::external_body]
fn str_to_lowercase(s: &str) -> (r: String)
    ensures
        r@ == unicode_lowercase(s@),
{
    s.to_lowercase()
}

/// The UTF-8 bytes of the Unicode lower-case form of `s`.
pub(crate) fn lowercase_bytes(s: &str) -> (r: Vec<u8>)
    ensures
        r@ == encode_utf8(unicode_lowercase(s@)),
{
    let lower = str_to_lowercase(s);
    vstd::slice::slice_to_vec(lower.as_str().as_bytes())
}

/// The text of `bytes` read as UTF-8, when they are well-formed.
pub fn bytes_to_str(bytes: &[u8]) -> (r: Result<&str, Utf8Error>)
    ensures
        r is Ok <==> valid_utf8(bytes@),
        r matches Ok(s) ==> s.spec_bytes() == bytes@,
        r matches Err(e) ==> utf8_error_of(bytes@, e),
{
    str_from_utf8(bytes)
}

/// An interior or missing NUL stops bytes from being read as a C string.
#[derive(Debug, Clone, Copy, PartialEq, Eq, Structural)]
pub struct FromBytesWithNulError {
    /// The position of the first NUL byte before the end, if any.
    pub interior_nul: Option<usize>,
}

/// The text a [`FromBytesWithNulError`] is shown as.
pub open spec fn nul_error_message(e: FromBytesWithNulError) -> Seq<u8> {
    match e.interior_nul {
        Some(p) => ascii("data provided contains an interior nul byte at byte pos "@) + nat_digits(
            p as nat,
        ),
        None => ascii("data provided is not nul terminated"@),
    }
}

impl FromBytesWithNulError {
    /// The error message.
    pub fn message(&self) -> (r: Vec<u8>)
        ensures
            r@ == nul_error_message(*self),
    {
        proof {
            reveal_strlit("data provided contains an interior nul byte at byte pos ");
            reveal_strlit("data provided is not nul terminated");
        }
        match self.interior_nul {
            Some(p) => {
                let mut m = lit("data provided contains an interior nul byte at byte pos ");
                let d = usize_to_bytes(p);
                append_bytes(&mut m, d.as_slice());
                m
            },
            None => lit("data provided is not nul terminated"),
        }
    }
}

/// Like `str`/`CStr` for `zend_string`: an owned run of bytes.
#[derive(Debug)]
pub struct ZStr {
    bytes: Vec<u8>,
}

/// An owned PHP string value.
pub type ZString = ZStr;

impl View for ZStr {
    type V = Seq<u8>;

    closed spec fn view(&self) -> Seq<u8> {
        self.bytes@
    }
}

impl Clone for ZStr {
    fn clone(&self) -> (r: Self)
        ensures
            r@ == self@,
    {
        ZStr { bytes: vstd::slice::slice_to_vec(self.bytes.as_slice()) }
    }
}

impl ZStr {
    /// Creates a new string from a container of bytes.
    pub fn new(s: &[u8]) -> (r: Self)
        ensures
            r@ == s@,
    {
        ZStr { bytes: vstd::slice::slice_to_vec(s) }
    }

    /// Creates a new persistent string from a container of bytes.
    pub fn new_persistent(s: &[u8]) -> (r: Self)
        ensures
            r@ == s@,
    {
        ZStr { bytes: vstd::slice::slice_to_vec(s) }
    }

    /// Takes ownership of a byte vector.
    pub fn from_vec(bytes: Vec<u8>) -> (r: Self)
        ensures
            r@ == bytes@,
    {
        ZStr { bytes }
    }

    /// Gets the length in bytes.
    pub fn len(&self) -> (r: usize)
        ensures
            r == self@.len(),
    {
        self.bytes.len()
    }

    /// Returns `true` if `self` has a length of zero bytes.
    pub fn is_empty(&self) -> (r: bool)
        ensures
            r == (self@.len() == 0),
    {
        self.len() == 0
    }

    /// Converts to a byte slice.
    pub fn to_bytes(&self) -> (r: &[u8])
        ensures
            r@ == self@,
    {
        self.bytes.as_slice()
    }

    /// The bytes followed by the NUL terminator, as a C string sees them:
    /// an error when a NUL stands inside the text.
    pub fn to_c_str(&self) -> (r: Result<Vec<u8>, FromBytesWithNulError>)
        ensures
            r is Ok <==> (forall|i: int| 0 <= i < self@.len() ==> self@[i] != 0),
            r matches Ok(c) ==> c@ == self@.push(0),
            r matches Err(e) ==> e.interior_nul matches Some(p) && p < self@.len() && self@[p as int]
                == 0 && (forall|i: int| 0 <= i < p ==> self@[i] != 0),
    {
        let n = self.bytes.len();
        let mut i: usize = 0;
        while i < n
            invariant
                0 <= i <= n,
                n == self@.len(),
                forall|j: int| 0 <= j < i ==> self@[j] != 0,
            decreases n - i,
        {
            if self.bytes[i] == 0 {
                return Err(FromBytesWithNulError { interior_nul: Some(i) });
            }
            i = i + 1;
        }
        let mut c = vstd::slice::slice_to_vec(self.bytes.as_slice());
        c.push(0);
        Ok(c)
    }

    /// Yields the text if the string holds valid UTF-8.
    pub fn to_str(&self) -> (r: Result<&str, Utf8Error>)
        ensures
            r is Ok <==> valid_utf8(self@),
            r matches Ok(s) ==> s.spec_bytes() == self@,
            r matches Err(e) ==> utf8_error_of(self@, e),
    {
        str_from_utf8(self.bytes.as_slice())
    }

    /// Converts to text, replacing malformed UTF-8 with U+FFFD.
    pub fn to_string_lossy(&self) -> (r: String)
        ensures
            r@ == utf8_lossy(self@),
            valid_utf8(self@) ==> r@ == decode_utf8(self@),
    {
        string_from_utf8_lossy(self.bytes.as_slice())
    }

    /// Byte-wise equality with another container of bytes.
    pub fn eq_bytes(&self, other: &[u8]) -> (r: bool)
        ensures
            r == (self@ == other@),
    {
        bytes_eq(self.bytes.as_slice(), other)
    }
}

/// Byte-wise equality of two slices.
pub fn bytes_eq(a: &[u8], b: &[u8]) -> (r: bool)
    ensures
        r == (a@ == b@),
{
    if a.len() != b.len() {
        return false;
    }
    let n = a.len();
    let mut i: usize = 0;
    while i < n
        invariant
            0 <= i <= n,
            n == a@.len(),
            n == b@.len(),
            forall|j: int| 0 <= j < i ==> a@[j] == b@[j],
        decreases n - i,
    {
        if a[i] != b[i] {
            return false;
        }
        i = i + 1;
    }
    assert(a@ =~= b@);
    true
}

} // verus!

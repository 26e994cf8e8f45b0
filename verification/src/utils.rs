//! Small helpers on byte strings.

use vstd::prelude::*;
use vstd::string::is_ascii;

verus! {

/// The bytes of ASCII text.
pub open spec fn ascii(s: Seq<char>) -> Seq<u8> {
    Seq::new(s.len(), |i: int| s[i] as u8)
}

/// The bytes of an ASCII string literal.
pub fn lit(s: &str) -> (r: Vec<u8>)
    requires
        is_ascii(s),
    ensures
        r@ == ascii(s@),
{
    proof {
        broadcast use vstd::string::is_ascii_spec_bytes;
    }
    let b = s.as_bytes();
    let r = vstd::slice::slice_to_vec(b);
    assert(r@ =~= ascii(s@));
    r
}

/// Appends `b` to `out`.
pub fn append_bytes(out: &mut Vec<u8>, b: &[u8])
    ensures
        final(out)@ == old(out)@ + b@,
{
    let n = b.len();
    let mut i: usize = 0;
    while i < n
        invariant
            0 <= i <= n,
            n == b@.len(),
            out@ == old(out)@ + b@.take(i as int),
        decreases n - i,
    {
        out.push(b[i]);
        i = i + 1;
        assert(out@ =~= old(out)@ + b@.take(i as int));
    }
    assert(b@.take(n as int) =~= b@);
}

/// Appends a NUL byte unless the text already ends with one.
pub fn ensure_end_with_zero(s: &[u8]) -> (r: Vec<u8>)
    ensures
        s@.len() > 0 && s@.last() == 0 ==> r@ == s@,
        !(s@.len() > 0 && s@.last() == 0) ==> r@ == s@.push(0),
{
    let mut v = vstd::slice::slice_to_vec(s);
    let n = v.len();
    if n == 0 || v[n - 1] != 0 {
        v.push(0);
    }
    v
}

/// Ensuring a terminating NUL twice is ensuring it once, and the result
/// always ends with NUL.
pub proof fn lemma_end_with_zero_idempotent(s: Seq<u8>)
    ensures
        ({
            let once = if s.len() > 0 && s.last() == 0 { s } else { s.push(0) };
            &&& once.len() > 0 && once.last() == 0
            &&& (if once.len() > 0 && once.last() == 0 { once } else { once.push(0) }) == once
        }),
{
}

/// The ASCII lower-case form of a byte.
pub open spec fn ascii_lower(b: u8) -> u8 {
    if 65 <= b <= 90 {
        (b + 32) as u8
    } else {
        b
    }
}

/// The ASCII lower-case form of a byte string, as PHP folds class and
/// function names.
pub open spec fn ascii_lowercase(s: Seq<u8>) -> Seq<u8> {
    Seq::new(s.len(), |i: int| ascii_lower(s[i]))
}

/// Folds a byte string to ASCII lower case.
pub fn to_ascii_lowercase(s: &[u8]) -> (r: Vec<u8>)
    ensures
        r@ == ascii_lowercase(s@),
{
    let mut out: Vec<u8> = Vec::new();
    let n = s.len();
    let mut i: usize = 0;
    while i < n
        invariant
            0 <= i <= n,
            n == s@.len(),
            out@ =~= ascii_lowercase(s@).take(i as int),
        decreases n - i,
    {
        let b = s[i];
        let l: u8 = if 65 <= b && b <= 90 {
            b + 32
        } else {
            b
        };
        out.push(l);
        i = i + 1;
        assert(out@ =~= ascii_lowercase(s@).take(i as int));
    }
    assert(ascii_lowercase(s@).take(n as int) =~= ascii_lowercase(s@));
    out
}

/// Equality of two byte strings up to ASCII case.
pub fn eq_ignore_ascii_case(a: &[u8], b: &[u8]) -> (r: bool)
    ensures
        r == (ascii_lowercase(a@) == ascii_lowercase(b@)),
{
    if a.len() != b.len() {
        assert(ascii_lowercase(a@).len() != ascii_lowercase(b@).len());
        return false;
    }
    let n = a.len();
    let mut i: usize = 0;
    while i < n
        invariant
            0 <= i <= n,
            n == a@.len(),
            n == b@.len(),
            forall|j: int| 0 <= j < i ==> ascii_lower(a@[j]) == ascii_lower(b@[j]),
        decreases n - i,
    {
        let x = a[i];
        let y = b[i];
        let lx: u8 = if 65 <= x && x <= 90 {
            x + 32
        } else {
            x
        };
        let ly: u8 = if 65 <= y && y <= 90 {
            y + 32
        } else {
            y
        };
        if lx != ly {
            assert(ascii_lowercase(a@)[i as int] != ascii_lowercase(b@)[i as int]);
            return false;
        }
        i = i + 1;
    }
    assert(ascii_lowercase(a@) =~= ascii_lowercase(b@));
    true
}

} // verus!

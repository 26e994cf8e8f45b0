//! The names used when an extension is installed.

use vstd::prelude::*;
use vstd::utf8::valid_utf8;
use crate::strings::bytes_to_str;
use crate::utils::{append_bytes, ascii, lit};

verus! {

/// The text with every `-` turned into `_`.
pub open spec fn dashes_to_underscores(s: Seq<u8>) -> Seq<u8> {
    Seq::new(s.len(), |i: int| if s[i] == 45u8 { 95u8 } else { s[i] })
}

/// The file name of the library built for an executable named `stem`:
/// `lib`, the stem with `-` turned into `_`, then `.so`.
pub open spec fn lib_file_name(stem: Seq<u8>) -> Seq<u8> {
    ascii("lib"@) + dashes_to_underscores(stem) + ascii(".so"@)
}

/// The file name an extension is installed under: the stem, then `.so`.
pub open spec fn ext_file_name(stem: Seq<u8>) -> Seq<u8> {
    stem + ascii(".so"@)
}

/// The library file to install and the name to install it under, for the
/// stem of the running executable; `None` when the stem is not UTF-8
/// text.
pub fn lib_and_ext_names(exe_stem: &[u8]) -> (r: Option<(Vec<u8>, Vec<u8>)>)
    ensures
        valid_utf8(exe_stem@) ==> (r matches Some(p) && p.0@ == lib_file_name(exe_stem@) && p.1@
            == ext_file_name(exe_stem@)),
        !valid_utf8(exe_stem@) ==> r is None,
{
    proof {
        reveal_strlit("lib");
        reveal_strlit(".so");
    }
    if bytes_to_str(exe_stem).is_err() {
        return None;
    }
    let mut lib = lit("lib");
    let ghost head = lib@;
    let n = exe_stem.len();
    let mut i: usize = 0;
    while i < n
        invariant
            0 <= i <= n,
            n == exe_stem@.len(),
            lib@ == head + dashes_to_underscores(exe_stem@).take(i as int),
        decreases n - i,
    {
        let b = exe_stem[i];
        lib.push(if b == 45u8 {
            95u8
        } else {
            b
        });
        i = i + 1;
        assert(lib@ =~= head + dashes_to_underscores(exe_stem@).take(i as int));
    }
    assert(dashes_to_underscores(exe_stem@).take(n as int) =~= dashes_to_underscores(exe_stem@));
    let so = lit(".so");
    append_bytes(&mut lib, so.as_slice());
    let mut ext = vstd::slice::slice_to_vec(exe_stem);
    append_bytes(&mut ext, so.as_slice());
    Some((lib, ext))
}

} // verus!

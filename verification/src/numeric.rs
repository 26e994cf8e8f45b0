//! Decimal text of integers, and the rule that decides which string keys of
//! a symbol table are integer keys.

use vstd::prelude::*;

verus! {

/// The byte `'0'`.
pub const BYTE_ZERO: u8 = 48;
/// The byte `'-'`.
pub const BYTE_MINUS: u8 = 45;

/// `b` is an ASCII decimal digit.
pub open spec fn is_digit(b: u8) -> bool {
    48 <= b <= 57
}

/// The decimal digits of `n`, most significant first, without leading zeros.
pub open spec fn nat_digits(n: nat) -> Seq<u8>
    decreases n,
{
    if n < 10 {
        seq![(48 + n) as u8]
    } else {
        nat_digits(n / 10).push((48 + n % 10) as u8)
    }
}

/// The decimal text of an integer, with a leading `'-'` when negative.
pub open spec fn long_repr(n: int) -> Seq<u8> {
    if n < 0 {
        seq![BYTE_MINUS] + nat_digits((-n) as nat)
    } else {
        nat_digits(n as nat)
    }
}

/// Every byte of `s` is a decimal digit.
pub open spec fn all_digits(s: Seq<u8>) -> bool {
    forall|i: int| 0 <= i < s.len() ==> is_digit(#[trigger] s[i])
}

/// The value of a sequence of decimal digits.
pub open spec fn digits_value(s: Seq<u8>) -> nat
    decreases s.len(),
{
    if s.len() == 0 {
        0
    } else {
        digits_value(s.drop_last()) * 10 + (s.last() - 48) as nat
    }
}

/// A non-empty run of digits that has no leading zero (unless it is `"0"`).
pub open spec fn canonical_digits(s: Seq<u8>) -> bool {
    &&& s.len() > 0
    &&& all_digits(s)
    &&& (s[0] != BYTE_ZERO || s.len() == 1)
}

/// The integer that a string key of a symbol table stands for, if any: the
/// canonical decimal text of a value in the range of a signed 64-bit long.
/// `"-0"`, leading zeros, signs other than a leading `'-'`, blanks and values
/// out of range all leave the key a string.
pub open spec fn numeric_key(s: Seq<u8>) -> Option<int> {
    if s.len() > 0 && s[0] == BYTE_MINUS {
        let d = s.subrange(1, s.len() as int);
        if canonical_digits(d) && d[0] != BYTE_ZERO && digits_value(d) <= 0x8000_0000_0000_0000 {
            Some(-(digits_value(d) as int))
        } else {
            None
        }
    } else if canonical_digits(s) && digits_value(s) <= 0x7fff_ffff_ffff_ffff {
        Some(digits_value(s) as int)
    } else {
        None
    }
}

proof fn lemma_digits_value_push(s: Seq<u8>, d: u8)
    ensures
        digits_value(s.push(d)) == digits_value(s) * 10 + (d - 48) as nat,
{
    assert(s.push(d).drop_last() =~= s);
}

/// The digits of `n` are canonical and read back as `n`.
pub proof fn lemma_nat_digits(n: nat)
    ensures
        canonical_digits(nat_digits(n)),
        digits_value(nat_digits(n)) == n,
        n >= 1 ==> nat_digits(n)[0] != BYTE_ZERO,
        nat_digits(n).len() >= 1,
    decreases n,
{
    if n < 10 {
        let c = (48 + n) as u8;
        let s = seq![c];
        assert(nat_digits(n) =~= s);
        assert(s.drop_last() =~= Seq::<u8>::empty());
        assert(digits_value(Seq::<u8>::empty()) == 0);
        assert(s.last() == c);
        assert(digits_value(s) == digits_value(s.drop_last()) * 10 + (s.last() - 48) as nat);
    } else {
        lemma_nat_digits(n / 10);
        let p = nat_digits(n / 10);
        let d = (48 + n % 10) as u8;
        lemma_digits_value_push(p, d);
        assert(nat_digits(n) == p.push(d));
        assert forall|i: int| 0 <= i < p.push(d).len() implies is_digit(#[trigger] p.push(d)[i]) by {
            if i < p.len() {
                assert(p.push(d)[i] == p[i]);
            }
        }
        assert(p.push(d)[0] == p[0]);
    }
}

proof fn lemma_value_positive(s: Seq<u8>)
    requires
        s.len() > 0,
        all_digits(s),
        s[0] != BYTE_ZERO,
    ensures
        digits_value(s) >= 1,
    decreases s.len(),
{
    if s.len() > 1 {
        let p = s.drop_last();
        assert(p[0] == s[0]);
        assert(all_digits(p)) by {
            assert forall|i: int| 0 <= i < p.len() implies is_digit(#[trigger] p[i]) by {
                assert(p[i] == s[i]);
            }
        }
        lemma_value_positive(p);
    } else {
        assert(s.drop_last() =~= Seq::<u8>::empty());
        assert(is_digit(s[0]));
    }
}

/// Canonical digits are the digits of their value.
pub proof fn lemma_canonical_digits_roundtrip(s: Seq<u8>)
    requires
        canonical_digits(s),
    ensures
        nat_digits(digits_value(s)) == s,
    decreases s.len(),
{
    assert(is_digit(s[0]));
    if s.len() == 1 {
        assert(s.drop_last() =~= Seq::<u8>::empty());
        assert(digits_value(Seq::<u8>::empty()) == 0);
        let v = digits_value(s);
        assert(v == (s[0] - 48) as nat);
        assert(v < 10);
        assert(nat_digits(v) == seq![(48 + v) as u8]);
        assert(nat_digits(v) =~= s);
    } else {
        let p = s.drop_last();
        let d = s.last();
        assert(is_digit(s[s.len() - 1]));
        assert(p[0] == s[0]);
        assert(all_digits(p)) by {
            assert forall|i: int| 0 <= i < p.len() implies is_digit(#[trigger] p[i]) by {
                assert(p[i] == s[i]);
            }
        }
        lemma_canonical_digits_roundtrip(p);
        lemma_value_positive(p);
        let v = digits_value(s);
        assert(v == digits_value(p) * 10 + (d - 48) as nat);
        assert(v / 10 == digits_value(p));
        assert(v % 10 == (d - 48) as nat);
        assert(nat_digits(v) == nat_digits(v / 10).push((48 + v % 10) as u8));
        assert(nat_digits(v) =~= s);
    }
}

/// The symbol-table rule recognises exactly the decimal text of longs.
pub proof fn lemma_numeric_key_exact(s: Seq<u8>, n: int)
    requires
        i64::MIN <= n <= i64::MAX,
    ensures
        numeric_key(s) == Some(n) <==> s == long_repr(n),
{
    if s == long_repr(n) {
        if n < 0 {
            let m = (-n) as nat;
            lemma_nat_digits(m);
            let d = s.subrange(1, s.len() as int);
            assert(d =~= nat_digits(m));
            assert(s[0] == BYTE_MINUS);
        } else {
            lemma_nat_digits(n as nat);
            if s.len() > 0 && s[0] == BYTE_MINUS {
                assert(is_digit(s[0]));
            }
        }
    }
    if numeric_key(s) == Some(n) {
        if s.len() > 0 && s[0] == BYTE_MINUS {
            let d = s.subrange(1, s.len() as int);
            lemma_canonical_digits_roundtrip(d);
            lemma_value_positive(d);
            assert(s =~= seq![BYTE_MINUS] + d);
        } else {
            lemma_canonical_digits_roundtrip(s);
        }
    }
}

/// The decimal text of a long is always recognised as that long.
pub proof fn lemma_long_repr_is_numeric_key(n: i64)
    ensures
        numeric_key(long_repr(n as int)) == Some(n as int),
{
    lemma_numeric_key_exact(long_repr(n as int), n as int);
}

/// Appends the decimal digits of `n` to `out`.
/// Appends the decimal digits of `n`.
pub fn push_digits(n: u64, out: &mut Vec<u8>)
    ensures
        final(out)@ == old(out)@ + nat_digits(n as nat),
    decreases n,
{
    if n >= 10 {
        push_digits(n / 10, out);
    }
    let d: u8 = (48 + n % 10) as u8;
    out.push(d);
    proof {
        if n >= 10 {
            assert(nat_digits(n as nat) == nat_digits((n / 10) as nat).push(d));
        } else {
            assert(nat_digits(n as nat) =~= seq![d]);
        }
    }
    assert(out@ =~= old(out)@ + nat_digits(n as nat));
}

/// The decimal text of a long, like `i64::to_string`.
pub fn long_to_bytes(n: i64) -> (r: Vec<u8>)
    ensures
        r@ == long_repr(n as int),
{
    let mut out: Vec<u8> = Vec::new();
    if n < 0 {
        out.push(BYTE_MINUS);
        let m: u64 = if n == i64::MIN {
            0x8000_0000_0000_0000u64
        } else {
            (-n) as u64
        };
        push_digits(m, &mut out);
        assert(out@ =~= long_repr(n as int));
    } else {
        push_digits(n as u64, &mut out);
        assert(out@ =~= long_repr(n as int));
    }
    out
}

/// The decimal text of an unsigned size.
pub fn usize_to_bytes(n: usize) -> (r: Vec<u8>)
    ensures
        r@ == nat_digits(n as nat),
{
    let mut out: Vec<u8> = Vec::new();
    push_digits(n as u64, &mut out);
    assert(out@ =~= nat_digits(n as nat));
    out
}

proof fn lemma_value_take_monotone(s: Seq<u8>, j: int, k: int)
    requires
        all_digits(s),
        0 <= j <= k <= s.len(),
    ensures
        digits_value(s.take(j)) <= digits_value(s.take(k)),
    decreases k - j,
{
    if j < k {
        lemma_value_take_monotone(s, j, k - 1);
        assert(s.take(k).drop_last() =~= s.take(k - 1));
    }
}

/// Decides whether a string key of a symbol table is an integer key, and
/// which: `Some(n)` exactly when the key is the decimal text of the long `n`.
pub fn handle_numeric_str(s: &[u8]) -> (r: Option<i64>)
    ensures
        r matches Some(n) ==> numeric_key(s@) == Some(n as int),
        r is None ==> numeric_key(s@) is None,
{
    let len = s.len();
    if len == 0 {
        return None;
    }
    let neg = s[0] == BYTE_MINUS;
    let start: usize = if neg { 1 } else { 0 };
    if start == len {
        proof {
            let d = s@.subrange(1, s@.len() as int);
            assert(d.len() == 0);
        }
        return None;
    }
    let ghost d = s@.subrange(start as int, len as int);
    if s[start] == BYTE_ZERO && len > 1 {
        proof {
            if neg {
                assert(d[0] == BYTE_ZERO);
            } else {
                assert(d[0] == BYTE_ZERO && d.len() > 1);
            }
        }
        return None;
    }
    let limit: u64 = if neg { 0x8000_0000_0000_0000u64 } else { 0x7fff_ffff_ffff_ffffu64 };
    let mut acc: u64 = 0;
    let mut i: usize = start;
    while i < len
        invariant
            start <= i <= len,
            len == s@.len(),
            neg == (s@[0] == BYTE_MINUS),
            start == (if neg { 1usize } else { 0usize }),
            limit == (if neg { 0x8000_0000_0000_0000u64 } else { 0x7fff_ffff_ffff_ffffu64 }),
            d == s@.subrange(start as int, len as int),
            acc as nat == digits_value(d.take(i - start)),
            acc <= limit,
            all_digits(d.take(i - start)),
        decreases len - i,
    {
        let b = s[i];
        if b < 48 || b > 57 {
            proof {
                assert(d[i - start] == b);
                assert(!is_digit(d[i - start]));
                assert(!canonical_digits(d));
                if !neg {
                    assert(d =~= s@);
                } else {
                    assert(s@.subrange(1, s@.len() as int) == d);
                }
            }
            return None;
        }
        let dv: u64 = (b - 48) as u64;
        proof {
            assert(d.take(i - start + 1).drop_last() =~= d.take(i - start));
            assert(d.take(i - start + 1).last() == b);
            assert(all_digits(d.take(i - start + 1))) by {
                assert forall|k: int| 0 <= k < d.take(i - start + 1).len() implies is_digit(
                    #[trigger] d.take(i - start + 1)[k],
                ) by {
                    if k < i - start {
                        assert(d.take(i - start + 1)[k] == d.take(i - start)[k]);
                    }
                }
            }
        }
        if acc > (limit - dv) / 10 {
            proof {
                assert(digits_value(d.take(i - start + 1)) > limit);
                assert(d.take(i - start + 1) =~= d.take(i - start + 1));
            }
            proof {
                // every later prefix is at least as large
                let full = d.take(d.len() as int);
                assert(full =~= d);
                if all_digits(d) {
                    lemma_value_take_monotone(d, i - start + 1, d.len() as int);
                }
                if neg {
                    assert(s@.subrange(1, s@.len() as int) == d);
                } else {
                    assert(d =~= s@);
                }
            }
            return None;
        }
        acc = acc * 10 + dv;
        i = i + 1;
    }
    proof {
        assert(d.take(len - start) =~= d);
        assert(canonical_digits(d));
    }
    if neg {
        proof {
            assert(s@.subrange(1, s@.len() as int) == d);
            assert(d[0] != BYTE_ZERO);
        }
        if acc == 0x8000_0000_0000_0000u64 {
            Some(i64::MIN)
        } else {
            Some(-(acc as i64))
        }
    } else {
        proof {
            assert(s@[0] != BYTE_MINUS);
            assert(d =~= s@);
        }
        Some(acc as i64)
    }
}

} // verus!

verus! {

/// A byte that C's `isspace` accepts.
pub open spec fn is_c_space(b: u8) -> bool {
    b == 32 || (9 <= b <= 13)
}

/// The value of a byte as a digit of a base up to 16; 16 for any other
/// byte.
pub open spec fn digit_of(b: u8) -> nat {
    if 48 <= b <= 57 {
        (b - 48) as nat
    } else if 97 <= b <= 102 {
        (b - 87) as nat
    } else if 65 <= b <= 70 {
        (b - 55) as nat
    } else {
        16
    }
}

/// Where the run of spaces that starts at `i` ends.
pub open spec fn skip_spaces(s: Seq<u8>, i: int) -> int
    decreases s.len() - i,
{
    if 0 <= i < s.len() && is_c_space(s[i]) {
        skip_spaces(s, i + 1)
    } else {
        i
    }
}

/// Where the run of digits of `base` that starts at `i` ends.
pub open spec fn digit_run(s: Seq<u8>, i: int, base: nat) -> int
    decreases s.len() - i,
{
    if 0 <= i < s.len() && digit_of(s[i]) < base {
        digit_run(s, i + 1, base)
    } else {
        i
    }
}

/// The value of the digits `s[i..j]` in `base`.
pub open spec fn run_value(s: Seq<u8>, i: int, j: int, base: nat) -> nat
    decreases j - i,
{
    if j <= i {
        0
    } else {
        run_value(s, i, j - 1, base) * base + digit_of(s[j - 1])
    }
}

/// What C's `strtol(s, NULL, 0)` gives for the text `s`: leading spaces
/// and a sign are skipped, `0x` starts hexadecimal digits and `0` octal
/// ones, other text is decimal; the value saturates at the bounds of `i64`,
/// and text with no digits is 0.
pub open spec fn strtol(s: Seq<u8>) -> i64 {
    let i0 = skip_spaces(s, 0);
    let neg = i0 < s.len() && s[i0] == 45;
    let i1 = if i0 < s.len() && (s[i0] == 45 || s[i0] == 43) {
        i0 + 1
    } else {
        i0
    };
    let hex = i1 + 2 < s.len() && s[i1] == 48 && (s[i1 + 1] == 120 || s[i1 + 1] == 88)
        && digit_of(s[i1 + 2]) < 16;
    let base: nat = if hex {
        16
    } else if i1 < s.len() && s[i1] == 48 {
        8
    } else {
        10
    };
    let start = if hex {
        i1 + 2
    } else {
        i1
    };
    let v = run_value(s, start, digit_run(s, start, base), base);
    if neg {
        if v >= 0x8000_0000_0000_0000 {
            i64::MIN
        } else {
            (-v) as i64
        }
    } else {
        if v > i64::MAX {
            i64::MAX
        } else {
            v as i64
        }
    }
}

fn digit_value(b: u8) -> (r: u8)
    ensures
        r == digit_of(b),
{
    if 48 <= b && b <= 57 {
        b - 48
    } else if 97 <= b && b <= 102 {
        b - 87
    } else if 65 <= b && b <= 70 {
        b - 55
    } else {
        16
    }
}

proof fn lemma_run_grows(v: nat, base: nat, d: nat)
    requires
        base >= 1,
    ensures
        v * base + d >= v,
{
    assert(v * base >= v) by (nonlinear_arith)
        requires
            base >= 1,
    ;
}

/// Reads an integer from text as C's `strtol(s, NULL, 0)` does.
pub fn strtol_bytes(s: &[u8]) -> (r: i64)
    ensures
        r == strtol(s@),
{
    let n = s.len();
    let mut i: usize = 0;
    while i < n && (s[i] == 32 || (9 <= s[i] && s[i] <= 13))
        invariant
            0 <= i <= n,
            n == s@.len(),
            skip_spaces(s@, 0) == skip_spaces(s@, i as int),
        decreases n - i,
    {
        i = i + 1;
    }
    let i0 = i;
    let neg = i0 < n && s[i0] == 45;
    let i1 = if i0 < n && (s[i0] == 45 || s[i0] == 43) {
        i0 + 1
    } else {
        i0
    };
    let hex = i1 < n && n - i1 > 2 && s[i1] == 48 && (s[i1 + 1] == 120 || s[i1 + 1] == 88) && digit_value(
        s[i1 + 2],
    ) < 16;
    let base: u8 = if hex {
        16
    } else if i1 < n && s[i1] == 48 {
        8
    } else {
        10
    };
    let start = if hex {
        i1 + 2
    } else {
        i1
    };
    let limit: u64 = 0x8000_0000_0000_0000;
    let mut acc: u64 = 0;
    let mut over = false;
    let mut j = start;
    while j < n && digit_value(s[j]) < base
        invariant
            start <= j <= n,
            n == s@.len(),
            8 <= base <= 16,
            digit_run(s@, start as int, base as nat) == digit_run(s@, j as int, base as nat),
            !over ==> acc == run_value(s@, start as int, j as int, base as nat) && acc <= limit,
            over ==> run_value(s@, start as int, j as int, base as nat) > limit,
            limit == 0x8000_0000_0000_0000u64,
        decreases n - j,
    {
        let d = digit_value(s[j]);
        let ghost v = run_value(s@, start as int, j as int, base as nat);
        proof {
            lemma_run_grows(v, base as nat, d as nat);
            assert(run_value(s@, start as int, j + 1, base as nat) == v * base + d);
        }
        if !over {
            assert((acc as u128) * (base as u128) <= 0x8000_0000_0000_0000u128 * 16) by (nonlinear_arith)
                requires
                    acc <= 0x8000_0000_0000_0000u64,
                    base <= 16,
            ;
            let next: u128 = (acc as u128) * (base as u128) + (d as u128);
            assert(next == v * base + d) by (nonlinear_arith)
                requires
                    acc == v,
                    next == (acc as u128) * (base as u128) + (d as u128),
            ;
            if next > limit as u128 {
                over = true;
            } else {
                acc = next as u64;
            }
        }
        j = j + 1;
    }
    if neg {
        if over || acc >= limit {
            i64::MIN
        } else {
            -(acc as i64)
        }
    } else {
        if over || acc > i64::MAX as u64 {
            i64::MAX
        } else {
            acc as i64
        }
    }
}

} // verus!

verus! {

proof fn lemma_decimal_run(s: Seq<u8>, i: int, j: int)
    requires
        0 <= i <= j <= s.len(),
        forall|k: int| i <= k < j ==> is_digit(#[trigger] s[k]),
    ensures
        run_value(s, i, j, 10) == digits_value(s.subrange(i, j)),
    decreases j - i,
{
    if j > i {
        lemma_decimal_run(s, i, j - 1);
        assert(s.subrange(i, j).drop_last() =~= s.subrange(i, j - 1));
    } else {
        assert(s.subrange(i, j).len() == 0);
    }
}

proof fn lemma_decimal_run_end(s: Seq<u8>, i: int)
    requires
        0 <= i <= s.len(),
        forall|k: int| i <= k < s.len() ==> is_digit(#[trigger] s[k]),
    ensures
        digit_run(s, i, 10) == s.len(),
    decreases s.len() - i,
{
    if i < s.len() {
        lemma_decimal_run_end(s, i + 1);
    }
}

/// Reading the decimal text of a long with `strtol` gives the long back.
pub proof fn lemma_strtol_long_repr(n: i64)
    ensures
        strtol(long_repr(n as int)) == n,
{
    let s = long_repr(n as int);
    if n >= 0 {
        lemma_nat_digits(n as nat);
        let d = nat_digits(n as nat);
        assert(s == d);
        assert(is_digit(s[0]));
        assert(skip_spaces(s, 0) == 0);
        if n == 0 {
            assert(s =~= seq![48u8]);
            assert(digit_run(s, 1, 8) == 1);
            assert(digit_run(s, 0, 8) == 1);
            assert(run_value(s, 0, 0, 8) == 0);
            assert(run_value(s, 0, 1, 8) == 0);
        } else {
            lemma_decimal_run_end(s, 0);
            lemma_decimal_run(s, 0, s.len() as int);
            assert(s.subrange(0, s.len() as int) =~= s);
        }
    } else {
        let m = (-(n as int)) as nat;
        lemma_nat_digits(m);
        let d = nat_digits(m);
        assert(s == seq![BYTE_MINUS] + d);
        assert(skip_spaces(s, 0) == 0);
        assert forall|k: int| 1 <= k < s.len() implies is_digit(#[trigger] s[k]) by {
            assert(s[k] == d[k - 1]);
        }
        assert(s[1] == d[0]);
        lemma_decimal_run_end(s, 1);
        lemma_decimal_run(s, 1, s.len() as int);
        assert(s.subrange(1, s.len() as int) =~= d);
    }
}

} // verus!

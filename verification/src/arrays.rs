//! Arrays, like `zend_array`, addressed through the symbol-table rules.

use vstd::prelude::*;
use vstd::string::StringSliceAdditionalSpecFns;
use crate::numeric::{handle_numeric_str, numeric_key};
use crate::strings::{bytes_eq, ZStr};
use crate::values::ZVal;

verus! {

/// The key of an array slot after the symbol-table rules: an integer, or a
/// string that is not the decimal text of a long.
pub enum KeyModel {
    /// An integer key.
    Int(int),
    /// A string key.
    Str(Seq<u8>),
}

/// The long that a `zend_ulong` index stands for.
pub open spec fn ulong_as_long(h: u64) -> int {
    if h <= i64::MAX {
        h as int
    } else {
        h - 0x1_0000_0000_0000_0000
    }
}

/// The index that a long is stored under.
pub open spec fn long_as_ulong(n: int) -> int {
    if n >= 0 {
        n
    } else {
        n + 0x1_0000_0000_0000_0000
    }
}

/// The key that a string addresses: an integer key when the string is the
/// decimal text of a long, else the string itself.
pub open spec fn normalize_bytes(b: Seq<u8>) -> KeyModel {
    match numeric_key(b) {
        Some(n) => KeyModel::Int(n),
        None => KeyModel::Str(b),
    }
}

/// Key for [`ZArr`].
#[derive(Debug, Clone, Copy)]
pub enum Key<'a> {
    /// Index type key.
    Index(u64),
    /// String type key.
    Str(&'a str),
    /// String type key.
    Bytes(&'a [u8]),
    /// String type key.
    ZStr(&'a ZStr),
}

impl<'a> Key<'a> {
    /// The slot this key addresses.
    pub open spec fn model(self) -> KeyModel {
        match self {
            Key::Index(h) => KeyModel::Int(ulong_as_long(h)),
            Key::Str(s) => normalize_bytes(s.spec_bytes()),
            Key::Bytes(b) => normalize_bytes(b@),
            Key::ZStr(z) => normalize_bytes(z@),
        }
    }
}

/// Insert key for [`ZArr`].
#[derive(Debug, Clone, Copy)]
pub enum InsertKey<'a> {
    /// Insert with the next index, like `$arr[] = "foo"` in PHP.
    NextIndex,
    /// Insert with index type key.
    Index(u64),
    /// Insert with string type key.
    Str(&'a str),
    /// Insert with string type key.
    Bytes(&'a [u8]),
    /// Insert with string type key.
    ZStr(&'a ZStr),
}

impl<'a> InsertKey<'a> {
    /// The slot this key addresses; `None` for the next index.
    pub open spec fn model(self) -> Option<KeyModel> {
        match self {
            InsertKey::NextIndex => None,
            InsertKey::Index(h) => Some(KeyModel::Int(ulong_as_long(h))),
            InsertKey::Str(s) => Some(normalize_bytes(s.spec_bytes())),
            InsertKey::Bytes(b) => Some(normalize_bytes(b@)),
            InsertKey::ZStr(z) => Some(normalize_bytes(z@)),
        }
    }

    /// The insert key that addresses the same slot as `k`.
    pub fn from_key(k: Key<'a>) -> (r: Self)
        ensures
            r.model() == Some(k.model()),
    {
        match k {
            Key::Index(i) => InsertKey::Index(i),
            Key::Str(s) => InsertKey::Str(s),
            Key::Bytes(b) => InsertKey::Bytes(b),
            Key::ZStr(s) => InsertKey::ZStr(s),
        }
    }
}

/// Iterator key for [`ZArr::iter`].
#[derive(Debug, Clone, Copy)]
pub enum IterKey<'a> {
    /// Index type iterator key.
    Index(u64),
    /// String type iterator key.
    ZStr(&'a ZStr),
}

impl<'a> IterKey<'a> {
    /// The slot this key names.
    pub open spec fn model(self) -> KeyModel {
        match self {
            IterKey::Index(h) => KeyModel::Int(ulong_as_long(h)),
            IterKey::ZStr(z) => KeyModel::Str(z@),
        }
    }
}

/// A stored key.
#[derive(Debug)]
pub enum ArrKey {
    /// An integer key.
    Int(i64),
    /// A string key.
    Str(ZStr),
}

impl View for ArrKey {
    type V = KeyModel;

    open spec fn view(&self) -> KeyModel {
        match self {
            ArrKey::Int(i) => KeyModel::Int(*i as int),
            ArrKey::Str(s) => KeyModel::Str(s@),
        }
    }
}

/// Reads a `zend_ulong` index as the long it stands for.
pub fn ulong_to_long(h: u64) -> (r: i64)
    ensures
        r as int == ulong_as_long(h),
{
    if h <= 0x7fff_ffff_ffff_ffffu64 {
        h as i64
    } else {
        ((h - 0x8000_0000_0000_0000u64) as i64) + i64::MIN
    }
}

/// The `zend_ulong` index a long is stored under.
pub fn long_to_ulong(n: i64) -> (r: u64)
    ensures
        r as int == long_as_ulong(n as int),
{
    if n >= 0 {
        n as u64
    } else {
        ((n - i64::MIN) as u64) + 0x8000_0000_0000_0000u64
    }
}

/// Each index names the slot of the long it stands for.
pub proof fn lemma_ulong_long_roundtrip(n: i64)
    ensures
        ulong_as_long(long_as_ulong(n as int) as u64) == n,
{
}

fn normalize_slice(b: &[u8]) -> (r: ArrKey)
    ensures
        r@ == normalize_bytes(b@),
{
    match handle_numeric_str(b) {
        Some(n) => ArrKey::Int(n),
        None => ArrKey::Str(ZStr::new(b)),
    }
}

fn normalize_key(k: &Key) -> (r: ArrKey)
    ensures
        r@ == k.model(),
{
    match k {
        Key::Index(h) => ArrKey::Int(ulong_to_long(*h)),
        Key::Str(s) => normalize_slice(s.as_bytes()),
        Key::Bytes(b) => normalize_slice(b),
        Key::ZStr(z) => normalize_slice(z.to_bytes()),
    }
}

fn key_eq(a: &ArrKey, b: &ArrKey) -> (r: bool)
    ensures
        r == (a@ == b@),
{
    match (a, b) {
        (ArrKey::Int(x), ArrKey::Int(y)) => *x == *y,
        (ArrKey::Str(x), ArrKey::Str(y)) => bytes_eq(x.to_bytes(), y.to_bytes()),
        _ => false,
    }
}

/// The content of an array: its slots in order.
pub type ArrModel = Seq<(KeyModel, ZVal)>;

/// `i` is the first slot of `m` with key `k`.
pub open spec fn key_at<V>(m: Seq<(KeyModel, V)>, k: KeyModel, i: int) -> bool {
    &&& 0 <= i < m.len()
    &&& m[i].0 == k
    &&& forall|j: int| 0 <= j < i ==> (#[trigger] m[j]).0 != k
}

/// The first slot of `m` with key `k`, if any.
pub open spec fn find_key<V>(m: Seq<(KeyModel, V)>, k: KeyModel) -> Option<int> {
    if exists|i: int| key_at(m, k, i) {
        Some(choose|i: int| key_at(m, k, i))
    } else {
        None
    }
}

/// The value under key `k`, if any.
pub open spec fn lookup<V>(m: Seq<(KeyModel, V)>, k: KeyModel) -> Option<V> {
    match find_key(m, k) {
        Some(i) => Some(m[i].1),
        None => None,
    }
}

/// The content after writing `v` under `k`: the slot is replaced in place
/// when it exists, else appended.
pub open spec fn model_update<V>(m: Seq<(KeyModel, V)>, k: KeyModel, v: V) -> Seq<(KeyModel, V)> {
    match find_key(m, k) {
        Some(i) => m.update(i, (k, v)),
        None => m.push((k, v)),
    }
}

/// The content after deleting the slot under `k`.
pub open spec fn model_remove<V>(m: Seq<(KeyModel, V)>, k: KeyModel) -> Seq<(KeyModel, V)> {
    match find_key(m, k) {
        Some(i) => m.remove(i),
        None => m,
    }
}

/// The next free element after an integer key `h` has been added.
pub open spec fn next_after(next: i64, h: int) -> i64 {
    if h >= next {
        if h < i64::MAX {
            (h + 1) as i64
        } else {
            i64::MAX
        }
    } else {
        next
    }
}

/// The index that `$arr[] = ...` uses: 0 while no integer key has been added.
pub open spec fn next_slot(next: i64) -> int {
    if next == i64::MIN {
        0
    } else {
        next as int
    }
}

/// No two slots of `m` have the same key.
pub open spec fn distinct_keys<V>(m: Seq<(KeyModel, V)>) -> bool {
    forall|i: int, j: int| 0 <= i < j < m.len() ==> (#[trigger] m[i]).0 != (#[trigger] m[j]).0
}

/// Reading a slot right after writing it gives back the written value.
pub proof fn lemma_update_then_lookup<V>(m: Seq<(KeyModel, V)>, k: KeyModel, v: V)
    ensures
        lookup(model_update(m, k, v), k) == Some(v),
{
    let m2 = model_update(m, k, v);
    match find_key(m, k) {
        Some(i) => {
            assert(key_at(m, k, i));
            assert(key_at(m2, k, i));
            lemma_find_key_at(m2, k, i);
        },
        None => {
            assert forall|j: int| 0 <= j < m.len() implies (#[trigger] m[j]).0 != k by {
                if m[j].0 == k {
                    assert(exists|i: int| key_at(m, k, i)) by {
                        lemma_first_key::<V>(m, k, j);
                    }
                }
            }
            assert(key_at(m2, k, m.len() as int));
            lemma_find_key_at(m2, k, m.len() as int);
        },
    }
}

proof fn lemma_first_key<V>(m: Seq<(KeyModel, V)>, k: KeyModel, j: int)
    requires
        0 <= j < m.len(),
        m[j].0 == k,
    ensures
        exists|i: int| key_at(m, k, i),
    decreases j,
{
    if forall|l: int| 0 <= l < j ==> (#[trigger] m[l]).0 != k {
        assert(key_at(m, k, j));
    } else {
        let l = choose|l: int| 0 <= l < j && (#[trigger] m[l]).0 == k;
        lemma_first_key(m, k, l);
    }
}

/// `find_key` is `None` exactly when no slot has the key.
pub proof fn lemma_find_key_none_iff<V>(m: Seq<(KeyModel, V)>, k: KeyModel)
    ensures
        find_key(m, k) is None <==> forall|j: int| 0 <= j < m.len() ==> (#[trigger] m[j]).0 != k,
{
    if find_key(m, k) is None {
        assert forall|j: int| 0 <= j < m.len() implies (#[trigger] m[j]).0 != k by {
            if m[j].0 == k {
                lemma_first_key::<V>(m, k, j);
            }
        }
    }
}

/// Keys decide where a write lands, so looking through a map of the values
/// commutes with writing.
pub proof fn lemma_update_map<V, W>(m: Seq<(KeyModel, V)>, k: KeyModel, v: V, f: spec_fn(V) -> W)
    ensures
        model_update(m, k, v).map_values(|e: (KeyModel, V)| (e.0, f(e.1))) == model_update(
            m.map_values(|e: (KeyModel, V)| (e.0, f(e.1))),
            k,
            f(v),
        ),
        find_key(m.map_values(|e: (KeyModel, V)| (e.0, f(e.1))), k) == find_key(m, k),
{
    let g = |e: (KeyModel, V)| (e.0, f(e.1));
    let mm = m.map_values(g);
    match find_key(m, k) {
        Some(i) => {
            assert(key_at(m, k, i));
            assert(key_at(mm, k, i));
            lemma_find_key_at(mm, k, i);
            assert(model_update(m, k, v).map_values(g) =~= mm.update(i, (k, f(v))));
        },
        None => {
            lemma_find_key_none_iff(m, k);
            assert forall|j: int| 0 <= j < mm.len() implies (#[trigger] mm[j]).0 != k by {
                assert(mm[j].0 == m[j].0);
            }
            lemma_find_key_none(mm, k);
            assert(model_update(m, k, v).map_values(g) =~= mm.push((k, f(v))));
        },
    }
}

/// Writing one slot leaves every other slot as it was.
pub proof fn lemma_update_other<V>(m: Seq<(KeyModel, V)>, k: KeyModel, k2: KeyModel, v: V)
    requires
        k != k2,
    ensures
        lookup(model_update(m, k, v), k2) == lookup(m, k2),
{
    let m2 = model_update(m, k, v);
    assert forall|j: int| 0 <= j < m.len() implies ((#[trigger] m2[j]).0 == k2 <==> m[j].0 == k2) by {
        match find_key(m, k) {
            Some(i) => {
                assert(key_at(m, k, i));
                if j == i {
                    assert(m2[j].0 == k);
                }
            },
            None => {},
        }
    }
    if m2.len() > m.len() {
        assert(m2[m.len() as int].0 == k);
    }
    match find_key(m, k2) {
        Some(i) => {
            assert(key_at(m, k2, i));
            assert(key_at(m2, k2, i));
            lemma_find_key_at(m2, k2, i);
            match find_key(m, k) {
                Some(ik) => {
                    assert(key_at(m, k, ik));
                    assert(ik != i);
                },
                None => {},
            }
        },
        None => {
            lemma_find_key_none_iff(m, k2);
            assert forall|j: int| 0 <= j < m2.len() implies (#[trigger] m2[j]).0 != k2 by {
                if j < m.len() {
                    assert(m[j].0 != k2);
                }
            }
            lemma_find_key_none(m2, k2);
        },
    }
}

/// Writing a slot adds one element exactly when the key was absent.
pub proof fn lemma_update_len<V>(m: Seq<(KeyModel, V)>, k: KeyModel, v: V)
    ensures
        model_update(m, k, v).len() == m.len() + (if find_key(m, k) is None { 1int } else { 0int }),
{
    if let Some(i) = find_key(m, k) {
        assert(key_at(m, k, i));
    }
}

/// Writing a slot's value in place, as `get_mut`, `str_find_mut` and an
/// occupied entry do, keeps the keys distinct.
pub proof fn lemma_value_write_keeps_keys<V>(m: Seq<(KeyModel, V)>, i: int, v: V)
    requires
        distinct_keys(m),
        0 <= i < m.len(),
    ensures
        distinct_keys(m.update(i, (m[i].0, v))),
{
    let m2 = m.update(i, (m[i].0, v));
    assert forall|a: int, b: int| 0 <= a < b < m2.len() implies (#[trigger] m2[a]).0 != (
    #[trigger] m2[b]).0 by {
        assert(m2[a].0 == m[a].0 && m2[b].0 == m[b].0);
    }
}

/// With distinct keys, a deleted slot is gone.
pub proof fn lemma_remove_then_lookup<V>(m: Seq<(KeyModel, V)>, k: KeyModel)
    requires
        distinct_keys(m),
    ensures
        lookup(model_remove(m, k), k) is None,
{
    let m2 = model_remove(m, k);
    match find_key(m, k) {
        Some(i) => {
            assert(key_at(m, k, i));
            assert forall|j: int| 0 <= j < m2.len() implies (#[trigger] m2[j]).0 != k by {
                if j < i {
                    assert(m2[j] == m[j]);
                } else {
                    assert(m2[j] == m[j + 1]);
                    assert(m[i].0 != m[j + 1].0);
                }
            }
            lemma_find_key_none(m2, k);
        },
        None => {},
    }
}

/// Writing and deleting keep the keys distinct.
pub proof fn lemma_distinct_keys_preserved<V>(m: Seq<(KeyModel, V)>, k: KeyModel, v: V)
    requires
        distinct_keys(m),
    ensures
        distinct_keys(model_update(m, k, v)),
        distinct_keys(model_remove(m, k)),
        distinct_keys(m.push((k, v))) <== find_key(m, k) is None,
{
    match find_key(m, k) {
        Some(i) => {
            assert(key_at(m, k, i));
            let m2 = model_update(m, k, v);
            assert forall|a: int, b: int| 0 <= a < b < m2.len() implies (#[trigger] m2[a]).0 != (
            #[trigger] m2[b]).0 by {
                assert(m[a].0 != m[b].0);
            }
            let m3 = model_remove(m, k);
            assert forall|a: int, b: int| 0 <= a < b < m3.len() implies (#[trigger] m3[a]).0 != (
            #[trigger] m3[b]).0 by {
                let a0 = if a < i { a } else { a + 1 };
                let b0 = if b < i { b } else { b + 1 };
                assert(m3[a] == m[a0]);
                assert(m3[b] == m[b0]);
                assert(m[a0].0 != m[b0].0);
            }
        },
        None => {
            lemma_find_key_none_iff(m, k);
            let m2 = m.push((k, v));
            assert forall|a: int, b: int| 0 <= a < b < m2.len() implies (#[trigger] m2[a]).0 != (
            #[trigger] m2[b]).0 by {
                if b == m.len() {
                    assert(m[a].0 != k);
                } else {
                    assert(m[a].0 != m[b].0);
                }
            }
            assert(model_remove(m, k) == m);
        },
    }
}

/// Under the symbol-table rules the decimal text of a long addresses the
/// same slot as the long used as an index: `insert(42)` and `insert("42")`
/// are the same write.
pub proof fn lemma_numeric_string_is_index(n: i64)
    ensures
        normalize_bytes(crate::numeric::long_repr(n as int)) == KeyModel::Int(
            ulong_as_long(long_as_ulong(n as int) as u64),
        ),
{
    crate::numeric::lemma_long_repr_is_numeric_key(n);
}

/// A view into a single entry in an array, which may either be vacant or
/// occupied; made by [`ZArr::entry`].
pub enum Entry<'a> {
    /// An occupied entry.
    Occupied(OccupiedEntry<'a>),
    /// A vacant entry.
    Vacant(VacantEntry<'a>),
}

/// A view into an occupied entry of a [`ZArr`].
pub struct OccupiedEntry<'a>(pub &'a mut ZVal);

/// A view into a vacant entry of a [`ZArr`].
pub struct VacantEntry<'a> {
    /// The array.
    pub arr: &'a mut ZArr,
    /// The key, after the symbol-table rules.
    pub key: ArrKey,
}

impl<'a> Entry<'a> {
    /// Provides in-place mutable access to an occupied entry before any
    /// potential inserts into the array.
    pub fn and_modify<F: FnOnce(&mut ZVal)>(self, f: F) -> (r: Self)
        requires
            self matches Entry::Occupied(o) ==> forall|m: &mut ZVal|
                *m == *o.0 ==> #[trigger] f.requires((m,)),
        ensures
            self matches Entry::Occupied(o) ==> (r matches Entry::Occupied(o2) && *final(o2.0)
                == *final(o.0) && exists|m: &mut ZVal|
                #![trigger f.ensures((m,), ())]
                f.ensures((m,), ()) && *m == *o.0 && *final(m) == *o2.0),
            self matches Entry::Vacant(v) ==> (r matches Entry::Vacant(v2) && v2.key@ == v.key@
                && *v2.arr == *v.arr && *final(v2.arr) == *final(v.arr)),
    {
        match self {
            Entry::Occupied(entry) => {
                f(entry.0);
                Entry::Occupied(entry)
            },
            entry => entry,
        }
    }

    /// Ensures a value is in the entry by inserting the default if empty, and
    /// returns a mutable reference to the value in the entry.
    pub fn or_insert(self, val: ZVal) -> (r: &'a mut ZVal)
        ensures
            match self {
                Entry::Occupied(o) => *r == *o.0 && *final(o.0) == *final(r),
                Entry::Vacant(v) => *r == val && final(v.arr).model() == model_update(
                    v.arr.model(),
                    v.key@,
                    *final(r),
                ),
            },
    {
        match self {
            Entry::Occupied(entry) => entry.0,
            Entry::Vacant(entry) => entry.arr.put(entry.key, val),
        }
    }
}

/// Wrapper of a PHP array: an ordered table of keys and values.
#[derive(Debug)]
pub struct ZArr {
    keys: Vec<ArrKey>,
    values: Vec<ZVal>,
    next_free: i64,
}

/// An owned array.
pub type ZArray = ZArr;

pub proof fn lemma_find_key_at<V>(m: Seq<(KeyModel, V)>, k: KeyModel, i: int)
    requires
        key_at(m, k, i),
    ensures
        find_key(m, k) == Some(i),
{
    let c = choose|c: int| key_at(m, k, c);
    assert(key_at(m, k, c));
    if c < i {
        assert(m[c].0 != k);
    } else if c > i {
        assert(m[i].0 != k);
    }
}

pub proof fn lemma_find_key_none<V>(m: Seq<(KeyModel, V)>, k: KeyModel)
    requires
        forall|j: int| 0 <= j < m.len() ==> (#[trigger] m[j]).0 != k,
    ensures
        find_key(m, k) is None,
{
}

/// The slots made of `keys` and `values`, position by position.
spec fn model_of(keys: Seq<ArrKey>, values: Seq<ZVal>) -> ArrModel {
    Seq::new(keys.len(), |i: int| (keys[i]@, values[i]))
}

/// No key of `keys` comes twice.
spec fn distinct_key_seq(keys: Seq<ArrKey>) -> bool {
    forall|i: int, j: int| 0 <= i < j < keys.len() ==> (#[trigger] keys[i])@ != (#[trigger] keys[j])@
}

proof fn lemma_model_distinct(keys: Seq<ArrKey>, values: Seq<ZVal>)
    requires
        keys.len() == values.len(),
    ensures
        distinct_keys(model_of(keys, values)) == distinct_key_seq(keys),
{
    let m = model_of(keys, values);
    if distinct_key_seq(keys) {
        assert forall|i: int, j: int| 0 <= i < j < m.len() implies (#[trigger] m[i]).0
            != (#[trigger] m[j]).0 by {
            assert(keys[i]@ != keys[j]@);
        }
    }
    if distinct_keys(m) {
        assert forall|i: int, j: int| 0 <= i < j < keys.len() implies (#[trigger] keys[i])@
            != (#[trigger] keys[j])@ by {
            assert(m[i].0 != m[j].0);
        }
    }
}

/// Writing a value in place changes that slot's value and nothing else.
proof fn lemma_model_write(keys: Seq<ArrKey>, values: Seq<ZVal>, i: int)
    requires
        keys.len() == values.len(),
        0 <= i < keys.len(),
    ensures
        forall|v: ZVal|
            #[trigger] model_of(keys, values.update(i, v)) == model_of(keys, values).update(
                i,
                (keys[i]@, v),
            ),
{
    assert forall|v: ZVal| #[trigger] model_of(keys, values.update(i, v)) == model_of(
        keys,
        values,
    ).update(i, (keys[i]@, v)) by {
        assert(model_of(keys, values.update(i, v)) =~= model_of(keys, values).update(
            i,
            (keys[i]@, v),
        ));
    }
}

/// Writing the slot just appended is appending the written value.
proof fn lemma_push_write(m: ArrModel, k: KeyModel, a: ZVal)
    ensures
        forall|v: ZVal| #[trigger] m.push((k, a)).update(m.len() as int, (k, v)) == m.push((k, v)),
{
    assert forall|v: ZVal| #[trigger] m.push((k, a)).update(m.len() as int, (k, v)) == m.push((k, v)) by {
        assert(m.push((k, a)).update(m.len() as int, (k, v)) =~= m.push((k, v)));
    }
}

impl ZArr {
    /// A value for each key, and no key twice.
    #[verifier::type_invariant]
    spec fn inv(self) -> bool {
        &&& self.keys@.len() == self.values@.len()
        &&& distinct_key_seq(self.keys@)
    }

    /// The invariant, as the content of the array shows it.
    proof fn lemma_inv(&self)
        requires
            self.inv(),
        ensures
            self.keys@.len() == self.values@.len(),
            self.model().len() == self.keys@.len(),
            distinct_keys(self.model()),
    {
        lemma_model_distinct(self.keys@, self.values@);
    }
}

impl ZArr {
    /// The content of the array.
    pub closed spec fn model(&self) -> ArrModel {
        model_of(self.keys@, self.values@)
    }

    /// The next free element, `i64::MIN` while no integer key was added.
    pub closed spec fn next_free(&self) -> i64 {
        self.next_free
    }

    /// Creates an empty array.
    pub fn new() -> (r: Self)
        ensures
            r.model() == Seq::<(KeyModel, ZVal)>::empty(),
            r.next_free() == i64::MIN,
            distinct_keys(r.model()),
    {
        let r = ZArr { keys: Vec::new(), values: Vec::new(), next_free: i64::MIN };
        assert(r.model() =~= Seq::<(KeyModel, ZVal)>::empty());
        r
    }

    /// Creates an empty array with room for at least `n` elements.
    pub fn with_capacity(n: usize) -> (r: Self)
        ensures
            r.model() == Seq::<(KeyModel, ZVal)>::empty(),
            r.next_free() == i64::MIN,
            distinct_keys(r.model()),
    {
        let r = ZArr {
            keys: Vec::with_capacity(n),
            values: Vec::with_capacity(n),
            next_free: i64::MIN,
        };
        assert(r.model() =~= Seq::<(KeyModel, ZVal)>::empty());
        r
    }

    /// Gets the number of elements.
    pub fn len(&self) -> (r: usize)
        ensures
            r == self.model().len(),
            distinct_keys(self.model()),
    {
        proof {
            use_type_invariant(self);
            self.lemma_inv();
        }
        self.keys.len()
    }

    /// Returns true if the array has a length of 0.
    pub fn is_empty(&self) -> (r: bool)
        ensures
            r == (self.model().len() == 0),
    {
        self.keys.len() == 0
    }

    fn find(&self, k: &ArrKey) -> (r: Option<usize>)
        ensures
            match r {
                Some(i) => find_key(self.model(), k@) == Some(i as int),
                None => find_key(self.model(), k@) is None,
            },
    {
        let n = self.keys.len();
        let mut i: usize = 0;
        while i < n
            invariant
                0 <= i <= n,
                n == self.keys@.len(),
                forall|j: int| 0 <= j < i ==> (#[trigger] self.model()[j]).0 != k@,
            decreases n - i,
        {
            if key_eq(&self.keys[i], k) {
                proof {
                    lemma_find_key_at(self.model(), k@, i as int);
                }
                return Some(i);
            }
            assert(self.model()[i as int].0 != k@);
            i = i + 1;
        }
        proof {
            lemma_find_key_none(self.model(), k@);
        }
        None
    }

    /// Appends an element under a key that the array does not hold.
    fn push_entry(&mut self, k: ArrKey, value: ZVal)
        requires
            find_key(old(self).model(), k@) is None,
        ensures
            final(self).model() == old(self).model().push((k@, value)),
            final(self).next_free() == old(self).next_free(),
            distinct_keys(final(self).model()),
    {
        proof {
            use_type_invariant(&*self);
                self.lemma_inv();
            lemma_distinct_keys_preserved(self.model(), k@, value);
        }
        let ghost kv = k@;
        let mut whole = ZArr::new();
        std::mem::swap(&mut whole, self);
        let ZArr { mut keys, mut values, next_free } = whole;
        keys.push(k);
        values.push(value);
        proof {
            lemma_model_distinct(keys@, values@);
            assert(model_of(keys@, values@) =~= old(self).model().push((kv, value)));
        }
        let r = ZArr { keys, values, next_free };
        assert(r.model() =~= old(self).model().push((kv, value)));
        *self = r;
    }

    fn update(&mut self, k: ArrKey, value: ZVal)
        ensures
            final(self).model() == model_update(old(self).model(), k@, value),
            final(self).next_free() == (if find_key(old(self).model(), k@) is None
                && k@ is Int {
                next_after(old(self).next_free(), k@->Int_0)
            } else {
                old(self).next_free()
            }),
    {
        match self.find(&k) {
            Some(i) => {
                let ghost kv = k@;
                proof {
                    use_type_invariant(&*self);
                self.lemma_inv();
                }
                self.values[i] = value;
                assert(self.model() =~= old(self).model().update(i as int, (kv, value)));
            },
            None => {
                let ghost kv = k@;
                let h: Option<i64> = match &k {
                    ArrKey::Int(h) => Some(*h),
                    ArrKey::Str(_) => None,
                };
                proof {
                    use_type_invariant(&*self);
                }
                if let Some(h) = h {
                    if h >= self.next_free {
                        self.next_free = if h < i64::MAX {
                            h + 1
                        } else {
                            i64::MAX
                        };
                    }
                }
                self.push_entry(k, value);
            },
        }
    }

    /// Adds or updates an item by key.
    ///
    /// The symbol-table rules apply: `insert(Index(42), ..)` and
    /// `insert(Str("42"), ..)` address the same slot. With
    /// [`InsertKey::NextIndex`] the value is appended under the next free
    /// index; nothing changes when that index is already taken.
    pub fn insert(&mut self, key: InsertKey, value: ZVal)
        ensures
            match key.model() {
                Some(k) => {
                    &&& final(self).model() == model_update(old(self).model(), k, value)
                    &&& final(self).next_free() == (if find_key(old(self).model(), k) is None
                        && k is Int {
                        next_after(old(self).next_free(), k->Int_0)
                    } else {
                        old(self).next_free()
                    })
                },
                None => {
                    let h = next_slot(old(self).next_free());
                    if find_key(old(self).model(), KeyModel::Int(h)) is Some {
                        &&& final(self).model() == old(self).model()
                        &&& final(self).next_free() == old(self).next_free()
                    } else {
                        &&& final(self).model() == old(self).model().push((KeyModel::Int(h), value))
                        &&& final(self).next_free() == next_after(old(self).next_free(), h)
                    }
                },
            },
            distinct_keys(final(self).model()),
    {
        proof {
            use_type_invariant(&*self);
            self.lemma_inv();
            if distinct_keys(self.model()) {
                let m = self.model();
                match key.model() {
                    Some(k) => lemma_distinct_keys_preserved(m, k, value),
                    None => lemma_distinct_keys_preserved(m, KeyModel::Int(next_slot(self.next_free)), value),
                }
            }
        }
        match key {
            InsertKey::NextIndex => {
                let h: i64 = if self.next_free == i64::MIN {
                    0
                } else {
                    self.next_free
                };
                let k = ArrKey::Int(h);
                match self.find(&k) {
                    Some(_) => {},
                    None => {
                        self.update(k, value);
                    },
                }
            },
            InsertKey::Index(i) => {
                let k = normalize_key(&Key::Index(i));
                self.update(k, value);
            },
            InsertKey::Str(s) => {
                let k = normalize_key(&Key::Str(s));
                self.update(k, value);
            },
            InsertKey::Bytes(b) => {
                let k = normalize_key(&Key::Bytes(b));
                self.update(k, value);
            },
            InsertKey::ZStr(z) => {
                let k = normalize_key(&Key::ZStr(z));
                self.update(k, value);
            },
        }
    }

    /// Gets an item by key, under the symbol-table rules.
    pub fn get(&self, key: Key) -> (r: Option<&ZVal>)
        ensures
            match r {
                Some(v) => lookup(self.model(), key.model()) == Some(*v),
                None => lookup(self.model(), key.model()) is None,
            },
    {
        proof {
            use_type_invariant(self);
        }
        let k = normalize_key(&key);
        match self.find(&k) {
            Some(i) => Some(&self.values[i]),
            None => None,
        }
    }

    /// Gets an item by key mutably, under the symbol-table rules.
    pub fn get_mut(&mut self, key: Key) -> (r: Option<&mut ZVal>)
        ensures
            match find_key(old(self).model(), key.model()) {
                Some(i) => r matches Some(p) && *p == old(self).model()[i].1
                    && final(self).model() == old(self).model().update(
                    i,
                    (key.model(), *final(p)),
                ) && final(self).next_free() == old(self).next_free(),
                None => r is None && *final(self) == *old(self),
            },
    {
        proof {
            use_type_invariant(&*self);
                self.lemma_inv();
        }
        let k = normalize_key(&key);
        match self.find(&k) {
            Some(i) => {
                Some(&mut self.values[i])
            },
            None => None,
        }
    }

    /// Checks if the key exists, under the symbol-table rules.
    pub fn exists_key(&self, key: Key) -> (r: bool)
        ensures
            r == find_key(self.model(), key.model()) is Some,
    {
        let k = normalize_key(&key);
        self.find(&k).is_some()
    }

    /// Removes the item under the key, under the symbol-table rules; tells
    /// whether there was one.
    pub fn remove(&mut self, key: Key) -> (r: bool)
        ensures
            r == find_key(old(self).model(), key.model()) is Some,
            final(self).model() == model_remove(old(self).model(), key.model()),
            final(self).next_free() == old(self).next_free(),
            final(self).model().len() == old(self).model().len() - (if r {
                1int
            } else {
                0int
            }),
            lookup(final(self).model(), key.model()) is None,
            distinct_keys(final(self).model()),
    {
        proof {
            use_type_invariant(&*self);
            self.lemma_inv();
            if distinct_keys(self.model()) {
                lemma_distinct_keys_preserved(self.model(), key.model(), ZVal::Null);
                lemma_remove_then_lookup(self.model(), key.model());
            }
        }
        let k = normalize_key(&key);
        match self.find(&k) {
            Some(i) => {
                proof {
                    use_type_invariant(&*self);
                self.lemma_inv();
                }
                let mut whole = ZArr::new();
                std::mem::swap(&mut whole, self);
                let ZArr { mut keys, mut values, next_free } = whole;
                keys.remove(i);
                values.remove(i);
                proof {
                    lemma_model_distinct(keys@, values@);
                    assert(model_of(keys@, values@) =~= old(self).model().remove(i as int));
                    lemma_distinct_keys_preserved(old(self).model(), key.model(), ZVal::Null);
                }
                let r = ZArr { keys, values, next_free };
                proof {
                    assert(r.model() =~= old(self).model().remove(i as int));
                    lemma_distinct_keys_preserved(old(self).model(), key.model(), ZVal::Null);
                    lemma_remove_then_lookup(old(self).model(), key.model());
                }
                *self = r;
                assert(self.model() =~= old(self).model().remove(i as int));
                true
            },
            None => false,
        }
    }

    /// Writes `value` under `k`, as [`ZArr::insert`] does, and gives the
    /// slot mutably.
    fn put(&mut self, k: ArrKey, value: ZVal) -> (r: &mut ZVal)
        ensures
            *r == value,
            final(self).model() == model_update(old(self).model(), k@, *final(r)),
            final(self).next_free() == (if find_key(old(self).model(), k@) is None
                && k@ is Int {
                next_after(old(self).next_free(), k@->Int_0)
            } else {
                old(self).next_free()
            }),
    {
        let ghost kv = k@;
        match self.find(&k) {
            Some(i) => {
                proof {
                    use_type_invariant(&*self);
                self.lemma_inv();
                }
                proof {
                    assert(self.model()[i as int].0 == kv);
                    lemma_model_write(self.keys@, self.values@, i as int);
                }
                let r = &mut self.values[i];
                *r = value;
                r
            },
            None => {
                let h: Option<i64> = match &k {
                    ArrKey::Int(h) => Some(*h),
                    ArrKey::Str(_) => None,
                };
                proof {
                    use_type_invariant(&*self);
                }
                if let Some(h) = h {
                    if h >= self.next_free {
                        self.next_free = if h < i64::MAX {
                            h + 1
                        } else {
                            i64::MAX
                        };
                    }
                }
                let n = self.keys.len();
                self.push_entry(k, value);
                proof {
                    use_type_invariant(&*self);
                    self.lemma_inv();
                    assert(self.model()[n as int] == (kv, value));
                    assert(self.values@[n as int] == value);
                    lemma_model_write(self.keys@, self.values@, n as int);
                    lemma_push_write(old(self).model(), kv, value);
                    assert(self.keys@[n as int]@ == kv);
                }
                &mut self.values[n]
            },
        }
    }

    /// Gets the given key's entry in the array for in-place manipulation.
    pub fn entry<'a>(&'a mut self, key: Key) -> (r: Entry<'a>)
        ensures
            match find_key(old(self).model(), key.model()) {
                Some(i) => r matches Entry::Occupied(o) && *o.0 == old(self).model()[i].1
                    && final(self).model() == old(self).model().update(i, (key.model(), *final(o.0))),
                None => r matches Entry::Vacant(v) && *v.arr == *old(self) && v.key@ == key.model()
                    && *final(self) == *final(v.arr),
            },
    {
        proof {
            use_type_invariant(&*self);
                self.lemma_inv();
        }
        let k = normalize_key(&key);
        match self.find(&k) {
            Some(i) => Entry::Occupied(OccupiedEntry(&mut self.values[i])),
            None => Entry::Vacant(VacantEntry { arr: self, key: k }),
        }
    }

    /// Writes `value` under the string key `name`, taken as it is: no
    /// symbol-table rule applies (like `zend_hash_str_update`).
    pub fn str_update(&mut self, name: &[u8], value: ZVal)
        ensures
            final(self).model() == model_update(old(self).model(), KeyModel::Str(name@), value),
            final(self).next_free() == old(self).next_free(),
    {
        let k = ArrKey::Str(ZStr::new(name));
        self.update(k, value);
    }

    /// Reads the value under the string key `name`, taken as it is (like
    /// `zend_hash_str_find`).
    pub fn str_find(&self, name: &[u8]) -> (r: Option<&ZVal>)
        ensures
            match r {
                Some(v) => lookup(self.model(), KeyModel::Str(name@)) == Some(*v),
                None => lookup(self.model(), KeyModel::Str(name@)) is None,
            },
    {
        proof {
            use_type_invariant(self);
        }
        let k = ArrKey::Str(ZStr::new(name));
        match self.find(&k) {
            Some(i) => Some(&self.values[i]),
            None => None,
        }
    }

    /// Gets the value under the string key `name` mutably, taken as it is.
    pub fn str_find_mut(&mut self, name: &[u8]) -> (r: Option<&mut ZVal>)
        ensures
            match find_key(old(self).model(), KeyModel::Str(name@)) {
                Some(i) => r matches Some(p) && *p == old(self).model()[i].1
                    && final(self).model() == old(self).model().update(
                    i,
                    (KeyModel::Str(name@), *final(p)),
                ) && final(self).next_free() == old(self).next_free(),
                None => r is None && *final(self) == *old(self),
            },
    {
        proof {
            use_type_invariant(&*self);
                self.lemma_inv();
        }
        let k = ArrKey::Str(ZStr::new(name));
        match self.find(&k) {
            Some(i) => Some(&mut self.values[i]),
            None => None,
        }
    }

    /// The value in slot `pos` (in order), mutably: with [`ZArr::iter`] for
    /// the keys, a walk over the array that may change its values.
    pub fn value_at_mut(&mut self, pos: usize) -> (r: &mut ZVal)
        requires
            pos < old(self).model().len(),
        ensures
            *r == old(self).model()[pos as int].1,
            final(self).model() == old(self).model().update(
                pos as int,
                (old(self).model()[pos as int].0, *final(r)),
            ),
            final(self).next_free() == old(self).next_free(),
    {
        proof {
            use_type_invariant(&*self);
            self.lemma_inv();
            lemma_model_write(self.keys@, self.values@, pos as int);
        }
        &mut self.values[pos]
    }

    /// The keys and values in order.
    pub fn iter(&self) -> (r: Vec<(IterKey<'_>, &ZVal)>)
        ensures
            r@.len() == self.model().len(),
            forall|i: int|
                0 <= i < r@.len() ==> (#[trigger] r@[i]).0.model() == self.model()[i].0 && *r@[i].1
                    == self.model()[i].1,
    {
        proof {
            use_type_invariant(self);
            self.lemma_inv();
        }
        let mut out: Vec<(IterKey<'_>, &ZVal)> = Vec::new();
        let n = self.keys.len();
        let mut i: usize = 0;
        while i < n
            invariant
                0 <= i <= n,
                n == self.keys@.len(),
                n == self.values@.len(),
                out@.len() == i,
                forall|j: int|
                    0 <= j < i ==> (#[trigger] out@[j]).0.model() == self.model()[j].0 && *out@[j].1
                        == self.model()[j].1,
            decreases n - i,
        {
            let k = match &self.keys[i] {
                ArrKey::Int(h) => IterKey::Index(long_to_ulong(*h)),
                ArrKey::Str(s) => IterKey::ZStr(s),
            };
            out.push((k, &self.values[i]));
            i = i + 1;
        }
        out
    }
}

impl ArrKey {
    /// A copy of the key.
    pub fn duplicate(&self) -> (r: ArrKey)
        ensures
            r@ == self@,
    {
        match self {
            ArrKey::Int(i) => ArrKey::Int(*i),
            ArrKey::Str(s) => ArrKey::Str(s.clone()),
        }
    }
}

impl ZArr {
    /// A copy of the array: the same keys in the same order, each with a
    /// copy of its value.
    pub fn duplicate(&self) -> (r: ZArr)
        ensures
            r.next_free() == self.next_free(),
            r.model().len() == self.model().len(),
            forall|i: int|
                0 <= i < self.model().len() ==> (#[trigger] r.model()[i]).0 == self.model()[i].0
                    && crate::values::copy_of(self.model()[i].1, r.model()[i].1),
        decreases self,
    {
        proof {
            use_type_invariant(self);
            self.lemma_inv();
        }
        let mut keys: Vec<ArrKey> = Vec::new();
        let mut values: Vec<ZVal> = Vec::new();
        let n = self.keys.len();
        let mut i: usize = 0;
        while i < n
            invariant
                0 <= i <= n,
                n == self.keys@.len(),
                n == self.values@.len(),
                keys@.len() == i,
                values@.len() == i,
                forall|j: int|
                    0 <= j < i ==> (#[trigger] keys@[j])@ == self.keys@[j]@
                        && crate::values::copy_of(self.values@[j], values@[j]),
            decreases n - i,
        {
            proof {
                assert(decreases_to!(self => self.values));
                assert(decreases_to!(self.values => self.values@));
                assert(decreases_to!(self.values@ => self.values@[i as int]));
            }
            let v = self.values[i].duplicate();
            keys.push(self.keys[i].duplicate());
            values.push(v);
            i = i + 1;
        }
        proof {
            assert forall|a: int, b: int| 0 <= a < b < keys@.len() implies (#[trigger] keys@[a])@
                != (#[trigger] keys@[b])@ by {
                assert(self.keys@[a]@ != self.keys@[b]@);
            }
        }
        let r = ZArr { keys, values, next_free: self.next_free };
        r
    }
}

impl Clone for ZArr {
    fn clone(&self) -> (r: Self)
        ensures
            r.next_free() == self.next_free(),
            r.model().len() == self.model().len(),
            forall|i: int|
                0 <= i < self.model().len() ==> (#[trigger] r.model()[i]).0 == self.model()[i].0
                    && crate::values::copy_of(self.model()[i].1, r.model()[i].1),
    {
        self.duplicate()
    }
}

/// An iterator over the elements of a [`ZArr`], in order.
pub struct Iter<'a> {
    arr: &'a ZArr,
    pos: usize,
}

impl<'a> Iter<'a> {
    /// The array walked over.
    pub closed spec fn spec_array(&self) -> ArrModel {
        self.arr.model()
    }

    /// How many elements were handed out.
    pub closed spec fn spec_pos(&self) -> nat {
        self.pos as nat
    }

    /// Starts at the first element of `arr`.
    pub fn new(arr: &'a ZArr) -> (r: Self)
        ensures
            r.spec_array() == arr.model(),
            r.spec_pos() == 0,
    {
        Iter { arr, pos: 0 }
    }

    /// The next element and its key; `None` once all were handed out.
    pub fn next(&mut self) -> (r: Option<(IterKey<'a>, &'a ZVal)>)
        ensures
            final(self).spec_array() == old(self).spec_array(),
            old(self).spec_pos() < old(self).spec_array().len() ==> {
                &&& r matches Some(e) && e.0.model() == old(self).spec_array()[old(self).spec_pos() as int].0
                    && *e.1 == old(self).spec_array()[old(self).spec_pos() as int].1
                &&& final(self).spec_pos() == old(self).spec_pos() + 1
            },
            old(self).spec_pos() >= old(self).spec_array().len() ==> r is None && final(self).spec_pos()
                == old(self).spec_pos(),
    {
        proof {
            use_type_invariant(self.arr);
        }
        if self.pos >= self.arr.keys.len() {
            return None;
        }
        let k = match &self.arr.keys[self.pos] {
            ArrKey::Int(h) => IterKey::Index(long_to_ulong(*h)),
            ArrKey::Str(s) => IterKey::ZStr(s),
        };
        let v = &self.arr.values[self.pos];
        self.pos = self.pos + 1;
        Some((k, v))
    }
}

} // verus!

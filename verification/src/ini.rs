//! Ini entries: declaring them, the engine's table of them, and reading
//! their values as Rust values.

use vstd::prelude::*;
use crate::numeric::{long_repr, long_to_bytes, strtol, strtol_bytes};
use crate::functions::{copy_until_nul, until_nul};
use crate::numeric::lemma_strtol_long_repr;
use crate::strings::bytes_eq;

verus! {

/// Ini entries that can be set anywhere.
pub const PHP_INI_ALL: u32 = 7;
/// Ini entries that can be set in user scripts.
pub const PHP_INI_USER: u32 = 1;
/// Ini entries that can be set in `php.ini`, `.htaccess` or `httpd.conf`.
pub const PHP_INI_PERDIR: u32 = 2;
/// Ini entries that can be set in `php.ini` or `httpd.conf`.
pub const PHP_INI_SYSTEM: u32 = 4;

/// Where an ini entry may be changed.
#[derive(Debug, Clone, Copy, PartialEq, Eq, Structural)]
pub enum Policy {
    /// Entry can be set anywhere.
    All,
    /// Entry can be set in user scripts (like with `ini_set()`) or in the
    /// Windows registry. Entry can be set in `.user.ini`.
    User,
    /// Entry can be set in `php.ini`, `.htaccess`, `httpd.conf` or `.user.ini`.
    Perdir,
    /// Entry can be set in `php.ini` or `httpd.conf`.
    System,
}

impl Policy {
    /// The flag of the policy.
    pub open spec fn spec_raw(self) -> u32 {
        match self {
            Policy::All => PHP_INI_ALL,
            Policy::User => PHP_INI_USER,
            Policy::Perdir => PHP_INI_PERDIR,
            Policy::System => PHP_INI_SYSTEM,
        }
    }

    /// The flag of the policy.
    pub fn raw(self) -> (r: u32)
        ensures
            r == self.spec_raw(),
    {
        match self {
            Policy::All => PHP_INI_ALL,
            Policy::User => PHP_INI_USER,
            Policy::Perdir => PHP_INI_PERDIR,
            Policy::System => PHP_INI_SYSTEM,
        }
    }
}

/// Each policy has a flag of its own: two policies share a flag only when
/// they are the same; `User`, `Perdir` and `System` are the single bits 1, 2
/// and 4 (`PHP_INI_USER`, `PHP_INI_PERDIR`, `PHP_INI_SYSTEM`), and `All`
/// is all of them together.
pub proof fn lemma_policy_flags(a: Policy, b: Policy)
    ensures
        a.spec_raw() == b.spec_raw() ==> a == b,
        Policy::All.spec_raw() == Policy::User.spec_raw() | Policy::Perdir.spec_raw()
            | Policy::System.spec_raw(),
        Policy::User.spec_raw() == 1 && Policy::Perdir.spec_raw() == 2 && Policy::System.spec_raw()
            == 4,
        PHP_INI_USER == 1 && PHP_INI_PERDIR == 2 && PHP_INI_SYSTEM == 4 && PHP_INI_ALL == 7,
{
    assert(1u32 | 2u32 | 4u32 == 7u32) by (bit_vector);
}

/// A value that can be the default of an ini entry.
pub trait IntoIniValue {
    /// The text of the value.
    spec fn spec_ini_text(&self) -> Seq<u8>;

    /// Transforms to an ini value.
    fn into_ini_value(self) -> (r: Vec<u8>)
        ensures
            r@ == self.spec_ini_text(),
    ;
}

impl IntoIniValue for bool {
    open spec fn spec_ini_text(&self) -> Seq<u8> {
        if *self {
            seq![49u8]
        } else {
            seq![48u8]
        }
    }

    fn into_ini_value(self) -> (r: Vec<u8>) {
        let mut v: Vec<u8> = Vec::new();
        v.push(if self {
            49u8
        } else {
            48u8
        });
        assert(v@ =~= self.spec_ini_text());
        v
    }
}

impl IntoIniValue for i64 {
    open spec fn spec_ini_text(&self) -> Seq<u8> {
        long_repr(*self as int)
    }

    fn into_ini_value(self) -> (r: Vec<u8>) {
        long_to_bytes(self)
    }
}

impl IntoIniValue for Vec<u8> {
    open spec fn spec_ini_text(&self) -> Seq<u8> {
        self@
    }

    fn into_ini_value(self) -> (r: Vec<u8>) {
        self
    }
}

/// The definition an ini entry is registered from, like
/// `zend_ini_entry_def`.
#[derive(Debug)]
pub struct IniEntryDef {
    name: Vec<u8>,
    value: Vec<u8>,
    modifiable: u8,
    name_length: u16,
    value_length: u32,
}

impl IniEntryDef {
    /// The name, as its length cuts it.
    pub closed spec fn spec_name(&self) -> Seq<u8> {
        self.name@
    }

    /// The default value, as its length cuts it.
    pub closed spec fn spec_value(&self) -> Seq<u8> {
        self.value@
    }

    /// Where the entry may be changed.
    pub closed spec fn spec_modifiable(&self) -> u8 {
        self.modifiable
    }
}

/// Builds the definition of an ini entry; the lengths are kept in the
/// widths the engine uses, so a name of 65536 bytes or more is cut.
pub fn create_ini_entry(name: &[u8], default_value: &[u8], modifiable: u32) -> (r: IniEntryDef)
    ensures
        r.spec_name() == name@.take((name@.len() as u16) as int),
        r.spec_value() == default_value@.take((default_value@.len() as u32) as int),
        r.spec_modifiable() == modifiable as u8,
{
    let name_length: u16 = #[verifier::truncate] (name.len() as u16);
    let value_length: u32 = #[verifier::truncate] (default_value.len() as u32);
    let nl = name.len();
    let vl = default_value.len();
    assert((nl as u16) as usize <= nl) by (bit_vector);
    assert((vl as u32) as usize <= vl) by (bit_vector);
    IniEntryDef {
        name: prefix(name, name_length as usize),
        value: prefix(default_value, value_length as usize),
        modifiable: #[verifier::truncate] (modifiable as u8),
        name_length,
        value_length,
    }
}

fn prefix(s: &[u8], n: usize) -> (r: Vec<u8>)
    requires
        n <= s@.len(),
    ensures
        r@ == s@.take(n as int),
{
    let mut out: Vec<u8> = Vec::new();
    let mut i: usize = 0;
    while i < n
        invariant
            0 <= i <= n <= s@.len(),
            out@ == s@.take(i as int),
        decreases n - i,
    {
        out.push(s[i]);
        i = i + 1;
        assert(out@ =~= s@.take(i as int));
    }
    out
}

/// Builder for declaring an ini entry of a module.
#[derive(Debug)]
pub struct IniEntity {
    name: Vec<u8>,
    default_value: Vec<u8>,
    policy: Policy,
}

impl IniEntity {
    /// The name.
    pub closed spec fn spec_name(&self) -> Seq<u8> {
        self.name@
    }

    /// The text of the default value.
    pub closed spec fn spec_default_value(&self) -> Seq<u8> {
        self.default_value@
    }

    /// Where the entry may be changed.
    pub closed spec fn spec_policy(&self) -> Policy {
        self.policy
    }

    /// Declares an entry with its default value and policy.
    pub fn new<T: IntoIniValue>(name: &[u8], default_value: T, policy: Policy) -> (r: Self)
        ensures
            r.spec_name() == name@,
            r.spec_default_value() == default_value.spec_ini_text(),
            r.spec_policy() == policy,
    {
        IniEntity {
            name: vstd::slice::slice_to_vec(name),
            default_value: default_value.into_ini_value(),
            policy,
        }
    }

    /// The definition the entry is registered from.
    pub fn entry(&self) -> (r: IniEntryDef)
        ensures
            r.spec_name() == self.spec_name().take((self.spec_name().len() as u16) as int),
            r.spec_value() == self.spec_default_value().take(
                (self.spec_default_value().len() as u32) as int,
            ),
            r.spec_modifiable() == self.spec_policy().spec_raw() as u8,
    {
        create_ini_entry(self.name.as_slice(), self.default_value.as_slice(), self.policy.raw())
    }
}

/// A registered ini entry: its name, its value, and the module it belongs
/// to.
pub type IniModel = (Seq<u8>, Seq<u8>, i32);

/// The value of the first entry named `name`.
pub open spec fn ini_lookup(es: Seq<IniModel>, name: Seq<u8>) -> Option<Seq<u8>>
    decreases es.len(),
{
    if es.len() == 0 {
        None
    } else if es[0].0 == name {
        Some(es[0].1)
    } else {
        ini_lookup(es.drop_first(), name)
    }
}

/// The entries that do not belong to `module`.
pub open spec fn without_module(es: Seq<IniModel>, module: i32) -> Seq<IniModel>
    decreases es.len(),
{
    if es.len() == 0 {
        es
    } else {
        let rest = without_module(es.drop_last(), module);
        if es.last().2 == module {
            rest
        } else {
            rest.push(es.last())
        }
    }
}

/// The entries that registering `defs` for `module` adds.
pub open spec fn def_entries(defs: Seq<IniEntryDef>, module: i32) -> Seq<IniModel> {
    defs.map_values(|d: IniEntryDef| (d.spec_name(), d.spec_value(), module))
}

/// No two of the entries and the definitions share a name.
pub open spec fn fresh_names(es: Seq<IniModel>, defs: Seq<IniEntryDef>) -> bool {
    &&& forall|i: int, j: int|
        0 <= i < j < defs.len() ==> (#[trigger] defs[i]).spec_name() != (#[trigger] defs[j]).spec_name()
    &&& forall|i: int, j: int|
        0 <= i < es.len() && 0 <= j < defs.len() ==> (#[trigger] es[i]).0 != (
        #[trigger] defs[j]).spec_name()
}

/// The engine's table of ini entries.
#[derive(Debug)]
pub struct IniTable {
    entries: Vec<(Vec<u8>, Vec<u8>, i32)>,
}

/// The view of stored entries.
pub open spec fn entries_view(es: Seq<(Vec<u8>, Vec<u8>, i32)>) -> Seq<IniModel> {
    es.map_values(|e: (Vec<u8>, Vec<u8>, i32)| (e.0@, e.1@, e.2))
}

impl IniTable {
    /// The entries, in the order they were registered.
    pub closed spec fn spec_entries(&self) -> Seq<IniModel> {
        entries_view(self.entries@)
    }

    /// A table with no entries.
    pub fn new() -> (r: Self)
        ensures
            r.spec_entries() == Seq::<IniModel>::empty(),
    {
        let r = IniTable { entries: Vec::new() };
        assert(r.spec_entries() =~= Seq::<IniModel>::empty());
        r
    }

    /// The value of the entry named `name`, if there is one.
    pub fn lookup(&self, name: &[u8]) -> (r: Option<&[u8]>)
        ensures
            match r {
                Some(v) => ini_lookup(self.spec_entries(), name@) == Some(v@),
                None => ini_lookup(self.spec_entries(), name@) is None,
            },
    {
        let ghost es = self.spec_entries();
        let n = self.entries.len();
        let mut i: usize = 0;
        assert(es.skip(0) =~= es);
        while i < n
            invariant
                0 <= i <= n,
                n == self.entries@.len(),
                es == self.spec_entries(),
                ini_lookup(es, name@) == ini_lookup(es.skip(i as int), name@),
            decreases n - i,
        {
            proof {
                assert(es.skip(i as int).drop_first() =~= es.skip(i as int + 1));
                assert(es.skip(i as int)[0] == es[i as int]);
            }
            if bytes_eq(self.entries[i].0.as_slice(), name) {
                return Some(self.entries[i].1.as_slice());
            }
            i = i + 1;
        }
        assert(es.skip(n as int).len() == 0);
        None
    }

    /// Registers the entries of a module. When a name is taken, or given
    /// twice, every entry of the module is removed again and the result is
    /// `false`.
    pub fn register(&mut self, defs: &Vec<IniEntryDef>, module_number: i32) -> (r: bool)
        ensures
            r == fresh_names(old(self).spec_entries(), defs@),
            r ==> final(self).spec_entries() == old(self).spec_entries() + def_entries(
                defs@,
                module_number,
            ),
            !r ==> final(self).spec_entries() == without_module(
                old(self).spec_entries(),
                module_number,
            ),
    {
        let ghost es = self.spec_entries();
        let n = defs.len();
        let m = self.entries.len();
        let mut i: usize = 0;
        while i < n
            invariant
                0 <= i <= n,
                n == defs@.len(),
                m == self.entries@.len(),
                es == self.spec_entries(),
                es == old(self).spec_entries(),
                forall|a: int, b: int|
                    0 <= a < b < i ==> (#[trigger] defs@[a]).spec_name() != (
                    #[trigger] defs@[b]).spec_name(),
                forall|a: int, b: int|
                    0 <= a < es.len() && 0 <= b < i ==> (#[trigger] es[a]).0 != (
                    #[trigger] defs@[b]).spec_name(),
            decreases n - i,
        {
            let mut j: usize = 0;
            while j < i
                invariant
                    0 <= j <= i < n,
                    n == defs@.len(),
                    m == self.entries@.len(),
                    es == self.spec_entries(),
                    es == old(self).spec_entries(),
                    forall|a: int, b: int|
                        0 <= a < b < i ==> (#[trigger] defs@[a]).spec_name() != (
                        #[trigger] defs@[b]).spec_name(),
                    forall|a: int, b: int|
                        0 <= a < es.len() && 0 <= b < i ==> (#[trigger] es[a]).0 != (
                        #[trigger] defs@[b]).spec_name(),
                    forall|a: int| 0 <= a < j ==> (#[trigger] defs@[a]).spec_name() != defs@[i as int].spec_name(),
                decreases i - j,
            {
                if bytes_eq(defs[j].name.as_slice(), defs[i].name.as_slice()) {
                    self.unregister(module_number);
                    return false;
                }
                j = j + 1;
            }
            let mut k: usize = 0;
            while k < m
                invariant
                    0 <= k <= m,
                    i < n,
                    n == defs@.len(),
                    m == self.entries@.len(),
                    es == self.spec_entries(),
                    es == old(self).spec_entries(),
                    forall|a: int, b: int|
                        0 <= a < b < i ==> (#[trigger] defs@[a]).spec_name() != (
                        #[trigger] defs@[b]).spec_name(),
                    forall|a: int, b: int|
                        0 <= a < es.len() && 0 <= b < i ==> (#[trigger] es[a]).0 != (
                        #[trigger] defs@[b]).spec_name(),
                    forall|a: int| 0 <= a < i ==> (#[trigger] defs@[a]).spec_name() != defs@[i as int].spec_name(),
                    forall|a: int| 0 <= a < k ==> (#[trigger] es[a]).0 != defs@[i as int].spec_name(),
                decreases m - k,
            {
                if bytes_eq(self.entries[k].0.as_slice(), defs[i].name.as_slice()) {
                    assert(es[k as int].0 == defs@[i as int].spec_name());
                    self.unregister(module_number);
                    return false;
                }
                k = k + 1;
            }
            i = i + 1;
        }
        let mut i: usize = 0;
        while i < n
            invariant
                0 <= i <= n,
                n == defs@.len(),
                self.spec_entries() == es + def_entries(defs@, module_number).take(i as int),
            decreases n - i,
        {
            let d = &defs[i];
            let ghost prev = self.entries@;
            self.entries.push(
                (
                    vstd::slice::slice_to_vec(d.name.as_slice()),
                    vstd::slice::slice_to_vec(d.value.as_slice()),
                    module_number,
                ),
            );
            assert(entries_view(self.entries@) =~= entries_view(prev).push(
                (defs@[i as int].spec_name(), defs@[i as int].spec_value(), module_number),
            ));
            assert(def_entries(defs@, module_number).take(i as int + 1) =~= def_entries(
                defs@,
                module_number,
            ).take(i as int).push(
                (defs@[i as int].spec_name(), defs@[i as int].spec_value(), module_number),
            ));
            i = i + 1;
            assert(self.spec_entries() =~= es + def_entries(defs@, module_number).take(i as int));
        }
        assert(def_entries(defs@, module_number).take(n as int) =~= def_entries(defs@, module_number));
        true
    }

    /// Removes every entry of a module.
    pub fn unregister(&mut self, module_number: i32)
        ensures
            final(self).spec_entries() == without_module(old(self).spec_entries(), module_number),
    {
        let ghost es = self.spec_entries();
        let mut kept: Vec<(Vec<u8>, Vec<u8>, i32)> = Vec::new();
        let n = self.entries.len();
        let mut i: usize = 0;
        while i < n
            invariant
                0 <= i <= n,
                n == self.entries@.len(),
                es == self.spec_entries(),
                entries_view(kept@) == without_module(es.take(i as int), module_number),
            decreases n - i,
        {
            proof {
                let t = es.take(i as int + 1);
                assert(t.drop_last() =~= es.take(i as int));
                assert(t.last() == es[i as int]);
            }
            let e = &self.entries[i];
            if e.2 != module_number {
                let ghost prev = kept@;
                kept.push(
                    (vstd::slice::slice_to_vec(e.0.as_slice()), vstd::slice::slice_to_vec(e.1.as_slice()), e.2),
                );
                assert(entries_view(kept@) =~= entries_view(prev).push(es[i as int]));
            }
            i = i + 1;
        }
        assert(es.take(n as int) =~= es);
        self.entries = kept;
    }
}

/// The texts that read as `true`.
pub open spec fn ini_true(s: Seq<u8>) -> bool {
    ||| s == seq![49u8]
    ||| s == seq![116u8, 114u8, 117u8, 101u8]
    ||| s == seq![111u8, 110u8]
    ||| s == seq![79u8, 110u8]
}

/// A type that the value of an ini entry can be read as.
pub trait FromIniValue: Sized {
    /// `r` is what the value `v` of an entry (`None` for no entry) reads
    /// as.
    spec fn spec_reads_as(v: Option<Seq<u8>>, r: Self) -> bool;

    /// Reads the value of the entry named `name`.
    fn from_ini_value(table: &IniTable, name: &[u8]) -> (r: Self)
        ensures
            Self::spec_reads_as(ini_lookup(table.spec_entries(), name@), r),
    ;
}

impl FromIniValue for Option<Vec<u8>> {
    /// The text up to its first NUL, as C sees it.
    open spec fn spec_reads_as(v: Option<Seq<u8>>, r: Self) -> bool {
        match v {
            Some(s) => r matches Some(t) && t@ == until_nul(s),
            None => r is None,
        }
    }

    fn from_ini_value(table: &IniTable, name: &[u8]) -> (r: Self) {
        match table.lookup(name) {
            Some(v) => Some(copy_until_nul(v)),
            None => None,
        }
    }
}

impl FromIniValue for bool {
    /// `1`, `true`, `on` and `On` are true; anything else, and no entry, is
    /// false.
    open spec fn spec_reads_as(v: Option<Seq<u8>>, r: Self) -> bool {
        r == (v matches Some(s) && ini_true(until_nul(s)))
    }

    fn from_ini_value(table: &IniTable, name: &[u8]) -> (r: Self) {
        match <Option<Vec<u8>> as FromIniValue>::from_ini_value(table, name) {
            Some(t) => {
                let b = t.as_slice();
                let one: [u8; 1] = [49u8];
                let tru: [u8; 4] = [116u8, 114u8, 117u8, 101u8];
                let on: [u8; 2] = [111u8, 110u8];
                let on2: [u8; 2] = [79u8, 110u8];
                assert(one@ =~= seq![49u8]);
                assert(tru@ =~= seq![116u8, 114u8, 117u8, 101u8]);
                assert(on@ =~= seq![111u8, 110u8]);
                assert(on2@ =~= seq![79u8, 110u8]);
                bytes_eq(b, one.as_slice()) || bytes_eq(b, tru.as_slice()) || bytes_eq(b, on.as_slice())
                    || bytes_eq(b, on2.as_slice())
            },
            None => false,
        }
    }
}

impl FromIniValue for i64 {
    /// The value read as C's `strtol` with base 0 reads it; 0 for no entry.
    open spec fn spec_reads_as(v: Option<Seq<u8>>, r: Self) -> bool {
        r == match v {
            Some(s) => strtol(s),
            None => 0,
        }
    }

    fn from_ini_value(table: &IniTable, name: &[u8]) -> (r: Self) {
        match table.lookup(name) {
            Some(v) => strtol_bytes(v),
            None => 0,
        }
    }
}

/// Gets the value of the ini entry named `name`, read as `T`.
pub fn ini_get<T: FromIniValue>(table: &IniTable, name: &[u8]) -> (r: T)
    ensures
        T::spec_reads_as(ini_lookup(table.spec_entries(), name@), r),
{
    T::from_ini_value(table, name)
}

/// A boolean default reads back as itself.
pub proof fn lemma_ini_bool_roundtrip(b: bool)
    ensures
        <bool as FromIniValue>::spec_reads_as(Some(b.spec_ini_text()), b),
{
    let t = b.spec_ini_text();
    assert(until_nul(t.drop_first()) =~= Seq::<u8>::empty());
    assert(until_nul(t) =~= t);
    if !b {
        assert(t[0] == 48u8);
        assert(!ini_true(t)) by {
            assert(seq![49u8][0] == 49u8);
        }
    }
}

/// An integer default reads back as itself.
pub proof fn lemma_ini_long_roundtrip(n: i64)
    ensures
        <i64 as FromIniValue>::spec_reads_as(Some(n.spec_ini_text()), n),
{
    lemma_strtol_long_repr(n);
}

proof fn lemma_lookup_skip(a: Seq<IniModel>, b: Seq<IniModel>, name: Seq<u8>)
    requires
        forall|i: int| 0 <= i < a.len() ==> (#[trigger] a[i]).0 != name,
    ensures
        ini_lookup(a + b, name) == ini_lookup(b, name),
    decreases a.len(),
{
    if a.len() > 0 {
        assert((a + b)[0] == a[0]);
        assert((a + b).drop_first() =~= a.drop_first() + b);
        assert forall|i: int| 0 <= i < a.drop_first().len() implies (#[trigger] a.drop_first()[i]).0
            != name by {
            assert(a.drop_first()[i] == a[i + 1]);
        }
        lemma_lookup_skip(a.drop_first(), b, name);
    } else {
        assert(a + b =~= b);
    }
}

proof fn lemma_lookup_first(b: Seq<IniModel>, k: int, name: Seq<u8>)
    requires
        0 <= k < b.len(),
        b[k].0 == name,
        forall|j: int| 0 <= j < k ==> (#[trigger] b[j]).0 != name,
    ensures
        ini_lookup(b, name) == Some(b[k].1),
    decreases k,
{
    if k > 0 {
        assert forall|j: int| 0 <= j < k - 1 implies (#[trigger] b.drop_first()[j]).0 != name by {
            assert(b.drop_first()[j] == b[j + 1]);
        }
        lemma_lookup_first(b.drop_first(), k - 1, name);
    }
}

/// Once the entries of a module are registered, each of them reads back
/// its default value.
pub proof fn lemma_registered_ini_found(
    es: Seq<IniModel>,
    defs: Seq<IniEntryDef>,
    module_number: i32,
    k: int,
)
    requires
        fresh_names(es, defs),
        0 <= k < defs.len(),
    ensures
        ini_lookup(es + def_entries(defs, module_number), defs[k].spec_name()) == Some(
            defs[k].spec_value(),
        ),
{
    let name = defs[k].spec_name();
    let b = def_entries(defs, module_number);
    assert forall|i: int| 0 <= i < es.len() implies (#[trigger] es[i]).0 != name by {
        assert(es[i].0 != defs[k].spec_name());
    }
    lemma_lookup_skip(es, b, name);
    assert forall|j: int| 0 <= j < k implies (#[trigger] b[j]).0 != name by {
        assert(defs[j].spec_name() != defs[k].spec_name());
    }
    lemma_lookup_first(b, k, name);
}

} // verus!

verus! {

/// The name and default value that an entity registers, as the widths of
/// the definition cut them.
pub open spec fn entity_def(e: IniEntity) -> (Seq<u8>, Seq<u8>) {
    (
        e.spec_name().take((e.spec_name().len() as u16) as int),
        e.spec_default_value().take((e.spec_default_value().len() as u32) as int),
    )
}

/// The entries that registering the entities for `module` adds.
pub open spec fn entity_entries(ents: Seq<IniEntity>, module: i32) -> Seq<IniModel> {
    ents.map_values(|e: IniEntity| (entity_def(e).0, entity_def(e).1, module))
}

/// No two of the entries and the entities share a name.
pub open spec fn fresh_entities(es: Seq<IniModel>, ents: Seq<IniEntity>) -> bool {
    &&& forall|i: int, j: int|
        0 <= i < j < ents.len() ==> entity_def(#[trigger] ents[i]).0 != entity_def(
            #[trigger] ents[j],
        ).0
    &&& forall|i: int, j: int|
        0 <= i < es.len() && 0 <= j < ents.len() ==> (#[trigger] es[i]).0 != entity_def(
            #[trigger] ents[j],
        ).0
}

proof fn lemma_without_absent_module(es: Seq<IniModel>, module: i32)
    requires
        forall|i: int| 0 <= i < es.len() ==> (#[trigger] es[i]).2 != module,
    ensures
        without_module(es, module) == es,
    decreases es.len(),
{
    if es.len() > 0 {
        lemma_without_absent_module(es.drop_last(), module);
        assert(es.drop_last().push(es.last()) =~= es);
    }
}

proof fn lemma_without_own_entries(es: Seq<IniModel>, added: Seq<IniModel>, module: i32)
    requires
        forall|i: int| 0 <= i < added.len() ==> (#[trigger] added[i]).2 == module,
    ensures
        without_module(es + added, module) == without_module(es, module),
    decreases added.len(),
{
    if added.len() > 0 {
        assert((es + added).drop_last() =~= es + added.drop_last());
        assert((es + added).last() == added.last());
        lemma_without_own_entries(es, added.drop_last(), module);
    } else {
        assert(es + added =~= es);
    }
}

/// Shutting a module down undoes its startup: unregistering its entries,
/// whether their registration went through or was refused, leaves a table
/// that held none of the module's entries as it was.
pub proof fn lemma_unregister_undoes_register(es: Seq<IniModel>, ents: Seq<IniEntity>, module: i32)
    requires
        forall|i: int| 0 <= i < es.len() ==> (#[trigger] es[i]).2 != module,
    ensures
        without_module(es + entity_entries(ents, module), module) == es,
        without_module(without_module(es, module), module) == es,
{
    lemma_without_absent_module(es, module);
    lemma_without_own_entries(es, entity_entries(ents, module), module);
}

/// Registers the entries of a module, as [`IniTable::register`] does with
/// their definitions.
pub fn register(ini_entries: &Vec<IniEntity>, table: &mut IniTable, module_number: i32) -> (r: bool)
    ensures
        r == fresh_entities(old(table).spec_entries(), ini_entries@),
        r ==> final(table).spec_entries() == old(table).spec_entries() + entity_entries(
            ini_entries@,
            module_number,
        ),
        !r ==> final(table).spec_entries() == without_module(
            old(table).spec_entries(),
            module_number,
        ),
{
    let ghost ents = ini_entries@;
    let mut defs: Vec<IniEntryDef> = Vec::new();
    let n = ini_entries.len();
    let mut i: usize = 0;
    while i < n
        invariant
            0 <= i <= n,
            n == ini_entries@.len(),
            ents == ini_entries@,
            defs@.len() == i,
            forall|j: int|
                0 <= j < i ==> (#[trigger] defs@[j]).spec_name() == entity_def(ents[j]).0
                    && defs@[j].spec_value() == entity_def(ents[j]).1,
        decreases n - i,
    {
        defs.push(ini_entries[i].entry());
        i = i + 1;
    }
    let ghost es = table.spec_entries();
    assert(def_entries(defs@, module_number) =~= entity_entries(ents, module_number));
    assert(fresh_names(es, defs@) == fresh_entities(es, ents)) by {
        if fresh_names(es, defs@) {
            assert forall|a: int, b: int| 0 <= a < b < ents.len() implies entity_def(
                #[trigger] ents[a],
            ).0 != entity_def(#[trigger] ents[b]).0 by {
                assert(defs@[a].spec_name() != defs@[b].spec_name());
            }
            assert forall|a: int, b: int| 0 <= a < es.len() && 0 <= b < ents.len() implies (
            #[trigger] es[a]).0 != entity_def(#[trigger] ents[b]).0 by {
                assert(es[a].0 != defs@[b].spec_name());
            }
        }
        if fresh_entities(es, ents) {
            assert forall|a: int, b: int| 0 <= a < b < defs@.len() implies (
            #[trigger] defs@[a]).spec_name() != (#[trigger] defs@[b]).spec_name() by {
                assert(entity_def(ents[a]).0 != entity_def(ents[b]).0);
            }
            assert forall|a: int, b: int| 0 <= a < es.len() && 0 <= b < defs@.len() implies (
            #[trigger] es[a]).0 != (#[trigger] defs@[b]).spec_name() by {
                assert(es[a].0 != entity_def(ents[b]).0);
            }
        }
    }
    table.register(&defs, module_number)
}

/// Removes every entry of a module.
pub fn unregister(table: &mut IniTable, module_number: i32)
    ensures
        final(table).spec_entries() == without_module(old(table).spec_entries(), module_number),
{
    table.unregister(module_number);
}

} // verus!

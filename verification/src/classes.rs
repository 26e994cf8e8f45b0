//! Classes, like `zend_class_entry`, and the table that registers them.

use vstd::prelude::*;
use vstd::string::{is_ascii, StringSliceAdditionalSpecFns};
use vstd::utf8::{encode_utf8, valid_utf8};
use crate::arrays::{
    distinct_keys, find_key, lemma_distinct_keys_preserved, lemma_find_key_at,
    lemma_find_key_none, lemma_update_map, lookup, model_update, ArrModel, KeyModel, ZArr,
};
use crate::errors::{ClassNotFoundError, CloneObjectError, Error, InitializeObjectError};
use crate::functions::{c_name, until_nul, MethodEntity};
use crate::objects::{StateObj, ZObj};
use crate::strings::{lowercase_bytes, unicode_lowercase, ZStr};
use crate::types::Scalar;
use crate::utils::{
    ascii, ascii_lowercase, ensure_end_with_zero, eq_ignore_ascii_case, lit, to_ascii_lowercase,
};
use crate::values::{copy_of, scalar_view, ScalarModel, ZVal};

verus! {

/// Access flag of public members.
pub const ZEND_ACC_PUBLIC: u32 = 1;
/// Access flag of protected members.
pub const ZEND_ACC_PROTECTED: u32 = 2;
/// Access flag of private members.
pub const ZEND_ACC_PRIVATE: u32 = 4;
/// Flag of static members.
pub const ZEND_ACC_STATIC: u32 = 0x10;
/// Flag of abstract methods.
pub const ZEND_ACC_ABSTRACT: u32 = 0x40;
/// Class flag of interfaces.
pub const ZEND_ACC_INTERFACE: u32 = 0x1;
/// Class flag of traits.
pub const ZEND_ACC_TRAIT: u32 = 0x2;
/// Class flag of classes that are abstract because of an abstract method.
pub const ZEND_ACC_IMPLICIT_ABSTRACT_CLASS: u32 = 0x10;
/// Class flag of classes declared abstract.
pub const ZEND_ACC_EXPLICIT_ABSTRACT_CLASS: u32 = 0x40;
/// Class flag of enums.
pub const ZEND_ACC_ENUM: u32 = 0x1000_0000;
/// The class flags that forbid making an instance.
pub const ZEND_ACC_UNINSTANTIABLE: u32 = 0x1000_0053;

/// Visibility of class properties and methods.
#[derive(Debug, Copy, Clone, PartialEq, Eq, Structural)]
pub enum Visibility {
    /// Public.
    Public,
    /// Protected.
    Protected,
    /// Private.
    Private,
}

impl Visibility {
    /// The access flag of the visibility.
    pub open spec fn spec_raw(self) -> u32 {
        match self {
            Visibility::Public => ZEND_ACC_PUBLIC,
            Visibility::Protected => ZEND_ACC_PROTECTED,
            Visibility::Private => ZEND_ACC_PRIVATE,
        }
    }

    /// The access flag of the visibility.
    pub fn raw(self) -> (r: u32)
        ensures
            r == self.spec_raw(),
    {
        match self {
            Visibility::Public => ZEND_ACC_PUBLIC,
            Visibility::Protected => ZEND_ACC_PROTECTED,
            Visibility::Private => ZEND_ACC_PRIVATE,
        }
    }
}

/// Each visibility has an access flag of its own: two visibilities share a
/// flag only when they are the same; every flag is one of
/// `ZEND_ACC_PUBLIC`, `ZEND_ACC_PROTECTED` and `ZEND_ACC_PRIVATE` (the
/// engine's bits 1, 2 and 4), each of them is used, and a more open
/// visibility has the lower bit.
pub proof fn lemma_visibility_flags(a: Visibility, b: Visibility)
    ensures
        a.spec_raw() == b.spec_raw() ==> a == b,
        a.spec_raw() == ZEND_ACC_PUBLIC || a.spec_raw() == ZEND_ACC_PROTECTED || a.spec_raw()
            == ZEND_ACC_PRIVATE,
        exists|v: Visibility| #[trigger] v.spec_raw() == ZEND_ACC_PUBLIC,
        exists|v: Visibility| #[trigger] v.spec_raw() == ZEND_ACC_PROTECTED,
        exists|v: Visibility| #[trigger] v.spec_raw() == ZEND_ACC_PRIVATE,
        Visibility::Public.spec_raw() < Visibility::Protected.spec_raw(),
        Visibility::Protected.spec_raw() < Visibility::Private.spec_raw(),
        ZEND_ACC_PUBLIC == 1 && ZEND_ACC_PROTECTED == 2 && ZEND_ACC_PRIVATE == 4,
{
    assert(Visibility::Public.spec_raw() == ZEND_ACC_PUBLIC);
    assert(Visibility::Protected.spec_raw() == ZEND_ACC_PROTECTED);
    assert(Visibility::Private.spec_raw() == ZEND_ACC_PRIVATE);
}

impl Default for Visibility {
    fn default() -> (r: Self)
        ensures
            r == Visibility::Public,
    {
        Visibility::Public
    }
}

/// The place of `stdClass` in a new class table.
pub const STD_CLASS: usize = 0;
/// The place of the interface `Traversable`.
pub const TRAVERSABLE: usize = 1;
/// The place of the interface `Iterator`.
pub const ITERATOR: usize = 2;
/// The place of the interface `ArrayAccess`.
pub const ARRAY_ACCESS: usize = 3;
/// The place of the interface `Stringable`.
pub const STRINGABLE: usize = 4;
/// The place of the interface `Throwable`.
pub const THROWABLE: usize = 5;
/// The place of `Exception`.
pub const EXCEPTION: usize = 6;
/// The place of `ErrorException`.
pub const ERROR_EXCEPTION: usize = 7;
/// The place of `Error`.
pub const ERROR: usize = 8;
/// The place of `TypeError`.
pub const TYPE_ERROR: usize = 9;
/// The place of `ArgumentCountError`.
pub const ARGUMENT_COUNT_ERROR: usize = 10;
/// The place of `ArithmeticError`.
pub const ARITHMETIC_ERROR: usize = 11;
/// The place of `DivisionByZeroError`.
pub const DIVISION_BY_ZERO_ERROR: usize = 12;
/// The place of `CompileError`.
pub const COMPILE_ERROR: usize = 13;
/// The place of `ParseError`.
pub const PARSE_ERROR: usize = 14;
/// The number of classes in a new class table.
pub const BUILTIN_CLASSES: usize = 15;

/// The key of a declared property or constant in a default table.
pub open spec fn decl_model(d: (Vec<u8>, Scalar)) -> (KeyModel, ScalarModel) {
    (KeyModel::Str(d.0@), d.1.model())
}

/// The table that a list of declarations stands for.
pub open spec fn decls_model(ds: Seq<(Vec<u8>, Scalar)>) -> Seq<(KeyModel, ScalarModel)> {
    ds.map_values(|d: (Vec<u8>, Scalar)| decl_model(d))
}

/// The scalar content of a property table.
pub open spec fn scalar_props(m: ArrModel) -> Seq<(KeyModel, ScalarModel)> {
    m.map_values(|e: (KeyModel, ZVal)| (e.0, scalar_view(e.1)))
}

/// Wrapper of a registered class.
#[derive(Debug)]
pub struct ClassEntry {
    id: usize,
    name: ZStr,
    parent: Option<usize>,
    interfaces: Vec<usize>,
    flags: u32,
    methods: Vec<ZStr>,
    properties: Vec<(Vec<u8>, Scalar)>,
    property_flags: Vec<(Vec<u8>, u32)>,
    static_properties: ZArr,
    constants: Vec<(Vec<u8>, Scalar)>,
}

impl ClassEntry {
    #[verifier::type_invariant]
    spec fn inv(self) -> bool {
        &&& distinct_keys(decls_model(self.properties@))
        &&& distinct_keys(decls_model(self.constants@))
    }

    /// The access flags of the declared properties, by name.
    pub closed spec fn spec_property_flags(&self) -> Seq<(KeyModel, u32)> {
        flags_model(self.property_flags@)
    }

    /// The place of the class in its class table.
    pub closed spec fn spec_id(&self) -> usize {
        self.id
    }

    /// The name of the class.
    pub closed spec fn spec_name(&self) -> Seq<u8> {
        self.name@
    }

    /// The parent class, by its place in the table.
    pub closed spec fn spec_parent(&self) -> Option<usize> {
        self.parent
    }

    /// The interfaces the class implements, by their places in the table.
    pub closed spec fn spec_interfaces(&self) -> Seq<usize> {
        self.interfaces@
    }

    /// The class flags.
    pub closed spec fn spec_flags(&self) -> u32 {
        self.flags
    }

    /// The keys of the method table (lower-case method names).
    pub closed spec fn spec_methods(&self) -> Seq<Seq<u8>> {
        self.methods@.map_values(|m: ZStr| m@)
    }

    /// The defaults of instance properties, inherited ones included.
    pub closed spec fn spec_properties(&self) -> Seq<(KeyModel, ScalarModel)> {
        decls_model(self.properties@)
    }

    /// The static properties.
    pub closed spec fn spec_static_properties(&self) -> ArrModel {
        self.static_properties.model()
    }

    /// The class constants.
    pub closed spec fn spec_constants(&self) -> Seq<(KeyModel, ScalarModel)> {
        decls_model(self.constants@)
    }

    /// Gets the place of the class in its class table.
    pub fn id(&self) -> (r: usize)
        ensures
            r == self.spec_id(),
    {
        self.id
    }

    /// Gets the class name.
    pub fn get_name(&self) -> (r: &ZStr)
        ensures
            r@ == self.spec_name(),
    {
        &self.name
    }

    /// Gets the class flags.
    pub fn flags(&self) -> (r: u32)
        ensures
            r == self.spec_flags(),
    {
        self.flags
    }

    /// Gets the parent class, by its place in the table.
    pub fn parent(&self) -> (r: Option<usize>)
        ensures
            r == self.spec_parent(),
    {
        self.parent
    }

    /// Detects if the method exists in the class's method table.
    pub fn has_method(&self, method_name: &[u8]) -> (r: bool)
        ensures
            r == self.spec_methods().contains(method_name@),
    {
        let n = self.methods.len();
        let mut i: usize = 0;
        while i < n
            invariant
                0 <= i <= n,
                n == self.methods@.len(),
                forall|j: int| 0 <= j < i ==> self.spec_methods()[j] != method_name@,
            decreases n - i,
        {
            if self.methods[i].eq_bytes(method_name) {
                assert(self.spec_methods()[i as int] == method_name@);
                return true;
            }
            i = i + 1;
        }
        proof {
            if self.spec_methods().contains(method_name@) {
                let j = choose|j: int|
                    0 <= j < self.spec_methods().len() && self.spec_methods()[j] == method_name@;
                assert(self.spec_methods()[j] != method_name@);
            }
        }
        false
    }

    /// Gets the value of a class constant by name.
    pub fn get_constant(&self, name: &[u8]) -> (r: Option<&Scalar>)
        ensures
            match r {
                Some(v) => lookup(self.spec_constants(), KeyModel::Str(name@)) == Some(v.model()),
                None => lookup(self.spec_constants(), KeyModel::Str(name@)) is None,
            },
    {
        match find_decl(&self.constants, name) {
            Some(i) => Some(&self.constants[i].1),
            None => None,
        }
    }

    /// Gets the static property by name; `None` when the class has none of
    /// that name.
    pub fn get_static_property(&self, name: &[u8]) -> (r: Option<&ZVal>)
        ensures
            match r {
                Some(v) => lookup(self.spec_static_properties(), KeyModel::Str(name@)) == Some(*v),
                None => lookup(self.spec_static_properties(), KeyModel::Str(name@)) is None,
            },
    {
        self.static_properties.str_find(name)
    }

    /// Sets the static property by name and returns its previous value;
    /// `None`, with nothing changed, when the class has no static property of
    /// that name.
    pub fn set_static_property(&mut self, name: &[u8], val: ZVal) -> (r: Option<ZVal>)
        ensures
            match lookup(old(self).spec_static_properties(), KeyModel::Str(name@)) {
                Some(prev) => r == Some(prev) && final(self).spec_static_properties() == model_update(
                    old(self).spec_static_properties(),
                    KeyModel::Str(name@),
                    val,
                ),
                None => r is None && final(self).spec_static_properties() == old(
                    self,
                ).spec_static_properties(),
            },
            final(self).same_but_statics(*old(self)),
    {
        proof {
            use_type_invariant(&*self);
        }
        let ghost m = self.static_properties.model();
        let mut statics = ZArr::new();
        std::mem::swap(&mut statics, &mut self.static_properties);
        let r = match statics.str_find_mut(name) {
            Some(p) => {
                let mut v = val;
                std::mem::swap(p, &mut v);
                Some(v)
            },
            None => None,
        };
        proof {
            match find_key(m, KeyModel::Str(name@)) {
                Some(i) => {
                    lemma_find_key_at(m, KeyModel::Str(name@), i);
                },
                None => {},
            }
        }
        std::mem::swap(&mut statics, &mut self.static_properties);
        r
    }

    /// Declares a static property with its initial value.
    pub fn declare_static_property(&mut self, name: &[u8], val: ZVal)
        ensures
            final(self).spec_static_properties() == model_update(
                old(self).spec_static_properties(),
                KeyModel::Str(name@),
                val,
            ),
            final(self).same_but_statics(*old(self)),
    {
        proof {
            use_type_invariant(&*self);
        }
        let mut statics = ZArr::new();
        std::mem::swap(&mut statics, &mut self.static_properties);
        statics.str_update(name, val);
        std::mem::swap(&mut statics, &mut self.static_properties);
    }

    /// Declares the default of an instance property.
    pub fn declare_property(&mut self, name: &[u8], value: Scalar)
        ensures
            final(self).spec_properties() == model_update(
                old(self).spec_properties(),
                KeyModel::Str(name@),
                value.model(),
            ),
            final(self).spec_static_properties() == old(self).spec_static_properties(),
            final(self).spec_id() == old(self).spec_id(),
            final(self).spec_name() == old(self).spec_name(),
            final(self).spec_parent() == old(self).spec_parent(),
            final(self).spec_interfaces() == old(self).spec_interfaces(),
            final(self).spec_flags() == old(self).spec_flags(),
            final(self).spec_methods() == old(self).spec_methods(),
            final(self).spec_constants() == old(self).spec_constants(),
            final(self).spec_property_flags() == old(self).spec_property_flags(),
    {
        proof {
            use_type_invariant(&*self);
        }
        let mut props: Vec<(Vec<u8>, Scalar)> = Vec::new();
        std::mem::swap(&mut props, &mut self.properties);
        put_decl(&mut props, name, value);
        std::mem::swap(&mut props, &mut self.properties);
    }

    /// Declares a class constant.
    pub fn declare_constant(&mut self, name: &[u8], value: Scalar)
        ensures
            final(self).spec_constants() == model_update(
                old(self).spec_constants(),
                KeyModel::Str(name@),
                value.model(),
            ),
            final(self).spec_static_properties() == old(self).spec_static_properties(),
            final(self).spec_id() == old(self).spec_id(),
            final(self).spec_name() == old(self).spec_name(),
            final(self).spec_parent() == old(self).spec_parent(),
            final(self).spec_interfaces() == old(self).spec_interfaces(),
            final(self).spec_flags() == old(self).spec_flags(),
            final(self).spec_methods() == old(self).spec_methods(),
            final(self).spec_properties() == old(self).spec_properties(),
            final(self).spec_property_flags() == old(self).spec_property_flags(),
    {
        proof {
            use_type_invariant(&*self);
        }
        let mut consts: Vec<(Vec<u8>, Scalar)> = Vec::new();
        std::mem::swap(&mut consts, &mut self.constants);
        put_decl(&mut consts, name, value);
        std::mem::swap(&mut consts, &mut self.constants);
    }

    /// Gets the access flags of the property named `name`, if it was
    /// declared.
    pub fn get_property_flags(&self, name: &[u8]) -> (r: Option<u32>)
        ensures
            r == lookup(self.spec_property_flags(), KeyModel::Str(name@)),
    {
        let ghost m = self.spec_property_flags();
        let ghost k = KeyModel::Str(name@);
        let n = self.property_flags.len();
        let mut i: usize = 0;
        while i < n
            invariant
                0 <= i <= n,
                n == self.property_flags@.len(),
                m == self.spec_property_flags(),
                k == KeyModel::Str(name@),
                forall|j: int| 0 <= j < i ==> (#[trigger] m[j]).0 != k,
            decreases n - i,
        {
            assert(m[i as int] == (KeyModel::Str(self.property_flags@[i as int].0@), self.property_flags@[i as int].1));
            if crate::strings::bytes_eq(self.property_flags[i].0.as_slice(), name) {
                proof {
                    lemma_find_key_at(m, k, i as int);
                }
                return Some(self.property_flags[i].1);
            }
            i = i + 1;
        }
        proof {
            lemma_find_key_none(m, k);
        }
        None
    }

    /// Records the access flags of the property named `name`.
    pub fn set_property_flags(&mut self, name: &[u8], flags: u32)
        ensures
            final(self).spec_property_flags() == model_update(
                old(self).spec_property_flags(),
                KeyModel::Str(name@),
                flags,
            ),
            final(self).spec_properties() == old(self).spec_properties(),
            final(self).spec_static_properties() == old(self).spec_static_properties(),
            final(self).spec_id() == old(self).spec_id(),
            final(self).spec_name() == old(self).spec_name(),
            final(self).spec_parent() == old(self).spec_parent(),
            final(self).spec_interfaces() == old(self).spec_interfaces(),
            final(self).spec_flags() == old(self).spec_flags(),
            final(self).spec_methods() == old(self).spec_methods(),
            final(self).spec_constants() == old(self).spec_constants(),
    {
        proof {
            use_type_invariant(&*self);
        }
        let mut fs: Vec<(Vec<u8>, u32)> = Vec::new();
        std::mem::swap(&mut fs, &mut self.property_flags);
        put_flag(&mut fs, name, flags);
        std::mem::swap(&mut fs, &mut self.property_flags);
    }

    /// Everything but the static properties is as in `other`.
    pub open spec fn same_but_statics(&self, other: ClassEntry) -> bool {
        &&& self.spec_id() == other.spec_id()
        &&& self.spec_name() == other.spec_name()
        &&& self.spec_parent() == other.spec_parent()
        &&& self.spec_interfaces() == other.spec_interfaces()
        &&& self.spec_flags() == other.spec_flags()
        &&& self.spec_methods() == other.spec_methods()
        &&& self.spec_properties() == other.spec_properties()
        &&& self.spec_property_flags() == other.spec_property_flags()
        &&& self.spec_constants() == other.spec_constants()
    }
}

/// The access flags kept by name.
pub open spec fn flags_model(fs: Seq<(Vec<u8>, u32)>) -> Seq<(KeyModel, u32)> {
    fs.map_values(|f: (Vec<u8>, u32)| (KeyModel::Str(f.0@), f.1))
}

/// Writes the flags of `name`, replacing those kept for it.
fn put_flag(fs: &mut Vec<(Vec<u8>, u32)>, name: &[u8], flags: u32)
    ensures
        flags_model(final(fs)@) == model_update(flags_model(old(fs)@), KeyModel::Str(name@), flags),
{
    let ghost m = flags_model(fs@);
    let ghost k = KeyModel::Str(name@);
    let n = fs.len();
    let mut i: usize = 0;
    while i < n
        invariant
            0 <= i <= n,
            n == fs@.len(),
            m == flags_model(fs@),
            k == KeyModel::Str(name@),
            fs@ == old(fs)@,
            forall|j: int| 0 <= j < i ==> (#[trigger] m[j]).0 != k,
        decreases n - i,
    {
        assert(m[i as int] == (KeyModel::Str(fs@[i as int].0@), fs@[i as int].1));
        if crate::strings::bytes_eq(fs[i].0.as_slice(), name) {
            proof {
                lemma_find_key_at(m, k, i as int);
            }
            let nm = vstd::slice::slice_to_vec(name);
            fs.set(i, (nm, flags));
            assert(flags_model(fs@) =~= m.update(i as int, (k, flags)));
            return;
        }
        assert(m[i as int] == (KeyModel::Str(fs@[i as int].0@), fs@[i as int].1));
        assert(m[i as int].0 != k);
        i = i + 1;
    }
    proof {
        lemma_find_key_none(m, k);
    }
    fs.push((vstd::slice::slice_to_vec(name), flags));
    assert(flags_model(fs@) =~= m.push((k, flags)));
}

/// Copies the flags kept by name.
fn copy_flags(fs: &Vec<(Vec<u8>, u32)>) -> (r: Vec<(Vec<u8>, u32)>)
    ensures
        flags_model(r@) == flags_model(fs@),
{
    let mut r: Vec<(Vec<u8>, u32)> = Vec::new();
    let n = fs.len();
    let mut i: usize = 0;
    while i < n
        invariant
            0 <= i <= n,
            n == fs@.len(),
            r@.len() == i,
            flags_model(r@) == flags_model(fs@).take(i as int),
        decreases n - i,
    {
        let nm = vstd::slice::slice_to_vec(fs[i].0.as_slice());
        let ghost prev = r@;
        r.push((nm, fs[i].1));
        assert forall|j: int| 0 <= j <= i implies flags_model(r@)[j] == #[trigger] flags_model(fs@)[j] by {
            if j < i {
                assert(r@[j] == prev[j]);
                assert(flags_model(prev)[j] == flags_model(fs@).take(i as int)[j]);
            }
        }
        i = i + 1;
        assert(flags_model(r@) =~= flags_model(fs@).take(i as int));
    }
    assert(flags_model(fs@).take(n as int) =~= flags_model(fs@));
    r
}

/// Finds the declaration named `name`.
fn find_decl(ds: &Vec<(Vec<u8>, Scalar)>, name: &[u8]) -> (r: Option<usize>)
    ensures
        match r {
            Some(i) => find_key(decls_model(ds@), KeyModel::Str(name@)) == Some(i as int),
            None => find_key(decls_model(ds@), KeyModel::Str(name@)) is None,
        },
{
    let ghost m = decls_model(ds@);
    let n = ds.len();
    let mut i: usize = 0;
    while i < n
        invariant
            0 <= i <= n,
            n == ds@.len(),
            m == decls_model(ds@),
            forall|j: int| 0 <= j < i ==> (#[trigger] m[j]).0 != KeyModel::Str(name@),
        decreases n - i,
    {
        if crate::strings::bytes_eq(ds[i].0.as_slice(), name) {
            proof {
                lemma_find_key_at(m, KeyModel::Str(name@), i as int);
            }
            return Some(i);
        }
        assert(m[i as int].0 != KeyModel::Str(name@));
        i = i + 1;
    }
    proof {
        lemma_find_key_none(m, KeyModel::Str(name@));
    }
    None
}

/// Writes the declaration `name = value`, replacing one of the same name.
fn put_decl(ds: &mut Vec<(Vec<u8>, Scalar)>, name: &[u8], value: Scalar)
    requires
        distinct_keys(decls_model(old(ds)@)),
    ensures
        decls_model(final(ds)@) == model_update(
            decls_model(old(ds)@),
            KeyModel::Str(name@),
            value.model(),
        ),
        distinct_keys(decls_model(final(ds)@)),
{
    let ghost m = decls_model(ds@);
    let ghost k = KeyModel::Str(name@);
    let ghost vm = value.model();
    proof {
        lemma_distinct_keys_preserved(m, k, vm);
    }
    let nm = vstd::slice::slice_to_vec(name);
    match find_decl(ds, name) {
        Some(i) => {
            ds.set(i, (nm, value));
            assert(decls_model(ds@) =~= m.update(i as int, (k, vm)));
        },
        None => {
            ds.push((nm, value));
            assert(decls_model(ds@) =~= m.push((k, vm)));
        },
    }
}

} // verus!

verus! {

/// Builder for declaring a class property.
#[derive(Debug)]
pub struct PropertyEntity {
    name: Vec<u8>,
    visibility: u32,
    value: Scalar,
}

impl PropertyEntity {
    /// The name of the property.
    pub closed spec fn spec_name(&self) -> Seq<u8> {
        self.name@
    }

    /// The access flags of the property.
    pub closed spec fn spec_visibility(&self) -> u32 {
        self.visibility
    }

    /// The default value of the property.
    pub closed spec fn spec_value(&self) -> ScalarModel {
        self.value.model()
    }

    /// The property is static.
    pub open spec fn is_static(&self) -> bool {
        self.spec_visibility() & ZEND_ACC_STATIC != 0
    }

    /// Describes a property with its visibility and default value.
    pub fn new(name: &[u8], visibility: Visibility, value: Scalar) -> (r: Self)
        ensures
            r.spec_name() == name@,
            r.spec_visibility() == visibility.spec_raw(),
            r.spec_value() == value.model(),
    {
        PropertyEntity { name: vstd::slice::slice_to_vec(name), visibility: visibility.raw(), value }
    }

    /// Marks the property static.
    pub fn set_vis_static(&mut self)
        ensures
            final(self).spec_visibility() == old(self).spec_visibility() | ZEND_ACC_STATIC,
            final(self).spec_name() == old(self).spec_name(),
            final(self).spec_value() == old(self).spec_value(),
    {
        self.visibility = self.visibility | ZEND_ACC_STATIC;
    }

    /// Declares the property on a class: a static one gets its slot in the
    /// static properties, any other one its default in the instance
    /// property defaults.
    pub fn declare(&self, ce: &mut ClassEntry)
        ensures
            self.is_static() ==> (exists|v: ZVal|
                scalar_view(v) == self.spec_value() && final(ce).spec_static_properties()
                    == #[trigger] model_update(
                    old(ce).spec_static_properties(),
                    KeyModel::Str(self.spec_name()),
                    v,
                )) && final(ce).spec_properties() == old(ce).spec_properties(),
            !self.is_static() ==> final(ce).spec_properties() == model_update(
                old(ce).spec_properties(),
                KeyModel::Str(self.spec_name()),
                self.spec_value(),
            ) && final(ce).spec_static_properties() == old(ce).spec_static_properties(),
            final(ce).spec_id() == old(ce).spec_id(),
            final(ce).spec_name() == old(ce).spec_name(),
            final(ce).spec_parent() == old(ce).spec_parent(),
            final(ce).spec_interfaces() == old(ce).spec_interfaces(),
            final(ce).spec_flags() == old(ce).spec_flags(),
            final(ce).spec_methods() == old(ce).spec_methods(),
            final(ce).spec_constants() == old(ce).spec_constants(),
            final(ce).spec_property_flags() == model_update(
                old(ce).spec_property_flags(),
                KeyModel::Str(self.spec_name()),
                self.spec_visibility(),
            ),
    {
        if self.visibility & ZEND_ACC_STATIC != 0 {
            let v = self.value.to_zval();
            let ghost gv = v;
            ce.declare_static_property(self.name.as_slice(), v);
            assert(scalar_view(gv) == self.spec_value() && ce.spec_static_properties()
                == model_update(
                old(ce).spec_static_properties(),
                KeyModel::Str(self.spec_name()),
                gv,
            ));
        } else {
            ce.declare_property(self.name.as_slice(), self.value.duplicate());
        }
        ce.set_property_flags(self.name.as_slice(), self.visibility);
    }
}

} // verus!

verus! {

/// Builder for a class or interface constant.
#[derive(Debug)]
pub struct ConstantEntity {
    name: Vec<u8>,
    value: Scalar,
}

impl ConstantEntity {
    /// The name of the constant.
    pub closed spec fn spec_name(&self) -> Seq<u8> {
        self.name@
    }

    /// The value of the constant.
    pub closed spec fn spec_value(&self) -> ScalarModel {
        self.value.model()
    }

    /// A copy of the declaration.
    pub fn duplicate(&self) -> (r: Self)
        ensures
            r.spec_name() == self.spec_name(),
            r.spec_value() == self.spec_value(),
    {
        ConstantEntity { name: vstd::slice::slice_to_vec(self.name.as_slice()), value: self.value.duplicate() }
    }

    /// Describes a constant.
    pub fn new(name: &[u8], value: Scalar) -> (r: Self)
        ensures
            r.spec_name() == name@,
            r.spec_value() == value.model(),
    {
        ConstantEntity { name: vstd::slice::slice_to_vec(name), value }
    }
}

/// Declares `constant` on the class.
pub fn add_class_constant(class_ce: &mut ClassEntry, constant: &ConstantEntity)
    ensures
        final(class_ce).spec_constants() == model_update(
            old(class_ce).spec_constants(),
            KeyModel::Str(constant.spec_name()),
            constant.spec_value(),
        ),
        final(class_ce).spec_static_properties() == old(class_ce).spec_static_properties(),
        final(class_ce).spec_id() == old(class_ce).spec_id(),
        final(class_ce).spec_name() == old(class_ce).spec_name(),
        final(class_ce).spec_parent() == old(class_ce).spec_parent(),
        final(class_ce).spec_interfaces() == old(class_ce).spec_interfaces(),
        final(class_ce).spec_flags() == old(class_ce).spec_flags(),
        final(class_ce).spec_methods() == old(class_ce).spec_methods(),
        final(class_ce).spec_properties() == old(class_ce).spec_properties(),
        final(class_ce).spec_property_flags() == old(class_ce).spec_property_flags(),
{
    class_ce.declare_constant(constant.name.as_slice(), constant.value.duplicate());
}

} // verus!

verus! {

/// The defaults that a list of property declarations leaves in `base`:
/// the static ones when `statics` holds, the others else.
pub open spec fn fold_props(
    base: Seq<(KeyModel, ScalarModel)>,
    ps: Seq<PropertyEntity>,
    statics: bool,
) -> Seq<(KeyModel, ScalarModel)>
    decreases ps.len(),
{
    if ps.len() == 0 {
        base
    } else {
        let rest = fold_props(base, ps.drop_last(), statics);
        if ps.last().is_static() == statics {
            model_update(rest, KeyModel::Str(ps.last().spec_name()), ps.last().spec_value())
        } else {
            rest
        }
    }
}

/// The access flags that a list of property declarations leaves in `base`.
pub open spec fn fold_prop_flags(base: Seq<(KeyModel, u32)>, ps: Seq<PropertyEntity>) -> Seq<
    (KeyModel, u32),
>
    decreases ps.len(),
{
    if ps.len() == 0 {
        base
    } else {
        model_update(
            fold_prop_flags(base, ps.drop_last()),
            KeyModel::Str(ps.last().spec_name()),
            ps.last().spec_visibility(),
        )
    }
}

/// The access flags of the properties a new class inherits: those of its
/// parent, or none.
pub open spec fn inherited_flags(cs: Seq<ClassEntry>, parent: Option<usize>) -> Seq<(KeyModel, u32)> {
    match parent {
        Some(p) => cs[p as int].spec_property_flags(),
        None => Seq::empty(),
    }
}

/// The constants that a list of constant declarations leaves in `base`.
pub open spec fn fold_consts(base: Seq<(KeyModel, ScalarModel)>, cs: Seq<ConstantEntity>) -> Seq<
    (KeyModel, ScalarModel),
>
    decreases cs.len(),
{
    if cs.len() == 0 {
        base
    } else {
        model_update(
            fold_consts(base, cs.drop_last()),
            KeyModel::Str(cs.last().spec_name()),
            cs.last().spec_value(),
        )
    }
}

/// `name` names the class `c`, up to ASCII case, as PHP matches class
/// names.
pub open spec fn names_class(c: ClassEntry, name: Seq<u8>) -> bool {
    ascii_lowercase(c.spec_name()) == ascii_lowercase(name)
}

/// Every class of the table knows its place, and its parent and interfaces
/// come before it.
pub open spec fn table_wf(cs: Seq<ClassEntry>) -> bool {
    &&& forall|i: int| 0 <= i < cs.len() ==> (#[trigger] cs[i]).spec_id() == i
    &&& forall|i: int|
        0 <= i < cs.len() ==> ((#[trigger] cs[i]).spec_parent() matches Some(p) ==> p < i)
    &&& forall|i: int, k: int|
        0 <= i < cs.len() && 0 <= k < cs[i].spec_interfaces().len() ==> #[trigger] cs[i].spec_interfaces()[k]
            < i
}

/// The inherited part of a new class: what its parent has, or nothing.
pub open spec fn inherited(
    cs: Seq<ClassEntry>,
    parent: Option<usize>,
    f: spec_fn(ClassEntry) -> Seq<(KeyModel, ScalarModel)>,
) -> Seq<(KeyModel, ScalarModel)> {
    match parent {
        Some(p) => f(cs[p as int]),
        None => Seq::empty(),
    }
}

/// The keys that a list of method names gets in a method table.
pub open spec fn lower_names(methods: Seq<Seq<u8>>) -> Seq<Seq<u8>> {
    methods.map_values(|n: Seq<u8>| ascii_lowercase(n))
}

/// `c` is the class that registering the declaration adds to `cs` at `id`.
pub open spec fn is_registered(
    c: ClassEntry,
    cs: Seq<ClassEntry>,
    id: int,
    name: Seq<u8>,
    parent: Option<usize>,
    interfaces: Seq<usize>,
    flags: u32,
    methods: Seq<Seq<u8>>,
    props: Seq<PropertyEntity>,
    consts: Seq<ConstantEntity>,
) -> bool {
    &&& c.spec_id() == id
    &&& c.spec_name() == name
    &&& c.spec_parent() == parent
    &&& c.spec_interfaces() == interfaces
    &&& c.spec_flags() == flags
    &&& c.spec_methods() == lower_names(methods) + (match parent {
        Some(p) => cs[p as int].spec_methods(),
        None => Seq::empty(),
    })
    &&& c.spec_property_flags() == fold_prop_flags(inherited_flags(cs, parent), props)
    &&& c.spec_properties() == fold_props(
        inherited(cs, parent, |e: ClassEntry| e.spec_properties()),
        props,
        false,
    )
    &&& scalar_props(c.spec_static_properties()) == fold_props(Seq::empty(), props, true)
    &&& c.spec_constants() == fold_consts(
        inherited(cs, parent, |e: ClassEntry| e.spec_constants()),
        consts,
    )
}

/// A class of that name, parent and interfaces may join the table: no class
/// has the name yet, the parent is a class, and the interfaces are
/// interfaces.
pub open spec fn can_register(
    cs: Seq<ClassEntry>,
    name: Seq<u8>,
    parent: Option<usize>,
    interfaces: Seq<usize>,
) -> bool {
    &&& forall|i: int| 0 <= i < cs.len() ==> !names_class(#[trigger] cs[i], name)
    &&& (parent matches Some(p) ==> p < cs.len() && cs[p as int].spec_flags() & ZEND_ACC_INTERFACE
        == 0)
    &&& forall|k: int|
        0 <= k < interfaces.len() ==> #[trigger] interfaces[k] < cs.len() && cs[interfaces[k] as int].spec_flags()
            & ZEND_ACC_INTERFACE != 0
}

/// The classes known to the engine, like its class table, and the counter
/// that hands out object handles.
#[derive(Debug)]
pub struct ClassTable {
    classes: Vec<ClassEntry>,
    next_handle: u32,
}

fn copy_decls(ds: &Vec<(Vec<u8>, Scalar)>) -> (r: Vec<(Vec<u8>, Scalar)>)
    ensures
        decls_model(r@) == decls_model(ds@),
{
    let mut r: Vec<(Vec<u8>, Scalar)> = Vec::new();
    let n = ds.len();
    let mut i: usize = 0;
    while i < n
        invariant
            0 <= i <= n,
            n == ds@.len(),
            r@.len() == i,
            decls_model(r@) == decls_model(ds@).take(i as int),
        decreases n - i,
    {
        let d = &ds[i];
        let nm = vstd::slice::slice_to_vec(d.0.as_slice());
        let v = d.1.duplicate();
        assert(nm@ == ds@[i as int].0@);
        let ghost prev = r@;
        r.push((nm, v));
        assert(decl_model(r@[i as int]) == decl_model(ds@[i as int]));
        assert forall|j: int| 0 <= j < i implies decl_model(#[trigger] r@[j]) == decl_model(ds@[j]) by {
            assert(r@[j] == prev[j]);
            assert(decls_model(prev)[j] == decl_model(prev[j]));
        }
        i = i + 1;
        assert(decls_model(r@) =~= decls_model(ds@).take(i as int));
    }
    assert(decls_model(ds@).take(n as int) =~= decls_model(ds@));
    r
}

impl ClassTable {
    #[verifier::type_invariant]
    spec fn inv(self) -> bool {
        &&& table_wf(self.classes@)
        &&& builtins_wf(self.classes@)
    }

    /// The classes, by their places.
    pub closed spec fn spec_classes(&self) -> Seq<ClassEntry> {
        self.classes@
    }

    /// The handle the next object gets.
    pub closed spec fn spec_next_handle(&self) -> u32 {
        self.next_handle
    }

    /// The number of classes; a table always holds the classes the engine
    /// defines, at their places.
    pub fn len(&self) -> (r: usize)
        ensures
            r == self.spec_classes().len(),
            table_wf(self.spec_classes()),
            builtins_wf(self.spec_classes()),
    {
        proof {
            use_type_invariant(self);
        }
        self.classes.len()
    }

    /// Gets the class at a place.
    pub fn get(&self, id: usize) -> (r: Option<&ClassEntry>)
        ensures
            id < self.spec_classes().len() ==> r == Some(&self.spec_classes()[id as int]),
            id >= self.spec_classes().len() ==> r is None,
    {
        if id < self.classes.len() {
            Some(&self.classes[id])
        } else {
            None
        }
    }

    /// Gets one of the classes the engine defines, which every table holds.
    pub(crate) fn builtin(&self, id: usize) -> (r: &ClassEntry)
        requires
            id < BUILTIN_CLASSES,
        ensures
            *r == self.spec_classes()[id as int],
            is_builtin(*r, id as int),
    {
        proof {
            use_type_invariant(self);
            assert(is_builtin(self.spec_classes()[id as int], id as int));
        }
        &self.classes[id]
    }
}

/// The interface `Iterator`.
pub fn iterator_class(table: &ClassTable) -> (r: &ClassEntry)
    ensures
        *r == table.spec_classes()[ITERATOR as int],
        is_builtin(*r, ITERATOR as int),
{
    table.builtin(ITERATOR)
}

/// The interface `ArrayAccess`.
pub fn array_access_class(table: &ClassTable) -> (r: &ClassEntry)
    ensures
        *r == table.spec_classes()[ARRAY_ACCESS as int],
        is_builtin(*r, ARRAY_ACCESS as int),
{
    table.builtin(ARRAY_ACCESS)
}

} // verus!

verus! {

/// Adds a class at the end of the table: it inherits the methods,
/// property defaults and constants of its parent, then gets its own.
fn push_entry(
    cls: &mut Vec<ClassEntry>,
    name: &[u8],
    parent: Option<usize>,
    interfaces: Vec<usize>,
    flags: u32,
    methods: &Vec<Vec<u8>>,
    props: &Vec<PropertyEntity>,
    consts: &Vec<ConstantEntity>,
) -> (id: usize)
    requires
        table_wf(old(cls)@),
        parent matches Some(p) ==> p < old(cls)@.len(),
        forall|k: int|
            0 <= k < interfaces@.len() ==> #[trigger] interfaces@[k] < old(cls)@.len(),
    ensures
        id == old(cls)@.len(),
        final(cls)@.len() == id + 1,
        forall|i: int|
            0 <= i < id ==> #[trigger] final(cls)@[i] == old(cls)@[i],
        is_registered(
            final(cls)@[id as int],
            old(cls)@,
            id as int,
            name@,
            parent,
            interfaces@,
            flags,
            methods@.map_values(|m: Vec<u8>| m@),
            props@,
            consts@,
        ),
        table_wf(final(cls)@),
{
    let id = cls.len();
    let ghost cs = cls@;
    let ghost own = methods@.map_values(|m: Vec<u8>| m@);
    let mut ms: Vec<ZStr> = Vec::new();
    let n = methods.len();
    let mut i: usize = 0;
    while i < n
        invariant
            0 <= i <= n,
            n == methods@.len(),
            own == methods@.map_values(|m: Vec<u8>| m@),
            ms@.len() == i,
            ms@.map_values(|z: ZStr| z@) == lower_names(own).take(i as int),
        decreases n - i,
    {
        let l = to_ascii_lowercase(methods[i].as_slice());
        let ghost prev = ms@;
        ms.push(ZStr::from_vec(l));
        assert forall|j: int| 0 <= j < i implies #[trigger] ms@[j] == prev[j] by {}
        i = i + 1;
        assert(ms@.map_values(|z: ZStr| z@) =~= lower_names(own).take(i as int));
    }
    assert(lower_names(own).take(n as int) =~= lower_names(own));
    let ghost inherited_methods: Seq<Seq<u8>> = match parent {
        Some(p) => cs[p as int].spec_methods(),
        None => Seq::empty(),
    };
    let mut props_base: Vec<(Vec<u8>, Scalar)> = Vec::new();
    let mut flags_base: Vec<(Vec<u8>, u32)> = Vec::new();
    let mut consts_base: Vec<(Vec<u8>, Scalar)> = Vec::new();
    if let Some(p) = parent {
        let pe = &cls[p];
        proof {
            use_type_invariant(pe);
        }
        let pn = pe.methods.len();
        let mut k: usize = 0;
        while k < pn
            invariant
                0 <= k <= pn,
                pn == pe.methods@.len(),
                pn == pe.spec_methods().len(),
                n == own.len(),
                lower_names(own).len() == n,
                ms@.len() == n + k,
                ms@.map_values(|z: ZStr| z@) == lower_names(own) + pe.spec_methods().take(
                    k as int,
                ),
            decreases pn - k,
        {
            let ghost prev = ms@;
            let z = ZStr::new(pe.methods[k].to_bytes());
            assert(z@ == pe.spec_methods()[k as int]);
            ms.push(z);
            assert forall|j: int| 0 <= j < n + k implies #[trigger] ms@[j] == prev[j] by {}
            assert forall|j: int| 0 <= j < n + k + 1 implies ms@.map_values(|z: ZStr| z@)[j]
                == #[trigger] (lower_names(own) + pe.spec_methods().take(k + 1))[j] by {
                if j < n + k {
                    assert(ms@[j] == prev[j]);
                    assert(prev.map_values(|z: ZStr| z@)[j] == (lower_names(own)
                        + pe.spec_methods().take(k as int))[j]);
                }
            }
            k = k + 1;
            assert(ms@.map_values(|z: ZStr| z@) =~= lower_names(own) + pe.spec_methods().take(
                k as int,
            ));
        }
        assert(pe.spec_methods().take(pn as int) =~= pe.spec_methods());
        props_base = copy_decls(&pe.properties);
        flags_base = copy_flags(&pe.property_flags);
        consts_base = copy_decls(&pe.constants);
    } else {
        assert(lower_names(own) + Seq::<Seq<u8>>::empty() =~= lower_names(own));
    }
    let ghost base_props = inherited(cs, parent, |e: ClassEntry| e.spec_properties());
    let ghost base_consts = inherited(cs, parent, |e: ClassEntry| e.spec_constants());
    assert(decls_model(props_base@) == base_props);
    assert(decls_model(consts_base@) == base_consts);
    let ghost base_flags = inherited_flags(cs, parent);
    assert(flags_model(flags_base@) == base_flags);
    let mut e = ClassEntry {
        id,
        name: ZStr::new(name),
        parent,
        interfaces,
        flags,
        methods: ms,
        properties: props_base,
        property_flags: flags_base,
        static_properties: ZArr::new(),
        constants: consts_base,
    };
    let pn = props.len();
    let mut k: usize = 0;
    while k < pn
        invariant
            0 <= k <= pn,
            pn == props@.len(),
            e.spec_properties() == fold_props(base_props, props@.take(k as int), false),
            e.spec_property_flags() == fold_prop_flags(base_flags, props@.take(k as int)),
            scalar_props(e.spec_static_properties()) == fold_props(
                Seq::empty(),
                props@.take(k as int),
                true,
            ),
            e.spec_constants() == base_consts,
            e.spec_id() == id,
            e.spec_name() == name@,
            e.spec_parent() == parent,
            e.spec_interfaces() == interfaces@,
            e.spec_flags() == flags,
            e.spec_methods() == lower_names(own) + inherited_methods,
        decreases pn - k,
    {
        let ghost before = e;
        props[k].declare(&mut e);
        proof {
            let t = props@.take(k as int + 1);
            assert(t.drop_last() =~= props@.take(k as int));
            assert(t.last() == props@[k as int]);
            let key = KeyModel::Str(props@[k as int].spec_name());
            let f = |z: ZVal| scalar_view(z);
            if props@[k as int].is_static() {
                let v = choose|v: ZVal|
                    scalar_view(v) == props@[k as int].spec_value()
                        && e.spec_static_properties() == #[trigger] model_update(
                        before.spec_static_properties(),
                        key,
                        v,
                    );
                lemma_update_map(before.spec_static_properties(), key, v, f);
                assert(scalar_props(before.spec_static_properties())
                    =~= before.spec_static_properties().map_values(
                    |x: (KeyModel, ZVal)| (x.0, f(x.1)),
                ));
                assert(scalar_props(e.spec_static_properties())
                    =~= e.spec_static_properties().map_values(
                    |x: (KeyModel, ZVal)| (x.0, f(x.1)),
                ));
            }
        }
        k = k + 1;
    }
    assert(props@.take(pn as int) =~= props@);
    let cn = consts.len();
    let mut k: usize = 0;
    while k < cn
        invariant
            0 <= k <= cn,
            cn == consts@.len(),
            e.spec_properties() == fold_props(base_props, props@, false),
            e.spec_property_flags() == fold_prop_flags(base_flags, props@),
            scalar_props(e.spec_static_properties()) == fold_props(Seq::empty(), props@, true),
            e.spec_constants() == fold_consts(base_consts, consts@.take(k as int)),
            e.spec_id() == id,
            e.spec_name() == name@,
            e.spec_parent() == parent,
            e.spec_interfaces() == interfaces@,
            e.spec_flags() == flags,
            e.spec_methods() == lower_names(own) + inherited_methods,
        decreases cn - k,
    {
        add_class_constant(&mut e, &consts[k]);
        proof {
            let t = consts@.take(k as int + 1);
            assert(t.drop_last() =~= consts@.take(k as int));
            assert(t.last() == consts@[k as int]);
        }
        k = k + 1;
    }
    assert(consts@.take(cn as int) =~= consts@);
    cls.push(e);
    assert(cls@[id as int] == e);
    assert(forall|i: int| 0 <= i < id ==> #[trigger] cls@[i] == cs[i]);
    id
}

} // verus!

verus! {

impl ClassTable {
    /// Finds a class by name, up to ASCII case, as the engine's class table
    /// does.
    pub fn find(&self, name: &[u8]) -> (r: Option<usize>)
        ensures
            match r {
                Some(i) => first_named(self.spec_classes(), name@) == Some(i as int),
                None => first_named(self.spec_classes(), name@) is None,
            },
            match r {
                Some(i) => i < self.spec_classes().len() && names_class(
                    self.spec_classes()[i as int],
                    name@,
                ) && forall|j: int|
                    0 <= j < i ==> !names_class(#[trigger] self.spec_classes()[j], name@),
                None => forall|j: int|
                    0 <= j < self.spec_classes().len() ==> !names_class(
                        #[trigger] self.spec_classes()[j],
                        name@,
                    ),
            },
    {
        let n = self.classes.len();
        let mut i: usize = 0;
        while i < n
            invariant
                0 <= i <= n,
                n == self.classes@.len(),
                forall|j: int| 0 <= j < i ==> !names_class(#[trigger] self.classes@[j], name@),
            decreases n - i,
        {
            if eq_ignore_ascii_case(self.classes[i].name.to_bytes(), name) {
                proof {
                    lemma_first_named_at(self.classes@, name@, i as int);
                }
                return Some(i);
            }
            i = i + 1;
        }
        None
    }

    /// Finds the class stored under `key` in the class table, whose keys
    /// are the class names in ASCII lower case.
    pub fn find_key(&self, key: &[u8]) -> (r: Option<usize>)
        ensures
            match r {
                Some(i) => first_keyed(self.spec_classes(), key@) == Some(i as int) && i
                    < self.spec_classes().len(),
                None => first_keyed(self.spec_classes(), key@) is None,
            },
    {
        let n = self.classes.len();
        let mut i: usize = 0;
        while i < n
            invariant
                0 <= i <= n,
                n == self.classes@.len(),
                forall|j: int| 0 <= j < i ==> !keyed(#[trigger] self.classes@[j], key@),
            decreases n - i,
        {
            let lower = to_ascii_lowercase(self.classes[i].name.to_bytes());
            if crate::strings::bytes_eq(lower.as_slice(), key) {
                proof {
                    lemma_first_keyed_at(self.classes@, key@, i as int);
                }
                return Some(i);
            }
            i = i + 1;
        }
        None
    }

    /// Registers a class, unless [`can_register`] fails: then nothing
    /// changes and the result is `None`.
    pub fn register(
        &mut self,
        name: &[u8],
        parent: Option<usize>,
        interfaces: Vec<usize>,
        flags: u32,
        methods: &Vec<Vec<u8>>,
        props: &Vec<PropertyEntity>,
        consts: &Vec<ConstantEntity>,
    ) -> (r: Option<usize>)
        ensures
            can_register(old(self).spec_classes(), name@, parent, interfaces@) ==> {
                &&& r == Some(old(self).spec_classes().len() as usize)
                &&& final(self).spec_classes().len() == old(self).spec_classes().len() + 1
                &&& forall|i: int|
                    0 <= i < old(self).spec_classes().len() ==> #[trigger] final(self).spec_classes()[i] == old(self).spec_classes()[i]
                &&& is_registered(
                    final(self).spec_classes()[old(self).spec_classes().len() as int],
                    old(self).spec_classes(),
                    old(self).spec_classes().len() as int,
                    name@,
                    parent,
                    interfaces@,
                    flags,
                    methods@.map_values(|m: Vec<u8>| m@),
                    props@,
                    consts@,
                )
            },
            !can_register(old(self).spec_classes(), name@, parent, interfaces@) ==> r is None
                && final(self).spec_classes() == old(self).spec_classes(),
            final(self).spec_next_handle() == old(self).spec_next_handle(),
            table_wf(final(self).spec_classes()),
            builtins_wf(final(self).spec_classes()),
    {
        proof {
            use_type_invariant(&*self);
        }
        if self.find(name).is_some() {
            return None;
        }
        if let Some(p) = parent {
            if p >= self.classes.len() || self.classes[p].flags & ZEND_ACC_INTERFACE != 0 {
                return None;
            }
        }
        let n = interfaces.len();
        let mut k: usize = 0;
        while k < n
            invariant
                0 <= k <= n,
                n == interfaces@.len(),
                table_wf(self.classes@),
                builtins_wf(self.classes@),
                forall|j: int|
                    0 <= j < k ==> #[trigger] interfaces@[j] < self.classes@.len()
                        && self.classes@[interfaces@[j] as int].spec_flags() & ZEND_ACC_INTERFACE
                        != 0,
            decreases n - k,
        {
            let f = interfaces[k];
            if f >= self.classes.len() || self.classes[f].flags & ZEND_ACC_INTERFACE == 0 {
                return None;
            }
            k = k + 1;
        }
        let mut whole = ClassTable::new();
        std::mem::swap(&mut whole, self);
        let ClassTable { classes: mut cls, next_handle } = whole;
        let ghost cs = cls@;
        let id = push_entry(&mut cls, name, parent, interfaces, flags, methods, props, consts);
        assert forall|i: int| 0 <= i < BUILTIN_CLASSES implies is_builtin(#[trigger] cls@[i], i) by {
            assert(cls@[i] == cs[i]);
        }
        let mut rebuilt = ClassTable { classes: cls, next_handle };
        std::mem::swap(&mut rebuilt, self);
        Some(id)
    }

    /// Tells whether the class at `i` is the class at `j` or derives from
    /// it.
    pub fn is_instance_of(&self, i: usize, j: usize) -> (r: bool)
        ensures
            r == derives(self.spec_classes(), i as int, j as int),
    {
        derives_in(&self.classes, i, j)
    }
}

fn derives_in(cs: &Vec<ClassEntry>, i: usize, j: usize) -> (r: bool)
    ensures
        r == derives(cs@, i as int, j as int),
    decreases i,
{
    if i == j {
        return true;
    }
    if i >= cs.len() {
        return false;
    }
    let c = &cs[i];
    if let Some(p) = c.parent {
        if p < i && derives_in(cs, p, j) {
            return true;
        }
    }
    let n = c.interfaces.len();
    let mut k: usize = 0;
    while k < n
        invariant
            0 <= k <= n,
            n == c.interfaces@.len(),
            c == cs@[i as int],
            i < cs@.len(),
            i != j,
            !(match c.spec_parent() {
                Some(p) => p < i && derives(cs@, p as int, j as int),
                None => false,
            }),
            !derives_through(cs@, i as int, j as int, k as int),
        decreases n - k,
    {
        let f = c.interfaces[k];
        if f < i && derives_in(cs, f, j) {
            proof {
                lemma_through_derives(cs@, i as int, j as int, n as int, k as int);
            }
            return true;
        }
        k = k + 1;
    }
    false
}

/// Deriving is transitive: a class that derives from a class deriving from
/// a third one derives from the third one too.
pub proof fn lemma_derives_transitive(cs: Seq<ClassEntry>, i: int, j: int, k: int)
    requires
        derives(cs, i, j),
        derives(cs, j, k),
    ensures
        derives(cs, i, k),
    decreases i,
{
    if i != j && i != k {
        let via_parent = match cs[i].spec_parent() {
            Some(p) => p < i && derives(cs, p as int, j),
            None => false,
        };
        if via_parent {
            let p = cs[i].spec_parent()->0;
            lemma_derives_transitive(cs, p as int, j, k);
        } else {
            let n = cs[i].spec_interfaces().len() as int;
            let l = lemma_derives_through(cs, i, j, n);
            let f = cs[i].spec_interfaces()[l] as int;
            lemma_derives_transitive(cs, f, j, k);
            lemma_through_derives(cs, i, k, n, l);
        }
    }
}

/// Two classes that derive from each other are the same class.
pub proof fn lemma_derives_antisymmetric(cs: Seq<ClassEntry>, i: int, j: int)
    requires
        derives(cs, i, j),
        derives(cs, j, i),
    ensures
        i == j,
{
    lemma_derives_earlier(cs, i, j);
    lemma_derives_earlier(cs, j, i);
}

/// A class derives only from itself or from classes before it.
pub proof fn lemma_derives_earlier(cs: Seq<ClassEntry>, i: int, j: int)
    requires
        derives(cs, i, j),
    ensures
        j <= i,
    decreases i,
{
    if i != j {
        let via_parent = match cs[i].spec_parent() {
            Some(p) => p < i && derives(cs, p as int, j),
            None => false,
        };
        if via_parent {
            let p = cs[i].spec_parent()->0;
            lemma_derives_earlier(cs, p as int, j);
        } else {
            let l = lemma_derives_through(cs, i, j, cs[i].spec_interfaces().len() as int);
            lemma_derives_earlier(cs, cs[i].spec_interfaces()[l] as int, j);
        }
    }
}

} // verus!

verus! {

/// The class at `i` is the class at `j`, or derives from it through its
/// parent or the interfaces it implements, each of which comes earlier in
/// the table.
pub open spec fn derives(cs: Seq<ClassEntry>, i: int, j: int) -> bool
    decreases i, 1int, 0int,
{
    if i == j {
        true
    } else if 0 <= i < cs.len() {
        (match cs[i].spec_parent() {
            Some(p) => p < i && derives(cs, p as int, j),
            None => false,
        }) || derives_through(cs, i, j, cs[i].spec_interfaces().len() as int)
    } else {
        false
    }
}

/// One of the first `n` interfaces of the class at `i` comes before it and
/// derives from the class at `j`.
pub open spec fn derives_through(cs: Seq<ClassEntry>, i: int, j: int, n: int) -> bool
    decreases i, 0int, n,
{
    if n <= 0 || !(0 <= i < cs.len()) || n > cs[i].spec_interfaces().len() {
        false
    } else {
        let f = cs[i].spec_interfaces()[n - 1];
        (f < i && derives(cs, f as int, j)) || derives_through(cs, i, j, n - 1)
    }
}

/// An interface that derives from `j` among the first `n` of class `i`.
pub proof fn lemma_derives_through(cs: Seq<ClassEntry>, i: int, j: int, n: int) -> (l: int)
    requires
        derives_through(cs, i, j, n),
    ensures
        0 <= i < cs.len(),
        0 <= l < n <= cs[i].spec_interfaces().len(),
        cs[i].spec_interfaces()[l] < i,
        derives(cs, cs[i].spec_interfaces()[l] as int, j),
    decreases n,
{
    let f = cs[i].spec_interfaces()[n - 1];
    if f < i && derives(cs, f as int, j) {
        n - 1
    } else {
        lemma_derives_through(cs, i, j, n - 1)
    }
}

/// An interface that derives from `j` makes `derives_through` hold.
pub proof fn lemma_through_derives(cs: Seq<ClassEntry>, i: int, j: int, n: int, l: int)
    requires
        0 <= i < cs.len(),
        0 <= l < n <= cs[i].spec_interfaces().len(),
        cs[i].spec_interfaces()[l] < i,
        derives(cs, cs[i].spec_interfaces()[l] as int, j),
    ensures
        derives_through(cs, i, j, n),
    decreases n,
{
    if l < n - 1 {
        lemma_through_derives(cs, i, j, n - 1, l);
    }
}

} // verus!

verus! {

/// The name of the class at place `i` of a new class table.
pub open spec fn builtin_name(i: int) -> Seq<char> {
    if i == STD_CLASS {
        "stdClass"@
    } else if i == TRAVERSABLE {
        "Traversable"@
    } else if i == ITERATOR {
        "Iterator"@
    } else if i == ARRAY_ACCESS {
        "ArrayAccess"@
    } else if i == STRINGABLE {
        "Stringable"@
    } else if i == THROWABLE {
        "Throwable"@
    } else if i == EXCEPTION {
        "Exception"@
    } else if i == ERROR_EXCEPTION {
        "ErrorException"@
    } else if i == ERROR {
        "Error"@
    } else if i == TYPE_ERROR {
        "TypeError"@
    } else if i == ARGUMENT_COUNT_ERROR {
        "ArgumentCountError"@
    } else if i == ARITHMETIC_ERROR {
        "ArithmeticError"@
    } else if i == DIVISION_BY_ZERO_ERROR {
        "DivisionByZeroError"@
    } else if i == COMPILE_ERROR {
        "CompileError"@
    } else {
        "ParseError"@
    }
}

/// The parent of the class at place `i` of a new class table.
pub open spec fn builtin_parent(i: int) -> Option<usize> {
    if i == ERROR_EXCEPTION {
        Some(EXCEPTION)
    } else if i == TYPE_ERROR || i == ARITHMETIC_ERROR || i == COMPILE_ERROR {
        Some(ERROR)
    } else if i == ARGUMENT_COUNT_ERROR {
        Some(TYPE_ERROR)
    } else if i == DIVISION_BY_ZERO_ERROR {
        Some(ARITHMETIC_ERROR)
    } else if i == PARSE_ERROR {
        Some(COMPILE_ERROR)
    } else {
        None
    }
}

/// The interfaces that the class at place `i` of a new class table declares.
pub open spec fn builtin_interfaces(i: int) -> Seq<usize> {
    if i == ITERATOR {
        seq![TRAVERSABLE]
    } else if i == THROWABLE {
        seq![STRINGABLE]
    } else if i == EXCEPTION || i == ERROR {
        seq![THROWABLE]
    } else {
        seq![]
    }
}

/// The class at place `i` of a new class table is an interface.
pub open spec fn builtin_is_interface(i: int) -> bool {
    TRAVERSABLE <= i <= THROWABLE
}

fn text(s: &str) -> (r: Vec<u8>)
    ensures
        r@ == s.spec_bytes(),
{
    vstd::slice::slice_to_vec(s.as_bytes())
}

fn texts(list: &[&str]) -> (r: Vec<Vec<u8>>)
    ensures
        r@.len() == list@.len(),
{
    let mut out: Vec<Vec<u8>> = Vec::new();
    let n = list.len();
    let mut i: usize = 0;
    while i < n
        invariant
            0 <= i <= n,
            n == list@.len(),
            out@.len() == i,
        decreases n - i,
    {
        out.push(text(list[i]));
        i = i + 1;
    }
    out
}

/// The properties that `Exception` and `Error` declare: their names,
/// visibilities and defaults.
pub open spec fn throwable_property_specs() -> Seq<(Seq<u8>, u32, ScalarModel)> {
    seq![
        (ascii("message"@), Visibility::Protected.spec_raw(), ScalarModel::Str(Seq::empty())),
        (ascii("string"@), Visibility::Private.spec_raw(), ScalarModel::Str(Seq::empty())),
        (ascii("code"@), Visibility::Protected.spec_raw(), ScalarModel::Long(0)),
        (ascii("file"@), Visibility::Protected.spec_raw(), ScalarModel::Str(Seq::empty())),
        (ascii("line"@), Visibility::Protected.spec_raw(), ScalarModel::Long(0)),
        (ascii("previous"@), Visibility::Private.spec_raw(), ScalarModel::Null),
    ]
}

/// The names of the methods that `Throwable` declares.
pub open spec fn throwable_method_names() -> Seq<Seq<u8>> {
    seq![
        ascii("getMessage"@),
        ascii("getCode"@),
        ascii("getFile"@),
        ascii("getLine"@),
        ascii("getTrace"@),
        ascii("getPrevious"@),
        ascii("getTraceAsString"@),
        ascii("__toString"@),
    ]
}

/// The names of the methods that `Exception` and `Error` declare.
pub open spec fn exception_method_names() -> Seq<Seq<u8>> {
    seq![ascii("__construct"@), ascii("__wakeup"@)] + throwable_method_names()
}

/// The properties that `Exception` and `Error` declare.
fn throwable_properties() -> (r: Vec<PropertyEntity>)
    ensures
        r@.map_values(|p: PropertyEntity| (p.spec_name(), p.spec_visibility(), p.spec_value()))
            == throwable_property_specs(),
{
    proof {
        reveal_strlit("message");
        reveal_strlit("string");
        reveal_strlit("code");
        reveal_strlit("file");
        reveal_strlit("line");
        reveal_strlit("previous");
    }
    let mut ps: Vec<PropertyEntity> = Vec::new();
    ps.push(PropertyEntity::new(lit("message").as_slice(), Visibility::Protected, Scalar::String(Vec::new())));
    ps.push(PropertyEntity::new(lit("string").as_slice(), Visibility::Private, Scalar::String(Vec::new())));
    ps.push(PropertyEntity::new(lit("code").as_slice(), Visibility::Protected, Scalar::I64(0)));
    ps.push(PropertyEntity::new(lit("file").as_slice(), Visibility::Protected, Scalar::String(Vec::new())));
    ps.push(PropertyEntity::new(lit("line").as_slice(), Visibility::Protected, Scalar::I64(0)));
    ps.push(PropertyEntity::new(lit("previous").as_slice(), Visibility::Private, Scalar::Null));
    assert(ps@.map_values(|p: PropertyEntity| (p.spec_name(), p.spec_visibility(), p.spec_value()))
        =~= throwable_property_specs());
    ps
}

/// The methods that `Throwable` declares.
fn throwable_methods() -> (r: Vec<Vec<u8>>)
    ensures
        r@.map_values(|m: Vec<u8>| m@) == throwable_method_names(),
{
    proof {
        reveal_strlit("getMessage");
        reveal_strlit("getCode");
        reveal_strlit("getFile");
        reveal_strlit("getLine");
        reveal_strlit("getTrace");
        reveal_strlit("getPrevious");
        reveal_strlit("getTraceAsString");
        reveal_strlit("__toString");
    }
    let mut ms: Vec<Vec<u8>> = Vec::new();
    ms.push(lit("getMessage"));
    ms.push(lit("getCode"));
    ms.push(lit("getFile"));
    ms.push(lit("getLine"));
    ms.push(lit("getTrace"));
    ms.push(lit("getPrevious"));
    ms.push(lit("getTraceAsString"));
    ms.push(lit("__toString"));
    assert(ms@.map_values(|m: Vec<u8>| m@) =~= throwable_method_names());
    ms
}

/// The methods that `Exception` and `Error` declare.
fn exception_methods() -> (r: Vec<Vec<u8>>)
    ensures
        r@.map_values(|m: Vec<u8>| m@) == exception_method_names(),
{
    proof {
        reveal_strlit("__construct");
        reveal_strlit("__wakeup");
    }
    let mut ms: Vec<Vec<u8>> = Vec::new();
    ms.push(lit("__construct"));
    ms.push(lit("__wakeup"));
    let ghost head = ms@;
    let mut rest = throwable_methods();
    let ghost tail = rest@;
    ms.append(&mut rest);
    assert(ms@.map_values(|m: Vec<u8>| m@) =~= exception_method_names()) by {
        assert(ms@ =~= head + tail);
        assert(head.map_values(|m: Vec<u8>| m@) =~= seq![ascii("__construct"@), ascii("__wakeup"@)]);
    }
    ms
}

fn add_builtin(
    cls: &mut Vec<ClassEntry>,
    name: &str,
    parent: Option<usize>,
    interfaces: Vec<usize>,
    flags: u32,
    methods: Vec<Vec<u8>>,
    props: Vec<PropertyEntity>,
)
    requires
        table_wf(old(cls)@),
        is_ascii(name),
        parent matches Some(p) ==> p < old(cls)@.len(),
        forall|k: int| 0 <= k < interfaces@.len() ==> #[trigger] interfaces@[k] < old(cls)@.len(),
    ensures
        table_wf(final(cls)@),
        final(cls)@.len() == old(cls)@.len() + 1,
        forall|i: int| 0 <= i < old(cls)@.len() ==> #[trigger] final(cls)@[i] == old(cls)@[i],
        ({
            let c = final(cls)@[old(cls)@.len() as int];
            &&& c.spec_name() == ascii(name@)
            &&& c.spec_parent() == parent
            &&& c.spec_interfaces() == interfaces@
            &&& c.spec_flags() == flags
            &&& c.spec_properties() == fold_props(
                inherited(old(cls)@, parent, |e: ClassEntry| e.spec_properties()),
                props@,
                false,
            )
            &&& scalar_props(c.spec_static_properties()) == fold_props(Seq::empty(), props@, true)
            &&& c.spec_static_properties().len() == fold_props(Seq::empty(), props@, true).len()
            &&& c.spec_constants() == inherited(old(cls)@, parent, |e: ClassEntry| e.spec_constants())
        }),
{
    let nm = lit(name);
    let consts: Vec<ConstantEntity> = Vec::new();
    let ghost n = cls@.len();
    push_entry(cls, nm.as_slice(), parent, interfaces, flags, &methods, &props, &consts);
    proof {
        let st = cls@[n as int].spec_static_properties();
        assert(scalar_props(st).len() == st.len());
        assert(consts@ =~= Seq::<ConstantEntity>::empty());
    }
}

/// The class at place `i` is the one a new class table has there.
pub open spec fn is_builtin(c: ClassEntry, i: int) -> bool {
    &&& c.spec_name() == ascii(builtin_name(i))
    &&& c.spec_parent() == builtin_parent(i)
    &&& c.spec_interfaces() == builtin_interfaces(i)
    &&& c.spec_flags() == (if builtin_is_interface(i) {
        ZEND_ACC_INTERFACE
    } else {
        0u32
    })
    &&& c.spec_properties() == builtin_properties(i)
    &&& c.spec_static_properties().len() == 0
    &&& c.spec_constants().len() == 0
}

/// The property defaults of `Exception` and `Error`, and of the classes
/// that extend them: those of [`throwable_property_specs`], in order.
pub open spec fn exception_props() -> Seq<(KeyModel, ScalarModel)> {
    throwable_property_specs().map_values(
        |t: (Seq<u8>, u32, ScalarModel)| (KeyModel::Str(t.0), t.2),
    )
}

/// The instance property defaults of the class at place `i` of a new class
/// table: those of `Exception` for it and `ErrorException`, which adds
/// `severity = 1`; those of `Error` for it and the errors that extend it;
/// none for the others.
pub open spec fn builtin_properties(i: int) -> Seq<(KeyModel, ScalarModel)> {
    if i == EXCEPTION || (ERROR <= i <= PARSE_ERROR) {
        exception_props()
    } else if i == ERROR_EXCEPTION {
        exception_props().push((KeyModel::Str(ascii("severity"@)), ScalarModel::Long(1)))
    } else {
        Seq::empty()
    }
}

/// Declaring properties of new names, none of them static, appends their
/// defaults in order and leaves no static property.
proof fn lemma_fold_fresh(base: Seq<(KeyModel, ScalarModel)>, ps: Seq<PropertyEntity>)
    requires
        forall|j: int| 0 <= j < ps.len() ==> !(#[trigger] ps[j]).is_static(),
        forall|i: int, j: int|
            0 <= i < j < ps.len() ==> (#[trigger] ps[i]).spec_name() != (#[trigger] ps[j]).spec_name(),
        forall|i: int, j: int|
            0 <= i < base.len() && 0 <= j < ps.len() ==> (#[trigger] base[i]).0 != KeyModel::Str(
                (#[trigger] ps[j]).spec_name(),
            ),
    ensures
        fold_props(base, ps, false) == base + ps.map_values(
            |p: PropertyEntity| (KeyModel::Str(p.spec_name()), p.spec_value()),
        ),
        fold_props(Seq::empty(), ps, true) == Seq::<(KeyModel, ScalarModel)>::empty(),
    decreases ps.len(),
{
    let f = |p: PropertyEntity| (KeyModel::Str(p.spec_name()), p.spec_value());
    if ps.len() == 0 {
        assert(base + ps.map_values(f) =~= base);
    } else {
        let init = ps.drop_last();
        lemma_fold_fresh(base, init);
        let m = base + init.map_values(f);
        let k = KeyModel::Str(ps.last().spec_name());
        assert forall|j: int| 0 <= j < m.len() implies (#[trigger] m[j]).0 != k by {
            if j < base.len() {
                assert(base[j].0 != KeyModel::Str(ps[ps.len() - 1].spec_name()));
            } else {
                assert(init[j - base.len()] == ps[j - base.len()]);
                assert(ps[j - base.len()].spec_name() != ps[ps.len() - 1].spec_name());
            }
        }
        lemma_find_key_none(m, k);
        assert(m.push((k, ps.last().spec_value())) =~= base + ps.map_values(f));
    }
}

/// The defaults that `ErrorException` adds to those of `Exception`.
proof fn lemma_severity_props(ps: Seq<PropertyEntity>)
    requires
        ps.len() == 1,
        ps[0].spec_name() == ascii("severity"@),
        ps[0].spec_visibility() == ZEND_ACC_PROTECTED,
        ps[0].spec_value() == ScalarModel::Long(1),
    ensures
        fold_props(exception_props(), ps, false) == exception_props().push(
            (KeyModel::Str(ascii("severity"@)), ScalarModel::Long(1)),
        ),
        fold_props(Seq::empty(), ps, true) == Seq::<(KeyModel, ScalarModel)>::empty(),
{
    reveal_strlit("severity");
    reveal_strlit("message");
    reveal_strlit("string");
    reveal_strlit("code");
    reveal_strlit("file");
    reveal_strlit("line");
    reveal_strlit("previous");
    assert(ZEND_ACC_PROTECTED & ZEND_ACC_STATIC == 0) by (bit_vector);
    let base = exception_props();
    assert forall|i: int, j: int| 0 <= i < base.len() && 0 <= j < ps.len() implies (#[trigger] base[i]).0
        != KeyModel::Str((#[trigger] ps[j]).spec_name()) by {
        let a = throwable_property_specs()[i].0;
        assert(base[i].0 == KeyModel::Str(a));
        if a == ps[0].spec_name() {
            assert(a.len() == 8);
            assert(a[0] == ps[0].spec_name()[0]);
            assert(a[1] == ps[0].spec_name()[1]);
        }
    }
    lemma_fold_fresh(base, ps);
    let f = |p: PropertyEntity| (KeyModel::Str(p.spec_name()), p.spec_value());
    assert(base + ps.map_values(f) =~= base.push((KeyModel::Str(ascii("severity"@)), ScalarModel::Long(1))));
}

/// The defaults that the properties of `Exception` and `Error` leave.
proof fn lemma_exception_props(ps: Seq<PropertyEntity>)
    requires
        ps.map_values(|p: PropertyEntity| (p.spec_name(), p.spec_visibility(), p.spec_value()))
            == throwable_property_specs(),
    ensures
        fold_props(Seq::empty(), ps, false) == exception_props(),
        fold_props(Seq::empty(), ps, true) == Seq::<(KeyModel, ScalarModel)>::empty(),
{
    reveal_strlit("message");
    reveal_strlit("string");
    reveal_strlit("code");
    reveal_strlit("file");
    reveal_strlit("line");
    reveal_strlit("previous");
    let g = |p: PropertyEntity| (p.spec_name(), p.spec_visibility(), p.spec_value());
    let specs = throwable_property_specs();
    assert(specs.len() == 6);
    assert(ps.map_values(g).len() == ps.len());
    assert(ps.len() == 6);
    assert(ZEND_ACC_PROTECTED & ZEND_ACC_STATIC == 0) by (bit_vector);
    assert(ZEND_ACC_PRIVATE & ZEND_ACC_STATIC == 0) by (bit_vector);
    assert forall|j: int| 0 <= j < ps.len() implies !(#[trigger] ps[j]).is_static() by {
        assert(ps.map_values(g)[j] == specs[j]);
    }
    assert forall|i: int, j: int| 0 <= i < j < ps.len() implies (#[trigger] ps[i]).spec_name()
        != (#[trigger] ps[j]).spec_name() by {
        assert(ps.map_values(g)[i] == specs[i]);
        assert(ps.map_values(g)[j] == specs[j]);
        let a = specs[i].0;
        let b = specs[j].0;
        if a == b {
            assert(a.len() == b.len());
            assert(a[0] == b[0]);
            assert(a[1] == b[1]);
            assert(a[2] == b[2]);
        }
    }
    lemma_fold_fresh(Seq::empty(), ps);
    let f = |p: PropertyEntity| (KeyModel::Str(p.spec_name()), p.spec_value());
    assert forall|j: int| 0 <= j < 6 implies ps.map_values(f)[j] == #[trigger] exception_props()[j] by {
        assert(ps.map_values(g)[j] == specs[j]);
    }
    assert(Seq::<(KeyModel, ScalarModel)>::empty() + ps.map_values(f) =~= exception_props());
}

/// The table starts with the classes and interfaces the engine defines.
pub open spec fn builtins_wf(cs: Seq<ClassEntry>) -> bool {
    &&& cs.len() >= BUILTIN_CLASSES
    &&& forall|i: int| 0 <= i < BUILTIN_CLASSES ==> is_builtin(#[trigger] cs[i], i)
}

impl ClassTable {
    /// A class table that holds the classes and interfaces the engine
    /// defines: those of [`builtin_name`], with no object made yet.
    pub fn new() -> (r: Self)
        ensures
            r.spec_classes().len() == BUILTIN_CLASSES,
            builtins_wf(r.spec_classes()),
            r.spec_next_handle() == 1,
            table_wf(r.spec_classes()),
    {
        proof {
            reveal_strlit("stdClass");
            reveal_strlit("Traversable");
            reveal_strlit("Iterator");
            reveal_strlit("ArrayAccess");
            reveal_strlit("Stringable");
            reveal_strlit("Throwable");
            reveal_strlit("Exception");
            reveal_strlit("ErrorException");
            reveal_strlit("Error");
            reveal_strlit("TypeError");
            reveal_strlit("ArgumentCountError");
            reveal_strlit("ArithmeticError");
            reveal_strlit("DivisionByZeroError");
            reveal_strlit("CompileError");
            reveal_strlit("ParseError");
        }
        let mut t: Vec<ClassEntry> = Vec::new();
        add_builtin(&mut t, "stdClass", None, Vec::new(), 0, Vec::new(), Vec::new());
        let ghost c0 = t@[0];
        add_builtin(&mut t, "Traversable", None, Vec::new(), ZEND_ACC_INTERFACE, Vec::new(), Vec::new());
        let ghost c1 = t@[1];
        add_builtin(&mut t, "Iterator", None, vec![TRAVERSABLE], ZEND_ACC_INTERFACE,
            texts(&["current", "next", "key", "valid", "rewind"]), Vec::new());
        let ghost c2 = t@[2];
        add_builtin(&mut t, "ArrayAccess", None, Vec::new(), ZEND_ACC_INTERFACE,
            texts(&["offsetExists", "offsetGet", "offsetSet", "offsetUnset"]), Vec::new());
        let ghost c3 = t@[3];
        add_builtin(&mut t, "Stringable", None, Vec::new(), ZEND_ACC_INTERFACE, texts(&["__toString"]), Vec::new());
        let ghost c4 = t@[4];
        add_builtin(&mut t, "Throwable", None, vec![STRINGABLE], ZEND_ACC_INTERFACE, throwable_methods(), Vec::new());
        let ghost c5 = t@[5];
        let tp6 = throwable_properties();
        let ghost tps6 = tp6@;
        add_builtin(&mut t, "Exception", None, vec![THROWABLE], 0, exception_methods(), tp6);
        let ghost c6 = t@[6];
        proof {
            reveal_strlit("severity");
        }
        let mut eprops: Vec<PropertyEntity> = Vec::new();
        eprops.push(PropertyEntity::new(lit("severity").as_slice(), Visibility::Protected, Scalar::I64(1)));
        let ghost eps = eprops@;
        add_builtin(&mut t, "ErrorException", Some(EXCEPTION), Vec::new(), 0, texts(&["getSeverity"]), eprops);
        let ghost c7 = t@[7];
        let tp8 = throwable_properties();
        let ghost tps8 = tp8@;
        add_builtin(&mut t, "Error", None, vec![THROWABLE], 0, exception_methods(), tp8);
        let ghost c8 = t@[8];
        add_builtin(&mut t, "TypeError", Some(ERROR), Vec::new(), 0, Vec::new(), Vec::new());
        let ghost c9 = t@[9];
        add_builtin(&mut t, "ArgumentCountError", Some(TYPE_ERROR), Vec::new(), 0, Vec::new(), Vec::new());
        let ghost c10 = t@[10];
        add_builtin(&mut t, "ArithmeticError", Some(ERROR), Vec::new(), 0, Vec::new(), Vec::new());
        let ghost c11 = t@[11];
        add_builtin(&mut t, "DivisionByZeroError", Some(ARITHMETIC_ERROR), Vec::new(), 0, Vec::new(), Vec::new());
        let ghost c12 = t@[12];
        add_builtin(&mut t, "CompileError", Some(ERROR), Vec::new(), 0, Vec::new(), Vec::new());
        let ghost c13 = t@[13];
        add_builtin(&mut t, "ParseError", Some(COMPILE_ERROR), Vec::new(), 0, Vec::new(), Vec::new());
        proof {
            let cs = t@;
            lemma_exception_props(tps6);
            lemma_exception_props(tps8);
            reveal_strlit("severity");
            lemma_severity_props(eps);
            assert(cs[0] == c0 && cs[1] == c1 && cs[2] == c2 && cs[3] == c3 && cs[4] == c4);
            assert(cs[5] == c5 && cs[6] == c6 && cs[7] == c7 && cs[8] == c8 && cs[9] == c9);
            assert(cs[10] == c10 && cs[11] == c11 && cs[12] == c12 && cs[13] == c13);
            assert(is_builtin(cs[0], 0));
            assert(is_builtin(cs[1], 1));
            assert(cs[2].spec_interfaces() =~= seq![TRAVERSABLE]);
            assert(is_builtin(cs[2], 2));
            assert(is_builtin(cs[3], 3));
            assert(is_builtin(cs[4], 4));
            assert(cs[5].spec_interfaces() =~= seq![STRINGABLE]);
            assert(is_builtin(cs[5], 5));
            assert(cs[6].spec_interfaces() =~= seq![THROWABLE]);
            assert(is_builtin(cs[6], 6));
            assert(is_builtin(cs[7], 7));
            assert(cs[8].spec_interfaces() =~= seq![THROWABLE]);
            assert(is_builtin(cs[8], 8));
            assert(is_builtin(cs[9], 9));
            assert(is_builtin(cs[10], 10));
            assert(is_builtin(cs[11], 11));
            assert(is_builtin(cs[12], 12));
            assert(is_builtin(cs[13], 13));
            assert(is_builtin(cs[14], 14));
            assert forall|i: int| 0 <= i < BUILTIN_CLASSES implies is_builtin(#[trigger] cs[i], i) by {
                assert(i == 0 || i == 1 || i == 2 || i == 3 || i == 4 || i == 5 || i == 6 || i == 7
                    || i == 8 || i == 9 || i == 10 || i == 11 || i == 12 || i == 13 || i == 14);
            }
        }
        ClassTable { classes: t, next_handle: 1 }
    }
}

} // verus!

verus! {

impl ClassEntry {
    /// Finds a registered class by name: the name in Unicode lower case is
    /// looked up among the keys of the class table, which are the class
    /// names in ASCII lower case. The error names the class asked for.
    pub fn from_globals<'a>(table: &'a ClassTable, class_name: &str) -> (r: Result<
        &'a ClassEntry,
        Error,
    >)
        ensures
            match first_keyed(table.spec_classes(), lookup_key(class_name@)) {
                Some(i) => r matches Ok(c) && *c == table.spec_classes()[i],
                None => r matches Err(Error::ClassNotFound(e)) && e.spec_class_name()
                    == class_name.spec_bytes(),
            },
    {
        let key = lowercase_bytes(class_name);
        match table.find_key(key.as_slice()) {
            Some(i) => Ok(&table.classes[i]),
            None => Err(
                Error::ClassNotFound(
                    ClassNotFoundError::new(vstd::slice::slice_to_vec(class_name.as_bytes())),
                ),
            ),
        }
    }

    /// Tells whether this class is `parent` or derives from it, through
    /// parents and implemented interfaces.
    pub fn is_instance_of(&self, table: &ClassTable, parent: &ClassEntry) -> (r: bool)
        ensures
            r == derives(table.spec_classes(), self.spec_id() as int, parent.spec_id() as int),
    {
        table.is_instance_of(self.id, parent.id)
    }

    /// Makes an object of the class, without calling `__construct`: its
    /// properties hold the declared defaults. Abstract classes, interfaces,
    /// traits and enums have no instances; for them the error names the
    /// class.
    pub fn init_object(&self, handle: u32) -> (r: Result<ZObj, Error>)
        ensures
            self.spec_flags() & ZEND_ACC_UNINSTANTIABLE != 0 && valid_utf8(self.spec_name()) ==> (r matches Err(
                Error::InitializeObject(e),
            ) && e.spec_class_name() == self.spec_name()),
            self.spec_flags() & ZEND_ACC_UNINSTANTIABLE != 0 && !valid_utf8(self.spec_name()) ==> (r matches Err(Error::Utf8(_))),
            self.spec_flags() & ZEND_ACC_UNINSTANTIABLE == 0 ==> (r matches Ok(o) && o.spec_handle()
                == handle && o.spec_class() == self.spec_id() && o.spec_class_name() == self.spec_name()
                && scalar_props(o.spec_properties()) == self.spec_properties()),
    {
        proof {
            use_type_invariant(self);
        }
        if self.flags & ZEND_ACC_UNINSTANTIABLE != 0 {
            return match self.name.to_str() {
                Ok(_) => Err(
                    Error::InitializeObject(
                        InitializeObjectError::new(vstd::slice::slice_to_vec(self.name.to_bytes())),
                    ),
                ),
                Err(e) => Err(Error::Utf8(e)),
            };
        }
        let mut props = ZArr::new();
        let ghost m = self.spec_properties();
        let n = self.properties.len();
        let mut i: usize = 0;
        while i < n
            invariant
                0 <= i <= n,
                n == self.properties@.len(),
                m == self.spec_properties(),
                distinct_keys(m),
                scalar_props(props.model()) == m.take(i as int),
            decreases n - i,
        {
            let d = &self.properties[i];
            let v = d.1.to_zval();
            let ghost before = props.model();
            let ghost k = KeyModel::Str(d.0@);
            props.str_update(d.0.as_slice(), v);
            proof {
                let f = |z: ZVal| scalar_view(z);
                lemma_update_map(before, k, v, f);
                assert(scalar_props(before) =~= before.map_values(
                    |x: (KeyModel, ZVal)| (x.0, f(x.1)),
                ));
                assert(scalar_props(props.model()) =~= props.model().map_values(
                    |x: (KeyModel, ZVal)| (x.0, f(x.1)),
                ));
                assert(m[i as int] == decl_model(self.properties@[i as int]));
                assert forall|j: int| 0 <= j < i implies (#[trigger] m.take(i as int)[j]).0 != k by {
                    assert(m[j].0 != m[i as int].0);
                }
                crate::arrays::lemma_find_key_none(m.take(i as int), k);
                assert(m.take(i as int).push((k, scalar_view(v))) =~= m.take(i as int + 1));
            }
            i = i + 1;
        }
        assert(m.take(n as int) =~= m);
        Ok(ZObj::from_parts(handle, self.id, ZStr::new(self.name.to_bytes()), props))
    }
}

/// `r` is what making an object of `c`, the class at `id`, gives when
/// `handle` is the next object handle of the table.
pub open spec fn instantiated(c: ClassEntry, id: usize, handle: u32, r: Result<ZObj, Error>) -> bool {
    &&& handle == u32::MAX ==> (r matches Err(Error::InitializeObject(e)) && e.spec_class_name()
        == c.spec_name())
    &&& handle < u32::MAX ==> {
        &&& c.spec_flags() & ZEND_ACC_UNINSTANTIABLE != 0 && valid_utf8(c.spec_name()) ==> (r matches Err(Error::InitializeObject(e)) && e.spec_class_name() == c.spec_name())
        &&& c.spec_flags() & ZEND_ACC_UNINSTANTIABLE != 0 && !valid_utf8(c.spec_name()) ==> (r matches Err(Error::Utf8(_)))
        &&& c.spec_flags() & ZEND_ACC_UNINSTANTIABLE == 0 ==> (r matches Ok(o) && o.spec_handle()
            == handle && o.spec_class() == id && o.spec_class_name() == c.spec_name()
            && scalar_props(o.spec_properties()) == c.spec_properties())
    }
}

/// The key of the constructor in a method table.
pub open spec fn construct_key() -> Seq<u8> {
    ascii("__construct"@)
}

/// `o` is a fresh object of `c` under `handle`: the declared property
/// defaults and nothing else.
pub open spec fn fresh_object(c: ClassEntry, handle: u32, o: ZObj) -> bool {
    &&& o.spec_handle() == handle
    &&& o.spec_class() == c.spec_id()
    &&& o.spec_class_name() == c.spec_name()
    &&& scalar_props(o.spec_properties()) == c.spec_properties()
}

/// `construct` can run on every fresh object of `c` under `handle`, with
/// the arguments `args`.
pub open spec fn construct_accepts<F: FnOnce(ZObj, Vec<ZVal>) -> (Result<ZObj, Error>, Vec<ZVal>)>(
    c: ClassEntry,
    handle: u32,
    construct: F,
    args: Seq<ZVal>,
) -> bool {
    forall|o: ZObj, a: Vec<ZVal>|
        fresh_object(c, handle, o) && a@ == args ==> #[trigger] construct.requires((o, a))
}

/// `r` is what making an object of `c` under `handle` and calling its
/// `__construct` gives, the call being made by `construct` on the fresh
/// object and the arguments `args`, which it hands back as `args_after`
/// (parameters taken by reference may have been written). Classes
/// without instances give the errors of [`ClassEntry::init_object`]; a class
/// without a constructor gives the fresh object; otherwise the result is
/// the constructor's: the object it leaves, or the error it raised.
pub open spec fn constructed<F: FnOnce(ZObj, Vec<ZVal>) -> (Result<ZObj, Error>, Vec<ZVal>)>(
    c: ClassEntry,
    handle: u32,
    construct: F,
    args: Seq<ZVal>,
    args_after: Seq<ZVal>,
    r: Result<ZObj, Error>,
) -> bool {
    &&& c.spec_flags() & ZEND_ACC_UNINSTANTIABLE != 0 ==> {
        &&& args_after == args
        &&& valid_utf8(c.spec_name()) ==> (r matches Err(Error::InitializeObject(e))
            && e.spec_class_name() == c.spec_name())
        &&& !valid_utf8(c.spec_name()) ==> (r matches Err(Error::Utf8(_)))
    }
    &&& c.spec_flags() & ZEND_ACC_UNINSTANTIABLE == 0 && !c.spec_methods().contains(construct_key())
        ==> args_after == args && (r matches Ok(o) && fresh_object(c, handle, o))
    &&& c.spec_flags() & ZEND_ACC_UNINSTANTIABLE == 0 && c.spec_methods().contains(construct_key())
        ==> exists|o: ZObj, a: Vec<ZVal>, a2: Vec<ZVal>|
        #![trigger construct.ensures((o, a), (r, a2))]
        fresh_object(c, handle, o) && a@ == args && a2@ == args_after
            && construct.ensures((o, a), (r, a2))
}

/// `r` and `next_after` are what making an object of `c` with its
/// constructor gives when `next` is the next object handle of the table: no
/// handle left is an [`Error::InitializeObject`] naming the class, and
/// otherwise the handle is taken and the result is as [`constructed`] says.
pub open spec fn new_object_outcome<F: FnOnce(ZObj, Vec<ZVal>) -> (Result<ZObj, Error>, Vec<ZVal>)>(
    c: ClassEntry,
    next: u32,
    construct: F,
    args: Seq<ZVal>,
    args_after: Seq<ZVal>,
    r: Result<ZObj, Error>,
    next_after: u32,
) -> bool {
    &&& next == u32::MAX ==> (r matches Err(Error::InitializeObject(e)) && e.spec_class_name()
        == c.spec_name()) && args_after == args && next_after == next
    &&& next < u32::MAX ==> next_after == next + 1 && constructed(
        c,
        next,
        construct,
        args,
        args_after,
        r,
    )
}

impl ClassEntry {
    /// Makes an object of the class under `handle` and calls its
    /// `__construct` with `arguments`; `construct` makes that call, and its
    /// result is returned. A class without a constructor gives the fresh
    /// object.
    pub fn new_object<F: FnOnce(ZObj, Vec<ZVal>) -> (Result<ZObj, Error>, Vec<ZVal>)>(
        &self,
        handle: u32,
        arguments: &mut Vec<ZVal>,
        construct: F,
    ) -> (r: Result<ZObj, Error>)
        requires
            construct_accepts(*self, handle, construct, old(arguments)@),
        ensures
            constructed(*self, handle, construct, old(arguments)@, final(arguments)@, r),
    {
        let o = match self.init_object(handle) {
            Ok(o) => o,
            Err(e) => return Err(e),
        };
        proof {
            reveal_strlit("__construct");
        }
        let key = lit("__construct");
        if self.has_method(key.as_slice()) {
            let mut args: Vec<ZVal> = Vec::new();
            std::mem::swap(&mut args, arguments);
            let (r, back) = construct(o, args);
            *arguments = back;
            r
        } else {
            Ok(o)
        }
    }
}

impl ClassTable {
    /// Hands out the next object handle; `None` once every handle is taken.
    pub fn new_handle(&mut self) -> (r: Option<u32>)
        ensures
            old(self).spec_next_handle() < u32::MAX ==> r == Some(old(self).spec_next_handle())
                && final(self).spec_next_handle() == old(self).spec_next_handle() + 1,
            old(self).spec_next_handle() == u32::MAX ==> r is None && final(self).spec_next_handle()
                == old(self).spec_next_handle(),
            final(self).spec_classes() == old(self).spec_classes(),
    {
        proof {
            use_type_invariant(&*self);
        }
        if self.next_handle == u32::MAX {
            None
        } else {
            let h = self.next_handle;
            self.next_handle = h + 1;
            Some(h)
        }
    }

    /// Makes an object of the class at `id` with a fresh handle, as
    /// [`ClassEntry::init_object`] does; the class must exist, and the error
    /// is [`Error::InitializeObject`] when no handle is left.
    pub fn instantiate(&mut self, id: usize) -> (r: Result<ZObj, Error>)
        requires
            id < old(self).spec_classes().len(),
        ensures
            final(self).spec_classes() == old(self).spec_classes(),
            instantiated(old(self).spec_classes()[id as int], id, old(self).spec_next_handle(), r),
            r is Ok ==> final(self).spec_next_handle() == old(self).spec_next_handle() + 1,
            old(self).spec_next_handle() < u32::MAX ==> final(self).spec_next_handle() == old(
                self,
            ).spec_next_handle() + 1,
            old(self).spec_next_handle() == u32::MAX ==> final(self).spec_next_handle() == u32::MAX,
    {
        proof {
            use_type_invariant(&*self);
        }
        match self.new_handle() {
            Some(h) => self.classes[id].init_object(h),
            None => Err(
                Error::InitializeObject(
                    InitializeObjectError::new(
                        vstd::slice::slice_to_vec(self.classes[id].name.to_bytes()),
                    ),
                ),
            ),
        }
    }
}

} // verus!

verus! {

/// Writing a value commutes with taking the scalar content of a table.
pub proof fn lemma_scalar_props_update(m: ArrModel, k: KeyModel, v: ZVal)
    ensures
        scalar_props(model_update(m, k, v)) == model_update(scalar_props(m), k, scalar_view(v)),
{
    let f = |z: ZVal| scalar_view(z);
    lemma_update_map(m, k, v, f);
    assert(scalar_props(m) =~= m.map_values(|x: (KeyModel, ZVal)| (x.0, f(x.1))));
    assert(scalar_props(model_update(m, k, v)) =~= model_update(m, k, v).map_values(
        |x: (KeyModel, ZVal)| (x.0, f(x.1)),
    ));
}

} // verus!

verus! {

/// `i` is the first class in `cs` that `name` names.
pub open spec fn first_named_at(cs: Seq<ClassEntry>, name: Seq<u8>, i: int) -> bool {
    &&& 0 <= i < cs.len()
    &&& names_class(cs[i], name)
    &&& forall|j: int| 0 <= j < i ==> !names_class(#[trigger] cs[j], name)
}

/// The first class in `cs` that `name` names, if any: the class that a
/// lookup by name finds.
pub open spec fn first_named(cs: Seq<ClassEntry>, name: Seq<u8>) -> Option<int> {
    if exists|i: int| first_named_at(cs, name, i) {
        Some(choose|i: int| first_named_at(cs, name, i))
    } else {
        None
    }
}

/// The first match is unique.
pub proof fn lemma_first_named_at(cs: Seq<ClassEntry>, name: Seq<u8>, i: int)
    requires
        first_named_at(cs, name, i),
    ensures
        first_named(cs, name) == Some(i),
{
    let k = choose|k: int| first_named_at(cs, name, k);
    if k < i {
        assert(!names_class(cs[k], name));
    } else if k > i {
        assert(!names_class(cs[i], name));
    }
}

/// With no match, there is no first match.
pub proof fn lemma_first_named_none(cs: Seq<ClassEntry>, name: Seq<u8>)
    requires
        forall|j: int| 0 <= j < cs.len() ==> !names_class(#[trigger] cs[j], name),
    ensures
        first_named(cs, name) is None,
{
}

/// The key that a lookup by `name` searches the class table for: its
/// Unicode lower-case form, in UTF-8.
pub open spec fn lookup_key(name: Seq<char>) -> Seq<u8> {
    encode_utf8(unicode_lowercase(name))
}

/// `c` is stored under `key` in the class table, whose keys are the class
/// names in ASCII lower case.
pub open spec fn keyed(c: ClassEntry, key: Seq<u8>) -> bool {
    ascii_lowercase(c.spec_name()) == key
}

/// `i` is the first class in `cs` stored under `key`.
pub open spec fn first_keyed_at(cs: Seq<ClassEntry>, key: Seq<u8>, i: int) -> bool {
    &&& 0 <= i < cs.len()
    &&& keyed(cs[i], key)
    &&& forall|j: int| 0 <= j < i ==> !keyed(#[trigger] cs[j], key)
}

/// The first class in `cs` stored under `key`, if any.
pub open spec fn first_keyed(cs: Seq<ClassEntry>, key: Seq<u8>) -> Option<int> {
    if exists|i: int| first_keyed_at(cs, key, i) {
        Some(choose|i: int| first_keyed_at(cs, key, i))
    } else {
        None
    }
}

proof fn lemma_first_keyed_at(cs: Seq<ClassEntry>, key: Seq<u8>, i: int)
    requires
        first_keyed_at(cs, key, i),
    ensures
        first_keyed(cs, key) == Some(i),
{
    let k = choose|k: int| first_keyed_at(cs, key, k);
    if k < i {
        assert(!keyed(cs[k], key));
    } else if k > i {
        assert(!keyed(cs[i], key));
    }
}

/// The places of the classes the names name, when every one is found.
pub open spec fn resolve_names(cs: Seq<ClassEntry>, names: Seq<Seq<u8>>) -> Option<Seq<usize>>
    decreases names.len(),
{
    if names.len() == 0 {
        Some(Seq::empty())
    } else {
        match (resolve_names(cs, names.drop_last()), first_named(cs, names.last())) {
            (Some(ids), Some(i)) => Some(ids.push(i as usize)),
            _ => None,
        }
    }
}

/// A class registered under a name is found by that name in any letter
/// case, and stays the first one found as more classes are registered.
pub proof fn lemma_registered_is_found(
    before: Seq<ClassEntry>,
    after: Seq<ClassEntry>,
    name: Seq<u8>,
    other: Seq<u8>,
)
    requires
        forall|i: int| 0 <= i < before.len() ==> !names_class(#[trigger] before[i], name),
        after.len() > before.len(),
        forall|i: int| 0 <= i < before.len() ==> #[trigger] after[i] == before[i],
        after[before.len() as int].spec_name() == name,
        ascii_lowercase(other) == ascii_lowercase(name),
    ensures
        first_named(after, other) == Some(before.len() as int),
{
    assert forall|j: int| 0 <= j < before.len() implies !names_class(#[trigger] after[j], other) by {
        assert(after[j] == before[j]);
        assert(!names_class(before[j], name));
    }
    lemma_first_named_at(after, other, before.len() as int);
}

} // verus!

verus! {

/// The method names a list of method builders registers.
pub open spec fn method_names(ms: Seq<MethodEntity>) -> Seq<Seq<u8>> {
    ms.map_values(|m: MethodEntity| until_nul(m.spec_name()))
}

/// One of the methods is abstract.
pub open spec fn has_abstract(ms: Seq<MethodEntity>) -> bool {
    exists|i: int| 0 <= i < ms.len() && #[trigger] ms[i].spec_visibility() & ZEND_ACC_ABSTRACT != 0
}

/// The flags a class gets from its methods: a class with an abstract method
/// is abstract.
pub open spec fn class_flags(ms: Seq<MethodEntity>) -> u32 {
    if has_abstract(ms) {
        ZEND_ACC_IMPLICIT_ABSTRACT_CLASS | ZEND_ACC_EXPLICIT_ABSTRACT_CLASS
    } else {
        0
    }
}

/// The keys under which the method handlers of a class are found: the class
/// name and the method name, for each method with a body.
pub open spec fn handler_keys(class_name: Seq<u8>, ms: Seq<MethodEntity>) -> Seq<
    (Option<Seq<u8>>, Seq<u8>),
>
    decreases ms.len(),
{
    if ms.len() == 0 {
        Seq::empty()
    } else {
        let rest = handler_keys(class_name, ms.drop_last());
        if ms.last().spec_has_handler() {
            rest.push((Some(until_nul(class_name)), until_nul(ms.last().spec_name())))
        } else {
            rest
        }
    }
}

/// Finds each named class, in order; `None` when one is missing.
fn resolve(table: &ClassTable, names: &Vec<Vec<u8>>) -> (r: Option<Vec<usize>>)
    ensures
        match resolve_names(table.spec_classes(), names@.map_values(|n: Vec<u8>| n@)) {
            Some(ids) => r matches Some(v) && v@ == ids,
            None => r is None,
        },
{
    let ghost ns = names@.map_values(|n: Vec<u8>| n@);
    let mut out: Vec<usize> = Vec::new();
    let n = names.len();
    let mut i: usize = 0;
    while i < n
        invariant
            0 <= i <= n,
            n == names@.len(),
            ns == names@.map_values(|n: Vec<u8>| n@),
            resolve_names(table.spec_classes(), ns.take(i as int)) == Some(out@),
        decreases n - i,
    {
        let f = table.find(names[i].as_slice());
        proof {
            let t = ns.take(i as int + 1);
            assert(t.drop_last() =~= ns.take(i as int));
            assert(t.last() == names@[i as int]@);
        }
        match f {
            Some(id) => {
                out.push(id);
            },
            None => {
                proof {
                    lemma_resolve_none(table.spec_classes(), ns, i as int + 1);
                }
                return None;
            },
        }
        i = i + 1;
    }
    assert(ns.take(n as int) =~= ns);
    Some(out)
}

proof fn lemma_resolve_none(cs: Seq<ClassEntry>, ns: Seq<Seq<u8>>, k: int)
    requires
        0 <= k <= ns.len(),
        resolve_names(cs, ns.take(k)) is None,
    ensures
        resolve_names(cs, ns) is None,
    decreases ns.len() - k,
{
    if k < ns.len() {
        let t = ns.take(k + 1);
        assert(t.drop_last() =~= ns.take(k));
        lemma_resolve_none(cs, ns, k + 1);
    } else {
        assert(ns.take(k) =~= ns);
    }
}

/// The class registered by a [`ClassEntity`]: its place in the class
/// table, and the type of the state its objects carry.
#[derive(Debug)]
pub struct StateClass<T> {
    id: usize,
    _p: std::marker::PhantomData<T>,
}

impl<T> StateClass<T> {
    /// The place of the class in the class table.
    pub closed spec fn spec_id(&self) -> usize {
        self.id
    }

    /// Gets the place of the class in the class table.
    pub fn id(&self) -> (r: usize)
        ensures
            r == self.spec_id(),
    {
        self.id
    }

    /// Converts to the class entry.
    pub fn as_class_entry<'a>(&self, table: &'a ClassTable) -> (r: &'a ClassEntry)
        requires
            self.spec_id() < table.spec_classes().len(),
        ensures
            *r == table.spec_classes()[self.spec_id() as int],
    {
        &table.classes[self.id]
    }

    /// Makes an object of the class, without calling `__construct`, that
    /// carries `state`; the errors are those of
    /// [`ClassTable::instantiate`].
    pub fn init_object(&self, table: &mut ClassTable, state: T) -> (r: Result<StateObj<T>, Error>)
        requires
            self.spec_id() < old(table).spec_classes().len(),
        ensures
            final(table).spec_classes() == old(table).spec_classes(),
            ({
                let c = old(table).spec_classes()[self.spec_id() as int];
                &&& old(table).spec_next_handle() == u32::MAX ==> (r matches Err(
                    Error::InitializeObject(e),
                ) && e.spec_class_name() == c.spec_name())
                &&& old(table).spec_next_handle() < u32::MAX ==> {
                    &&& c.spec_flags() & ZEND_ACC_UNINSTANTIABLE != 0 && valid_utf8(c.spec_name()) ==> (r matches Err(Error::InitializeObject(e)) && e.spec_class_name() == c.spec_name())
                    &&& c.spec_flags() & ZEND_ACC_UNINSTANTIABLE != 0 && !valid_utf8(c.spec_name()) ==> (r matches Err(Error::Utf8(_)))
                    &&& c.spec_flags() & ZEND_ACC_UNINSTANTIABLE == 0 ==> (r matches Ok(so) && so.spec_state() == state
                        && so.spec_object().spec_handle() == old(table).spec_next_handle()
                        && so.spec_object().spec_class() == self.spec_id()
                        && so.spec_object().spec_class_name() == c.spec_name() && scalar_props(
                        so.spec_object().spec_properties(),
                    ) == c.spec_properties())
                }
            }),
            old(table).spec_next_handle() < u32::MAX ==> final(table).spec_next_handle() == old(
                table,
            ).spec_next_handle() + 1,
            old(table).spec_next_handle() == u32::MAX ==> final(table).spec_next_handle() == u32::MAX,
    {
        match table.instantiate(self.id) {
            Ok(o) => Ok(StateObj::new(o, state)),
            Err(e) => Err(e),
        }
    }

    /// Makes an object of the class that carries `state`, and calls its
    /// `__construct` with `arguments`, as [`ZObj::new`] does.
    pub fn new_object<F: FnOnce(ZObj, Vec<ZVal>) -> (Result<ZObj, Error>, Vec<ZVal>)>(
        &self,
        table: &mut ClassTable,
        state: T,
        arguments: &mut Vec<ZVal>,
        construct: F,
    ) -> (r: Result<StateObj<T>, Error>)
        requires
            self.spec_id() < old(table).spec_classes().len(),
            construct_accepts(
                old(table).spec_classes()[self.spec_id() as int],
                old(table).spec_next_handle(),
                construct,
                old(arguments)@,
            ),
        ensures
            final(table).spec_classes() == old(table).spec_classes(),
            match r {
                Ok(so) => so.spec_state() == state && new_object_outcome(
                    old(table).spec_classes()[self.spec_id() as int],
                    old(table).spec_next_handle(),
                    construct,
                    old(arguments)@,
                    final(arguments)@,
                    Ok(so.spec_object()),
                    final(table).spec_next_handle(),
                ),
                Err(e) => new_object_outcome(
                    old(table).spec_classes()[self.spec_id() as int],
                    old(table).spec_next_handle(),
                    construct,
                    old(arguments)@,
                    final(arguments)@,
                    Err(e),
                    final(table).spec_next_handle(),
                ),
            },
    {
        match ZObj::new(table, self.id, arguments, construct) {
            Ok(o) => Ok(StateObj::new(o, state)),
            Err(e) => Err(e),
        }
    }
}

impl<T> Clone for StateClass<T> {
    fn clone(&self) -> (r: Self)
        ensures
            r.spec_id() == self.spec_id(),
    {
        StateClass { id: self.id, _p: std::marker::PhantomData }
    }
}

/// The interface registered by an [`InterfaceEntity`]: its place in the
/// class table.
#[derive(Debug, Clone, Copy)]
pub struct Interface {
    id: usize,
}

impl Interface {
    /// The place of the interface in the class table.
    pub closed spec fn spec_id(&self) -> usize {
        self.id
    }

    /// Gets the place of the interface in the class table.
    pub fn id(&self) -> (r: usize)
        ensures
            r == self.spec_id(),
    {
        self.id
    }

    /// Converts to the class entry.
    pub fn as_class_entry<'a>(&self, table: &'a ClassTable) -> (r: &'a ClassEntry)
        requires
            self.spec_id() < table.spec_classes().len(),
        ensures
            *r == table.spec_classes()[self.spec_id() as int],
    {
        &table.classes[self.id]
    }
}

} // verus!

verus! {

pub(crate) fn method_names_of(ms: &Vec<MethodEntity>) -> (r: Vec<Vec<u8>>)
    ensures
        r@.map_values(|m: Vec<u8>| m@) == method_names(ms@),
{
    let mut out: Vec<Vec<u8>> = Vec::new();
    let n = ms.len();
    let mut i: usize = 0;
    while i < n
        invariant
            0 <= i <= n,
            n == ms@.len(),
            out@.len() == i,
            out@.map_values(|m: Vec<u8>| m@) == method_names(ms@).take(i as int),
        decreases n - i,
    {
        let ghost prev = out@;
        let b = ms[i].name_bytes();
        out.push(b);
        assert forall|j: int| 0 <= j < i + 1 implies out@.map_values(|m: Vec<u8>| m@)[j]
            == #[trigger] method_names(ms@).take(i + 1)[j] by {
            if j < i {
                assert(out@[j] == prev[j]);
                assert(prev.map_values(|m: Vec<u8>| m@)[j] == method_names(ms@).take(i as int)[j]);
            }
        }
        i = i + 1;
        assert(out@.map_values(|m: Vec<u8>| m@) =~= method_names(ms@).take(i as int));
    }
    assert(method_names(ms@).take(n as int) =~= method_names(ms@));
    out
}

fn any_abstract(ms: &Vec<MethodEntity>) -> (r: bool)
    ensures
        r == has_abstract(ms@),
{
    let n = ms.len();
    let mut i: usize = 0;
    while i < n
        invariant
            0 <= i <= n,
            n == ms@.len(),
            forall|j: int| 0 <= j < i ==> #[trigger] ms@[j].spec_visibility() & ZEND_ACC_ABSTRACT == 0,
        decreases n - i,
    {
        if ms[i].visibility() & ZEND_ACC_ABSTRACT != 0 {
            assert(ms@[i as int].spec_visibility() & ZEND_ACC_ABSTRACT != 0);
            return true;
        }
        i = i + 1;
    }
    false
}

fn flags_of(ms: &Vec<MethodEntity>) -> (r: u32)
    ensures
        r == class_flags(ms@),
{
    if any_abstract(ms) {
        ZEND_ACC_IMPLICIT_ABSTRACT_CLASS | ZEND_ACC_EXPLICIT_ABSTRACT_CLASS
    } else {
        0
    }
}

/// The outcome of registering a class declaration in `cs`: `r` is the
/// place it gets, or `None`, with `after` the table afterwards.
/// The place of the parent named `parent`: `Some(None)` for no parent,
/// `None` when the named class is missing.
pub open spec fn parent_place(cs: Seq<ClassEntry>, parent: Option<Seq<u8>>) -> Option<Option<usize>> {
    match parent {
        Some(n) => match first_named(cs, n) {
            Some(i) => Some(Some(i as usize)),
            None => None,
        },
        None => Some(None),
    }
}

/// A class named `name`, with the parent and interfaces named, can be
/// added to `cs`: the named classes exist and [`can_register`] holds.
pub open spec fn registration_ok(
    cs: Seq<ClassEntry>,
    name: Seq<u8>,
    parent: Option<Seq<u8>>,
    interfaces: Seq<Seq<u8>>,
) -> bool {
    let pid = parent_place(cs, parent);
    let ids = resolve_names(cs, interfaces);
    pid is Some && ids is Some && can_register(cs, name, pid->0, ids->0)
}

pub open spec fn registration(
    r: Option<usize>,
    cs: Seq<ClassEntry>,
    after: Seq<ClassEntry>,
    name: Seq<u8>,
    parent: Option<Seq<u8>>,
    interfaces: Seq<Seq<u8>>,
    flags: u32,
    methods: Seq<Seq<u8>>,
    props: Seq<PropertyEntity>,
    consts: Seq<ConstantEntity>,
) -> bool {
    let pid = parent_place(cs, parent);
    let ids = resolve_names(cs, interfaces);
    let ok = registration_ok(cs, name, parent, interfaces);
    &&& ok ==> {
        &&& r == Some(cs.len() as usize)
        &&& after.len() == cs.len() + 1
        &&& forall|i: int| 0 <= i < cs.len() ==> #[trigger] after[i] == cs[i]
        &&& is_registered(
            after[cs.len() as int],
            cs,
            cs.len() as int,
            name,
            pid->0,
            ids->0,
            flags,
            methods,
            props,
            consts,
        )
    }
    &&& !ok ==> r is None && after == cs
}

/// Builder for registering a class; `T` is the type of the state that its
/// objects carry.
#[derive(Debug)]
pub struct ClassEntity<T> {
    class_name: Vec<u8>,
    method_entities: Vec<MethodEntity>,
    property_entities: Vec<PropertyEntity>,
    parent: Option<Vec<u8>>,
    interfaces: Vec<Vec<u8>>,
    constants: Vec<ConstantEntity>,
    has_state_cloner: bool,
    _p: std::marker::PhantomData<T>,
}

impl<T> ClassEntity<T> {
    /// The class name, as a C string.
    pub closed spec fn spec_class_name(&self) -> Seq<u8> {
        self.class_name@
    }

    /// The methods.
    pub closed spec fn spec_methods(&self) -> Seq<MethodEntity> {
        self.method_entities@
    }

    /// The properties.
    pub closed spec fn spec_properties(&self) -> Seq<PropertyEntity> {
        self.property_entities@
    }

    /// The name of the parent class, if any.
    pub closed spec fn spec_parent(&self) -> Option<Seq<u8>> {
        match self.parent {
            Some(p) => Some(p@),
            None => None,
        }
    }

    /// The names of the implemented interfaces.
    pub closed spec fn spec_interfaces(&self) -> Seq<Seq<u8>> {
        self.interfaces@.map_values(|n: Vec<u8>| n@)
    }

    /// The constants.
    pub closed spec fn spec_constants(&self) -> Seq<ConstantEntity> {
        self.constants@
    }

    /// Objects of the class can be cloned.
    pub closed spec fn spec_has_state_cloner(&self) -> bool {
        self.has_state_cloner
    }

    /// Everything but the methods is as in `other`.
    pub open spec fn same_but_methods(&self, other: &Self) -> bool {
        &&& self.spec_class_name() == other.spec_class_name()
        &&& self.spec_properties() == other.spec_properties()
        &&& self.spec_parent() == other.spec_parent()
        &&& self.spec_interfaces() == other.spec_interfaces()
        &&& self.spec_constants() == other.spec_constants()
        &&& self.spec_has_state_cloner() == other.spec_has_state_cloner()
    }

    /// The same declaration, with the state type forgotten, as a module
    /// keeps it.
    pub fn erase(self) -> (r: ClassEntity<()>)
        ensures
            r.spec_class_name() == self.spec_class_name(),
            r.spec_methods() == self.spec_methods(),
            r.spec_properties() == self.spec_properties(),
            r.spec_parent() == self.spec_parent(),
            r.spec_interfaces() == self.spec_interfaces(),
            r.spec_constants() == self.spec_constants(),
            r.spec_has_state_cloner() == self.spec_has_state_cloner(),
    {
        ClassEntity {
            class_name: self.class_name,
            method_entities: self.method_entities,
            property_entities: self.property_entities,
            parent: self.parent,
            interfaces: self.interfaces,
            constants: self.constants,
            has_state_cloner: self.has_state_cloner,
            _p: std::marker::PhantomData,
        }
    }

    /// A class with nothing declared yet.
    pub fn new(class_name: &[u8]) -> (r: Self)
        ensures
            r.spec_class_name() == c_name(class_name@),
            r.spec_methods() == Seq::<MethodEntity>::empty(),
            r.spec_properties() == Seq::<PropertyEntity>::empty(),
            r.spec_parent() is None,
            r.spec_interfaces() == Seq::<Seq<u8>>::empty(),
            r.spec_constants() == Seq::<ConstantEntity>::empty(),
            !r.spec_has_state_cloner(),
    {
        let r = ClassEntity {
            class_name: ensure_end_with_zero(class_name),
            method_entities: Vec::new(),
            property_entities: Vec::new(),
            parent: None,
            interfaces: Vec::new(),
            constants: Vec::new(),
            has_state_cloner: false,
            _p: std::marker::PhantomData,
        };
        assert(r.spec_interfaces() =~= Seq::<Seq<u8>>::empty());
        r
    }

    fn push_method(&mut self, entity: MethodEntity) -> (r: &mut MethodEntity)
        ensures
            *r == entity,
            final(self).spec_methods() == old(self).spec_methods().push(*final(r)),
            final(self).same_but_methods(old(self)),
    {
        self.method_entities.push(entity);
        let n = self.method_entities.len();
        &mut self.method_entities[n - 1]
    }

    /// Adds a member method, with its visibility.
    pub fn add_method(&mut self, name: &[u8], vis: Visibility) -> (r: &mut MethodEntity)
        ensures
            r.spec_name() == c_name(name@),
            r.spec_has_handler(),
            r.spec_visibility() == vis.spec_raw(),
            r.spec_arguments().len() == 0,
            r.spec_return_type() is None,
            final(self).spec_methods() == old(self).spec_methods().push(*final(r)),
            final(self).same_but_methods(old(self)),
    {
        self.push_method(MethodEntity::new(name, true, vis))
    }

    /// Adds a static method, with its visibility.
    pub fn add_static_method(&mut self, name: &[u8], vis: Visibility) -> (r: &mut MethodEntity)
        ensures
            r.spec_name() == c_name(name@),
            r.spec_has_handler(),
            r.spec_visibility() == vis.spec_raw() | ZEND_ACC_STATIC,
            r.spec_arguments().len() == 0,
            r.spec_return_type() is None,
            final(self).spec_methods() == old(self).spec_methods().push(*final(r)),
            final(self).same_but_methods(old(self)),
    {
        let mut entity = MethodEntity::new(name, true, vis);
        entity.set_vis_static();
        self.push_method(entity)
    }

    /// Adds an abstract method, with its visibility, which should not be
    /// private.
    pub fn add_abstract_method(&mut self, name: &[u8], vis: Visibility) -> (r: &mut MethodEntity)
        ensures
            r.spec_name() == c_name(name@),
            !r.spec_has_handler(),
            r.spec_visibility() == vis.spec_raw() | ZEND_ACC_ABSTRACT,
            r.spec_arguments().len() == 0,
            r.spec_return_type() is None,
            final(self).spec_methods() == old(self).spec_methods().push(*final(r)),
            final(self).same_but_methods(old(self)),
    {
        let mut entity = MethodEntity::new(name, false, vis);
        entity.set_vis_abstract();
        self.push_method(entity)
    }

    /// Declares a property with its default value.
    pub fn add_property(&mut self, name: &[u8], visibility: Visibility, value: Scalar)
        ensures
            final(self).spec_properties().len() == old(self).spec_properties().len() + 1,
            final(self).spec_properties().drop_last() == old(self).spec_properties(),
            ({
                let p = final(self).spec_properties().last();
                &&& p.spec_name() == name@
                &&& p.spec_visibility() == visibility.spec_raw()
                &&& p.spec_value() == value.model()
            }),
            final(self).spec_methods() == old(self).spec_methods(),
            final(self).spec_class_name() == old(self).spec_class_name(),
            final(self).spec_parent() == old(self).spec_parent(),
            final(self).spec_interfaces() == old(self).spec_interfaces(),
            final(self).spec_constants() == old(self).spec_constants(),
    {
        self.property_entities.push(PropertyEntity::new(name, visibility, value));
        assert(self.property_entities@.drop_last() =~= old(self).property_entities@);
    }

    /// Declares a static property with its initial value.
    pub fn add_static_property(&mut self, name: &[u8], visibility: Visibility, value: Scalar)
        ensures
            final(self).spec_properties().len() == old(self).spec_properties().len() + 1,
            final(self).spec_properties().drop_last() == old(self).spec_properties(),
            ({
                let p = final(self).spec_properties().last();
                &&& p.spec_name() == name@
                &&& p.spec_visibility() == visibility.spec_raw() | ZEND_ACC_STATIC
                &&& p.spec_value() == value.model()
            }),
            final(self).spec_methods() == old(self).spec_methods(),
            final(self).spec_class_name() == old(self).spec_class_name(),
            final(self).spec_parent() == old(self).spec_parent(),
            final(self).spec_interfaces() == old(self).spec_interfaces(),
            final(self).spec_constants() == old(self).spec_constants(),
    {
        let mut entity = PropertyEntity::new(name, visibility, value);
        entity.set_vis_static();
        self.property_entities.push(entity);
        assert(self.property_entities@.drop_last() =~= old(self).property_entities@);
    }

    /// Adds a class constant.
    pub fn add_constant(&mut self, name: &[u8], value: Scalar)
        ensures
            final(self).spec_constants().len() == old(self).spec_constants().len() + 1,
            final(self).spec_constants().drop_last() == old(self).spec_constants(),
            final(self).spec_constants().last().spec_name() == name@,
            final(self).spec_constants().last().spec_value() == value.model(),
            final(self).spec_methods() == old(self).spec_methods(),
            final(self).spec_properties() == old(self).spec_properties(),
            final(self).spec_class_name() == old(self).spec_class_name(),
            final(self).spec_parent() == old(self).spec_parent(),
            final(self).spec_interfaces() == old(self).spec_interfaces(),
    {
        self.constants.push(ConstantEntity::new(name, value));
        assert(self.constants@.drop_last() =~= old(self).constants@);
    }

    /// Makes the class extend the class named `parent`, found when the
    /// class is registered.
    pub fn extends(&mut self, parent: &[u8])
        ensures
            final(self).spec_parent() == Some(parent@),
            final(self).spec_methods() == old(self).spec_methods(),
            final(self).spec_properties() == old(self).spec_properties(),
            final(self).spec_class_name() == old(self).spec_class_name(),
            final(self).spec_interfaces() == old(self).spec_interfaces(),
            final(self).spec_constants() == old(self).spec_constants(),
    {
        self.parent = Some(vstd::slice::slice_to_vec(parent));
    }

    /// Makes the class implement the interface named `interface`, found
    /// when the class is registered; a class can implement many.
    pub fn implements(&mut self, interface: &[u8])
        ensures
            final(self).spec_interfaces() == old(self).spec_interfaces().push(interface@),
            final(self).spec_methods() == old(self).spec_methods(),
            final(self).spec_properties() == old(self).spec_properties(),
            final(self).spec_class_name() == old(self).spec_class_name(),
            final(self).spec_parent() == old(self).spec_parent(),
            final(self).spec_constants() == old(self).spec_constants(),
    {
        self.interfaces.push(vstd::slice::slice_to_vec(interface));
        assert(self.spec_interfaces() =~= old(self).spec_interfaces().push(interface@));
    }

    /// Makes objects of the class cloneable, by cloning their state; the
    /// function that clones a state is handed to [`ClassEntity::clone_object`].
    pub fn state_cloner(&mut self)
        ensures
            final(self).spec_has_state_cloner(),
            final(self).spec_methods() == old(self).spec_methods(),
            final(self).spec_properties() == old(self).spec_properties(),
            final(self).spec_class_name() == old(self).spec_class_name(),
            final(self).spec_parent() == old(self).spec_parent(),
            final(self).spec_interfaces() == old(self).spec_interfaces(),
            final(self).spec_constants() == old(self).spec_constants(),
    {
        self.has_state_cloner = true;
    }

    /// Clones `source`, an object of the class declared here, as `clone`
    /// does in PHP. Without a state cloner the objects of the class cannot
    /// be cloned, and the error names the class of `source`. Otherwise the
    /// clone gets the next object handle, the class of `source` and a copy of
    /// each of its properties, and as its state what `cloner` makes of the
    /// state of `source`; `source` itself is left as it was.
    pub fn clone_object<F: Fn(&T) -> T>(
        &self,
        cloner: &F,
        source: &StateObj<T>,
        table: &mut ClassTable,
    ) -> (r: Result<StateObj<T>, CloneObjectError>)
        requires
            self.spec_has_state_cloner() ==> old(table).spec_next_handle() < u32::MAX
                && cloner.requires((&source.spec_state(),)),
        ensures
            !self.spec_has_state_cloner() ==> (r matches Err(e) && e.spec_class_name()
                == source.spec_object().spec_class_name()) && final(table).spec_next_handle()
                == old(table).spec_next_handle(),
            self.spec_has_state_cloner() ==> (r matches Ok(c) && {
                let o = source.spec_object();
                let p = c.spec_object();
                &&& p.spec_handle() == old(table).spec_next_handle()
                &&& p.spec_class() == o.spec_class()
                &&& p.spec_class_name() == o.spec_class_name()
                &&& p.spec_properties().len() == o.spec_properties().len()
                &&& forall|i: int|
                    0 <= i < o.spec_properties().len() ==> (#[trigger] p.spec_properties()[i]).0
                        == o.spec_properties()[i].0 && copy_of(
                        o.spec_properties()[i].1,
                        p.spec_properties()[i].1,
                    )
                &&& cloner.ensures((&source.spec_state(),), c.spec_state())
            }),
            self.spec_has_state_cloner() ==> final(table).spec_next_handle()
                == old(table).spec_next_handle() + 1,
            final(table).spec_classes() == old(table).spec_classes(),
    {
        let o = source.as_object();
        if !self.has_state_cloner {
            return Err(CloneObjectError::new(vstd::slice::slice_to_vec(o.get_class_name().to_bytes())));
        }
        let handle = table.new_handle().unwrap();
        let object = o.duplicate().rehandle(handle);
        let state = cloner(source.as_state());
        Ok(StateObj::new(object, state))
    }

    /// The keys under which the handlers of the class's methods are found.
    pub fn handler_map(&self) -> (r: Vec<(Option<Vec<u8>>, Vec<u8>)>)
        ensures
            r@.map_values(|k: (Option<Vec<u8>>, Vec<u8>)| (match k.0 {
                Some(c) => Some(c@),
                None => None,
            }, k.1@)) == handler_keys(self.spec_class_name(), self.spec_methods()),
    {
        let mut out: Vec<(Option<Vec<u8>>, Vec<u8>)> = Vec::new();
        let n = self.method_entities.len();
        let mut i: usize = 0;
        while i < n
            invariant
                0 <= i <= n,
                n == self.method_entities@.len(),
                key_view(out@) == handler_keys(self.spec_class_name(), self.spec_methods().take(i as int)),
            decreases n - i,
        {
            let m = &self.method_entities[i];
            proof {
                let t = self.spec_methods().take(i as int + 1);
                assert(t.drop_last() =~= self.spec_methods().take(i as int));
                assert(t.last() == self.spec_methods()[i as int]);
            }
            if m.has_handler() {
                let ghost prev = out@;
                let c = crate::functions::copy_until_nul(self.class_name.as_slice());
                let k = m.name_bytes();
                out.push((Some(c), k));
                assert(key_view(out@) =~= key_view(prev).push((Some(until_nul(self.spec_class_name())), until_nul(m.spec_name()))));
            }
            i = i + 1;
        }
        assert(self.spec_methods().take(n as int) =~= self.spec_methods());
        out
    }

    /// Registers the class, with its parent and interfaces found by name,
    /// and gives the bound class; `None`, with nothing registered, when a
    /// name is not found or [`can_register`] fails.
    pub fn init(&self, table: &mut ClassTable) -> (r: Option<StateClass<T>>)
        ensures
            registration(
                match r {
                    Some(sc) => Some(sc.spec_id()),
                    None => None,
                },
                old(table).spec_classes(),
                final(table).spec_classes(),
                until_nul(self.spec_class_name()),
                self.spec_parent(),
                self.spec_interfaces(),
                class_flags(self.spec_methods()),
                method_names(self.spec_methods()),
                self.spec_properties(),
                self.spec_constants(),
            ),
            final(table).spec_next_handle() == old(table).spec_next_handle(),
    {
        let ghost cs = table.spec_classes();
        let parent = match &self.parent {
            Some(n) => match table.find(n.as_slice()) {
                Some(p) => Some(p),
                None => {
                    return None;
                },
            },
            None => None,
        };
        let ifaces = match resolve(table, &self.interfaces) {
            Some(v) => v,
            None => {
                return None;
            },
        };
        let name = crate::functions::copy_until_nul(self.class_name.as_slice());
        let methods = method_names_of(&self.method_entities);
        let flags = flags_of(&self.method_entities);
        match table.register(
            name.as_slice(),
            parent,
            ifaces,
            flags,
            &methods,
            &self.property_entities,
            &self.constants,
        ) {
            Some(id) => Some(StateClass { id, _p: std::marker::PhantomData }),
            None => None,
        }
    }
}

/// The view of handler keys.
pub open spec fn key_view(ks: Seq<(Option<Vec<u8>>, Vec<u8>)>) -> Seq<(Option<Seq<u8>>, Seq<u8>)> {
    ks.map_values(|k: (Option<Vec<u8>>, Vec<u8>)| (match k.0 {
        Some(c) => Some(c@),
        None => None,
    }, k.1@))
}

} // verus!

verus! {

/// The flags an interface gets from its methods.
pub open spec fn interface_flags(ms: Seq<MethodEntity>) -> u32 {
    if has_abstract(ms) {
        ZEND_ACC_INTERFACE | ZEND_ACC_IMPLICIT_ABSTRACT_CLASS
    } else {
        ZEND_ACC_INTERFACE
    }
}

/// Builder for registering an interface.
#[derive(Debug)]
pub struct InterfaceEntity {
    interface_name: Vec<u8>,
    method_entities: Vec<MethodEntity>,
    constants: Vec<ConstantEntity>,
    extends: Vec<Vec<u8>>,
}

impl InterfaceEntity {
    /// The interface name, as a C string.
    pub closed spec fn spec_interface_name(&self) -> Seq<u8> {
        self.interface_name@
    }

    /// The methods.
    pub closed spec fn spec_methods(&self) -> Seq<MethodEntity> {
        self.method_entities@
    }

    /// The constants.
    pub closed spec fn spec_constants(&self) -> Seq<ConstantEntity> {
        self.constants@
    }

    /// The names of the extended interfaces.
    pub closed spec fn spec_extends(&self) -> Seq<Seq<u8>> {
        self.extends@.map_values(|n: Vec<u8>| n@)
    }

    /// An interface with nothing declared yet.
    pub fn new(interface_name: &[u8]) -> (r: Self)
        ensures
            r.spec_interface_name() == c_name(interface_name@),
            r.spec_methods() == Seq::<MethodEntity>::empty(),
            r.spec_constants() == Seq::<ConstantEntity>::empty(),
            r.spec_extends() == Seq::<Seq<u8>>::empty(),
    {
        let r = InterfaceEntity {
            interface_name: ensure_end_with_zero(interface_name),
            method_entities: Vec::new(),
            constants: Vec::new(),
            extends: Vec::new(),
        };
        assert(r.spec_extends() =~= Seq::<Seq<u8>>::empty());
        r
    }

    /// Adds a method, which is public and abstract.
    pub fn add_method(&mut self, name: &[u8]) -> (r: &mut MethodEntity)
        ensures
            r.spec_name() == c_name(name@),
            !r.spec_has_handler(),
            r.spec_visibility() == ZEND_ACC_PUBLIC | ZEND_ACC_ABSTRACT,
            r.spec_arguments().len() == 0,
            r.spec_return_type() is None,
            final(self).spec_methods() == old(self).spec_methods().push(*final(r)),
            final(self).spec_interface_name() == old(self).spec_interface_name(),
            final(self).spec_constants() == old(self).spec_constants(),
            final(self).spec_extends() == old(self).spec_extends(),
    {
        let mut entity = MethodEntity::new(name, false, Visibility::Public);
        entity.set_vis_abstract();
        self.method_entities.push(entity);
        let n = self.method_entities.len();
        &mut self.method_entities[n - 1]
    }

    /// Adds a constant.
    pub fn add_constant(&mut self, name: &[u8], value: Scalar)
        ensures
            final(self).spec_constants().len() == old(self).spec_constants().len() + 1,
            final(self).spec_constants().drop_last() == old(self).spec_constants(),
            final(self).spec_constants().last().spec_name() == name@,
            final(self).spec_constants().last().spec_value() == value.model(),
            final(self).spec_methods() == old(self).spec_methods(),
            final(self).spec_interface_name() == old(self).spec_interface_name(),
            final(self).spec_extends() == old(self).spec_extends(),
    {
        self.constants.push(ConstantEntity::new(name, value));
        assert(self.constants@.drop_last() =~= old(self).constants@);
    }

    /// Makes the interface extend the interface named `interface`, found
    /// when it is registered; an interface can extend many.
    pub fn extends(&mut self, interface: &[u8])
        ensures
            final(self).spec_extends() == old(self).spec_extends().push(interface@),
            final(self).spec_methods() == old(self).spec_methods(),
            final(self).spec_interface_name() == old(self).spec_interface_name(),
            final(self).spec_constants() == old(self).spec_constants(),
    {
        self.extends.push(vstd::slice::slice_to_vec(interface));
        assert(self.spec_extends() =~= old(self).spec_extends().push(interface@));
    }

    /// Registers the interface, with the interfaces it extends found by
    /// name; `None`, with nothing registered, when a name is not found or
    /// [`can_register`] fails.
    pub fn init(&self, table: &mut ClassTable) -> (r: Option<Interface>)
        ensures
            registration(
                match r {
                    Some(i) => Some(i.spec_id()),
                    None => None,
                },
                old(table).spec_classes(),
                final(table).spec_classes(),
                until_nul(self.spec_interface_name()),
                None,
                self.spec_extends(),
                interface_flags(self.spec_methods()),
                method_names(self.spec_methods()),
                Seq::empty(),
                self.spec_constants(),
            ),
            final(table).spec_next_handle() == old(table).spec_next_handle(),
    {
        let ifaces = match resolve(table, &self.extends) {
            Some(v) => v,
            None => {
                return None;
            },
        };
        let name = crate::functions::copy_until_nul(self.interface_name.as_slice());
        let methods = method_names_of(&self.method_entities);
        let flags = if any_abstract(&self.method_entities) {
            ZEND_ACC_INTERFACE | ZEND_ACC_IMPLICIT_ABSTRACT_CLASS
        } else {
            ZEND_ACC_INTERFACE
        };
        let props: Vec<PropertyEntity> = Vec::new();
        let r = table.register(
            name.as_slice(),
            None,
            ifaces,
            flags,
            &methods,
            &props,
            &self.constants,
        );
        assert(props@ =~= Seq::<PropertyEntity>::empty());
        match r {
            Some(id) => Some(Interface { id }),
            None => None,
        }
    }
}

} // verus!

verus! {

/// Declarations with the same names and values leave the same constants.
pub proof fn lemma_fold_consts_congruent(a: Seq<ConstantEntity>, b: Seq<ConstantEntity>)
    requires
        a.len() == b.len(),
        forall|j: int|
            0 <= j < a.len() ==> (#[trigger] a[j]).spec_name() == b[j].spec_name()
                && a[j].spec_value() == b[j].spec_value(),
    ensures
        forall|base: Seq<(KeyModel, ScalarModel)>| fold_consts(base, a) == fold_consts(base, b),
    decreases a.len(),
{
    if a.len() > 0 {
        assert forall|j: int| 0 <= j < a.drop_last().len() implies (#[trigger] a.drop_last()[j]).spec_name()
            == b.drop_last()[j].spec_name() && a.drop_last()[j].spec_value()
            == b.drop_last()[j].spec_value() by {
            assert(a.drop_last()[j] == a[j]);
            assert(b.drop_last()[j] == b[j]);
        }
        lemma_fold_consts_congruent(a.drop_last(), b.drop_last());
        assert(a.last() == a[a.len() - 1]);
        assert(b.last() == b[b.len() - 1]);
        assert forall|base: Seq<(KeyModel, ScalarModel)>| fold_consts(base, a) == fold_consts(base, b) by {
            assert(fold_consts(base, a.drop_last()) == fold_consts(base, b.drop_last()));
        }
    } else {
        assert forall|base: Seq<(KeyModel, ScalarModel)>| fold_consts(base, a) == fold_consts(base, b) by {}
    }
}

} // verus!

verus! {

/// The names the classes of a module are registered under.
pub open spec fn entity_names(es: Seq<ClassEntity<()>>) -> Seq<Seq<u8>> {
    es.map_values(|e: ClassEntity<()>| until_nul(e.spec_class_name()))
}

/// The nearest class, from the one at `i` up through its parents, whose
/// name is one of `names`: for a class that extends one a module declares,
/// the declared one, whose objects carry the module's state.
pub open spec fn real_class(cs: Seq<ClassEntry>, names: Seq<Seq<u8>>, i: int) -> Option<int>
    decreases i,
{
    if !(0 <= i < cs.len()) {
        None
    } else if names.contains(cs[i].spec_name()) {
        Some(i)
    } else {
        match cs[i].spec_parent() {
            Some(p) => if p < i {
                real_class(cs, names, p as int)
            } else {
                None
            },
            None => None,
        }
    }
}

/// Finds the nearest class, from the class at `id` up through its parents,
/// that one of the module's class entities declares.
pub fn find_real_ce(table: &ClassTable, entities: &Vec<ClassEntity<()>>, id: usize) -> (r: Option<usize>)
    ensures
        match real_class(table.spec_classes(), entity_names(entities@), id as int) {
            Some(i) => r == Some(i as usize),
            None => r is None,
        },
{
    let n = table.len();
    let ghost cs = table.spec_classes();
    let ghost names = entity_names(entities@);
    let mut names_v: Vec<Vec<u8>> = Vec::new();
    let ne = entities.len();
    let mut j: usize = 0;
    while j < ne
        invariant
            0 <= j <= ne,
            ne == entities@.len(),
            names == entity_names(entities@),
            names_v@.len() == j,
            forall|k: int| 0 <= k < j ==> (#[trigger] names_v@[k])@ == names[k],
        decreases ne - j,
    {
        names_v.push(crate::functions::copy_until_nul(entities[j].class_name.as_slice()));
        j = j + 1;
    }
    let mut cur: Option<usize> = Some(id);
    while cur.is_some()
        invariant
            n == cs.len(),
            cs == table.spec_classes(),
            table_wf(cs),
            names == entity_names(entities@),
            names_v@.len() == names.len(),
            forall|k: int| 0 <= k < names.len() ==> (#[trigger] names_v@[k])@ == names[k],
            real_class(cs, names, id as int) == match cur {
                Some(c) => real_class(cs, names, c as int),
                None => None,
            },
        decreases match cur {
            Some(c) => c as int + 1,
            None => 0,
        },
    {
        let c = cur.unwrap();
        if c >= n {
            return None;
        }
        let name = table.get(c).unwrap().get_name().to_bytes();
        let mut k: usize = 0;
        while k < names_v.len()
            invariant
                0 <= k <= names_v@.len(),
                c < cs.len(),
                cs == table.spec_classes(),
                name@ == cs[c as int].spec_name(),
                real_class(cs, names, id as int) == real_class(cs, names, c as int),
                names == entity_names(entities@),
                names_v@.len() == names.len(),
                forall|q: int| 0 <= q < names.len() ==> (#[trigger] names_v@[q])@ == names[q],
                forall|q: int| 0 <= q < k ==> names[q] != name@,
            decreases names_v@.len() - k,
        {
            if crate::strings::bytes_eq(names_v[k].as_slice(), name) {
                proof {
                    assert(names[k as int] == cs[c as int].spec_name());
                    assert(names.contains(cs[c as int].spec_name()));
                    assert(real_class(cs, names, c as int) == Some(c as int));
                }
                return Some(c);
            }
            k = k + 1;
        }
        proof {
            if names.contains(cs[c as int].spec_name()) {
                let q = choose|q: int| 0 <= q < names.len() && names[q] == cs[c as int].spec_name();
                assert(names[q] != name@);
            }
        }
        cur = table.get(c).unwrap().parent();
    }
    None
}

} // verus!

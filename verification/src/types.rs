//! Type tags of PHP values.

use vstd::prelude::*;
use crate::utils::{ascii, lit};
use crate::values::{scalar_view, ScalarModel, ZVal};

verus! {

/// Type tag of an undefined value.
pub const IS_UNDEF: u32 = 0;
/// Type tag of `null`.
pub const IS_NULL: u32 = 1;
/// Type tag of `false`.
pub const IS_FALSE: u32 = 2;
/// Type tag of `true`.
pub const IS_TRUE: u32 = 3;
/// Type tag of an integer.
pub const IS_LONG: u32 = 4;
/// Type tag of a float.
pub const IS_DOUBLE: u32 = 5;
/// Type tag of a string.
pub const IS_STRING: u32 = 6;
/// Type tag of an array.
pub const IS_ARRAY: u32 = 7;
/// Type tag of an object.
pub const IS_OBJECT: u32 = 8;
/// Type tag of a resource.
pub const IS_RESOURCE: u32 = 9;
/// Type tag of a reference.
pub const IS_REFERENCE: u32 = 10;
/// Pseudo type tag of `callable` in type hints.
pub const IS_CALLABLE: u32 = 12;
/// Pseudo type tag of `iterable` in type hints.
pub const IS_ITERABLE: u32 = 13;
/// Pseudo type tag of `void` in type hints.
pub const IS_VOID: u32 = 14;
/// Pseudo type tag of `mixed` in type hints.
pub const IS_MIXED: u32 = 16;
/// Pseudo type tag of `bool` in type hints.
pub const IS_BOOL: u32 = 18;
/// Pseudo type tag of `int|float` in type hints.
pub const IS_NUMBER: u32 = 19;
/// The type flags stand above this bit.
pub const Z_TYPE_FLAGS_SHIFT: u32 = 8;
/// Type flag of reference-counted values.
pub const IS_TYPE_REFCOUNTED: u32 = 1;
/// Type flag of values that the cycle collector tracks.
pub const IS_TYPE_COLLECTABLE: u32 = 2;
/// Full type info of a reference-counted string.
pub const IS_STRING_EX: u32 = 0x106;
/// Full type info of a reference-counted array.
pub const IS_ARRAY_EX: u32 = 0x307;
/// Full type info of an object.
pub const IS_OBJECT_EX: u32 = 0x308;
/// Full type info of a resource.
pub const IS_RESOURCE_EX: u32 = 0x109;
/// Full type info of a reference.
pub const IS_REFERENCE_EX: u32 = 0x10a;

/// The base type of a raw type info: the low byte, below the type flags.
pub open spec fn base_type_of(t: u32) -> u32 {
    t % 256
}

/// Strips the type flags from a raw type info.
pub fn get_base_type_by_raw(t: u32) -> (r: u32)
    ensures
        r == base_type_of(t),
{
    let mask: u32 = !(!0u32 << Z_TYPE_FLAGS_SHIFT);
    assert(t & !(!0u32 << 8u32) == t % 256) by (bit_vector);
    t & mask
}

/// The name of a base type, as PHP reports it in messages.
pub open spec fn base_type_name(t: u32) -> Option<Seq<char>> {
    if t == IS_UNDEF {
        Some("undef"@)
    } else if t == IS_REFERENCE {
        Some("reference"@)
    } else if t == IS_FALSE || t == IS_TRUE || t == IS_BOOL {
        Some("bool"@)
    } else if t == IS_LONG {
        Some("int"@)
    } else if t == IS_DOUBLE {
        Some("float"@)
    } else if t == IS_STRING {
        Some("string"@)
    } else if t == IS_ARRAY {
        Some("array"@)
    } else if t == IS_OBJECT {
        Some("object"@)
    } else if t == IS_RESOURCE {
        Some("resource"@)
    } else if t == IS_NULL {
        Some("null"@)
    } else if t == IS_CALLABLE {
        Some("callable"@)
    } else if t == IS_VOID {
        Some("void"@)
    } else if t == IS_MIXED {
        Some("mixed"@)
    } else if t == IS_NUMBER {
        Some("number"@)
    } else {
        None
    }
}

/// The text a type info is shown as: its base type name, or `"unknown"`.
pub open spec fn type_display(t: u32) -> Seq<char> {
    match base_type_name(base_type_of(t)) {
        Some(n) => n,
        None => "unknown"@,
    }
}

/// The name of the base type of a raw type info, if it has one.
pub fn base_type_name_of(t: u32) -> (r: Option<&'static str>)
    ensures
        r matches Some(s) ==> base_type_name(base_type_of(t)) == Some(s@),
        r is None ==> base_type_name(base_type_of(t)) is None,
{
    let b = get_base_type_by_raw(t);
    if b == IS_UNDEF {
        Some("undef")
    } else if b == IS_REFERENCE {
        Some("reference")
    } else if b == IS_FALSE || b == IS_TRUE || b == IS_BOOL {
        Some("bool")
    } else if b == IS_LONG {
        Some("int")
    } else if b == IS_DOUBLE {
        Some("float")
    } else if b == IS_STRING {
        Some("string")
    } else if b == IS_ARRAY {
        Some("array")
    } else if b == IS_OBJECT {
        Some("object")
    } else if b == IS_RESOURCE {
        Some("resource")
    } else if b == IS_NULL {
        Some("null")
    } else if b == IS_CALLABLE {
        Some("callable")
    } else if b == IS_VOID {
        Some("void")
    } else if b == IS_MIXED {
        Some("mixed")
    } else if b == IS_NUMBER {
        Some("number")
    } else {
        None
    }
}

/// The bytes of [`type_display`].
pub fn type_display_bytes(t: u32) -> (r: Vec<u8>)
    ensures
        r@ == ascii(type_display(t)),
{
    let b = get_base_type_by_raw(t);
    proof {
        reveal_strlit("undef");
        reveal_strlit("reference");
        reveal_strlit("bool");
        reveal_strlit("int");
        reveal_strlit("float");
        reveal_strlit("string");
        reveal_strlit("array");
        reveal_strlit("object");
        reveal_strlit("resource");
        reveal_strlit("null");
        reveal_strlit("callable");
        reveal_strlit("void");
        reveal_strlit("mixed");
        reveal_strlit("number");
        reveal_strlit("unknown");
    }
    if b == IS_UNDEF {
        lit("undef")
    } else if b == IS_REFERENCE {
        lit("reference")
    } else if b == IS_FALSE || b == IS_TRUE || b == IS_BOOL {
        lit("bool")
    } else if b == IS_LONG {
        lit("int")
    } else if b == IS_DOUBLE {
        lit("float")
    } else if b == IS_STRING {
        lit("string")
    } else if b == IS_ARRAY {
        lit("array")
    } else if b == IS_OBJECT {
        lit("object")
    } else if b == IS_RESOURCE {
        lit("resource")
    } else if b == IS_NULL {
        lit("null")
    } else if b == IS_CALLABLE {
        lit("callable")
    } else if b == IS_VOID {
        lit("void")
    } else if b == IS_MIXED {
        lit("mixed")
    } else if b == IS_NUMBER {
        lit("number")
    } else {
        lit("unknown")
    }
}

/// Wrapper of a PHP type info.
#[derive(Clone, Copy, PartialEq, Eq, Structural, Debug)]
pub struct TypeInfo {
    t: u32,
}

impl From<u32> for TypeInfo {
    fn from(n: u32) -> (r: Self) {
        TypeInfo { t: n }
    }
}

impl vstd::std_specs::convert::FromSpecImpl<u32> for TypeInfo {
    open spec fn obeys_from_spec() -> bool {
        true
    }

    closed spec fn from_spec(n: u32) -> Self {
        TypeInfo { t: n }
    }
}

impl TypeInfo {
    /// The type info a raw number stands for, as `from` makes it.
    pub proof fn lemma_from_raw_number(n: u32)
        ensures
            <TypeInfo as vstd::std_specs::convert::FromSpec<u32>>::from_spec(n).raw() == n,
    {
    }

    /// The raw number of this type info.
    pub closed spec fn raw(self) -> u32 {
        self.t
    }

    /// The base type of this type info.
    pub open spec fn base(self) -> u32 {
        base_type_of(self.raw())
    }

    /// Array type info.
    pub fn array() -> (r: TypeInfo)
        ensures
            r.raw() == IS_ARRAY,
    {
        TypeInfo { t: IS_ARRAY }
    }
    /// Boolean type info.
    pub fn bool() -> (r: TypeInfo)
        ensures
            r.raw() == IS_BOOL,
    {
        TypeInfo { t: IS_BOOL }
    }
    /// Double number type info.
    pub fn double() -> (r: TypeInfo)
        ensures
            r.raw() == IS_DOUBLE,
    {
        TypeInfo { t: IS_DOUBLE }
    }
    /// Long number type info.
    pub fn long() -> (r: TypeInfo)
        ensures
            r.raw() == IS_LONG,
    {
        TypeInfo { t: IS_LONG }
    }
    /// Null type info.
    pub fn null() -> (r: TypeInfo)
        ensures
            r.raw() == IS_NULL,
    {
        TypeInfo { t: IS_NULL }
    }
    /// Object type info.
    pub fn object() -> (r: TypeInfo)
        ensures
            r.raw() == IS_OBJECT,
    {
        TypeInfo { t: IS_OBJECT }
    }
    /// Reference type info.
    pub fn reference() -> (r: TypeInfo)
        ensures
            r.raw() == IS_REFERENCE,
    {
        TypeInfo { t: IS_REFERENCE }
    }
    /// Resource type info.
    pub fn resource() -> (r: TypeInfo)
        ensures
            r.raw() == IS_RESOURCE,
    {
        TypeInfo { t: IS_RESOURCE }
    }
    /// String type info.
    pub fn string() -> (r: TypeInfo)
        ensures
            r.raw() == IS_STRING,
    {
        TypeInfo { t: IS_STRING }
    }
    /// Undefined type info.
    pub fn undef() -> (r: TypeInfo)
        ensures
            r.raw() == IS_UNDEF,
    {
        TypeInfo { t: IS_UNDEF }
    }

    /// Constructs a [`TypeInfo`] from a raw number.
    pub fn from_raw(t: u32) -> (r: Self)
        ensures
            r.raw() == t,
    {
        TypeInfo { t }
    }

    /// Type infos are their raw numbers: two with the same number are the
    /// same.
    pub proof fn lemma_raw_injective(a: TypeInfo, b: TypeInfo)
        ensures
            a.raw() == b.raw() <==> a == b,
    {
    }

    /// Transfers a [`TypeInfo`] to its raw number.
    pub fn into_raw(self) -> (r: u32)
        ensures
            r == self.raw(),
    {
        self.t
    }

    /// Detects if the type info is undefined.
    pub fn is_undef(self) -> (r: bool)
        ensures
            r == (self.raw() == IS_UNDEF),
    {
        self.t == IS_UNDEF
    }

    /// Detects if the type info is null.
    pub fn is_null(self) -> (r: bool)
        ensures
            r == (self.raw() == IS_NULL),
    {
        self.t == IS_NULL
    }

    /// Detects if the type info is boolean: `true`, `false`, or the type
    /// `bool` itself.
    pub fn is_bool(self) -> (r: bool)
        ensures
            r == (self.base() == IS_TRUE || self.base() == IS_FALSE || self.base() == IS_BOOL),
    {
        self.is_true() || self.is_false() || get_base_type_by_raw(self.t) == IS_BOOL
    }

    /// Detects if the type info is true.
    pub fn is_true(self) -> (r: bool)
        ensures
            r == (self.base() == IS_TRUE),
    {
        get_base_type_by_raw(self.t) == IS_TRUE
    }

    /// Detects if the type info is false.
    pub fn is_false(self) -> (r: bool)
        ensures
            r == (self.base() == IS_FALSE),
    {
        get_base_type_by_raw(self.t) == IS_FALSE
    }

    /// Detects if the type info is long.
    pub fn is_long(self) -> (r: bool)
        ensures
            r == (self.base() == IS_LONG),
    {
        get_base_type_by_raw(self.t) == IS_LONG
    }

    /// Detects if the type info is double.
    pub fn is_double(self) -> (r: bool)
        ensures
            r == (self.base() == IS_DOUBLE),
    {
        get_base_type_by_raw(self.t) == IS_DOUBLE
    }

    /// Detects if the type info is string.
    pub fn is_string(self) -> (r: bool)
        ensures
            r == (self.base() == IS_STRING),
    {
        get_base_type_by_raw(self.t) == IS_STRING
    }

    /// Detects if the type info is array.
    pub fn is_array(self) -> (r: bool)
        ensures
            r == (self.base() == IS_ARRAY),
    {
        get_base_type_by_raw(self.t) == IS_ARRAY
    }

    /// Detects if the type info is object.
    pub fn is_object(self) -> (r: bool)
        ensures
            r == (self.base() == IS_OBJECT),
    {
        get_base_type_by_raw(self.t) == IS_OBJECT
    }

    /// Detects if the type info is resource.
    pub fn is_resource(self) -> (r: bool)
        ensures
            r == (self.base() == IS_RESOURCE),
    {
        get_base_type_by_raw(self.t) == IS_RESOURCE
    }

    /// Detects if the type info is reference.
    pub fn is_reference(self) -> (r: bool)
        ensures
            r == (self.base() == IS_REFERENCE),
    {
        get_base_type_by_raw(self.t) == IS_REFERENCE
    }

    /// Gets the name of the base type.
    pub fn get_base_type_name(self) -> (r: Option<&'static str>)
        ensures
            r matches Some(s) ==> base_type_name(self.base()) == Some(s@),
            r is None ==> base_type_name(self.base()) is None,
    {
        base_type_name_of(self.t)
    }

    /// The text this type info is shown as.
    pub fn to_display_bytes(self) -> (r: Vec<u8>)
        ensures
            r@ == ascii(type_display(self.raw())),
    {
        type_display_bytes(self.t)
    }

    /// Transfers the type info to the base type info.
    pub fn get_base_type(self) -> (r: TypeInfo)
        ensures
            r.raw() == self.base(),
    {
        TypeInfo { t: get_base_type_by_raw(self.t) }
    }
}

/// Stripping the flags twice is stripping them once, and every predicate on
/// a type info agrees with the same predicate on its base type.
pub proof fn lemma_base_type_idempotent(t: TypeInfo)
    ensures
        base_type_of(base_type_of(t.raw())) == base_type_of(t.raw()),
        base_type_of(t.raw()) < 256,
{
}

/// Copyable value, used in constants and class properties.
#[derive(Debug)]
pub enum Scalar {
    /// Null.
    Null,
    /// Boolean.
    Bool(bool),
    /// Long.
    I64(i64),
    /// Double, by its IEEE-754 bits.
    F64(u64),
    /// String.
    String(Vec<u8>),
    /// Binary string.
    Bytes(Vec<u8>),
}

impl Scalar {
    /// The value this scalar stands for.
    pub open spec fn model(&self) -> ScalarModel {
        match self {
            Scalar::Null => ScalarModel::Null,
            Scalar::Bool(b) => ScalarModel::Bool(*b),
            Scalar::I64(i) => ScalarModel::Long(*i),
            Scalar::F64(d) => ScalarModel::Double(*d),
            Scalar::String(s) => ScalarModel::Str(s@),
            Scalar::Bytes(b) => ScalarModel::Str(b@),
        }
    }

    /// A copy of the scalar.
    pub fn duplicate(&self) -> (r: Scalar)
        ensures
            r.model() == self.model(),
    {
        match self {
            Scalar::Null => Scalar::Null,
            Scalar::Bool(b) => Scalar::Bool(*b),
            Scalar::I64(i) => Scalar::I64(*i),
            Scalar::F64(d) => Scalar::F64(*d),
            Scalar::String(s) => Scalar::String(vstd::slice::slice_to_vec(s.as_slice())),
            Scalar::Bytes(b) => Scalar::Bytes(vstd::slice::slice_to_vec(b.as_slice())),
        }
    }

    /// The value that holds this scalar.
    pub fn to_zval(&self) -> (r: ZVal)
        ensures
            scalar_view(r) == self.model(),
    {
        match self {
            Scalar::Null => ZVal::Null,
            Scalar::Bool(b) => ZVal::from_bool(*b),
            Scalar::I64(i) => ZVal::Long(*i),
            Scalar::F64(d) => ZVal::Double(*d),
            Scalar::String(s) => ZVal::from_bytes(s.as_slice()),
            Scalar::Bytes(b) => ZVal::from_bytes(b.as_slice()),
        }
    }
}

/// Nothing in a scalar is not a scalar.
pub proof fn lemma_scalar_is_scalar(s: Scalar)
    ensures
        !(s.model() is NonScalar),
{
}

} // verus!

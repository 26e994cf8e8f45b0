//! Descriptions of PHP functions in PHP's own syntax, for stub files: the
//! types, values, arguments and signatures, and the text each stands for.

use vstd::prelude::*;
use crate::numeric::{long_repr, long_to_bytes, nat_digits, push_digits};
use crate::arrays::{
    lemma_find_key_none, model_update, normalize_bytes, ulong_as_long, InsertKey, KeyModel, ZArr,
};
use crate::types::{
    type_display, IS_ARRAY, IS_BOOL, IS_DOUBLE, IS_FALSE, IS_LONG, IS_MIXED, IS_OBJECT, IS_STRING,
    IS_TRUE, IS_VOID,
};
use crate::utils::{append_bytes, ascii, lit};
use crate::values::ZVal;

verus! {

/// The key type of an array type.
#[derive(Debug, Clone, Copy, PartialEq, Eq, Structural)]
pub enum ArrayKeyType {
    /// String keys.
    String,
    /// Integer keys.
    Int,
    /// Both.
    Mixed,
}

/// A PHP type, as stubs write it.
#[derive(Debug)]
pub enum AtomicType {
    /// `bool`.
    Bool,
    /// `int`.
    Int,
    /// `float`.
    Float,
    /// `string`.
    String,
    /// A string that is not empty.
    NonEmptyString,
    /// An integer in a range.
    IntRange(i64, i64),
    /// A class name.
    ClassString,
    /// The name of a class derived from the given one.
    ClassStringOf(Vec<u8>),
    /// A trait name.
    TraitString,
    /// An enum name.
    EnumString,
    /// A numeric string.
    NumericString,
    /// A literal string.
    LiteralString,
    /// A literal integer.
    LiteralInt,
    /// A number or a numeric string.
    Numeric,
    /// A scalar.
    Scalar,
    /// Any object.
    Object,
    /// An object of the given class.
    ObjectOf(Vec<u8>),
    /// A list of values of a type.
    List(Box<AtomicType>),
    /// An array with keys and values of the given types.
    Array(Box<(ArrayKeyType, AtomicType)>),
    /// A list that is not empty.
    NonEmptyList(Box<AtomicType>),
    /// An array that is not empty.
    NonEmptyArray(Box<(ArrayKeyType, AtomicType)>),
    /// An array of a given shape.
    Shape(Vec<(ArrayKeyType, AtomicType)>),
    /// An iterable with keys and values of the given types.
    Iterable(Box<(ArrayKeyType, AtomicType)>),
    /// `null`.
    Null,
    /// `true`.
    True,
    /// `false`.
    False,
    /// A resource.
    Resource,
    /// A closed resource.
    ClosedResource,
    /// `mixed`.
    Mixed,
    /// Any of the given types.
    Union(Vec<AtomicType>),
    /// A closure with the given arguments and return type.
    Function(Vec<Argument>, Box<AtomicReturnType>),
}

/// The text a type is declared with.
pub open spec fn describe_type(t: AtomicType) -> Seq<u8>
    decreases t,
{
    match t {
        AtomicType::Bool => ascii("bool"@),
        AtomicType::Int => ascii("int"@),
        AtomicType::Float => ascii("float"@),
        AtomicType::String => ascii("string"@),
        AtomicType::NonEmptyString => ascii("string"@),
        AtomicType::IntRange(_, _) => ascii("int"@),
        AtomicType::ClassString => ascii("string"@),
        AtomicType::ClassStringOf(_) => ascii("string"@),
        AtomicType::TraitString => ascii("string"@),
        AtomicType::EnumString => ascii("string"@),
        AtomicType::NumericString => ascii("string"@),
        AtomicType::LiteralString => ascii("string"@),
        AtomicType::LiteralInt => ascii("int"@),
        AtomicType::Numeric => ascii("int|float|string"@),
        AtomicType::Scalar => ascii("int|float|string|bool"@),
        AtomicType::Object => ascii("object"@),
        AtomicType::ObjectOf(c) => c@,
        AtomicType::List(_) => ascii("array"@),
        AtomicType::Array(_) => ascii("array"@),
        AtomicType::NonEmptyList(_) => ascii("array"@),
        AtomicType::NonEmptyArray(_) => ascii("array"@),
        AtomicType::Shape(_) => ascii("array"@),
        AtomicType::Iterable(_) => ascii("iterable"@),
        AtomicType::Null => ascii("mixed"@),
        AtomicType::True => ascii("bool"@),
        AtomicType::False => ascii("bool"@),
        AtomicType::Resource => ascii("mixed"@),
        AtomicType::ClosedResource => ascii("mixed"@),
        AtomicType::Mixed => ascii("mixed"@),
        AtomicType::Union(ts) => describe_union(ts@),
        AtomicType::Function(_, _) => ascii("Closure"@),
    }
}

/// The texts of the types, joined by `|`.
pub open spec fn describe_union(ts: Seq<AtomicType>) -> Seq<u8>
    decreases ts,
{
    if ts.len() == 0 {
        Seq::empty()
    } else if ts.len() == 1 {
        describe_type(ts[0])
    } else {
        describe_union(ts.subrange(0, ts.len() - 1)) + seq![124u8] + describe_type(ts[ts.len() - 1])
    }
}

/// The engine type that every value of `t` has, where it is one type the
/// engine names: the type a declaration of `t` stands for.
pub open spec fn value_type(t: AtomicType) -> Option<u32> {
    match t {
        AtomicType::Bool => Some(IS_BOOL),
        AtomicType::True => Some(IS_TRUE),
        AtomicType::False => Some(IS_FALSE),
        AtomicType::Int => Some(IS_LONG),
        AtomicType::IntRange(_, _) => Some(IS_LONG),
        AtomicType::LiteralInt => Some(IS_LONG),
        AtomicType::Float => Some(IS_DOUBLE),
        AtomicType::String => Some(IS_STRING),
        AtomicType::NonEmptyString => Some(IS_STRING),
        AtomicType::ClassString => Some(IS_STRING),
        AtomicType::ClassStringOf(_) => Some(IS_STRING),
        AtomicType::TraitString => Some(IS_STRING),
        AtomicType::EnumString => Some(IS_STRING),
        AtomicType::NumericString => Some(IS_STRING),
        AtomicType::LiteralString => Some(IS_STRING),
        AtomicType::Object => Some(IS_OBJECT),
        AtomicType::List(_) => Some(IS_ARRAY),
        AtomicType::Array(_) => Some(IS_ARRAY),
        AtomicType::NonEmptyList(_) => Some(IS_ARRAY),
        AtomicType::NonEmptyArray(_) => Some(IS_ARRAY),
        AtomicType::Shape(_) => Some(IS_ARRAY),
        AtomicType::Mixed => Some(IS_MIXED),
        _ => None,
    }
}

/// A type whose values all have one engine type is declared with the name
/// the engine gives that type (a float is declared `float`, an int range
/// `int`, a list `array`); `numeric` is declared as the union of `int`,
/// `float` and `string`, and `scalar` as that union and `bool`. A return
/// type of a value is declared as the value's type, and `void` by the
/// engine's name for it.
pub proof fn lemma_describe_names_the_engine_type(t: AtomicType)
    ensures
        value_type(t) matches Some(c) ==> describe_type(t) == ascii(type_display(c)),
        describe_return(AtomicReturnType::Void) == ascii(type_display(IS_VOID)),
        describe_return(AtomicReturnType::Of(t)) == describe_type(t),
        describe_type(AtomicType::Numeric) == describe_union(
            seq![AtomicType::Int, AtomicType::Float, AtomicType::String],
        ),
        describe_type(AtomicType::Scalar) == describe_union(
            seq![AtomicType::Int, AtomicType::Float, AtomicType::String, AtomicType::Bool],
        ),
{
    reveal_strlit("int|float|string");
    reveal_strlit("int|float|string|bool");
    reveal_strlit("int");
    reveal_strlit("float");
    reveal_strlit("string");
    reveal_strlit("bool");
    let s1 = seq![AtomicType::Int];
    let s2 = seq![AtomicType::Int, AtomicType::Float];
    let n = seq![AtomicType::Int, AtomicType::Float, AtomicType::String];
    let sc = seq![AtomicType::Int, AtomicType::Float, AtomicType::String, AtomicType::Bool];
    assert(describe_type(AtomicType::Int) == ascii("int"@));
    assert(describe_type(AtomicType::Float) == ascii("float"@));
    assert(describe_type(AtomicType::String) == ascii("string"@));
    assert(describe_type(AtomicType::Bool) == ascii("bool"@));
    assert(s1.len() == 1 && s1[0] == AtomicType::Int);
    assert(describe_union(s1) == ascii("int"@));
    assert(s2.len() == 2 && s2[1] == AtomicType::Float);
    assert(s2.subrange(0, 1) =~= s1);
    assert(describe_union(s2) == ascii("int"@) + seq![124u8] + ascii("float"@));
    assert(n.len() == 3 && n[2] == AtomicType::String);
    assert(n.subrange(0, 2) =~= s2);
    assert(describe_union(n) == describe_union(s2) + seq![124u8] + ascii("string"@));
    assert(ascii("int|float|string"@) =~= ascii("int"@) + seq![124u8] + ascii("float"@) + seq![
        124u8,
    ] + ascii("string"@));
    assert(sc.len() == 4 && sc[3] == AtomicType::Bool);
    assert(sc.subrange(0, 3) =~= n);
    assert(describe_union(sc) == describe_union(n) + seq![124u8] + ascii("bool"@));
    assert(ascii("int|float|string|bool"@) =~= describe_union(n) + seq![124u8] + ascii("bool"@));
}

} // verus!

verus! {

/// The return type of a function.
#[derive(Debug)]
pub enum AtomicReturnType {
    /// A value of the type.
    Of(AtomicType),
    /// `void`.
    Void,
    /// `never`.
    Never,
}

/// The text a return type is declared with.
pub open spec fn describe_return(t: AtomicReturnType) -> Seq<u8> {
    match t {
        AtomicReturnType::Of(a) => describe_type(a),
        AtomicReturnType::Void => ascii("void"@),
        AtomicReturnType::Never => ascii("never"@),
    }
}

/// An array key in a constant value.
#[derive(Debug)]
pub enum ArrayKeyValue {
    /// A string key.
    String(Vec<u8>),
    /// An integer key.
    Int(u64),
}

/// A string in single quotes, with each quote in it escaped.
pub open spec fn quoted(s: Seq<u8>) -> Seq<u8> {
    seq![39u8] + escape_quotes(s) + seq![39u8]
}

/// The text with `\` put before each single quote.
pub open spec fn escape_quotes(s: Seq<u8>) -> Seq<u8>
    decreases s.len(),
{
    if s.len() == 0 {
        s
    } else {
        let rest = escape_quotes(s.drop_last());
        if s.last() == 39u8 {
            rest + seq![92u8, 39u8]
        } else {
            rest.push(s.last())
        }
    }
}

/// The text of an array key.
pub open spec fn describe_key(k: ArrayKeyValue) -> Seq<u8> {
    match k {
        ArrayKeyValue::String(s) => quoted(s@),
        ArrayKeyValue::Int(n) => nat_digits(n as nat),
    }
}

/// A constant value, as a default value of an argument.
#[derive(Debug)]
pub enum ConstantValue {
    /// A string.
    String(Vec<u8>),
    /// An integer.
    Int(i64),
    /// A boolean.
    Bool(bool),
    /// A list of values.
    List(Vec<ConstantValue>),
    /// An array of keys and values.
    Array(Vec<(ArrayKeyValue, ConstantValue)>),
    /// A global constant, by name.
    Constant(Vec<u8>),
    /// A class constant: the class and the constant name.
    ClassConstant(Vec<u8>, Vec<u8>),
    /// An enum case: the enum and the case name.
    EnumCase(Vec<u8>, Vec<u8>),
    /// `null`.
    Null,
}

/// The text of a constant value.
pub open spec fn describe_value(v: ConstantValue) -> Seq<u8>
    decreases v,
{
    match v {
        ConstantValue::String(s) => quoted(s@),
        ConstantValue::Int(n) => long_repr(n as int),
        ConstantValue::Bool(b) => if b {
            ascii("true"@)
        } else {
            ascii("false"@)
        },
        ConstantValue::List(vs) => seq![91u8] + describe_values(vs@) + seq![93u8],
        ConstantValue::Array(es) => seq![91u8] + describe_entries(es@) + seq![93u8],
        ConstantValue::Constant(c) => c@,
        ConstantValue::ClassConstant(c, k) => c@ + seq![58u8, 58u8] + k@,
        ConstantValue::EnumCase(c, k) => c@ + seq![58u8, 58u8] + k@,
        ConstantValue::Null => ascii("null"@),
    }
}

/// The texts of the values, joined by `, `.
pub open spec fn describe_values(vs: Seq<ConstantValue>) -> Seq<u8>
    decreases vs,
{
    if vs.len() == 0 {
        Seq::empty()
    } else if vs.len() == 1 {
        describe_value(vs[0])
    } else {
        describe_values(vs.subrange(0, vs.len() - 1)) + seq![44u8, 32u8] + describe_value(
            vs[vs.len() - 1],
        )
    }
}

/// The texts `key => value` of the entries, joined by `, `.
pub open spec fn describe_entries(es: Seq<(ArrayKeyValue, ConstantValue)>) -> Seq<u8>
    decreases es,
{
    if es.len() == 0 {
        Seq::empty()
    } else {
        let e = es[es.len() - 1];
        let last = describe_key(e.0) + ascii(" => "@) + describe_value(e.1);
        if es.len() == 1 {
            last
        } else {
            describe_entries(es.subrange(0, es.len() - 1)) + seq![44u8, 32u8] + last
        }
    }
}

/// How an argument is declared beyond its type and name.
#[derive(Debug)]
pub enum ArgumentFlag {
    /// It takes the remaining arguments.
    IsVaradic,
    /// It has a default value.
    HasDefault(ConstantValue),
}

/// An argument of a described function.
#[derive(Debug)]
pub struct Argument {
    /// The name.
    pub name: Vec<u8>,
    /// The type.
    pub data_type: AtomicType,
    /// How it is declared beyond its type and name.
    pub flag: Option<ArgumentFlag>,
}

/// The text an argument is declared with.
pub open spec fn describe_argument(a: Argument) -> Seq<u8> {
    match a.flag {
        Some(ArgumentFlag::IsVaradic) => describe_type(a.data_type) + ascii(" ...$"@) + a.name@,
        Some(ArgumentFlag::HasDefault(v)) => describe_type(a.data_type) + ascii(" $"@) + a.name@
            + ascii(" = "@) + describe_value(v),
        None => describe_type(a.data_type) + ascii(" $"@) + a.name@,
    }
}

/// The texts of the arguments, joined by `, `.
pub open spec fn describe_arguments(args: Seq<Argument>) -> Seq<u8>
    decreases args.len(),
{
    if args.len() == 0 {
        Seq::empty()
    } else if args.len() == 1 {
        describe_argument(args[0])
    } else {
        describe_arguments(args.drop_last()) + seq![44u8, 32u8] + describe_argument(args.last())
    }
}

} // verus!

verus! {

impl AtomicType {
    /// A list of values of the type.
    pub fn list(value_type: AtomicType) -> (r: AtomicType)
        ensures
            r == AtomicType::List(Box::new(value_type)),
    {
        AtomicType::List(Box::new(value_type))
    }

    /// A list of values of the type that is not empty; described as a list.
    pub fn non_empty_list(value_type: AtomicType) -> (r: AtomicType)
        ensures
            r == AtomicType::List(Box::new(value_type)),
    {
        AtomicType::List(Box::new(value_type))
    }

    /// An array with keys and values of the given types.
    pub fn array(key_type: ArrayKeyType, value_type: AtomicType) -> (r: AtomicType)
        ensures
            r == AtomicType::Array(Box::new((key_type, value_type))),
    {
        AtomicType::Array(Box::new((key_type, value_type)))
    }

    /// An array that is not empty; described as an array.
    pub fn non_empty_array(key_type: ArrayKeyType, value_type: AtomicType) -> (r: AtomicType)
        ensures
            r == AtomicType::Array(Box::new((key_type, value_type))),
    {
        AtomicType::Array(Box::new((key_type, value_type)))
    }

    /// An iterable with keys and values of the given types.
    pub fn iterable(key_type: ArrayKeyType, value_type: AtomicType) -> (r: AtomicType)
        ensures
            r == AtomicType::Iterable(Box::new((key_type, value_type))),
    {
        AtomicType::Iterable(Box::new((key_type, value_type)))
    }

    /// A closure with the given arguments and return type.
    pub fn function(arguments: Vec<Argument>, return_type: AtomicReturnType) -> (r: AtomicType)
        ensures
            r == AtomicType::Function(arguments, Box::new(return_type)),
    {
        AtomicType::Function(arguments, Box::new(return_type))
    }

    /// The text the type is declared with.
    pub fn describe(&self) -> (r: Vec<u8>)
        ensures
            r@ == describe_type(*self),
        decreases self,
    {
        proof {
            reveal_strlit("bool");
            reveal_strlit("int");
            reveal_strlit("float");
            reveal_strlit("string");
            reveal_strlit("int|float|string");
            reveal_strlit("int|float|string|bool");
            reveal_strlit("object");
            reveal_strlit("array");
            reveal_strlit("iterable");
            reveal_strlit("mixed");
            reveal_strlit("Closure");
        }
        match self {
            AtomicType::Bool => lit("bool"),
            AtomicType::Int => lit("int"),
            AtomicType::Float => lit("float"),
            AtomicType::String => lit("string"),
            AtomicType::NonEmptyString => lit("string"),
            AtomicType::IntRange(_, _) => lit("int"),
            AtomicType::ClassString => lit("string"),
            AtomicType::ClassStringOf(_) => lit("string"),
            AtomicType::TraitString => lit("string"),
            AtomicType::EnumString => lit("string"),
            AtomicType::NumericString => lit("string"),
            AtomicType::LiteralString => lit("string"),
            AtomicType::LiteralInt => lit("int"),
            AtomicType::Numeric => lit("int|float|string"),
            AtomicType::Scalar => lit("int|float|string|bool"),
            AtomicType::Object => lit("object"),
            AtomicType::ObjectOf(c) => vstd::slice::slice_to_vec(c.as_slice()),
            AtomicType::List(_) => lit("array"),
            AtomicType::Array(_) => lit("array"),
            AtomicType::NonEmptyList(_) => lit("array"),
            AtomicType::NonEmptyArray(_) => lit("array"),
            AtomicType::Shape(_) => lit("array"),
            AtomicType::Iterable(_) => lit("iterable"),
            AtomicType::Null => lit("mixed"),
            AtomicType::True => lit("bool"),
            AtomicType::False => lit("bool"),
            AtomicType::Resource => lit("mixed"),
            AtomicType::ClosedResource => lit("mixed"),
            AtomicType::Mixed => lit("mixed"),
            AtomicType::Union(ts) => {
                let mut out: Vec<u8> = Vec::new();
                let n = ts.len();
                let mut i: usize = 0;
                while i < n
                    invariant
                        0 <= i <= n,
                        n == ts@.len(),
                        *self == AtomicType::Union(*ts),
                        out@ == describe_union(ts@.take(i as int)),
                    decreases n - i,
                {
                    if i > 0 {
                        out.push(124u8);
                    }
                    proof {
                        assert(decreases_to!(*self => (*self)->Union_0));
                        assert(decreases_to!(*ts => ts@));
                        assert(decreases_to!(ts@ => ts@[i as int]));
                    }
                    let d = ts[i].describe();
                    append_bytes(&mut out, d.as_slice());
                    proof {
                        let t = ts@.take(i as int + 1);
                        assert(t.subrange(0, i as int) =~= ts@.take(i as int));
                        assert(t[i as int] == ts@[i as int]);
                        if i == 0 {
                            assert(ts@.take(0) =~= Seq::<AtomicType>::empty());
                        }
                    }
                    i = i + 1;
                }
                assert(ts@.take(n as int) =~= ts@);
                out
            },
            AtomicType::Function(_, _) => lit("Closure"),
        }
    }
}

impl AtomicReturnType {
    /// The text the return type is declared with.
    pub fn describe(&self) -> (r: Vec<u8>)
        ensures
            r@ == describe_return(*self),
    {
        proof {
            reveal_strlit("void");
            reveal_strlit("never");
        }
        match self {
            AtomicReturnType::Of(t) => t.describe(),
            AtomicReturnType::Void => lit("void"),
            AtomicReturnType::Never => lit("never"),
        }
    }
}

/// Appends the text in single quotes, each quote in it escaped.
fn push_quoted(out: &mut Vec<u8>, s: &[u8])
    ensures
        final(out)@ == old(out)@ + quoted(s@),
{
    out.push(39u8);
    let n = s.len();
    let mut i: usize = 0;
    while i < n
        invariant
            0 <= i <= n,
            n == s@.len(),
            out@ == old(out)@ + seq![39u8] + escape_quotes(s@.take(i as int)),
        decreases n - i,
    {
        proof {
            let t = s@.take(i as int + 1);
            assert(t.drop_last() =~= s@.take(i as int));
            assert(t.last() == s@[i as int]);
        }
        if s[i] == 39u8 {
            out.push(92u8);
            out.push(39u8);
        } else {
            out.push(s[i]);
        }
        i = i + 1;
        assert(out@ =~= old(out)@ + seq![39u8] + escape_quotes(s@.take(i as int)));
    }
    out.push(39u8);
    assert(s@.take(n as int) =~= s@);
    assert(out@ =~= old(out)@ + quoted(s@));
}

impl ArrayKeyValue {
    /// The text of the key.
    pub fn describe(&self) -> (r: Vec<u8>)
        ensures
            r@ == describe_key(*self),
    {
        let mut out: Vec<u8> = Vec::new();
        match self {
            ArrayKeyValue::String(s) => push_quoted(&mut out, s.as_slice()),
            ArrayKeyValue::Int(n) => push_digits(*n, &mut out),
        }
        assert(out@ =~= describe_key(*self));
        out
    }
}

impl ConstantValue {
    /// The text of the value.
    pub fn describe(&self) -> (r: Vec<u8>)
        ensures
            r@ == describe_value(*self),
        decreases self,
    {
        proof {
            reveal_strlit("true");
            reveal_strlit("false");
            reveal_strlit("null");
            reveal_strlit(" => ");
        }
        match self {
            ConstantValue::String(s) => {
                let mut out: Vec<u8> = Vec::new();
                push_quoted(&mut out, s.as_slice());
                assert(out@ =~= quoted(s@));
                out
            },
            ConstantValue::Int(n) => long_to_bytes(*n),
            ConstantValue::Bool(b) => if *b {
                lit("true")
            } else {
                lit("false")
            },
            ConstantValue::List(vs) => {
                let mut out: Vec<u8> = Vec::new();
                out.push(91u8);
                let n = vs.len();
                let mut i: usize = 0;
                while i < n
                    invariant
                        0 <= i <= n,
                        n == vs@.len(),
                        *self == ConstantValue::List(*vs),
                        out@ == seq![91u8] + describe_values(vs@.take(i as int)),
                    decreases n - i,
                {
                    if i > 0 {
                        out.push(44u8);
                        out.push(32u8);
                    }
                    proof {
                        assert(decreases_to!(*self => (*self)->List_0));
                        assert(decreases_to!(*vs => vs@));
                        assert(decreases_to!(vs@ => vs@[i as int]));
                    }
                    let d = vs[i].describe();
                    append_bytes(&mut out, d.as_slice());
                    proof {
                        let t = vs@.take(i as int + 1);
                        assert(t.subrange(0, i as int) =~= vs@.take(i as int));
                        assert(t[i as int] == vs@[i as int]);
                        if i == 0 {
                            assert(vs@.take(0) =~= Seq::<ConstantValue>::empty());
                        }
                    }
                    i = i + 1;
                    assert(out@ =~= seq![91u8] + describe_values(vs@.take(i as int)));
                }
                out.push(93u8);
                assert(vs@.take(n as int) =~= vs@);
                assert(out@ =~= describe_value(*self));
                out
            },
            ConstantValue::Array(es) => {
                let mut out: Vec<u8> = Vec::new();
                out.push(91u8);
                let n = es.len();
                let mut i: usize = 0;
                while i < n
                    invariant
                        0 <= i <= n,
                        n == es@.len(),
                        *self == ConstantValue::Array(*es),
                        out@ == seq![91u8] + describe_entries(es@.take(i as int)),
                    decreases n - i,
                {
                    if i > 0 {
                        out.push(44u8);
                        out.push(32u8);
                    }
                    let k = es[i].0.describe();
                    append_bytes(&mut out, k.as_slice());
                    proof {
                        reveal_strlit(" => ");
                    }
                    let arrow = lit(" => ");
                    append_bytes(&mut out, arrow.as_slice());
                    proof {
                        assert(decreases_to!(*self => (*self)->Array_0));
                        assert(decreases_to!(*es => es@));
                        assert(decreases_to!(es@ => es@[i as int]));
                        assert(decreases_to!(es@[i as int] => es@[i as int].1));
                    }
                    let d = es[i].1.describe();
                    append_bytes(&mut out, d.as_slice());
                    proof {
                        let t = es@.take(i as int + 1);
                        assert(t.subrange(0, i as int) =~= es@.take(i as int));
                        assert(t[i as int] == es@[i as int]);
                        if i == 0 {
                            assert(es@.take(0) =~= Seq::<(ArrayKeyValue, ConstantValue)>::empty());
                        }
                    }
                    i = i + 1;
                    assert(out@ =~= seq![91u8] + describe_entries(es@.take(i as int)));
                }
                out.push(93u8);
                assert(es@.take(n as int) =~= es@);
                assert(out@ =~= describe_value(*self));
                out
            },
            ConstantValue::Constant(c) => vstd::slice::slice_to_vec(c.as_slice()),
            ConstantValue::ClassConstant(c, k) => {
                let mut out = vstd::slice::slice_to_vec(c.as_slice());
                out.push(58u8);
                out.push(58u8);
                append_bytes(&mut out, k.as_slice());
                assert(out@ =~= c@ + seq![58u8, 58u8] + k@);
                out
            },
            ConstantValue::EnumCase(c, k) => {
                let mut out = vstd::slice::slice_to_vec(c.as_slice());
                out.push(58u8);
                out.push(58u8);
                append_bytes(&mut out, k.as_slice());
                assert(out@ =~= c@ + seq![58u8, 58u8] + k@);
                out
            },
            ConstantValue::Null => lit("null"),
        }
    }
}

} // verus!

verus! {

impl Argument {
    /// An argument of a type.
    pub fn new(name: &[u8], data_type: AtomicType) -> (r: Self)
        ensures
            r.name@ == name@,
            r.data_type == data_type,
            r.flag is None,
    {
        Argument { name: vstd::slice::slice_to_vec(name), data_type, flag: None }
    }

    /// An argument that takes the remaining arguments.
    pub fn varadic(name: &[u8], data_type: AtomicType) -> (r: Self)
        ensures
            r.name@ == name@,
            r.data_type == data_type,
            r.flag == Some(ArgumentFlag::IsVaradic),
    {
        Argument {
            name: vstd::slice::slice_to_vec(name),
            data_type,
            flag: Some(ArgumentFlag::IsVaradic),
        }
    }

    /// The same argument with a default value.
    pub fn with_default(self, value: ConstantValue) -> (r: Self)
        ensures
            r.name == self.name,
            r.data_type == self.data_type,
            r.flag == Some(ArgumentFlag::HasDefault(value)),
    {
        Argument { name: self.name, data_type: self.data_type, flag: Some(ArgumentFlag::HasDefault(value)) }
    }

    /// The text the argument is declared with.
    pub fn describe(&self) -> (r: Vec<u8>)
        ensures
            r@ == describe_argument(*self),
    {
        proof {
            reveal_strlit(" ...$");
            reveal_strlit(" $");
            reveal_strlit(" = ");
        }
        let mut out = self.data_type.describe();
        match &self.flag {
            Some(ArgumentFlag::IsVaradic) => {
                let sep = lit(" ...$");
                append_bytes(&mut out, sep.as_slice());
                append_bytes(&mut out, self.name.as_slice());
            },
            Some(ArgumentFlag::HasDefault(v)) => {
                let sep = lit(" $");
                append_bytes(&mut out, sep.as_slice());
                append_bytes(&mut out, self.name.as_slice());
                let eq = lit(" = ");
                append_bytes(&mut out, eq.as_slice());
                let d = v.describe();
                append_bytes(&mut out, d.as_slice());
            },
            None => {
                let sep = lit(" $");
                append_bytes(&mut out, sep.as_slice());
                append_bytes(&mut out, self.name.as_slice());
            },
        }
        out
    }
}

/// The arguments a described function is called with.
#[derive(Debug)]
pub struct ArgumentSet {
    /// The arguments, in order.
    pub arguments: Vec<Argument>,
}

impl ArgumentSet {
    /// The argument at `index`; `None` when there are fewer arguments.
    pub fn nth(&self, index: usize) -> (r: Option<&Argument>)
        ensures
            index < self.arguments@.len() ==> r == Some(&self.arguments@[index as int]),
            index >= self.arguments@.len() ==> r is None,
    {
        if index < self.arguments.len() {
            Some(&self.arguments[index])
        } else {
            None
        }
    }

    /// The first argument named `name`; `None` when there is none.
    pub fn get(&self, name: &[u8]) -> (r: Option<&Argument>)
        ensures
            match r {
                Some(a) => exists|i: int|
                    0 <= i < self.arguments@.len() && self.arguments@[i] == *a && a.name@ == name@
                        && forall|j: int| 0 <= j < i ==> (#[trigger] self.arguments@[j]).name@ != name@,
                None => forall|j: int|
                    0 <= j < self.arguments@.len() ==> (#[trigger] self.arguments@[j]).name@ != name@,
            },
    {
        let n = self.arguments.len();
        let mut i: usize = 0;
        while i < n
            invariant
                0 <= i <= n,
                n == self.arguments@.len(),
                forall|j: int| 0 <= j < i ==> (#[trigger] self.arguments@[j]).name@ != name@,
            decreases n - i,
        {
            if crate::strings::bytes_eq(self.arguments[i].name.as_slice(), name) {
                return Some(&self.arguments[i]);
            }
            i = i + 1;
        }
        None
    }
}

/// A described function: its name, arguments and return type.
#[derive(Debug)]
pub struct Function {
    /// The name.
    pub name: Vec<u8>,
    /// The arguments.
    pub arguments: Vec<Argument>,
    /// The return type.
    pub return_type: AtomicReturnType,
}

/// The stub text of a function.
pub open spec fn describe_function(f: Function) -> Seq<u8> {
    ascii("function "@) + f.name@ + seq![40u8] + describe_arguments(f.arguments@) + ascii("): "@)
        + describe_return(f.return_type) + ascii(" { exit(1); }"@)
}

impl Function {
    /// A function of no arguments that returns `mixed`.
    pub fn new(name: &[u8]) -> (r: Self)
        ensures
            r.name@ == name@,
            r.arguments@.len() == 0,
            r.return_type == AtomicReturnType::Of(AtomicType::Mixed),
    {
        Function {
            name: vstd::slice::slice_to_vec(name),
            arguments: Vec::new(),
            return_type: AtomicReturnType::Of(AtomicType::Mixed),
        }
    }

    /// The same function with one more argument.
    pub fn with_argument(self, argument: Argument) -> (r: Self)
        ensures
            r.name == self.name,
            r.arguments@ == self.arguments@.push(argument),
            r.return_type == self.return_type,
    {
        let mut f = self;
        f.arguments.push(argument);
        f
    }

    /// The same function with another return type.
    pub fn with_return_type(self, return_type: AtomicReturnType) -> (r: Self)
        ensures
            r.name == self.name,
            r.arguments == self.arguments,
            r.return_type == return_type,
    {
        Function { name: self.name, arguments: self.arguments, return_type }
    }

    /// The stub text of the function.
    pub fn describe(&self) -> (r: Vec<u8>)
        ensures
            r@ == describe_function(*self),
    {
        proof {
            reveal_strlit("function ");
            reveal_strlit("): ");
            reveal_strlit(" { exit(1); }");
        }
        let mut out = lit("function ");
        append_bytes(&mut out, self.name.as_slice());
        out.push(40u8);
        let ghost head = out@;
        let n = self.arguments.len();
        let mut i: usize = 0;
        while i < n
            invariant
                0 <= i <= n,
                n == self.arguments@.len(),
                out@ == head + describe_arguments(self.arguments@.take(i as int)),
            decreases n - i,
        {
            if i > 0 {
                out.push(44u8);
                out.push(32u8);
            }
            let d = self.arguments[i].describe();
            append_bytes(&mut out, d.as_slice());
            proof {
                let t = self.arguments@.take(i as int + 1);
                assert(t.drop_last() =~= self.arguments@.take(i as int));
                assert(t.last() == self.arguments@[i as int]);
                if i == 0 {
                    assert(self.arguments@.take(0) =~= Seq::<Argument>::empty());
                }
            }
            i = i + 1;
            assert(out@ =~= head + describe_arguments(self.arguments@.take(i as int)));
        }
        assert(self.arguments@.take(n as int) =~= self.arguments@);
        let close = lit("): ");
        append_bytes(&mut out, close.as_slice());
        let r = self.return_type.describe();
        append_bytes(&mut out, r.as_slice());
        let tail = lit(" { exit(1); }");
        append_bytes(&mut out, tail.as_slice());
        out
    }
}

/// The context a described handler runs in.
#[derive(Debug)]
pub struct Context {}

/// The state a described handler sees.
#[derive(Debug)]
pub struct State {}

/// The object a described method runs on.
#[derive(Debug)]
pub struct Instance {}

} // verus!

verus! {

/// The slot an array key of a constant value addresses.
pub open spec fn key_model(k: ArrayKeyValue) -> KeyModel {
    match k {
        ArrayKeyValue::String(s) => normalize_bytes(s@),
        ArrayKeyValue::Int(h) => KeyModel::Int(ulong_as_long(h)),
    }
}

/// The value can become a PHP value: it names no constant, class constant
/// or enum case, and none of its lists is too long to be indexed by a long.
pub open spec fn convertible(c: ConstantValue) -> bool
    decreases c,
{
    match c {
        ConstantValue::List(vs) => vs@.len() < i64::MAX && all_convertible(vs@),
        ConstantValue::Array(es) => entries_convertible(es@),
        ConstantValue::Constant(_) => false,
        ConstantValue::ClassConstant(_, _) => false,
        ConstantValue::EnumCase(_, _) => false,
        _ => true,
    }
}

/// Each of the values can become a PHP value.
pub open spec fn all_convertible(vs: Seq<ConstantValue>) -> bool
    decreases vs,
{
    if vs.len() == 0 {
        true
    } else {
        all_convertible(vs.drop_last()) && convertible(vs.last())
    }
}

/// The value of each entry can become a PHP value.
pub open spec fn entries_convertible(es: Seq<(ArrayKeyValue, ConstantValue)>) -> bool
    decreases es,
{
    if es.len() == 0 {
        true
    } else {
        entries_convertible(es.drop_last()) && convertible(es.last().1)
    }
}

/// `v` is the PHP value of the constant value `c`: a string, integer,
/// boolean or null as it is; a list as an array indexed from 0 in order; an
/// array as one filled entry by entry, a later entry writing over an
/// earlier one with the same key.
pub open spec fn converts_to(c: ConstantValue, v: ZVal) -> bool
    decreases c,
{
    match c {
        ConstantValue::String(s) => v matches ZVal::Str(z) && z@ == s@,
        ConstantValue::Int(n) => v == ZVal::Long(n),
        ConstantValue::Bool(b) => v == (if b {
            ZVal::True
        } else {
            ZVal::False
        }),
        ConstantValue::Null => v == ZVal::Null,
        ConstantValue::List(vs) => v matches ZVal::Arr(a) && list_converts(vs@, a.model()),
        ConstantValue::Array(es) => v matches ZVal::Arr(a) && entries_convert(es@, a.model()),
        _ => false,
    }
}

/// `m` holds the PHP values of `vs` under the indexes 0, 1, ... in order.
pub open spec fn list_converts(vs: Seq<ConstantValue>, m: Seq<(KeyModel, ZVal)>) -> bool
    decreases vs,
{
    if vs.len() == 0 {
        m.len() == 0
    } else {
        &&& m.len() == vs.len()
        &&& m.last().0 == KeyModel::Int(vs.len() - 1)
        &&& converts_to(vs.last(), m.last().1)
        &&& list_converts(vs.drop_last(), m.drop_last())
    }
}

/// `m` is an empty array after the PHP value of each entry's value was
/// written under the entry's key, in order.
pub open spec fn entries_convert(es: Seq<(ArrayKeyValue, ConstantValue)>, m: Seq<(KeyModel, ZVal)>) -> bool
    decreases es,
{
    if es.len() == 0 {
        m.len() == 0
    } else {
        exists|m0: Seq<(KeyModel, ZVal)>, v: ZVal|
            #![trigger model_update(m0, key_model(es.last().0), v)]
            entries_convert(es.drop_last(), m0) && converts_to(es.last().1, v) && m == model_update(
                m0,
                key_model(es.last().0),
                v,
            )
    }
}

} // verus!

verus! {

proof fn lemma_all_convertible(vs: Seq<ConstantValue>, i: int)
    requires
        all_convertible(vs),
        0 <= i < vs.len(),
    ensures
        convertible(vs[i]),
    decreases vs.len(),
{
    if i < vs.len() - 1 {
        lemma_all_convertible(vs.drop_last(), i);
    }
}

proof fn lemma_entries_convertible(es: Seq<(ArrayKeyValue, ConstantValue)>, i: int)
    requires
        entries_convertible(es),
        0 <= i < es.len(),
    ensures
        convertible(es[i].1),
    decreases es.len(),
{
    if i < es.len() - 1 {
        lemma_entries_convertible(es.drop_last(), i);
    }
}

impl ConstantValue {
    /// The PHP value of the constant value, as [`converts_to`] says.
    pub fn to_zval(&self) -> (r: ZVal)
        requires
            convertible(*self),
        ensures
            converts_to(*self, r),
        decreases self,
    {
        match self {
            ConstantValue::String(s) => ZVal::from_bytes(s.as_slice()),
            ConstantValue::Int(n) => ZVal::from_long(*n),
            ConstantValue::Bool(b) => ZVal::from_bool(*b),
            ConstantValue::Null => ZVal::null(),
            ConstantValue::List(vs) => {
                let mut a = ZArr::new();
                let n = vs.len();
                let mut i: usize = 0;
                assert(vs@.take(0) =~= Seq::<ConstantValue>::empty());
                while i < n
                    invariant
                        0 <= i <= n,
                        n == vs@.len(),
                        n < i64::MAX,
                        all_convertible(vs@),
                        *self == ConstantValue::List(*vs),
                        a.model().len() == i,
                        forall|j: int| 0 <= j < i ==> (#[trigger] a.model()[j]).0 == KeyModel::Int(j),
                        a.next_free() == (if i == 0 {
                            i64::MIN
                        } else {
                            i as i64
                        }),
                        list_converts(vs@.take(i as int), a.model()),
                    decreases n - i,
                {
                    proof {
                        lemma_all_convertible(vs@, i as int);
                        assert(decreases_to!(*self => (*self)->List_0));
                        assert(decreases_to!(*vs => vs@));
                        assert(decreases_to!(vs@ => vs@[i as int]));
                        assert(decreases_to!(*self => vs@[i as int]));
                    }
                    let v = vs[i].to_zval();
                    let ghost m = a.model();
                    proof {
                        lemma_find_key_none(m, KeyModel::Int(i as int));
                    }
                    a.insert(InsertKey::NextIndex, v);
                    proof {
                        let t = vs@.take(i as int + 1);
                        assert(t.drop_last() =~= vs@.take(i as int));
                        assert(t.last() == vs@[i as int]);
                        assert(a.model().drop_last() =~= m);
                    }
                    i = i + 1;
                }
                assert(vs@.take(n as int) =~= vs@);
                ZVal::from_z_array(a)
            },
            ConstantValue::Array(es) => {
                let mut a = ZArr::new();
                let n = es.len();
                let mut i: usize = 0;
                assert(es@.take(0) =~= Seq::<(ArrayKeyValue, ConstantValue)>::empty());
                while i < n
                    invariant
                        0 <= i <= n,
                        n == es@.len(),
                        entries_convertible(es@),
                        *self == ConstantValue::Array(*es),
                        entries_convert(es@.take(i as int), a.model()),
                    decreases n - i,
                {
                    proof {
                        lemma_entries_convertible(es@, i as int);
                        assert(decreases_to!(*self => (*self)->Array_0));
                        assert(decreases_to!(*es => es@));
                        assert(decreases_to!(es@ => es@[i as int]));
                        assert(decreases_to!(es@[i as int] => es@[i as int].1));
                        assert(decreases_to!(*self => es@[i as int].1));
                    }
                    let e = &es[i];
                    let v = e.1.to_zval();
                    let ghost m = a.model();
                    let ghost gv = v;
                    match &e.0 {
                        ArrayKeyValue::String(k) => a.insert(InsertKey::Bytes(k.as_slice()), v),
                        ArrayKeyValue::Int(h) => a.insert(InsertKey::Index(*h), v),
                    }
                    proof {
                        let t = es@.take(i as int + 1);
                        assert(t.drop_last() =~= es@.take(i as int));
                        assert(t.last() == es@[i as int]);
                        assert(a.model() == model_update(m, key_model(es@[i as int].0), gv));
                    }
                    i = i + 1;
                }
                assert(es@.take(n as int) =~= es@);
                ZVal::from_z_array(a)
            },
            _ => {
                proof {
                    assert(false);
                }
                ZVal::null()
            },
        }
    }
}

} // verus!

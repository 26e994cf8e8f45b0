//! Values, like `zval`.

use vstd::prelude::*;
use crate::arrays::ZArr;
use crate::errors::{Error, ExpectTypeError};
use crate::objects::ZObj;
use crate::references::ZRef;
use crate::resources::ZRes;
use crate::strings::ZStr;
use crate::types::{
    TypeInfo, IS_ARRAY, IS_ARRAY_EX, IS_BOOL, IS_DOUBLE, IS_FALSE, IS_LONG, IS_NULL, IS_OBJECT,
    IS_OBJECT_EX, IS_REFERENCE, IS_REFERENCE_EX, IS_RESOURCE, IS_RESOURCE_EX, IS_STRING,
    IS_STRING_EX, IS_TRUE, IS_UNDEF,
};

verus! {

/// A PHP value.
#[derive(Debug)]
pub enum ZVal {
    /// An undefined value.
    Undef,
    /// `null`.
    Null,
    /// `false`.
    False,
    /// `true`.
    True,
    /// An integer.
    Long(i64),
    /// A float, held as its IEEE-754 bits.
    Double(u64),
    /// A string.
    Str(ZStr),
    /// An array.
    Arr(ZArr),
    /// An object.
    Obj(ZObj),
    /// A resource.
    Res(ZRes),
    /// A reference.
    Ref(Box<ZRef>),
}

/// The scalar content of a value, as constants and property defaults see it.
pub enum ScalarModel {
    /// `null`.
    Null,
    /// A boolean.
    Bool(bool),
    /// An integer.
    Long(i64),
    /// A float, by its IEEE-754 bits.
    Double(u64),
    /// A string.
    Str(Seq<u8>),
    /// Anything that is not a scalar.
    NonScalar,
}

/// The scalar content of a value.
pub open spec fn scalar_view(v: ZVal) -> ScalarModel {
    match v {
        ZVal::Null => ScalarModel::Null,
        ZVal::False => ScalarModel::Bool(false),
        ZVal::True => ScalarModel::Bool(true),
        ZVal::Long(i) => ScalarModel::Long(i),
        ZVal::Double(d) => ScalarModel::Double(d),
        ZVal::Str(s) => ScalarModel::Str(s@),
        _ => ScalarModel::NonScalar,
    }
}

/// `r` is the error that a value of type `actual` gives where `expect` was
/// expected.
pub open spec fn is_expect_type_error<T>(r: Result<T, Error>, expect: u32, actual: u32) -> bool {
    r matches Err(Error::ExpectType(e)) && e.spec_expect_type().raw() == expect
        && e.spec_actual_type().raw() == actual
}

impl ZVal {
    /// The full type info of the value.
    pub open spec fn type_info(&self) -> u32 {
        match *self {
            ZVal::Undef => IS_UNDEF,
            ZVal::Null => IS_NULL,
            ZVal::False => IS_FALSE,
            ZVal::True => IS_TRUE,
            ZVal::Long(_) => IS_LONG,
            ZVal::Double(_) => IS_DOUBLE,
            ZVal::Str(_) => IS_STRING_EX,
            ZVal::Arr(_) => IS_ARRAY_EX,
            ZVal::Obj(_) => IS_OBJECT_EX,
            ZVal::Res(_) => IS_RESOURCE_EX,
            ZVal::Ref(_) => IS_REFERENCE_EX,
        }
    }

    /// Gets the type info of the value.
    pub fn get_type_info(&self) -> (r: TypeInfo)
        ensures
            r.raw() == self.type_info(),
    {
        let t: u32 = match self {
            ZVal::Undef => IS_UNDEF,
            ZVal::Null => IS_NULL,
            ZVal::False => IS_FALSE,
            ZVal::True => IS_TRUE,
            ZVal::Long(_) => IS_LONG,
            ZVal::Double(_) => IS_DOUBLE,
            ZVal::Str(_) => IS_STRING_EX,
            ZVal::Arr(_) => IS_ARRAY_EX,
            ZVal::Obj(_) => IS_OBJECT_EX,
            ZVal::Res(_) => IS_RESOURCE_EX,
            ZVal::Ref(_) => IS_REFERENCE_EX,
        };
        TypeInfo::from_raw(t)
    }

    fn type_error(&self, expect: TypeInfo) -> (r: Error)
        ensures
            r matches Error::ExpectType(e) && e.spec_expect_type() == expect
                && e.spec_actual_type().raw() == self.type_info(),
    {
        Error::ExpectType(ExpectTypeError::new(expect, self.get_type_info()))
    }

    /// `null`.
    pub fn null() -> (r: Self)
        ensures
            r == ZVal::Null,
    {
        ZVal::Null
    }

    /// A boolean value.
    pub fn from_bool(b: bool) -> (r: Self)
        ensures
            r == (if b { ZVal::True } else { ZVal::False }),
    {
        if b {
            ZVal::True
        } else {
            ZVal::False
        }
    }

    /// An integer value.
    pub fn from_long(i: i64) -> (r: Self)
        ensures
            r == ZVal::Long(i),
    {
        ZVal::Long(i)
    }

    /// A float value, given by its IEEE-754 bits.
    pub fn from_double_bits(bits: u64) -> (r: Self)
        ensures
            r == ZVal::Double(bits),
    {
        ZVal::Double(bits)
    }

    /// A string value holding a copy of `b`.
    pub fn from_bytes(b: &[u8]) -> (r: Self)
        ensures
            r matches ZVal::Str(s) && s@ == b@,
    {
        ZVal::Str(ZStr::new(b))
    }

    /// A string value.
    pub fn from_z_string(s: ZStr) -> (r: Self)
        ensures
            r == ZVal::Str(s),
    {
        ZVal::Str(s)
    }

    /// An array value.
    pub fn from_z_array(a: ZArr) -> (r: Self)
        ensures
            r == ZVal::Arr(a),
    {
        ZVal::Arr(a)
    }

    /// An object value.
    pub fn from_z_object(o: ZObj) -> (r: Self)
        ensures
            r == ZVal::Obj(o),
    {
        ZVal::Obj(o)
    }

    /// `null` when `None`, else the given value.
    pub fn from_option(o: Option<ZVal>) -> (r: Self)
        ensures
            r == (match o {
                Some(v) => v,
                None => ZVal::Null,
            }),
    {
        match o {
            Some(v) => v,
            None => ZVal::Null,
        }
    }

    /// Converts to null if the value is null, otherwise returns an
    /// [`ExpectTypeError`].
    pub fn expect_null(&self) -> (r: Result<(), Error>)
        ensures
            r is Ok <==> *self is Null,
            r is Err ==> (is_expect_type_error(r, IS_NULL, self.type_info())),
    {
        match self {
            ZVal::Null => Ok(()),
            _ => Err(self.type_error(TypeInfo::null())),
        }
    }

    /// Converts to null if the value is null.
    pub fn as_null(&self) -> (r: Option<()>)
        ensures
            r is Some <==> *self is Null,
    {
        match self.expect_null() {
            Ok(v) => Some(v),
            Err(_) => None,
        }
    }

    /// Converts to bool if the value is bool, otherwise returns an
    /// [`ExpectTypeError`].
    pub fn expect_bool(&self) -> (r: Result<bool, Error>)
        ensures
            *self is True ==> r == Ok::<bool, Error>(true),
            *self is False ==> r == Ok::<bool, Error>(false),
            !(*self is True || *self is False) ==> (is_expect_type_error(r, IS_BOOL, self.type_info())),
    {
        match self {
            ZVal::True => Ok(true),
            ZVal::False => Ok(false),
            _ => Err(self.type_error(TypeInfo::bool())),
        }
    }

    /// Converts to bool if the value is bool.
    pub fn as_bool(&self) -> (r: Option<bool>)
        ensures
            *self is True ==> r == Some(true),
            *self is False ==> r == Some(false),
            !(*self is True || *self is False) ==> r is None,
    {
        match self.expect_bool() {
            Ok(v) => Some(v),
            Err(_) => None,
        }
    }

    /// Converts to long if the value is long, otherwise returns an
    /// [`ExpectTypeError`].
    pub fn expect_long(&self) -> (r: Result<i64, Error>)
        ensures
            *self is Long ==> (r matches Ok(v) && v == self->Long_0),
            !(*self is Long) ==> (is_expect_type_error(r, IS_LONG, self.type_info())),
    {
        match self {
            ZVal::Long(l) => Ok(*l),
            _ => Err(self.type_error(TypeInfo::long())),
        }
    }

    /// Converts to long if the value is long.
    pub fn as_long(&self) -> (r: Option<i64>)
        ensures
            *self is Long ==> r == Some(self->Long_0),
            !(*self is Long) ==> r is None,
    {
        match self.expect_long() {
            Ok(v) => Some(v),
            Err(_) => None,
        }
    }

    /// Converts to a mutable long if the value is long, otherwise returns an
    /// [`ExpectTypeError`].
    pub fn expect_mut_long(&mut self) -> (r: Result<&mut i64, Error>)
        ensures
            *old(self) is Long ==> (r matches Ok(p) && *p == (*old(self))->Long_0 && *final(self)
                == ZVal::Long(*final(p))),
            !(*old(self) is Long) ==> (is_expect_type_error(r, IS_LONG, old(self).type_info())
                && *final(self) == *old(self)),
    {
        let e = self.type_error(TypeInfo::long());
        match self {
            ZVal::Long(l) => Ok(l),
            _ => Err(e),
        }
    }

    /// Converts to a mutable long if the value is long.
    pub fn as_mut_long(&mut self) -> (r: Option<&mut i64>)
        ensures
            *old(self) is Long ==> (r matches Some(p) && *p == (*old(self))->Long_0 && *final(self)
                == ZVal::Long(*final(p))),
            !(*old(self) is Long) ==> (r is None && *final(self) == *old(self)),
    {
        match self {
            ZVal::Long(l) => Some(l),
            _ => None,
        }
    }

    /// Converts to the bits of a float if the value is a float, otherwise
    /// returns an [`ExpectTypeError`].
    pub fn expect_double_bits(&self) -> (r: Result<u64, Error>)
        ensures
            *self is Double ==> (r matches Ok(v) && v == self->Double_0),
            !(*self is Double) ==> (is_expect_type_error(r, IS_DOUBLE, self.type_info())),
    {
        match self {
            ZVal::Double(d) => Ok(*d),
            _ => Err(self.type_error(TypeInfo::double())),
        }
    }

    /// Converts to the bits of a float if the value is a float.
    pub fn as_double_bits(&self) -> (r: Option<u64>)
        ensures
            *self is Double ==> r == Some(self->Double_0),
            !(*self is Double) ==> r is None,
    {
        match self {
            ZVal::Double(d) => Some(*d),
            _ => None,
        }
    }

    /// Converts to string if the value is string, otherwise returns an
    /// [`ExpectTypeError`].
    pub fn expect_z_str(&self) -> (r: Result<&ZStr, Error>)
        ensures
            *self is Str ==> (r matches Ok(s) && *self == ZVal::Str(*s)),
            !(*self is Str) ==> (is_expect_type_error(r, IS_STRING, self.type_info())),
    {
        match self {
            ZVal::Str(s) => Ok(s),
            _ => Err(self.type_error(TypeInfo::string())),
        }
    }

    /// Converts to string if the value is string.
    pub fn as_z_str(&self) -> (r: Option<&ZStr>)
        ensures
            *self is Str ==> (r matches Some(s) && *self == ZVal::Str(*s)),
            !(*self is Str) ==> r is None,
    {
        match self {
            ZVal::Str(s) => Some(s),
            _ => None,
        }
    }

    /// Converts to a mutable string if the value is string, otherwise returns
    /// an [`ExpectTypeError`].
    pub fn expect_mut_z_str(&mut self) -> (r: Result<&mut ZStr, Error>)
        ensures
            *old(self) is Str ==> (r matches Ok(p) && *old(self) == ZVal::Str(*p) && *final(self)
                == ZVal::Str(*final(p))),
            !(*old(self) is Str) ==> (is_expect_type_error(r, IS_STRING, old(self).type_info())
                && *final(self) == *old(self)),
    {
        let e = self.type_error(TypeInfo::string());
        match self {
            ZVal::Str(s) => Ok(s),
            _ => Err(e),
        }
    }

    /// Converts to a mutable string if the value is string.
    pub fn as_mut_z_str(&mut self) -> (r: Option<&mut ZStr>)
        ensures
            *old(self) is Str ==> (r matches Some(p) && *old(self) == ZVal::Str(*p) && *final(self)
                == ZVal::Str(*final(p))),
            !(*old(self) is Str) ==> (r is None && *final(self) == *old(self)),
    {
        match self {
            ZVal::Str(s) => Some(s),
            _ => None,
        }
    }

    /// Converts to array if the value is array, otherwise returns an
    /// [`ExpectTypeError`].
    pub fn expect_z_arr(&self) -> (r: Result<&ZArr, Error>)
        ensures
            *self is Arr ==> (r matches Ok(a) && *self == ZVal::Arr(*a)),
            !(*self is Arr) ==> (is_expect_type_error(r, IS_ARRAY, self.type_info())),
    {
        match self {
            ZVal::Arr(a) => Ok(a),
            _ => Err(self.type_error(TypeInfo::array())),
        }
    }

    /// Converts to array if the value is array.
    pub fn as_z_arr(&self) -> (r: Option<&ZArr>)
        ensures
            *self is Arr ==> (r matches Some(a) && *self == ZVal::Arr(*a)),
            !(*self is Arr) ==> r is None,
    {
        match self {
            ZVal::Arr(a) => Some(a),
            _ => None,
        }
    }

    /// Converts to a mutable array if the value is array, otherwise returns
    /// an [`ExpectTypeError`].
    pub fn expect_mut_z_arr(&mut self) -> (r: Result<&mut ZArr, Error>)
        ensures
            *old(self) is Arr ==> (r matches Ok(p) && *old(self) == ZVal::Arr(*p) && *final(self)
                == ZVal::Arr(*final(p))),
            !(*old(self) is Arr) ==> (is_expect_type_error(r, IS_ARRAY, old(self).type_info())
                && *final(self) == *old(self)),
    {
        let e = self.type_error(TypeInfo::array());
        match self {
            ZVal::Arr(a) => Ok(a),
            _ => Err(e),
        }
    }

    /// Converts to a mutable array if the value is array.
    pub fn as_mut_z_arr(&mut self) -> (r: Option<&mut ZArr>)
        ensures
            *old(self) is Arr ==> (r matches Some(p) && *old(self) == ZVal::Arr(*p) && *final(self)
                == ZVal::Arr(*final(p))),
            !(*old(self) is Arr) ==> (r is None && *final(self) == *old(self)),
    {
        match self {
            ZVal::Arr(a) => Some(a),
            _ => None,
        }
    }

    /// Converts to object if the value is object, otherwise returns an
    /// [`ExpectTypeError`].
    pub fn expect_z_obj(&self) -> (r: Result<&ZObj, Error>)
        ensures
            *self is Obj ==> (r matches Ok(o) && *self == ZVal::Obj(*o)),
            !(*self is Obj) ==> (is_expect_type_error(r, IS_OBJECT, self.type_info())),
    {
        match self {
            ZVal::Obj(o) => Ok(o),
            _ => Err(self.type_error(TypeInfo::object())),
        }
    }

    /// Converts to object if the value is object.
    pub fn as_z_obj(&self) -> (r: Option<&ZObj>)
        ensures
            *self is Obj ==> (r matches Some(o) && *self == ZVal::Obj(*o)),
            !(*self is Obj) ==> r is None,
    {
        match self {
            ZVal::Obj(o) => Some(o),
            _ => None,
        }
    }

    /// Converts to a mutable object if the value is object, otherwise
    /// returns an [`ExpectTypeError`].
    pub fn expect_mut_z_obj(&mut self) -> (r: Result<&mut ZObj, Error>)
        ensures
            *old(self) is Obj ==> (r matches Ok(p) && *old(self) == ZVal::Obj(*p) && *final(self)
                == ZVal::Obj(*final(p))),
            !(*old(self) is Obj) ==> (is_expect_type_error(r, IS_OBJECT, old(self).type_info())
                && *final(self) == *old(self)),
    {
        let e = self.type_error(TypeInfo::object());
        match self {
            ZVal::Obj(o) => Ok(o),
            _ => Err(e),
        }
    }

    /// Converts to a mutable object if the value is object.
    pub fn as_mut_z_obj(&mut self) -> (r: Option<&mut ZObj>)
        ensures
            *old(self) is Obj ==> (r matches Some(p) && *old(self) == ZVal::Obj(*p) && *final(self)
                == ZVal::Obj(*final(p))),
            !(*old(self) is Obj) ==> (r is None && *final(self) == *old(self)),
    {
        match self {
            ZVal::Obj(o) => Some(o),
            _ => None,
        }
    }

    /// Converts to resource if the value is resource, otherwise returns an
    /// [`ExpectTypeError`].
    pub fn expect_z_res(&self) -> (r: Result<&ZRes, Error>)
        ensures
            *self is Res ==> (r matches Ok(o) && *self == ZVal::Res(*o)),
            !(*self is Res) ==> (is_expect_type_error(r, IS_RESOURCE, self.type_info())),
    {
        match self {
            ZVal::Res(o) => Ok(o),
            _ => Err(self.type_error(TypeInfo::resource())),
        }
    }

    /// Converts to resource if the value is resource.
    pub fn as_z_res(&self) -> (r: Option<&ZRes>)
        ensures
            *self is Res ==> (r matches Some(o) && *self == ZVal::Res(*o)),
            !(*self is Res) ==> r is None,
    {
        match self {
            ZVal::Res(o) => Some(o),
            _ => None,
        }
    }

    /// Converts to a mutable resource if the value is resource, otherwise
    /// returns an [`ExpectTypeError`].
    pub fn expect_mut_z_res(&mut self) -> (r: Result<&mut ZRes, Error>)
        ensures
            *old(self) is Res ==> (r matches Ok(p) && *old(self) == ZVal::Res(*p) && *final(self)
                == ZVal::Res(*final(p))),
            !(*old(self) is Res) ==> (is_expect_type_error(r, IS_RESOURCE, old(self).type_info())
                && *final(self) == *old(self)),
    {
        let e = self.type_error(TypeInfo::resource());
        match self {
            ZVal::Res(o) => Ok(o),
            _ => Err(e),
        }
    }

    /// Converts to a mutable resource if the value is resource.
    pub fn as_mut_z_res(&mut self) -> (r: Option<&mut ZRes>)
        ensures
            *old(self) is Res ==> (r matches Some(p) && *old(self) == ZVal::Res(*p) && *final(self)
                == ZVal::Res(*final(p))),
            !(*old(self) is Res) ==> (r is None && *final(self) == *old(self)),
    {
        match self {
            ZVal::Res(o) => Some(o),
            _ => None,
        }
    }

    /// Converts to reference if the value is reference, otherwise returns an
    /// [`ExpectTypeError`].
    pub fn expect_z_ref(&self) -> (r: Result<&ZRef, Error>)
        ensures
            *self is Ref ==> (r matches Ok(o) && *self == ZVal::Ref(Box::new(*o))),
            !(*self is Ref) ==> (is_expect_type_error(r, IS_REFERENCE, self.type_info())),
    {
        match self {
            ZVal::Ref(o) => Ok(o),
            _ => Err(self.type_error(TypeInfo::reference())),
        }
    }

    /// Converts to reference if the value is reference.
    pub fn as_z_ref(&self) -> (r: Option<&ZRef>)
        ensures
            *self is Ref ==> (r matches Some(o) && *self == ZVal::Ref(Box::new(*o))),
            !(*self is Ref) ==> r is None,
    {
        match self {
            ZVal::Ref(o) => Some(o),
            _ => None,
        }
    }

    /// Converts to a mutable reference if the value is reference, otherwise
    /// returns an [`ExpectTypeError`].
    pub fn expect_mut_z_ref(&mut self) -> (r: Result<&mut ZRef, Error>)
        ensures
            *old(self) is Ref ==> (r matches Ok(p) && *old(self) == ZVal::Ref(Box::new(*p))
                && *final(self) == ZVal::Ref(Box::new(*final(p)))),
            !(*old(self) is Ref) ==> (is_expect_type_error(r, IS_REFERENCE, old(self).type_info())
                && *final(self) == *old(self)),
    {
        let e = self.type_error(TypeInfo::reference());
        match self {
            ZVal::Ref(o) => Ok(o),
            _ => Err(e),
        }
    }

    /// Converts to a mutable reference if the value is reference.
    pub fn as_mut_z_ref(&mut self) -> (r: Option<&mut ZRef>)
        ensures
            *old(self) is Ref ==> (r matches Some(p) && *old(self) == ZVal::Ref(Box::new(*p))
                && *final(self) == ZVal::Ref(Box::new(*final(p)))),
            !(*old(self) is Ref) ==> (r is None && *final(self) == *old(self)),
    {
        match self {
            ZVal::Ref(o) => Some(o),
            _ => None,
        }
    }
}

/// `b` is a copy of `a`, looked at down to `depth` levels of nesting:
/// scalars and resources are equal, strings hold the same bytes, arrays the
/// same keys in the same order and copies of the values, objects the same
/// handle and class and copies of the properties, references a copy of the
/// referenced value.
pub open spec fn copy_to_depth(a: ZVal, b: ZVal, depth: nat) -> bool
    decreases depth,
{
    if depth == 0 {
        true
    } else {
        match a {
            ZVal::Str(s) => b matches ZVal::Str(t) && t@ == s@,
            ZVal::Arr(x) => b matches ZVal::Arr(y) && y.next_free() == x.next_free()
                && y.model().len() == x.model().len() && forall|i: int|
                0 <= i < x.model().len() ==> (#[trigger] y.model()[i]).0 == x.model()[i].0
                    && copy_to_depth(x.model()[i].1, y.model()[i].1, (depth - 1) as nat),
            ZVal::Obj(o) => b matches ZVal::Obj(p) && p.spec_handle() == o.spec_handle()
                && p.spec_class() == o.spec_class() && p.spec_class_name() == o.spec_class_name()
                && p.spec_properties().len() == o.spec_properties().len() && forall|i: int|
                0 <= i < o.spec_properties().len() ==> (#[trigger] p.spec_properties()[i]).0
                    == o.spec_properties()[i].0 && copy_to_depth(
                    o.spec_properties()[i].1,
                    p.spec_properties()[i].1,
                    (depth - 1) as nat,
                ),
            ZVal::Ref(r) => b matches ZVal::Ref(q) && copy_to_depth(
                r.spec_val(),
                q.spec_val(),
                (depth - 1) as nat,
            ),
            _ => b == a,
        }
    }
}

/// `b` is a copy of `a`, at every depth.
pub open spec fn copy_of(a: ZVal, b: ZVal) -> bool {
    forall|depth: nat| #[trigger] copy_to_depth(a, b, depth)
}

/// A copy has the type of the original and holds the same scalar.
pub proof fn lemma_copy_same_scalar(a: ZVal, b: ZVal)
    requires
        copy_of(a, b),
    ensures
        scalar_view(a) == scalar_view(b),
        a.type_info() == b.type_info(),
{
    assert(copy_to_depth(a, b, 1));
}

impl ZVal {
    /// A copy of the value, nested arrays, objects and references included.
    pub fn duplicate(&self) -> (r: ZVal)
        ensures
            copy_of(*self, r),
        decreases self,
    {
        match self {
            ZVal::Undef => ZVal::Undef,
            ZVal::Null => ZVal::Null,
            ZVal::False => ZVal::False,
            ZVal::True => ZVal::True,
            ZVal::Long(i) => ZVal::Long(*i),
            ZVal::Double(d) => ZVal::Double(*d),
            ZVal::Str(s) => ZVal::Str(s.clone()),
            ZVal::Arr(a) => {
                let y = a.duplicate();
                assert forall|depth: nat| #[trigger] copy_to_depth(*self, ZVal::Arr(y), depth) by {
                    if depth > 0 {
                        assert forall|i: int| 0 <= i < a.model().len() implies (#[trigger] y.model()[i]).0
                            == a.model()[i].0 && copy_to_depth(
                            a.model()[i].1,
                            y.model()[i].1,
                            (depth - 1) as nat,
                        ) by {
                            assert(copy_of(a.model()[i].1, y.model()[i].1));
                            assert(copy_to_depth(a.model()[i].1, y.model()[i].1, (depth - 1) as nat));
                        }
                    }
                }
                ZVal::Arr(y)
            },
            ZVal::Obj(o) => {
                let p = o.duplicate();
                assert forall|depth: nat| #[trigger] copy_to_depth(*self, ZVal::Obj(p), depth) by {
                    if depth > 0 {
                        assert forall|i: int| 0 <= i < o.spec_properties().len() implies (
                        #[trigger] p.spec_properties()[i]).0 == o.spec_properties()[i].0
                            && copy_to_depth(
                            o.spec_properties()[i].1,
                            p.spec_properties()[i].1,
                            (depth - 1) as nat,
                        ) by {
                            assert(copy_of(o.spec_properties()[i].1, p.spec_properties()[i].1));
                            assert(copy_to_depth(
                                o.spec_properties()[i].1,
                                p.spec_properties()[i].1,
                                (depth - 1) as nat,
                            ));
                        }
                    }
                }
                ZVal::Obj(p)
            },
            ZVal::Res(h) => ZVal::Res(*h),
            ZVal::Ref(b) => {
                let q = b.duplicate();
                assert forall|depth: nat| #[trigger] copy_to_depth(*self, ZVal::Ref(Box::new(q)), depth) by {
                    if depth > 0 {
                        assert(copy_to_depth(b.spec_val(), q.spec_val(), (depth - 1) as nat));
                    }
                }
                ZVal::Ref(Box::new(q))
            },
        }
    }
}

impl Clone for ZVal {
    fn clone(&self) -> (r: Self)
        ensures
            copy_of(*self, r),
    {
        self.duplicate()
    }
}

impl Default for ZVal {
    fn default() -> (r: Self)
        ensures
            r == ZVal::Null,
    {
        ZVal::Null
    }
}

} // verus!

//! Enums: declaring them, registering them as classes, and naming their
//! cases.

use vstd::prelude::*;
use crate::classes::{
    can_register, first_named, handler_keys, is_registered, key_view, method_names, ClassEntry,
    ClassTable, ConstantEntity, Interface, Visibility, ZEND_ACC_ENUM,
};
use crate::functions::{c_name, copy_until_nul, until_nul, MethodEntity};
use crate::types::Scalar;
use crate::utils::ensure_end_with_zero;
use crate::values::ScalarModel;

verus! {

/// The kind of values an enum's cases are backed by.
#[derive(Debug, Clone, Copy, PartialEq, Eq, Structural)]
pub enum EnumType {
    /// Cases without values.
    Pure,
    /// Cases backed by integers.
    IntBacked,
    /// Cases backed by strings.
    StringBacked,
}

/// A type that enum cases can be backed by.
pub trait EnumBackingType: Sized {
    /// The kind of the enum.
    spec fn spec_enum_type() -> EnumType;

    /// The value a case keeps.
    spec fn spec_scalar(&self) -> ScalarModel;

    /// Gets the kind of the enum.
    fn enum_type() -> (r: EnumType)
        ensures
            r == Self::spec_enum_type(),
    ;

    /// Gets the value a case keeps.
    fn into_scalar(self) -> (r: Scalar)
        ensures
            r.model() == self.spec_scalar(),
    ;
}

impl EnumBackingType for () {
    open spec fn spec_enum_type() -> EnumType {
        EnumType::Pure
    }

    open spec fn spec_scalar(&self) -> ScalarModel {
        ScalarModel::Null
    }

    fn enum_type() -> (r: EnumType) {
        EnumType::Pure
    }

    fn into_scalar(self) -> (r: Scalar) {
        Scalar::Null
    }
}

impl EnumBackingType for i64 {
    open spec fn spec_enum_type() -> EnumType {
        EnumType::IntBacked
    }

    open spec fn spec_scalar(&self) -> ScalarModel {
        ScalarModel::Long(*self)
    }

    fn enum_type() -> (r: EnumType) {
        EnumType::IntBacked
    }

    fn into_scalar(self) -> (r: Scalar) {
        Scalar::I64(self)
    }
}

impl EnumBackingType for Vec<u8> {
    open spec fn spec_enum_type() -> EnumType {
        EnumType::StringBacked
    }

    open spec fn spec_scalar(&self) -> ScalarModel {
        ScalarModel::Str(self@)
    }

    fn enum_type() -> (r: EnumType) {
        EnumType::StringBacked
    }

    fn into_scalar(self) -> (r: Scalar) {
        Scalar::String(self)
    }
}

/// A backed case keeps the value it was given: a string-backed case the
/// bytes of its string, as `Scalar::String` of them stands for, an
/// int-backed case its integer; two cases are backed alike exactly when
/// their values are equal.
pub proof fn lemma_backing_value_kept(s: Vec<u8>, t: Vec<u8>, i: i64, j: i64)
    ensures
        s.spec_scalar() == Scalar::String(s).model(),
        (s.spec_scalar() == t.spec_scalar()) == (s@ == t@),
        i.spec_scalar() == Scalar::I64(i).model(),
        (i.spec_scalar() == j.spec_scalar()) == (i == j),
{
}

/// An enum: the class it was registered as, or its name, to be found in
/// the class table when it is used.
#[derive(Debug)]
pub enum Enum {
    /// The enum at this place of the class table.
    Bound(usize),
    /// The enum of this name.
    Named(Vec<u8>),
}

impl Enum {
    /// The enum of the given name.
    pub fn from_name(name: &[u8]) -> (r: Self)
        ensures
            r matches Enum::Named(n) && n@ == name@,
    {
        Enum::Named(vstd::slice::slice_to_vec(name))
    }

    /// The class of the enum; `None` when a named enum is not registered.
    pub fn as_class_entry<'a>(&self, table: &'a ClassTable) -> (r: Option<&'a ClassEntry>)
        ensures
            match *self {
                Enum::Bound(id) => id < table.spec_classes().len() ==> r == Some(
                    &table.spec_classes()[id as int],
                ),
                Enum::Named(n) => match first_named(table.spec_classes(), n@) {
                    Some(i) => r == Some(&table.spec_classes()[i]),
                    None => r is None,
                },
            },
            match *self {
                Enum::Bound(id) => id >= table.spec_classes().len() ==> r is None,
                Enum::Named(_) => true,
            },
    {
        match self {
            Enum::Bound(id) => table.get(*id),
            Enum::Named(n) => match table.find(n.as_slice()) {
                Some(i) => table.get(i),
                None => None,
            },
        }
    }
}

/// A case of an enum, by name.
#[derive(Debug)]
pub struct EnumCase {
    enum_obj: Enum,
    case_name: Vec<u8>,
}

impl EnumCase {
    /// The enum.
    pub closed spec fn spec_enum(&self) -> Enum {
        self.enum_obj
    }

    /// The name of the case.
    pub closed spec fn spec_name(&self) -> Seq<u8> {
        self.case_name@
    }

    /// Gets the name of the case.
    pub fn name(&self) -> (r: &[u8])
        ensures
            r@ == self.spec_name(),
    {
        self.case_name.as_slice()
    }

    /// Gets the enum.
    pub fn as_enum(&self) -> (r: &Enum)
        ensures
            *r == self.spec_enum(),
    {
        &self.enum_obj
    }
}

/// Builder for registering an enum backed by `B`.
#[derive(Debug)]
pub struct EnumEntity<B> {
    enum_name: Vec<u8>,
    enum_type: EnumType,
    method_entities: Vec<MethodEntity>,
    cases: Vec<ConstantEntity>,
    constants: Vec<ConstantEntity>,
    interfaces: Vec<usize>,
    _p: std::marker::PhantomData<B>,
}

impl<B: EnumBackingType> EnumEntity<B> {
    /// The enum name, as a C string.
    pub closed spec fn spec_enum_name(&self) -> Seq<u8> {
        self.enum_name@
    }

    /// The kind of the enum.
    pub closed spec fn spec_enum_type(&self) -> EnumType {
        self.enum_type
    }

    /// The methods.
    pub closed spec fn spec_methods(&self) -> Seq<MethodEntity> {
        self.method_entities@
    }

    /// The cases, as constants named after them that hold their values.
    pub closed spec fn spec_cases(&self) -> Seq<ConstantEntity> {
        self.cases@
    }

    /// The constants.
    pub closed spec fn spec_constants(&self) -> Seq<ConstantEntity> {
        self.constants@
    }

    /// The implemented interfaces, by their places.
    pub closed spec fn spec_interfaces(&self) -> Seq<usize> {
        self.interfaces@
    }

    /// An enum with nothing declared yet.
    pub fn new(enum_name: &[u8]) -> (r: Self)
        ensures
            r.spec_enum_name() == c_name(enum_name@),
            r.spec_enum_type() == B::spec_enum_type(),
            r.spec_methods().len() == 0,
            r.spec_cases().len() == 0,
            r.spec_constants().len() == 0,
            r.spec_interfaces().len() == 0,
    {
        EnumEntity {
            enum_name: ensure_end_with_zero(enum_name),
            enum_type: B::enum_type(),
            method_entities: Vec::new(),
            cases: Vec::new(),
            constants: Vec::new(),
            interfaces: Vec::new(),
            _p: std::marker::PhantomData,
        }
    }

    /// Adds a case with its value, and gives the case, which finds the enum
    /// by name.
    pub fn add_case(&mut self, name: &[u8], value: B) -> (r: EnumCase)
        ensures
            final(self).spec_cases().len() == old(self).spec_cases().len() + 1,
            final(self).spec_cases().drop_last() == old(self).spec_cases(),
            final(self).spec_cases().last().spec_name() == name@,
            final(self).spec_cases().last().spec_value() == value.spec_scalar(),
            r.spec_name() == name@,
            r.spec_enum() matches Enum::Named(n) && n@ == until_nul(old(self).spec_enum_name()),
            final(self).spec_enum_name() == old(self).spec_enum_name(),
            final(self).spec_methods() == old(self).spec_methods(),
            final(self).spec_constants() == old(self).spec_constants(),
            final(self).spec_interfaces() == old(self).spec_interfaces(),
    {
        let ghost v = value.spec_scalar();
        self.cases.push(ConstantEntity::new(name, value.into_scalar()));
        assert(self.cases@.drop_last() =~= old(self).cases@);
        EnumCase {
            enum_obj: Enum::Named(copy_until_nul(self.enum_name.as_slice())),
            case_name: vstd::slice::slice_to_vec(name),
        }
    }

    /// Adds a static method, with its visibility.
    pub fn add_static_method(&mut self, name: &[u8], vis: Visibility) -> (r: &mut MethodEntity)
        ensures
            r.spec_name() == c_name(name@),
            r.spec_has_handler(),
            r.spec_visibility() == vis.spec_raw() | crate::classes::ZEND_ACC_STATIC,
            final(self).spec_methods() == old(self).spec_methods().push(*final(r)),
            final(self).spec_enum_name() == old(self).spec_enum_name(),
            final(self).spec_cases() == old(self).spec_cases(),
            final(self).spec_constants() == old(self).spec_constants(),
            final(self).spec_interfaces() == old(self).spec_interfaces(),
    {
        let mut entity = MethodEntity::new(name, true, vis);
        entity.set_vis_static();
        self.method_entities.push(entity);
        let n = self.method_entities.len();
        &mut self.method_entities[n - 1]
    }

    /// Adds a constant.
    pub fn add_constant(&mut self, name: &[u8], value: Scalar)
        ensures
            final(self).spec_constants().len() == old(self).spec_constants().len() + 1,
            final(self).spec_constants().drop_last() == old(self).spec_constants(),
            final(self).spec_constants().last().spec_name() == name@,
            final(self).spec_constants().last().spec_value() == value.model(),
            final(self).spec_enum_name() == old(self).spec_enum_name(),
            final(self).spec_methods() == old(self).spec_methods(),
            final(self).spec_cases() == old(self).spec_cases(),
            final(self).spec_interfaces() == old(self).spec_interfaces(),
    {
        self.constants.push(ConstantEntity::new(name, value));
        assert(self.constants@.drop_last() =~= old(self).constants@);
    }

    /// Makes the enum implement a registered interface.
    pub fn implements(&mut self, interface: Interface)
        ensures
            final(self).spec_interfaces() == old(self).spec_interfaces().push(interface.spec_id()),
            final(self).spec_enum_name() == old(self).spec_enum_name(),
            final(self).spec_methods() == old(self).spec_methods(),
            final(self).spec_cases() == old(self).spec_cases(),
            final(self).spec_constants() == old(self).spec_constants(),
    {
        self.interfaces.push(interface.id());
    }

    /// The same enum, no longer typed by what its cases are backed by.
    pub fn erase(self) -> (r: EnumEntity<()>)
        ensures
            r.spec_enum_name() == self.spec_enum_name(),
            r.spec_enum_type() == self.spec_enum_type(),
            r.spec_methods() == self.spec_methods(),
            r.spec_cases() == self.spec_cases(),
            r.spec_constants() == self.spec_constants(),
            r.spec_interfaces() == self.spec_interfaces(),
    {
        EnumEntity {
            enum_name: self.enum_name,
            enum_type: self.enum_type,
            method_entities: self.method_entities,
            cases: self.cases,
            constants: self.constants,
            interfaces: self.interfaces,
            _p: std::marker::PhantomData,
        }
    }

    /// The keys under which the handlers of the enum's methods are found.
    pub fn handler_map(&self) -> (r: Vec<(Option<Vec<u8>>, Vec<u8>)>)
        ensures
            key_view(r@) == handler_keys(self.spec_enum_name(), self.spec_methods()),
    {
        let mut out: Vec<(Option<Vec<u8>>, Vec<u8>)> = Vec::new();
        let n = self.method_entities.len();
        let mut i: usize = 0;
        while i < n
            invariant
                0 <= i <= n,
                n == self.method_entities@.len(),
                key_view(out@) == handler_keys(self.spec_enum_name(), self.spec_methods().take(i as int)),
            decreases n - i,
        {
            let m = &self.method_entities[i];
            proof {
                let t = self.spec_methods().take(i as int + 1);
                assert(t.drop_last() =~= self.spec_methods().take(i as int));
                assert(t.last() == self.spec_methods()[i as int]);
            }
            if m.has_handler() {
                let ghost prev = out@;
                let c = copy_until_nul(self.enum_name.as_slice());
                let k = m.name_bytes();
                out.push((Some(c), k));
                assert(key_view(out@) =~= key_view(prev).push((Some(until_nul(self.spec_enum_name())), until_nul(m.spec_name()))));
            }
            i = i + 1;
        }
        assert(self.spec_methods().take(n as int) =~= self.spec_methods());
        out
    }

    /// The enum as the cases see it: found by its name.
    pub fn bound_enum(&self) -> (r: Enum)
        ensures
            r matches Enum::Named(n) && n@ == until_nul(self.spec_enum_name()),
    {
        Enum::Named(copy_until_nul(self.enum_name.as_slice()))
    }

    /// Registers the enum as a class that has no instances, whose constants
    /// are its own and then one per case holding the case's value; `None`,
    /// with nothing registered, when [`can_register`] fails.
    pub fn init(&self, table: &mut ClassTable) -> (r: Option<Enum>)
        ensures
            ({
                let cs = old(table).spec_classes();
                let name = until_nul(self.spec_enum_name());
                let ok = can_register(cs, name, None, self.spec_interfaces());
                &&& ok ==> {
                    &&& r == Some(Enum::Bound(cs.len() as usize))
                    &&& final(table).spec_classes().len() == cs.len() + 1
                    &&& forall|i: int|
                        0 <= i < cs.len() ==> #[trigger] final(table).spec_classes()[i] == cs[i]
                    &&& is_registered(
                        final(table).spec_classes()[cs.len() as int],
                        cs,
                        cs.len() as int,
                        name,
                        None,
                        self.spec_interfaces(),
                        ZEND_ACC_ENUM,
                        method_names(self.spec_methods()),
                        Seq::empty(),
                        self.spec_constants() + self.spec_cases(),
                    )
                }
                &&& !ok ==> r is None && final(table).spec_classes() == cs
            }),
            final(table).spec_next_handle() == old(table).spec_next_handle(),
    {
        let name = copy_until_nul(self.enum_name.as_slice());
        let methods = crate::classes::method_names_of(&self.method_entities);
        let mut consts: Vec<ConstantEntity> = Vec::new();
        let n = self.constants.len();
        let mut i: usize = 0;
        while i < n
            invariant
                0 <= i <= n,
                n == self.constants@.len(),
                consts@.len() == i,
                forall|j: int|
                    0 <= j < i ==> (#[trigger] consts@[j]).spec_name() == self.constants@[j].spec_name()
                        && consts@[j].spec_value() == self.constants@[j].spec_value(),
            decreases n - i,
        {
            consts.push(self.constants[i].duplicate());
            i = i + 1;
        }
        let m = self.cases.len();
        let mut k: usize = 0;
        while k < m
            invariant
                0 <= k <= m,
                m == self.cases@.len(),
                n == self.constants@.len(),
                consts@.len() == n + k,
                forall|j: int|
                    0 <= j < n ==> (#[trigger] consts@[j]).spec_name() == self.constants@[j].spec_name()
                        && consts@[j].spec_value() == self.constants@[j].spec_value(),
                forall|j: int|
                    0 <= j < k ==> (#[trigger] consts@[n + j]).spec_name() == self.cases@[j].spec_name()
                        && consts@[n + j].spec_value() == self.cases@[j].spec_value(),
            decreases m - k,
        {
            consts.push(self.cases[k].duplicate());
            k = k + 1;
        }
        proof {
            let want = self.spec_constants() + self.spec_cases();
            assert forall|j: int| 0 <= j < consts@.len() implies (#[trigger] consts@[j]).spec_name()
                == want[j].spec_name() && consts@[j].spec_value() == want[j].spec_value() by {
                if j >= n {
                    assert(consts@[n + (j - n)] == consts@[j]);
                }
            }
            crate::classes::lemma_fold_consts_congruent(consts@, want);
        }
        let props: Vec<crate::classes::PropertyEntity> = Vec::new();
        let ids = vstd::slice::slice_to_vec(self.interfaces.as_slice());
        match table.register(name.as_slice(), None, ids, ZEND_ACC_ENUM, &methods, &props, &consts) {
            Some(id) => Some(Enum::Bound(id)),
            None => None,
        }
    }
}

} // verus!

//! Objects, like `zend_object`.

use vstd::prelude::*;
use crate::arrays::{lookup, model_update, ArrModel, KeyModel, ZArr};
use crate::classes::{
    construct_accepts, first_keyed, lookup_key, new_object_outcome, scalar_props, ClassTable,
    STD_CLASS,
};
use crate::errors::{ClassNotFoundError, Error, InitializeObjectError};
use crate::strings::{lowercase_bytes, ZStr};
use vstd::string::StringSliceAdditionalSpecFns;
use crate::values::ZVal;

verus! {

/// Wrapper of a PHP object: its handle, its class and its property table.
#[derive(Debug)]
pub struct ZObj {
    handle: u32,
    class: usize,
    class_name: ZStr,
    properties: ZArr,
    missing: Box<ZVal>,
}

/// An owned object.
pub type ZObject = ZObj;

impl ZObj {
    #[verifier::type_invariant]
    spec fn inv(self) -> bool {
        *self.missing == ZVal::Null
    }

    /// The handle of the object.
    pub closed spec fn spec_handle(&self) -> u32 {
        self.handle
    }

    /// The class of the object, by its place in the class table.
    pub closed spec fn spec_class(&self) -> usize {
        self.class
    }

    /// The name of the object's class.
    pub closed spec fn spec_class_name(&self) -> Seq<u8> {
        self.class_name@
    }

    /// The property table of the object.
    pub closed spec fn spec_properties(&self) -> ArrModel {
        self.properties.model()
    }

    /// Makes an object of the class at `class`, named `class_name`, with the
    /// given property table.
    pub fn from_parts(handle: u32, class: usize, class_name: ZStr, properties: ZArr) -> (r: Self)
        ensures
            r.spec_handle() == handle,
            r.spec_class() == class,
            r.spec_class_name() == class_name@,
            r.spec_properties() == properties.model(),
    {
        ZObj { handle, class, class_name, properties, missing: Box::new(ZVal::Null) }
    }

    /// Makes an object of class `stdClass`, with a fresh handle.
    pub fn new_by_std_class(table: &mut ClassTable) -> (r: Self)
        requires
            old(table).spec_next_handle() < u32::MAX,
        ensures
            r.spec_class() == STD_CLASS,
            r.spec_handle() == old(table).spec_next_handle(),
            r.spec_class_name() == old(table).spec_classes()[STD_CLASS as int].spec_name(),
            scalar_props(r.spec_properties()) == old(table).spec_classes()[STD_CLASS as int].spec_properties(),
            r.spec_properties() == Seq::<(KeyModel, ZVal)>::empty(),
            final(table).spec_classes() == old(table).spec_classes(),
            final(table).spec_next_handle() == old(table).spec_next_handle() + 1,
    {
        let n = table.len();
        proof {
            assert(crate::classes::is_builtin(table.spec_classes()[STD_CLASS as int], STD_CLASS as int));
            assert(0u32 & crate::classes::ZEND_ACC_UNINSTANTIABLE == 0) by (bit_vector);
        }
        let r = table.instantiate(STD_CLASS).unwrap();
        proof {
            assert(scalar_props(r.spec_properties()).len() == r.spec_properties().len());
            assert(r.spec_properties() =~= Seq::<(KeyModel, ZVal)>::empty());
        }
        r
    }

    /// A copy of the object: the same handle and class, and a copy of each
    /// property.
    pub fn duplicate(&self) -> (r: ZObj)
        ensures
            r.spec_handle() == self.spec_handle(),
            r.spec_class() == self.spec_class(),
            r.spec_class_name() == self.spec_class_name(),
            r.spec_properties().len() == self.spec_properties().len(),
            forall|i: int|
                0 <= i < self.spec_properties().len() ==> (#[trigger] r.spec_properties()[i]).0
                    == self.spec_properties()[i].0 && crate::values::copy_of(
                    self.spec_properties()[i].1,
                    r.spec_properties()[i].1,
                ),
        decreases self,
    {
        let props = self.properties.duplicate();
        ZObj::from_parts(self.handle, self.class, self.class_name.clone(), props)
    }

    /// The same object under another handle.
    pub(crate) fn rehandle(self, handle: u32) -> (r: ZObj)
        ensures
            r.spec_handle() == handle,
            r.spec_class() == self.spec_class(),
            r.spec_class_name() == self.spec_class_name(),
            r.spec_properties() == self.spec_properties(),
    {
        proof {
            use_type_invariant(&self);
        }
        ZObj { handle, ..self }
    }

    /// Makes an object of the class at `id` with the next handle and calls
    /// its `__construct` with `arguments`, as [`ClassEntry::new_object`]
    /// does; `construct` makes that call. With no handle left the error
    /// names the class.
    ///
    /// [`ClassEntry::new_object`]: crate::classes::ClassEntry::new_object
    pub fn new<F: FnOnce(ZObj, Vec<ZVal>) -> (Result<ZObj, Error>, Vec<ZVal>)>(
        table: &mut ClassTable,
        id: usize,
        arguments: &mut Vec<ZVal>,
        construct: F,
    ) -> (r: Result<Self, Error>)
        requires
            id < old(table).spec_classes().len(),
            construct_accepts(
                old(table).spec_classes()[id as int],
                old(table).spec_next_handle(),
                construct,
                old(arguments)@,
            ),
        ensures
            final(table).spec_classes() == old(table).spec_classes(),
            new_object_outcome(
                old(table).spec_classes()[id as int],
                old(table).spec_next_handle(),
                construct,
                old(arguments)@,
                final(arguments)@,
                r,
                final(table).spec_next_handle(),
            ),
    {
        match table.new_handle() {
            Some(h) => table.get(id).unwrap().new_object(h, arguments, construct),
            None => {
                let c = table.get(id).unwrap();
                Err(
                    Error::InitializeObject(
                        InitializeObjectError::new(vstd::slice::slice_to_vec(c.get_name().to_bytes())),
                    ),
                )
            },
        }
    }

    /// Makes an object of the class named `class_name`, found as
    /// [`ClassEntry::from_globals`] finds it, as [`ZObj::new`] does; the
    /// error names a class that is not in the table.
    ///
    /// [`ClassEntry::from_globals`]: crate::classes::ClassEntry::from_globals
    pub fn new_by_class_name<F: FnOnce(ZObj, Vec<ZVal>) -> (Result<ZObj, Error>, Vec<ZVal>)>(
        table: &mut ClassTable,
        class_name: &str,
        arguments: &mut Vec<ZVal>,
        construct: F,
    ) -> (r: Result<Self, Error>)
        requires
            forall|i: int|
                0 <= i < old(table).spec_classes().len() ==> construct_accepts(
                    #[trigger] old(table).spec_classes()[i],
                    old(table).spec_next_handle(),
                    construct,
                    old(arguments)@,
                ),
        ensures
            final(table).spec_classes() == old(table).spec_classes(),
            match first_keyed(old(table).spec_classes(), lookup_key(class_name@)) {
                None => (r matches Err(Error::ClassNotFound(e)) && e.spec_class_name()
                    == class_name.spec_bytes()) && final(table).spec_next_handle() == old(table).spec_next_handle()
                    && final(arguments)@ == old(arguments)@,
                Some(i) => new_object_outcome(
                    old(table).spec_classes()[i],
                    old(table).spec_next_handle(),
                    construct,
                    old(arguments)@,
                    final(arguments)@,
                    r,
                    final(table).spec_next_handle(),
                ),
            },
    {
        let key = lowercase_bytes(class_name);
        match table.find_key(key.as_slice()) {
            Some(i) => ZObj::new(table, i, arguments, construct),
            None => Err(
                Error::ClassNotFound(
                    ClassNotFoundError::new(vstd::slice::slice_to_vec(class_name.as_bytes())),
                ),
            ),
        }
    }

    /// Gets the inner handle of the object.
    pub fn handle(&self) -> (r: u32)
        ensures
            r == self.spec_handle(),
    {
        self.handle
    }

    /// Gets the class of the object, by its place in the class table.
    pub fn get_class(&self) -> (r: usize)
        ensures
            r == self.spec_class(),
    {
        self.class
    }

    /// Gets the name of the object's class.
    pub fn get_class_name(&self) -> (r: &ZStr)
        ensures
            r@ == self.spec_class_name(),
    {
        &self.class_name
    }

    /// Gets the property by name; `null` when the object has no such
    /// property.
    pub fn get_property(&self, name: &[u8]) -> (r: &ZVal)
        ensures
            match lookup(self.spec_properties(), KeyModel::Str(name@)) {
                Some(v) => *r == v,
                None => *r == ZVal::Null,
            },
    {
        proof {
            use_type_invariant(self);
        }
        match self.properties.str_find(name) {
            Some(v) => v,
            None => &*self.missing,
        }
    }

    /// Sets the property by name.
    pub fn set_property(&mut self, name: &[u8], val: ZVal)
        ensures
            final(self).spec_properties() == model_update(
                old(self).spec_properties(),
                KeyModel::Str(name@),
                val,
            ),
            final(self).spec_handle() == old(self).spec_handle(),
            final(self).spec_class() == old(self).spec_class(),
            final(self).spec_class_name() == old(self).spec_class_name(),
    {
        proof {
            use_type_invariant(&*self);
        }
        let mut props = ZArr::new();
        std::mem::swap(&mut props, &mut self.properties);
        props.str_update(name, val);
        std::mem::swap(&mut props, &mut self.properties);
    }
}

/// An object that carries a state of the extension beside its PHP part.
#[derive(Debug)]
pub struct StateObj<T> {
    object: ZObj,
    state: T,
}

/// An owned stateful object.
pub type StateObject<T> = StateObj<T>;

impl<T> StateObj<T> {
    /// The PHP part of the object.
    pub closed spec fn spec_object(&self) -> ZObj {
        self.object
    }

    /// The state of the object.
    pub closed spec fn spec_state(&self) -> T {
        self.state
    }

    /// Joins an object and its state.
    pub fn new(object: ZObj, state: T) -> (r: Self)
        ensures
            r.spec_object() == object,
            r.spec_state() == state,
    {
        StateObj { object, state }
    }

    /// Gets the object.
    pub fn as_object(&self) -> (r: &ZObj)
        ensures
            *r == self.spec_object(),
    {
        &self.object
    }

    /// Gets the mutable object.
    pub fn as_mut_object(&mut self) -> (r: &mut ZObj)
        ensures
            *r == old(self).spec_object(),
            final(self).spec_object() == *final(r),
            final(self).spec_state() == old(self).spec_state(),
    {
        &mut self.object
    }

    /// Gets the inner state.
    pub fn as_state(&self) -> (r: &T)
        ensures
            *r == self.spec_state(),
    {
        &self.state
    }

    /// Gets the inner mutable state.
    pub fn as_mut_state(&mut self) -> (r: &mut T)
        ensures
            *r == old(self).spec_state(),
            final(self).spec_state() == *final(r),
            final(self).spec_object() == old(self).spec_object(),
    {
        &mut self.state
    }

    /// Converts into the PHP part of the object.
    pub fn into_z_object(self) -> (r: ZObj)
        ensures
            r == self.spec_object(),
    {
        self.object
    }

    /// Takes the state out of the object; an owned object always has it.
    pub fn into_state(self) -> (r: Option<T>)
        ensures
            r == Some(self.spec_state()),
    {
        Some(self.state)
    }

    /// Splits into the PHP part and the state.
    pub fn into_parts(self) -> (r: (ZObj, T))
        ensures
            r.0 == self.spec_object(),
            r.1 == self.spec_state(),
    {
        (self.object, self.state)
    }
}

} // verus!

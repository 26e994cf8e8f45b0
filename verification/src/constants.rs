//! Global constants that a module declares, and the engine's table of them.

use vstd::prelude::*;
use crate::strings::bytes_eq;
use crate::types::Scalar;
use crate::values::ScalarModel;

verus! {

/// A registered constant: its name, its value and the module it belongs to.
pub type ConstantModel = (Seq<u8>, ScalarModel, i32);

/// The engine's table of constants.
#[derive(Debug)]
pub struct ConstantTable {
    constants: Vec<(Vec<u8>, Scalar, i32)>,
}

/// The view of stored constants.
pub open spec fn constants_view(cs: Seq<(Vec<u8>, Scalar, i32)>) -> Seq<ConstantModel> {
    cs.map_values(|c: (Vec<u8>, Scalar, i32)| (c.0@, c.1.model(), c.2))
}

/// Some constant is named `name`; names are case-sensitive.
pub open spec fn has_constant(cs: Seq<ConstantModel>, name: Seq<u8>) -> bool {
    exists|i: int| 0 <= i < cs.len() && (#[trigger] cs[i]).0 == name
}

impl ConstantTable {
    /// The constants, in the order they were registered.
    pub closed spec fn spec_constants(&self) -> Seq<ConstantModel> {
        constants_view(self.constants@)
    }

    /// A table with no constants.
    pub fn new() -> (r: Self)
        ensures
            r.spec_constants() == Seq::<ConstantModel>::empty(),
    {
        let r = ConstantTable { constants: Vec::new() };
        assert(r.spec_constants() =~= Seq::<ConstantModel>::empty());
        r
    }

    /// Gets the value of the constant named `name`.
    pub fn get(&self, name: &[u8]) -> (r: Option<&Scalar>)
        ensures
            match r {
                Some(v) => exists|i: int|
                    0 <= i < self.spec_constants().len() && self.spec_constants()[i] == (
                        name@,
                        v.model(),
                        self.spec_constants()[i].2,
                    ),
                None => !has_constant(self.spec_constants(), name@),
            },
    {
        let n = self.constants.len();
        let mut i: usize = 0;
        while i < n
            invariant
                0 <= i <= n,
                n == self.constants@.len(),
                forall|j: int| 0 <= j < i ==> (#[trigger] self.spec_constants()[j]).0 != name@,
            decreases n - i,
        {
            if bytes_eq(self.constants[i].0.as_slice(), name) {
                assert(self.spec_constants()[i as int] == (
                    name@,
                    self.constants@[i as int].1.model(),
                    self.spec_constants()[i as int].2,
                ));
                return Some(&self.constants[i].1);
            }
            i = i + 1;
        }
        None
    }

    /// Adds a constant, unless one of that name exists: then nothing
    /// changes and the result is `false`.
    pub fn add(&mut self, name: &[u8], value: &Scalar, module_number: i32) -> (r: bool)
        ensures
            r == !has_constant(old(self).spec_constants(), name@),
            r ==> final(self).spec_constants() == old(self).spec_constants().push(
                (name@, value.model(), module_number),
            ),
            !r ==> final(self).spec_constants() == old(self).spec_constants(),
    {
        if self.get(name).is_some() {
            return false;
        }
        let ghost prev = self.constants@;
        self.constants.push((vstd::slice::slice_to_vec(name), value.duplicate(), module_number));
        assert(self.spec_constants() =~= constants_view(prev).push(
            (name@, value.model(), module_number),
        ));
        true
    }
}

/// A global constant that a module declares.
#[derive(Debug)]
pub struct Constant {
    name: Vec<u8>,
    value: Scalar,
}

impl Constant {
    /// The name.
    pub closed spec fn spec_name(&self) -> Seq<u8> {
        self.name@
    }

    /// The value.
    pub closed spec fn spec_value(&self) -> ScalarModel {
        self.value.model()
    }

    /// Declares a constant.
    pub fn new(name: &[u8], value: Scalar) -> (r: Self)
        ensures
            r.spec_name() == name@,
            r.spec_value() == value.model(),
    {
        Constant { name: vstd::slice::slice_to_vec(name), value }
    }

    /// Registers the constant for the module, as a persistent,
    /// case-sensitive constant; `false` when the name is taken.
    pub fn register(&self, table: &mut ConstantTable, module_number: i32) -> (r: bool)
        ensures
            r == !has_constant(old(table).spec_constants(), self.spec_name()),
            r ==> final(table).spec_constants() == old(table).spec_constants().push(
                (self.spec_name(), self.spec_value(), module_number),
            ),
            !r ==> final(table).spec_constants() == old(table).spec_constants(),
    {
        table.add(self.name.as_slice(), &self.value, module_number)
    }
}

} // verus!

//! The module of an extension: what it declares, and how the engine takes
//! it in at startup.

use vstd::prelude::*;
use crate::classes::{
    can_register, class_flags, interface_flags, is_registered, method_names,
    registration, registration_ok, ClassEntity, ClassEntry, ClassTable, Interface, InterfaceEntity,
    StateClass, ZEND_ACC_ENUM,
};
use crate::enums::{Enum, EnumBackingType, EnumEntity};
use crate::constants::{Constant, ConstantModel, ConstantTable, has_constant};
use crate::functions::{
    c_name, copy_until_nul, handler_key_of, is_entry_of, last_key_index, lemma_key_found,
    lemma_until_nul_has_no_nul, until_nul, FunctionEntity, FunctionEntry, ZFunc,
};
use crate::ini::{entity_entries, fresh_entities, IniEntity, IniTable, without_module};
use crate::types::Scalar;
use crate::utils::{ascii, ensure_end_with_zero, lit};

verus! {

/// The text of an info row's key or value is kept as it is given.
pub open spec fn no_nul(s: Seq<u8>) -> bool {
    forall|i: int| 0 <= i < s.len() ==> s[i] != 0
}

/// The row at `i` is the first with `key`.
pub open spec fn first_row(rows: Seq<(Seq<u8>, Seq<u8>)>, key: Seq<u8>, i: int) -> bool {
    &&& 0 <= i < rows.len()
    &&& rows[i].0 == key
    &&& forall|j: int| 0 <= j < i ==> (#[trigger] rows[j]).0 != key
}

/// The info rows after `key` is set to `value`: the row with that key
/// keeps its place and takes the value; else a row is added at the end.
pub open spec fn info_update(rows: Seq<(Seq<u8>, Seq<u8>)>, key: Seq<u8>, value: Seq<u8>) -> Seq<
    (Seq<u8>, Seq<u8>),
> {
    if exists|i: int| #[trigger] first_row(rows, key, i) {
        let i = choose|i: int| #[trigger] first_row(rows, key, i);
        rows.update(i, (key, value))
    } else {
        rows.push((key, value))
    }
}

/// No two rows share a key.
pub open spec fn distinct_rows(rows: Seq<(Seq<u8>, Seq<u8>)>) -> bool {
    forall|i: int, j: int| 0 <= i < j < rows.len() ==> (#[trigger] rows[i]).0 != (#[trigger] rows[j]).0
}

/// The rows the module shows in `phpinfo()`: its version and authors when
/// set, then its own info rows.
pub open spec fn info_rows(
    version: Seq<u8>,
    author: Seq<u8>,
    infos: Seq<(Seq<u8>, Seq<u8>)>,
) -> Seq<(Seq<u8>, Seq<u8>)> {
    let v = until_nul(version);
    let a = until_nul(author);
    let r1: Seq<(Seq<u8>, Seq<u8>)> = if v.len() > 0 {
        seq![(ascii("version"@), v)]
    } else {
        seq![]
    };
    let r2 = if a.len() > 0 {
        r1.push((ascii("authors"@), a))
    } else {
        r1
    };
    r2 + infos
}

/// The constants a list of declarations leaves in a table: each one is
/// added unless its name is taken.
pub open spec fn fold_constants(cs: Seq<ConstantModel>, decls: Seq<Constant>, module: i32) -> Seq<
    ConstantModel,
>
    decreases decls.len(),
{
    if decls.len() == 0 {
        cs
    } else {
        let rest = fold_constants(cs, decls.drop_last(), module);
        if has_constant(rest, decls.last().spec_name()) {
            rest
        } else {
            rest.push((decls.last().spec_name(), decls.last().spec_value(), module))
        }
    }
}

/// The keys under which the handlers of the functions are found.
pub open spec fn function_keys(fs: Seq<FunctionEntity>) -> Seq<(Option<Seq<u8>>, Seq<u8>)> {
    fs.map_values(|f: FunctionEntity| (None::<Seq<u8>>, until_nul(f.spec_name())))
}

/// The keys under which the handlers of the classes' methods are found.
pub open spec fn class_keys(cs: Seq<ClassEntity<()>>) -> Seq<(Option<Seq<u8>>, Seq<u8>)>
    decreases cs.len(),
{
    if cs.len() == 0 {
        Seq::empty()
    } else {
        class_keys(cs.drop_last()) + crate::classes::handler_keys(
            cs.last().spec_class_name(),
            cs.last().spec_methods(),
        )
    }
}

/// The keys under which the handlers of the enums' methods are found.
pub open spec fn enum_keys(es: Seq<EnumEntity<()>>) -> Seq<(Option<Seq<u8>>, Seq<u8>)>
    decreases es.len(),
{
    if es.len() == 0 {
        Seq::empty()
    } else {
        enum_keys(es.drop_last()) + crate::classes::handler_keys(
            es.last().spec_enum_name(),
            es.last().spec_methods(),
        )
    }
}

/// A call of a function the module declares, made through a function of
/// the engine named as the declared one and outside any class, finds a
/// handler among those that startup registers, whatever follows the
/// functions' own.
pub proof fn lemma_declared_function_found(
    fs: Seq<FunctionEntity>,
    more: Seq<(Option<Seq<u8>>, Seq<u8>)>,
    k: int,
    f: ZFunc,
)
    requires
        0 <= k < fs.len(),
        f.spec_name() == Some(until_nul(fs[k].spec_name())),
        f.spec_scope() is None,
    ensures
        handler_key_of(f) matches Some(key) && last_key_index(function_keys(fs) + more, key) is Some,
{
    lemma_until_nul_has_no_nul(fs[k].spec_name());
    let keys = function_keys(fs) + more;
    assert(keys[k] == (None::<Seq<u8>>, until_nul(fs[k].spec_name())));
    lemma_key_found(keys, (None::<Seq<u8>>, until_nul(fs[k].spec_name())), k);
}

/// What a module brings into the engine at startup.
#[derive(Debug)]
pub struct Startup {
    /// The ini entries were registered.
    pub ini_registered: bool,
    /// For each constant, whether it was registered.
    pub constants: Vec<bool>,
    /// For each interface, its place, or `None` when it was refused.
    pub interfaces: Vec<Option<Interface>>,
    /// For each class, its place, or `None` when it was refused.
    pub classes: Vec<Option<StateClass<()>>>,
    /// For each enum, its place, or `None` when it was refused.
    pub enums: Vec<Option<Enum>>,
    /// The keys under which the function and method handlers are found.
    pub handlers: Vec<(Option<Vec<u8>>, Vec<u8>)>,
}

/// The view of handler keys.
pub open spec fn keys_view(ks: Seq<(Option<Vec<u8>>, Vec<u8>)>) -> Seq<(Option<Seq<u8>>, Seq<u8>)> {
    crate::classes::key_view(ks)
}

/// What the engine registers of a module, like `zend_module_entry`.
#[derive(Debug)]
pub struct ModuleEntry {
    name: Vec<u8>,
    version: Vec<u8>,
    functions: Vec<FunctionEntry>,
}

impl ModuleEntry {
    /// The module name, as a C string.
    pub closed spec fn spec_name(&self) -> Seq<u8> {
        self.name@
    }

    /// The module version, as a C string.
    pub closed spec fn spec_version(&self) -> Seq<u8> {
        self.version@
    }

    /// The number of function entries.
    pub closed spec fn spec_function_count(&self) -> nat {
        self.functions@.len()
    }

    /// The function entries, in order.
    pub closed spec fn spec_functions(&self) -> Seq<FunctionEntry> {
        self.functions@
    }

    /// Gets the function entries.
    pub fn functions(&self) -> (r: &Vec<FunctionEntry>)
        ensures
            r@.len() == self.spec_function_count(),
            r@ == self.spec_functions(),
    {
        &self.functions
    }
}

/// The module of an extension.
#[derive(Debug)]
pub struct Module {
    name: Vec<u8>,
    version: Vec<u8>,
    author: Vec<u8>,
    function_entities: Vec<FunctionEntity>,
    class_entities: Vec<ClassEntity<()>>,
    interface_entities: Vec<InterfaceEntity>,
    enum_entities: Vec<EnumEntity<()>>,
    constants: Vec<Constant>,
    ini_entities: Vec<IniEntity>,
    infos: Vec<(Vec<u8>, Vec<u8>)>,
}

/// The view of info rows.
pub open spec fn rows_view(rows: Seq<(Vec<u8>, Vec<u8>)>) -> Seq<(Seq<u8>, Seq<u8>)> {
    rows.map_values(|r: (Vec<u8>, Vec<u8>)| (r.0@, r.1@))
}

impl Module {
    /// The name, as a C string.
    pub closed spec fn spec_name(&self) -> Seq<u8> {
        self.name@
    }

    /// The version, as a C string.
    pub closed spec fn spec_version(&self) -> Seq<u8> {
        self.version@
    }

    /// The authors, as a C string.
    pub closed spec fn spec_author(&self) -> Seq<u8> {
        self.author@
    }

    /// The functions.
    pub closed spec fn spec_functions(&self) -> Seq<FunctionEntity> {
        self.function_entities@
    }

    /// The classes.
    pub closed spec fn spec_classes(&self) -> Seq<ClassEntity<()>> {
        self.class_entities@
    }

    /// The interfaces.
    pub closed spec fn spec_interfaces(&self) -> Seq<InterfaceEntity> {
        self.interface_entities@
    }

    /// The enums.
    pub closed spec fn spec_enums(&self) -> Seq<EnumEntity<()>> {
        self.enum_entities@
    }

    /// The constants.
    pub closed spec fn spec_constants(&self) -> Seq<Constant> {
        self.constants@
    }

    /// The ini entries.
    pub closed spec fn spec_ini(&self) -> Seq<IniEntity> {
        self.ini_entities@
    }

    /// The info rows.
    pub closed spec fn spec_infos(&self) -> Seq<(Seq<u8>, Seq<u8>)> {
        rows_view(self.infos@)
    }

    /// Constructs the module with its name, version and authors.
    pub fn new(name: &[u8], version: &[u8], author: &[u8]) -> (r: Self)
        ensures
            r.spec_name() == c_name(name@),
            r.spec_version() == c_name(version@),
            r.spec_author() == c_name(author@),
            r.spec_functions().len() == 0,
            r.spec_classes().len() == 0,
            r.spec_interfaces().len() == 0,
            r.spec_enums().len() == 0,
            r.spec_constants().len() == 0,
            r.spec_ini().len() == 0,
            r.spec_infos().len() == 0,
    {
        Module {
            name: ensure_end_with_zero(name),
            version: ensure_end_with_zero(version),
            author: ensure_end_with_zero(author),
            function_entities: Vec::new(),
            class_entities: Vec::new(),
            interface_entities: Vec::new(),
            enum_entities: Vec::new(),
            constants: Vec::new(),
            ini_entities: Vec::new(),
            infos: Vec::new(),
        }
    }

    /// Adds a function and gives it back for declaring its arguments.
    pub fn add_function(&mut self, name: &[u8]) -> (r: &mut FunctionEntity)
        ensures
            final(self).spec_name() == old(self).spec_name(),
            final(self).spec_version() == old(self).spec_version(),
            final(self).spec_author() == old(self).spec_author(),
            r.spec_name() == c_name(name@),
            r.spec_arguments().len() == 0,
            r.spec_return_type() is None,
            final(self).spec_functions() == old(self).spec_functions().push(*final(r)),
            final(self).spec_classes() == old(self).spec_classes(),
            final(self).spec_interfaces() == old(self).spec_interfaces(),
            final(self).spec_constants() == old(self).spec_constants(),
            final(self).spec_ini() == old(self).spec_ini(),
            final(self).spec_enums() == old(self).spec_enums(),
            final(self).spec_infos() == old(self).spec_infos(),
    {
        self.function_entities.push(FunctionEntity::new(name));
        let n = self.function_entities.len();
        &mut self.function_entities[n - 1]
    }

    /// Adds a class.
    pub fn add_class<T>(&mut self, class: ClassEntity<T>)
        ensures
            final(self).spec_name() == old(self).spec_name(),
            final(self).spec_version() == old(self).spec_version(),
            final(self).spec_author() == old(self).spec_author(),
            final(self).spec_classes().len() == old(self).spec_classes().len() + 1,
            final(self).spec_classes().drop_last() == old(self).spec_classes(),
            ({
                let c = final(self).spec_classes().last();
                &&& c.spec_class_name() == class.spec_class_name()
                &&& c.spec_methods() == class.spec_methods()
                &&& c.spec_properties() == class.spec_properties()
                &&& c.spec_parent() == class.spec_parent()
                &&& c.spec_interfaces() == class.spec_interfaces()
                &&& c.spec_constants() == class.spec_constants()
            }),
            final(self).spec_functions() == old(self).spec_functions(),
            final(self).spec_interfaces() == old(self).spec_interfaces(),
            final(self).spec_constants() == old(self).spec_constants(),
            final(self).spec_ini() == old(self).spec_ini(),
            final(self).spec_enums() == old(self).spec_enums(),
            final(self).spec_infos() == old(self).spec_infos(),
    {
        self.class_entities.push(class.erase());
        assert(self.class_entities@.drop_last() =~= old(self).class_entities@);
    }

    /// Adds an interface.
    pub fn add_interface(&mut self, interface: InterfaceEntity)
        ensures
            final(self).spec_name() == old(self).spec_name(),
            final(self).spec_version() == old(self).spec_version(),
            final(self).spec_author() == old(self).spec_author(),
            final(self).spec_interfaces() == old(self).spec_interfaces().push(interface),
            final(self).spec_functions() == old(self).spec_functions(),
            final(self).spec_classes() == old(self).spec_classes(),
            final(self).spec_constants() == old(self).spec_constants(),
            final(self).spec_ini() == old(self).spec_ini(),
            final(self).spec_enums() == old(self).spec_enums(),
            final(self).spec_infos() == old(self).spec_infos(),
    {
        self.interface_entities.push(interface);
    }

    /// Gets the class entities.
    pub fn class_entities(&self) -> (r: &Vec<ClassEntity<()>>)
        ensures
            r@ == self.spec_classes(),
    {
        &self.class_entities
    }

    /// Adds an enum, and gives the enum as its cases see it: found by its
    /// name.
    pub fn add_enum<B: EnumBackingType>(&mut self, enum_entity: EnumEntity<B>) -> (r: Enum)
        ensures
            final(self).spec_name() == old(self).spec_name(),
            final(self).spec_version() == old(self).spec_version(),
            final(self).spec_author() == old(self).spec_author(),
            r matches Enum::Named(n) && n@ == until_nul(enum_entity.spec_enum_name()),
            final(self).spec_enums().len() == old(self).spec_enums().len() + 1,
            final(self).spec_enums().drop_last() == old(self).spec_enums(),
            ({
                let e = final(self).spec_enums().last();
                &&& e.spec_enum_name() == enum_entity.spec_enum_name()
                &&& e.spec_enum_type() == enum_entity.spec_enum_type()
                &&& e.spec_methods() == enum_entity.spec_methods()
                &&& e.spec_cases() == enum_entity.spec_cases()
                &&& e.spec_constants() == enum_entity.spec_constants()
                &&& e.spec_interfaces() == enum_entity.spec_interfaces()
            }),
            final(self).spec_functions() == old(self).spec_functions(),
            final(self).spec_classes() == old(self).spec_classes(),
            final(self).spec_interfaces() == old(self).spec_interfaces(),
            final(self).spec_constants() == old(self).spec_constants(),
            final(self).spec_ini() == old(self).spec_ini(),
            final(self).spec_infos() == old(self).spec_infos(),
    {
        let bound = enum_entity.bound_enum();
        self.enum_entities.push(enum_entity.erase());
        assert(self.enum_entities@.drop_last() =~= old(self).enum_entities@);
        bound
    }

    /// Adds a constant.
    pub fn add_constant(&mut self, name: &[u8], value: Scalar)
        ensures
            final(self).spec_name() == old(self).spec_name(),
            final(self).spec_version() == old(self).spec_version(),
            final(self).spec_author() == old(self).spec_author(),
            final(self).spec_constants().len() == old(self).spec_constants().len() + 1,
            final(self).spec_constants().drop_last() == old(self).spec_constants(),
            final(self).spec_constants().last().spec_name() == name@,
            final(self).spec_constants().last().spec_value() == value.model(),
            final(self).spec_functions() == old(self).spec_functions(),
            final(self).spec_classes() == old(self).spec_classes(),
            final(self).spec_interfaces() == old(self).spec_interfaces(),
            final(self).spec_ini() == old(self).spec_ini(),
            final(self).spec_enums() == old(self).spec_enums(),
            final(self).spec_infos() == old(self).spec_infos(),
    {
        self.constants.push(Constant::new(name, value));
        assert(self.constants@.drop_last() =~= old(self).constants@);
    }

    /// Adds an ini entry.
    pub fn add_ini(&mut self, entity: IniEntity)
        ensures
            final(self).spec_name() == old(self).spec_name(),
            final(self).spec_version() == old(self).spec_version(),
            final(self).spec_author() == old(self).spec_author(),
            final(self).spec_ini() == old(self).spec_ini().push(entity),
            final(self).spec_enums() == old(self).spec_enums(),
            final(self).spec_functions() == old(self).spec_functions(),
            final(self).spec_classes() == old(self).spec_classes(),
            final(self).spec_interfaces() == old(self).spec_interfaces(),
            final(self).spec_constants() == old(self).spec_constants(),
            final(self).spec_infos() == old(self).spec_infos(),
    {
        self.ini_entities.push(entity);
    }

    /// Sets an info row; neither the key nor the value may hold a NUL byte.
    pub fn add_info(&mut self, key: &[u8], value: &[u8])
        requires
            no_nul(key@),
            no_nul(value@),
        ensures
            final(self).spec_infos() == info_update(old(self).spec_infos(), key@, value@),
            distinct_rows(old(self).spec_infos()) ==> distinct_rows(final(self).spec_infos()),
            final(self).spec_functions() == old(self).spec_functions(),
            final(self).spec_classes() == old(self).spec_classes(),
            final(self).spec_interfaces() == old(self).spec_interfaces(),
            final(self).spec_constants() == old(self).spec_constants(),
            final(self).spec_ini() == old(self).spec_ini(),
            final(self).spec_enums() == old(self).spec_enums(),
            final(self).spec_name() == old(self).spec_name(),
            final(self).spec_version() == old(self).spec_version(),
            final(self).spec_author() == old(self).spec_author(),
    {
        let ghost rows = self.spec_infos();
        let n = self.infos.len();
        let mut i: usize = 0;
        while i < n
            invariant
                0 <= i <= n,
                n == self.infos@.len(),
                rows == self.spec_infos(),
                rows == old(self).spec_infos(),
                self.function_entities@ == old(self).function_entities@,
                self.class_entities@ == old(self).class_entities@,
                self.interface_entities@ == old(self).interface_entities@,
                self.constants@ == old(self).constants@,
                self.ini_entities@ == old(self).ini_entities@,
                self.enum_entities@ == old(self).enum_entities@,
                self.name@ == old(self).name@,
                self.version@ == old(self).version@,
                self.author@ == old(self).author@,
                forall|j: int| 0 <= j < i ==> (#[trigger] rows[j]).0 != key@,
            decreases n - i,
        {
            if crate::strings::bytes_eq(self.infos[i].0.as_slice(), key) {
                proof {
                    assert(rows[i as int].0 == key@);
                    assert(first_row(rows, key@, i as int));
                    let k = choose|k: int| #[trigger] first_row(rows, key@, k);
                    if k < i as int {
                        assert(rows[k].0 != key@);
                    }
                    if k > i as int {
                        assert(rows[i as int].0 != key@);
                    }
                    assert(k == i as int);
                }
                self.infos.set(
                    i,
                    (vstd::slice::slice_to_vec(key), vstd::slice::slice_to_vec(value)),
                );
                assert(self.spec_infos() =~= rows.update(i as int, (key@, value@)));
                assert(distinct_rows(rows) ==> distinct_rows(self.spec_infos())) by {
                    if distinct_rows(rows) {
                        assert forall|a: int, b: int| 0 <= a < b < self.spec_infos().len() implies (
                        #[trigger] self.spec_infos()[a]).0 != (#[trigger] self.spec_infos()[b]).0 by {
                            assert(rows[a].0 != rows[b].0);
                        }
                    }
                }
                return;
            }
            i = i + 1;
        }
        self.infos.push((vstd::slice::slice_to_vec(key), vstd::slice::slice_to_vec(value)));
        assert(self.spec_infos() =~= rows.push((key@, value@)));
        assert(!exists|k: int| #[trigger] first_row(rows, key@, k));
        assert(distinct_rows(rows) ==> distinct_rows(self.spec_infos())) by {
            if distinct_rows(rows) {
                assert forall|a: int, b: int| 0 <= a < b < self.spec_infos().len() implies (
                #[trigger] self.spec_infos()[a]).0 != (#[trigger] self.spec_infos()[b]).0 by {
                    if b < rows.len() {
                        assert(rows[a].0 != rows[b].0);
                    }
                }
            }
        }
    }

    /// The rows the module shows in `phpinfo()`.
    pub fn module_info(&self) -> (r: Vec<(Vec<u8>, Vec<u8>)>)
        ensures
            rows_view(r@) == info_rows(self.spec_version(), self.spec_author(), self.spec_infos()),
    {
        proof {
            reveal_strlit("version");
            reveal_strlit("authors");
        }
        let mut out: Vec<(Vec<u8>, Vec<u8>)> = Vec::new();
        let v = copy_until_nul(self.version.as_slice());
        if v.len() > 0 {
            out.push((lit("version"), v));
        }
        let a = copy_until_nul(self.author.as_slice());
        if a.len() > 0 {
            out.push((lit("authors"), a));
        }
        let ghost head = rows_view(out@);
        assert(head =~= info_rows(self.spec_version(), self.spec_author(), Seq::empty()));
        let n = self.infos.len();
        let mut i: usize = 0;
        while i < n
            invariant
                0 <= i <= n,
                n == self.infos@.len(),
                rows_view(out@) == head + self.spec_infos().take(i as int),
            decreases n - i,
        {
            let row = &self.infos[i];
            let ghost prev = out@;
            out.push((vstd::slice::slice_to_vec(row.0.as_slice()), vstd::slice::slice_to_vec(row.1.as_slice())));
            assert(rows_view(out@) =~= rows_view(prev).push(self.spec_infos()[i as int]));
            i = i + 1;
            assert(rows_view(out@) =~= head + self.spec_infos().take(i as int));
        }
        assert(self.spec_infos().take(n as int) =~= self.spec_infos());
        out
    }

    /// What the engine does with the module at shutdown: it removes the
    /// module's ini entries.
    pub fn module_shutdown(&self, module_number: i32, ini: &mut IniTable)
        ensures
            final(ini).spec_entries() == without_module(old(ini).spec_entries(), module_number),
    {
        crate::ini::unregister(ini, module_number);
    }

    /// The entries of the module's functions.
    pub fn function_entries(&self) -> (r: Vec<FunctionEntry>)
        ensures
            r@.len() == self.spec_functions().len(),
            forall|i: int| 0 <= i < r@.len() ==> is_entry_of(self.spec_functions()[i], #[trigger] r@[i]),
    {
        let mut out: Vec<FunctionEntry> = Vec::new();
        let n = self.function_entities.len();
        let mut i: usize = 0;
        while i < n
            invariant
                0 <= i <= n,
                n == self.function_entities@.len(),
                out@.len() == i,
                forall|j: int| 0 <= j < i ==> is_entry_of(self.spec_functions()[j], #[trigger] out@[j]),
            decreases n - i,
        {
            out.push(FunctionEntry::from_function_entity(&self.function_entities[i]));
            i = i + 1;
        }
        out
    }

    /// What the engine registers of the module; its name and version must
    /// be set.
    pub fn module_entry(&self) -> (r: ModuleEntry)
        requires
            until_nul(self.spec_name()).len() > 0,
            until_nul(self.spec_version()).len() > 0,
        ensures
            r.spec_name() == self.spec_name(),
            r.spec_version() == self.spec_version(),
            r.spec_function_count() == self.spec_functions().len(),
            r.spec_functions().len() == self.spec_functions().len(),
            forall|i: int|
                0 <= i < r.spec_functions().len() ==> is_entry_of(
                    self.spec_functions()[i],
                    #[trigger] r.spec_functions()[i],
                ),
    {
        ModuleEntry {
            name: vstd::slice::slice_to_vec(self.name.as_slice()),
            version: vstd::slice::slice_to_vec(self.version.as_slice()),
            functions: self.function_entries(),
        }
    }
}

/// The module entry that a process has published: none until the first
/// module publishes its own, which then stays for the life of the process.
pub struct PublishedEntry {
    entry: Option<ModuleEntry>,
}

impl PublishedEntry {
    /// The published entry, if any.
    pub closed spec fn spec_entry(&self) -> Option<ModuleEntry> {
        self.entry
    }

    /// Nothing published yet.
    pub fn new() -> (r: Self)
        ensures
            r.spec_entry() is None,
    {
        PublishedEntry { entry: None }
    }

    /// Publishes the entry of `module`, as [`Module::module_entry`] builds
    /// it, unless an entry was published before: then that one stays and
    /// `module` is not looked at.
    pub fn publish(&mut self, module: &Module)
        requires
            old(self).spec_entry() is None ==> until_nul(module.spec_name()).len() > 0
                && until_nul(module.spec_version()).len() > 0,
        ensures
            old(self).spec_entry() is Some ==> final(self).spec_entry() == old(self).spec_entry(),
            old(self).spec_entry() is None ==> (final(self).spec_entry() matches Some(e) && {
                &&& e.spec_name() == module.spec_name()
                &&& e.spec_version() == module.spec_version()
                &&& e.spec_function_count() == module.spec_functions().len()
                &&& e.spec_functions().len() == module.spec_functions().len()
                &&& forall|i: int|
                    0 <= i < e.spec_functions().len() ==> is_entry_of(
                        module.spec_functions()[i],
                        #[trigger] e.spec_functions()[i],
                    )
            }),
    {
        if self.entry.is_none() {
            self.entry = Some(module.module_entry());
        }
    }

    /// The published entry, if any.
    pub fn entry(&self) -> (r: Option<&ModuleEntry>)
        ensures
            match self.spec_entry() {
                Some(e) => r == Some(&e),
                None => r is None,
            },
    {
        match &self.entry {
            Some(e) => Some(e),
            None => None,
        }
    }
}

/// `after` keeps every class of `before` at its place.
pub open spec fn extends_table(before: Seq<ClassEntry>, after: Seq<ClassEntry>) -> bool {
    &&& after.len() >= before.len()
    &&& forall|i: int| 0 <= i < before.len() ==> #[trigger] after[i] == before[i]
}

/// The class at `id` is what registering the class `e` made of the
/// classes before it.
pub open spec fn class_registered(e: ClassEntity<()>, cs: Seq<ClassEntry>, id: int) -> bool {
    &&& 0 <= id < cs.len()
    &&& registration(
        Some(id as usize),
        cs.take(id),
        cs.take(id + 1),
        until_nul(e.spec_class_name()),
        e.spec_parent(),
        e.spec_interfaces(),
        class_flags(e.spec_methods()),
        method_names(e.spec_methods()),
        e.spec_properties(),
        e.spec_constants(),
    )
}

/// The class at `id` is what registering the interface `e` made of the
/// classes before it.
pub open spec fn interface_registered(e: InterfaceEntity, cs: Seq<ClassEntry>, id: int) -> bool {
    &&& 0 <= id < cs.len()
    &&& registration(
        Some(id as usize),
        cs.take(id),
        cs.take(id + 1),
        until_nul(e.spec_interface_name()),
        None,
        e.spec_extends(),
        interface_flags(e.spec_methods()),
        method_names(e.spec_methods()),
        Seq::empty(),
        e.spec_constants(),
    )
}

/// The class at `id` is what registering the enum `e` made of the classes
/// before it.
pub open spec fn enum_registered(e: EnumEntity<()>, cs: Seq<ClassEntry>, id: int) -> bool {
    &&& 0 <= id < cs.len()
    &&& can_register(cs.take(id), until_nul(e.spec_enum_name()), None, e.spec_interfaces())
    &&& is_registered(
        cs[id],
        cs.take(id),
        id,
        until_nul(e.spec_enum_name()),
        None,
        e.spec_interfaces(),
        ZEND_ACC_ENUM,
        method_names(e.spec_methods()),
        Seq::empty(),
        e.spec_constants() + e.spec_cases(),
    )
}

/// How many of the outcomes are `Some`.
pub open spec fn count_some<T>(s: Seq<Option<T>>) -> nat
    decreases s.len(),
{
    if s.len() == 0 {
        0
    } else {
        count_some(s.drop_last()) + if s.last() is Some {
            1nat
        } else {
            0nat
        }
    }
}

proof fn lemma_count_some_push<T>(s: Seq<Option<T>>, x: Option<T>)
    ensures
        count_some(s.push(x)) == count_some(s) + if x is Some {
            1nat
        } else {
            0nat
        },
{
    assert(s.push(x).drop_last() =~= s);
}

proof fn lemma_prefix_kept(t: Seq<ClassEntry>, t2: Seq<ClassEntry>, n: int)
    requires
        extends_table(t, t2),
        0 <= n <= t.len(),
    ensures
        t2.take(n) == t.take(n),
{
    assert(t2.take(n) =~= t.take(n));
}

/// A class just added to `t` sits at its end, after what came before.
proof fn lemma_newly_registered(t: Seq<ClassEntry>, t2: Seq<ClassEntry>)
    requires
        extends_table(t, t2),
        t2.len() == t.len() + 1,
    ensures
        t2.take(t.len() as int) == t,
        t2.take(t.len() as int + 1) == t2,
{
    assert(t2.take(t.len() as int) =~= t);
    assert(t2.take(t.len() as int + 1) =~= t2);
}

/// What registering the interface `e` at startup came to, when the
/// classes before it were the first `n` of `cs`: its place `n` and its
/// registration, or a refusal by [`registration_ok`].
pub open spec fn interface_outcome(
    e: InterfaceEntity,
    x: Option<Interface>,
    cs: Seq<ClassEntry>,
    n: int,
) -> bool {
    match x {
        Some(y) => y.spec_id() == n && interface_registered(e, cs, n),
        None => n <= cs.len() && !registration_ok(
            cs.take(n),
            until_nul(e.spec_interface_name()),
            None,
            e.spec_extends(),
        ),
    }
}

/// What registering the class `e` at startup came to, when the classes
/// before it were the first `n` of `cs`: its place `n` and its
/// registration, or a refusal by [`registration_ok`].
pub open spec fn class_outcome(
    e: ClassEntity<()>,
    x: Option<StateClass<()>>,
    cs: Seq<ClassEntry>,
    n: int,
) -> bool {
    match x {
        Some(y) => y.spec_id() == n && class_registered(e, cs, n),
        None => n <= cs.len() && !registration_ok(
            cs.take(n),
            until_nul(e.spec_class_name()),
            e.spec_parent(),
            e.spec_interfaces(),
        ),
    }
}

/// What registering the enum `e` at startup came to, when the classes
/// before it were the first `n` of `cs`: its place `n` and its
/// registration, or a refusal by [`can_register`].
pub open spec fn enum_outcome(e: EnumEntity<()>, x: Option<Enum>, cs: Seq<ClassEntry>, n: int) -> bool {
    match x {
        Some(Enum::Bound(id)) => id == n && enum_registered(e, cs, n),
        Some(Enum::Named(_)) => false,
        None => n <= cs.len() && !can_register(
            cs.take(n),
            until_nul(e.spec_enum_name()),
            None,
            e.spec_interfaces(),
        ),
    }
}

/// Registering one more interface keeps what the earlier ones came to and
/// adds what this one came to.
proof fn lemma_interface_step(
    es: Seq<InterfaceEntity>,
    prev: Seq<Option<Interface>>,
    x: Option<Interface>,
    base: int,
    before: Seq<ClassEntry>,
    after: Seq<ClassEntry>,
)
    requires
        prev.len() < es.len(),
        0 <= base,
        base + count_some(prev) == before.len(),
        extends_table(before, after),
        forall|k: int|
            0 <= k < prev.len() ==> interface_outcome(
                es[k],
                #[trigger] prev[k],
                before,
                base + count_some(prev.take(k)),
            ),
        ({
            let e = es[prev.len() as int];
            registration(
                match x {
                    Some(y) => Some(y.spec_id()),
                    None => None,
                },
                before,
                after,
                until_nul(e.spec_interface_name()),
                None,
                e.spec_extends(),
                interface_flags(e.spec_methods()),
                method_names(e.spec_methods()),
                Seq::empty(),
                e.spec_constants(),
            )
        }),
    ensures
        forall|k: int|
            0 <= k < prev.len() + 1 ==> interface_outcome(
                es[k],
                #[trigger] prev.push(x)[k],
                after,
                base + count_some(prev.push(x).take(k)),
            ),
        after.len() == base + count_some(prev.push(x)),
{
    lemma_interface_outcomes_kept(es, prev, base, before, after);
    if x is Some {
        lemma_newly_registered(before, after);
    } else {
        assert(after.take(before.len() as int) =~= before);
    }
    assert(interface_outcome(es[prev.len() as int], x, after, before.len() as int));
    lemma_interface_outcomes_push(es, prev, x, base, after);
    lemma_count_some_push(prev, x);
}

/// Registering one more class keeps what the earlier ones came to and adds
/// what this one came to.
proof fn lemma_class_step(
    es: Seq<ClassEntity<()>>,
    prev: Seq<Option<StateClass<()>>>,
    x: Option<StateClass<()>>,
    base: int,
    before: Seq<ClassEntry>,
    after: Seq<ClassEntry>,
)
    requires
        prev.len() < es.len(),
        0 <= base,
        base + count_some(prev) == before.len(),
        extends_table(before, after),
        forall|k: int|
            0 <= k < prev.len() ==> class_outcome(
                es[k],
                #[trigger] prev[k],
                before,
                base + count_some(prev.take(k)),
            ),
        ({
            let e = es[prev.len() as int];
            registration(
                match x {
                    Some(y) => Some(y.spec_id()),
                    None => None,
                },
                before,
                after,
                until_nul(e.spec_class_name()),
                e.spec_parent(),
                e.spec_interfaces(),
                class_flags(e.spec_methods()),
                method_names(e.spec_methods()),
                e.spec_properties(),
                e.spec_constants(),
            )
        }),
    ensures
        forall|k: int|
            0 <= k < prev.len() + 1 ==> class_outcome(
                es[k],
                #[trigger] prev.push(x)[k],
                after,
                base + count_some(prev.push(x).take(k)),
            ),
        after.len() == base + count_some(prev.push(x)),
{
    lemma_class_outcomes_kept(es, prev, base, before, after);
    if x is Some {
        lemma_newly_registered(before, after);
    } else {
        assert(after.take(before.len() as int) =~= before);
    }
    assert(class_outcome(es[prev.len() as int], x, after, before.len() as int));
    lemma_class_outcomes_push(es, prev, x, base, after);
    lemma_count_some_push(prev, x);
}

/// Registering one more enum keeps what the earlier ones came to and adds
/// what this one came to.
proof fn lemma_enum_step(
    es: Seq<EnumEntity<()>>,
    prev: Seq<Option<Enum>>,
    x: Option<Enum>,
    base: int,
    before: Seq<ClassEntry>,
    after: Seq<ClassEntry>,
)
    requires
        prev.len() < es.len(),
        0 <= base,
        base + count_some(prev) == before.len(),
        extends_table(before, after),
        forall|k: int|
            0 <= k < prev.len() ==> enum_outcome(
                es[k],
                #[trigger] prev[k],
                before,
                base + count_some(prev.take(k)),
            ),
        ({
            let e = es[prev.len() as int];
            let name = until_nul(e.spec_enum_name());
            let ok = can_register(before, name, None, e.spec_interfaces());
            &&& ok ==> {
                &&& x == Some(Enum::Bound(before.len() as usize))
                &&& after.len() == before.len() + 1
                &&& is_registered(
                    after[before.len() as int],
                    before,
                    before.len() as int,
                    name,
                    None,
                    e.spec_interfaces(),
                    ZEND_ACC_ENUM,
                    method_names(e.spec_methods()),
                    Seq::empty(),
                    e.spec_constants() + e.spec_cases(),
                )
            }
            &&& !ok ==> x is None && after == before
        }),
    ensures
        forall|k: int|
            0 <= k < prev.len() + 1 ==> enum_outcome(
                es[k],
                #[trigger] prev.push(x)[k],
                after,
                base + count_some(prev.push(x).take(k)),
            ),
        after.len() == base + count_some(prev.push(x)),
{
    lemma_enum_outcomes_kept(es, prev, base, before, after);
    if x is Some {
        lemma_newly_registered(before, after);
    } else {
        assert(after.take(before.len() as int) =~= before);
    }
    assert(enum_outcome(es[prev.len() as int], x, after, before.len() as int));
    lemma_enum_outcomes_push(es, prev, x, base, after);
    lemma_count_some_push(prev, x);
}

proof fn lemma_count_some_take<T>(s: Seq<Option<T>>, k: int)
    requires
        0 <= k <= s.len(),
    ensures
        count_some(s.take(k)) <= count_some(s),
    decreases s.len(),
{
    if k < s.len() {
        assert(s.drop_last().take(k) =~= s.take(k));
        lemma_count_some_take(s.drop_last(), k);
    } else {
        assert(s.take(k) =~= s);
    }
}

proof fn lemma_interface_outcomes_kept(
    es: Seq<InterfaceEntity>,
    xs: Seq<Option<Interface>>,
    base: int,
    t: Seq<ClassEntry>,
    t2: Seq<ClassEntry>,
)
    requires
        extends_table(t, t2),
        0 <= base,
        base + count_some(xs) <= t.len(),
        xs.len() <= es.len(),
        forall|k: int|
            0 <= k < xs.len() ==> interface_outcome(
                es[k],
                #[trigger] xs[k],
                t,
                base + count_some(xs.take(k)),
            ),
    ensures
        forall|k: int|
            0 <= k < xs.len() ==> interface_outcome(
                es[k],
                #[trigger] xs[k],
                t2,
                base + count_some(xs.take(k)),
            ),
{
    assert forall|k: int| 0 <= k < xs.len() implies interface_outcome(
        es[k],
        #[trigger] xs[k],
        t2,
        base + count_some(xs.take(k)),
    ) by {
        let n = base + count_some(xs.take(k));
        lemma_count_some_take(xs, k);
        lemma_prefix_kept(t, t2, n);
        if xs[k] is Some {
            lemma_prefix_kept(t, t2, n + 1);
        }
    }
}

proof fn lemma_interface_outcomes_push(
    es: Seq<InterfaceEntity>,
    xs: Seq<Option<Interface>>,
    x: Option<Interface>,
    base: int,
    t: Seq<ClassEntry>,
)
    requires
        xs.len() < es.len(),
        forall|k: int|
            0 <= k < xs.len() ==> interface_outcome(
                es[k],
                #[trigger] xs[k],
                t,
                base + count_some(xs.take(k)),
            ),
        interface_outcome(es[xs.len() as int], x, t, base + count_some(xs)),
    ensures
        forall|k: int|
            0 <= k < xs.len() + 1 ==> interface_outcome(
                es[k],
                #[trigger] xs.push(x)[k],
                t,
                base + count_some(xs.push(x).take(k)),
            ),
{
    assert forall|k: int| 0 <= k < xs.len() + 1 implies interface_outcome(
        es[k],
        #[trigger] xs.push(x)[k],
        t,
        base + count_some(xs.push(x).take(k)),
    ) by {
        if k < xs.len() {
            assert(xs.push(x).take(k) =~= xs.take(k));
        } else {
            assert(xs.push(x).take(k) =~= xs);
        }
    }
}

proof fn lemma_class_outcomes_kept(
    es: Seq<ClassEntity<()>>,
    xs: Seq<Option<StateClass<()>>>,
    base: int,
    t: Seq<ClassEntry>,
    t2: Seq<ClassEntry>,
)
    requires
        extends_table(t, t2),
        0 <= base,
        base + count_some(xs) <= t.len(),
        xs.len() <= es.len(),
        forall|k: int|
            0 <= k < xs.len() ==> class_outcome(es[k], #[trigger] xs[k], t, base + count_some(xs.take(k))),
    ensures
        forall|k: int|
            0 <= k < xs.len() ==> class_outcome(es[k], #[trigger] xs[k], t2, base + count_some(xs.take(k))),
{
    assert forall|k: int| 0 <= k < xs.len() implies class_outcome(
        es[k],
        #[trigger] xs[k],
        t2,
        base + count_some(xs.take(k)),
    ) by {
        let n = base + count_some(xs.take(k));
        lemma_count_some_take(xs, k);
        lemma_prefix_kept(t, t2, n);
        if xs[k] is Some {
            lemma_prefix_kept(t, t2, n + 1);
        }
    }
}

proof fn lemma_class_outcomes_push(
    es: Seq<ClassEntity<()>>,
    xs: Seq<Option<StateClass<()>>>,
    x: Option<StateClass<()>>,
    base: int,
    t: Seq<ClassEntry>,
)
    requires
        xs.len() < es.len(),
        forall|k: int|
            0 <= k < xs.len() ==> class_outcome(es[k], #[trigger] xs[k], t, base + count_some(xs.take(k))),
        class_outcome(es[xs.len() as int], x, t, base + count_some(xs)),
    ensures
        forall|k: int|
            0 <= k < xs.len() + 1 ==> class_outcome(
                es[k],
                #[trigger] xs.push(x)[k],
                t,
                base + count_some(xs.push(x).take(k)),
            ),
{
    assert forall|k: int| 0 <= k < xs.len() + 1 implies class_outcome(
        es[k],
        #[trigger] xs.push(x)[k],
        t,
        base + count_some(xs.push(x).take(k)),
    ) by {
        if k < xs.len() {
            assert(xs.push(x).take(k) =~= xs.take(k));
        } else {
            assert(xs.push(x).take(k) =~= xs);
        }
    }
}

proof fn lemma_enum_outcomes_kept(
    es: Seq<EnumEntity<()>>,
    xs: Seq<Option<Enum>>,
    base: int,
    t: Seq<ClassEntry>,
    t2: Seq<ClassEntry>,
)
    requires
        extends_table(t, t2),
        0 <= base,
        base + count_some(xs) <= t.len(),
        xs.len() <= es.len(),
        forall|k: int|
            0 <= k < xs.len() ==> enum_outcome(es[k], #[trigger] xs[k], t, base + count_some(xs.take(k))),
    ensures
        forall|k: int|
            0 <= k < xs.len() ==> enum_outcome(es[k], #[trigger] xs[k], t2, base + count_some(xs.take(k))),
{
    assert forall|k: int| 0 <= k < xs.len() implies enum_outcome(
        es[k],
        #[trigger] xs[k],
        t2,
        base + count_some(xs.take(k)),
    ) by {
        let n = base + count_some(xs.take(k));
        lemma_count_some_take(xs, k);
        lemma_prefix_kept(t, t2, n);
    }
}

proof fn lemma_enum_outcomes_push(
    es: Seq<EnumEntity<()>>,
    xs: Seq<Option<Enum>>,
    x: Option<Enum>,
    base: int,
    t: Seq<ClassEntry>,
)
    requires
        xs.len() < es.len(),
        forall|k: int|
            0 <= k < xs.len() ==> enum_outcome(es[k], #[trigger] xs[k], t, base + count_some(xs.take(k))),
        enum_outcome(es[xs.len() as int], x, t, base + count_some(xs)),
    ensures
        forall|k: int|
            0 <= k < xs.len() + 1 ==> enum_outcome(
                es[k],
                #[trigger] xs.push(x)[k],
                t,
                base + count_some(xs.push(x).take(k)),
            ),
{
    assert forall|k: int| 0 <= k < xs.len() + 1 implies enum_outcome(
        es[k],
        #[trigger] xs.push(x)[k],
        t,
        base + count_some(xs.push(x).take(k)),
    ) by {
        if k < xs.len() {
            assert(xs.push(x).take(k) =~= xs.take(k));
        } else {
            assert(xs.push(x).take(k) =~= xs);
        }
    }
}

impl Module {
    /// Registers the interfaces in order, and gives what each came to.
    fn startup_interfaces(&self, classes: &mut ClassTable) -> (r: Vec<Option<Interface>>)
        ensures
            extends_table(old(classes).spec_classes(), final(classes).spec_classes()),
            final(classes).spec_next_handle() == old(classes).spec_next_handle(),
            final(classes).spec_classes().len() == old(classes).spec_classes().len() + count_some(r@),
            r@.len() == self.spec_interfaces().len(),
            forall|k: int|
                0 <= k < r@.len() ==> interface_outcome(
                    self.spec_interfaces()[k],
                    #[trigger] r@[k],
                    final(classes).spec_classes(),
                    (old(classes).spec_classes().len() + count_some(r@.take(k))) as int,
                ),
    {
        let ghost t0 = classes.spec_classes();
        let mut ifaces: Vec<Option<Interface>> = Vec::new();
        assert(count_some(ifaces@) == 0);
        let ni = self.interface_entities.len();
        let mut i: usize = 0;
        while i < ni
            invariant
                0 <= i <= ni,
                ni == self.interface_entities@.len(),
                extends_table(t0, classes.spec_classes()),
                classes.spec_next_handle() == old(classes).spec_next_handle(),
                t0 == old(classes).spec_classes(),
                classes.spec_classes().len() == t0.len() + count_some(ifaces@),
                ifaces@.len() == i,
                forall|k: int|
                    0 <= k < i ==> interface_outcome(
                        self.spec_interfaces()[k],
                        #[trigger] ifaces@[k],
                        classes.spec_classes(),
                        (t0.len() + count_some(ifaces@.take(k))) as int,
                    ),
            decreases ni - i,
        {
            let ghost before = classes.spec_classes();
            let ghost prev = ifaces@;
            let x = self.interface_entities[i].init(classes);
            assert forall|k: int| 0 <= k < before.len() implies #[trigger] classes.spec_classes()[k] == before[k] by {}
            proof {
                lemma_interface_step(
                    self.spec_interfaces(),
                    prev,
                    x,
                    t0.len() as int,
                    before,
                    classes.spec_classes(),
                );
            }
            ifaces.push(x);
            i = i + 1;
        }
        ifaces
    }

    /// Registers the classes in order, and gives what each came to and the
    /// keys of their methods' handlers.
    fn startup_classes(&self, classes: &mut ClassTable) -> (r: (
        Vec<Option<StateClass<()>>>,
        Vec<(Option<Vec<u8>>, Vec<u8>)>,
    ))
        ensures
            extends_table(old(classes).spec_classes(), final(classes).spec_classes()),
            final(classes).spec_next_handle() == old(classes).spec_next_handle(),
            final(classes).spec_classes().len() == old(classes).spec_classes().len() + count_some(r.0@),
            r.0@.len() == self.spec_classes().len(),
            forall|k: int|
                0 <= k < r.0@.len() ==> class_outcome(
                    self.spec_classes()[k],
                    #[trigger] r.0@[k],
                    final(classes).spec_classes(),
                    (old(classes).spec_classes().len() + count_some(r.0@.take(k))) as int,
                ),
            keys_view(r.1@) == class_keys(self.spec_classes()),
    {
        let ghost t0 = classes.spec_classes();
        let mut bound: Vec<Option<StateClass<()>>> = Vec::new();
        let mut handlers: Vec<(Option<Vec<u8>>, Vec<u8>)> = Vec::new();
        assert(count_some(bound@) == 0);
        let nc = self.class_entities.len();
        let mut i: usize = 0;
        while i < nc
            invariant
                0 <= i <= nc,
                nc == self.class_entities@.len(),
                extends_table(t0, classes.spec_classes()),
                classes.spec_next_handle() == old(classes).spec_next_handle(),
                t0 == old(classes).spec_classes(),
                classes.spec_classes().len() == t0.len() + count_some(bound@),
                bound@.len() == i,
                forall|k: int|
                    0 <= k < i ==> class_outcome(
                        self.spec_classes()[k],
                        #[trigger] bound@[k],
                        classes.spec_classes(),
                        (t0.len() + count_some(bound@.take(k))) as int,
                    ),
                keys_view(handlers@) == class_keys(self.spec_classes().take(i as int)),
            decreases nc - i,
        {
            let ghost before = classes.spec_classes();
            let entity = &self.class_entities[i];
            let ghost prev = bound@;
            let x = entity.init(classes);
            assert forall|k: int| 0 <= k < before.len() implies #[trigger] classes.spec_classes()[k] == before[k] by {}
            proof {
                lemma_class_step(self.spec_classes(), prev, x, t0.len() as int, before, classes.spec_classes());
            }
            bound.push(x);
            let ghost prev_keys = handlers@;
            let mut more = entity.handler_map();
            handlers.append(&mut more);
            proof {
                let t = self.spec_classes().take(i as int + 1);
                assert(t.drop_last() =~= self.spec_classes().take(i as int));
                assert(t.last() == self.spec_classes()[i as int]);
                assert(keys_view(handlers@) =~= keys_view(prev_keys) + crate::classes::handler_keys(
                    entity.spec_class_name(),
                    entity.spec_methods(),
                ));
            }
            i = i + 1;
        }
        assert(self.spec_classes().take(nc as int) =~= self.spec_classes());
        (bound, handlers)
    }

    /// Registers the enums in order, and gives what each came to and the
    /// keys of their methods' handlers.
    fn startup_enums(&self, classes: &mut ClassTable) -> (r: (
        Vec<Option<Enum>>,
        Vec<(Option<Vec<u8>>, Vec<u8>)>,
    ))
        ensures
            extends_table(old(classes).spec_classes(), final(classes).spec_classes()),
            final(classes).spec_next_handle() == old(classes).spec_next_handle(),
            final(classes).spec_classes().len() == old(classes).spec_classes().len() + count_some(r.0@),
            r.0@.len() == self.spec_enums().len(),
            forall|k: int|
                0 <= k < r.0@.len() ==> enum_outcome(
                    self.spec_enums()[k],
                    #[trigger] r.0@[k],
                    final(classes).spec_classes(),
                    (old(classes).spec_classes().len() + count_some(r.0@.take(k))) as int,
                ),
            keys_view(r.1@) == enum_keys(self.spec_enums()),
    {
        let ghost t0 = classes.spec_classes();
        let mut enums: Vec<Option<Enum>> = Vec::new();
        let mut handlers: Vec<(Option<Vec<u8>>, Vec<u8>)> = Vec::new();
        assert(count_some(enums@) == 0);
        let ne = self.enum_entities.len();
        let mut i: usize = 0;
        while i < ne
            invariant
                0 <= i <= ne,
                ne == self.enum_entities@.len(),
                extends_table(t0, classes.spec_classes()),
                classes.spec_next_handle() == old(classes).spec_next_handle(),
                t0 == old(classes).spec_classes(),
                classes.spec_classes().len() == t0.len() + count_some(enums@),
                enums@.len() == i,
                forall|k: int|
                    0 <= k < i ==> enum_outcome(
                        self.spec_enums()[k],
                        #[trigger] enums@[k],
                        classes.spec_classes(),
                        (t0.len() + count_some(enums@.take(k))) as int,
                    ),
                keys_view(handlers@) == enum_keys(self.spec_enums().take(i as int)),
            decreases ne - i,
        {
            let ghost before = classes.spec_classes();
            let entity = &self.enum_entities[i];
            let ghost prev = enums@;
            let x = entity.init(classes);
            assert forall|k: int| 0 <= k < before.len() implies #[trigger] classes.spec_classes()[k] == before[k] by {}
            proof {
                lemma_enum_step(self.spec_enums(), prev, x, t0.len() as int, before, classes.spec_classes());
            }
            enums.push(x);
            let ghost prev_keys = handlers@;
            let mut more = entity.handler_map();
            handlers.append(&mut more);
            proof {
                let t = self.spec_enums().take(i as int + 1);
                assert(t.drop_last() =~= self.spec_enums().take(i as int));
                assert(t.last() == self.spec_enums()[i as int]);
                assert(keys_view(handlers@) =~= keys_view(prev_keys) + crate::classes::handler_keys(
                    entity.spec_enum_name(),
                    entity.spec_methods(),
                ));
            }
            i = i + 1;
        }
        assert(self.spec_enums().take(ne as int) =~= self.spec_enums());
        (enums, handlers)
    }
}

impl Module {
    /// What the engine does with the module at startup, in this order: it
    /// registers the ini entries, the constants, the interfaces, the
    /// handlers of the functions, the classes with the handlers of their
    /// methods, and the enums with the handlers of theirs. What was refused is reported, and the rest goes on.
    pub fn module_startup(
        &self,
        module_number: i32,
        classes: &mut ClassTable,
        constants: &mut ConstantTable,
        ini: &mut IniTable,
    ) -> (r: Startup)
        ensures
            r.ini_registered == fresh_entities(old(ini).spec_entries(), self.spec_ini()),
            r.ini_registered ==> final(ini).spec_entries() == old(ini).spec_entries()
                + entity_entries(self.spec_ini(), module_number),
            !r.ini_registered ==> final(ini).spec_entries() == without_module(
                old(ini).spec_entries(),
                module_number,
            ),
            final(constants).spec_constants() == fold_constants(
                old(constants).spec_constants(),
                self.spec_constants(),
                module_number,
            ),
            r.constants@.len() == self.spec_constants().len(),
            forall|k: int|
                0 <= k < r.constants@.len() ==> #[trigger] r.constants@[k] == !has_constant(
                    fold_constants(
                        old(constants).spec_constants(),
                        self.spec_constants().take(k),
                        module_number,
                    ),
                    self.spec_constants()[k].spec_name(),
                ),
            extends_table(old(classes).spec_classes(), final(classes).spec_classes()),
            final(classes).spec_classes().len() == old(classes).spec_classes().len() + count_some(
                r.interfaces@,
            ) + count_some(r.classes@) + count_some(r.enums@),
            final(classes).spec_next_handle() == old(classes).spec_next_handle(),
            r.interfaces@.len() == self.spec_interfaces().len(),
            forall|k: int|
                0 <= k < r.interfaces@.len() ==> interface_outcome(
                    self.spec_interfaces()[k],
                    #[trigger] r.interfaces@[k],
                    final(classes).spec_classes(),
                    (old(classes).spec_classes().len() + count_some(r.interfaces@.take(k))) as int,
                ),
            r.classes@.len() == self.spec_classes().len(),
            forall|k: int|
                0 <= k < r.classes@.len() ==> class_outcome(
                    self.spec_classes()[k],
                    #[trigger] r.classes@[k],
                    final(classes).spec_classes(),
                    (old(classes).spec_classes().len() + count_some(r.interfaces@) + count_some(
                        r.classes@.take(k),
                    )) as int,
                ),
            r.enums@.len() == self.spec_enums().len(),
            forall|k: int|
                0 <= k < r.enums@.len() ==> enum_outcome(
                    self.spec_enums()[k],
                    #[trigger] r.enums@[k],
                    final(classes).spec_classes(),
                    (old(classes).spec_classes().len() + count_some(r.interfaces@) + count_some(
                        r.classes@,
                    ) + count_some(r.enums@.take(k))) as int,
                ),
            keys_view(r.handlers@) == function_keys(self.spec_functions()) + class_keys(
                self.spec_classes(),
            ) + enum_keys(self.spec_enums()),
    {
        let ini_registered = crate::ini::register(&self.ini_entities, ini, module_number);
        let ghost cs0 = constants.spec_constants();
        let mut regs: Vec<bool> = Vec::new();
        let n = self.constants.len();
        let mut i: usize = 0;
        while i < n
            invariant
                0 <= i <= n,
                n == self.constants@.len(),
                constants.spec_constants() == fold_constants(
                    cs0,
                    self.spec_constants().take(i as int),
                    module_number,
                ),
                regs@.len() == i,
                forall|k: int|
                    0 <= k < i ==> #[trigger] regs@[k] == !has_constant(
                        fold_constants(cs0, self.spec_constants().take(k), module_number),
                        self.spec_constants()[k].spec_name(),
                    ),
            decreases n - i,
        {
            proof {
                let t = self.spec_constants().take(i as int + 1);
                assert(t.drop_last() =~= self.spec_constants().take(i as int));
                assert(t.last() == self.spec_constants()[i as int]);
            }
            let ok = self.constants[i].register(constants, module_number);
            regs.push(ok);
            i = i + 1;
        }
        assert(self.spec_constants().take(n as int) =~= self.spec_constants());
        let ghost t0 = classes.spec_classes();
        let ifaces = self.startup_interfaces(classes);
        let ghost t1 = classes.spec_classes();
        let mut handlers: Vec<(Option<Vec<u8>>, Vec<u8>)> = Vec::new();
        let nf = self.function_entities.len();
        let mut i: usize = 0;
        while i < nf
            invariant
                0 <= i <= nf,
                nf == self.function_entities@.len(),
                keys_view(handlers@) == function_keys(self.spec_functions()).take(i as int),
            decreases nf - i,
        {
            let ghost prev = handlers@;
            let name = copy_until_nul(self.function_entities[i].name_bytes_c());
            handlers.push((None, name));
            assert(keys_view(handlers@) =~= keys_view(prev).push(
                function_keys(self.spec_functions())[i as int],
            ));
            i = i + 1;
            assert(keys_view(handlers@) =~= function_keys(self.spec_functions()).take(i as int));
        }
        assert(function_keys(self.spec_functions()).take(nf as int) =~= function_keys(
            self.spec_functions(),
        ));
        let (bound, mut ckeys) = self.startup_classes(classes);
        let ghost t2 = classes.spec_classes();
        let ghost fkeys = handlers@;
        handlers.append(&mut ckeys);
        let (enums, mut ekeys) = self.startup_enums(classes);
        let ghost t3 = classes.spec_classes();
        let ghost fckeys = handlers@;
        handlers.append(&mut ekeys);
        proof {
            assert(keys_view(fckeys) =~= keys_view(fkeys) + class_keys(self.spec_classes()));
            assert(keys_view(handlers@) =~= keys_view(fckeys) + enum_keys(self.spec_enums()));
            assert forall|k: int| 0 <= k < t1.len() implies #[trigger] t3[k] == t1[k] by {
                assert(t2[k] == t1[k]);
            }
            lemma_interface_outcomes_kept(self.spec_interfaces(), ifaces@, t0.len() as int, t1, t3);
            lemma_class_outcomes_kept(self.spec_classes(), bound@, t1.len() as int, t2, t3);
        }
        Startup { ini_registered, constants: regs, interfaces: ifaces, classes: bound, enums, handlers }
    }
}

} // verus!

//! Functions and methods: the builders that describe them, the entries the
//! engine registers, and the check made before a handler runs.

use vstd::prelude::*;
use vstd::utf8::valid_utf8;
use crate::classes::{
    key_view, ClassTable, Visibility, ARGUMENT_COUNT_ERROR, ERROR_EXCEPTION, ZEND_ACC_ABSTRACT,
    ZEND_ACC_PUBLIC, ZEND_ACC_STATIC,
};
use crate::errors::{deliver, delivered, ArgumentCountError, Error, ExecutorGlobals, Throwable};
use crate::objects::ZObj;
use crate::strings::ZStr;
use crate::types::TypeInfo;
use crate::utils::{append_bytes, ensure_end_with_zero};
use crate::values::ZVal;

verus! {

/// The bytes a name is kept as: a C string, ending with one NUL.
pub open spec fn c_name(s: Seq<u8>) -> Seq<u8> {
    if s.len() > 0 && s.last() == 0 {
        s
    } else {
        s.push(0)
    }
}

/// The type of an argument, by the engine's type tags.
#[derive(Debug, Clone, Copy, PartialEq, Eq, Structural)]
pub enum ArgType {
    /// Undefined.
    Undef,
    /// `null`.
    Null,
    /// `false`.
    False,
    /// `true`.
    True,
    /// An integer.
    Long,
    /// A float.
    Double,
    /// A string.
    String,
    /// An array.
    Array,
    /// An object.
    Object,
    /// A resource.
    Resource,
    /// A reference.
    Reference,
}

impl ArgType {
    /// The type tag, as the engine numbers it.
    pub open spec fn spec_raw(self) -> u8 {
        match self {
            ArgType::Undef => 0,
            ArgType::Null => 1,
            ArgType::False => 2,
            ArgType::True => 3,
            ArgType::Long => 4,
            ArgType::Double => 5,
            ArgType::String => 6,
            ArgType::Array => 7,
            ArgType::Object => 8,
            ArgType::Resource => 9,
            ArgType::Reference => 10,
        }
    }

    /// Gets the type tag.
    pub fn raw(self) -> (r: u8)
        ensures
            r == self.spec_raw(),
    {
        match self {
            ArgType::Undef => 0,
            ArgType::Null => 1,
            ArgType::False => 2,
            ArgType::True => 3,
            ArgType::Long => 4,
            ArgType::Double => 5,
            ArgType::String => 6,
            ArgType::Array => 7,
            ArgType::Object => 8,
            ArgType::Resource => 9,
            ArgType::Reference => 10,
        }
    }
}

/// Each argument type has a tag of its own: two types share a tag only when
/// they are the same; every tag is a base type the engine names, below 11,
/// and the tags follow the engine's order of its base types (undefined,
/// null, false, true, long, double, string, array, object, resource,
/// reference), one apart.
pub proof fn lemma_arg_type_tags(a: ArgType, b: ArgType)
    ensures
        a.spec_raw() == b.spec_raw() ==> a == b,
        a.spec_raw() < 11,
        crate::types::base_type_name(a.spec_raw() as u32) is Some,
        ArgType::Undef.spec_raw() == crate::types::IS_UNDEF,
        ArgType::Null.spec_raw() + 1 == ArgType::False.spec_raw(),
        ArgType::Undef.spec_raw() + 1 == ArgType::Null.spec_raw(),
        ArgType::False.spec_raw() + 1 == ArgType::True.spec_raw(),
        ArgType::True.spec_raw() + 1 == ArgType::Long.spec_raw(),
        ArgType::Long.spec_raw() + 1 == ArgType::Double.spec_raw(),
        ArgType::Double.spec_raw() + 1 == ArgType::String.spec_raw(),
        ArgType::String.spec_raw() + 1 == ArgType::Array.spec_raw(),
        ArgType::Array.spec_raw() + 1 == ArgType::Object.spec_raw(),
        ArgType::Object.spec_raw() + 1 == ArgType::Resource.spec_raw(),
        ArgType::Resource.spec_raw() + 1 == ArgType::Reference.spec_raw(),
        ArgType::Reference.spec_raw() == crate::types::IS_REFERENCE,
{
}

/// Function or method argument info.
#[derive(Debug)]
pub struct Argument {
    name: Vec<u8>,
    pass_by_ref: bool,
    required: bool,
}

impl Argument {
    /// The name, as a C string.
    pub closed spec fn spec_name(&self) -> Seq<u8> {
        self.name@
    }

    /// The argument is passed by reference.
    pub closed spec fn spec_pass_by_ref(&self) -> bool {
        self.pass_by_ref
    }

    /// The argument must be given.
    pub closed spec fn spec_required(&self) -> bool {
        self.required
    }

    fn make(name: &[u8], pass_by_ref: bool, required: bool) -> (r: Self)
        ensures
            r.spec_name() == c_name(name@),
            r.spec_pass_by_ref() == pass_by_ref,
            r.spec_required() == required,
    {
        Argument { name: ensure_end_with_zero(name), pass_by_ref, required }
    }

    /// Indicates the argument is passed by value.
    pub fn by_val(name: &[u8]) -> (r: Self)
        ensures
            r.spec_name() == c_name(name@),
            !r.spec_pass_by_ref(),
            r.spec_required(),
    {
        Self::make(name, false, true)
    }

    /// Indicates the argument is passed by reference.
    pub fn by_ref(name: &[u8]) -> (r: Self)
        ensures
            r.spec_name() == c_name(name@),
            r.spec_pass_by_ref(),
            r.spec_required(),
    {
        Self::make(name, true, true)
    }

    /// Indicates the argument is passed by value and is optional.
    pub fn by_val_optional(name: &[u8]) -> (r: Self)
        ensures
            r.spec_name() == c_name(name@),
            !r.spec_pass_by_ref(),
            !r.spec_required(),
    {
        Self::make(name, false, false)
    }

    /// Indicates the argument is passed by reference and is optional.
    pub fn by_ref_optional(name: &[u8]) -> (r: Self)
        ensures
            r.spec_name() == c_name(name@),
            r.spec_pass_by_ref(),
            !r.spec_required(),
    {
        Self::make(name, true, false)
    }
}

/// Function or method return type.
#[derive(Debug, Clone, Copy)]
pub struct ReturnType {
    type_info: TypeInfo,
    ret_by_ref: bool,
    allow_null: bool,
}

impl ReturnType {
    /// The declared type.
    pub closed spec fn spec_type_info(&self) -> TypeInfo {
        self.type_info
    }

    /// The value is returned by reference.
    pub closed spec fn spec_ret_by_ref(&self) -> bool {
        self.ret_by_ref
    }

    /// `null` may be returned too.
    pub closed spec fn spec_allow_null(&self) -> bool {
        self.allow_null
    }

    /// Indicates the return type is returned by value.
    pub fn by_val(type_info: TypeInfo) -> (r: Self)
        ensures
            r.spec_type_info() == type_info,
            !r.spec_ret_by_ref(),
            !r.spec_allow_null(),
    {
        ReturnType { type_info, ret_by_ref: false, allow_null: false }
    }

    /// Indicates the return type is returned by reference.
    pub fn by_ref(type_info: TypeInfo) -> (r: Self)
        ensures
            r.spec_type_info() == type_info,
            r.spec_ret_by_ref(),
            !r.spec_allow_null(),
    {
        ReturnType { type_info, ret_by_ref: true, allow_null: false }
    }

    /// Indicates the return type can be null.
    pub fn allow_null(self) -> (r: Self)
        ensures
            r.spec_type_info() == self.spec_type_info(),
            r.spec_ret_by_ref() == self.spec_ret_by_ref(),
            r.spec_allow_null(),
    {
        ReturnType { type_info: self.type_info, ret_by_ref: self.ret_by_ref, allow_null: true }
    }
}

/// The number of arguments that must be given.
pub open spec fn required_count(args: Seq<Argument>) -> nat
    decreases args.len(),
{
    if args.len() == 0 {
        0
    } else {
        required_count(args.drop_last()) + (if args.last().spec_required() {
            1nat
        } else {
            0nat
        })
    }
}

/// Appends every argument of `more` to `args`.
fn extend_arguments(args: &mut Vec<Argument>, more: Vec<Argument>)
    ensures
        final(args)@ == old(args)@ + more@,
{
    let mut more = more;
    args.append(&mut more);
}

/// Builder for registering a PHP function.
#[derive(Debug)]
pub struct FunctionEntity {
    name: Vec<u8>,
    arguments: Vec<Argument>,
    return_type: Option<ReturnType>,
}

impl FunctionEntity {
    /// The name, as a C string.
    pub closed spec fn spec_name(&self) -> Seq<u8> {
        self.name@
    }

    /// The declared arguments.
    pub closed spec fn spec_arguments(&self) -> Seq<Argument> {
        self.arguments@
    }

    /// The declared return type.
    pub closed spec fn spec_return_type(&self) -> Option<ReturnType> {
        self.return_type
    }

    /// Gets the name, as a C string.
    pub fn name_bytes_c(&self) -> (r: &[u8])
        ensures
            r@ == self.spec_name(),
    {
        self.name.as_slice()
    }

    /// Describes a function with no arguments and no return type.
    pub fn new(name: &[u8]) -> (r: Self)
        ensures
            r.spec_name() == c_name(name@),
            r.spec_arguments() == Seq::<Argument>::empty(),
            r.spec_return_type() is None,
    {
        FunctionEntity { name: ensure_end_with_zero(name), arguments: Vec::new(), return_type: None }
    }

    /// Adds a single argument info.
    pub fn argument(&mut self, argument: Argument)
        ensures
            final(self).spec_arguments() == old(self).spec_arguments().push(argument),
            final(self).spec_name() == old(self).spec_name(),
            final(self).spec_return_type() == old(self).spec_return_type(),
    {
        self.arguments.push(argument);
    }

    /// Adds many argument infos.
    pub fn arguments(&mut self, arguments: Vec<Argument>)
        ensures
            final(self).spec_arguments() == old(self).spec_arguments() + arguments@,
            final(self).spec_name() == old(self).spec_name(),
            final(self).spec_return_type() == old(self).spec_return_type(),
    {
        extend_arguments(&mut self.arguments, arguments);
    }

    /// Sets the return type info.
    pub fn return_type(&mut self, return_type: ReturnType)
        ensures
            final(self).spec_return_type() == Some(return_type),
            final(self).spec_name() == old(self).spec_name(),
            final(self).spec_arguments() == old(self).spec_arguments(),
    {
        self.return_type = Some(return_type);
    }
}

/// Builder for registering a class method.
#[derive(Debug)]
pub struct MethodEntity {
    name: Vec<u8>,
    has_handler: bool,
    arguments: Vec<Argument>,
    visibility: u32,
    return_type: Option<ReturnType>,
}

impl MethodEntity {
    /// The name, as a C string.
    pub closed spec fn spec_name(&self) -> Seq<u8> {
        self.name@
    }

    /// The method has a body; abstract ones have none.
    pub closed spec fn spec_has_handler(&self) -> bool {
        self.has_handler
    }

    /// The declared arguments.
    pub closed spec fn spec_arguments(&self) -> Seq<Argument> {
        self.arguments@
    }

    /// The access flags.
    pub closed spec fn spec_visibility(&self) -> u32 {
        self.visibility
    }

    /// The declared return type.
    pub closed spec fn spec_return_type(&self) -> Option<ReturnType> {
        self.return_type
    }

    /// Describes a method, with a body or not, and its visibility.
    pub fn new(name: &[u8], has_handler: bool, visibility: Visibility) -> (r: Self)
        ensures
            r.spec_name() == c_name(name@),
            r.spec_has_handler() == has_handler,
            r.spec_visibility() == visibility.spec_raw(),
            r.spec_arguments() == Seq::<Argument>::empty(),
            r.spec_return_type() is None,
    {
        MethodEntity {
            name: ensure_end_with_zero(name),
            has_handler,
            arguments: Vec::new(),
            visibility: visibility.raw(),
            return_type: None,
        }
    }

    /// The name as a method table key sees it: the bytes before the NUL.
    pub fn name_bytes(&self) -> (r: Vec<u8>)
        ensures
            r@ == until_nul(self.spec_name()),
    {
        copy_until_nul(self.name.as_slice())
    }

    /// Gets the access flags.
    pub fn visibility(&self) -> (r: u32)
        ensures
            r == self.spec_visibility(),
    {
        self.visibility
    }

    /// Tells whether the method has a body.
    pub fn has_handler(&self) -> (r: bool)
        ensures
            r == self.spec_has_handler(),
    {
        self.has_handler
    }

    /// Marks the method static.
    pub fn set_vis_static(&mut self)
        ensures
            final(self).spec_visibility() == old(self).spec_visibility() | ZEND_ACC_STATIC,
            final(self).spec_name() == old(self).spec_name(),
            final(self).spec_has_handler() == old(self).spec_has_handler(),
            final(self).spec_arguments() == old(self).spec_arguments(),
            final(self).spec_return_type() == old(self).spec_return_type(),
    {
        self.visibility = self.visibility | ZEND_ACC_STATIC;
    }

    /// Marks the method abstract.
    pub fn set_vis_abstract(&mut self)
        ensures
            final(self).spec_visibility() == old(self).spec_visibility() | ZEND_ACC_ABSTRACT,
            final(self).spec_name() == old(self).spec_name(),
            final(self).spec_has_handler() == old(self).spec_has_handler(),
            final(self).spec_arguments() == old(self).spec_arguments(),
            final(self).spec_return_type() == old(self).spec_return_type(),
    {
        self.visibility = self.visibility | ZEND_ACC_ABSTRACT;
    }

    /// Adds a single argument info.
    pub fn argument(&mut self, argument: Argument)
        ensures
            final(self).spec_arguments() == old(self).spec_arguments().push(argument),
            final(self).spec_name() == old(self).spec_name(),
            final(self).spec_has_handler() == old(self).spec_has_handler(),
            final(self).spec_visibility() == old(self).spec_visibility(),
            final(self).spec_return_type() == old(self).spec_return_type(),
    {
        self.arguments.push(argument);
    }

    /// Adds many argument infos.
    pub fn arguments(&mut self, arguments: Vec<Argument>)
        ensures
            final(self).spec_arguments() == old(self).spec_arguments() + arguments@,
            final(self).spec_name() == old(self).spec_name(),
            final(self).spec_has_handler() == old(self).spec_has_handler(),
            final(self).spec_visibility() == old(self).spec_visibility(),
            final(self).spec_return_type() == old(self).spec_return_type(),
    {
        extend_arguments(&mut self.arguments, arguments);
    }

    /// Sets the return type info.
    pub fn return_type(&mut self, return_type: ReturnType)
        ensures
            final(self).spec_return_type() == Some(return_type),
            final(self).spec_name() == old(self).spec_name(),
            final(self).spec_has_handler() == old(self).spec_has_handler(),
            final(self).spec_visibility() == old(self).spec_visibility(),
            final(self).spec_arguments() == old(self).spec_arguments(),
    {
        self.return_type = Some(return_type);
    }
}

/// The bytes before the first NUL, or all of them.
pub open spec fn until_nul(s: Seq<u8>) -> Seq<u8>
    decreases s.len(),
{
    if s.len() == 0 {
        s
    } else if s[0] == 0 {
        Seq::empty()
    } else {
        seq![s[0]] + until_nul(s.drop_first())
    }
}

proof fn lemma_until_nul_prefix(s: Seq<u8>, i: int)
    requires
        0 <= i <= s.len(),
        forall|j: int| 0 <= j < i ==> s[j] != 0,
    ensures
        until_nul(s) == s.take(i) + until_nul(s.skip(i)),
    decreases i,
{
    if i > 0 {
        lemma_until_nul_prefix(s.drop_first(), i - 1);
        assert(s.drop_first().take(i - 1) =~= s.take(i).drop_first());
        assert(s.drop_first().skip(i - 1) =~= s.skip(i));
        assert(seq![s[0]] + s.take(i).drop_first() =~= s.take(i));
        assert(seq![s[0]] + (s.drop_first().take(i - 1) + until_nul(s.drop_first().skip(i - 1)))
            =~= s.take(i) + until_nul(s.skip(i)));
    } else {
        assert(s.skip(0) =~= s);
        assert(s.take(0) + until_nul(s) =~= until_nul(s));
    }
}

/// Copies the bytes before the first NUL.
pub fn copy_until_nul(s: &[u8]) -> (r: Vec<u8>)
    ensures
        r@ == until_nul(s@),
{
    let n = s.len();
    let mut i: usize = 0;
    while i < n && s[i] != 0
        invariant
            0 <= i <= n,
            n == s@.len(),
            forall|j: int| 0 <= j < i ==> s@[j] != 0,
        decreases n - i,
    {
        i = i + 1;
    }
    proof {
        lemma_until_nul_prefix(s@, i as int);
        if i < n {
            assert(s@.skip(i as int)[0] == 0);
        } else {
            assert(s@.skip(i as int).len() == 0);
        }
        assert(s@.take(i as int) + until_nul(s@.skip(i as int)) =~= s@.take(i as int));
    }
    let mut out: Vec<u8> = Vec::new();
    let mut k: usize = 0;
    while k < i
        invariant
            0 <= k <= i <= n,
            n == s@.len(),
            out@ == s@.take(k as int),
        decreases i - k,
    {
        out.push(s[k]);
        k = k + 1;
        assert(out@ =~= s@.take(k as int));
    }
    out
}

/// The name and passing mode of each argument.
pub open spec fn arg_info_of(args: Seq<Argument>) -> Seq<(Seq<u8>, bool)> {
    args.map_values(|a: Argument| (a.spec_name(), a.spec_pass_by_ref()))
}

/// The view of stored argument infos.
pub open spec fn info_view(infos: Seq<(Vec<u8>, bool)>) -> Seq<(Seq<u8>, bool)> {
    infos.map_values(|a: (Vec<u8>, bool)| (a.0@, a.1))
}

/// Wrapper of `zend_function_entry`: what the engine registers a function
/// or method from.
#[derive(Debug)]
pub struct FunctionEntry {
    fname: Vec<u8>,
    has_handler: bool,
    required_num_args: usize,
    return_type: Option<ReturnType>,
    arg_info: Vec<(Vec<u8>, bool)>,
    num_args: u32,
    flags: u32,
}

impl FunctionEntry {
    /// The name, as a C string.
    pub closed spec fn spec_fname(&self) -> Seq<u8> {
        self.fname@
    }

    /// Calls reach a handler; abstract methods have none.
    pub closed spec fn spec_has_handler(&self) -> bool {
        self.has_handler
    }

    /// The number of arguments a call must give.
    pub closed spec fn spec_required_num_args(&self) -> usize {
        self.required_num_args
    }

    /// The declared return type.
    pub closed spec fn spec_return_type(&self) -> Option<ReturnType> {
        self.return_type
    }

    /// The name and passing mode of each argument.
    pub closed spec fn spec_arg_info(&self) -> Seq<(Seq<u8>, bool)> {
        info_view(self.arg_info@)
    }

    /// The number of declared arguments.
    pub closed spec fn spec_num_args(&self) -> u32 {
        self.num_args
    }

    /// The access flags.
    pub closed spec fn spec_flags(&self) -> u32 {
        self.flags
    }

    /// Builds the entry of a function or method: its argument infos, the
    /// number of required arguments, and its flags (public when none are
    /// given).
    fn entry(
        name: &[u8],
        arguments: &Vec<Argument>,
        return_type: Option<ReturnType>,
        has_handler: bool,
        visibility: Option<u32>,
    ) -> (r: Self)
        ensures
            r.spec_fname() == name@,
            r.spec_has_handler() == has_handler,
            r.spec_required_num_args() == required_count(arguments@),
            r.spec_return_type() == return_type,
            r.spec_arg_info() == arg_info_of(arguments@),
            r.spec_num_args() == arguments@.len() as u32,
            r.spec_flags() == (match visibility {
                Some(v) => v,
                None => ZEND_ACC_PUBLIC,
            }),
    {
        let n = arguments.len();
        let mut infos: Vec<(Vec<u8>, bool)> = Vec::new();
        let mut required: usize = 0;
        let mut i: usize = 0;
        while i < n
            invariant
                0 <= i <= n,
                n == arguments@.len(),
                required == required_count(arguments@.take(i as int)),
                required <= i,
                infos@.len() == i,
                info_view(infos@) == arg_info_of(arguments@.take(i as int)),
            decreases n - i,
        {
            let a = &arguments[i];
            proof {
                let t = arguments@.take(i as int + 1);
                assert(t.drop_last() =~= arguments@.take(i as int));
                assert(t.last() == arguments@[i as int]);
            }
            if a.required {
                required = required + 1;
            }
            let ghost prev = infos@;
            let nm = vstd::slice::slice_to_vec(a.name.as_slice());
            assert(nm@ == arguments@[i as int].spec_name());
            infos.push((nm, a.pass_by_ref));
            assert forall|j: int| 0 <= j < i + 1 implies info_view(infos@)[j]
                == #[trigger] arg_info_of(arguments@.take(i + 1))[j] by {
                if j < i {
                    assert(infos@[j] == prev[j]);
                    assert(info_view(prev)[j] == arg_info_of(arguments@.take(i as int))[j]);
                }
            }
            i = i + 1;
            assert(info_view(infos@) =~= arg_info_of(arguments@.take(i as int)));
        }
        assert(arguments@.take(n as int) =~= arguments@);
        let flags = match visibility {
            Some(v) => v,
            None => ZEND_ACC_PUBLIC,
        };
        FunctionEntry {
            fname: vstd::slice::slice_to_vec(name),
            has_handler,
            required_num_args: required,
            return_type,
            arg_info: infos,
            num_args: #[verifier::truncate] (n as u32),
            flags,
        }
    }

    /// The entry of a function.
    pub fn from_function_entity(entity: &FunctionEntity) -> (r: Self)
        ensures
            r.spec_fname() == entity.spec_name(),
            r.spec_has_handler(),
            r.spec_required_num_args() == required_count(entity.spec_arguments()),
            r.spec_return_type() == entity.spec_return_type(),
            r.spec_arg_info() == arg_info_of(entity.spec_arguments()),
            r.spec_num_args() == entity.spec_arguments().len() as u32,
            r.spec_flags() == ZEND_ACC_PUBLIC,
            is_entry_of(*entity, r),
    {
        Self::entry(entity.name.as_slice(), &entity.arguments, entity.return_type, true, None)
    }

    /// The entry of a method.
    pub fn from_method_entity(entity: &MethodEntity) -> (r: Self)
        ensures
            r.spec_fname() == entity.spec_name(),
            r.spec_has_handler() == entity.spec_has_handler(),
            r.spec_required_num_args() == required_count(entity.spec_arguments()),
            r.spec_return_type() == entity.spec_return_type(),
            r.spec_arg_info() == arg_info_of(entity.spec_arguments()),
            r.spec_num_args() == entity.spec_arguments().len() as u32,
            r.spec_flags() == entity.spec_visibility(),
    {
        Self::entry(
            entity.name.as_slice(),
            &entity.arguments,
            entity.return_type,
            entity.has_handler,
            Some(entity.visibility),
        )
    }
}

/// The name PHP reports for a function or method: `Class::method` when the
/// function has a scope, else its own name, and `main` for no name.
pub open spec fn function_or_method_name(name: Option<Seq<u8>>, scope: Option<Seq<u8>>) -> Seq<u8> {
    match (scope, name) {
        (Some(c), Some(n)) => c + seq![58u8, 58u8] + n,
        (_, Some(n)) => n,
        (_, None) => seq![109u8, 97u8, 105u8, 110u8],
    }
}

/// `e` is the entry the engine registers for the function `f`: its name,
/// a handler, its argument infos and counts, its return type, and public
/// access.
pub open spec fn is_entry_of(f: FunctionEntity, e: FunctionEntry) -> bool {
    &&& e.spec_fname() == f.spec_name()
    &&& e.spec_has_handler()
    &&& e.spec_required_num_args() == required_count(f.spec_arguments())
    &&& e.spec_return_type() == f.spec_return_type()
    &&& e.spec_arg_info() == arg_info_of(f.spec_arguments())
    &&& e.spec_num_args() == f.spec_arguments().len() as u32
    &&& e.spec_flags() == ZEND_ACC_PUBLIC
}

/// Wrapper of `zend_function`: a registered function or method.
#[derive(Debug)]
pub struct ZFunc {
    function_name: Option<ZStr>,
    scope: Option<(usize, ZStr)>,
    required_num_args: usize,
    num_args: u32,
}

impl ZFunc {
    /// The function name.
    pub closed spec fn spec_name(&self) -> Option<Seq<u8>> {
        match self.function_name {
            Some(n) => Some(n@),
            None => None,
        }
    }

    /// The class the function belongs to, by its place, and its name.
    pub closed spec fn spec_scope(&self) -> Option<(usize, Seq<u8>)> {
        match self.scope {
            Some(s) => Some((s.0, s.1@)),
            None => None,
        }
    }

    /// The number of arguments a call must give.
    pub closed spec fn spec_required_num_args(&self) -> usize {
        self.required_num_args
    }

    /// The number of declared arguments.
    pub closed spec fn spec_num_args(&self) -> u32 {
        self.num_args
    }

    /// The function the engine registers from `entry`, in the class
    /// `scope` (its place and name) for a method.
    pub fn from_entry(entry: &FunctionEntry, scope: Option<(usize, ZStr)>) -> (r: Self)
        ensures
            r.spec_name() == Some(until_nul(entry.spec_fname())),
            r.spec_scope() == (match scope {
                Some(s) => Some((s.0, s.1@)),
                None => None,
            }),
            r.spec_required_num_args() == entry.spec_required_num_args(),
            r.spec_num_args() == entry.spec_num_args(),
    {
        ZFunc {
            function_name: Some(ZStr::from_vec(copy_until_nul(entry.fname.as_slice()))),
            scope,
            required_num_args: entry.required_num_args,
            num_args: entry.num_args,
        }
    }

    /// Gets the function name if it exists.
    pub fn get_function_name(&self) -> (r: Option<&ZStr>)
        ensures
            match r {
                Some(n) => self.spec_name() == Some(n@),
                None => self.spec_name() is None,
            },
    {
        match &self.function_name {
            Some(n) => Some(n),
            None => None,
        }
    }

    /// Gets the class the function belongs to, by its place.
    pub fn get_class(&self) -> (r: Option<usize>)
        ensures
            match self.spec_scope() {
                Some(s) => r == Some(s.0),
                None => r is None,
            },
    {
        match &self.scope {
            Some(s) => Some(s.0),
            None => None,
        }
    }

    /// Gets the function or method fully-qualified name.
    pub fn get_function_or_method_name(&self) -> (r: ZStr)
        ensures
            r@ == function_or_method_name(
                self.spec_name(),
                match self.spec_scope() {
                    Some(s) => Some(s.1),
                    None => None,
                },
            ),
    {
        match (&self.scope, &self.function_name) {
            (Some(s), Some(n)) => {
                let mut out = vstd::slice::slice_to_vec(s.1.to_bytes());
                out.push(58u8);
                out.push(58u8);
                append_bytes(&mut out, n.to_bytes());
                assert(out@ =~= s.1@ + seq![58u8, 58u8] + n@);
                ZStr::from_vec(out)
            },
            (_, Some(n)) => ZStr::new(n.to_bytes()),
            (_, None) => {
                let mut out: Vec<u8> = Vec::new();
                out.push(109u8);
                out.push(97u8);
                out.push(105u8);
                out.push(110u8);
                assert(out@ =~= seq![109u8, 97u8, 105u8, 110u8]);
                ZStr::from_vec(out)
            },
        }
    }
}

/// Wrapper of `zend_execute_data`: one call of a function, with its
/// arguments and, for a method, the object it runs on.
#[derive(Debug)]
pub struct ExecuteData {
    func: ZFunc,
    args: Vec<ZVal>,
    this: Option<ZObj>,
}

impl ExecuteData {
    /// The called function.
    pub closed spec fn spec_func(&self) -> ZFunc {
        self.func
    }

    /// The given arguments.
    pub closed spec fn spec_args(&self) -> Seq<ZVal> {
        self.args@
    }

    /// The object of a method call.
    pub closed spec fn spec_this(&self) -> Option<ZObj> {
        self.this
    }

    /// A call of `func` with `args`, on `this` for a method.
    pub fn new(func: ZFunc, args: Vec<ZVal>, this: Option<ZObj>) -> (r: Self)
        ensures
            r.spec_func() == func,
            r.spec_args() == args@,
            r.spec_this() == this,
    {
        ExecuteData { func, args, this }
    }

    /// Gets the called function.
    pub fn func(&self) -> (r: &ZFunc)
        ensures
            *r == self.spec_func(),
    {
        &self.func
    }

    /// Gets the number of given arguments.
    pub fn num_args(&self) -> (r: usize)
        ensures
            r == self.spec_args().len(),
    {
        self.args.len()
    }

    /// Gets the number of declared arguments of the called function.
    pub fn common_num_args(&self) -> (r: u32)
        ensures
            r == self.spec_func().spec_num_args(),
    {
        self.func.num_args
    }

    /// Gets the number of arguments the called function requires.
    pub fn common_required_num_args(&self) -> (r: usize)
        ensures
            r == self.spec_func().spec_required_num_args(),
    {
        self.func.required_num_args
    }

    /// Gets the object of a method call.
    pub fn get_this(&self) -> (r: Option<&ZObj>)
        ensures
            match r {
                Some(o) => self.spec_this() == Some(*o),
                None => self.spec_this() is None,
            },
    {
        match &self.this {
            Some(o) => Some(o),
            None => None,
        }
    }

    /// Gets the object of a method call mutably.
    pub fn get_this_mut(&mut self) -> (r: Option<&mut ZObj>)
        ensures
            match old(self).spec_this() {
                Some(o) => r matches Some(p) && *p == o && final(self).spec_this() == Some(*final(p))
                    && final(self).spec_args() == old(self).spec_args()
                    && final(self).spec_func() == old(self).spec_func(),
                None => r is None && *final(self) == *old(self),
            },
    {
        match &mut self.this {
            Some(o) => Some(o),
            None => None,
        }
    }

    /// Gets the argument at `index`.
    pub fn get_parameter(&self, index: usize) -> (r: &ZVal)
        requires
            index < self.spec_args().len(),
        ensures
            *r == self.spec_args()[index as int],
    {
        &self.args[index]
    }

    /// Gets the argument at `index` mutably.
    pub fn get_mut_parameter(&mut self, index: usize) -> (r: &mut ZVal)
        requires
            index < old(self).spec_args().len(),
        ensures
            *r == old(self).spec_args()[index as int],
            final(self).spec_args() == old(self).spec_args().update(index as int, *final(r)),
            final(self).spec_func() == old(self).spec_func(),
            final(self).spec_this() == old(self).spec_this(),
    {
        &mut self.args[index]
    }
}

/// The check made before a function's handler runs: a call with fewer
/// arguments than the function requires fails with an
/// [`ArgumentCountError`] naming the function, or with the error of reading
/// that name as UTF-8.
pub fn check_arguments(execute_data: &ExecuteData) -> (r: Result<(), Error>)
    ensures
        ({
            let f = execute_data.spec_func();
            let name = function_or_method_name(
                f.spec_name(),
                match f.spec_scope() {
                    Some(s) => Some(s.1),
                    None => None,
                },
            );
            let given = execute_data.spec_args().len();
            let required = f.spec_required_num_args();
            &&& given >= required ==> r is Ok
            &&& given < required && valid_utf8(name) ==> (r matches Err(Error::ArgumentCount(e))
                && e.spec_function_name() == name && e.spec_expect_count() == required
                && e.spec_given_count() == given)
            &&& given < required && !valid_utf8(name) ==> (r matches Err(Error::Utf8(_)))
        }),
{
    let num_args = execute_data.num_args();
    let required_num_args = execute_data.common_required_num_args();
    if num_args < required_num_args {
        let func_name = execute_data.func().get_function_or_method_name();
        return match func_name.to_str() {
            Ok(_) => Err(
                Error::ArgumentCount(
                    ArgumentCountError::new(
                        vstd::slice::slice_to_vec(func_name.to_bytes()),
                        required_num_args,
                        num_args,
                    ),
                ),
            ),
            Err(e) => Err(Error::Utf8(e)),
        };
    }
    Ok(())
}

/// The text holds no NUL byte, so a C string can carry it whole.
pub open spec fn no_nul_byte(s: Seq<u8>) -> bool {
    forall|i: int| 0 <= i < s.len() ==> s[i] != 0
}

/// The key a call of `f` finds its handler under: the name of the class
/// it belongs to, when that can be a C string, and its own name; `None`
/// when it has no name or its name cannot be a C string.
pub open spec fn handler_key_of(f: ZFunc) -> Option<(Option<Seq<u8>>, Seq<u8>)> {
    match f.spec_name() {
        Some(n) => if no_nul_byte(n) {
            Some(
                (
                    match f.spec_scope() {
                        Some(s) => if no_nul_byte(s.1) {
                            Some(s.1)
                        } else {
                            None
                        },
                        None => None,
                    },
                    n,
                ),
            )
        } else {
            None
        },
        None => None,
    }
}

/// The place of the handler registered last under `key`, the one a map
/// filled in order keeps.
pub open spec fn last_key_index(
    keys: Seq<(Option<Seq<u8>>, Seq<u8>)>,
    key: (Option<Seq<u8>>, Seq<u8>),
) -> Option<int>
    decreases keys.len(),
{
    if keys.len() == 0 {
        None
    } else if keys.last() == key {
        Some(keys.len() - 1)
    } else {
        last_key_index(keys.drop_last(), key)
    }
}

/// A key that occurs in `keys` has a last place there.
pub proof fn lemma_key_found(
    keys: Seq<(Option<Seq<u8>>, Seq<u8>)>,
    key: (Option<Seq<u8>>, Seq<u8>),
    j: int,
)
    requires
        0 <= j < keys.len(),
        keys[j] == key,
    ensures
        last_key_index(keys, key) matches Some(i) && j <= i < keys.len() && keys[i] == key,
    decreases keys.len(),
{
    if keys.last() != key {
        lemma_key_found(keys.drop_last(), key, j);
    }
}

/// What comes before the first NUL byte holds none.
pub proof fn lemma_until_nul_has_no_nul(s: Seq<u8>)
    ensures
        no_nul_byte(until_nul(s)),
    decreases s.len(),
{
    if s.len() > 0 && s[0] != 0 {
        lemma_until_nul_has_no_nul(s.drop_first());
        let t = until_nul(s.drop_first());
        assert forall|i: int| 0 <= i < until_nul(s).len() implies until_nul(s)[i] != 0 by {
            if i > 0 {
                assert(until_nul(s)[i] == t[i - 1]);
            }
        }
    }
}

impl ZFunc {
    /// The key a call of the function finds its handler under.
    pub fn handler_key(&self) -> (r: Option<(Option<Vec<u8>>, Vec<u8>)>)
        ensures
            match handler_key_of(*self) {
                Some(k) => r matches Some(x) && key_view(seq![x]) == seq![k],
                None => r is None,
            },
    {
        let name = match &self.function_name {
            Some(n) => n,
            None => {
                return None;
            },
        };
        if name.to_c_str().is_err() {
            return None;
        }
        let class = match &self.scope {
            Some(s) => if s.1.to_c_str().is_ok() {
                Some(vstd::slice::slice_to_vec(s.1.to_bytes()))
            } else {
                None
            },
            None => None,
        };
        let r = (class, vstd::slice::slice_to_vec(name.to_bytes()));
        assert(key_view(seq![r]) =~= seq![handler_key_of(*self)->0]);
        Some(r)
    }
}

/// Finds the handler registered last under `key`.
pub fn find_handler(
    handlers: &Vec<(Option<Vec<u8>>, Vec<u8>)>,
    key: &(Option<Vec<u8>>, Vec<u8>),
) -> (r: Option<usize>)
    ensures
        match last_key_index(key_view(handlers@), key_view(seq![*key])[0]) {
            Some(i) => r == Some(i as usize),
            None => r is None,
        },
{
    let ghost k = key_view(seq![*key])[0];
    let ghost ks = key_view(handlers@);
    let mut i: usize = handlers.len();
    assert(ks.take(i as int) =~= ks);
    while i > 0
        invariant
            i <= handlers@.len(),
            ks == key_view(handlers@),
            k == key_view(seq![*key])[0],
            last_key_index(ks, k) == last_key_index(ks.take(i as int), k),
        decreases i,
    {
        let h = &handlers[i - 1];
        let same_class = match (&h.0, &key.0) {
            (Some(a), Some(b)) => crate::strings::bytes_eq(a.as_slice(), b.as_slice()),
            (None, None) => true,
            _ => false,
        };
        proof {
            assert(ks.take(i as int).last() == ks[i - 1]);
            assert(ks.take(i as int).drop_last() =~= ks.take(i - 1));
        }
        if same_class && crate::strings::bytes_eq(h.1.as_slice(), key.1.as_slice()) {
            return Some(i - 1);
        }
        i = i - 1;
    }
    None
}

/// What happens when the engine calls a registered function: its handler
/// is the one registered last under its key, and it runs when the call
/// gives at least the required arguments; else the call fails as
/// [`check_arguments`] says. The function must have such a handler.
pub fn invoke(
    execute_data: &ExecuteData,
    handlers: &Vec<(Option<Vec<u8>>, Vec<u8>)>,
) -> (r: Result<usize, Error>)
    requires
        handler_key_of(execute_data.spec_func()) matches Some(k) && last_key_index(
            key_view(handlers@),
            k,
        ) is Some,
    ensures
        ({
            let k = handler_key_of(execute_data.spec_func())->0;
            let f = execute_data.spec_func();
            let name = function_or_method_name(
                f.spec_name(),
                match f.spec_scope() {
                    Some(s) => Some(s.1),
                    None => None,
                },
            );
            let given = execute_data.spec_args().len();
            let required = f.spec_required_num_args();
            &&& given >= required ==> r == Ok::<usize, Error>(
                last_key_index(key_view(handlers@), k)->0 as usize,
            )
            &&& given < required && valid_utf8(name) ==> (r matches Err(Error::ArgumentCount(e))
                && e.spec_function_name() == name && e.spec_expect_count() == required
                && e.spec_given_count() == given)
            &&& given < required && !valid_utf8(name) ==> (r matches Err(Error::Utf8(_)))
        }),
{
    let key = execute_data.func().handler_key().unwrap();
    proof {
        assert(key_view(seq![key])[0] == handler_key_of(execute_data.spec_func())->0);
    }
    let index = find_handler(handlers, &key).unwrap();
    match check_arguments(execute_data) {
        Ok(()) => Ok(index),
        Err(e) => Err(e),
    }
}

/// The error a call that gives fewer arguments than `f` requires fails
/// with: an [`ArgumentCountError`] naming the function, or the error of
/// reading that name as UTF-8.
pub open spec fn count_error(execute_data: ExecuteData, e: Error) -> bool {
    let f = execute_data.spec_func();
    let name = function_or_method_name(
        f.spec_name(),
        match f.spec_scope() {
            Some(s) => Some(s.1),
            None => None,
        },
    );
    &&& valid_utf8(name) ==> (e matches Error::ArgumentCount(a) && a.spec_function_name() == name
        && a.spec_expect_count() == f.spec_required_num_args() && a.spec_given_count()
        == execute_data.spec_args().len())
    &&& !valid_utf8(name) ==> e is Utf8
}

/// A call of a registered function from start to end: the call is checked
/// as [`invoke`] does; when it gives too few arguments the error is thrown
/// and the return value is `null`, and the handler is not called; else the
/// handler registered last under the function's key is called once, with
/// the call, and its result is handed back as [`deliver`] does.
pub fn dispatch<F: FnOnce(usize, &ExecuteData) -> Result<ZVal, Error>>(
    execute_data: &ExecuteData,
    handlers: &Vec<(Option<Vec<u8>>, Vec<u8>)>,
    table: &mut ClassTable,
    eg: &mut ExecutorGlobals,
    handler: F,
) -> (r: ZVal)
    requires
        handler_key_of(execute_data.spec_func()) matches Some(k) && last_key_index(
            key_view(handlers@),
            k,
        ) is Some,
        forall|i: usize| #[trigger] handler.requires((i, execute_data)),
        forall|i: usize, out: Result<ZVal, Error>|
            #[trigger] handler.ensures((i, execute_data), out) ==> (out matches Err(e)
                ==> e.spec_class() < old(table).spec_classes().len()),
    ensures
        final(table).spec_classes() == old(table).spec_classes(),
        final(eg).spec_stack() == old(eg).spec_stack(),
        ({
            let k = handler_key_of(execute_data.spec_func())->0;
            let index = last_key_index(key_view(handlers@), k)->0 as usize;
            let given = execute_data.spec_args().len();
            let required = execute_data.spec_func().spec_required_num_args();
            &&& given >= required ==> exists|out: Result<ZVal, Error>|
                #[trigger] handler.ensures((index, execute_data), out) && delivered(
                    out,
                    old(table).spec_classes(),
                    old(table).spec_next_handle(),
                    old(eg).spec_exception(),
                    final(table).spec_next_handle() as int,
                    final(eg).spec_exception(),
                    r,
                )
            &&& given < required ==> exists|e: Error|
                #[trigger] count_error(*execute_data, e) && delivered(
                    Err(e),
                    old(table).spec_classes(),
                    old(table).spec_next_handle(),
                    old(eg).spec_exception(),
                    final(table).spec_next_handle() as int,
                    final(eg).spec_exception(),
                    r,
                )
        }),
{
    let n = table.len();
    proof {
        assert(ARGUMENT_COUNT_ERROR < n && ERROR_EXCEPTION < n);
    }
    match invoke(execute_data, handlers) {
        Ok(i) => {
            let out = handler(i, execute_data);
            let ghost gout = out;
            let r = deliver(out, table, eg);
            proof {
                assert(handler.ensures((i, execute_data), gout));
            }
            r
        },
        Err(e) => {
            let ghost ge = e;
            let r = deliver(Err(e), table, eg);
            proof {
                assert(count_error(*execute_data, ge));
            }
            r
        },
    }
}

} // verus!

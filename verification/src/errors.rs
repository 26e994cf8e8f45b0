//! The errors of the crate, each of which also stands for a PHP exception.

use vstd::prelude::*;
use crate::numeric::{nat_digits, usize_to_bytes};
use crate::arrays::{lookup, model_update, KeyModel};
use crate::classes::{
    builtins_wf, derives, derives_through, is_builtin, scalar_props, ClassEntry, ClassTable, lemma_scalar_props_update, ARGUMENT_COUNT_ERROR,
    ARITHMETIC_ERROR, DIVISION_BY_ZERO_ERROR, ERROR, ERROR_EXCEPTION, EXCEPTION, PARSE_ERROR,
    THROWABLE, TYPE_ERROR, ZEND_ACC_UNINSTANTIABLE,
};
use crate::objects::ZObj;
use crate::values::{ScalarModel, ZVal};
use vstd::utf8::valid_utf8;
use crate::strings::{nul_error_message, utf8_error_message, FromBytesWithNulError, Utf8Error};
use crate::types::{type_display, TypeInfo};
use crate::utils::{append_bytes, ascii, lit};

verus! {

/// The message of an [`ExpectTypeError`].
pub open spec fn expect_type_message(expect: u32, actual: u32) -> Seq<u8> {
    ascii("type error: must be of type "@) + ascii(type_display(expect)) + ascii(", "@) + ascii(
        type_display(actual),
    ) + ascii(" given"@)
}

/// The message of a [`ClassNotFoundError`].
pub open spec fn class_not_found_message(class_name: Seq<u8>) -> Seq<u8> {
    ascii("Class '"@) + class_name + ascii("' not found"@)
}

/// The message of an [`ArgumentCountError`].
pub open spec fn argument_count_message(function_name: Seq<u8>, expect: nat, given: nat) -> Seq<
    u8,
> {
    function_name + ascii("(): expects at least "@) + nat_digits(expect) + ascii(
        " parameter(s), "@,
    ) + nat_digits(given) + ascii(" given"@)
}

/// The message of an [`InitializeObjectError`].
pub open spec fn initialize_object_message(class_name: Seq<u8>) -> Seq<u8> {
    ascii("Cannot instantiate class "@) + class_name
}

/// The message of a [`CloneObjectError`].
pub open spec fn clone_object_message(class_name: Seq<u8>) -> Seq<u8> {
    ascii("Trying to clone an uncloneable object of class "@) + class_name
}

/// The message of a [`NotImplementThrowableError`].
pub open spec fn not_implement_throwable_message() -> Seq<u8> {
    ascii("Cannot throw objects that do not implement Throwable"@)
}

/// Expect type is not the actual type.
#[derive(Debug, Clone, Copy)]
pub struct ExpectTypeError {
    expect_type: TypeInfo,
    actual_type: TypeInfo,
}

impl ExpectTypeError {
    /// The expected type.
    pub closed spec fn spec_expect_type(self) -> TypeInfo {
        self.expect_type
    }

    /// The type that was given.
    pub closed spec fn spec_actual_type(self) -> TypeInfo {
        self.actual_type
    }

    /// Constructs the error from the expected and the actual type.
    pub fn new(expect_type: TypeInfo, actual_type: TypeInfo) -> (r: Self)
        ensures
            r.spec_expect_type() == expect_type,
            r.spec_actual_type() == actual_type,
    {
        ExpectTypeError { expect_type, actual_type }
    }

    /// The expected type.
    pub fn expect_type(&self) -> (r: TypeInfo)
        ensures
            r == self.spec_expect_type(),
    {
        self.expect_type
    }

    /// The type that was given.
    pub fn actual_type(&self) -> (r: TypeInfo)
        ensures
            r == self.spec_actual_type(),
    {
        self.actual_type
    }

    /// The error message.
    pub fn message(&self) -> (r: Vec<u8>)
        ensures
            r@ == expect_type_message(
                self.spec_expect_type().raw(),
                self.spec_actual_type().raw(),
            ),
    {
        proof {
            reveal_strlit("type error: must be of type ");
            reveal_strlit(", ");
            reveal_strlit(" given");
        }
        let mut m = lit("type error: must be of type ");
        let e = self.expect_type.to_display_bytes();
        append_bytes(&mut m, e.as_slice());
        let sep = lit(", ");
        append_bytes(&mut m, sep.as_slice());
        let a = self.actual_type.to_display_bytes();
        append_bytes(&mut m, a.as_slice());
        let tail = lit(" given");
        append_bytes(&mut m, tail.as_slice());
        m
    }
}

/// Class not found, get the class by name failed, etc.
#[derive(Debug)]
pub struct ClassNotFoundError {
    class_name: Vec<u8>,
}

impl ClassNotFoundError {
    /// The name that was not found.
    pub closed spec fn spec_class_name(&self) -> Seq<u8> {
        self.class_name@
    }

    /// Constructs the error from the class name.
    pub fn new(class_name: Vec<u8>) -> (r: Self)
        ensures
            r.spec_class_name() == class_name@,
    {
        ClassNotFoundError { class_name }
    }

    /// The error message.
    pub fn message(&self) -> (r: Vec<u8>)
        ensures
            r@ == class_not_found_message(self.spec_class_name()),
    {
        proof {
            reveal_strlit("Class '");
            reveal_strlit("' not found");
        }
        let mut m = lit("Class '");
        append_bytes(&mut m, self.class_name.as_slice());
        let tail = lit("' not found");
        append_bytes(&mut m, tail.as_slice());
        m
    }
}

/// Thrown when fewer arguments are given than a function requires.
#[derive(Debug)]
pub struct ArgumentCountError {
    function_name: Vec<u8>,
    expect_count: usize,
    given_count: usize,
}

impl ArgumentCountError {
    /// The name of the called function.
    pub closed spec fn spec_function_name(&self) -> Seq<u8> {
        self.function_name@
    }

    /// The number of required arguments.
    pub closed spec fn spec_expect_count(&self) -> usize {
        self.expect_count
    }

    /// The number of given arguments.
    pub closed spec fn spec_given_count(&self) -> usize {
        self.given_count
    }

    /// Constructs the error.
    pub fn new(function_name: Vec<u8>, expect_count: usize, given_count: usize) -> (r: Self)
        ensures
            r.spec_function_name() == function_name@,
            r.spec_expect_count() == expect_count,
            r.spec_given_count() == given_count,
    {
        ArgumentCountError { function_name, expect_count, given_count }
    }

    /// The error message.
    pub fn message(&self) -> (r: Vec<u8>)
        ensures
            r@ == argument_count_message(
                self.spec_function_name(),
                self.spec_expect_count() as nat,
                self.spec_given_count() as nat,
            ),
    {
        proof {
            reveal_strlit("(): expects at least ");
            reveal_strlit(" parameter(s), ");
            reveal_strlit(" given");
        }
        let mut m: Vec<u8> = Vec::new();
        append_bytes(&mut m, self.function_name.as_slice());
        let a = lit("(): expects at least ");
        append_bytes(&mut m, a.as_slice());
        let e = usize_to_bytes(self.expect_count);
        append_bytes(&mut m, e.as_slice());
        let b = lit(" parameter(s), ");
        append_bytes(&mut m, b.as_slice());
        let g = usize_to_bytes(self.given_count);
        append_bytes(&mut m, g.as_slice());
        let c = lit(" given");
        append_bytes(&mut m, c.as_slice());
        assert(m@ =~= argument_count_message(
            self.function_name@,
            self.expect_count as nat,
            self.given_count as nat,
        ));
        m
    }
}

/// Failed to initialize an object.
#[derive(Debug)]
pub struct InitializeObjectError {
    class_name: Vec<u8>,
}

impl InitializeObjectError {
    /// The class that could not be instantiated.
    pub closed spec fn spec_class_name(&self) -> Seq<u8> {
        self.class_name@
    }

    /// Constructs the error from the class name.
    pub fn new(class_name: Vec<u8>) -> (r: Self)
        ensures
            r.spec_class_name() == class_name@,
    {
        InitializeObjectError { class_name }
    }

    /// The error message.
    pub fn message(&self) -> (r: Vec<u8>)
        ensures
            r@ == initialize_object_message(self.spec_class_name()),
    {
        proof {
            reveal_strlit("Cannot instantiate class ");
        }
        let mut m = lit("Cannot instantiate class ");
        append_bytes(&mut m, self.class_name.as_slice());
        m
    }
}

/// The object does not implement PHP `Throwable`.
#[derive(Debug, Clone, Copy)]
pub struct NotImplementThrowableError;

impl NotImplementThrowableError {
    /// The error message.
    pub fn message(&self) -> (r: Vec<u8>)
        ensures
            r@ == not_implement_throwable_message(),
    {
        proof {
            reveal_strlit("Cannot throw objects that do not implement Throwable");
        }
        lit("Cannot throw objects that do not implement Throwable")
    }
}


/// An error of any other kind, held by the text it displays.
#[derive(Debug)]
pub struct BoxedError {
    /// What the error displays.
    pub message: Vec<u8>,
}

impl Throwable for BoxedError {
    open spec fn spec_class(&self) -> usize {
        ERROR_EXCEPTION
    }

    open spec fn spec_code(&self) -> Option<i64> {
        Some(0)
    }

    open spec fn spec_message(&self) -> Option<Seq<u8>> {
        Some(self.message@)
    }

    fn get_class(&self) -> (r: usize) {
        ERROR_EXCEPTION
    }

    fn get_code(&self) -> (r: Option<i64>) {
        Some(0)
    }

    fn get_message(&self) -> (r: Option<Vec<u8>>) {
        Some(vstd::slice::slice_to_vec(self.message.as_slice()))
    }
}

/// Crate level error, which can also become an exception in PHP.
#[derive(Debug)]
pub enum Error {
    /// Bytes could not be read as UTF-8 text.
    Utf8(Utf8Error),
    /// A NUL byte was not in the expected position.
    FromBytesWithNul(FromBytesWithNulError),
    /// Owned exception object.
    Throw(ThrowObject),
    /// Class not found, get the class by name failed, etc.
    ClassNotFound(ClassNotFoundError),
    /// Fewer arguments than required in calling a function.
    ArgumentCount(ArgumentCountError),
    /// Failed to initialize an object.
    InitializeObject(InitializeObjectError),
    /// Expect type is not the actual type.
    ExpectType(ExpectTypeError),
    /// The object isn't an implementation of PHP `Throwable`.
    NotImplementThrowable(NotImplementThrowableError),
    /// An error of any other kind.
    Boxed(BoxedError),
}

/// Equivalent to `Ok::<_, Error>(value)`.
pub fn ok<T>(t: T) -> (r: Result<T, Error>)
    ensures
        r matches Ok(v) && v == t,
{
    Ok(t)
}

/// The interface `Throwable`.
pub fn throwable_class(table: &ClassTable) -> (r: &ClassEntry)
    ensures
        *r == table.spec_classes()[THROWABLE as int],
        is_builtin(*r, THROWABLE as int),
{
    table.builtin(THROWABLE)
}

/// The class `Exception`.
pub fn exception_class(table: &ClassTable) -> (r: &ClassEntry)
    ensures
        *r == table.spec_classes()[EXCEPTION as int],
        is_builtin(*r, EXCEPTION as int),
{
    table.builtin(EXCEPTION)
}

/// The class `Error`.
pub fn error_class(table: &ClassTable) -> (r: &ClassEntry)
    ensures
        *r == table.spec_classes()[ERROR as int],
        is_builtin(*r, ERROR as int),
{
    table.builtin(ERROR)
}

/// The class `ErrorException`.
pub fn error_exception_class(table: &ClassTable) -> (r: &ClassEntry)
    ensures
        *r == table.spec_classes()[ERROR_EXCEPTION as int],
        is_builtin(*r, ERROR_EXCEPTION as int),
{
    table.builtin(ERROR_EXCEPTION)
}

/// The class `TypeError`.
pub fn type_error_class(table: &ClassTable) -> (r: &ClassEntry)
    ensures
        *r == table.spec_classes()[TYPE_ERROR as int],
        is_builtin(*r, TYPE_ERROR as int),
{
    table.builtin(TYPE_ERROR)
}

/// The class `ArgumentCountError`.
pub fn argument_count_error_class(table: &ClassTable) -> (r: &ClassEntry)
    ensures
        *r == table.spec_classes()[ARGUMENT_COUNT_ERROR as int],
        is_builtin(*r, ARGUMENT_COUNT_ERROR as int),
{
    table.builtin(ARGUMENT_COUNT_ERROR)
}

/// The class `ArithmeticError`.
pub fn arithmetic_error_class(table: &ClassTable) -> (r: &ClassEntry)
    ensures
        *r == table.spec_classes()[ARITHMETIC_ERROR as int],
        is_builtin(*r, ARITHMETIC_ERROR as int),
{
    table.builtin(ARITHMETIC_ERROR)
}

/// The class `ParseError`.
pub fn parse_error_class(table: &ClassTable) -> (r: &ClassEntry)
    ensures
        *r == table.spec_classes()[PARSE_ERROR as int],
        is_builtin(*r, PARSE_ERROR as int),
{
    table.builtin(PARSE_ERROR)
}

/// The class `DivisionByZeroError`.
pub fn division_by_zero_error(table: &ClassTable) -> (r: &ClassEntry)
    ensures
        *r == table.spec_classes()[DIVISION_BY_ZERO_ERROR as int],
        is_builtin(*r, DIVISION_BY_ZERO_ERROR as int),
{
    table.builtin(DIVISION_BY_ZERO_ERROR)
}

/// PHP `Throwable`: an error that can become an exception object.
pub trait Throwable {
    /// The class of the exception, by its place in the class table.
    spec fn spec_class(&self) -> usize;

    /// The exception code.
    spec fn spec_code(&self) -> Option<i64>;

    /// The exception message.
    spec fn spec_message(&self) -> Option<Seq<u8>>;

    /// Gets the class of the exception, one that implements PHP `Throwable`.
    fn get_class(&self) -> (r: usize)
        ensures
            r == self.spec_class(),
    ;

    /// Gets the exception code.
    fn get_code(&self) -> (r: Option<i64>)
        ensures
            r == self.spec_code(),
    ;

    /// Gets the message.
    fn get_message(&self) -> (r: Option<Vec<u8>>)
        ensures
            match r {
                Some(m) => self.spec_message() == Some(m@),
                None => self.spec_message() is None,
            },
    ;
}

impl Throwable for ExpectTypeError {
    open spec fn spec_class(&self) -> usize {
        TYPE_ERROR
    }

    open spec fn spec_code(&self) -> Option<i64> {
        Some(0)
    }

    open spec fn spec_message(&self) -> Option<Seq<u8>> {
        Some(expect_type_message(self.spec_expect_type().raw(), self.spec_actual_type().raw()))
    }

    fn get_class(&self) -> (r: usize) {
        TYPE_ERROR
    }

    fn get_code(&self) -> (r: Option<i64>) {
        Some(0)
    }

    fn get_message(&self) -> (r: Option<Vec<u8>>) {
        Some(self.message())
    }
}

impl Throwable for ClassNotFoundError {
    open spec fn spec_class(&self) -> usize {
        ERROR
    }

    open spec fn spec_code(&self) -> Option<i64> {
        Some(0)
    }

    open spec fn spec_message(&self) -> Option<Seq<u8>> {
        Some(class_not_found_message(self.spec_class_name()))
    }

    fn get_class(&self) -> (r: usize) {
        ERROR
    }

    fn get_code(&self) -> (r: Option<i64>) {
        Some(0)
    }

    fn get_message(&self) -> (r: Option<Vec<u8>>) {
        Some(self.message())
    }
}

impl Throwable for ArgumentCountError {
    open spec fn spec_class(&self) -> usize {
        ARGUMENT_COUNT_ERROR
    }

    open spec fn spec_code(&self) -> Option<i64> {
        Some(0)
    }

    open spec fn spec_message(&self) -> Option<Seq<u8>> {
        Some(
            argument_count_message(
                self.spec_function_name(),
                self.spec_expect_count() as nat,
                self.spec_given_count() as nat,
            ),
        )
    }

    fn get_class(&self) -> (r: usize) {
        ARGUMENT_COUNT_ERROR
    }

    fn get_code(&self) -> (r: Option<i64>) {
        Some(0)
    }

    fn get_message(&self) -> (r: Option<Vec<u8>>) {
        Some(self.message())
    }
}

impl Throwable for InitializeObjectError {
    open spec fn spec_class(&self) -> usize {
        ERROR
    }

    open spec fn spec_code(&self) -> Option<i64> {
        Some(0)
    }

    open spec fn spec_message(&self) -> Option<Seq<u8>> {
        Some(initialize_object_message(self.spec_class_name()))
    }

    fn get_class(&self) -> (r: usize) {
        ERROR
    }

    fn get_code(&self) -> (r: Option<i64>) {
        Some(0)
    }

    fn get_message(&self) -> (r: Option<Vec<u8>>) {
        Some(self.message())
    }
}

/// An object of a class without a state cloner was cloned.
#[derive(Debug)]
pub struct CloneObjectError {
    class_name: Vec<u8>,
}

impl CloneObjectError {
    /// The class whose object could not be cloned.
    pub closed spec fn spec_class_name(&self) -> Seq<u8> {
        self.class_name@
    }

    /// Constructs the error from the class name.
    pub fn new(class_name: Vec<u8>) -> (r: Self)
        ensures
            r.spec_class_name() == class_name@,
    {
        CloneObjectError { class_name }
    }

    /// The error message.
    pub fn message(&self) -> (r: Vec<u8>)
        ensures
            r@ == clone_object_message(self.spec_class_name()),
    {
        proof {
            reveal_strlit("Trying to clone an uncloneable object of class ");
        }
        let mut m = lit("Trying to clone an uncloneable object of class ");
        append_bytes(&mut m, self.class_name.as_slice());
        m
    }
}

impl Throwable for CloneObjectError {
    open spec fn spec_class(&self) -> usize {
        ERROR
    }

    open spec fn spec_code(&self) -> Option<i64> {
        Some(0)
    }

    open spec fn spec_message(&self) -> Option<Seq<u8>> {
        Some(clone_object_message(self.spec_class_name()))
    }

    fn get_class(&self) -> (r: usize) {
        ERROR
    }

    fn get_code(&self) -> (r: Option<i64>) {
        Some(0)
    }

    fn get_message(&self) -> (r: Option<Vec<u8>>) {
        Some(self.message())
    }
}

impl Throwable for NotImplementThrowableError {
    open spec fn spec_class(&self) -> usize {
        TYPE_ERROR
    }

    open spec fn spec_code(&self) -> Option<i64> {
        Some(0)
    }

    open spec fn spec_message(&self) -> Option<Seq<u8>> {
        Some(not_implement_throwable_message())
    }

    fn get_class(&self) -> (r: usize) {
        TYPE_ERROR
    }

    fn get_code(&self) -> (r: Option<i64>) {
        Some(0)
    }

    fn get_message(&self) -> (r: Option<Vec<u8>>) {
        Some(self.message())
    }
}

/// The name of a property that exceptions keep their code in.
pub open spec fn code_key() -> KeyModel {
    KeyModel::Str(ascii("code"@))
}

/// The name of a property that exceptions keep their message in.
pub open spec fn message_key() -> KeyModel {
    KeyModel::Str(ascii("message"@))
}

/// The name of a property that exceptions keep the one they replaced in.
pub open spec fn previous_key() -> KeyModel {
    KeyModel::Str(ascii("previous"@))
}

/// Wrapper of an object that implements PHP `Throwable`.
#[derive(Debug)]
pub struct ThrowObject(ZObj);

impl ThrowObject {
    /// The wrapped object.
    pub closed spec fn spec_object(&self) -> ZObj {
        self.0
    }

    /// Wraps an object; fails unless its class is an instance of PHP
    /// `Throwable`.
    pub fn new(obj: ZObj, table: &ClassTable) -> (r: Result<Self, NotImplementThrowableError>)
        ensures
            r is Ok <==> derives(table.spec_classes(), obj.spec_class() as int, THROWABLE as int),
            r matches Ok(t) ==> t.spec_object() == obj,
    {
        if !table.is_instance_of(obj.get_class(), THROWABLE) {
            return Err(NotImplementThrowableError);
        }
        Ok(ThrowObject(obj))
    }

    /// Consumes the `ThrowObject`, returning the wrapped object.
    pub fn into_inner(self) -> (r: ZObj)
        ensures
            r == self.spec_object(),
    {
        self.0
    }
}

impl Throwable for ThrowObject {
    open spec fn spec_class(&self) -> usize {
        self.spec_object().spec_class()
    }

    open spec fn spec_code(&self) -> Option<i64> {
        match lookup(self.spec_object().spec_properties(), code_key()) {
            Some(ZVal::Long(n)) => Some(n),
            _ => None,
        }
    }

    open spec fn spec_message(&self) -> Option<Seq<u8>> {
        match lookup(self.spec_object().spec_properties(), message_key()) {
            Some(ZVal::Str(s)) => Some(if valid_utf8(s@) { s@ } else { Seq::empty() }),
            _ => None,
        }
    }

    fn get_class(&self) -> (r: usize) {
        self.0.get_class()
    }

    fn get_code(&self) -> (r: Option<i64>) {
        proof {
            reveal_strlit("code");
        }
        let key = lit("code");
        self.0.get_property(key.as_slice()).as_long()
    }

    fn get_message(&self) -> (r: Option<Vec<u8>>) {
        proof {
            reveal_strlit("message");
        }
        let key = lit("message");
        match self.0.get_property(key.as_slice()).as_z_str() {
            Some(s) => match s.to_str() {
                Ok(_) => Some(vstd::slice::slice_to_vec(s.to_bytes())),
                Err(_) => Some(Vec::new()),
            },
            None => None,
        }
    }
}

impl Throwable for Error {
    open spec fn spec_class(&self) -> usize {
        match self {
            Error::Utf8(_) => ERROR_EXCEPTION,
            Error::FromBytesWithNul(_) => ERROR_EXCEPTION,
            Error::Throw(e) => e.spec_class(),
            Error::ClassNotFound(e) => e.spec_class(),
            Error::ArgumentCount(e) => e.spec_class(),
            Error::InitializeObject(e) => e.spec_class(),
            Error::ExpectType(e) => e.spec_class(),
            Error::NotImplementThrowable(e) => e.spec_class(),
            Error::Boxed(e) => e.spec_class(),
        }
    }

    open spec fn spec_code(&self) -> Option<i64> {
        match self {
            Error::Throw(e) => e.spec_code(),
            _ => Some(0),
        }
    }

    open spec fn spec_message(&self) -> Option<Seq<u8>> {
        match self {
            Error::Utf8(e) => Some(utf8_error_message(*e)),
            Error::FromBytesWithNul(e) => Some(nul_error_message(*e)),
            Error::Throw(e) => e.spec_message(),
            Error::ClassNotFound(e) => e.spec_message(),
            Error::ArgumentCount(e) => e.spec_message(),
            Error::InitializeObject(e) => e.spec_message(),
            Error::ExpectType(e) => e.spec_message(),
            Error::NotImplementThrowable(e) => e.spec_message(),
            Error::Boxed(e) => e.spec_message(),
        }
    }

    fn get_class(&self) -> (r: usize) {
        match self {
            Error::Utf8(_) => ERROR_EXCEPTION,
            Error::FromBytesWithNul(_) => ERROR_EXCEPTION,
            Error::Throw(e) => e.get_class(),
            Error::ClassNotFound(e) => e.get_class(),
            Error::ArgumentCount(e) => e.get_class(),
            Error::InitializeObject(e) => e.get_class(),
            Error::ExpectType(e) => e.get_class(),
            Error::NotImplementThrowable(e) => e.get_class(),
            Error::Boxed(e) => e.get_class(),
        }
    }

    fn get_code(&self) -> (r: Option<i64>) {
        match self {
            Error::Throw(e) => e.get_code(),
            _ => Some(0),
        }
    }

    fn get_message(&self) -> (r: Option<Vec<u8>>) {
        match self {
            Error::Utf8(e) => Some(e.message()),
            Error::FromBytesWithNul(e) => Some(e.message()),
            Error::Throw(e) => e.get_message(),
            Error::ClassNotFound(e) => e.get_message(),
            Error::ArgumentCount(e) => e.get_message(),
            Error::InitializeObject(e) => e.get_message(),
            Error::ExpectType(e) => e.get_message(),
            Error::NotImplementThrowable(e) => e.get_message(),
            Error::Boxed(e) => e.get_message(),
        }
    }
}

/// The defaults of a class after the code and message of an exception are
/// written into them.
pub open spec fn with_code_message(
    m: Seq<(KeyModel, ScalarModel)>,
    code: Option<i64>,
    message: Option<Seq<u8>>,
) -> Seq<(KeyModel, ScalarModel)> {
    let m1 = match code {
        Some(c) => model_update(m, code_key(), ScalarModel::Long(c)),
        None => m,
    };
    match message {
        Some(s) => model_update(m1, message_key(), ScalarModel::Str(s)),
        None => m1,
    }
}

/// The outcome of making the exception object of `t` in `cs` with the
/// handle `handle`: the errors of [`ClassEntry::init_object`], or an object
/// of the class of `t` holding its code and message.
pub open spec fn exception_object_is(
    r: Result<ZObj, Error>,
    c: ClassEntry,
    id: usize,
    handle: u32,
    code: Option<i64>,
    message: Option<Seq<u8>>,
) -> bool {
    &&& c.spec_flags() & ZEND_ACC_UNINSTANTIABLE != 0 && valid_utf8(c.spec_name()) ==> (r matches Err(
        Error::InitializeObject(e),
    ) && e.spec_class_name() == c.spec_name())
    &&& c.spec_flags() & ZEND_ACC_UNINSTANTIABLE != 0 && !valid_utf8(c.spec_name()) ==> (r matches Err(Error::Utf8(_)))
    &&& c.spec_flags() & ZEND_ACC_UNINSTANTIABLE == 0 ==> (r matches Ok(o) && o.spec_handle() == handle
        && o.spec_class() == id && o.spec_class_name() == c.spec_name() && scalar_props(
        o.spec_properties(),
    ) == with_code_message(c.spec_properties(), code, message))
}

/// Makes the exception object of `t`: an object of its class, without
/// calling `__construct`, whose `code` and `message` hold those of `t`.
pub fn to_object<T: Throwable>(t: &T, table: &mut ClassTable) -> (r: Result<ZObj, Error>)
    requires
        t.spec_class() < old(table).spec_classes().len(),
    ensures
        final(table).spec_classes() == old(table).spec_classes(),
        old(table).spec_next_handle() == u32::MAX ==> (r matches Err(Error::InitializeObject(e))
            && e.spec_class_name() == old(table).spec_classes()[t.spec_class() as int].spec_name()),
        old(table).spec_next_handle() < u32::MAX ==> exception_object_is(
            r,
            old(table).spec_classes()[t.spec_class() as int],
            t.spec_class(),
            old(table).spec_next_handle(),
            t.spec_code(),
            t.spec_message(),
        ),
        r is Ok ==> final(table).spec_next_handle() == old(table).spec_next_handle() + 1,
        old(table).spec_next_handle() < u32::MAX ==> final(table).spec_next_handle() == old(
            table,
        ).spec_next_handle() + 1,
        old(table).spec_next_handle() == u32::MAX ==> final(table).spec_next_handle() == u32::MAX,
        !(r matches Err(Error::Throw(_))),
{
    let id = t.get_class();
    let mut o = match table.instantiate(id) {
        Ok(o) => o,
        Err(e) => {
            return Err(e);
        },
    };
    proof {
        reveal_strlit("code");
        reveal_strlit("message");
    }
    let ghost p0 = o.spec_properties();
    if let Some(code) = t.get_code() {
        let key = lit("code");
        o.set_property(key.as_slice(), ZVal::Long(code));
        proof {
            lemma_scalar_props_update(p0, code_key(), ZVal::Long(code));
        }
    }
    let ghost p1 = o.spec_properties();
    if let Some(m) = t.get_message() {
        let key = lit("message");
        let v = ZVal::from_bytes(m.as_slice());
        let ghost gv = v;
        o.set_property(key.as_slice(), v);
        proof {
            lemma_scalar_props_update(p1, message_key(), gv);
        }
    }
    Ok(o)
}

/// The class at `id` can have instances.
pub open spec fn instantiable(cs: Seq<ClassEntry>, id: usize) -> bool {
    cs[id as int].spec_flags() & ZEND_ACC_UNINSTANTIABLE == 0
}

/// The class of the exception object made for a throwable of the class at
/// `id`: that class when it can have instances; else the class of the error
/// saying it cannot, `Error`, or `ErrorException` when its name is not
/// UTF-8.
pub open spec fn made_class(cs: Seq<ClassEntry>, id: usize) -> usize {
    if instantiable(cs, id) {
        id
    } else if valid_utf8(cs[id as int].spec_name()) {
        ERROR
    } else {
        ERROR_EXCEPTION
    }
}

/// The handle of that object, when `handle` is the next free one: a class
/// without instances used one handle up on its failed attempt.
pub open spec fn made_handle(cs: Seq<ClassEntry>, handle: u32, id: usize) -> int {
    if instantiable(cs, id) {
        handle as int
    } else {
        handle + 1
    }
}

/// The next free handle after making the exception object.
pub open spec fn handle_after_throw(cs: Seq<ClassEntry>, handle: u32, id: usize) -> int {
    if handle == u32::MAX {
        u32::MAX as int
    } else if instantiable(cs, id) || handle + 1 == u32::MAX {
        handle + 1
    } else {
        handle + 2
    }
}

/// An exception object is made for a throwable of the class at `id`: a
/// handle is left for it, and a class that can have instances implements
/// `Throwable`.
pub open spec fn throw_succeeds(cs: Seq<ClassEntry>, handle: u32, id: usize) -> bool {
    &&& handle < u32::MAX
    &&& instantiable(cs, id) ==> derives(cs, id as int, THROWABLE as int)
    &&& !instantiable(cs, id) ==> handle + 1 < u32::MAX
}

/// The error when no exception object is made: no handle was left, or the
/// class does not implement `Throwable`.
pub open spec fn throw_error_is(cs: Seq<ClassEntry>, handle: u32, id: usize, e: Error) -> bool {
    if handle < u32::MAX && instantiable(cs, id) {
        e is NotImplementThrowable
    } else {
        e is InitializeObject
    }
}

/// `o` is the exception object made for a throwable of the class at `id`
/// with `code` and `message`: of [`made_class`], with [`made_handle`], and
/// with the defaults of that class after the code and message are written
/// into them; for the error that stands in, its own code 0 and message.
pub open spec fn made_object_is(
    o: ZObj,
    cs: Seq<ClassEntry>,
    handle: u32,
    id: usize,
    code: Option<i64>,
    message: Option<Seq<u8>>,
) -> bool {
    let m = made_class(cs, id);
    &&& o.spec_class() == m
    &&& o.spec_handle() == made_handle(cs, handle, id)
    &&& o.spec_class_name() == cs[m as int].spec_name()
    &&& instantiable(cs, id) ==> scalar_props(o.spec_properties()) == with_code_message(
        cs[id as int].spec_properties(),
        code,
        message,
    )
    &&& !instantiable(cs, id) && valid_utf8(cs[id as int].spec_name()) ==> scalar_props(
        o.spec_properties(),
    ) == with_code_message(
        cs[ERROR as int].spec_properties(),
        Some(0),
        Some(initialize_object_message(cs[id as int].spec_name())),
    )
    &&& !instantiable(cs, id) && !valid_utf8(cs[id as int].spec_name()) ==> exists|u: Utf8Error|
        scalar_props(o.spec_properties()) == with_code_message(
            cs[ERROR_EXCEPTION as int].spec_properties(),
            Some(0),
            Some(#[trigger] utf8_error_message(u)),
        )
}

/// In a table that starts with the engine's classes, `Error` implements
/// `Throwable`.
pub proof fn lemma_error_is_throwable(cs: Seq<ClassEntry>)
    requires
        builtins_wf(cs),
    ensures
        derives(cs, ERROR as int, THROWABLE as int),
{
    assert(is_builtin(cs[ERROR as int], ERROR as int));
    assert(derives(cs, THROWABLE as int, THROWABLE as int));
    assert(cs[ERROR as int].spec_interfaces()[0] == THROWABLE);
    assert(derives_through(cs, ERROR as int, THROWABLE as int, 1));
}

impl ThrowObject {
    /// Makes the exception object of `t`. When the class of `t` has no
    /// instances, the error that says so is made into the exception
    /// instead; the result is an error only when that fails too.
    pub fn from_throwable<T: Throwable>(t: &T, table: &mut ClassTable) -> (r: Result<Self, Error>)
        requires
            t.spec_class() < old(table).spec_classes().len(),
        ensures
            final(table).spec_classes() == old(table).spec_classes(),
            final(table).spec_next_handle() == handle_after_throw(
                old(table).spec_classes(),
                old(table).spec_next_handle(),
                t.spec_class(),
            ),
            r is Ok <==> throw_succeeds(
                old(table).spec_classes(),
                old(table).spec_next_handle(),
                t.spec_class(),
            ),
            r matches Ok(x) ==> made_object_is(
                x.spec_object(),
                old(table).spec_classes(),
                old(table).spec_next_handle(),
                t.spec_class(),
                t.spec_code(),
                t.spec_message(),
            ),
            r matches Ok(x) ==> derives(
                final(table).spec_classes(),
                x.spec_object().spec_class() as int,
                THROWABLE as int,
            ),
            r matches Err(e) ==> throw_error_is(
                old(table).spec_classes(),
                old(table).spec_next_handle(),
                t.spec_class(),
                e,
            ),
    {
        let n = table.len();
        proof {
            let cs = table.spec_classes();
            lemma_error_is_throwable(cs);
            lemma_error_exception_is_throwable(cs);
            assert(is_builtin(cs[ERROR as int], ERROR as int));
            assert(is_builtin(cs[ERROR_EXCEPTION as int], ERROR_EXCEPTION as int));
            assert(0u32 & ZEND_ACC_UNINSTANTIABLE == 0) by (bit_vector);
        }
        match to_object(t, table) {
            Ok(o) => match ThrowObject::new(o, table) {
                Ok(x) => Ok(x),
                Err(e) => Err(Error::NotImplementThrowable(e)),
            },
            Err(e) => {
                proof {
                    if let Error::Utf8(u) = e {
                        assert(e.spec_message() == Some(utf8_error_message(u)));
                    }
                }
                match to_object(&e, table) {
                    Ok(o) => match ThrowObject::new(o, table) {
                        Ok(x) => Ok(x),
                        Err(e2) => Err(Error::NotImplementThrowable(e2)),
                    },
                    Err(e2) => Err(e2),
                }
            },
        }
    }

    /// Makes the exception object of an error of any other kind: an
    /// `ErrorException` whose code is 0 and whose message is the text the
    /// error displays.
    pub fn from_error(e: &BoxedError, table: &mut ClassTable) -> (r: Result<Self, Error>)
        ensures
            final(table).spec_classes() == old(table).spec_classes(),
            old(table).spec_next_handle() < u32::MAX ==> (r matches Ok(x) && exception_object_is(
                Ok(x.spec_object()),
                old(table).spec_classes()[ERROR_EXCEPTION as int],
                ERROR_EXCEPTION,
                old(table).spec_next_handle(),
                Some(0),
                Some(e.message@),
            )),
            old(table).spec_next_handle() == u32::MAX ==> (r matches Err(Error::InitializeObject(_))),
    {
        let n = table.len();
        proof {
            lemma_error_exception_is_throwable(table.spec_classes());
            assert(is_builtin(table.spec_classes()[ERROR_EXCEPTION as int], ERROR_EXCEPTION as int));
            assert(0u32 & ZEND_ACC_UNINSTANTIABLE == 0) by (bit_vector);
        }
        ThrowObject::from_throwable(e, table)
    }
}

/// In a table that starts with the engine's classes, `ErrorException`
/// implements `Throwable`.
pub proof fn lemma_error_exception_is_throwable(cs: Seq<ClassEntry>)
    requires
        builtins_wf(cs),
    ensures
        derives(cs, ERROR_EXCEPTION as int, THROWABLE as int),
{
    assert(is_builtin(cs[EXCEPTION as int], EXCEPTION as int));
    assert(is_builtin(cs[ERROR_EXCEPTION as int], ERROR_EXCEPTION as int));
    assert(derives(cs, THROWABLE as int, THROWABLE as int));
    assert(cs[EXCEPTION as int].spec_interfaces()[0] == THROWABLE);
    assert(derives_through(cs, EXCEPTION as int, THROWABLE as int, 1));
    assert(derives(cs, EXCEPTION as int, THROWABLE as int));
}

impl Error {
    /// An error of any other kind, held by the text it displays.
    pub fn boxed(message: Vec<u8>) -> (r: Error)
        ensures
            r == Error::Boxed(BoxedError { message }),
    {
        Error::Boxed(BoxedError { message })
    }

    /// Makes the exception object of `t` and wraps it into `Throw`; when no
    /// object can be made, the error that says why.
    pub fn throw<T: Throwable>(t: &T, table: &mut ClassTable) -> (r: Error)
        requires
            t.spec_class() < old(table).spec_classes().len(),
        ensures
            final(table).spec_classes() == old(table).spec_classes(),
            final(table).spec_next_handle() == handle_after_throw(
                old(table).spec_classes(),
                old(table).spec_next_handle(),
                t.spec_class(),
            ),
            r is Throw <==> throw_succeeds(
                old(table).spec_classes(),
                old(table).spec_next_handle(),
                t.spec_class(),
            ),
            r matches Error::Throw(x) ==> made_object_is(
                x.spec_object(),
                old(table).spec_classes(),
                old(table).spec_next_handle(),
                t.spec_class(),
                t.spec_code(),
                t.spec_message(),
            ),
            r matches Error::Throw(x) ==> derives(
                final(table).spec_classes(),
                x.spec_object().spec_class() as int,
                THROWABLE as int,
            ),
            !(r is Throw) ==> throw_error_is(
                old(table).spec_classes(),
                old(table).spec_next_handle(),
                t.spec_class(),
                r,
            ),
    {
        match ThrowObject::from_throwable(t, table) {
            Ok(x) => Error::Throw(x),
            Err(e) => e,
        }
    }
}

/// What setting a guard does to the pending exception and the stack of
/// set-aside ones: the pending one is set aside and none is pending.
pub open spec fn guard_enter(
    exception: Option<ZObj>,
    stack: Seq<Option<ZObj>>,
) -> (Option<ZObj>, Seq<Option<ZObj>>) {
    (None, stack.push(exception))
}

/// What dropping a guard does: the exception set aside last is pending
/// again, and whatever was pending is dropped.
pub open spec fn guard_exit(
    exception: Option<ZObj>,
    stack: Seq<Option<ZObj>>,
) -> (Option<ZObj>, Seq<Option<ZObj>>) {
    (stack.last(), stack.drop_last())
}

/// The engine's executor state that exceptions live in: the pending
/// exception, and those that guards have set aside.
#[derive(Debug)]
pub struct ExecutorGlobals {
    exception: Option<ZObj>,
    stack: Vec<Option<ZObj>>,
}

/// `n` is `obj` made the pending exception while `pending` was: the
/// pending one became its `previous` when that was still `null`.
pub open spec fn raised(pending: Option<ZObj>, obj: ZObj, n: ZObj) -> bool {
    &&& n.spec_handle() == obj.spec_handle()
    &&& n.spec_class() == obj.spec_class()
    &&& n.spec_class_name() == obj.spec_class_name()
    &&& match pending {
        Some(p) => (match lookup(obj.spec_properties(), previous_key()) {
            None | Some(ZVal::Null) => n.spec_properties() == model_update(
                obj.spec_properties(),
                previous_key(),
                ZVal::Obj(p),
            ),
            _ => n.spec_properties() == obj.spec_properties(),
        }),
        None => n.spec_properties() == obj.spec_properties(),
    }
}

impl ExecutorGlobals {
    /// The pending exception.
    pub closed spec fn spec_exception(&self) -> Option<ZObj> {
        self.exception
    }

    /// The exceptions set aside by guards, the latest last.
    pub closed spec fn spec_stack(&self) -> Seq<Option<ZObj>> {
        self.stack@
    }

    /// No exception pending and none set aside.
    pub fn new() -> (r: Self)
        ensures
            r.spec_exception() is None,
            r.spec_stack() == Seq::<Option<ZObj>>::empty(),
    {
        ExecutorGlobals { exception: None, stack: Vec::new() }
    }

    /// The pending exception.
    pub fn exception(&self) -> (r: Option<&ZObj>)
        ensures
            match r {
                Some(o) => self.spec_exception() == Some(*o),
                None => self.spec_exception() is None,
            },
    {
        match &self.exception {
            Some(o) => Some(o),
            None => None,
        }
    }

    /// Takes the pending exception away.
    pub fn take_exception(&mut self) -> (r: Option<ZObj>)
        ensures
            r == old(self).spec_exception(),
            final(self).spec_exception() is None,
            final(self).spec_stack() == old(self).spec_stack(),
    {
        let mut e: Option<ZObj> = None;
        std::mem::swap(&mut e, &mut self.exception);
        e
    }

    /// Makes `obj` the pending exception. One that was pending becomes its
    /// `previous` when that is still `null`.
    pub fn raise(&mut self, obj: ZObj)
        ensures
            final(self).spec_stack() == old(self).spec_stack(),
            final(self).spec_exception() matches Some(n) && raised(old(self).spec_exception(), obj, n),
    {
        proof {
            reveal_strlit("previous");
        }
        let mut obj = obj;
        let key = lit("previous");
        let empty = match obj.get_property(key.as_slice()) {
            ZVal::Null => true,
            _ => false,
        };
        match self.take_exception() {
            Some(p) => {
                if empty {
                    obj.set_property(key.as_slice(), ZVal::Obj(p));
                }
            },
            None => {},
        }
        self.exception = Some(obj);
    }
}

/// Guard that keeps a thrown exception from being overwritten: while it
/// lives, the exception that was pending is set aside. Guards can be
/// nested.
#[derive(Debug)]
pub struct ExceptionGuard {
    depth: usize,
}

impl ExceptionGuard {
    /// The number of exceptions set aside when the guard was made, its own
    /// included.
    pub closed spec fn spec_depth(&self) -> usize {
        self.depth
    }

    /// Sets the pending exception aside.
    pub fn new(eg: &mut ExecutorGlobals) -> (r: Self)
        ensures
            (final(eg).spec_exception(), final(eg).spec_stack()) == guard_enter(
                old(eg).spec_exception(),
                old(eg).spec_stack(),
            ),
            r.spec_depth() == final(eg).spec_stack().len(),
    {
        let e = eg.take_exception();
        eg.stack.push(e);
        assert(eg.stack@ =~= old(eg).stack@.push(old(eg).exception));
        ExceptionGuard { depth: eg.stack.len() }
    }

    /// Drops the guard: the exception set aside last is pending again.
    pub fn release(self, eg: &mut ExecutorGlobals)
        requires
            old(eg).spec_stack().len() > 0,
        ensures
            (final(eg).spec_exception(), final(eg).spec_stack()) == guard_exit(
                old(eg).spec_exception(),
                old(eg).spec_stack(),
            ),
    {
        let last = eg.stack.pop();
        match last {
            Some(e) => {
                eg.exception = e;
            },
            None => {},
        }
    }
}

/// A guard restores what it set aside: whatever happens to the pending
/// exception in between, dropping the guard gives back the exception that
/// was pending and the stack as it was.
pub proof fn lemma_guard_restores(
    exception: Option<ZObj>,
    stack: Seq<Option<ZObj>>,
    inner: Option<ZObj>,
)
    ensures
        guard_exit(inner, guard_enter(exception, stack).1) == (exception, stack),
        guard_enter(exception, stack).0 is None,
{
    assert(stack.push(exception).drop_last() =~= stack);
}

/// Throws `e` in the engine: its exception object becomes the pending
/// exception. The error is the one that kept the object from being made.
pub fn throw<T: Throwable>(e: &T, table: &mut ClassTable, eg: &mut ExecutorGlobals) -> (r: Result<
    (),
    Error,
>)
    requires
        e.spec_class() < old(table).spec_classes().len(),
    ensures
        final(table).spec_classes() == old(table).spec_classes(),
        final(table).spec_next_handle() == handle_after_throw(
            old(table).spec_classes(),
            old(table).spec_next_handle(),
            e.spec_class(),
        ),
        final(eg).spec_stack() == old(eg).spec_stack(),
        r is Ok <==> throw_succeeds(
            old(table).spec_classes(),
            old(table).spec_next_handle(),
            e.spec_class(),
        ),
        r is Ok ==> (final(eg).spec_exception() matches Some(n) && derives(
            final(table).spec_classes(),
            n.spec_class() as int,
            THROWABLE as int,
        ) && exists|o: ZObj|
            #![trigger raised(old(eg).spec_exception(), o, n)]
            made_object_is(
                o,
                old(table).spec_classes(),
                old(table).spec_next_handle(),
                e.spec_class(),
                e.spec_code(),
                e.spec_message(),
            ) && raised(old(eg).spec_exception(), o, n)),
        r matches Err(err) ==> throw_error_is(
            old(table).spec_classes(),
            old(table).spec_next_handle(),
            e.spec_class(),
            err,
        ),
        r is Err ==> final(eg).spec_exception() == old(eg).spec_exception(),
{
    match ThrowObject::from_throwable(e, table) {
        Ok(x) => {
            let o = x.into_inner();
            let ghost go = o;
            eg.raise(o);
            proof {
                let n = eg.spec_exception()->0;
                assert(raised(old(eg).spec_exception(), go, n));
            }
            Ok(())
        },
        Err(err) => Err(err),
    }
}

/// What becomes of a result handed back to the engine: a value is the
/// return value and nothing else changes; an error is thrown, as [`throw`]
/// does it, and the return value is `null`. `cs`, `handle` and `pending`
/// are the classes, the next free handle and the pending exception before,
/// `handle2` and `pending2` those after, and `r` the return value.
pub open spec fn delivered(
    result: Result<ZVal, Error>,
    cs: Seq<ClassEntry>,
    handle: u32,
    pending: Option<ZObj>,
    handle2: int,
    pending2: Option<ZObj>,
    r: ZVal,
) -> bool {
    match result {
        Ok(v) => r == v && handle2 == handle && pending2 == pending,
        Err(e) => {
            &&& r == ZVal::Null
            &&& handle2 == handle_after_throw(cs, handle, e.spec_class())
            &&& throw_succeeds(cs, handle, e.spec_class()) ==> (pending2 matches Some(n) && exists|
                o: ZObj,
            |
                #![trigger raised(pending, o, n)]
                made_object_is(o, cs, handle, e.spec_class(), e.spec_code(), e.spec_message())
                    && raised(pending, o, n))
            &&& !throw_succeeds(cs, handle, e.spec_class()) ==> pending2 == pending
        },
    }
}

/// Hands a handler's result back to the engine: a value becomes the return
/// value; an error is thrown and the return value is `null`.
pub fn deliver(result: Result<ZVal, Error>, table: &mut ClassTable, eg: &mut ExecutorGlobals) -> (r: ZVal)
    requires
        result matches Err(e) ==> e.spec_class() < old(table).spec_classes().len(),
    ensures
        final(table).spec_classes() == old(table).spec_classes(),
        final(eg).spec_stack() == old(eg).spec_stack(),
        delivered(
            result,
            old(table).spec_classes(),
            old(table).spec_next_handle(),
            old(eg).spec_exception(),
            final(table).spec_next_handle() as int,
            final(eg).spec_exception(),
            r,
        ),
{
    match result {
        Ok(v) => v,
        Err(e) => {
            let _ = throw(&e, table, eg);
            ZVal::Null
        },
    }
}

/// The result of a call into the engine that returned `ret` while
/// `exception` was pending: the exception, if any, becomes the error;
/// else the value is the result, `null` in place of undef.
pub open spec fn call_outcome(
    ret: ZVal,
    exception: Option<ZObj>,
    cs: Seq<ClassEntry>,
    r: Result<ZVal, Error>,
) -> bool {
    match exception {
        Some(e) => {
            &&& derives(cs, e.spec_class() as int, THROWABLE as int) ==> (r matches Err(
                Error::Throw(t),
            ) && t.spec_object() == e)
            &&& !derives(cs, e.spec_class() as int, THROWABLE as int) ==> (r matches Err(
                Error::NotImplementThrowable(_),
            ))
        },
        None => r matches Ok(v) && v == (if ret is Undef {
            ZVal::Null
        } else {
            ret
        }),
    }
}

/// What a call into the engine gives back once it returned `ret`: the
/// pending exception, if any, becomes the error and is no longer pending;
/// else the value, `null` in place of undef.
pub fn finish_call(ret: ZVal, eg: &mut ExecutorGlobals, table: &ClassTable) -> (r: Result<
    ZVal,
    Error,
>)
    ensures
        final(eg).spec_exception() is None,
        final(eg).spec_stack() == old(eg).spec_stack(),
        call_outcome(ret, old(eg).spec_exception(), table.spec_classes(), r),
{
    let ret = match ret {
        ZVal::Undef => ZVal::Null,
        v => v,
    };
    match eg.take_exception() {
        Some(e) => match ThrowObject::new(e, table) {
            Ok(t) => Err(Error::Throw(t)),
            Err(n) => Err(Error::NotImplementThrowable(n)),
        },
        None => Ok(ret),
    }
}

/// The text an uncaught exception is reported with.
pub open spec fn uncaught_message(
    class_name: Seq<u8>,
    message: Seq<u8>,
    file: Seq<u8>,
    line: i64,
) -> Seq<u8> {
    ascii("Uncaught "@) + class_name + ascii(": "@) + message + ascii(" in "@) + file + seq![58u8]
        + crate::numeric::long_repr(line as int)
}

/// What is known of a PHP exception: its class, code, message, and where it
/// was thrown.
#[derive(Debug)]
pub struct Exception {
    class_name: Vec<u8>,
    code: i64,
    message: Vec<u8>,
    file: Vec<u8>,
    line: i64,
}

impl Exception {
    /// The class name.
    pub closed spec fn spec_class_name(&self) -> Seq<u8> {
        self.class_name@
    }

    /// The code.
    pub closed spec fn spec_code(&self) -> i64 {
        self.code
    }

    /// The message.
    pub closed spec fn spec_message(&self) -> Seq<u8> {
        self.message@
    }

    /// The file.
    pub closed spec fn spec_file(&self) -> Seq<u8> {
        self.file@
    }

    /// The line.
    pub closed spec fn spec_line(&self) -> i64 {
        self.line
    }

    /// Describes an exception.
    pub fn new(class_name: Vec<u8>, code: i64, message: Vec<u8>, file: Vec<u8>, line: i64) -> (r: Self)
        ensures
            r.spec_class_name() == class_name@,
            r.spec_code() == code,
            r.spec_message() == message@,
            r.spec_file() == file@,
            r.spec_line() == line,
    {
        Exception { class_name, code, message, file, line }
    }

    /// Gets the class name.
    pub fn class_name(&self) -> (r: &[u8])
        ensures
            r@ == self.spec_class_name(),
    {
        self.class_name.as_slice()
    }

    /// Gets the code.
    pub fn code(&self) -> (r: i64)
        ensures
            r == self.spec_code(),
    {
        self.code
    }

    /// Gets the file.
    pub fn file(&self) -> (r: &[u8])
        ensures
            r@ == self.spec_file(),
    {
        self.file.as_slice()
    }

    /// Gets the line.
    pub fn line(&self) -> (r: i64)
        ensures
            r == self.spec_line(),
    {
        self.line
    }

    /// The text the exception is reported with when nothing caught it.
    pub fn message(&self) -> (r: Vec<u8>)
        ensures
            r@ == uncaught_message(
                self.spec_class_name(),
                self.spec_message(),
                self.spec_file(),
                self.spec_line(),
            ),
    {
        proof {
            reveal_strlit("Uncaught ");
            reveal_strlit(": ");
            reveal_strlit(" in ");
        }
        let mut m = lit("Uncaught ");
        append_bytes(&mut m, self.class_name.as_slice());
        let sep = lit(": ");
        append_bytes(&mut m, sep.as_slice());
        append_bytes(&mut m, self.message.as_slice());
        let at = lit(" in ");
        append_bytes(&mut m, at.as_slice());
        append_bytes(&mut m, self.file.as_slice());
        m.push(58u8);
        let l = crate::numeric::long_to_bytes(self.line);
        append_bytes(&mut m, l.as_slice());
        m
    }
}

/// Guards nest: two guards dropped in the reverse order give back the
/// exception that was pending and the stack as they were.
pub proof fn lemma_guards_nest(
    exception: Option<ZObj>,
    stack: Seq<Option<ZObj>>,
    inner: Option<ZObj>,
    innermost: Option<ZObj>,
)
    ensures
        ({
            let (e1, s1) = guard_enter(exception, stack);
            let (e2, s2) = guard_enter(inner, s1);
            let (e3, s3) = guard_exit(innermost, s2);
            let (e4, s4) = guard_exit(e3, s3);
            &&& e1 is None && e2 is None
            &&& e3 == inner
            &&& (e4, s4) == (exception, stack)
        }),
{
    let s1 = stack.push(exception);
    assert(s1.push(inner).drop_last() =~= s1);
    assert(s1.drop_last() =~= stack);
}

/// Runs a call into the engine under a guard: the exception pending before
/// the call is set aside while it runs, and is pending again afterwards.
/// `call_fn` performs the call, and gives what it returned and the
/// exception it raised; the result is [`call_outcome`] of those.
pub fn call_raw_common<F: FnOnce() -> (ZVal, Option<ZObj>)>(
    eg: &mut ExecutorGlobals,
    table: &ClassTable,
    call_fn: F,
) -> (r: Result<ZVal, Error>)
    requires
        call_fn.requires(()),
    ensures
        final(eg).spec_exception() == old(eg).spec_exception(),
        final(eg).spec_stack() == old(eg).spec_stack(),
        exists|out: (ZVal, Option<ZObj>)|
            call_fn.ensures((), out) && #[trigger] call_outcome(
                out.0,
                out.1,
                table.spec_classes(),
                r,
            ),
{
    let guard = ExceptionGuard::new(eg);
    let out = call_fn();
    let ghost gout = out;
    let (ret, exception) = out;
    eg.exception = exception;
    let r = finish_call(ret, eg, table);
    guard.release(eg);
    proof {
        assert(old(eg).stack@.push(old(eg).exception).drop_last() =~= old(eg).stack@);
        assert(call_outcome(gout.0, gout.1, table.spec_classes(), r));
    }
    r
}

} // verus!

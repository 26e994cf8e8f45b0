use phper::classes::{ClassTable, ARGUMENT_COUNT_ERROR, ERROR, ERROR_EXCEPTION, EXCEPTION, STD_CLASS, TYPE_ERROR};
use phper::errors::{
    call_raw_common, finish_call, throw, to_object, ArgumentCountError, BoxedError, ClassNotFoundError, Error, Exception,
    ExceptionGuard, ExecutorGlobals, ExpectTypeError, InitializeObjectError,
    NotImplementThrowableError, ThrowObject, Throwable,
};
use phper::strings::{FromBytesWithNulError, ZStr};
use phper::types::TypeInfo;
use phper::values::ZVal;

#[test]
fn error_messages() {
    assert_eq!(
        ClassNotFoundError::new(b"Foo".to_vec()).message(),
        b"Class 'Foo' not found".to_vec()
    );
    assert_eq!(
        ArgumentCountError::new(b"foo".to_vec(), 2, 1).message(),
        b"foo(): expects at least 2 parameter(s), 1 given".to_vec()
    );
    assert_eq!(
        InitializeObjectError::new(b"Foo".to_vec()).message(),
        b"Cannot instantiate class Foo".to_vec()
    );
    assert_eq!(
        NotImplementThrowableError.message(),
        b"Cannot throw objects that do not implement Throwable".to_vec()
    );
    assert_eq!(
        ExpectTypeError::new(TypeInfo::long(), TypeInfo::string()).message(),
        b"type error: must be of type int, string given".to_vec()
    );
    assert_eq!(
        FromBytesWithNulError { interior_nul: Some(3) }.message(),
        b"data provided contains an interior nul byte at byte pos 3".to_vec()
    );
    assert_eq!(
        FromBytesWithNulError { interior_nul: None }.message(),
        b"data provided is not nul terminated".to_vec()
    );
}

#[test]
fn utf8_error_message() {
    let z = ZStr::new(&[0x61, 0xff, 0x62]);
    let e = z.to_str().unwrap_err();
    assert_eq!(e.valid_up_to, 1);
    assert_eq!(e.message(), b"invalid utf-8 sequence of 1 bytes from index 1".to_vec());
    let z2 = ZStr::new(&[0x61, 0xe2, 0x82]);
    let e2 = z2.to_str().unwrap_err();
    assert_eq!(e2.message(), b"incomplete utf-8 byte sequence from index 1".to_vec());
}

#[test]
fn throwable_classes() {
    assert_eq!(ExpectTypeError::new(TypeInfo::long(), TypeInfo::null()).get_class(), TYPE_ERROR);
    assert_eq!(ClassNotFoundError::new(Vec::new()).get_class(), ERROR);
    assert_eq!(ArgumentCountError::new(Vec::new(), 1, 0).get_class(), ARGUMENT_COUNT_ERROR);
    assert_eq!(InitializeObjectError::new(Vec::new()).get_class(), ERROR);
    assert_eq!(NotImplementThrowableError.get_class(), TYPE_ERROR);
    let e = Error::FromBytesWithNul(FromBytesWithNulError { interior_nul: None });
    assert_eq!(e.get_class(), ERROR_EXCEPTION);
    assert_eq!(e.get_code(), Some(0));
}

#[test]
fn exception_objects_carry_code_and_message() {
    let mut table = ClassTable::new();
    let err = ClassNotFoundError::new(b"Foo".to_vec());
    let o = to_object(&err, &mut table).unwrap();
    assert_eq!(o.get_class(), ERROR);
    assert_eq!(o.get_property(b"code").as_long(), Some(0));
    assert_eq!(
        o.get_property(b"message").as_z_str().unwrap().to_bytes(),
        b"Class 'Foo' not found"
    );
    let t = ThrowObject::new(o, &table).unwrap();
    assert_eq!(t.get_code(), Some(0));
    assert_eq!(t.get_message(), Some(b"Class 'Foo' not found".to_vec()));
    assert_eq!(t.get_class(), ERROR);
}

#[test]
fn only_throwables_are_thrown() {
    let mut table = ClassTable::new();
    let o = table.instantiate(STD_CLASS).unwrap();
    assert!(ThrowObject::new(o, &table).is_err());
    let e = table.instantiate(EXCEPTION).unwrap();
    assert!(ThrowObject::new(e, &table).is_ok());
}

#[test]
fn guard_restores_pending_exception() {
    let mut table = ClassTable::new();
    let mut eg = ExecutorGlobals::new();
    let first = table.instantiate(EXCEPTION).unwrap();
    let handle = first.handle();
    eg.raise(first);
    let guard = ExceptionGuard::new(&mut eg);
    assert!(eg.exception().is_none());
    throw(&ClassNotFoundError::new(b"X".to_vec()), &mut table, &mut eg).unwrap();
    assert!(eg.exception().is_some());
    guard.release(&mut eg);
    assert_eq!(eg.exception().unwrap().handle(), handle);
}

#[test]
fn raised_exception_keeps_the_previous_one() {
    let mut table = ClassTable::new();
    let mut eg = ExecutorGlobals::new();
    let first = table.instantiate(EXCEPTION).unwrap();
    let h1 = first.handle();
    eg.raise(first);
    let second = table.instantiate(ERROR).unwrap();
    eg.raise(second);
    let pending = eg.exception().unwrap();
    assert_eq!(pending.get_class(), ERROR);
    assert_eq!(pending.get_property(b"previous").as_z_obj().unwrap().handle(), h1);
}

#[test]
fn finishing_a_call() {
    let mut table = ClassTable::new();
    let mut eg = ExecutorGlobals::new();
    let r = finish_call(ZVal::Undef, &mut eg, &table).unwrap();
    assert!(r.as_null().is_some());
    let r = finish_call(ZVal::from_long(5), &mut eg, &table).unwrap();
    assert_eq!(r.as_long(), Some(5));
    let e = table.instantiate(EXCEPTION).unwrap();
    eg.raise(e);
    match finish_call(ZVal::from_long(5), &mut eg, &table) {
        Err(Error::Throw(t)) => assert_eq!(t.get_class(), EXCEPTION),
        _ => panic!("the pending exception should come back"),
    }
    assert!(eg.exception().is_none());
    let o = table.instantiate(STD_CLASS).unwrap();
    eg.raise(o);
    assert!(matches!(
        finish_call(ZVal::Null, &mut eg, &table),
        Err(Error::NotImplementThrowable(_))
    ));
}

#[test]
fn from_throwable_falls_back_to_the_error() {
    let mut table = ClassTable::new();
    let x = ThrowObject::from_throwable(&ArgumentCountError::new(b"f".to_vec(), 1, 0), &mut table)
        .unwrap();
    assert_eq!(x.get_class(), ARGUMENT_COUNT_ERROR);
    assert!(matches!(Error::throw(&NotImplementThrowableError, &mut table), Error::Throw(_)));
}

#[test]
fn uncaught_exception_text() {
    let e = Exception::new(b"Exception".to_vec(), 3, b"boom".to_vec(), b"a.php".to_vec(), 12);
    assert_eq!(e.class_name(), b"Exception");
    assert_eq!(e.file(), b"a.php");
    assert_eq!(e.line(), 12);
    assert_eq!(e.message(), b"Uncaught Exception: boom in a.php:12".to_vec());
}

#[test]
fn raw_call_keeps_the_outer_exception() {
    let mut table = ClassTable::new();
    let mut eg = ExecutorGlobals::new();
    let outer = table.instantiate(EXCEPTION).unwrap();
    let h = outer.handle();
    eg.raise(outer);
    let r = call_raw_common(&mut eg, &table, || (ZVal::from_long(7), None)).unwrap();
    assert_eq!(r.as_long(), Some(7));
    assert_eq!(eg.exception().unwrap().handle(), h);
    let inner = table.instantiate(ERROR).unwrap();
    match call_raw_common(&mut eg, &table, move || (ZVal::Undef, Some(inner))) {
        Err(Error::Throw(t)) => assert_eq!(t.get_class(), ERROR),
        _ => panic!("the exception raised by the call should come back"),
    }
    assert_eq!(eg.exception().unwrap().handle(), h);
    let r = call_raw_common(&mut eg, &table, || (ZVal::Undef, None)).unwrap();
    assert!(r.as_null().is_some());
}

#[test]
fn other_errors_become_error_exceptions() {
    let mut table = ClassTable::new();
    let e = BoxedError { message: b"disk full".to_vec() };
    let t = ThrowObject::from_error(&e, &mut table).unwrap();
    assert_eq!(t.get_class(), ERROR_EXCEPTION);
    assert_eq!(t.get_code(), Some(0));
    assert_eq!(t.get_message(), Some(b"disk full".to_vec()));
    let b = Error::boxed(b"oops".to_vec());
    assert_eq!(b.get_class(), ERROR_EXCEPTION);
    assert_eq!(b.get_message(), Some(b"oops".to_vec()));
}

#[test]
fn thrown_objects_take_the_next_handles() {
    let mut table = ClassTable::new();
    let mut eg = ExecutorGlobals::new();
    throw(&ClassNotFoundError::new(b"X".to_vec()), &mut table, &mut eg).unwrap();
    assert_eq!(eg.exception().unwrap().handle(), 1);
    assert_eq!(eg.exception().unwrap().get_class(), ERROR);
    match Error::throw(&ArgumentCountError::new(b"f".to_vec(), 1, 0), &mut table) {
        Error::Throw(t) => {
            assert_eq!(t.get_class(), ARGUMENT_COUNT_ERROR);
            assert_eq!(t.into_inner().handle(), 2);
        }
        _ => panic!("an ArgumentCountError can be thrown"),
    }
}

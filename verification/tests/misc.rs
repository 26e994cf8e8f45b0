use phper::cmd::lib_and_ext_names;
use phper::classes::{ClassTable, BUILTIN_CLASSES};
use phper::enums::{Enum, EnumEntity};
use phper::numeric::{handle_numeric_str, long_to_bytes};
use phper::output::{LogLevel, Output};
use phper::types::Scalar;
use phper::utils::{ensure_end_with_zero, eq_ignore_ascii_case, to_ascii_lowercase};

#[test]
fn output_and_logs() {
    let mut out = Output::new();
    out.echo(b"hi");
    assert_eq!(out.written(), b"hi\0");
    out.log(LogLevel::Warning, b"careful");
    assert_eq!(LogLevel::Warning.raw(), 2);
    assert_eq!(LogLevel::Deprecated.raw(), 8192);
}

#[test]
fn numeric_texts() {
    assert_eq!(long_to_bytes(-120), b"-120".to_vec());
    assert_eq!(long_to_bytes(i64::MIN), b"-9223372036854775808".to_vec());
    assert_eq!(handle_numeric_str(b"123"), Some(123));
    assert_eq!(handle_numeric_str(b"0123"), None);
    assert_eq!(handle_numeric_str(b"-0"), None);
    assert_eq!(handle_numeric_str(b"9223372036854775808"), None);
}

#[test]
fn byte_helpers() {
    assert_eq!(ensure_end_with_zero(b"abc"), b"abc\0".to_vec());
    assert_eq!(ensure_end_with_zero(b"abc\0"), b"abc\0".to_vec());
    assert_eq!(to_ascii_lowercase(b"AbC-1"), b"abc-1".to_vec());
    assert!(eq_ignore_ascii_case(b"StdClass", b"stdclass"));
    assert!(!eq_ignore_ascii_case(b"a", b"ab"));
}

#[test]
fn enums_register_with_their_cases() {
    let mut table = ClassTable::new();
    let mut e: EnumEntity<i64> = EnumEntity::new(b"Suit");
    let hearts = e.add_case(b"Hearts", 1);
    e.add_case(b"Spades", 2);
    e.add_constant(b"WILD", Scalar::I64(0));
    assert_eq!(hearts.name(), b"Hearts");
    let bound = e.init(&mut table).unwrap();
    assert!(matches!(bound, Enum::Bound(id) if id == BUILTIN_CLASSES));
    let by_name = hearts.as_enum().as_class_entry(&table).unwrap();
    assert_eq!(by_name.get_name().to_bytes(), b"Suit");
    assert!(matches!(by_name.get_constant(b"Spades"), Some(Scalar::I64(2))));
    assert!(matches!(by_name.get_constant(b"WILD"), Some(Scalar::I64(0))));
    assert!(table.instantiate(BUILTIN_CLASSES).is_err());
    assert!(Enum::from_name(b"Nope").as_class_entry(&table).is_none());
}

#[test]
fn install_file_names() {
    let (lib, ext) = lib_and_ext_names(b"my-ext").unwrap();
    assert_eq!(lib, b"libmy_ext.so".to_vec());
    assert_eq!(ext, b"my-ext.so".to_vec());
    assert!(lib_and_ext_names(&[0xff, 0x41]).is_none());
}

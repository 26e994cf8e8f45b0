use phper::errors::Error;
use phper::strings::ZStr;
use phper::types::{get_base_type_by_raw, TypeInfo, IS_ARRAY, IS_LONG, IS_STRING, IS_STRING_EX, IS_ARRAY_EX};
use phper::values::ZVal;
use phper::arrays::{InsertKey, Key, ZArr};

#[test]
fn type_infos_of_values() {
    assert!(ZVal::null().get_type_info().is_null());
    assert!(ZVal::from_bool(true).get_type_info().is_true());
    assert!(ZVal::from_bool(false).get_type_info().is_false());
    assert!(ZVal::from_bool(false).get_type_info().is_bool());
    assert!(ZVal::from_long(3).get_type_info().is_long());
    assert!(ZVal::from_double_bits(0).get_type_info().is_double());
    assert_eq!(ZVal::from_bytes(b"x").get_type_info().into_raw(), IS_STRING_EX);
    assert_eq!(ZVal::from_z_array(ZArr::new()).get_type_info().into_raw(), IS_ARRAY_EX);
    assert!(ZVal::default().get_type_info().is_null());
}

#[test]
fn base_types() {
    assert_eq!(get_base_type_by_raw(IS_STRING_EX), IS_STRING);
    assert_eq!(get_base_type_by_raw(IS_ARRAY_EX), IS_ARRAY);
    assert_eq!(TypeInfo::from_raw(IS_STRING_EX).get_base_type().into_raw(), IS_STRING);
    assert_eq!(TypeInfo::long().get_base_type_name(), Some("int"));
    assert_eq!(TypeInfo::from_raw(IS_LONG).to_display_bytes(), b"int".to_vec());
    assert_eq!(TypeInfo::from_raw(200).to_display_bytes(), b"unknown".to_vec());
}

#[test]
fn expect_reports_types() {
    let v = ZVal::from_bytes(b"abc");
    match v.expect_long() {
        Err(Error::ExpectType(e)) => {
            assert_eq!(e.expect_type().into_raw(), IS_LONG);
            assert_eq!(e.message(), b"type error: must be of type int, string given".to_vec());
        }
        _ => panic!("a string is not a long"),
    }
    assert_eq!(ZVal::from_long(7).expect_long().ok(), Some(7));
    assert_eq!(ZVal::from_bool(true).expect_bool().ok(), Some(true));
    assert!(ZVal::null().expect_null().is_ok());
    assert!(ZVal::from_long(1).as_z_str().is_none());
    assert_eq!(v.as_z_str().unwrap().to_bytes(), b"abc");
}

#[test]
fn mutable_access() {
    let mut v = ZVal::from_long(1);
    *v.as_mut_long().unwrap() += 41;
    assert_eq!(v.as_long(), Some(42));
    let mut s = ZVal::from_z_string(ZStr::new(b"a"));
    assert!(s.expect_mut_z_str().is_ok());
    assert!(s.as_mut_long().is_none());
}

#[test]
fn from_option() {
    assert!(ZVal::from_option(None).as_null().is_some());
    assert_eq!(ZVal::from_option(Some(ZVal::from_long(2))).as_long(), Some(2));
}

#[test]
fn strings() {
    let s = ZStr::new(b"hello");
    assert_eq!(s.len(), 5);
    assert!(!s.is_empty());
    assert_eq!(s.to_str().unwrap(), "hello");
    assert_eq!(s.to_c_str().unwrap(), b"hello\0".to_vec());
    let z = ZStr::new(b"he\0llo");
    assert_eq!(z.to_c_str().unwrap_err().interior_nul, Some(2));
    let bad = ZStr::new(&[0x66, 0xff]);
    assert_eq!(bad.to_string_lossy(), "f\u{fffd}");
    assert!(s.eq_bytes(b"hello"));
}

#[test]
fn bool_type_infos_are_boolean() {
    assert!(TypeInfo::bool().is_bool());
    assert!(ZVal::from_bool(true).get_type_info().is_bool());
    assert!(!TypeInfo::long().is_bool());
    let t: TypeInfo = TypeInfo::from(IS_LONG);
    assert_eq!(t.into_raw(), IS_LONG);
    assert_eq!(TypeInfo::from_raw(t.into_raw()), t);
}

#[test]
fn cloned_values_are_deep_copies() {
    let mut inner = ZArr::new();
    inner.insert(InsertKey::Index(0), ZVal::from_long(5));
    let mut outer = ZArr::new();
    outer.insert(InsertKey::Str("inner"), ZVal::from_z_array(inner));
    outer.insert(InsertKey::Str("name"), ZVal::from_bytes(b"abc"));
    let v = ZVal::from_z_array(outer);
    let mut c = v.clone();
    assert_eq!(c.as_z_arr().unwrap().len(), 2);
    let got = c.as_z_arr().unwrap().get(Key::Str("inner")).unwrap().as_z_arr().unwrap();
    assert_eq!(got.get(Key::Index(0)).unwrap().as_long(), Some(5));
    c.as_mut_z_arr().unwrap().insert(InsertKey::Str("name"), ZVal::from_long(1));
    let orig = v.as_z_arr().unwrap().get(Key::Str("name")).unwrap();
    assert_eq!(orig.as_z_str().unwrap().to_bytes(), b"abc");
    assert_eq!(ZVal::from_long(-4).clone().as_long(), Some(-4));
}

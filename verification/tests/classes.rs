use phper::classes::{
    array_access_class, iterator_class,
    ClassEntity, ClassEntry, ClassTable, InterfaceEntity, Visibility, ERROR, EXCEPTION, STD_CLASS,
    STRINGABLE, THROWABLE, TYPE_ERROR, ARGUMENT_COUNT_ERROR, BUILTIN_CLASSES,
};
use phper::errors::{
    argument_count_error_class, arithmetic_error_class, division_by_zero_error, error_class,
    error_exception_class, exception_class, parse_error_class, throwable_class, type_error_class,
    Error,
};
use phper::errors::{CloneObjectError, Throwable};
use phper::objects::{StateObj, ZObj};
use phper::types::Scalar;
use phper::values::ZVal;

#[test]
fn builtin_classes_are_found_in_any_case() {
    let table = ClassTable::new();
    assert_eq!(table.len(), BUILTIN_CLASSES);
    assert_eq!(table.find(b"stdClass"), Some(STD_CLASS));
    assert_eq!(table.find(b"stdclass"), Some(STD_CLASS));
    assert_eq!(table.find(b"EXCEPTION"), Some(EXCEPTION));
    assert_eq!(table.find(b"Throwable"), Some(THROWABLE));
    assert_eq!(table.find(b"NoSuchClass"), None);
}

#[test]
fn from_globals_reports_missing_class() {
    let table = ClassTable::new();
    let e = ClassEntry::from_globals(&table, "Exception").unwrap();
    assert_eq!(e.get_name().to_bytes(), b"Exception");
    match ClassEntry::from_globals(&table, "Nope") {
        Err(Error::ClassNotFound(err)) => {
            assert_eq!(err.message(), b"Class 'Nope' not found".to_vec());
        }
        _ => panic!("the class should be missing"),
    }
}

#[test]
fn instance_of_follows_parents_and_interfaces() {
    let table = ClassTable::new();
    assert!(table.is_instance_of(ARGUMENT_COUNT_ERROR, TYPE_ERROR));
    assert!(table.is_instance_of(ARGUMENT_COUNT_ERROR, ERROR));
    assert!(table.is_instance_of(ARGUMENT_COUNT_ERROR, THROWABLE));
    assert!(table.is_instance_of(ARGUMENT_COUNT_ERROR, STRINGABLE));
    assert!(table.is_instance_of(EXCEPTION, EXCEPTION));
    assert!(!table.is_instance_of(EXCEPTION, ERROR));
    assert!(!table.is_instance_of(STD_CLASS, THROWABLE));
    assert!(!table.is_instance_of(THROWABLE, EXCEPTION));
}

#[test]
fn std_class_objects() {
    let mut table = ClassTable::new();
    let mut o = ZObj::new_by_std_class(&mut table);
    assert_eq!(o.handle(), 1);
    assert_eq!(o.get_class(), STD_CLASS);
    assert!(o.get_property(b"foo").as_null().is_some());
    o.set_property(b"foo", ZVal::from_bytes(b"bar"));
    assert_eq!(o.get_property(b"foo").as_z_str().unwrap().to_bytes(), b"bar");
    let o2 = ZObj::new_by_std_class(&mut table);
    assert_eq!(o2.handle(), 2);
}

#[test]
fn exception_objects_have_default_properties() {
    let mut table = ClassTable::new();
    let o = table.instantiate(EXCEPTION).unwrap();
    assert_eq!(o.get_property(b"code").as_long(), Some(0));
    assert_eq!(o.get_property(b"message").as_z_str().unwrap().to_bytes(), b"");
    assert_eq!(o.get_property(b"line").as_long(), Some(0));
    let sub = table.find(b"TypeError").unwrap();
    let t = table.instantiate(sub).unwrap();
    assert_eq!(t.get_property(b"code").as_long(), Some(0));
}

#[test]
fn interfaces_cannot_be_instantiated() {
    let mut table = ClassTable::new();
    match table.instantiate(THROWABLE) {
        Err(Error::InitializeObject(e)) => {
            assert_eq!(e.message(), b"Cannot instantiate class Throwable".to_vec());
        }
        _ => panic!("an interface has no instances"),
    }
}

#[test]
fn class_entity_registration() {
    let mut table = ClassTable::new();
    let mut class: ClassEntity<()> = ClassEntity::new(b"Foo");
    class.extends(b"exception");
    class.add_method(b"doIt", Visibility::Public);
    class.add_property(b"name", Visibility::Public, Scalar::String(b"foo".to_vec()));
    class.add_property(b"code", Visibility::Protected, Scalar::I64(7));
    class.add_static_property(b"count", Visibility::Private, Scalar::I64(0));
    class.add_constant(b"ANSWER", Scalar::I64(42));
    let bound = class.init(&mut table).unwrap();
    assert_eq!(bound.id(), BUILTIN_CLASSES);
    assert_eq!(table.find(b"FOO"), Some(bound.id()));

    let entry = bound.as_class_entry(&table);
    assert_eq!(entry.get_name().to_bytes(), b"Foo");
    assert!(entry.has_method(b"doit"));
    assert!(entry.has_method(b"getmessage"));
    assert!(!entry.has_method(b"doIt"));
    assert_eq!(entry.get_static_property(b"count").unwrap().as_long(), Some(0));
    assert!(entry.get_static_property(b"name").is_none());
    assert!(matches!(entry.get_constant(b"ANSWER"), Some(Scalar::I64(42))));
    assert!(entry.is_instance_of(&table, table.get(THROWABLE).unwrap()));

    let obj = bound.init_object(&mut table, ()).unwrap();
    let o = obj.as_object();
    assert_eq!(o.get_property(b"name").as_z_str().unwrap().to_bytes(), b"foo");
    assert_eq!(o.get_property(b"code").as_long(), Some(7));
    assert_eq!(o.get_property(b"message").as_z_str().unwrap().to_bytes(), b"");
    assert!(o.get_property(b"count").as_null().is_some());

    let again: ClassEntity<()> = ClassEntity::new(b"foo");
    assert!(again.init(&mut table).is_none());
    assert_eq!(table.len(), BUILTIN_CLASSES + 1);
}

#[test]
fn abstract_classes_have_no_instances() {
    let mut table = ClassTable::new();
    let mut class: ClassEntity<()> = ClassEntity::new(b"Shape");
    class.add_abstract_method(b"area", Visibility::Public);
    let bound = class.init(&mut table).unwrap();
    match bound.init_object(&mut table, ()) {
        Err(Error::InitializeObject(e)) => {
            assert_eq!(e.message(), b"Cannot instantiate class Shape".to_vec())
        }
        _ => panic!("an abstract class has no instances"),
    }
}

#[test]
fn registration_refusals() {
    let mut table = ClassTable::new();
    let mut bad_parent: ClassEntity<()> = ClassEntity::new(b"A");
    bad_parent.extends(b"Missing");
    assert!(bad_parent.init(&mut table).is_none());
    let mut iface_parent: ClassEntity<()> = ClassEntity::new(b"B");
    iface_parent.extends(b"Stringable");
    assert!(iface_parent.init(&mut table).is_none());
    let mut not_iface: ClassEntity<()> = ClassEntity::new(b"C");
    not_iface.implements(b"Exception");
    assert!(not_iface.init(&mut table).is_none());
    assert_eq!(table.len(), BUILTIN_CLASSES);
}

#[test]
fn interface_entity_registration() {
    let mut table = ClassTable::new();
    let mut iface = InterfaceEntity::new(b"Greeter");
    iface.add_method(b"greet");
    iface.extends(b"Stringable");
    iface.add_constant(b"HELLO", Scalar::String(b"hi".to_vec()));
    let bound = iface.init(&mut table).unwrap();
    let mut class: ClassEntity<()> = ClassEntity::new(b"Impl");
    class.implements(b"greeter");
    let c = class.init(&mut table).unwrap();
    assert!(table.is_instance_of(c.id(), bound.id()));
    assert!(table.is_instance_of(c.id(), STRINGABLE));
    assert!(table.instantiate(bound.id()).is_err());
    assert!(matches!(
        bound.as_class_entry(&table).get_constant(b"HELLO"),
        Some(Scalar::String(_))
    ));
}

#[test]
fn static_properties_can_be_set() {
    let mut table = ClassTable::new();
    let mut class: ClassEntity<()> = ClassEntity::new(b"Counter");
    class.add_static_property(b"n", Visibility::Public, Scalar::I64(1));
    let bound = class.init(&mut table).unwrap();
    let entry = bound.as_class_entry(&table);
    assert_eq!(entry.get_static_property(b"n").unwrap().as_long(), Some(1));
}

#[test]
fn handler_keys_of_a_class() {
    let mut class: ClassEntity<()> = ClassEntity::new(b"Foo");
    class.add_method(b"a", Visibility::Public);
    class.add_abstract_method(b"b", Visibility::Public);
    class.add_static_method(b"c", Visibility::Private);
    let keys = class.handler_map();
    assert_eq!(keys.len(), 2);
    assert_eq!(keys[0].0.as_deref(), Some(&b"Foo"[..]));
    assert_eq!(keys[0].1, b"a".to_vec());
    assert_eq!(keys[1].1, b"c".to_vec());
}

#[test]
fn predefined_classes_by_name() {
    let t = ClassTable::new();
    let names: Vec<(&ClassEntry, &[u8])> = vec![
        (iterator_class(&t), b"Iterator"),
        (array_access_class(&t), b"ArrayAccess"),
        (throwable_class(&t), b"Throwable"),
        (exception_class(&t), b"Exception"),
        (error_class(&t), b"Error"),
        (error_exception_class(&t), b"ErrorException"),
        (type_error_class(&t), b"TypeError"),
        (argument_count_error_class(&t), b"ArgumentCountError"),
        (arithmetic_error_class(&t), b"ArithmeticError"),
        (parse_error_class(&t), b"ParseError"),
        (division_by_zero_error(&t), b"DivisionByZeroError"),
    ];
    for (c, n) in names {
        assert_eq!(c.get_name().to_bytes(), n);
    }
    assert_eq!(exception_class(&t).id(), EXCEPTION);
}

#[test]
fn builtin_classes_declare_their_properties() {
    let mut table = ClassTable::new();
    let o = ZObj::new_by_std_class(&mut table);
    assert!(o.get_property(b"no_exists").as_null().is_some());
    let e = table.get(EXCEPTION).unwrap();
    assert!(e.get_static_property(b"code").is_none());
    assert!(e.get_constant(b"X").is_none());
    assert_eq!(e.get_property_flags(b"message"), Some(2));
    assert_eq!(e.get_property_flags(b"previous"), Some(4));
}

#[test]
fn declared_properties_keep_their_visibility() {
    let mut table = ClassTable::new();
    let mut c: ClassEntity<()> = ClassEntity::new(b"Holder");
    c.add_property(b"a", Visibility::Public, Scalar::I64(1));
    c.add_property(b"b", Visibility::Private, Scalar::Null);
    let id = c.init(&mut table).unwrap().id();
    let ce = table.get(id).unwrap();
    assert_eq!(ce.get_property_flags(b"a"), Some(1));
    assert_eq!(ce.get_property_flags(b"b"), Some(4));
    assert_eq!(ce.get_property_flags(b"c"), None);
}

#[test]
fn objects_without_a_state_cloner_cannot_be_cloned() {
    let mut table = ClassTable::new();
    let o = ZObj::new_by_std_class(&mut table);
    let source = StateObj::new(o, 7i64);
    let entity: ClassEntity<i64> = ClassEntity::new(b"Foo");
    let err: CloneObjectError = entity.clone_object(&|s: &i64| *s + 1, &source, &mut table).unwrap_err();
    assert_eq!(err.message(), b"Trying to clone an uncloneable object of class stdClass".to_vec());
    assert_eq!(err.get_class(), ERROR);
    let next = ZObj::new_by_std_class(&mut table);
    assert_eq!(next.handle(), 2);
}

#[test]
fn cloning_copies_properties_and_clones_the_state() {
    let mut table = ClassTable::new();
    let mut o = ZObj::new_by_std_class(&mut table);
    o.set_property(b"name", ZVal::from_bytes(b"foo"));
    o.set_property(b"count", ZVal::from_long(3));
    let source = StateObj::new(o, 7i64);
    let mut entity: ClassEntity<i64> = ClassEntity::new(b"Foo");
    entity.state_cloner();
    let copy = entity.clone_object(&|s: &i64| *s * 10, &source, &mut table).unwrap();
    assert_eq!(*copy.as_state(), 70);
    assert_eq!(*source.as_state(), 7);
    assert_eq!(copy.as_object().handle(), 2);
    assert_eq!(source.as_object().handle(), 1);
    assert_eq!(copy.as_object().get_class(), STD_CLASS);
    assert_eq!(copy.as_object().get_property(b"name").as_z_str().unwrap().to_bytes(), b"foo");
    assert_eq!(copy.as_object().get_property(b"count").as_long(), Some(3));
}

fn mark_constructed(o: ZObj, a: Vec<ZVal>) -> (Result<ZObj, Error>, Vec<ZVal>) {
    let mut o = o;
    o.set_property(b"constructed", ZVal::from_long(a.len() as i64));
    (Ok(o), a)
}

#[test]
fn objects_by_class_name() {
    let mut table = ClassTable::new();
    let mut args: Vec<ZVal> = Vec::new();
    let o = ZObj::new_by_class_name(&mut table, "STDCLASS", &mut args, mark_constructed).unwrap();
    assert_eq!(o.get_class(), STD_CLASS);
    assert_eq!(o.handle(), 1);
    assert!(o.get_property(b"constructed").as_null().is_some());
    let e = ZObj::new_by_class_name(&mut table, "NoSuchClass", &mut args, mark_constructed).unwrap_err();
    assert!(matches!(e, Error::ClassNotFound(_)));
    let e = ZObj::new_by_class_name(&mut table, "Throwable", &mut args, mark_constructed).unwrap_err();
    assert!(matches!(e, Error::InitializeObject(_)));
    let s = StateObj::new(ZObj::new_by_std_class(&mut table), 9u8);
    assert_eq!(s.into_state(), Some(9u8));
}

#[test]
fn new_object_runs_the_constructor() {
    let mut table = ClassTable::new();
    let mut args = vec![ZVal::from_long(1), ZVal::from_long(2)];
    let o = ZObj::new_by_class_name(&mut table, "exception", &mut args, mark_constructed).unwrap();
    assert_eq!(o.get_class(), EXCEPTION);
    assert_eq!(o.get_property(b"constructed").as_long(), Some(2));

    let mut class: ClassEntity<u8> = ClassEntity::new(b"Foo");
    class.add_method(b"__construct", Visibility::Public);
    let bound = class.init(&mut table).unwrap();
    let mut args = vec![ZVal::from_long(5)];
    let obj = bound
        .new_object(&mut table, 3u8, &mut args, |o: ZObj, mut a: Vec<ZVal>| {
            let mut o = o;
            o.set_property(b"x", ZVal::from_long(a[0].as_long().unwrap()));
            a[0] = ZVal::from_long(6);
            (Ok(o), a)
        })
        .unwrap();
    assert_eq!(*obj.as_state(), 3);
    assert_eq!(obj.as_object().get_property(b"x").as_long(), Some(5));
    assert_eq!(args[0].as_long(), Some(6));

    let r = bound.new_object(&mut table, 4u8, &mut args, |o: ZObj, a: Vec<ZVal>| {
        drop(o);
        (Err(Error::boxed(b"no".to_vec())), a)
    });
    assert!(matches!(r, Err(Error::Boxed(_))));
}

#[test]
fn lookup_by_name_lowercases_by_unicode_rules() {
    let mut table = ClassTable::new();
    let class: ClassEntity<()> = ClassEntity::new("ÄClass".as_bytes());
    let bound = class.init(&mut table).unwrap();
    assert_eq!(table.find("äclass".as_bytes()), None);
    assert!(ClassEntry::from_globals(&table, "ÄCLASS").is_err());
    assert!(ClassEntry::from_globals(&table, "äclass").is_err());
    let found = ClassEntry::from_globals(&table, "Äclass");
    assert!(found.is_err());
    assert_eq!(bound.id(), BUILTIN_CLASSES);
    assert!(ClassEntry::from_globals(&table, "STDCLASS").is_ok());
}

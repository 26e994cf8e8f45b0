use phper::classes::{find_real_ce, ClassEntity, ClassTable, InterfaceEntity, Visibility, BUILTIN_CLASSES};
use phper::constants::{Constant, ConstantTable};
use phper::enums::{Enum, EnumEntity};
use phper::functions::{Argument, ZFunc};
use phper::ini::{ini_get, IniEntity, IniTable, Policy};
use phper::modules::{Module, PublishedEntry};
use phper::types::Scalar;

#[test]
fn info_rows() {
    let mut m = Module::new(b"demo", b"1.0.0", b"someone");
    m.add_info(b"key", b"value");
    m.add_info(b"other", b"x");
    m.add_info(b"key", b"value2");
    let rows = m.module_info();
    assert_eq!(rows.len(), 4);
    assert_eq!(rows[0], (b"version".to_vec(), b"1.0.0".to_vec()));
    assert_eq!(rows[1], (b"authors".to_vec(), b"someone".to_vec()));
    assert_eq!(rows[2], (b"key".to_vec(), b"value2".to_vec()));
    assert_eq!(rows[3], (b"other".to_vec(), b"x".to_vec()));
    let bare = Module::new(b"demo", b"", b"");
    assert!(bare.module_info().is_empty());
}

#[test]
fn module_entry_lists_functions() {
    let mut m = Module::new(b"demo", b"0.1", b"");
    m.add_function(b"a").argument(Argument::by_val(b"x"));
    m.add_function(b"b");
    let entry = m.module_entry();
    assert_eq!(entry.functions().len(), 2);
    assert_eq!(m.function_entries().len(), 2);
}

#[test]
fn startup_registers_everything() {
    let mut m = Module::new(b"demo", b"0.1", b"");
    m.add_function(b"demo_fn");
    m.add_constant(b"DEMO_ONE", Scalar::I64(1));
    m.add_constant(b"DEMO_ONE", Scalar::I64(2));
    m.add_ini(IniEntity::new(b"demo.level", 3i64, Policy::All));
    let mut iface = InterfaceEntity::new(b"DemoInterface");
    iface.add_method(b"run");
    m.add_interface(iface);
    let mut class: ClassEntity<()> = ClassEntity::new(b"DemoClass");
    class.implements(b"DemoInterface");
    class.add_method(b"run", Visibility::Public);
    m.add_class(class);

    let mut classes = ClassTable::new();
    let mut constants = ConstantTable::new();
    let mut ini = IniTable::new();
    let s = m.module_startup(5, &mut classes, &mut constants, &mut ini);
    assert!(s.ini_registered);
    assert_eq!(s.constants, vec![true, false]);
    assert!(matches!(constants.get(b"DEMO_ONE"), Some(Scalar::I64(1))));
    assert_eq!(ini_get::<i64>(&ini, b"demo.level"), 3);
    let iface_id = s.interfaces[0].as_ref().unwrap().id();
    let class_id = s.classes[0].as_ref().unwrap().id();
    assert_eq!(iface_id, BUILTIN_CLASSES);
    assert_eq!(class_id, BUILTIN_CLASSES + 1);
    assert!(classes.is_instance_of(class_id, iface_id));
    assert_eq!(s.handlers.len(), 2);
    assert_eq!(s.handlers[0], (None, b"demo_fn".to_vec()));
    assert_eq!(s.handlers[1], (Some(b"DemoClass".to_vec()), b"run".to_vec()));

    m.module_shutdown(5, &mut ini);
    assert!(ini.lookup(b"demo.level").is_none());
}

#[test]
fn constants_are_case_sensitive_and_unique() {
    let mut t = ConstantTable::new();
    assert!(Constant::new(b"FOO", Scalar::Bool(true)).register(&mut t, 1));
    assert!(Constant::new(b"foo", Scalar::Null).register(&mut t, 1));
    assert!(!Constant::new(b"FOO", Scalar::I64(3)).register(&mut t, 2));
    assert!(matches!(t.get(b"FOO"), Some(Scalar::Bool(true))));
    assert!(t.get(b"BAR").is_none());
}

#[test]
fn startup_registers_enums() {
    let mut m = Module::new(b"demo", b"0.1", b"");
    let mut e: EnumEntity<i64> = EnumEntity::new(b"Suit");
    e.add_case(b"Hearts", 1);
    e.add_static_method(b"pick", Visibility::Public);
    match m.add_enum(e) {
        Enum::Named(n) => assert_eq!(n, b"Suit".to_vec()),
        Enum::Bound(_) => panic!("an added enum is found by its name"),
    }
    let mut classes = ClassTable::new();
    let mut constants = ConstantTable::new();
    let mut ini = IniTable::new();
    let s = m.module_startup(1, &mut classes, &mut constants, &mut ini);
    assert_eq!(s.enums.len(), 1);
    match s.enums[0].as_ref().unwrap() {
        Enum::Bound(id) => {
            assert_eq!(*id, BUILTIN_CLASSES);
            assert_eq!(classes.get(*id).unwrap().get_name().to_bytes(), b"Suit");
        }
        Enum::Named(_) => panic!("a registered enum is bound to its class"),
    }
    assert_eq!(s.handlers, vec![(Some(b"Suit".to_vec()), b"pick".to_vec())]);
}

#[test]
fn state_comes_from_the_nearest_declared_class() {
    let mut m = Module::new(b"demo", b"0.1", b"");
    m.add_class(ClassEntity::<()>::new(b"Base"));
    let mut classes = ClassTable::new();
    let mut constants = ConstantTable::new();
    let mut ini = IniTable::new();
    let s = m.module_startup(1, &mut classes, &mut constants, &mut ini);
    let base = s.classes[0].as_ref().unwrap().id();
    let mut child: ClassEntity<()> = ClassEntity::new(b"Child");
    child.extends(b"Base");
    let child = child.init(&mut classes).unwrap().id();
    assert_eq!(find_real_ce(&classes, m.class_entities(), child), Some(base));
    assert_eq!(find_real_ce(&classes, m.class_entities(), base), Some(base));
    assert_eq!(find_real_ce(&classes, m.class_entities(), 0), None);
}

#[test]
fn startup_reports_refused_classes() {
    let mut m = Module::new(b"demo", b"0.1", b"");
    m.add_class(ClassEntity::<()>::new(b"Dup"));
    m.add_class(ClassEntity::<()>::new(b"dup"));
    let mut missing: ClassEntity<()> = ClassEntity::new(b"Orphan");
    missing.extends(b"NoSuchParent");
    m.add_class(missing);
    m.add_class(ClassEntity::<()>::new(b"Fine"));
    let mut classes = ClassTable::new();
    let mut constants = ConstantTable::new();
    let mut ini = IniTable::new();
    let s = m.module_startup(1, &mut classes, &mut constants, &mut ini);
    assert_eq!(s.classes[0].as_ref().unwrap().id(), BUILTIN_CLASSES);
    assert!(s.classes[1].is_none());
    assert!(s.classes[2].is_none());
    assert_eq!(s.classes[3].as_ref().unwrap().id(), BUILTIN_CLASSES + 1);
    assert_eq!(classes.len(), BUILTIN_CLASSES + 2);
}

#[test]
fn module_entry_keeps_function_order() {
    let mut m = Module::new(b"demo", b"0.1", b"");
    m.add_function(b"first").argument(Argument::by_val(b"x"));
    m.add_function(b"second");
    let entry = m.module_entry();
    let fs = entry.functions();
    assert_eq!(fs.len(), 2);
    let f0 = ZFunc::from_entry(&fs[0], None);
    let f1 = ZFunc::from_entry(&fs[1], None);
    assert_eq!(f0.get_function_name().unwrap().to_bytes(), b"first");
    assert_eq!(f1.get_function_name().unwrap().to_bytes(), b"second");
}

#[test]
fn the_first_published_entry_stays() {
    let mut published = PublishedEntry::new();
    assert!(published.entry().is_none());
    let mut first = Module::new(b"first", b"1.0", b"");
    first.add_function(b"f");
    published.publish(&first);
    let second = Module::new(b"second", b"2.0", b"");
    published.publish(&second);
    let e = published.entry().unwrap();
    assert_eq!(e.functions().len(), 1);
    let f = ZFunc::from_entry(&e.functions()[0], None);
    assert_eq!(f.get_function_name().unwrap().to_bytes(), b"f");
}

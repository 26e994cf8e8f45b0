use phper::ini::{create_ini_entry, ini_get, register, unregister, IniEntity, IniTable, Policy, PHP_INI_ALL};
use phper::numeric::strtol_bytes;

#[test]
fn registered_defaults_read_back() {
    let mut table = IniTable::new();
    let entries = vec![
        IniEntity::new(b"demo.enable", true, Policy::All),
        IniEntity::new(b"demo.num", 100i64, Policy::User),
        IniEntity::new(b"demo.neg", -42i64, Policy::Perdir),
        IniEntity::new(b"demo.text", b"hello".to_vec(), Policy::System),
        IniEntity::new(b"demo.off", false, Policy::All),
    ];
    assert!(register(&entries, &mut table, 1));
    assert!(ini_get::<bool>(&table, b"demo.enable"));
    assert!(!ini_get::<bool>(&table, b"demo.off"));
    assert_eq!(ini_get::<i64>(&table, b"demo.num"), 100);
    assert_eq!(ini_get::<i64>(&table, b"demo.neg"), -42);
    assert_eq!(ini_get::<Option<Vec<u8>>>(&table, b"demo.text"), Some(b"hello".to_vec()));
    assert_eq!(ini_get::<Option<Vec<u8>>>(&table, b"demo.none"), None);
    assert_eq!(ini_get::<i64>(&table, b"demo.none"), 0);
    assert!(!ini_get::<bool>(&table, b"demo.none"));
}

#[test]
fn duplicate_names_unregister_the_module() {
    let mut table = IniTable::new();
    assert!(register(&vec![IniEntity::new(b"a", 1i64, Policy::All)], &mut table, 1));
    assert!(register(&vec![IniEntity::new(b"b", 2i64, Policy::All)], &mut table, 2));
    assert!(!register(
        &vec![IniEntity::new(b"c", 3i64, Policy::All), IniEntity::new(b"a", 4i64, Policy::All)],
        &mut table,
        2
    ));
    assert_eq!(ini_get::<i64>(&table, b"a"), 1);
    assert!(table.lookup(b"b").is_none());
    assert!(table.lookup(b"c").is_none());
}

#[test]
fn true_words() {
    let mut table = IniTable::new();
    let entries = vec![
        IniEntity::new(b"t1", b"true".to_vec(), Policy::All),
        IniEntity::new(b"t2", b"on".to_vec(), Policy::All),
        IniEntity::new(b"t3", b"On".to_vec(), Policy::All),
        IniEntity::new(b"t4", b"yes".to_vec(), Policy::All),
        IniEntity::new(b"t5", b"ON".to_vec(), Policy::All),
    ];
    assert!(register(&entries, &mut table, 7));
    assert!(ini_get::<bool>(&table, b"t1"));
    assert!(ini_get::<bool>(&table, b"t2"));
    assert!(ini_get::<bool>(&table, b"t3"));
    assert!(!ini_get::<bool>(&table, b"t4"));
    assert!(!ini_get::<bool>(&table, b"t5"));
}

#[test]
fn strtol_like_c() {
    assert_eq!(strtol_bytes(b"  42xyz"), 42);
    assert_eq!(strtol_bytes(b"-17"), -17);
    assert_eq!(strtol_bytes(b"+5"), 5);
    assert_eq!(strtol_bytes(b"0x1F"), 31);
    assert_eq!(strtol_bytes(b"0X10"), 16);
    assert_eq!(strtol_bytes(b"010"), 8);
    assert_eq!(strtol_bytes(b"09"), 0);
    assert_eq!(strtol_bytes(b"0x"), 0);
    assert_eq!(strtol_bytes(b""), 0);
    assert_eq!(strtol_bytes(b"abc"), 0);
    assert_eq!(strtol_bytes(b"99999999999999999999"), i64::MAX);
    assert_eq!(strtol_bytes(b"-99999999999999999999"), i64::MIN);
    assert_eq!(strtol_bytes(b"-9223372036854775808"), i64::MIN);
    assert_eq!(strtol_bytes(b"9223372036854775807"), i64::MAX);
    assert_eq!(strtol_bytes(b"\t\n 7"), 7);
}

#[test]
fn entry_definitions() {
    let d = create_ini_entry(b"demo.x", b"1", PHP_INI_ALL);
    let _ = d;
    assert_eq!(Policy::All.raw(), 7);
    assert_eq!(Policy::User.raw(), 1);
    assert_eq!(Policy::Perdir.raw(), 2);
    assert_eq!(Policy::System.raw(), 4);
}

#[test]
fn shutdown_undoes_startup() {
    let mut table = IniTable::new();
    assert!(register(&vec![IniEntity::new(b"a", 1i64, Policy::All)], &mut table, 1));
    assert!(register(&vec![IniEntity::new(b"b", 2i64, Policy::All)], &mut table, 2));
    unregister(&mut table, 2);
    assert_eq!(ini_get::<i64>(&table, b"a"), 1);
    assert!(table.lookup(b"b").is_none());
    assert!(!register(&vec![IniEntity::new(b"a", 5i64, Policy::All)], &mut table, 3));
    unregister(&mut table, 3);
    assert_eq!(ini_get::<i64>(&table, b"a"), 1);
}

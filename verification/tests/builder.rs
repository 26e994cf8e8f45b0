use phper::builder::{
    Argument, ArgumentSet, ArrayKeyType, ArrayKeyValue, AtomicReturnType, AtomicType,
    ConstantValue, Function,
};
use phper::arrays::{IterKey, Key};

#[test]
fn type_texts() {
    assert_eq!(AtomicType::Bool.describe(), b"bool".to_vec());
    assert_eq!(AtomicType::IntRange(1, 5).describe(), b"int".to_vec());
    assert_eq!(AtomicType::Numeric.describe(), b"int|float|string".to_vec());
    assert_eq!(AtomicType::ObjectOf(b"Foo\\Bar".to_vec()).describe(), b"Foo\\Bar".to_vec());
    assert_eq!(AtomicType::list(AtomicType::Int).describe(), b"array".to_vec());
    assert_eq!(
        AtomicType::iterable(ArrayKeyType::Int, AtomicType::String).describe(),
        b"iterable".to_vec()
    );
    assert_eq!(
        AtomicType::Union(vec![AtomicType::Int, AtomicType::Null, AtomicType::Object]).describe(),
        b"int|mixed|object".to_vec()
    );
    assert_eq!(AtomicType::Union(vec![]).describe(), b"".to_vec());
    assert_eq!(
        AtomicType::function(vec![], AtomicReturnType::Void).describe(),
        b"Closure".to_vec()
    );
    assert_eq!(AtomicReturnType::Never.describe(), b"never".to_vec());
}

#[test]
fn value_texts() {
    assert_eq!(ConstantValue::String(b"it's".to_vec()).describe(), b"'it\\'s'".to_vec());
    assert_eq!(ConstantValue::Int(-3).describe(), b"-3".to_vec());
    assert_eq!(ConstantValue::Bool(false).describe(), b"false".to_vec());
    assert_eq!(ConstantValue::Null.describe(), b"null".to_vec());
    assert_eq!(
        ConstantValue::List(vec![ConstantValue::Int(1), ConstantValue::Int(2)]).describe(),
        b"[1, 2]".to_vec()
    );
    assert_eq!(
        ConstantValue::Array(vec![
            (ArrayKeyValue::String(b"a".to_vec()), ConstantValue::Int(1)),
            (ArrayKeyValue::Int(7), ConstantValue::Bool(true)),
        ])
        .describe(),
        b"['a' => 1, 7 => true]".to_vec()
    );
    assert_eq!(
        ConstantValue::ClassConstant(b"Foo".to_vec(), b"BAR".to_vec()).describe(),
        b"Foo::BAR".to_vec()
    );
    assert_eq!(ArrayKeyValue::Int(0).describe(), b"0".to_vec());
}

#[test]
fn function_text() {
    let f = Function::new(b"greet")
        .with_argument(Argument::new(b"name", AtomicType::String))
        .with_argument(Argument::new(b"times", AtomicType::Int).with_default(ConstantValue::Int(1)))
        .with_argument(Argument::varadic(b"rest", AtomicType::Mixed))
        .with_return_type(AtomicReturnType::Of(AtomicType::String));
    assert_eq!(
        f.describe(),
        b"function greet(string $name, int $times = 1, mixed ...$rest): string { exit(1); }".to_vec()
    );
    assert_eq!(
        Function::new(b"noop").describe(),
        b"function noop(): mixed { exit(1); }".to_vec()
    );
}

#[test]
fn argument_sets() {
    let set = ArgumentSet {
        arguments: vec![
            Argument::new(b"a", AtomicType::Int),
            Argument::new(b"b", AtomicType::Int),
        ],
    };
    assert_eq!(set.nth(1).unwrap().name, b"b".to_vec());
    assert!(set.nth(2).is_none());
    assert_eq!(set.get(b"a").unwrap().name, b"a".to_vec());
    assert!(set.get(b"c").is_none());
}

#[test]
fn constant_values_become_php_values() {
    let list = ConstantValue::List(vec![ConstantValue::Int(1), ConstantValue::String(b"a".to_vec())]);
    let v = list.to_zval();
    let a = v.as_z_arr().unwrap();
    assert_eq!(a.len(), 2);
    assert_eq!(a.get(Key::Index(0)).unwrap().as_long(), Some(1));
    assert_eq!(a.get(Key::Index(1)).unwrap().as_z_str().unwrap().to_bytes(), b"a");

    let arr = ConstantValue::Array(vec![
        (ArrayKeyValue::String(b"x".to_vec()), ConstantValue::Int(1)),
        (ArrayKeyValue::Int(2), ConstantValue::Bool(true)),
        (ArrayKeyValue::String(b"x".to_vec()), ConstantValue::Int(3)),
        (ArrayKeyValue::String(b"2".to_vec()), ConstantValue::Null),
    ]);
    let v = arr.to_zval();
    let a = v.as_z_arr().unwrap();
    assert_eq!(a.len(), 2);
    let entries = a.iter();
    assert!(matches!(entries[0].0, IterKey::ZStr(k) if k.to_bytes() == b"x"));
    assert_eq!(entries[0].1.as_long(), Some(3));
    assert!(matches!(entries[1].0, IterKey::Index(2)));
    assert!(entries[1].1.as_null().is_some());
    assert_eq!(ConstantValue::Bool(false).to_zval().as_bool(), Some(false));
}

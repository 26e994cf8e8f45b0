use phper::classes::{ClassTable, Visibility, ARGUMENT_COUNT_ERROR, ERROR};
use phper::errors::{deliver, ClassNotFoundError, Error, ExecutorGlobals};
use phper::functions::{
    check_arguments, dispatch, find_handler, invoke, ArgType, Argument, ExecuteData, FunctionEntity, FunctionEntry, MethodEntity,
    ReturnType, ZFunc,
};
use phper::strings::ZStr;
use phper::types::TypeInfo;
use phper::values::ZVal;

#[test]
fn entries_count_required_arguments() {
    let mut f = FunctionEntity::new(b"say_hello");
    f.argument(Argument::by_val(b"name"));
    f.argument(Argument::by_ref_optional(b"out"));
    f.argument(Argument::by_ref(b"extra"));
    f.return_type(ReturnType::by_val(TypeInfo::string()).allow_null());
    let e = FunctionEntry::from_function_entity(&f);
    let z = ZFunc::from_entry(&e, None);
    let call = ExecuteData::new(z, vec![ZVal::from_bytes(b"a")], None);
    assert_eq!(call.common_num_args(), 3);
    assert_eq!(call.common_required_num_args(), 2);
    assert_eq!(call.func().get_function_name().unwrap().to_bytes(), b"say_hello");
}

#[test]
fn too_few_arguments() {
    let mut f = FunctionEntity::new(b"say_hello");
    f.argument(Argument::by_val(b"name"));
    let e = FunctionEntry::from_function_entity(&f);
    let call = ExecuteData::new(ZFunc::from_entry(&e, None), Vec::new(), None);
    match check_arguments(&call) {
        Err(Error::ArgumentCount(err)) => assert_eq!(
            err.message(),
            b"say_hello(): expects at least 1 parameter(s), 0 given".to_vec()
        ),
        _ => panic!("one argument is required"),
    }
    let ok = ExecuteData::new(ZFunc::from_entry(&e, None), vec![ZVal::null()], None);
    assert!(check_arguments(&ok).is_ok());
}

#[test]
fn method_names() {
    let mut m = MethodEntity::new(b"run", true, Visibility::Protected);
    m.set_vis_static();
    m.argument(Argument::by_val_optional(b"x"));
    let e = FunctionEntry::from_method_entity(&m);
    let z = ZFunc::from_entry(&e, Some((3, ZStr::new(b"Foo"))));
    assert_eq!(z.get_function_or_method_name().to_bytes(), b"Foo::run");
    assert_eq!(z.get_class(), Some(3));
    let call = ExecuteData::new(z, Vec::new(), None);
    assert!(check_arguments(&call).is_ok());
    let plain = ZFunc::from_entry(&FunctionEntry::from_function_entity(&FunctionEntity::new(b"f")), None);
    assert_eq!(plain.get_function_or_method_name().to_bytes(), b"f");
    assert_eq!(m.name_bytes(), b"run".to_vec());
}

#[test]
fn execute_data_parameters() {
    let f = FunctionEntity::new(b"f");
    let e = FunctionEntry::from_function_entity(&f);
    let call = ExecuteData::new(
        ZFunc::from_entry(&e, None),
        vec![ZVal::from_long(1), ZVal::from_long(2)],
        None,
    );
    assert_eq!(call.num_args(), 2);
    assert_eq!(call.get_parameter(1).as_long(), Some(2));
    assert!(call.get_this().is_none());
}

#[test]
fn parameters_can_be_changed_in_place() {
    let f = FunctionEntity::new(b"f");
    let e = FunctionEntry::from_function_entity(&f);
    let mut call = ExecuteData::new(
        ZFunc::from_entry(&e, None),
        vec![ZVal::from_long(1), ZVal::from_long(2)],
        None,
    );
    *call.get_mut_parameter(1) = ZVal::from_long(20);
    assert_eq!(call.get_parameter(0).as_long(), Some(1));
    assert_eq!(call.get_parameter(1).as_long(), Some(20));
}

#[test]
fn calls_find_the_last_registered_handler() {
    let handlers = vec![
        (None, b"f".to_vec()),
        (Some(b"C".to_vec()), b"f".to_vec()),
        (None, b"f".to_vec()),
    ];
    assert_eq!(find_handler(&handlers, &(None, b"f".to_vec())), Some(2));
    assert_eq!(find_handler(&handlers, &(Some(b"C".to_vec()), b"f".to_vec())), Some(1));
    assert_eq!(find_handler(&handlers, &(None, b"g".to_vec())), None);

    let mut f = FunctionEntity::new(b"f");
    f.argument(Argument::by_val(b"x"));
    let e = FunctionEntry::from_function_entity(&f);
    let ok = ExecuteData::new(ZFunc::from_entry(&e, None), vec![ZVal::null()], None);
    assert_eq!(invoke(&ok, &handlers).unwrap(), 2);
    let short = ExecuteData::new(ZFunc::from_entry(&e, None), Vec::new(), None);
    assert!(matches!(invoke(&short, &handlers), Err(Error::ArgumentCount(_))));
    let m = MethodEntity::new(b"f", true, Visibility::Public);
    let me = FunctionEntry::from_method_entity(&m);
    let method = ExecuteData::new(
        ZFunc::from_entry(&me, Some((7, ZStr::new(b"C")))),
        Vec::new(),
        None,
    );
    assert_eq!(method.func().handler_key(), Some((Some(b"C".to_vec()), b"f".to_vec())));
    assert_eq!(invoke(&method, &handlers).unwrap(), 1);
}

#[test]
fn argument_type_tags() {
    assert_eq!(ArgType::Undef.raw(), 0);
    assert_eq!(ArgType::Long.raw(), 4);
    assert_eq!(ArgType::Reference.raw(), 10);
}

#[test]
fn dispatch_runs_the_handler_or_throws() {
    let handlers = vec![(None, b"f".to_vec())];
    let mut f = FunctionEntity::new(b"f");
    f.argument(Argument::by_val(b"x"));
    let e = FunctionEntry::from_function_entity(&f);
    let mut table = ClassTable::new();
    let mut eg = ExecutorGlobals::new();

    let ok = ExecuteData::new(ZFunc::from_entry(&e, None), vec![ZVal::from_long(4)], None);
    let r = dispatch(&ok, &handlers, &mut table, &mut eg, |i, call| {
        assert_eq!(i, 0);
        Ok(ZVal::from_long(call.get_parameter(0).as_long().unwrap() + 1))
    });
    assert_eq!(r.as_long(), Some(5));
    assert!(eg.exception().is_none());

    let r = dispatch(&ok, &handlers, &mut table, &mut eg, |_, _| {
        Err(Error::ClassNotFound(ClassNotFoundError::new(b"X".to_vec())))
    });
    assert!(r.as_null().is_some());
    assert_eq!(eg.exception().unwrap().get_class(), ERROR);
    eg.take_exception();

    let short = ExecuteData::new(ZFunc::from_entry(&e, None), Vec::new(), None);
    let r = dispatch(&short, &handlers, &mut table, &mut eg, |_, _| -> Result<ZVal, Error> {
        panic!("the handler must not run")
    });
    assert!(r.as_null().is_some());
    assert_eq!(eg.exception().unwrap().get_class(), ARGUMENT_COUNT_ERROR);

    let v = deliver(Ok(ZVal::from_long(1)), &mut table, &mut eg);
    assert_eq!(v.as_long(), Some(1));
}

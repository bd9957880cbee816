use argument_utils::{
    construct_arg_name, construct_arg_tuple, construct_arg_type, get_arg_type,
    initialize_arg_types_hashmap, insert_argument_type, ArgError, ArgName, ArgType, ArgTypes,
};

#[test]
fn valid_name_is_kept() {
    assert_eq!(
        construct_arg_name(String::from("verbose")),
        Ok(ArgName::ArgName(String::from("verbose")))
    );
    assert_eq!(
        construct_arg_name(String::from("a-b")),
        Ok(ArgName::ArgName(String::from("a-b")))
    );
    assert_eq!(
        construct_arg_name(String::from("x")),
        Ok(ArgName::ArgName(String::from("x")))
    );
}

#[test]
fn invalid_names_are_refused() {
    assert_eq!(construct_arg_name(String::new()), Err(ArgError::InvalidName));
    assert_eq!(
        construct_arg_name(String::from("-v")),
        Err(ArgError::InvalidName)
    );
    assert_eq!(
        construct_arg_name(String::from("--verbose")),
        Err(ArgError::InvalidName)
    );
    assert_eq!(
        construct_arg_name(String::from("a=b")),
        Err(ArgError::InvalidName)
    );
    assert_eq!(
        construct_arg_name(String::from("=")),
        Err(ArgError::InvalidName)
    );
    assert_eq!(
        construct_arg_name(String::from("name=")),
        Err(ArgError::InvalidName)
    );
}

#[test]
fn declared_types_are_read() {
    assert_eq!(construct_arg_type(None), Ok(ArgType::ArgTypeNoValue));
    assert_eq!(
        construct_arg_type(Some(String::from("usize"))),
        Ok(ArgType::ArgTypeUsize)
    );
    assert_eq!(
        construct_arg_type(Some(String::from("string"))),
        Ok(ArgType::ArgTypeString)
    );
}

#[test]
fn other_types_are_unrecognized() {
    for t in ["bool", "", "Usize", "usize ", "int", "strin", "strings"] {
        assert_eq!(
            construct_arg_type(Some(String::from(t))),
            Err(ArgError::UnrecognizedType)
        );
    }
}

#[test]
fn tuple_judges_the_name_first() {
    assert_eq!(
        construct_arg_tuple(String::from("n"), Some(String::from("usize"))),
        Ok((ArgName::ArgName(String::from("n")), ArgType::ArgTypeUsize))
    );
    assert_eq!(
        construct_arg_tuple(String::from("-n"), Some(String::from("float"))),
        Err(ArgError::InvalidName)
    );
    assert_eq!(
        construct_arg_tuple(String::from("n"), Some(String::from("float"))),
        Err(ArgError::UnrecognizedType)
    );
}

#[test]
fn lookup_of_a_declared_name() {
    let mut types = initialize_arg_types_hashmap();
    assert_eq!(get_arg_type("n", &types), Err(ArgError::UnknownOption));
    assert!(!types.contains_key("n"));
    assert_eq!(types.get("n"), None);
    assert_eq!(insert_argument_type("n", "usize", &mut types), Ok(()));
    assert_eq!(get_arg_type("n", &types), Ok(ArgType::ArgTypeUsize));
    assert!(types.contains_key("n"));
    assert_eq!(types.get("n"), Some(ArgType::ArgTypeUsize));
    assert_eq!(get_arg_type("m", &types), Err(ArgError::UnknownOption));
    assert_eq!(get_arg_type("", &types), Err(ArgError::UnknownOption));
}

#[test]
fn last_registration_wins() {
    let mut types = ArgTypes::new();
    assert_eq!(insert_argument_type("n", "usize", &mut types), Ok(()));
    assert_eq!(insert_argument_type("n", "string", &mut types), Ok(()));
    assert_eq!(get_arg_type("n", &types), Ok(ArgType::ArgTypeString));
    assert_eq!(
        types.register(String::from("n"), None),
        Ok(ArgName::ArgName(String::from("n")))
    );
    assert_eq!(get_arg_type("n", &types), Ok(ArgType::ArgTypeNoValue));
    types.insert(ArgName::ArgName(String::from("n")), ArgType::ArgTypeBool);
    assert_eq!(get_arg_type("n", &types), Ok(ArgType::ArgTypeBool));
}

#[test]
fn refused_registration_changes_nothing() {
    let mut types = ArgTypes::new();
    assert_eq!(insert_argument_type("n", "usize", &mut types), Ok(()));
    assert_eq!(
        insert_argument_type("n", "bool", &mut types),
        Err(ArgError::UnrecognizedType)
    );
    assert_eq!(
        insert_argument_type("-m", "usize", &mut types),
        Err(ArgError::InvalidName)
    );
    assert_eq!(
        insert_argument_type("", "nothing", &mut types),
        Err(ArgError::InvalidName)
    );
    assert_eq!(get_arg_type("n", &types), Ok(ArgType::ArgTypeUsize));
    assert_eq!(get_arg_type("-m", &types), Err(ArgError::UnknownOption));
    assert_eq!(get_arg_type("m", &types), Err(ArgError::UnknownOption));
}

#[test]
fn name_clone_is_the_same_name() {
    let n = ArgName::ArgName(String::from("verbose"));
    assert_eq!(n.clone(), n);
    assert_eq!(n.as_str(), "verbose");
}

use argument_utils::{
    construct_arg_tuple, initialize_arg_types_hashmap, insert_argument_type, parse_arguments,
    ArgError, ArgName, ArgType, ArgTypes, ArgVal, Argument,
};

fn name(s: &str) -> ArgName {
    ArgName::ArgName(String::from(s))
}

fn tokens(items: &[&str]) -> Vec<String> {
    items.iter().map(|s| String::from(*s)).collect()
}

fn schema(entries: &[(&str, Option<&str>)]) -> ArgTypes {
    let mut types = ArgTypes::new();
    for (n, t) in entries {
        types
            .register(String::from(*n), t.map(String::from))
            .unwrap();
    }
    types
}

#[test]
fn recognize_single_argument() {
    let mut args_hashmap = ArgTypes::new();
    let arg_name = String::from("sample_string_arg");
    let arg_type = construct_arg_tuple(arg_name.clone(), None).unwrap();
    args_hashmap.insert(arg_type.0.clone(), arg_type.1);
    let parsed_args = parse_arguments(vec![arg_name.clone()], args_hashmap);
    assert_eq!(
        parsed_args,
        Ok(vec![Argument::SingleArgument(arg_type.0.clone())])
    );
}

#[test]
fn recognize_paired_argument() {
    let mut args_hashmap = ArgTypes::new();
    let arg_name = String::from("sample_paired_string_arg");
    let arg_val = String::from("string_val");
    let arg_type = construct_arg_tuple(arg_name.clone(), Some(String::from("string"))).unwrap();
    args_hashmap.insert(arg_type.0.clone(), arg_type.1);
    let parsed_args = parse_arguments(vec![arg_name.clone(), arg_val.clone()], args_hashmap);
    assert_eq!(
        parsed_args,
        Ok(vec![Argument::PairedArgument(
            arg_type.0.clone(),
            ArgVal::ArgValString(arg_val.clone())
        )])
    );
}

#[test]
fn recognize_embedded_argument() {
    let embedded_argument = String::from("--test=32");
    let mut args_hashmap = ArgTypes::new();
    let arg_name = String::from("test");
    let (constructed_arg_name, constructed_arg_type) =
        construct_arg_tuple(arg_name.clone(), Some(String::from("usize"))).unwrap();
    args_hashmap.insert(constructed_arg_name.clone(), constructed_arg_type.clone());
    let parsed_args = parse_arguments(vec![embedded_argument], args_hashmap);
    assert_eq!(
        parsed_args,
        Ok(vec![Argument::PairedArgument(
            constructed_arg_name,
            ArgVal::ArgValUsize(32)
        )])
    );
}

#[test]
fn recognize_argument_using_helpers() {
    let arg_name = "sample_arg_name";
    let arg_val = "24";
    let mut arg_types = initialize_arg_types_hashmap();
    insert_argument_type("sample_arg_name", "usize", &mut arg_types).unwrap();
    let args_vec = vec![String::from("--sample_arg_name"), String::from(arg_val)];
    let parsed_args = parse_arguments(args_vec, arg_types);
    assert_eq!(
        parsed_args,
        Ok(vec![Argument::PairedArgument(
            ArgName::ArgName(String::from(arg_name)),
            ArgVal::ArgValUsize(24)
        )])
    );
}

#[test]
fn empty_input_gives_no_arguments() {
    assert_eq!(parse_arguments(Vec::new(), schema(&[])), Ok(Vec::new()));
    assert_eq!(
        parse_arguments(Vec::new(), schema(&[("name", Some("string"))])),
        Ok(Vec::new())
    );
}

#[test]
fn embedded_count_then_flag() {
    let types = schema(&[("count", Some("usize")), ("verbose", None)]);
    assert_eq!(
        parse_arguments(tokens(&["--count=5", "--verbose"]), types),
        Ok(vec![
            Argument::PairedArgument(name("count"), ArgVal::ArgValUsize(5)),
            Argument::SingleArgument(name("verbose")),
        ])
    );
}

#[test]
fn trailing_option_without_value_is_single() {
    let types = schema(&[("name", Some("string"))]);
    assert_eq!(
        parse_arguments(tokens(&["--name"]), types),
        Ok(vec![Argument::SingleArgument(name("name"))])
    );
    let types = schema(&[("count", Some("usize")), ("name", Some("string"))]);
    assert_eq!(
        parse_arguments(tokens(&["name", "x", "-count"]), types),
        Ok(vec![
            Argument::PairedArgument(name("name"), ArgVal::ArgValString(String::from("x"))),
            Argument::SingleArgument(name("count")),
        ])
    );
}

#[test]
fn bare_equals_is_malformed() {
    assert_eq!(
        parse_arguments(tokens(&["="]), schema(&[])),
        Err(ArgError::MalformedEmbeddedArgument)
    );
    assert_eq!(
        parse_arguments(tokens(&["--="]), schema(&[("name", Some("string"))])),
        Err(ArgError::MalformedEmbeddedArgument)
    );
}

#[test]
fn repeated_equals_is_malformed() {
    let types = schema(&[("a", Some("string"))]);
    assert_eq!(
        parse_arguments(tokens(&["a=b=c"]), types),
        Err(ArgError::MalformedEmbeddedArgument)
    );
    let types = schema(&[("a", Some("string")), ("v", None)]);
    assert_eq!(
        parse_arguments(tokens(&["-v", "--a=1", "--a==2"]), types),
        Err(ArgError::MalformedEmbeddedArgument)
    );
    assert_eq!(
        parse_arguments(tokens(&["=="]), schema(&[])),
        Err(ArgError::MalformedEmbeddedArgument)
    );
}

#[test]
fn value_token_may_hold_anything() {
    let types = schema(&[("name", Some("string"))]);
    assert_eq!(
        parse_arguments(tokens(&["name", "a=b=c"]), types),
        Ok(vec![Argument::PairedArgument(
            name("name"),
            ArgVal::ArgValString(String::from("a=b=c"))
        )])
    );
    let types = schema(&[("name", Some("string"))]);
    assert_eq!(
        parse_arguments(tokens(&["name", ""]), types),
        Ok(vec![Argument::PairedArgument(
            name("name"),
            ArgVal::ArgValString(String::new())
        )])
    );
    let types = schema(&[("name", Some("string"))]);
    assert_eq!(
        parse_arguments(tokens(&["name", "--other"]), types),
        Ok(vec![Argument::PairedArgument(
            name("name"),
            ArgVal::ArgValString(String::from("--other"))
        )])
    );
}

#[test]
fn unknown_option_fails_at_any_position() {
    let types = schema(&[("known", None)]);
    assert_eq!(
        parse_arguments(tokens(&["other"]), types),
        Err(ArgError::UnknownOption)
    );
    let types = schema(&[("known", None), ("n", Some("usize"))]);
    assert_eq!(
        parse_arguments(tokens(&["--known", "-n", "3", "--other"]), types),
        Err(ArgError::UnknownOption)
    );
    let types = schema(&[("known", None)]);
    assert_eq!(
        parse_arguments(tokens(&["--known", "other=1", "--known"]), types),
        Err(ArgError::UnknownOption)
    );
    let types = schema(&[("known", None)]);
    assert_eq!(
        parse_arguments(tokens(&["=1"]), types),
        Err(ArgError::UnknownOption)
    );
}

#[test]
fn dashes_alone_name_no_option() {
    let types = schema(&[("known", None)]);
    assert_eq!(
        parse_arguments(tokens(&["--"]), types),
        Err(ArgError::UnknownOption)
    );
}

#[test]
fn empty_token_is_invalid() {
    let types = schema(&[("known", None)]);
    assert_eq!(
        parse_arguments(tokens(&[""]), types),
        Err(ArgError::InvalidToken)
    );
    let types = schema(&[("known", None)]);
    assert_eq!(
        parse_arguments(tokens(&["known", ""]), types),
        Err(ArgError::InvalidToken)
    );
}

#[test]
fn value_that_does_not_coerce_fails() {
    let types = schema(&[("n", Some("usize"))]);
    assert_eq!(
        parse_arguments(tokens(&["--n", "many"]), types),
        Err(ArgError::TypeCoercion)
    );
    let types = schema(&[("n", Some("usize"))]);
    assert_eq!(
        parse_arguments(tokens(&["--n=-1"]), types),
        Err(ArgError::TypeCoercion)
    );
    let types = schema(&[("n", Some("usize"))]);
    assert_eq!(
        parse_arguments(tokens(&["--n="]), types),
        Err(ArgError::TypeCoercion)
    );
}

#[test]
fn first_error_wins() {
    let types = schema(&[("n", Some("usize"))]);
    assert_eq!(
        parse_arguments(tokens(&["n=x", "other", "a=b=c"]), types),
        Err(ArgError::TypeCoercion)
    );
    let types = schema(&[("n", Some("usize"))]);
    assert_eq!(
        parse_arguments(tokens(&["a=b=c", "other", "n=x"]), types),
        Err(ArgError::MalformedEmbeddedArgument)
    );
}

#[test]
fn flag_never_takes_the_next_token() {
    let types = schema(&[("verbose", None), ("count", Some("usize"))]);
    assert_eq!(
        parse_arguments(tokens(&["--verbose", "--count=5"]), types),
        Ok(vec![
            Argument::SingleArgument(name("verbose")),
            Argument::PairedArgument(name("count"), ArgVal::ArgValUsize(5)),
        ])
    );
    let types = schema(&[("verbose", None)]);
    assert_eq!(
        parse_arguments(tokens(&["--verbose", "stray"]), types),
        Err(ArgError::UnknownOption)
    );
    let types = schema(&[("verbose", None)]);
    assert_eq!(
        parse_arguments(tokens(&["verbose=anything"]), types),
        Ok(vec![Argument::SingleArgument(name("verbose"))])
    );
}

#[test]
fn embedded_string_keeps_the_value_verbatim() {
    let types = schema(&[("path", Some("string"))]);
    assert_eq!(
        parse_arguments(tokens(&["---path=--a b", "path="]), types),
        Ok(vec![
            Argument::PairedArgument(name("path"), ArgVal::ArgValString(String::from("--a b"))),
            Argument::PairedArgument(name("path"), ArgVal::ArgValString(String::new())),
        ])
    );
}

#[test]
fn names_and_values_beyond_ascii() {
    let types = schema(&[("größe", Some("usize")), ("名前", Some("string"))]);
    assert_eq!(
        parse_arguments(tokens(&["--größe=12", "--名前", "値=1"]), types),
        Ok(vec![
            Argument::PairedArgument(name("größe"), ArgVal::ArgValUsize(12)),
            Argument::PairedArgument(name("名前"), ArgVal::ArgValString(String::from("値=1"))),
        ])
    );
}

#[test]
fn boolean_option_reads_true_and_false() {
    let mut types = ArgTypes::new();
    types.insert(name("force"), ArgType::ArgTypeBool);
    assert_eq!(
        parse_arguments(tokens(&["--force", "true", "--force=false"]), types),
        Ok(vec![
            Argument::PairedArgument(name("force"), ArgVal::ArgValBool(true)),
            Argument::PairedArgument(name("force"), ArgVal::ArgValBool(false)),
        ])
    );
    let mut types = ArgTypes::new();
    types.insert(name("force"), ArgType::ArgTypeBool);
    assert_eq!(
        parse_arguments(tokens(&["--force", "True"]), types),
        Err(ArgError::TypeCoercion)
    );
}

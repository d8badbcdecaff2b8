use sopipe::argument::Argument;
use sopipe::error::ErrorKind;
use sopipe::helper::{
    fit, is_given, list_len_at, number_at, parse_args, text_at, text_is, ArgParseError, Field,
    Kind,
};

fn schema() -> Vec<Field> {
    vec![
        Field::new("key", Kind::Str),
        Field::new("level", Kind::Int),
        Field::new("verbose", Kind::Flag),
        Field::new("outputs", Kind::List),
    ]
}

fn arg(name: &str, value: Argument) -> (String, Argument) {
    (name.to_string(), value)
}

#[test]
fn named_arguments_fill_the_fields_of_their_names() {
    let args = vec![
        arg("level", Argument::Int(3)),
        arg("key", Argument::String("k".to_string())),
    ];
    let values = parse_args(&args, &schema()).unwrap();
    assert_eq!(values.len(), 4);
    assert_eq!(text_at(&values, 0), Some(&"k".to_string()));
    assert_eq!(number_at(&values, 1), Some(3));
    assert!(!is_given(&values, 2));
    assert!(values[3].is_none());
}

#[test]
fn positional_arguments_fill_unused_fields_in_order() {
    let args = vec![
        arg("", Argument::String("k".to_string())),
        arg("outputs", Argument::Vec(vec![Argument::String(String::new())])),
        arg("", Argument::Int(9)),
    ];
    let values = parse_args(&args, &schema()).unwrap();
    assert_eq!(text_at(&values, 0), Some(&"k".to_string()));
    assert_eq!(number_at(&values, 1), Some(9));
    assert_eq!(list_len_at(&values, 3), Some(1));
}

#[test]
fn positional_arguments_skip_fields_named_later() {
    let args = vec![
        arg("", Argument::Int(5)),
        arg("key", Argument::String("k".to_string())),
    ];
    let values = parse_args(&args, &schema()).unwrap();
    assert_eq!(number_at(&values, 1), Some(5));
    assert_eq!(text_at(&values, 0), Some(&"k".to_string()));
}

#[test]
fn a_flag_that_is_named_is_set() {
    let args = vec![arg("verbose", Argument::Nil)];
    let values = parse_args(&args, &schema()).unwrap();
    assert!(is_given(&values, 2));
    assert!(!is_given(&values, 0));
    let none = parse_args(&[], &schema()).unwrap();
    assert!(!is_given(&none, 2));
}

#[test]
fn more_positional_arguments_than_fields_are_refused() {
    let args = vec![
        arg("", Argument::Int(1)),
        arg("", Argument::Int(2)),
        arg("", Argument::Int(3)),
        arg("", Argument::Int(4)),
        arg("", Argument::Int(5)),
    ];
    assert!(matches!(
        parse_args(&args, &schema()),
        Err(ArgParseError::TooManyPositionalArguments)
    ));
    let one = vec![Field::new("key", Kind::Str)];
    let args = vec![arg("", Argument::String("k".to_string())), arg("", Argument::Int(2))];
    assert!(matches!(parse_args(&args, &one), Err(ArgParseError::TooManyPositionalArguments)));
    assert!(matches!(
        parse_args(&[arg("", Argument::Nil)], &[]),
        Err(ArgParseError::TooManyPositionalArguments)
    ));
}

#[test]
fn more_arguments_than_fields_are_refused() {
    let args = vec![
        arg("", Argument::Int(1)),
        arg("", Argument::Int(2)),
        arg("level", Argument::Int(3)),
        arg("", Argument::Int(4)),
        arg("", Argument::Int(5)),
    ];
    match parse_args(&args, &schema()) {
        Err(ArgParseError::TooManyArguments { supplied, expected }) => {
            assert_eq!(supplied, 5);
            assert_eq!(expected, 4);
        }
        other => panic!("unexpected: {:?}", other),
    }
    let named = vec![
        arg("a", Argument::Int(1)),
        arg("b", Argument::Int(2)),
        arg("c", Argument::Int(3)),
        arg("d", Argument::Int(4)),
        arg("e", Argument::Int(5)),
    ];
    assert!(matches!(
        parse_args(&named, &schema()),
        Err(ArgParseError::TooManyArguments { supplied: 5, expected: 4 })
    ));
}

#[test]
fn a_value_of_the_wrong_kind_is_refused() {
    let args = vec![arg("level", Argument::String("high".to_string()))];
    match parse_args(&args, &schema()) {
        Err(ArgParseError::TypeError { supplied, expected }) => {
            assert_eq!(supplied, "string");
            assert_eq!(expected, "int");
        }
        other => panic!("unexpected: {:?}", other),
    }
    let args = vec![arg("verbose", Argument::Int(1))];
    match parse_args(&args, &schema()) {
        Err(ArgParseError::TypeError { supplied, expected }) => {
            assert_eq!(supplied, "int");
            assert_eq!(expected, "none");
        }
        other => panic!("unexpected: {:?}", other),
    }
    let args = vec![arg("", Argument::Vec(vec![]))];
    match parse_args(&args, &schema()) {
        Err(ArgParseError::TypeError { supplied, expected }) => {
            assert_eq!(supplied, "vec");
            assert_eq!(expected, "string");
        }
        other => panic!("unexpected: {:?}", other),
    }
}

#[test]
fn a_field_given_twice_is_refused() {
    let args = vec![arg("level", Argument::Int(1)), arg("level", Argument::Int(2))];
    match parse_args(&args, &schema()) {
        Err(ArgParseError::DeserializeError(text)) => assert_eq!(text, "duplicate field `level`"),
        other => panic!("unexpected: {:?}", other),
    }
}

#[test]
fn a_name_that_is_no_field_is_refused() {
    let args = vec![arg("colour", Argument::Int(1))];
    match parse_args(&args, &schema()) {
        Err(ArgParseError::DeserializeError(text)) => assert_eq!(text, "unknown field `colour`"),
        other => panic!("unexpected: {:?}", other),
    }
}

#[test]
fn the_first_fault_decides() {
    let args = vec![
        arg("level", Argument::Nil),
        arg("colour", Argument::Int(1)),
    ];
    assert!(matches!(parse_args(&args, &schema()), Err(ArgParseError::TypeError { .. })));
    let args = vec![
        arg("colour", Argument::Int(1)),
        arg("level", Argument::Nil),
    ];
    assert!(matches!(parse_args(&args, &schema()), Err(ArgParseError::DeserializeError(_))));
}

#[test]
fn any_takes_every_kind() {
    let fields = vec![Field::new("addr", Kind::Any)];
    for value in [
        Argument::Int(1),
        Argument::String("x".to_string()),
        Argument::Nil,
        Argument::Vec(vec![]),
    ] {
        let values = parse_args(&[arg("addr", value)], &fields).unwrap();
        assert!(is_given(&values, 0));
    }
}

#[test]
fn messages_of_parse_errors() {
    assert_eq!(
        ArgParseError::TypeError { supplied: "int", expected: "string" }.message(),
        "expecting string, received int"
    );
    assert_eq!(ArgParseError::UnsupportedType("f64").message(), "the type `f64` is not supported");
    assert_eq!(ArgParseError::Overflow("u8").message(), "the input number does not fit `u8`");
    assert_eq!(
        ArgParseError::DeserializeError("x".to_string()).message(),
        "deserialize error. msg: x"
    );
    assert_eq!(
        ArgParseError::TooManyArguments { supplied: 13, expected: 2 }.message(),
        "expecting 2 arguments, received 13"
    );
    assert_eq!(
        ArgParseError::TooManyPositionalArguments.message(),
        "too many positional arguments"
    );
    assert_eq!(ArgParseError::Unknown.message(), "unknown data store error");
}

#[test]
fn fit_reports_a_misuse() {
    let args = vec![arg("level", Argument::Nil)];
    let error = fit(&args, &schema()).unwrap_err();
    assert_eq!(error.kind(), ErrorKind::Misuse);
    assert_eq!(error.message(), "Misuse: expecting int, received none");
    assert!(fit(&[], &schema()).is_ok());
}

#[test]
fn getters_read_the_values() {
    let values = vec![
        Some(Argument::String("a".to_string())),
        Some(Argument::Int(4)),
        None,
        Some(Argument::Vec(vec![Argument::Nil, Argument::Nil])),
    ];
    assert_eq!(text_at(&values, 0), Some(&"a".to_string()));
    assert_eq!(text_at(&values, 1), None);
    assert_eq!(text_at(&values, 9), None);
    assert_eq!(number_at(&values, 1), Some(4));
    assert_eq!(number_at(&values, 0), None);
    assert_eq!(list_len_at(&values, 3), Some(2));
    assert_eq!(list_len_at(&values, 2), None);
    assert!(is_given(&values, 0));
    assert!(!is_given(&values, 2));
    assert!(!is_given(&values, 4));
    assert!(text_is(text_at(&values, 0), "a"));
    assert!(!text_is(text_at(&values, 0), "b"));
    assert!(!text_is(None, ""));
}

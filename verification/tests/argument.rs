use sopipe::argument::{copy_of, Argument};

#[test]
fn type_label_names_each_kind() {
    assert_eq!(Argument::String("x".to_string()).type_label(), "string");
    assert_eq!(Argument::Int(7).type_label(), "int");
    assert_eq!(Argument::Vec(vec![]).type_label(), "vec");
    assert_eq!(Argument::Nil.type_label(), "none");
}

#[test]
fn as_string_gives_text_only() {
    let text = Argument::String("abc".to_string());
    assert_eq!(text.as_string(), Some(&"abc".to_string()));
    assert!(Argument::Int(1).as_string().is_none());
    assert!(Argument::Nil.as_string().is_none());
    assert!(Argument::Vec(vec![]).as_string().is_none());
}

#[test]
fn as_int_gives_numbers_only() {
    assert_eq!(Argument::Int(u64::MAX).as_int(), Some(&u64::MAX));
    assert!(Argument::String("1".to_string()).as_int().is_none());
    assert!(Argument::Nil.as_int().is_none());
}

#[test]
fn as_vec_gives_lists_only() {
    let list = Argument::Vec(vec![Argument::Int(1), Argument::Nil]);
    let items = list.as_vec().unwrap();
    assert_eq!(items.len(), 2);
    assert_eq!(items[0].as_int(), Some(&1));
    assert!(items[1].is_none());
    assert!(Argument::Int(1).as_vec().is_none());
}

#[test]
fn is_none_holds_of_the_absent_value_only() {
    assert!(Argument::Nil.is_none());
    assert!(!Argument::Int(0).is_none());
    assert!(!Argument::String(String::new()).is_none());
    assert!(!Argument::Vec(vec![]).is_none());
}

#[test]
fn clone_is_deep() {
    let original = Argument::Vec(vec![
        Argument::String("a".to_string()),
        Argument::Vec(vec![Argument::Int(3)]),
    ]);
    let copy = original.clone();
    let other = copy_of(&original);
    for c in [copy, other] {
        let items = c.as_vec().unwrap();
        assert_eq!(items[0].as_string(), Some(&"a".to_string()));
        assert_eq!(items[1].as_vec().unwrap()[0].as_int(), Some(&3));
    }
}

#[test]
fn arguments_from_plain_values() {
    assert!(Argument::default().is_none());
    assert_eq!(Argument::from("x".to_string()).as_string(), Some(&"x".to_string()));
    assert_eq!(Argument::from(5u64).as_int(), Some(&5));
    let a: Argument = 7u64.into();
    assert_eq!(a.type_label(), "int");
}

use sopipe::metadata::MetaData;

#[test]
fn get_returns_what_was_set() {
    let mut m = MetaData::new();
    m.set("stream_type".to_string(), "TCP".to_string());
    m.set("destination_port".to_string(), 443u16);
    m.set("stream_id".to_string(), 7u64);
    assert_eq!(m.get::<String>("stream_type"), Some(&"TCP".to_string()));
    assert_eq!(m.get::<u16>("destination_port"), Some(&443));
    assert_eq!(m.get::<u64>("stream_id"), Some(&7));
    assert_eq!(m.get::<u64>("missing"), None);
}

#[test]
fn get_with_the_wrong_type_gives_nothing() {
    let mut m = MetaData::new();
    m.set("destination_port".to_string(), 443u16);
    assert_eq!(m.get::<String>("destination_port"), None);
    assert_eq!(m.get::<u64>("destination_port"), None);
    assert_eq!(m.get::<u16>("destination_port"), Some(&443));
}

#[test]
fn set_replaces_the_old_value() {
    let mut m = MetaData::new();
    m.set("k".to_string(), 1u64);
    m.set("k".to_string(), "text".to_string());
    assert_eq!(m.get::<u64>("k"), None);
    assert_eq!(m.get::<String>("k"), Some(&"text".to_string()));
}

#[test]
fn take_removes_the_value() {
    let mut m = MetaData::new();
    m.set("destination_addr".to_string(), "example.com".to_string());
    m.set("other".to_string(), 1u64);
    let taken = m.take::<String>("destination_addr");
    assert_eq!(taken.map(|b| *b), Some("example.com".to_string()));
    assert_eq!(m.get::<String>("destination_addr"), None);
    assert_eq!(m.take::<String>("destination_addr").map(|b| *b), None);
    assert_eq!(m.get::<u64>("other"), Some(&1));
}

#[test]
fn take_with_the_wrong_type_still_removes_the_key() {
    let mut m = MetaData::new();
    m.set("destination_port".to_string(), 80u16);
    assert!(m.take::<String>("destination_port").is_none());
    assert_eq!(m.get::<u16>("destination_port"), None);
}

#[test]
fn a_copy_shares_its_values() {
    let mut m = MetaData::new();
    m.set("destination_addr".to_string(), "example.com".to_string());
    let copy = m.clone();
    assert_eq!(copy.get::<String>("destination_addr"), Some(&"example.com".to_string()));
    // the value is held twice, so it is not handed out, and the key is gone
    assert!(m.take::<String>("destination_addr").is_none());
    assert_eq!(m.get::<String>("destination_addr"), None);
    assert_eq!(copy.get::<String>("destination_addr"), Some(&"example.com".to_string()));
    drop(m);
    let mut copy = copy;
    assert_eq!(
        copy.take::<String>("destination_addr").map(|b| *b),
        Some("example.com".to_string())
    );
}

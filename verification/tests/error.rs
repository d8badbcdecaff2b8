use sopipe::error::{Error, ErrorKind};

#[test]
fn constructors_set_the_kind() {
    assert_eq!(Error::misuse("m".to_string(), None).kind(), ErrorKind::Misuse);
    assert_eq!(Error::fatal("m".to_string(), None).kind(), ErrorKind::Fatal);
    assert_eq!(Error::non_fatal("m".to_string(), None).kind(), ErrorKind::NonFatal);
    assert_eq!(Error::misused("m").kind(), ErrorKind::Misuse);
}

#[test]
fn message_has_prefix_text_and_source() {
    assert_eq!(Error::misuse("bad type".to_string(), None).message(), "Misuse: bad type");
    assert_eq!(Error::fatal("broken".to_string(), None).message(), "Fatal: broken");
    assert_eq!(
        Error::non_fatal("stream failed: ".to_string(), Some("reset".to_string())).message(),
        "Error: stream failed: reset"
    );
    assert_eq!(Error::misused("x").msg(), "x");
}

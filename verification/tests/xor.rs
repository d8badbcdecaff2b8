use sopipe::argument::Argument;
use sopipe::xor::{create, Actor};

fn args(key: Option<&str>, outputs: usize) -> Vec<(String, Argument)> {
    let mut list = vec![];
    if let Some(key) = key {
        list.push(("key".to_string(), Argument::String(key.to_string())));
    }
    list.push(("function_name".to_string(), Argument::String("xor".to_string())));
    list.push((
        "outputs".to_string(),
        Argument::Vec((0..outputs).map(|_| Argument::String(String::new())).collect()),
    ));
    list
}

#[test]
fn bytes_are_mixed_with_the_key() {
    let actor = create(&args(Some("k"), 1)).unwrap();
    let mut count = 0;
    let mut frame = b"ping".to_vec();
    actor.xor(&mut count, &mut frame);
    assert_eq!(frame, vec![b'p' ^ b'k', b'i' ^ b'k', b'n' ^ b'k', b'g' ^ b'k']);
    assert_eq!(count, 0);
}

#[test]
fn mixing_twice_gives_the_stream_back() {
    let actor = Actor::new(b"secret".to_vec()).unwrap();
    let original = b"the quick brown fox jumps over the lazy dog".to_vec();
    let mut forward = 0;
    let mut backward = 0;
    let mut frame = original.clone();
    actor.xor(&mut forward, &mut frame);
    assert_ne!(frame, original);
    actor.xor(&mut backward, &mut frame);
    assert_eq!(frame, original);
    assert_eq!(forward, backward);
}

#[test]
fn the_key_goes_on_from_frame_to_frame() {
    let actor = Actor::new(vec![1, 2, 3]).unwrap();
    let mut count = 0;
    let mut first = vec![0, 0];
    let mut second = vec![0, 0, 0, 0, 0];
    actor.xor(&mut count, &mut first);
    assert_eq!(count, 2);
    actor.xor(&mut count, &mut second);
    assert_eq!(first, vec![1, 2]);
    assert_eq!(second, vec![3, 1, 2, 3, 1]);
    assert_eq!(count, 1);
    let mut empty = vec![];
    actor.xor(&mut count, &mut empty);
    assert_eq!(count, 1);
}

#[test]
fn create_needs_a_key_and_one_output() {
    assert_eq!(create(&args(None, 1)).unwrap_err().message(), "Misuse: xor needs a key");
    assert_eq!(create(&args(Some(""), 1)).unwrap_err().message(), "Misuse: xor needs a key");
    assert_eq!(
        create(&args(Some("k"), 0)).unwrap_err().message(),
        "Misuse: xor must have exactly 1 output"
    );
    assert_eq!(
        create(&args(Some("k"), 2)).unwrap_err().message(),
        "Misuse: xor must have exactly 1 output"
    );
    assert!(Actor::new(vec![]).is_none());
    let mut with_flag = args(Some("k"), 1);
    with_flag.insert(0, ("read_only".to_string(), Argument::Nil));
    assert!(create(&with_flag).is_ok());
}

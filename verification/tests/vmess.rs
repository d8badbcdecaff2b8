use sopipe::address::Addr;
use sopipe::argument::Argument;
use sopipe::vmess::{
    create, fnv1a, forward_handshake_msg, forward_msg, parse_uid, session_secrets, BufReader,
    Client, Received, Receiver, Stage, AES128CFB,
};

fn unhex(text: &str) -> Vec<u8> {
    (0..text.len() / 2).map(|i| u8::from_str_radix(&text[2 * i..2 * i + 2], 16).unwrap()).collect()
}

const UID: [u8; 16] = [
    0xde, 0x30, 0x5d, 0x54, 0x75, 0xb4, 0x43, 0x1b, 0xad, 0xb2, 0xeb, 0x6b, 0x9e, 0x54, 0x60, 0x14,
];

fn key() -> [u8; 16] {
    let mut k = [0u8; 16];
    for (i, b) in k.iter_mut().enumerate() {
        *b = i as u8;
    }
    k
}

fn iv() -> [u8; 16] {
    let mut k = [0u8; 16];
    for (i, b) in k.iter_mut().enumerate() {
        *b = 16 + i as u8;
    }
    k
}

#[test]
fn fnv1a_of_known_inputs() {
    assert_eq!(fnv1a(b""), 0x811c9dc5);
    assert_eq!(fnv1a(b"a"), 0xe40c292c);
    assert_eq!(fnv1a(b"foobar"), 0xbf9cf968);
    assert_eq!(fnv1a(b"hello"), 0x4f9f2cab);
}

#[test]
fn uid_is_read_with_and_without_hyphens() {
    assert_eq!(parse_uid("de305d54-75b4-431b-adb2-eb6b9e546014"), Some(UID));
    assert_eq!(parse_uid("DE305D5475B4431BADB2EB6B9E546014"), Some(UID));
    assert_eq!(parse_uid("de305d54-75b4-431b-adb2-eb6b9e546014ffff"), Some(UID));
    assert_eq!(parse_uid("de305d54-75b4-431b-adb2-eb6b9e5460"), None);
    assert_eq!(parse_uid("ge305d54-75b4-431b-adb2-eb6b9e546014"), None);
    assert_eq!(parse_uid(""), None);
}

#[test]
fn handshake_for_an_ipv4_target() {
    let msg = forward_handshake_msg(UID, Addr::V4([127, 0, 0, 1]), 443, key(), iv(), 1_700_000_000);
    assert_eq!(
        msg,
        unhex(
            "5e47a5ab744b87b3cbeffd8e6cbc906b152ba885ed79ede56aeda46032307f04a73dd195c981905e4d8a6b3e13b010566931c5b1cd5e202313be565079197b7128"
        )
    );
}

#[test]
fn handshake_for_a_domain() {
    let client = Client::new(UID);
    let msg =
        client.open_stream(Addr::Domain(b"example.com".to_vec()), 80, key(), iv(), 1_700_000_000);
    assert_eq!(
        msg,
        unhex(
            "5e47a5ab744b87b3cbeffd8e6cbc906b152ba885ed79ede56aeda46032307f04a73dd195c981905e4d8a6b3e13b010566931c5b1cd5e21c810ca332819bba8370f643377eb3755e002"
        )
    );
}

#[test]
fn chunks_of_the_data_stream() {
    let mut encoder = AES128CFB::new(key(), iv());
    assert_eq!(forward_msg(&mut encoder, b"hello"), unhex("07f7a0ebcd7e6b0bfc6281"));
    assert_eq!(forward_msg(&mut encoder, b"world!!"), unhex("1185991187816f6a891144c535"));
}

#[test]
fn decoding_gives_back_what_was_encoded() {
    let mut encoder = AES128CFB::new(key(), iv());
    let mut decoder = AES128CFB::new(key(), iv());
    let original: Vec<u8> = (0..100u8).collect();
    let mut first = original[..37].to_vec();
    let mut second = original[37..].to_vec();
    encoder.encode(&mut first);
    encoder.encode(&mut second);
    assert_ne!(first, original[..37].to_vec());
    let mut all = first;
    all.extend(second);
    decoder.decode(&mut all);
    assert_eq!(all, original);
}

#[test]
fn the_answers_of_the_server_are_read_in_stages() {
    let mut receiver = Receiver::new(&key(), &iv());
    let answer = unhex("a29d2b251f1132891fa459e7ce08f8ce");
    assert!(matches!(receiver.poll(), Received::NeedMore));
    receiver.feed(&answer[..3]);
    assert!(matches!(receiver.poll(), Received::NeedMore));
    receiver.feed(&answer[3..]);
    assert!(matches!(receiver.poll(), Received::Advanced));
    assert!(matches!(receiver.poll(), Received::Advanced));
    assert!(matches!(receiver.poll(), Received::Advanced));
    match receiver.poll() {
        Received::Data(data) => assert_eq!(data, b"pong".to_vec()),
        _ => panic!("a chunk should be complete"),
    }
    assert!(matches!(receiver.poll(), Received::NeedMore));
}

#[test]
fn an_answer_that_does_not_fit_fails() {
    let mut receiver = Receiver::new(&key(), &iv());
    let mut answer = unhex("a29d2b251f1132891fa459e7ce08f8ce");
    answer[0] ^= 1;
    receiver.feed(&answer);
    assert!(matches!(receiver.poll(), Received::Failed));
    assert!(matches!(receiver.poll(), Received::Failed));
    let mut receiver = Receiver::new(&key(), &iv());
    let mut answer = unhex("a29d2b251f1132891fa459e7ce08f8ce");
    let last = answer.len() - 1;
    answer[last] ^= 1;
    receiver.feed(&answer);
    assert!(matches!(receiver.poll(), Received::Advanced));
    assert!(matches!(receiver.poll(), Received::Advanced));
    assert!(matches!(receiver.poll(), Received::Advanced));
    assert!(matches!(receiver.poll(), Received::Failed));
}

#[test]
fn the_reader_hands_out_exact_counts() {
    let mut reader = BufReader::new();
    assert_eq!(reader.read_exact(1), None);
    assert_eq!(reader.take(), None);
    reader.feed(&[1, 2, 3]);
    assert_eq!(reader.read_exact(4), None);
    assert_eq!(reader.read_exact(2), Some(vec![1, 2]));
    reader.feed(&[4, 5]);
    assert_eq!(reader.read_exact(0), Some(vec![]));
    assert_eq!(reader.take(), Some(vec![3, 4, 5]));
    assert_eq!(reader.take(), None);
}

#[test]
fn stages_are_told_apart() {
    assert_ne!(Stage::Head, Stage::Length);
    assert_eq!(Stage::Command { len: 2 }, Stage::Command { len: 2 });
}

#[test]
fn session_secrets_have_the_right_size() {
    let (k, v) = session_secrets();
    assert_eq!(k.len(), 16);
    assert_eq!(v.len(), 16);
}

#[test]
fn create_reads_the_user() {
    let args = |uid: Option<&str>, outputs: usize| {
        let mut list = vec![];
        if let Some(uid) = uid {
            list.push(("user_id".to_string(), Argument::String(uid.to_string())));
        }
        list.push(("function_name".to_string(), Argument::String("vmess_client".to_string())));
        list.push((
            "outputs".to_string(),
            Argument::Vec((0..outputs).map(|_| Argument::String(String::new())).collect()),
        ));
        list
    };
    let client = create(&args(Some("de305d54-75b4-431b-adb2-eb6b9e546014"), 1)).unwrap();
    let msg = client.open_stream(Addr::V4([127, 0, 0, 1]), 443, key(), iv(), 1_700_000_000);
    assert_eq!(&msg[..16], &unhex("5e47a5ab744b87b3cbeffd8e6cbc906b")[..]);
    assert_eq!(
        create(&args(Some("xyz"), 1)).unwrap_err().message(),
        "Misuse: vmess needs a valid user_id"
    );
    assert_eq!(
        create(&args(None, 1)).unwrap_err().message(),
        "Misuse: vmess needs a valid user_id"
    );
    assert_eq!(
        create(&args(Some("de305d54-75b4-431b-adb2-eb6b9e546014"), 2)).unwrap_err().message(),
        "Misuse: vmess must have exactly 1 output"
    );
}

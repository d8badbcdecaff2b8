use sopipe::aead::{
    cipher_named, create, derive_key, Actor, Counter, Opened, Role, Unsealed, MAX_FRAME,
};
use sopipe::argument::Argument;
use sopipe::primitives::Cipher;

fn unhex(text: &str) -> Vec<u8> {
    (0..text.len() / 2).map(|i| u8::from_str_radix(&text[2 * i..2 * i + 2], 16).unwrap()).collect()
}

fn node(function: &str, algorithm: Option<&str>) -> Actor {
    create(&args(function, algorithm, 1)).unwrap()
}

fn args(function: &str, algorithm: Option<&str>, outputs: usize) -> Vec<(String, Argument)> {
    let mut list = vec![("".to_string(), Argument::String("secret".to_string()))];
    if let Some(algorithm) = algorithm {
        list.push(("algorithm".to_string(), Argument::String(algorithm.to_string())));
    }
    list.push(("function_name".to_string(), Argument::String(function.to_string())));
    list.push((
        "outputs".to_string(),
        Argument::Vec((0..outputs).map(|_| Argument::String(String::new())).collect()),
    ));
    list
}

#[test]
fn nonces_count_up() {
    let mut counter = Counter::new([9, 8, 7, 6]);
    assert_eq!(counter.advance(), Some([9, 8, 7, 6, 0, 0, 0, 0, 0, 0, 0, 0]));
    assert_eq!(counter.advance(), Some([9, 8, 7, 6, 0, 0, 0, 0, 0, 0, 0, 1]));
    for _ in 0..254 {
        counter.advance();
    }
    assert_eq!(counter.advance(), Some([9, 8, 7, 6, 0, 0, 0, 0, 0, 0, 1, 0]));
}

#[test]
fn frames_sealed_with_chacha20() {
    let actor = node("aead_encode", None);
    assert_eq!(actor.role(), Role::Encoder);
    let mut counter = Counter::new([9, 8, 7, 6]);
    assert_eq!(
        actor.encode(&mut counter, b"hello aead").unwrap(),
        unhex(
            "1c23b272beff786241055ede683394d09937ade73294a2497380d8fa403558ee429f426e5387982104aefb19"
        )
    );
    assert_eq!(counter.advance(), Some([9, 8, 7, 6, 0, 0, 0, 0, 0, 0, 0, 2]));
}

#[test]
fn frames_sealed_with_aes() {
    let mut counter = Counter::new([9, 8, 7, 6]);
    assert_eq!(
        node("aead_encode", Some("aes_128_gcm")).encode(&mut counter, b"hello aead").unwrap(),
        unhex(
            "66b6845ff33bc4ba26f39b0c79be89368a9cccd54d788b371ed187916a9273d007fb8f360f53dd1415e3a994"
        )
    );
    let mut counter = Counter::new([9, 8, 7, 6]);
    assert_eq!(
        node("aead_encode", Some("aes")).encode(&mut counter, b"hello aead").unwrap(),
        unhex(
            "47b71aaa626f1056cd077c26d110fd19b8d87c7743979683efe87d16bb0ad3d0d215e7565726794232fbb16d"
        )
    );
}

#[test]
fn the_name_of_the_algorithm_is_read_loosely() {
    let expected = unhex(
        "47b71aaa626f1056cd077c26d110fd19b8d87c7743979683efe87d16bb0ad3d0d215e7565726794232fbb16d",
    );
    for name in ["aes_gcm", "AES_256_GCM", "  Aes \n"] {
        let mut counter = Counter::new([9, 8, 7, 6]);
        assert_eq!(
            node("aead_encode", Some(name)).encode(&mut counter, b"hello aead").unwrap(),
            expected
        );
    }
    for name in ["chacha20", " ChaCha20_Poly1305", ""] {
        let mut counter = Counter::new([9, 8, 7, 6]);
        assert_eq!(
            node("aead_encode", Some(name)).encode(&mut counter, b"hello aead").unwrap().len(),
            44
        );
    }
    assert_eq!(
        create(&args("aead_encode", Some("rot13"), 1)).err().unwrap().message(),
        "Misuse: unknown cipher"
    );
}

#[test]
fn algorithms_by_name() {
    assert_eq!(cipher_named(""), Some(Cipher::ChaCha20Poly1305));
    assert_eq!(cipher_named("chacha20"), Some(Cipher::ChaCha20Poly1305));
    assert_eq!(cipher_named("chacha20_poly1305"), Some(Cipher::ChaCha20Poly1305));
    assert_eq!(cipher_named("aes_128_gcm"), Some(Cipher::Aes128Gcm));
    assert_eq!(cipher_named("aes"), Some(Cipher::Aes256Gcm));
    assert_eq!(cipher_named("aes_gcm"), Some(Cipher::Aes256Gcm));
    assert_eq!(cipher_named("aes_256_gcm"), Some(Cipher::Aes256Gcm));
    assert_eq!(cipher_named("AES"), None);
    assert_eq!(cipher_named(" aes"), None);
    assert_eq!(cipher_named("des"), None);
}

#[test]
fn what_was_sealed_opens_to_the_stream() {
    for algorithm in ["chacha20", "aes_128_gcm", "aes_256_gcm"] {
        let encoder = node("aead_encode", Some(algorithm));
        let decoder = node("aead_decode", Some(algorithm));
        assert_eq!(decoder.role(), Role::Decoder);
        let frames: Vec<Vec<u8>> =
            vec![b"a".to_vec(), vec![7; 1000], (0..=255).collect(), vec![0; MAX_FRAME]];
        let mut sealing = Counter::new([1, 2, 3, 4]);
        let mut stream = vec![];
        for frame in &frames {
            stream.extend(encoder.encode(&mut sealing, frame).unwrap());
        }
        let mut opening = Counter::new([1, 2, 3, 4]);
        let mut buffer: Vec<u8> = vec![];
        let mut opened = vec![];
        for piece in stream.chunks(700) {
            buffer.extend_from_slice(piece);
            loop {
                match decoder.decode(&mut opening, &buffer) {
                    Opened::NeedMore => break,
                    Opened::Frame { data, consumed } => {
                        opened.push(data);
                        buffer.drain(..consumed);
                    }
                    Opened::Failed => panic!("the stream should open"),
                }
            }
        }
        assert_eq!(opened, frames);
        assert!(buffer.is_empty());
    }
}

#[test]
fn a_changed_stream_does_not_open() {
    let encoder = node("aead_encode", None);
    let decoder = node("aead_decode", None);
    let mut sealing = Counter::new([1, 2, 3, 4]);
    let sealed = encoder.encode(&mut sealing, b"payload").unwrap();
    for at in [0, 17, 18, sealed.len() - 1] {
        let mut changed = sealed.clone();
        changed[at] ^= 0x80;
        let mut opening = Counter::new([1, 2, 3, 4]);
        assert!(matches!(decoder.decode(&mut opening, &changed), Opened::Failed));
    }
    let mut wrong_iv = Counter::new([1, 2, 3, 5]);
    assert!(matches!(decoder.decode(&mut wrong_iv, &sealed), Opened::Failed));
    let other = node("aead_decode", Some("aes"));
    let mut opening = Counter::new([1, 2, 3, 4]);
    assert!(matches!(other.decode(&mut opening, &sealed), Opened::Failed));
    let mut opening = Counter::new([1, 2, 3, 4]);
    assert!(matches!(decoder.decode(&mut opening, &sealed[..17]), Opened::NeedMore));
    assert!(matches!(
        decoder.decode(&mut opening, &sealed[..sealed.len() - 1]),
        Opened::NeedMore
    ));
    assert!(matches!(decoder.decode(&mut opening, &sealed), Opened::Frame { .. }));
}

#[test]
fn a_stream_starts_with_the_bytes_of_its_nonces() {
    assert!(Counter::from_stream(&[1, 2, 3]).is_none());
    let mut counter = Counter::from_stream(&[1, 2, 3, 4, 5]).unwrap();
    assert_eq!(counter.used(), 0);
    assert_eq!(counter.advance(), Some([1, 2, 3, 4, 0, 0, 0, 0, 0, 0, 0, 0]));
    assert_eq!(counter.used(), 1);
}

#[test]
fn frames_that_are_not_sent() {
    let encoder = node("aead_encode", None);
    let mut counter = Counter::new([0; 4]);
    assert_eq!(encoder.encode(&mut counter, &[]), Err(Unsealed::Empty));
    assert_eq!(encoder.encode(&mut counter, &vec![0; MAX_FRAME + 1]), Err(Unsealed::TooLong));
    assert_eq!(counter.advance(), Some([0; 12]));
}

#[test]
fn keys_have_the_length_of_the_algorithm() {
    assert_eq!(Cipher::ChaCha20Poly1305.key_len(), 32);
    assert_eq!(Cipher::Aes128Gcm.key_len(), 16);
    assert_eq!(Cipher::Aes256Gcm.key_len(), 32);
    assert_eq!(
        derive_key(Cipher::Aes256Gcm, b"sopipe_is_good", b"secret"),
        unhex("a56d3dfdeeb0303349f7c13a4d0312fcf0b025a3e34f8799babe1883b0905afb")
    );
    assert_eq!(
        derive_key(Cipher::Aes128Gcm, b"sopipe_is_good", b"secret"),
        unhex("a56d3dfdeeb0303349f7c13a4d0312fc")
    );
}

#[test]
fn create_refuses_misuse() {
    assert_eq!(
        create(&args("aead_encode", None, 0)).err().unwrap().message(),
        "Misuse: aead must have exactly 1 output"
    );
    assert_eq!(
        create(&args("aead", None, 1)).err().unwrap().message(),
        "Misuse: unknown function"
    );
    let no_key = vec![
        ("function_name".to_string(), Argument::String("aead_encode".to_string())),
        ("outputs".to_string(), Argument::Vec(vec![Argument::String(String::new())])),
    ];
    assert_eq!(create(&no_key).err().unwrap().message(), "Misuse: aead needs a key");
    assert!(Actor::fresh_iv().is_some());
}

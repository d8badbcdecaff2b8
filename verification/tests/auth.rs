use sopipe::argument::Argument;
use sopipe::auth::challenge;
use sopipe::auth::time::{self, Refusal, Verdict, HEADER_LEN};
use sopipe::auth::{create, derive_key, Actor};

fn unhex(text: &str) -> Vec<u8> {
    (0..text.len() / 2).map(|i| u8::from_str_radix(&text[2 * i..2 * i + 2], 16).unwrap()).collect()
}

fn args(function: &str, method: Option<&str>, salt: Option<&str>) -> Vec<(String, Argument)> {
    let mut list = vec![("key".to_string(), Argument::String("secret".to_string()))];
    if let Some(method) = method {
        list.push(("method".to_string(), Argument::String(method.to_string())));
    }
    if let Some(salt) = salt {
        list.push(("salt".to_string(), Argument::String(salt.to_string())));
    }
    list.push(("function_name".to_string(), Argument::String(function.to_string())));
    list.push(("outputs".to_string(), Argument::Vec(vec![Argument::String(String::new())])));
    list
}

const NOW: u64 = 1_700_000_000_000_000;

fn time_client() -> time::Client {
    match create(&args("auth_client", None, None)).unwrap() {
        Actor::TimeClient(c) => c,
        _ => panic!("a client by time was asked for"),
    }
}

fn time_server() -> time::Server {
    match create(&args("auth_server", Some("time"), None)).unwrap() {
        Actor::TimeServer(s) => s,
        _ => panic!("a server by time was asked for"),
    }
}

#[test]
fn the_key_is_derived_from_password_and_salt() {
    assert_eq!(
        derive_key(b"sopipe_is_good", b"secret"),
        unhex("a56d3dfdeeb0303349f7c13a4d0312fcf0b025a3e34f8799babe1883b0905afb")
    );
}

#[test]
fn hello_holds_the_time_and_its_tag() {
    assert_eq!(
        time_client().hello(NOW),
        unhex(
            "00060a24181e4000f7cf41500cf8a08494fde91795aff0003599e375f688a0eef12b4816dc4d1e45"
        )
    );
    let salted = match create(&args("auth_client", Some(""), Some("pepper"))).unwrap() {
        Actor::TimeClient(c) => c,
        _ => panic!("a client by time was asked for"),
    };
    assert_eq!(
        salted.hello(NOW),
        unhex(
            "00060a24181e4000c031025e18e368513cd39114904477f08a25fbe58d8ee8bc7281b927a2ce1d0b"
        )
    );
}

#[test]
fn a_client_with_the_key_is_admitted() {
    let mut hello = time_client().hello(NOW);
    hello.extend_from_slice(b"first bytes");
    let mut last = 0;
    match time_server().check(&hello, NOW + 1000, &mut last) {
        Verdict::Admitted { rest } => assert_eq!(rest, b"first bytes".to_vec()),
        _ => panic!("the client should be admitted"),
    }
    assert_eq!(last, NOW);
}

#[test]
fn the_same_time_stamp_is_refused_the_second_time() {
    let server = time_server();
    let hello = time_client().hello(NOW);
    let mut last = 0;
    assert!(matches!(server.check(&hello, NOW, &mut last), Verdict::Admitted { .. }));
    assert!(matches!(
        server.check(&hello, NOW, &mut last),
        Verdict::Refused(Refusal::Replayed)
    ));
    let earlier = time_client().hello(NOW - 1);
    assert!(matches!(
        server.check(&earlier, NOW, &mut last),
        Verdict::Refused(Refusal::Replayed)
    ));
    let later = time_client().hello(NOW + 1);
    assert!(matches!(server.check(&later, NOW, &mut last), Verdict::Admitted { .. }));
    assert_eq!(last, NOW + 1);
}

#[test]
fn time_stamps_outside_the_window_are_refused() {
    let server = time_server();
    let hello = time_client().hello(NOW);
    let mut last = 0;
    assert!(matches!(
        server.check(&hello, NOW + 5_000_001, &mut last),
        Verdict::Refused(Refusal::OutOfWindow)
    ));
    assert!(matches!(
        server.check(&hello, NOW - 1_000_001, &mut last),
        Verdict::Refused(Refusal::OutOfWindow)
    ));
    assert_eq!(last, 0);
    assert!(matches!(server.check(&hello, NOW + 5_000_000, &mut last), Verdict::Admitted { .. }));
    let mut last = 0;
    assert!(matches!(server.check(&hello, NOW - 1_000_000, &mut last), Verdict::Admitted { .. }));
}

#[test]
fn a_wrong_tag_is_refused_and_the_time_stamp_counts() {
    let server = time_server();
    let mut hello = time_client().hello(NOW);
    hello[20] ^= 1;
    let mut last = 0;
    assert!(matches!(server.check(&hello, NOW, &mut last), Verdict::Refused(Refusal::BadTag)));
    assert_eq!(last, NOW);
}

#[test]
fn a_short_header_waits() {
    let hello = time_client().hello(NOW);
    let mut last = 3;
    assert!(matches!(
        time_server().check(&hello[..HEADER_LEN - 1], NOW, &mut last),
        Verdict::NeedMore
    ));
    assert_eq!(last, 3);
}

#[test]
fn challenge_and_answer() {
    let client = match create(&args("auth_client", Some("challenge"), None)).unwrap() {
        Actor::ChallengeClient(c) => c,
        _ => panic!("a client by challenge was asked for"),
    };
    let server = match create(&args("auth_server", Some("challenge"), None)).unwrap() {
        Actor::ChallengeServer(s) => s,
        _ => panic!("a server by challenge was asked for"),
    };
    let fixed: Vec<u8> = (0..20).collect();
    match client.respond(&fixed) {
        challenge::Answer::Reply { tag } => assert_eq!(
            tag,
            unhex("06c35aef183c1717d275432712c085f69d4f952b2a65340cb63d43f30e617302")
        ),
        _ => panic!("the challenge is complete"),
    }
    assert!(matches!(client.respond(&fixed[..19]), challenge::Answer::NeedMore));
    let mut long = fixed.clone();
    long.push(0);
    assert!(matches!(client.respond(&long), challenge::Answer::ProtocolError));

    let nounce = server.challenge().unwrap();
    assert_eq!(nounce.len(), 20);
    let mut answer = match client.respond(&nounce) {
        challenge::Answer::Reply { tag } => tag,
        _ => panic!("the challenge is complete"),
    };
    assert!(matches!(server.check(&nounce, &answer[..31]), challenge::Verdict::NeedMore));
    answer.extend_from_slice(b"data");
    match server.check(&nounce, &answer) {
        challenge::Verdict::Admitted { rest } => assert_eq!(rest, b"data".to_vec()),
        _ => panic!("the client should be admitted"),
    }
    answer[0] ^= 1;
    assert!(matches!(server.check(&nounce, &answer), challenge::Verdict::Refused));
    let other = server.challenge().unwrap();
    assert_ne!(other, nounce);
}

#[test]
fn create_refuses_what_it_does_not_know() {
    assert_eq!(
        create(&args("auth_client", Some("password"), None)).err().unwrap().message(),
        "Misuse: unknown auth method. Available: time, challenge"
    );
    assert_eq!(
        create(&args("auth", None, None)).err().unwrap().message(),
        "Misuse: unknown auth method. Available: time, challenge"
    );
    let mut no_output = args("auth_client", None, None);
    no_output.pop();
    no_output.push(("outputs".to_string(), Argument::Vec(vec![])));
    assert_eq!(
        create(&no_output).err().unwrap().message(),
        "Misuse: auth must have exactly 1 output"
    );
    let no_key = vec![
        ("function_name".to_string(), Argument::String("auth_client".to_string())),
        ("outputs".to_string(), Argument::Vec(vec![Argument::String(String::new())])),
    ];
    assert_eq!(create(&no_key).err().unwrap().message(), "Misuse: auth needs a key");
}

use sopipe::address::Addr;
use sopipe::socks5::{read_greeting, read_request, Actor, Phase, Step};

#[test]
fn no_auth_connect_to_an_ipv4_target() {
    let mut session = Actor::new();
    assert_eq!(session.current_phase(), Phase::Greeting);
    match session.on_packet(&[5, 1, 0]) {
        Step::Select { reply } => assert_eq!(reply, vec![5, 0]),
        _ => panic!("the method should be selected"),
    }
    assert_eq!(session.current_phase(), Phase::Request);
    match session.on_packet(&[5, 1, 0, 1, 127, 0, 0, 1, 0, 9]) {
        Step::Connect { reply, addr, port, rest } => {
            assert_eq!(reply, vec![0x05, 0x00, 0x00, 0x01, 0x00, 0x00, 0x00, 0x00, 0x00, 0x00]);
            assert!(matches!(addr, Addr::V4([127, 0, 0, 1])));
            assert_eq!(port, 9);
            assert!(rest.is_empty());
        }
        _ => panic!("the request should be granted"),
    }
    assert_eq!(session.current_phase(), Phase::Relay);
    assert!(matches!(session.on_packet(b"payload"), Step::Forward));
}

#[test]
fn greeting_in_pieces() {
    let mut session = Actor::new();
    assert!(matches!(session.on_packet(&[5]), Step::Wait));
    assert!(matches!(session.on_packet(&[2, 1]), Step::Wait));
    assert!(matches!(session.on_packet(&[0]), Step::Select { .. }));
}

#[test]
fn greeting_with_a_wrong_version_closes() {
    let mut session = Actor::new();
    assert!(matches!(session.on_packet(&[71, 69, 84]), Step::Close));
    assert_eq!(session.current_phase(), Phase::Closed);
    assert!(matches!(session.on_packet(&[5, 1, 0]), Step::Close));
}

#[test]
fn greeting_without_no_auth_is_refused() {
    let mut session = Actor::new();
    match session.on_packet(&[5, 2, 1, 2]) {
        Step::Refuse { reply } => assert_eq!(reply, vec![5, 0xff]),
        _ => panic!("the greeting should be refused"),
    }
    assert_eq!(session.current_phase(), Phase::Closed);
}

#[test]
fn request_for_a_domain_with_payload_behind_it() {
    let mut request = vec![5, 1, 0, 3, 11];
    request.extend_from_slice(b"example.com");
    request.extend_from_slice(&[0x01, 0xbb]);
    request.extend_from_slice(b"GET /");
    match read_request(&request, 0) {
        Step::Connect { addr, port, rest, .. } => {
            match addr {
                Addr::Domain(name) => assert_eq!(name, b"example.com".to_vec()),
                _ => panic!("a domain was asked for"),
            }
            assert_eq!(port, 443);
            assert_eq!(rest, b"GET /".to_vec());
        }
        _ => panic!("the request should be granted"),
    }
    assert!(matches!(read_request(&request[..15], 0), Step::Wait));
    assert!(matches!(read_request(&request[..4], 0), Step::Wait));
}

#[test]
fn request_for_an_ipv6_target() {
    let mut request = vec![0xaa, 0xbb, 5, 1, 0, 4];
    let address: Vec<u8> = (1..=16).collect();
    request.extend_from_slice(&address);
    request.extend_from_slice(&[0xff, 0xfe]);
    match read_request(&request, 2) {
        Step::Connect { addr, port, rest, .. } => {
            match addr {
                Addr::V6(a) => assert_eq!(a.to_vec(), address),
                _ => panic!("an IPv6 address was asked for"),
            }
            assert_eq!(port, 0xfffe);
            assert!(rest.is_empty());
        }
        _ => panic!("the request should be granted"),
    }
}

#[test]
fn bad_requests_close() {
    assert!(matches!(read_request(&[4, 1, 0, 1, 1, 2, 3, 4, 0, 80], 0), Step::Close));
    assert!(matches!(read_request(&[5, 1, 0, 2, 1, 2, 3, 4, 0, 80], 0), Step::Close));
    // any command is taken
    assert!(matches!(read_request(&[5, 2, 0, 1, 1, 2, 3, 4, 0, 80], 0), Step::Connect { .. }));
}

#[test]
fn the_request_is_read_only_when_a_further_packet_has_come() {
    let mut session = Actor::new();
    let mut both = vec![5, 1, 0];
    both.extend_from_slice(&[5, 1, 0, 1, 10, 0, 0, 1, 0, 80]);
    assert!(matches!(session.on_packet(&both), Step::Select { .. }));
    match session.on_packet(&[]) {
        Step::Connect { port, .. } => assert_eq!(port, 80),
        _ => panic!("the request should be granted"),
    }
}

#[test]
fn greeting_lengths() {
    let (step, consumed) = read_greeting(&[5, 3, 9, 0, 8, 77]);
    assert!(matches!(step, Step::Select { .. }));
    assert_eq!(consumed, 5);
    let (step, _) = read_greeting(&[5, 0]);
    assert!(matches!(step, Step::Refuse { .. }));
}

use sopipe::argument::Argument;
use sopipe::endpoints::{TcpActor, TcpComponent, TcpInstance};
use sopipe::error::Error;
use sopipe::helper::Deserializer;
use sopipe::metadata::MetaData;
use sopipe::process;
use sopipe::runtime::{RunLevel, SourceStep};
use sopipe::stdio::{self, FuncName, SourcePlan};
use sopipe::tcp::{self, AfterAccept, Config, Destination};
use sopipe::throttle::{self, Budget, Verdict};
use sopipe::{discard, echo, http2, tee, udp};

fn text(s: &str) -> Argument {
    Argument::String(s.to_string())
}

fn outputs(n: usize) -> (String, Argument) {
    ("outputs".to_string(), Argument::Vec((0..n).map(|_| text("")).collect()))
}

fn function(name: &str) -> (String, Argument) {
    ("function_name".to_string(), text(name))
}

fn message<T>(r: Result<T, Error>) -> String {
    match r {
        Ok(_) => panic!("an error was expected"),
        Err(e) => e.message(),
    }
}

#[test]
fn plain_tcp_endpoints() {
    let component = TcpComponent;
    assert_eq!(
        component.create("forward", 1, Some(8080)),
        Some(TcpInstance::Forward { port: 8080 })
    );
    assert_eq!(component.create("backward", 0, None), Some(TcpInstance::Backward));
    assert_eq!(component.create("forward", 0, Some(8080)), None);
    assert_eq!(component.create("forward", 1, Some(65536)), None);
    assert_eq!(component.create("forward", 1, Some(-1)), None);
    assert_eq!(component.create("forward", 1, None), None);
    assert_eq!(component.create("backward", 1, None), None);
    assert_eq!(component.create("sideways", 0, None), None);
    assert_eq!(TcpActor {}, TcpActor {});
}

#[test]
fn the_cursor_walks_names_values_and_lists() {
    let args = vec![
        ("key".to_string(), text("k")),
        ("".to_string(), Argument::Vec(vec![Argument::Int(1), Argument::Int(2)])),
        ("flag".to_string(), Argument::Nil),
    ];
    let mut de = Deserializer::from_args(&args);
    assert!(!de.is_done());
    assert_eq!(de.next_key(), "key");
    assert_eq!(de.peek_next_value().as_string(), Some(&"k".to_string()));
    assert_eq!(de.next_value().as_string(), Some(&"k".to_string()));
    assert_eq!(de.next_key(), "");
    assert_eq!(de.enter_list(), Some(2));
    assert_eq!(de.peek_next_value().as_int(), Some(&1));
    assert_eq!(de.next_value().as_int(), Some(&1));
    assert_eq!(de.next_value().as_int(), Some(&2));
    de.leave_list();
    assert_eq!(de.next_key(), "flag");
    assert_eq!(de.enter_list(), None);
    assert!(de.next_value().is_none());
    assert!(de.is_done());
}

#[test]
fn tcp_address_and_port() {
    let config = |addr: Argument, port: Option<u16>| Config { addr, port, once: false, outputs: 0 };
    let pair = |c: Config| c.get_addr_and_port().ok().unwrap();
    assert_eq!(pair(config(text("::1"), Some(80))), (Some("::1".to_string()), Some(80)));
    assert_eq!(pair(config(Argument::Int(2222), None)), (None, Some(2222)));
    assert_eq!(pair(config(Argument::Int(2222), Some(80))), (None, Some(2222)));
    assert_eq!(pair(config(Argument::Int(65536 + 7), None)), (None, Some(7)));
    assert_eq!(pair(config(Argument::Nil, Some(443))), (None, Some(443)));
    assert_eq!(pair(config(Argument::Nil, None)), (None, None));
    assert_eq!(
        message(config(Argument::Vec(vec![]), None).get_addr_and_port()),
        "Misuse: wrong argument type"
    );
}

#[test]
fn tcp_nodes_from_arguments() {
    let actor = tcp::create(&[("".to_string(), Argument::Int(2222)), function("tcp"), outputs(1)])
        .ok()
        .unwrap();
    assert_eq!((actor.addr.clone(), actor.port, actor.has_output, actor.once), (None, Some(2222), true, false));
    assert!(actor.check_source().is_ok());
    assert_eq!(actor.bind_addr(), "::");
    assert_eq!(actor.after_accept(), AfterAccept::Listen);
    let actor = tcp::create(&[
        ("addr".to_string(), text("127.0.0.1")),
        ("port".to_string(), Argument::Int(80)),
        ("once".to_string(), Argument::Nil),
        function("tcp"),
        outputs(0),
    ])
    .ok()
    .unwrap();
    assert_eq!(actor.bind_addr(), "127.0.0.1");
    assert_eq!(actor.after_accept(), AfterAccept::Leave);
    assert_eq!(message(actor.check_source()), "Misuse: a tcp listener needs an output");
    assert_eq!(
        message(tcp::create(&[function("tcp"), outputs(2)])),
        "Misuse: tcp can only accept one output"
    );
    assert_eq!(
        message(tcp::create(&[("port".to_string(), Argument::Int(65536)), function("tcp"), outputs(0)])),
        "Misuse: the input number does not fit `u16`"
    );
    assert_eq!(
        message(tcp::create(&[("".to_string(), Argument::Vec(vec![])), function("tcp"), outputs(0)])),
        "Misuse: wrong argument type"
    );
    assert_eq!(message(tcp::create(&[function("tcp")])), "Misuse: missing field `outputs`");
}

#[test]
fn the_destination_of_a_stream() {
    let own = tcp::create(&[("".to_string(), text("example:80")), function("tcp"), outputs(0)])
        .ok()
        .unwrap();
    let open = tcp::create(&[function("tcp"), outputs(0)]).ok().unwrap();
    let show = |d: Destination| (d.addr, d.port);
    assert_eq!(show(own.resolve(None, None).ok().unwrap()), ("example:80".to_string(), None));
    assert_eq!(
        show(open.resolve(Some("10.0.0.1".to_string()), Some(9)).ok().unwrap()),
        ("10.0.0.1".to_string(), Some(9))
    );
    assert_eq!(
        message(own.resolve(Some("10.0.0.1".to_string()), Some(9))),
        "Misuse: The stream already contains destination information"
    );
    assert_eq!(message(open.resolve(None, None)), "Misuse: no destination address");
    assert_eq!(message(open.resolve(None, Some(9))), "Misuse: no destination address");
    let listener = tcp::create(&[("".to_string(), Argument::Int(1)), function("tcp"), outputs(1)])
        .ok()
        .unwrap();
    assert_eq!(
        message(listener.resolve(None, None)),
        "Misuse: a tcp node with an output cannot take a stream"
    );

    let mut metadata = MetaData::new();
    metadata.set("destination_addr".to_string(), "127.0.0.1".to_string());
    metadata.set("destination_port".to_string(), 9u16);
    metadata.set("stream_id".to_string(), 1u64);
    assert_eq!(
        show(open.destination(&mut metadata).ok().unwrap()),
        ("127.0.0.1".to_string(), Some(9))
    );
    assert_eq!(metadata.get::<String>("destination_addr"), None);
    assert_eq!(metadata.get::<u16>("destination_port"), None);
    assert_eq!(metadata.get::<u64>("stream_id"), Some(&1));
}

#[test]
fn listeners_follow_the_level() {
    let actor = tcp::create(&[("".to_string(), Argument::Int(1)), function("tcp"), outputs(1)])
        .ok()
        .unwrap();
    assert_eq!(actor.listen_step(RunLevel::Init, false), SourceStep::Sleep(20));
    assert_eq!(actor.listen_step(RunLevel::Run, false), SourceStep::Accept(1000));
    assert_eq!(actor.listen_step(RunLevel::Shut, true), SourceStep::Exit);
    let socket = udp::create(&[("".to_string(), Argument::Int(53)), function("udp"), outputs(1)])
        .ok()
        .unwrap();
    assert_eq!(socket.listen_step(RunLevel::Shut, false), SourceStep::Exit);
    assert_eq!(socket.listen_step(RunLevel::Run, true), SourceStep::Accept(1000));
    assert!(socket.has_output());
    assert_eq!(socket.port(), Some(53));
    assert_eq!(socket.bind_addr(), "::");
    assert_eq!(udp::IDLE_TIMEOUT, 5000);
}

#[test]
fn metadata_of_accepted_streams() {
    let m = tcp::stream_metadata("TCP", "10.1.2.3:4000".to_string(), 12);
    assert_eq!(m.get::<String>("stream_type"), Some(&"TCP".to_string()));
    assert_eq!(m.get::<String>("origin_addr"), Some(&"10.1.2.3:4000".to_string()));
    assert_eq!(m.get::<u64>("stream_id"), Some(&12));
    let m = udp::stream_metadata();
    assert_eq!(m.get::<String>("stream_type"), Some(&"UDP".to_string()));
    assert_eq!(m.get::<String>("origin_addr"), None);
}

#[test]
fn udp_nodes_from_arguments() {
    let sender = udp::create(&[("".to_string(), text("h:53")), function("udp"), outputs(0)])
        .ok()
        .unwrap();
    let d = sender.resolve(None, None).ok().unwrap();
    assert_eq!((d.addr, d.port), ("h:53".to_string(), None));
    assert_eq!(
        message(udp::create(&[function("udp"), outputs(3)])),
        "Misuse: tcp can only accept one output"
    );
    assert_eq!(
        message(udp::create(&[("once".to_string(), Argument::Nil), function("udp"), outputs(0)])),
        "Misuse: deserialize error. msg: unknown field `once`"
    );
}

#[test]
fn stdio_nodes() {
    let make = |name: &str, n: usize| stdio::create(&[function(name), outputs(n)]);
    let stdin = make("stdin", 1).ok().unwrap();
    assert_eq!(stdin.func, FuncName::STDIN);
    assert_eq!(stdin.buffer_size, 1024);
    assert!(!stdin.no_flush);
    assert_eq!(stdin.check_source().ok(), Some(SourcePlan::Piped));
    assert_eq!(make("stdio", 0).ok().unwrap().check_source().ok(), Some(SourcePlan::Echo));
    assert_eq!(
        message(make("stdout", 0).ok().unwrap().check_source()),
        "Misuse: stdout cannot be a source"
    );
    assert!(make("stdout", 0).ok().unwrap().check_sink().is_ok());
    assert_eq!(
        message(make("stdin", 0).ok().unwrap().check_sink()),
        "Misuse: sink node can only be stdout"
    );
    assert_eq!(
        message(make("stdout", 1).ok().unwrap().check_sink()),
        "Misuse: stdout takes no output"
    );
    assert_eq!(message(make("stdout", 2)), "Misuse: too many outputs");
    assert_eq!(message(make("stderr", 0)), "Misuse: unknown function");
    let quiet =
        stdio::create(&[("no_flush".to_string(), Argument::Nil), function("stdout"), outputs(0)])
            .ok()
            .unwrap();
    assert!(quiet.no_flush);
}

#[test]
fn exec_nodes() {
    let actor = process::create(&[
        ("".to_string(), text("grep")),
        ("".to_string(), text("-v")),
        function("exec"),
        ("".to_string(), text("x")),
        outputs(0),
    ])
    .ok()
    .unwrap();
    assert_eq!(actor.args, vec!["grep".to_string(), "-v".to_string(), "x".to_string()]);
    assert!(!actor.has_output);
    assert_eq!(actor.program(), Some(&"grep".to_string()));
    assert!(actor.check(false).is_ok());
    assert_eq!(message(actor.check(true)), "Misuse: exec is wired the wrong way");
    let bare = process::create(&[function("exec"), outputs(1)]).ok().unwrap();
    assert_eq!(bare.program(), None);
    assert!(bare.has_output);
    assert_eq!(
        message(process::create(&[("".to_string(), Argument::Int(1)), outputs(0)])),
        "Misuse: wrong argument type"
    );
    assert_eq!(
        message(process::create(&[("cwd".to_string(), text("/")), outputs(0)])),
        "Misuse: wrong argument"
    );
    assert_eq!(
        message(process::create(&[("outputs".to_string(), Argument::Int(0))])),
        "Misuse: wrong argument type"
    );
    assert_eq!(message(process::create(&[function("exec")])), "Misuse: too many outputs");
    assert_eq!(message(process::create(&[outputs(2)])), "Misuse: too many outputs");
}

#[test]
fn http2_nodes() {
    let actor = http2::create(&[("".to_string(), text("example.com")), function("http2_client"), outputs(0)])
        .ok()
        .unwrap();
    assert_eq!((actor.domain.as_str(), actor.path.as_str(), actor.port), ("example.com", "/", 443));
    let actor = http2::create(&[
        ("domain".to_string(), text("example.com")),
        ("path".to_string(), text("tunnel/a")),
        ("port".to_string(), Argument::Int(8443)),
    ])
    .ok()
    .unwrap();
    assert_eq!((actor.path.as_str(), actor.port), ("/tunnel/a", 8443));
    let actor = http2::Actor::new("d".to_string(), "/x".to_string(), 0);
    assert_eq!((actor.path.as_str(), actor.port), ("/x", 443));
    assert_eq!(message(http2::create(&[outputs(0)])), "Misuse: missing field `domain`");
    assert_eq!(
        message(http2::create(&[
            ("".to_string(), text("d")),
            ("port".to_string(), Argument::Int(70000))
        ])),
        "Misuse: the input number does not fit `u16`"
    );
}

#[test]
fn throttle_nodes() {
    let actor = throttle::create(&[
        ("size".to_string(), Argument::Int(100)),
        ("n_packets".to_string(), Argument::Int(2)),
        ("drop_rate".to_string(), Argument::Int(10)),
        function("throttle"),
        outputs(1),
    ])
    .ok()
    .unwrap();
    assert_eq!(actor.interval, 1000);
    assert_eq!(actor.drop_rate, Some(10));
    assert_eq!(actor.budget, Budget { size: Some(100), n_packets: Some(2) });
    let mut left = actor.budget;
    assert_eq!(actor.throttle(&mut left, false, false, 40), Verdict::Send { waits: 0 });
    assert_eq!(left, Budget { size: Some(60), n_packets: Some(1) });
    assert_eq!(actor.throttle(&mut left, false, true, 40), Verdict::Drop);
    assert_eq!(left, Budget { size: Some(60), n_packets: Some(1) });
    assert_eq!(actor.throttle(&mut left, false, false, 70), Verdict::Send { waits: 1 });
    assert_eq!(left, actor.budget);
    assert_eq!(actor.throttle(&mut left, false, false, 10), Verdict::Send { waits: 0 });
    assert_eq!(actor.throttle(&mut left, false, false, 10), Verdict::Send { waits: 0 });
    assert_eq!(left, Budget { size: Some(80), n_packets: Some(0) });
    assert_eq!(actor.throttle(&mut left, false, false, 10), Verdict::Send { waits: 1 });
    assert_eq!(left, Budget { size: Some(90), n_packets: Some(2) });
    assert_eq!(actor.throttle(&mut left, true, false, 10), Verdict::Send { waits: 0 });
    assert_eq!(left, Budget { size: Some(90), n_packets: Some(1) });
    let mut spent = Budget { size: Some(5), n_packets: Some(0) };
    assert_eq!(actor.throttle(&mut spent, false, false, 101), Verdict::Send { waits: 2 });
    assert_eq!(spent, actor.budget);
    let free = throttle::create(&[
        ("interval".to_string(), Argument::Int(50)),
        function("throttle"),
        outputs(1),
    ])
    .ok()
    .unwrap();
    assert_eq!(free.interval, 50);
    let mut none = free.budget;
    assert_eq!(free.throttle(&mut none, false, false, 1 << 40), Verdict::Send { waits: 0 });
    assert_eq!(
        message(throttle::create(&[function("throttle"), outputs(0)])),
        "Misuse: throttle must have exactly 1 output"
    );
    assert_eq!(
        message(throttle::create(&[
            ("size".to_string(), Argument::Int(1 << 63)),
            function("throttle"),
            outputs(1)
        ])),
        "Misuse: the input number does not fit `i64`"
    );
}

#[test]
fn tee_echo_and_drop_nodes() {
    assert_eq!(tee::create(&[function("tee"), outputs(3)]).ok().unwrap().outputs(), 3);
    assert_eq!(message(tee::create(&[function("tee"), outputs(0)])), "Misuse: tee needs an output");
    assert_eq!(message(tee::create(&[function("tee")])), "Misuse: tee needs an output");
    assert_eq!(tee::count_outputs(&[outputs(2), outputs(5)]), Some(2));
    assert_eq!(tee::count_outputs(&[("outputs".to_string(), Argument::Int(1))]), None);
    assert!(echo::create(&[function("echo"), outputs(0)]).is_ok());
    assert_eq!(
        message(echo::create(&[function("echo"), outputs(1)])),
        "Misuse: echo takes no output"
    );
    assert!(discard::create(&[]).is_ok());
    assert!(discard::create(&[("anything".to_string(), Argument::Int(1)), outputs(4)]).is_ok());
}

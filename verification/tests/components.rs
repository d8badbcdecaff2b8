use sopipe::components::{all, banner, load_script, Actor, Component, LoadError, Registry};
use sopipe::lexer::CompileError;
use sopipe::runtime::{source_nodes, spawn_next};
use sopipe::{
    aead, auth, balance, discard, echo, http2, miniz, process, socks5, stdio, tcp, tee, throttle,
    udp, vmess, xor,
};

#[test]
fn the_stock_components() {
    let names: Vec<&str> = all().iter().map(|c| c.name()).collect();
    assert_eq!(
        names,
        vec![
            "aead", "auth", "balance", "drop", "echo", "exec", "http2", "miniz", "socks5",
            "stdio", "tcp", "tee", "throttle", "udp", "vmess", "xor"
        ]
    );
    assert_eq!(Component::Aead.functions(), vec!["aead_encode", "aead_decode"]);
    assert_eq!(Component::Stdio.functions(), vec!["stdin", "stdout", "stdio"]);
    assert_eq!(Component::Miniz.functions(), vec!["deflate", "inflate"]);
    assert_eq!(Component::Vmess.functions(), vec!["vmess_client"]);
    assert_eq!(Component::Http2.functions(), vec!["http2_client"]);
}

#[test]
fn init_gives_each_component() {
    assert_eq!(
        vec![
            aead::init(),
            auth::init(),
            balance::init(),
            discard::init(),
            echo::init(),
            process::init(),
            http2::init(),
            miniz::init(),
            socks5::init(),
            stdio::init(),
            tcp::init(),
            tee::init(),
            throttle::init(),
            udp::init(),
            vmess::init(),
            xor::init(),
        ],
        all()
    );
}

#[test]
fn the_banner_lists_the_components() {
    assert_eq!(banner("0.1.0", &[]), "Sopipe 0.1.0");
    assert_eq!(
        banner("0.1.0", &[Component::Tcp, Component::Echo, Component::Xor]),
        "Sopipe 0.1.0 tcp echo xor"
    );
    assert_eq!(banner("", &[Component::Drop]), "Sopipe  drop");
}

#[test]
fn the_registry_finds_the_owner_of_a_function() {
    let registry = Registry::new(&all());
    assert_eq!(registry.find(&"inflate".to_string()), Some(Component::Miniz));
    assert_eq!(registry.find(&"stdio".to_string()), Some(Component::Stdio));
    assert_eq!(registry.find(&"socks5_client".to_string()), Some(Component::Socks5));
    assert_eq!(registry.find(&"nothing".to_string()), None);
    let names = registry.names();
    assert_eq!(names.len(), 22);
    assert_eq!(names[0], "aead_encode");
    assert_eq!(names[21], "xor");
    let few = Registry::new(&[Component::Echo]);
    assert_eq!(few.names(), vec!["echo".to_string()]);
    assert_eq!(few.find(&"tcp".to_string()), None);
}

#[test]
fn tcp_to_echo_is_loaded() {
    let nodes = match load_script("tcp(2222) => echo", &all()) {
        Ok(nodes) => nodes,
        Err(_) => panic!("the script should load"),
    };
    assert_eq!(nodes.len(), 2);
    match &nodes[0].forward_actor {
        Actor::Tcp(actor) => {
            assert_eq!(actor.port, Some(2222));
            assert_eq!(actor.addr, None);
            assert!(actor.has_output);
            assert!(!actor.once);
        }
        _ => panic!("the first node is a tcp node"),
    }
    assert!(matches!(nodes[1].forward_actor, Actor::Echo(_)));
    assert!(nodes[0].is_symmetric() && nodes[1].is_symmetric());
    assert_eq!(nodes[0].outputs, vec![1]);
    assert_eq!(source_nodes(&nodes), vec![0]);
    let plan = spawn_next(&nodes, 0, 0, false).unwrap();
    assert_eq!(plan.target, 1);
    assert!(plan.composites.is_empty());
}

#[test]
fn stdin_to_stdout_is_loaded() {
    let nodes = match load_script("stdin => stdout", &all()) {
        Ok(nodes) => nodes,
        Err(_) => panic!("the script should load"),
    };
    match (&nodes[0].forward_actor, &nodes[1].forward_actor) {
        (Actor::Stdio(first), Actor::Stdio(second)) => {
            assert_eq!(first.func, stdio::FuncName::STDIN);
            assert!(first.has_output);
            assert_eq!(second.func, stdio::FuncName::STDOUT);
            assert!(!second.has_output);
            assert!(first.check_source().is_ok());
            assert!(second.check_sink().is_ok());
        }
        _ => panic!("both nodes are stdio nodes"),
    }
}

#[test]
fn a_proxy_chain_is_loaded() {
    let script = "tcp(2222) => xor(key: \"k\") => tcp(\"example:80\")";
    let nodes = match load_script(script, &all()) {
        Ok(nodes) => nodes,
        Err(_) => panic!("the script should load"),
    };
    assert_eq!(nodes.len(), 3);
    assert!(matches!(nodes[1].forward_actor, Actor::Xor(_)));
    match &nodes[2].forward_actor {
        Actor::Tcp(actor) => {
            assert_eq!(actor.addr, Some("example:80".to_string()));
            assert!(!actor.has_output);
        }
        _ => panic!("the last node is a tcp node"),
    }
    let script = "tcp(2222) => socks5_server => tcp()";
    let nodes = match load_script(script, &all()) {
        Ok(nodes) => nodes,
        Err(_) => panic!("the script should load"),
    };
    assert!(matches!(nodes[1].forward_actor, Actor::Socks5));
}

#[test]
fn a_balancer_with_three_downstreams_is_loaded() {
    let script = "tcp(2222) => balance(=> tcp(\"a:1\"), => tcp(\"b:1\"), => tcp(\"c:1\"))";
    let nodes = match load_script(script, &all()) {
        Ok(nodes) => nodes,
        Err(_) => panic!("the script should load"),
    };
    assert_eq!(nodes.len(), 5);
    assert_eq!(nodes[1].outputs, vec![2, 3, 4]);
    let balancer = match &nodes[1].forward_actor {
        Actor::Balance(actor) => actor,
        _ => panic!("the second node is a balancer"),
    };
    let mut count = 0;
    let targets: Vec<usize> = (0..6)
        .map(|_| {
            let index = balancer.next(&mut count);
            spawn_next(&nodes, 1, index, false).unwrap().target
        })
        .collect();
    assert_eq!(targets, vec![2, 3, 4, 2, 3, 4]);
}

#[test]
fn a_composite_gets_two_actors() {
    let script = "tcp(1) => deflate(level: 9) !! inflate => tcp(\"x:1\")";
    let nodes = match load_script(script, &all()) {
        Ok(nodes) => nodes,
        Err(_) => panic!("the script should load"),
    };
    assert!(!nodes[1].is_symmetric());
    match (&nodes[1].forward_actor, &nodes[1].backward_actor) {
        (Actor::Miniz(forward), Some(Actor::Miniz(backward))) => {
            assert_eq!(forward.role, miniz::Role::Encoder);
            assert_eq!(forward.level, 9);
            assert_eq!(backward.role, miniz::Role::Decoder);
        }
        _ => panic!("the composite holds two miniz actors"),
    }
    let plan = spawn_next(&nodes, 0, 0, false).unwrap();
    assert_eq!(plan.composites, vec![1]);
    assert_eq!(plan.target, 2);
}

#[test]
fn scripts_that_are_refused() {
    match load_script("tcp(2222) => nothing", &all()) {
        Err(LoadError::Compile(e)) => assert_eq!(e, CompileError::UndefinedIdentifier { at: 5 }),
        _ => panic!("the script should be refused"),
    }
    match load_script("tcp(1) => xor => tcp(\"x:1\")", &all()) {
        Err(LoadError::Create { node, error }) => {
            assert_eq!(node, 1);
            assert_eq!(error.message(), "Misuse: xor needs a key");
        }
        _ => panic!("the node should be refused"),
    }
    match load_script("tcp(port: \"http\") => echo", &all()) {
        Err(LoadError::Create { node, error }) => {
            assert_eq!(node, 0);
            assert_eq!(error.message(), "Misuse: expecting int, received string");
        }
        _ => panic!("the node should be refused"),
    }
    match load_script("tcp(1) => deflate !! inflate(level: 300) => echo", &all()) {
        Err(LoadError::Create { node, error }) => {
            assert_eq!(node, 1);
            assert_eq!(error.message(), "Misuse: the input number does not fit `u8`");
        }
        _ => panic!("the node should be refused"),
    }
    match load_script("tcp(1) => echo", &[Component::Echo]) {
        Err(LoadError::Compile(e)) => assert_eq!(e, CompileError::UndefinedIdentifier { at: 0 }),
        _ => panic!("the script should be refused"),
    }
}

#[test]
fn each_component_makes_its_actor() {
    let script = "stdin => tee(=> drop, => aead_encode(\"k\") => auth_client(\"k\") => \
                  throttle(n_packets: 3) => vmess_client(\"de305d54-75b4-431b-adb2-eb6b9e546014\") \
                  => http2_client(\"example.com\"), => udp(\"h:53\"), => exec(\"cat\"))";
    let nodes = match load_script(script, &all()) {
        Ok(nodes) => nodes,
        Err(_) => panic!("the script should load"),
    };
    let kinds: Vec<&str> = nodes
        .iter()
        .map(|n| match &n.forward_actor {
            Actor::Aead(_) => "aead",
            Actor::Auth(_) => "auth",
            Actor::Balance(_) => "balance",
            Actor::Drop(_) => "drop",
            Actor::Echo(_) => "echo",
            Actor::Exec(_) => "exec",
            Actor::Http2(_) => "http2",
            Actor::Miniz(_) => "miniz",
            Actor::Socks5 => "socks5",
            Actor::Stdio(_) => "stdio",
            Actor::Tcp(_) => "tcp",
            Actor::Tee(_) => "tee",
            Actor::Throttle(_) => "throttle",
            Actor::Udp(_) => "udp",
            Actor::Vmess(_) => "vmess",
            Actor::Xor(_) => "xor",
        })
        .collect();
    assert_eq!(
        kinds,
        vec!["stdio", "tee", "drop", "aead", "auth", "throttle", "vmess", "http2", "udp", "exec"]
    );
    assert_eq!(nodes[1].outputs, vec![2, 3, 8, 9]);
    assert_eq!(source_nodes(&nodes), vec![0]);
}

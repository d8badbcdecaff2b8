use sopipe::runtime::{
    all_idle, on_interrupt, pass, source_nodes, source_step, spawn_error, spawn_next, Counter,
    Interrupt, Node, PassEvent, PassStep, RunLevel, SourceStep, SpawnFault, ACCEPT_TIMEOUT,
    CHANNEL_CAPACITY, IDLE_PAUSE, INIT_PAUSE, QUIESCENCE,
};

fn node(composite: bool, outputs: &[usize]) -> Node<u8> {
    Node::new(1, if composite { Some(2) } else { None }, outputs.to_vec())
}

#[test]
fn run_levels_and_their_bytes() {
    for level in [RunLevel::Init, RunLevel::Run, RunLevel::Shut] {
        assert_eq!(RunLevel::from_u8(level.to_u8()), Some(level));
    }
    assert_eq!(RunLevel::Init.to_u8(), 0);
    assert_eq!(RunLevel::Run.to_u8(), 1);
    assert_eq!(RunLevel::Shut.to_u8(), 2);
    assert_eq!(RunLevel::from_u8(3), None);
    assert_eq!(RunLevel::from_u8(255), None);
}

#[test]
fn the_level_only_moves_on() {
    assert_eq!(RunLevel::Init.started(), RunLevel::Run);
    assert_eq!(RunLevel::Run.started(), RunLevel::Run);
    assert_eq!(RunLevel::Shut.started(), RunLevel::Shut);
    assert_eq!(on_interrupt(RunLevel::Init), (RunLevel::Shut, Interrupt::ShutDown));
    assert_eq!(on_interrupt(RunLevel::Run), (RunLevel::Shut, Interrupt::ShutDown));
    assert_eq!(on_interrupt(RunLevel::Shut), (RunLevel::Shut, Interrupt::Abort(1)));
}

#[test]
fn a_source_follows_the_level() {
    assert_eq!(source_step(RunLevel::Init, false), SourceStep::Sleep(20));
    assert_eq!(source_step(RunLevel::Init, true), SourceStep::Exit);
    assert_eq!(source_step(RunLevel::Run, false), SourceStep::Accept(1000));
    assert_eq!(source_step(RunLevel::Run, true), SourceStep::Accept(1000));
    assert_eq!(source_step(RunLevel::Shut, false), SourceStep::Exit);
    assert_eq!(source_step(RunLevel::Shut, true), SourceStep::Exit);
    assert_eq!(INIT_PAUSE, 20);
    assert_eq!(ACCEPT_TIMEOUT, 1000);
    assert_eq!(QUIESCENCE, 200);
    assert_eq!(IDLE_PAUSE, 20);
    assert_eq!(CHANNEL_CAPACITY, 4);
}

#[test]
fn sources_are_the_nodes_that_nothing_points_to() {
    let nodes =
        vec![node(false, &[1]), node(false, &[2, 3]), node(false, &[]), node(false, &[2]), node(false, &[0])];
    assert_eq!(source_nodes(&nodes), vec![4]);
    let nodes = vec![node(false, &[2]), node(false, &[2]), node(false, &[])];
    assert_eq!(source_nodes(&nodes), vec![0, 1]);
    let nodes = vec![node(false, &[1]), node(false, &[0])];
    assert!(source_nodes(&nodes).is_empty());
    let none: Vec<Node<u8>> = vec![];
    assert!(source_nodes(&none).is_empty());
    let nodes = vec![node(false, &[]), node(false, &[])];
    assert_eq!(source_nodes(&nodes), vec![0, 1]);
}

#[test]
fn the_process_may_leave_when_all_counters_are_zero() {
    assert!(all_idle(&[]));
    assert!(all_idle(&[0, 0, 0]));
    assert!(!all_idle(&[0, 1, 0]));
    assert!(!all_idle(&[0, 0, 7]));
}

#[test]
fn tasks_are_counted() {
    let entered = Counter::new(0).unwrap();
    assert_eq!(entered, Counter(1));
    assert_eq!(entered.leave(), 0);
    assert_eq!(Counter::new(41).unwrap().leave(), 41);
    assert_eq!(Counter::new(u32::MAX), None);
    assert_eq!(Counter(0).leave(), 0);
}

#[test]
fn a_stream_goes_straight_to_a_plain_node() {
    let nodes = vec![node(false, &[2, 1]), node(false, &[]), node(false, &[])];
    let plan = spawn_next(&nodes, 0, 0, false).unwrap();
    assert!(plan.composites.is_empty());
    assert_eq!(plan.target, 2);
    let plan = spawn_next(&nodes, 0, 1, false).unwrap();
    assert_eq!(plan.target, 1);
}

#[test]
fn a_stream_passes_composites_on_its_way() {
    let nodes = vec![node(false, &[1]), node(true, &[2]), node(true, &[3]), node(false, &[])];
    let plan = spawn_next(&nodes, 0, 0, false).unwrap();
    assert_eq!(plan.composites, vec![1, 2]);
    assert_eq!(plan.target, 3);
}

#[test]
fn streams_that_cannot_be_handed_on() {
    let nodes = vec![node(false, &[1, 9]), node(true, &[]), node(true, &[2])];
    assert_eq!(spawn_next(&nodes, 0, 2, false).err(), Some(SpawnFault::NoSuchOutput));
    assert_eq!(spawn_next(&nodes, 7, 0, false).err(), Some(SpawnFault::NoSuchOutput));
    assert_eq!(spawn_next(&nodes, 0, 1, false).err(), Some(SpawnFault::NoSuchOutput));
    assert_eq!(spawn_next(&nodes, 0, 0, false).err(), Some(SpawnFault::DeadEnd));
    assert_eq!(spawn_next(&nodes, 2, 0, false).err(), Some(SpawnFault::Cycle));
    assert_eq!(spawn_error(SpawnFault::NoSuchOutput).message(), "Misuse: no such output");
    assert_eq!(
        spawn_error(SpawnFault::DeadEnd).message(),
        "Misuse: a composite node has no output"
    );
    assert_eq!(spawn_error(SpawnFault::Cycle).message(), "Misuse: composite nodes form a cycle");
}

#[test]
fn frames_are_passed_on_as_they_come() {
    assert!(matches!(pass(PassEvent::Started { has_mailbox: true }), PassStep::Receive));
    assert!(matches!(pass(PassEvent::Started { has_mailbox: false }), PassStep::Stop));
    match pass(PassEvent::Received(vec![1, 2, 3])) {
        PassStep::Send(frame) => assert_eq!(frame, vec![1, 2, 3]),
        _ => panic!("the frame should be sent on"),
    }
    assert!(matches!(pass(PassEvent::Sent), PassStep::Receive));
    assert!(matches!(pass(PassEvent::Closed), PassStep::Stop));
    assert!(matches!(pass(PassEvent::SendFailed), PassStep::Stop));
}

#[test]
fn nodes_know_their_shape() {
    assert!(node(false, &[]).is_symmetric());
    assert!(!node(true, &[1]).is_symmetric());
}

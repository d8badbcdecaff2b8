use sopipe::argument::Argument;
use sopipe::balance::{create, Actor};

fn args(method: Option<&str>, outputs: usize) -> Vec<(String, Argument)> {
    let mut list = vec![];
    if let Some(method) = method {
        list.push(("method".to_string(), Argument::String(method.to_string())));
    }
    list.push(("function_name".to_string(), Argument::String("balance".to_string())));
    list.push((
        "outputs".to_string(),
        Argument::Vec((0..outputs).map(|_| Argument::String(String::new())).collect()),
    ));
    list
}

#[test]
fn streams_take_turns() {
    let actor = create(&args(None, 3)).unwrap();
    let mut count = 0;
    let picked: Vec<usize> = (0..7).map(|_| actor.next(&mut count)).collect();
    assert_eq!(picked, vec![0, 1, 2, 0, 1, 2, 0]);
    assert_eq!(count, 7);
}

#[test]
fn pick_is_the_remainder() {
    let actor = Actor::new(5).unwrap();
    assert_eq!(actor.pick(0), 0);
    assert_eq!(actor.pick(12), 2);
    assert_eq!(actor.pick(u64::MAX), (u64::MAX % 5) as usize);
}

#[test]
fn the_count_starts_again_after_the_last_number() {
    let actor = Actor::new(2).unwrap();
    let mut count = u64::MAX;
    assert_eq!(actor.next(&mut count), 1);
    assert_eq!(count, 0);
}

#[test]
fn create_checks_method_and_outputs() {
    assert!(create(&args(Some("round_robin"), 2)).is_ok());
    assert_eq!(
        create(&args(Some("random"), 2)).unwrap_err().message(),
        "Misuse: unknown balance method"
    );
    assert_eq!(
        create(&args(None, 0)).unwrap_err().message(),
        "Misuse: balance needs an output"
    );
    assert!(Actor::new(0).is_none());
}

use sopipe::argument::Argument;
use sopipe::miniz::{create, deflated, progress, Deflater, Inflater, Progress, Role, BUFFER};

fn unhex(text: &str) -> Vec<u8> {
    (0..text.len() / 2).map(|i| u8::from_str_radix(&text[2 * i..2 * i + 2], 16).unwrap()).collect()
}

fn args(function: &str, level: Option<u64>, outputs: usize) -> Vec<(String, Argument)> {
    let mut list = vec![];
    if let Some(level) = level {
        list.push(("level".to_string(), Argument::Int(level)));
    }
    list.push(("function_name".to_string(), Argument::String(function.to_string())));
    list.push((
        "outputs".to_string(),
        Argument::Vec((0..outputs).map(|_| Argument::String(String::new())).collect()),
    ));
    list
}

#[test]
fn deflate_then_inflate_gives_the_stream_back() {
    let mut deflater = Deflater::new(6);
    let mut inflater = Inflater::new();
    let frames: Vec<Vec<u8>> = vec![
        b"hello hello hello hello".to_vec(),
        vec![],
        (0..=255).cycle().take(100_000).collect(),
        b"the end".to_vec(),
    ];
    let mut original = vec![];
    let mut restored = vec![];
    for frame in &frames {
        original.extend_from_slice(frame);
        let packed = deflater.deflate(frame).unwrap();
        let (pieces, done) = inflater.inflate(&packed);
        assert!(done);
        for piece in pieces {
            assert!(piece.len() <= BUFFER);
            restored.extend(piece);
        }
    }
    assert_eq!(restored, original);
}

#[test]
fn a_deflater_keeps_its_level() {
    let mut deflater = Deflater::new(7);
    assert_eq!(deflater.level(), 7);
    deflater.deflate(b"some bytes").unwrap();
    assert_eq!(deflater.level(), 7);
}

#[test]
fn deflate_packs() {
    let mut deflater = Deflater::new(1);
    let packed = deflater.deflate(&vec![b'a'; 10_000]).unwrap();
    assert!(packed.len() < 200);
    assert!(!packed.is_empty());
}

#[test]
fn inflate_reads_a_raw_deflate_stream() {
    let mut inflater = Inflater::new();
    let (pieces, done) = inflater.inflate(&unhex("ca48cdc9c957c8402701000000ffff"));
    assert!(done);
    assert_eq!(pieces.concat(), b"hello hello hello hello".to_vec());
}

#[test]
fn what_comes_of_a_deflated_frame() {
    assert_eq!(deflated(3, vec![1, 2], 3, true), Some(vec![1, 2]));
    assert_eq!(deflated(3, vec![1, 2], 2, true), None);
    assert_eq!(deflated(3, vec![1, 2], 3, false), None);
}

#[test]
fn how_inflating_goes_on() {
    assert_eq!(progress(0, 10, 10, 5, 0), Progress::Done);
    assert_eq!(progress(0, 0, 0, 0, 0), Progress::Done);
    assert_eq!(progress(4, 10, 3, 0, 2), Progress::Continue { offset: 7, idle: 0 });
    assert_eq!(progress(4, 10, 0, 9, 2), Progress::Continue { offset: 4, idle: 3 });
    assert_eq!(progress(4, 10, 0, 9, 8), Progress::Stalled);
    assert_eq!(progress(4, 10, 0, 0, 0), Progress::Stalled);
    assert_eq!(progress(4, 10, 6, 0, 0), Progress::Done);
}

#[test]
fn create_reads_level_and_role() {
    let actor = create(&args("deflate", Some(9), 1)).unwrap();
    assert_eq!(actor.level, 9);
    assert_eq!(actor.role, Role::Encoder);
    let actor = create(&args("inflate", None, 1)).unwrap();
    assert_eq!(actor.level, 1);
    assert_eq!(actor.role, Role::Decoder);
    assert_eq!(
        create(&args("deflate", Some(256), 1)).unwrap_err().message(),
        "Misuse: the input number does not fit `u8`"
    );
    assert_eq!(
        create(&args("deflate", None, 0)).unwrap_err().message(),
        "Misuse: miniz must have exactly 1 output"
    );
    assert_eq!(
        create(&args("gzip", None, 1)).unwrap_err().message(),
        "Misuse: unknown function"
    );
}

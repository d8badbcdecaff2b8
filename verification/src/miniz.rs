//! Compression of a stream with raw deflate, frame by frame.

use vstd::prelude::*;
use crate::components::Component;
use crate::argument::{pairs_view, ArgValue, Argument};
use crate::bytes::copy_range;
use crate::error::{Error, ErrorValue};
use crate::helper::{
    field_values, fit, list_len_at, list_len_of, misfit, misuse, number_at, number_of,
    parse_spec, text_at, text_is, text_of, Field, FieldValue, Kind,
};

verus! {

/// The state of a compressor of `miniz_oxide`.
#[verifier::external_type_specification]
#[verifier::external_body]
pub struct ExCompressorOxide(miniz_oxide::deflate::core::CompressorOxide);

/// The state of a decompressor of `miniz_oxide`.
#[verifier::external_type_specification]
#[verifier::external_body]
pub struct ExInflateState(miniz_oxide::inflate::stream::InflateState);

/// The size of the buffer that a frame is inflated into, and the least size
/// of the buffer that a frame is deflated into.
pub const BUFFER: usize = 65536;

/// The compressor for raw deflate data of a level, as it is made: what
/// `CompressorOxide::default` gives when `set_format_and_level` has set the
/// raw format and the level.
pub uninterp spec fn compressor_of(level: u8) -> miniz_oxide::deflate::core::CompressorOxide;

/// What `miniz_oxide::deflate::stream::deflate` makes, with a sync flush, of
/// a compressor, an input and a buffer of `room` bytes: the bytes written,
/// the number of bytes of the input that were consumed, whether the status
/// is a success, and the compressor afterwards.
pub uninterp spec fn deflated_of(
    compressor: miniz_oxide::deflate::core::CompressorOxide,
    input: Seq<u8>,
    room: nat,
) -> (Seq<u8>, nat, bool, miniz_oxide::deflate::core::CompressorOxide);

/// What `miniz_oxide::inflate::stream::inflate` makes, with a sync flush, of
/// a decompressor, an input and a buffer of `room` bytes: the bytes written,
/// the number of bytes of the input that were consumed, and the
/// decompressor afterwards.
pub uninterp spec fn inflated_of(
    state: miniz_oxide::inflate::stream::InflateState,
    input: Seq<u8>,
    room: nat,
) -> (Seq<u8>, nat, miniz_oxide::inflate::stream::InflateState);

/// `CompressorOxide::default` and `set_format_and_level`: a compressor for
/// raw deflate data of the level given.
#[verifier::external_body]
fn new_compressor(level: u8) -> (compressor: Box<miniz_oxide::deflate::core::CompressorOxide>)
    ensures
        *compressor == compressor_of(level),
{
    let mut compressor = Box::<miniz_oxide::deflate::core::CompressorOxide>::default();
    compressor.set_format_and_level(miniz_oxide::DataFormat::Raw, level);
    compressor
}

/// `miniz_oxide::deflate::stream::deflate` with a sync flush into a buffer of
/// `room` bytes: what was written, how much of the input was consumed, and
/// whether the status is a success. All of it, and the compressor
/// afterwards, follows from the compressor before, the input and the room.
/// No more is written than the room, and no more is consumed than the input
/// holds.
#[verifier::external_body]
fn deflate_sync(
    compressor: &mut miniz_oxide::deflate::core::CompressorOxide,
    input: &[u8],
    room: usize,
) -> (r: (Vec<u8>, usize, bool))
    ensures
        (r.0@, r.1 as nat, r.2, *final(compressor)) == deflated_of(
            *old(compressor),
            input@,
            room as nat,
        ),
        r.0@.len() <= room,
        r.1 <= input@.len(),
{
    let mut out = vec![0u8; room];
    let flush = miniz_oxide::MZFlush::Sync;
    let result = miniz_oxide::deflate::stream::deflate(compressor, input, &mut out, flush);
    out.truncate(result.bytes_written);
    (out, result.bytes_consumed, result.status.is_ok())
}

/// `InflateState::new_boxed`: a decompressor for raw deflate data.
#[verifier::external_body]
fn new_decompressor() -> Box<miniz_oxide::inflate::stream::InflateState> {
    miniz_oxide::inflate::stream::InflateState::new_boxed(miniz_oxide::DataFormat::Raw)
}

/// `miniz_oxide::inflate::stream::inflate` with a sync flush into a buffer of
/// `room` bytes: what was written and how much of the input was consumed.
/// Both, and the decompressor afterwards, follow from the decompressor
/// before, the input and the room. No more is written than the room, and no
/// more is consumed than the input holds.
#[verifier::external_body]
fn inflate_sync(
    state: &mut miniz_oxide::inflate::stream::InflateState,
    input: &[u8],
    room: usize,
) -> (r: (Vec<u8>, usize))
    ensures
        (r.0@, r.1 as nat, *final(state)) == inflated_of(*old(state), input@, room as nat),
        r.0@.len() <= room,
        r.1 <= input@.len(),
{
    let mut out = vec![0u8; room];
    let flush = miniz_oxide::MZFlush::Sync;
    let result = miniz_oxide::inflate::stream::inflate(state, input, &mut out, flush);
    out.truncate(result.bytes_written);
    (out, result.bytes_consumed)
}

/// Which way a node works.
#[derive(Debug, Clone, Copy, PartialEq, Eq, Structural)]
pub enum Role {
    Encoder,
    Decoder,
}

/// A node that deflates or inflates a stream.
#[derive(Debug, Clone, Copy, PartialEq, Eq, Structural)]
pub struct Actor {
    pub level: u8,
    pub role: Role,
}

/// The fields that the component declares.
pub open spec fn fields() -> Seq<FieldValue> {
    seq![
        FieldValue { name: "level"@, kind: Kind::Int },
        FieldValue { name: "outputs"@, kind: Kind::List },
        FieldValue { name: "function_name"@, kind: Kind::Str },
    ]
}


/// What the arguments make of the component, or the misuse that is
/// reported. The level is 1 where none is given, and fits a byte.
pub open spec fn create_spec(args: Seq<(Seq<char>, ArgValue)>) -> Result<Actor, ErrorValue> {
    match parse_spec(fields(), args) {
        Err(e) => Err(misfit(e)),
        Ok(values) => if list_len_of(values, 1) != Some(1nat) {
            Err(misuse("miniz must have exactly 1 output"@))
        } else if number_of(values, 0) is Some && number_of(values, 0).unwrap() > 255 {
            Err(misuse("the input number does not fit `u8`"@))
        } else {
            let level = match number_of(values, 0) {
                Some(l) => l as u8,
                None => 1u8,
            };
            if text_of(values, 2) == Some("deflate"@) {
                Ok(Actor { level, role: Role::Encoder })
            } else if text_of(values, 2) == Some("inflate"@) {
                Ok(Actor { level, role: Role::Decoder })
            } else {
                Err(misuse("unknown function"@))
            }
        },
    }
}

/// Makes the node that the pipeline asks for.
pub fn create(arguments: &[(String, Argument)]) -> (r: Result<Actor, Error>)
    ensures
        match create_spec(pairs_view(arguments@)) {
            Ok(a) => r == Ok::<Actor, Error>(a),
            Err(e) => r is Err && r->Err_0@ == e,
        },
{
    let mut declared: Vec<Field> = Vec::new();
    declared.push(Field::new("level", Kind::Int));
    declared.push(Field::new("outputs", Kind::List));
    declared.push(Field::new("function_name", Kind::Str));
    assert(field_values(declared@) =~= fields());
    let values = match fit(arguments, declared.as_slice()) {
        Ok(values) => values,
        Err(e) => {
            return Err(e);
        },
    };
    match list_len_at(&values, 1) {
        Some(1) => {},
        _ => {
            return Err(Error::misused("miniz must have exactly 1 output"));
        },
    }
    let level: u8 = match number_at(&values, 0) {
        Some(l) => {
            if l > 255 {
                return Err(Error::misused("the input number does not fit `u8`"));
            }
            l as u8
        },
        None => 1,
    };
    let function = text_at(&values, 2);
    if text_is(function, "deflate") {
        Ok(Actor { level, role: Role::Encoder })
    } else if text_is(function, "inflate") {
        Ok(Actor { level, role: Role::Decoder })
    } else {
        Err(Error::misused("unknown function"))
    }
}

/// The room that is made for the deflated form of a frame of `len` bytes:
/// twice the frame, and a full buffer at least.
pub open spec fn room_for(len: nat) -> nat {
    if 2 * len > BUFFER {
        2 * len
    } else {
        BUFFER as nat
    }
}

/// What comes of a frame of `len` bytes that was handed to the compressor:
/// the bytes that it wrote, if it took the whole frame and reports success;
/// else the stream fails.
pub open spec fn deflated_frame(len: nat, written: Seq<u8>, consumed: nat, ok: bool) -> Option<
    Seq<u8>,
> {
    if ok && consumed == len {
        Some(written)
    } else {
        None
    }
}

/// What comes of a frame that was handed to the compressor; see
/// [`deflated_frame`].
pub fn deflated(len: usize, written: Vec<u8>, consumed: usize, ok: bool) -> (r: Option<Vec<u8>>)
    ensures
        r == if ok && consumed == len {
            Some(written)
        } else {
            None
        },
        match deflated_frame(len as nat, written@, consumed as nat, ok) {
            Some(bytes) => r is Some && r->Some_0@ == bytes,
            None => r is None,
        },
{
    if ok && consumed == len {
        Some(written)
    } else {
        None
    }
}

/// What a compressor gives for the next frame of a stream: the frame is
/// handed to it with room for twice its length, and a full buffer at least.
pub open spec fn packed(
    compressor: miniz_oxide::deflate::core::CompressorOxide,
    msg: Seq<u8>,
) -> Option<Seq<u8>> {
    let r = deflated_of(compressor, msg, room_for(msg.len()));
    deflated_frame(msg.len(), r.0, r.1, r.2)
}

/// The compressing side of one stream: a compressor, and the level that it
/// was made with.
pub struct Deflater {
    state: Box<miniz_oxide::deflate::core::CompressorOxide>,
    level: u8,
}

impl Deflater {
    /// The level that the compressor was made with.
    pub closed spec fn spec_level(&self) -> u8 {
        self.level
    }

    /// The compressor as it stands in the stream.
    pub closed spec fn compressor(&self) -> miniz_oxide::deflate::core::CompressorOxide {
        *self.state
    }

    /// A compressor of the level given, for a stream that starts.
    pub fn new(level: u8) -> (d: Deflater)
        ensures
            d.spec_level() == level,
            d.compressor() == compressor_of(level),
    {
        Deflater { state: new_compressor(level), level }
    }

    /// The level that the compressor was made with.
    #[verifier::when_used_as_spec(spec_level)]
    pub fn level(&self) -> (level: u8)
        ensures
            level == self.spec_level(),
    {
        self.level
    }

    /// Deflates the next frame of the stream, flushing it so that the other
    /// side can inflate it at once. A frame for which room can be made is
    /// handed to the compressor, and what the compressor wrote is given if
    /// it took the whole frame and reports success. Else nothing is given,
    /// and the stream fails: also where the frame is too long to make room
    /// for twice its length, which leaves the compressor as it was.
    pub fn deflate(&mut self, msg: &[u8]) -> (out: Option<Vec<u8>>)
        ensures
            final(self).spec_level() == old(self).spec_level(),
            msg@.len() <= usize::MAX / 2 ==> final(self).compressor() == deflated_of(
                old(self).compressor(),
                msg@,
                room_for(msg@.len()),
            ).3 && (match packed(old(self).compressor(), msg@) {
                Some(bytes) => out is Some && out->Some_0@ == bytes,
                None => out is None,
            }),
            msg@.len() > usize::MAX / 2 ==> out is None && final(self).compressor() == old(
                self,
            ).compressor(),
            out matches Some(bytes) ==> bytes@.len() <= room_for(msg@.len()),
    {
        if msg.len() > usize::MAX / 2 {
            return None;
        }
        let room = if msg.len() * 2 > BUFFER {
            msg.len() * 2
        } else {
            BUFFER
        };
        let (written, consumed, ok) = deflate_sync(&mut self.state, msg, room);
        deflated(msg.len(), written, consumed, ok)
    }
}

/// How the inflating of a frame goes on.
#[derive(Debug, Clone, Copy, PartialEq, Eq, Structural)]
pub enum Progress {
    /// The frame is used up.
    Done,
    /// Go on at the place given; `idle` counts the steps in a row that took
    /// nothing of the frame.
    Continue { offset: usize, idle: u8 },
    /// The decompressor takes no more of the frame: the stream fails.
    Stalled,
}

/// The most steps in a row that may take nothing of the frame and only hand
/// out what the decompressor still holds.
pub const MAX_IDLE: u8 = 8;

/// How to go on when the decompressor has consumed `consumed` bytes from
/// the place `offset` of a frame of `len` bytes and written `written`
/// bytes, after `idle` steps in a row that consumed nothing: the frame is
/// done when it is used up; a step that took something goes on behind it;
/// a step that took nothing and wrote something is tried again, up to
/// [`MAX_IDLE`] times in a row; else the stream has stalled.
pub open spec fn progress_of(offset: nat, len: nat, consumed: nat, written: nat, idle: nat) -> Progress {
    if offset + consumed >= len {
        Progress::Done
    } else if consumed > 0 {
        Progress::Continue { offset: (offset + consumed) as usize, idle: 0 }
    } else if written > 0 && idle < MAX_IDLE {
        Progress::Continue { offset: offset as usize, idle: (idle + 1) as u8 }
    } else {
        Progress::Stalled
    }
}

/// How to go on after a step of the decompressor; see [`progress_of`].
pub fn progress(offset: usize, len: usize, consumed: usize, written: usize, idle: u8) -> (p:
    Progress)
    requires
        offset <= len,
        consumed <= len - offset,
    ensures
        p == progress_of(offset as nat, len as nat, consumed as nat, written as nat, idle as nat),
{
    if offset + consumed >= len {
        Progress::Done
    } else if consumed > 0 {
        Progress::Continue { offset: offset + consumed, idle: 0 }
    } else if written > 0 && idle < MAX_IDLE {
        Progress::Continue { offset, idle: idle + 1 }
    } else {
        Progress::Stalled
    }
}

/// What the inflating of a frame gives from the place `offset` on, after
/// `idle` steps in a row that took nothing: the frames to send on, one for
/// each step of the decompressor, whether the whole frame was taken, and the
/// decompressor afterwards. Each step hands the rest of the frame to the
/// decompressor, with a buffer to write into, and [`progress_of`] says how
/// it goes on.
pub open spec fn inflate_from(
    state: miniz_oxide::inflate::stream::InflateState,
    msg: Seq<u8>,
    offset: nat,
    idle: nat,
) -> (Seq<Seq<u8>>, bool, miniz_oxide::inflate::stream::InflateState)
    decreases msg.len() - offset, MAX_IDLE - idle,
{
    let step = inflated_of(state, msg.skip(offset as int), BUFFER as nat);
    if offset <= msg.len() <= usize::MAX && step.1 <= msg.len() - offset && idle <= MAX_IDLE {
        match progress_of(offset, msg.len(), step.1, step.0.len(), idle) {
            Progress::Done => (seq![step.0], true, step.2),
            Progress::Stalled => (seq![step.0], false, step.2),
            Progress::Continue { offset: next, idle: waited } => {
                let rest = inflate_from(step.2, msg, next as nat, waited as nat);
                (seq![step.0] + rest.0, rest.1, rest.2)
            },
        }
    } else {
        (seq![step.0], false, step.2)
    }
}

/// The frames as runs of bytes.
pub open spec fn frames_view(frames: Seq<Vec<u8>>) -> Seq<Seq<u8>> {
    frames.map_values(|f: Vec<u8>| f@)
}

/// The decompressing side of one stream.
pub struct Inflater {
    state: Box<miniz_oxide::inflate::stream::InflateState>,
}

impl Inflater {
    /// The decompressor as it stands in the stream.
    pub closed spec fn decompressor(&self) -> miniz_oxide::inflate::stream::InflateState {
        *self.state
    }

    /// A decompressor for a stream that starts.
    pub fn new() -> Inflater {
        Inflater { state: new_decompressor() }
    }

    /// Inflates the next frame of the stream, which is handed to the
    /// decompressor from its start on, step by step. Gives the frames to
    /// send on, each no longer than a buffer, and whether the whole frame
    /// was taken; where it was not, the stream fails after these frames.
    pub fn inflate(&mut self, msg: &[u8]) -> (r: (Vec<Vec<u8>>, bool))
        ensures
            (frames_view(r.0@), r.1, final(self).decompressor()) == inflate_from(
                old(self).decompressor(),
                msg@,
                0,
                0,
            ),
            forall|i: int| 0 <= i < r.0@.len() ==> (#[trigger] r.0@[i])@.len() <= BUFFER,
            r.0@.len() >= 1,
    {
        let ghost start = self.decompressor();
        let mut frames: Vec<Vec<u8>> = Vec::new();
        let mut offset: usize = 0;
        let mut idle: u8 = 0;
        assert(frames_view(frames@) =~= Seq::<Seq<u8>>::empty());
        loop
            invariant
                offset <= msg@.len(),
                idle <= MAX_IDLE,
                start == old(self).decompressor(),
                forall|i: int| 0 <= i < frames@.len() ==> (#[trigger] frames@[i])@.len() <= BUFFER,
                ({
                    let rest = inflate_from(self.decompressor(), msg@, offset as nat, idle as nat);
                    inflate_from(start, msg@, 0, 0) == (
                        frames_view(frames@) + rest.0,
                        rest.1,
                        rest.2,
                    )
                }),
            decreases msg@.len() - offset, MAX_IDLE - idle,
        {
            let ghost before = self.decompressor();
            let ghost sent = frames_view(frames@);
            let input = copy_range(msg, offset, msg.len());
            assert(input@ =~= msg@.skip(offset as int));
            let (written, consumed) = inflate_sync(&mut self.state, input.as_slice(), BUFFER);
            let count = written.len();
            let ghost piece = written@;
            frames.push(written);
            proof {
                assert(frames_view(frames@) =~= sent.push(piece));
                let step = inflated_of(before, msg@.skip(offset as int), BUFFER as nat);
                assert(step == (piece, consumed as nat, self.decompressor()));
            }
            match progress(offset, msg.len(), consumed, count, idle) {
                Progress::Done => {
                    assert(sent + seq![piece] =~= sent.push(piece));
                    return (frames, true);
                },
                Progress::Stalled => {
                    assert(sent + seq![piece] =~= sent.push(piece));
                    return (frames, false);
                },
                Progress::Continue { offset: next, idle: waited } => {
                    proof {
                        let rest = inflate_from(
                            self.decompressor(),
                            msg@,
                            next as nat,
                            waited as nat,
                        );
                        assert(sent + (seq![piece] + rest.0) =~= sent.push(piece) + rest.0);
                    }
                    offset = next;
                    idle = waited;
                },
            }
        }
    }
}

/// The component, as it is registered with the pipeline.
pub fn init() -> (c: Component)
    ensures
        c == Component::Miniz,
{
    Component::Miniz
}

} // verus!

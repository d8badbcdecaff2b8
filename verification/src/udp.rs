//! UDP nodes: a receiving socket at the start of a pipeline, a sending socket at its end.

use vstd::prelude::*;
use crate::components::Component;
use crate::argument::{copy_of, pairs_view, ArgValue, Argument};
use crate::error::{text_view, Error, ErrorValue};
use crate::helper::{
    field_values, fit, list_len_at, list_len_of, misfit, misuse, number_at, number_of,
    parse_spec, Field, FieldValue, Kind,
};
use crate::metadata::MetaData;
use crate::runtime::{next_step, source_step, RunLevel, SourceStep};
use crate::tcp;

verus! {

/// How long a connected socket may stay silent before its stream is taken to
/// have ended, in milliseconds.
pub const IDLE_TIMEOUT: u64 = 5000;

/// A UDP node: a socket that receives at the start of a pipeline, or one
/// that sends at its end.
#[derive(Debug)]
pub struct Actor {
    endpoint: tcp::Actor,
}

impl View for Actor {
    type V = tcp::ActorValue;

    closed spec fn view(&self) -> tcp::ActorValue {
        self.endpoint@
    }
}

/// The fields that the component declares.
pub open spec fn fields() -> Seq<FieldValue> {
    seq![
        FieldValue { name: "addr"@, kind: Kind::Any },
        FieldValue { name: "port"@, kind: Kind::Int },
        FieldValue { name: "outputs"@, kind: Kind::List },
        FieldValue { name: "function_name"@, kind: Kind::Any },
    ]
}

/// What the arguments make of the component, or the misuse that is
/// reported: an endpoint as that of a TCP node, which takes any number of
/// streams.
pub open spec fn create_spec(args: Seq<(Seq<char>, ArgValue)>) -> Result<
    tcp::ActorValue,
    ErrorValue,
> {
    match parse_spec(fields(), args) {
        Err(e) => Err(misfit(e)),
        Ok(values) => if number_of(values, 1) is Some && number_of(values, 1).unwrap() > 65535 {
            Err(misuse("the input number does not fit `u16`"@))
        } else {
            match list_len_of(values, 2) {
                None => Err(misuse("missing field `outputs`"@)),
                Some(n) => tcp::actor_of(
                    match values[0] {
                        Some(a) => a,
                        None => ArgValue::Nothing,
                    },
                    match number_of(values, 1) {
                        Some(p) => Some(p as u16),
                        None => None,
                    },
                    false,
                    n,
                ),
            }
        },
    }
}

/// Makes the node that the pipeline asks for.
pub fn create(arguments: &[(String, Argument)]) -> (r: Result<Actor, Error>)
    ensures
        match create_spec(pairs_view(arguments@)) {
            Ok(a) => r is Ok && r->Ok_0@ == a,
            Err(e) => r is Err && r->Err_0@ == e,
        },
{
    let mut declared: Vec<Field> = Vec::new();
    declared.push(Field::new("addr", Kind::Any));
    declared.push(Field::new("port", Kind::Int));
    declared.push(Field::new("outputs", Kind::List));
    declared.push(Field::new("function_name", Kind::Any));
    assert(field_values(declared@) =~= fields());
    let values = match fit(arguments, declared.as_slice()) {
        Ok(values) => values,
        Err(e) => {
            return Err(e);
        },
    };
    assert(values@.len() == 4);
    let port: Option<u16> = match number_at(&values, 1) {
        Some(p) => {
            if p > 65535 {
                return Err(Error::misused("the input number does not fit `u16`"));
            }
            Some(p as u16)
        },
        None => None,
    };
    let outputs = match list_len_at(&values, 2) {
        Some(n) => n,
        None => {
            return Err(Error::misused("missing field `outputs`"));
        },
    };
    let addr = match &values[0] {
        Some(a) => copy_of(a),
        None => Argument::Nil,
    };
    match tcp::Actor::new(tcp::Config { addr, port, once: false, outputs }) {
        Ok(endpoint) => Ok(Actor { endpoint }),
        Err(e) => Err(e),
    }
}

impl Actor {
    /// The destination of a stream that brings `addr` and `port` with it;
    /// see [`tcp::destination_of`].
    pub fn resolve(&self, addr: Option<String>, port: Option<u16>) -> (r: Result<
        tcp::Destination,
        Error,
    >)
        ensures
            match tcp::destination_of(self@, text_view(addr), port) {
                Ok(d) => r is Ok && r->Ok_0@ == d,
                Err(e) => r is Err && r->Err_0@ == e,
            },
    {
        self.endpoint.resolve(addr, port)
    }

    /// Whether the node has an output, as a node at the start of a pipeline
    /// must.
    pub fn has_output(&self) -> (r: bool)
        ensures
            r == self@.has_output,
    {
        self.endpoint.has_output
    }

    /// The address that the socket binds: its own, or any address.
    pub fn bind_addr(&self) -> (addr: String)
        ensures
            addr@ == match self@.addr {
                Some(a) => a,
                None => tcp::any_address(),
            },
    {
        self.endpoint.bind_addr()
    }

    /// The port that the socket binds, if one is given.
    pub fn port(&self) -> (p: Option<u16>)
        ensures
            p == self@.port,
    {
        self.endpoint.port
    }

    /// What the receiving socket does next at the level given; see
    /// [`next_step`].
    pub fn listen_step(&self, level: RunLevel, serving: bool) -> (step: SourceStep)
        ensures
            step == next_step(level, serving),
            level == RunLevel::Shut ==> step == SourceStep::Exit,
    {
        source_step(level, serving)
    }
}

/// The metadata of the one stream of a receiving socket.
pub fn stream_metadata() -> (m: MetaData)
    ensures
        m@.dom() == set!["stream_type"@],
        m@["stream_type"@] is Text,
        m@["stream_type"@]->Text_0@ == "UDP"@,
{
    let mut m = MetaData::new();
    m.set(String::from_str("stream_type"), String::from_str("UDP"));
    assert(m@.dom() =~= set!["stream_type"@]);
    m
}

/// The component, as it is registered with the pipeline.
pub fn init() -> (c: Component)
    ensures
        c == Component::Udp,
{
    Component::Udp
}

} // verus!

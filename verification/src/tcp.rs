//! TCP nodes: a listener at the start of a pipeline, a connector at its end.

use vstd::prelude::*;
use crate::components::Component;
use crate::argument::{copy_of, pairs_view, ArgValue, Argument};
use crate::error::{text_view, Error, ErrorValue};
use crate::helper::{
    field_values, fit, given, is_given, list_len_at, list_len_of, misfit, misuse, number_at,
    number_of, parse_spec, Field, FieldValue, Kind,
};
use crate::metadata::{lookup, MetaData, MetaValue};
use crate::runtime::{next_step, source_step, RunLevel, SourceStep};

verus! {

/// The address that a listener binds where none is given.
pub open spec fn any_address() -> Seq<char> {
    "::"@
}

/// What a script gives for a TCP node.
#[derive(Debug)]
pub struct Config {
    /// An address as text, or a port as a number, or nothing.
    pub addr: Argument,
    pub port: Option<u16>,
    pub once: bool,
    /// The number of outputs of the node.
    pub outputs: usize,
}

/// An endpoint: an address and a port, either of which may be missing.
pub struct Endpoint {
    pub addr: Option<Seq<char>>,
    pub port: Option<u16>,
}

/// The endpoint that a configuration names: the address where `addr` is
/// text, the port from `port`, or from `addr` where that is a number, of
/// which the low sixteen bits count. A list names none.
pub open spec fn endpoint_of(addr: ArgValue, port: Option<u16>) -> Option<Endpoint> {
    match addr {
        ArgValue::Text(s) => Some(Endpoint { addr: Some(s), port }),
        ArgValue::Number(i) => Some(Endpoint { addr: None, port: Some((i % 0x1_0000) as u16) }),
        ArgValue::List(_) => None,
        ArgValue::Nothing => Some(Endpoint { addr: None, port }),
    }
}

impl Config {
    /// The address and the port that the configuration names.
    pub fn get_addr_and_port(&self) -> (r: Result<(Option<String>, Option<u16>), Error>)
        ensures
            match endpoint_of(self.addr@, self.port) {
                Some(e) => r is Ok && text_view(r->Ok_0.0) == e.addr && r->Ok_0.1 == e.port,
                None => r is Err && r->Err_0@ == misuse("wrong argument type"@),
            },
    {
        match &self.addr {
            Argument::String(s) => Ok((Some(s.clone()), self.port)),
            Argument::Int(i) => Ok((None, Some((*i % 0x1_0000) as u16))),
            Argument::Vec(_) => Err(Error::misused("wrong argument type")),
            Argument::Nil => Ok((None, self.port)),
        }
    }
}

/// A TCP node: a listener at the start of a pipeline, or a connector at its
/// end.
#[derive(Debug)]
pub struct Actor {
    pub addr: Option<String>,
    pub port: Option<u16>,
    pub has_output: bool,
    pub once: bool,
}

/// What an [`Actor`] stands for.
pub struct ActorValue {
    pub addr: Option<Seq<char>>,
    pub port: Option<u16>,
    pub has_output: bool,
    pub once: bool,
}

impl View for Actor {
    type V = ActorValue;

    open spec fn view(&self) -> ActorValue {
        ActorValue {
            addr: text_view(self.addr),
            port: self.port,
            has_output: self.has_output,
            once: self.once,
        }
    }
}

/// The node that a configuration makes, or the misuse that is reported: a
/// node has one output at most.
pub open spec fn actor_of(addr: ArgValue, port: Option<u16>, once: bool, outputs: nat) -> Result<
    ActorValue,
    ErrorValue,
> {
    match endpoint_of(addr, port) {
        None => Err(misuse("wrong argument type"@)),
        Some(e) => if outputs > 1 {
            Err(misuse("tcp can only accept one output"@))
        } else {
            Ok(ActorValue { addr: e.addr, port: e.port, has_output: outputs == 1, once })
        },
    }
}

impl Actor {
    /// The node that a configuration makes; see [`actor_of`].
    pub fn new(config: Config) -> (r: Result<Actor, Error>)
        ensures
            match actor_of(config.addr@, config.port, config.once, config.outputs as nat) {
                Ok(a) => r is Ok && r->Ok_0@ == a,
                Err(e) => r is Err && r->Err_0@ == e,
            },
    {
        let (addr, port) = match config.get_addr_and_port() {
            Ok(pair) => pair,
            Err(e) => {
                return Err(e);
            },
        };
        let has_output = match config.outputs {
            0 => false,
            1 => true,
            _ => {
                return Err(Error::misused("tcp can only accept one output"));
            },
        };
        Ok(Actor { addr, port, has_output, once: config.once })
    }
}

/// The fields that the component declares.
pub open spec fn fields() -> Seq<FieldValue> {
    seq![
        FieldValue { name: "addr"@, kind: Kind::Any },
        FieldValue { name: "port"@, kind: Kind::Int },
        FieldValue { name: "once"@, kind: Kind::Flag },
        FieldValue { name: "outputs"@, kind: Kind::List },
        FieldValue { name: "function_name"@, kind: Kind::Any },
    ]
}

/// The configuration that the values of the fields give, or the misuse that
/// is reported: the port fits sixteen bits, and the outputs are given.
pub open spec fn config_of(values: Seq<Option<ArgValue>>) -> Result<
    (ArgValue, Option<u16>, bool, nat),
    ErrorValue,
> {
    if number_of(values, 1) is Some && number_of(values, 1).unwrap() > 65535 {
        Err(misuse("the input number does not fit `u16`"@))
    } else {
        match list_len_of(values, 3) {
            None => Err(misuse("missing field `outputs`"@)),
            Some(n) => Ok(
                (
                    match values[0] {
                        Some(a) => a,
                        None => ArgValue::Nothing,
                    },
                    match number_of(values, 1) {
                        Some(p) => Some(p as u16),
                        None => None,
                    },
                    given(values, 2),
                    n,
                ),
            ),
        }
    }
}

/// What the arguments make of the component, or the misuse that is reported.
pub open spec fn create_spec(args: Seq<(Seq<char>, ArgValue)>) -> Result<ActorValue, ErrorValue> {
    match parse_spec(fields(), args) {
        Err(e) => Err(misfit(e)),
        Ok(values) => match config_of(values) {
            Err(e) => Err(e),
            Ok((addr, port, once, outputs)) => actor_of(addr, port, once, outputs),
        },
    }
}

/// Reads the configuration of a node from its arguments.
pub fn configure(arguments: &[(String, Argument)]) -> (r: Result<Config, Error>)
    ensures
        match parse_spec(fields(), pairs_view(arguments@)) {
            Err(e) => r is Err && r->Err_0@ == misfit(e),
            Ok(values) => match config_of(values) {
                Err(e) => r is Err && r->Err_0@ == e,
                Ok((addr, port, once, outputs)) => r is Ok && r->Ok_0.addr@ == addr
                    && r->Ok_0.port == port && r->Ok_0.once == once && r->Ok_0.outputs == outputs,
            },
        },
{
    let mut declared: Vec<Field> = Vec::new();
    declared.push(Field::new("addr", Kind::Any));
    declared.push(Field::new("port", Kind::Int));
    declared.push(Field::new("once", Kind::Flag));
    declared.push(Field::new("outputs", Kind::List));
    declared.push(Field::new("function_name", Kind::Any));
    assert(field_values(declared@) =~= fields());
    let values = match fit(arguments, declared.as_slice()) {
        Ok(values) => values,
        Err(e) => {
            return Err(e);
        },
    };
    assert(values@.len() == 5);
    let port: Option<u16> = match number_at(&values, 1) {
        Some(p) => {
            if p > 65535 {
                return Err(Error::misused("the input number does not fit `u16`"));
            }
            Some(p as u16)
        },
        None => None,
    };
    let outputs = match list_len_at(&values, 3) {
        Some(n) => n,
        None => {
            return Err(Error::misused("missing field `outputs`"));
        },
    };
    let addr = match &values[0] {
        Some(a) => copy_of(a),
        None => Argument::Nil,
    };
    Ok(Config { addr, port, once: is_given(&values, 2), outputs })
}

/// Makes the node that the pipeline asks for.
pub fn create(arguments: &[(String, Argument)]) -> (r: Result<Actor, Error>)
    ensures
        match create_spec(pairs_view(arguments@)) {
            Ok(a) => r is Ok && r->Ok_0@ == a,
            Err(e) => r is Err && r->Err_0@ == e,
        },
{
    match configure(arguments) {
        Ok(config) => Actor::new(config),
        Err(e) => Err(e),
    }
}

/// Where a stream is connected to.
#[derive(Debug)]
pub struct Destination {
    /// The address; with the port in it where `port` is none.
    pub addr: String,
    pub port: Option<u16>,
}

/// What a [`Destination`] stands for.
pub struct DestinationValue {
    pub addr: Seq<char>,
    pub port: Option<u16>,
}

impl View for Destination {
    type V = DestinationValue;

    open spec fn view(&self) -> DestinationValue {
        DestinationValue { addr: self.addr@, port: self.port }
    }
}

/// The destination of a stream: that which the stream brings with it, or,
/// where it brings none, that of the node. A node with an output connects
/// nothing; a stream may bring a destination only to a node that has none of
/// its own; and an address is needed.
pub open spec fn destination_of(
    node: ActorValue,
    addr: Option<Seq<char>>,
    port: Option<u16>,
) -> Result<DestinationValue, ErrorValue> {
    if node.has_output {
        Err(misuse("a tcp node with an output cannot take a stream"@))
    } else if (addr is Some || port is Some) && (node.addr is Some || node.port is Some) {
        Err(misuse("The stream already contains destination information"@))
    } else {
        let a = if addr is Some || port is Some {
            addr
        } else {
            node.addr
        };
        let p = if addr is Some || port is Some {
            port
        } else {
            node.port
        };
        match a {
            Some(text) => Ok(DestinationValue { addr: text, port: p }),
            None => Err(misuse("no destination address"@)),
        }
    }
}

/// What the listener does when it has accepted a stream.
#[derive(Debug, Clone, Copy, PartialEq, Eq, Structural)]
pub enum AfterAccept {
    /// Go on listening.
    Listen,
    /// Leave: the node takes one stream only.
    Leave,
}

impl Actor {
    /// The destination of a stream that brings `addr` and `port` with it.
    pub fn resolve(&self, addr: Option<String>, port: Option<u16>) -> (r: Result<Destination, Error>)
        ensures
            match destination_of(self@, text_view(addr), port) {
                Ok(d) => r is Ok && r->Ok_0@ == d,
                Err(e) => r is Err && r->Err_0@ == e,
            },
    {
        if self.has_output {
            return Err(Error::misused("a tcp node with an output cannot take a stream"));
        }
        let brought = addr.is_some() || port.is_some();
        if brought && (self.addr.is_some() || self.port.is_some()) {
            return Err(Error::misused("The stream already contains destination information"));
        }
        let (a, p) = if brought {
            (addr, port)
        } else {
            (self.addr.clone(), self.port)
        };
        match a {
            Some(text) => Ok(Destination { addr: text, port: p }),
            None => Err(Error::misused("no destination address")),
        }
    }

    /// The destination of a stream with the metadata given, from which the
    /// destination is taken out. What the metadata holds is taken into
    /// account only where no copy of the metadata shares it.
    pub fn destination(&self, metadata: &mut MetaData) -> (r: Result<Destination, Error>)
        ensures
            final(metadata)@ == old(metadata)@.remove("destination_addr"@).remove(
                "destination_port"@,
            ),
            exists|addr: Option<String>, port: Option<u16>|
                {
                    &&& addr matches Some(a) ==> lookup::<String>(
                        old(metadata)@,
                        "destination_addr"@,
                    ) == Some(a)
                    &&& port matches Some(p) ==> lookup::<u16>(
                        old(metadata)@.remove("destination_addr"@),
                        "destination_port"@,
                    ) == Some(p)
                    &&& match #[trigger] destination_of(self@, text_view(addr), port) {
                        Ok(d) => r is Ok && r->Ok_0@ == d,
                        Err(e) => r is Err && r->Err_0@ == e,
                    }
                },
    {
        let addr: Option<String> = match metadata.take::<String>("destination_addr") {
            Some(a) => Some(*a),
            None => None,
        };
        let port: Option<u16> = match metadata.take::<u16>("destination_port") {
            Some(p) => Some(*p),
            None => None,
        };
        let ghost witness_addr = addr;
        let r = self.resolve(addr, port);
        proof {
            assert(match destination_of(self@, text_view(witness_addr), port) {
                Ok(d) => r is Ok && r->Ok_0@ == d,
                Err(e) => r is Err && r->Err_0@ == e,
            });
        }
        r
    }

    /// Whether the node can stand at the start of a pipeline: it needs an
    /// output for the streams that it accepts.
    pub fn check_source(&self) -> (r: Result<(), Error>)
        ensures
            match r {
                Ok(_) => self.has_output,
                Err(e) => !self.has_output && e@ == misuse("a tcp listener needs an output"@),
            },
    {
        if self.has_output {
            Ok(())
        } else {
            Err(Error::misused("a tcp listener needs an output"))
        }
    }

    /// The address that the listener binds: its own, or any address.
    pub fn bind_addr(&self) -> (addr: String)
        ensures
            addr@ == match self@.addr {
                Some(a) => a,
                None => any_address(),
            },
    {
        match &self.addr {
            Some(a) => a.clone(),
            None => String::from_str("::"),
        }
    }

    /// What the listener does next at the level given; see [`next_step`].
    pub fn listen_step(&self, level: RunLevel, serving: bool) -> (step: SourceStep)
        ensures
            step == next_step(level, serving),
            level == RunLevel::Shut ==> step == SourceStep::Exit,
    {
        source_step(level, serving)
    }

    /// What the listener does when it has accepted a stream.
    pub fn after_accept(&self) -> (next: AfterAccept)
        ensures
            next == if self.once {
                AfterAccept::Leave
            } else {
                AfterAccept::Listen
            },
    {
        if self.once {
            AfterAccept::Leave
        } else {
            AfterAccept::Listen
        }
    }
}

/// The metadata of an accepted stream: the kind of the stream, where it
/// comes from, and its number among the streams of the listener.
pub fn stream_metadata(kind: &str, origin: String, id: u64) -> (m: MetaData)
    ensures
        m@.dom() == set!["stream_type"@, "origin_addr"@, "stream_id"@],
        m@["stream_type"@] matches MetaValue::Text(s) && s@ == kind@,
        m@["origin_addr"@] == MetaValue::Text(origin),
        m@["stream_id"@] == MetaValue::Number(id),
{
    let mut m = MetaData::new();
    m.set(String::from_str("stream_type"), String::from_str(kind));
    m.set(String::from_str("origin_addr"), origin);
    m.set(String::from_str("stream_id"), id);
    proof {
        reveal_strlit("stream_type");
        reveal_strlit("origin_addr");
        reveal_strlit("stream_id");
        assert("stream_type"@ != "origin_addr"@) by {
            assert("stream_type"@[0] != "origin_addr"@[0]);
        }
        assert("stream_type"@ != "stream_id"@) by {
            assert("stream_type"@.len() != "stream_id"@.len());
        }
        assert("origin_addr"@ != "stream_id"@) by {
            assert("origin_addr"@[0] != "stream_id"@[0]);
        }
        assert(m@.dom() =~= set!["stream_type"@, "origin_addr"@, "stream_id"@]);
    }
    m
}

/// The component, as it is registered with the pipeline.
pub fn init() -> (c: Component)
    ensures
        c == Component::Tcp,
{
    Component::Tcp
}

} // verus!

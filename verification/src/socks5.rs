//! The server side of SOCKS5, as far as a proxy needs it: no authentication, any address.

use vstd::prelude::*;
use crate::components::Component;
use crate::address::{Addr, AddrValue};
use crate::argument::{pairs_view, ArgValue, Argument};
use crate::error::{Error, ErrorValue};
use crate::helper::{
    field_values, fit, list_len_at, list_len_of, misfit, misuse, parse_spec, text_at, text_is,
    text_of, Field, FieldValue, Kind,
};
use crate::bytes::{append, contains_in, copy_range, from_be16};

verus! {

/// The protocol version that the server speaks.
pub const VERSION: u8 = 5;

/// The method number of "no authentication".
pub const NO_AUTH: u8 = 0;

/// What the bytes received so far say of the client's greeting.
pub enum Greeting {
    /// More bytes are needed.
    Incomplete,
    /// The first byte is not the version 5.
    BadVersion,
    /// The client does not offer "no authentication".
    NoAcceptableMethod,
    /// The greeting is complete and takes `consumed` bytes.
    Accepted { consumed: nat },
}

/// Reads a greeting: the version, the number of methods, then the methods.
pub open spec fn greeting(buf: Seq<u8>) -> Greeting {
    if buf.len() < 2 {
        Greeting::Incomplete
    } else if buf[0] != VERSION {
        Greeting::BadVersion
    } else if buf.len() < 2 + buf[1] {
        Greeting::Incomplete
    } else if !buf.subrange(2, 2 + buf[1]).contains(NO_AUTH) {
        Greeting::NoAcceptableMethod
    } else {
        Greeting::Accepted { consumed: (2 + buf[1]) as nat }
    }
}

/// What the bytes that follow the greeting say of the client's request.
pub enum Request {
    /// More bytes are needed.
    Incomplete,
    /// The first byte is not the version 5.
    BadVersion,
    /// The address type is none of 1 (IPv4), 3 (domain) and 4 (IPv6).
    UnknownAddressType,
    /// The request is complete, names `addr` and `port` and takes `consumed` bytes.
    Parsed { addr: AddrValue, port: u16, consumed: nat },
}

/// The number of bytes that the address of a request takes, when enough of
/// them are there to tell; `None` for an unknown address type.
pub open spec fn address_len(buf: Seq<u8>) -> Option<nat>
    recommends
        buf.len() >= 5,
{
    if buf[3] == 1 {
        Some(4)
    } else if buf[3] == 4 {
        Some(16)
    } else if buf[3] == 3 {
        Some((1 + buf[4]) as nat)
    } else {
        None
    }
}

/// Reads a request: version, command, a reserved byte, the address type, the
/// address and the port. The command is not looked at.
pub open spec fn request(buf: Seq<u8>) -> Request {
    if buf.len() < 4 {
        Request::Incomplete
    } else if buf[0] != VERSION {
        Request::BadVersion
    } else if buf[3] != 1 && buf[3] != 3 && buf[3] != 4 {
        Request::UnknownAddressType
    } else if buf.len() < 5 {
        Request::Incomplete
    } else {
        let n = address_len(buf).unwrap();
        if buf.len() < 4 + n + 2 {
            Request::Incomplete
        } else {
            let addr = if buf[3] == 1 {
                AddrValue::V4(buf.subrange(4, 8))
            } else if buf[3] == 4 {
                AddrValue::V6(buf.subrange(4, 20))
            } else {
                AddrValue::Domain(buf.subrange(5, 5 + buf[4]))
            };
            Request::Parsed {
                addr,
                port: from_be16(buf[4 + n as int], buf[5 + n as int]),
                consumed: 4 + n + 2,
            }
        }
    }
}

/// The reply that tells the client that its request was granted.
pub open spec fn granted() -> Seq<u8> {
    seq![5u8, 0, 0, 1, 0, 0, 0, 0, 0, 0]
}

/// Where a session stands.
#[derive(Debug, Clone, Copy, PartialEq, Eq, Structural)]
pub enum Phase {
    /// The greeting is awaited.
    Greeting,
    /// A method was selected; the request is awaited.
    Request,
    /// The request was granted; what comes now is payload.
    Relay,
    /// The session has failed.
    Closed,
}

/// What the server does after a packet.
pub enum Step {
    /// Nothing yet: receive the next packet.
    Wait,
    /// Stop: the stream has failed.
    Close,
    /// Send `reply`, then stop: the client offers no method that the server takes.
    Refuse { reply: Vec<u8> },
    /// Send `reply`: the method is selected. Then receive the next packet.
    Select { reply: Vec<u8> },
    /// Send `reply` to the client, open the stream to `addr` and `port`, and
    /// forward `rest`, the bytes that followed the request, if there are any.
    Connect { reply: Vec<u8>, addr: Addr, port: u16, rest: Vec<u8> },
    /// Forward the packet as it is.
    Forward,
}

/// The server side of one SOCKS5 session, fed packet by packet.
pub struct Actor {
    buf: Vec<u8>,
    consumed: usize,
    phase: Phase,
}

/// The step that follows from a greeting read in the bytes received so far.
pub open spec fn greeting_step(g: Greeting, s: Step) -> bool {
    match g {
        Greeting::Incomplete => s is Wait,
        Greeting::BadVersion => s is Close,
        Greeting::NoAcceptableMethod => s matches Step::Refuse { reply } && reply@ == seq![
            5u8,
            0xffu8,
        ],
        Greeting::Accepted { .. } => s matches Step::Select { reply } && reply@ == seq![5u8, 0u8],
    }
}

/// The step that follows from a request read in `tail`, the bytes received
/// after the greeting.
pub open spec fn request_step(r: Request, tail: Seq<u8>, s: Step) -> bool {
    match r {
        Request::Incomplete => s is Wait,
        Request::BadVersion => s is Close,
        Request::UnknownAddressType => s is Close,
        Request::Parsed { addr, port, consumed } => {
            &&& s matches Step::Connect { reply, addr: a, port: p, rest }
            &&& reply@ == granted()
            &&& a@ == addr
            &&& p == port
            &&& rest@ == tail.skip(consumed as int)
        },
    }
}

impl Actor {
    /// All the bytes received before the request was granted.
    pub closed spec fn received(&self) -> Seq<u8> {
        self.buf@
    }

    /// The number of bytes that the greeting took, once a method is selected.
    pub closed spec fn greeting_len(&self) -> nat {
        self.consumed as nat
    }

    /// Where the session stands.
    pub closed spec fn phase(&self) -> Phase {
        self.phase
    }

    /// What holds of every session: the greeting lies within what was received.
    pub closed spec fn wf(&self) -> bool {
        self.consumed <= self.buf@.len()
    }

    /// A session of which nothing was received yet.
    pub fn new() -> (a: Actor)
        ensures
            a.wf(),
            a.phase() == Phase::Greeting,
            a.received() == Seq::<u8>::empty(),
            a.greeting_len() == 0,
    {
        Actor { buf: Vec::new(), consumed: 0, phase: Phase::Greeting }
    }

    /// Where the session stands.
    pub fn current_phase(&self) -> (p: Phase)
        ensures
            p == self.phase(),
    {
        self.phase
    }

    /// Takes the next packet from the client and says what to do.
    ///
    /// While the greeting is awaited, the packet is added to what was received
    /// and the whole is read as a greeting. Once a method is selected, the
    /// request is read from what follows the greeting, and only when a further
    /// packet has come. After the request was granted, and after a failure,
    /// nothing is kept.
    pub fn on_packet(&mut self, packet: &[u8]) -> (step: Step)
        requires
            old(self).wf(),
        ensures
            final(self).wf(),
            match old(self).phase() {
                Phase::Greeting => {
                    let all = old(self).received() + packet@;
                    let g = greeting(all);
                    &&& greeting_step(g, step)
                    &&& final(self).received() == all
                    &&& final(self).phase() == (match g {
                        Greeting::Incomplete => Phase::Greeting,
                        Greeting::Accepted { .. } => Phase::Request,
                        _ => Phase::Closed,
                    })
                    &&& g matches Greeting::Accepted { consumed } ==> final(self).greeting_len()
                        == consumed
                },
                Phase::Request => {
                    let all = old(self).received() + packet@;
                    let tail = all.skip(old(self).greeting_len() as int);
                    let r = request(tail);
                    &&& request_step(r, tail, step)
                    &&& final(self).received() == all
                    &&& final(self).greeting_len() == old(self).greeting_len()
                    &&& final(self).phase() == (match r {
                        Request::Incomplete => Phase::Request,
                        Request::Parsed { .. } => Phase::Relay,
                        _ => Phase::Closed,
                    })
                },
                Phase::Relay => step is Forward && *final(self) == *old(self),
                Phase::Closed => step is Close && *final(self) == *old(self),
            },
    {
        match self.phase {
            Phase::Greeting => {
                append(&mut self.buf, packet);
                let (step, consumed) = read_greeting(self.buf.as_slice());
                match &step {
                    Step::Wait => {},
                    Step::Select { .. } => {
                        self.consumed = consumed;
                        self.phase = Phase::Request;
                    },
                    _ => {
                        self.phase = Phase::Closed;
                    },
                }
                step
            },
            Phase::Request => {
                append(&mut self.buf, packet);
                let step = read_request(self.buf.as_slice(), self.consumed);
                match &step {
                    Step::Wait => {},
                    Step::Connect { .. } => {
                        self.phase = Phase::Relay;
                    },
                    _ => {
                        self.phase = Phase::Closed;
                    },
                }
                step
            },
            Phase::Relay => Step::Forward,
            Phase::Closed => Step::Close,
        }
    }
}

/// Reads the greeting in `buf` and gives the step that follows, with the
/// length of the greeting where it is complete.
pub fn read_greeting(buf: &[u8]) -> (r: (Step, usize))
    ensures
        greeting_step(greeting(buf@), r.0),
        greeting(buf@) matches Greeting::Accepted { consumed } ==> r.1 == consumed,
        r.1 <= buf@.len(),
{
    if buf.len() < 2 {
        return (Step::Wait, 0);
    }
    if buf[0] != VERSION {
        return (Step::Close, 0);
    }
    let n_methods = buf[1] as usize;
    if buf.len() - 2 < n_methods {
        return (Step::Wait, 0);
    }
    if !contains_in(buf, 2, 2 + n_methods, NO_AUTH) {
        let mut reply: Vec<u8> = Vec::new();
        reply.push(5);
        reply.push(0xff);
        assert(reply@ =~= seq![5u8, 0xffu8]);
        return (Step::Refuse { reply }, 0);
    }
    let mut reply: Vec<u8> = Vec::new();
    reply.push(5);
    reply.push(0);
    assert(reply@ =~= seq![5u8, 0u8]);
    (Step::Select { reply }, 2 + n_methods)
}

/// Reads the request that starts at `from` in `buf` and gives the step that
/// follows.
pub fn read_request(buf: &[u8], from: usize) -> (step: Step)
    requires
        from <= buf@.len(),
    ensures
        request_step(request(buf@.skip(from as int)), buf@.skip(from as int), step),
{
    let ghost tail = buf@.skip(from as int);
    let len = buf.len() - from;
    if len < 4 {
        return Step::Wait;
    }
    assert(tail[0] == buf@[from as int] && tail[3] == buf@[from + 3]);
    if buf[from] != VERSION {
        return Step::Close;
    }
    let atyp = buf[from + 3];
    if atyp != 1 && atyp != 3 && atyp != 4 {
        return Step::Close;
    }
    if len < 5 {
        return Step::Wait;
    }
    assert(tail[4] == buf@[from + 4]);
    let n: usize = if atyp == 1 {
        4
    } else if atyp == 4 {
        16
    } else {
        1 + buf[from + 4] as usize
    };
    if len - 4 < n + 2 {
        return Step::Wait;
    }
    let addr = if atyp == 1 {
        assert(buf@.subrange(from + 4, from + 8) =~= tail.subrange(4, 8));
        Addr::v4_at(buf, from + 4)
    } else if atyp == 4 {
        assert(buf@.subrange(from + 4, from + 20) =~= tail.subrange(4, 20));
        Addr::v6_at(buf, from + 4)
    } else {
        assert(buf@.subrange(from + 5, from + 4 + n) =~= tail.subrange(5, 5 + tail[4]));
        Addr::Domain(copy_range(buf, from + 5, from + 4 + n))
    };
    let hi = buf[from + 4 + n];
    let lo = buf[from + 5 + n];
    assert(tail[4 + n] == hi && tail[5 + n] == lo);
    let port: u16 = (hi as u16) * 256 + lo as u16;
    let end = from + 4 + n + 2;
    let rest = copy_range(buf, end, buf.len());
    assert(rest@ =~= tail.skip(4 + n + 2));
    let mut reply: Vec<u8> = Vec::new();
    reply.push(5);
    reply.push(0);
    reply.push(0);
    reply.push(1);
    reply.push(0);
    reply.push(0);
    reply.push(0);
    reply.push(0);
    reply.push(0);
    reply.push(0);
    assert(reply@ =~= granted());
    Step::Connect { reply, addr, port, rest }
}

/// The fields that the component declares.
pub open spec fn fields() -> Seq<FieldValue> {
    seq![
        FieldValue { name: "outputs"@, kind: Kind::List },
        FieldValue { name: "function_name"@, kind: Kind::Str },
    ]
}

/// Whether the arguments make a server, or the misuse that is reported. A
/// server has one output; there is no client.
pub open spec fn create_spec(args: Seq<(Seq<char>, ArgValue)>) -> Result<(), ErrorValue> {
    match parse_spec(fields(), args) {
        Err(e) => Err(misfit(e)),
        Ok(values) => if text_of(values, 1) == Some("socks5_server"@) {
            if list_len_of(values, 0) == Some(1nat) {
                Ok(())
            } else {
                Err(misuse("socks5 must have exactly 1 output"@))
            }
        } else if text_of(values, 1) == Some("socks5_client"@) {
            Err(misuse("socks5_client is not available"@))
        } else {
            Err(misuse("unknown function"@))
        },
    }
}

/// Checks the arguments of a node of the pipeline that asks for a server.
pub fn create(arguments: &[(String, Argument)]) -> (r: Result<(), Error>)
    ensures
        match create_spec(pairs_view(arguments@)) {
            Ok(_) => r is Ok,
            Err(e) => r is Err && r->Err_0@ == e,
        },
{
    let mut declared: Vec<Field> = Vec::new();
    declared.push(Field::new("outputs", Kind::List));
    declared.push(Field::new("function_name", Kind::Str));
    assert(field_values(declared@) =~= fields());
    let values = match fit(arguments, declared.as_slice()) {
        Ok(values) => values,
        Err(e) => {
            return Err(e);
        },
    };
    let function = text_at(&values, 1);
    if text_is(function, "socks5_server") {
        match list_len_at(&values, 0) {
            Some(1) => Ok(()),
            _ => Err(Error::misused("socks5 must have exactly 1 output")),
        }
    } else if text_is(function, "socks5_client") {
        Err(Error::misused("socks5_client is not available"))
    } else {
        Err(Error::misused("unknown function"))
    }
}

/// The component, as it is registered with the pipeline.
pub fn init() -> (c: Component)
    ensures
        c == Component::Socks5,
{
    Component::Socks5
}

} // verus!

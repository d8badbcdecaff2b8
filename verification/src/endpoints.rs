//! Plain TCP endpoints, told apart by their direction.

use vstd::prelude::*;

verus! {

/// The component of the plain TCP endpoints.
#[derive(Debug, Clone, Copy, PartialEq, Eq, Structural)]
pub struct TcpComponent;

/// A TCP endpoint as a node asks for it: one that listens on a port and
/// hands its streams forward, or one at the far end, which has no output.
#[derive(Debug, Clone, Copy, PartialEq, Eq, Structural)]
pub enum TcpInstance {
    Forward { port: u16 },
    Backward,
}

/// The actor of a TCP endpoint.
#[derive(Debug, Clone, Copy, PartialEq, Eq, Structural)]
pub struct TcpActor {}

/// The endpoint that a direction, a number of outputs and a port ask for: a
/// forward endpoint has one output and a port that fits sixteen bits, a
/// backward endpoint has no output.
pub open spec fn instance_of(direction: Seq<char>, n_outputs: i64, port: Option<i64>) -> Option<
    TcpInstance,
> {
    if direction == "forward"@ {
        if n_outputs == 1 && port is Some && 0 <= port.unwrap() <= 65535 {
            Some(TcpInstance::Forward { port: port.unwrap() as u16 })
        } else {
            None
        }
    } else if direction == "backward"@ {
        if n_outputs == 0 {
            Some(TcpInstance::Backward)
        } else {
            None
        }
    } else {
        None
    }
}

impl TcpComponent {
    /// Makes the endpoint that a node asks for, if what it asks for fits.
    pub fn create(&self, direction: &str, n_outputs: i64, port: Option<i64>) -> (r: Option<
        TcpInstance,
    >)
        ensures
            r == instance_of(direction@, n_outputs, port),
    {
        let wanted = String::from_str(direction);
        if wanted == String::from_str("forward") {
            match port {
                Some(p) => if n_outputs == 1 && 0 <= p && p <= 65535 {
                    Some(TcpInstance::Forward { port: p as u16 })
                } else {
                    None
                },
                None => None,
            }
        } else if wanted == String::from_str("backward") {
            if n_outputs == 0 {
                Some(TcpInstance::Backward)
            } else {
                None
            }
        } else {
            None
        }
    }
}

} // verus!

//! A node that limits what passes in an interval, and loses packets at a rate.

use vstd::prelude::*;
use crate::components::Component;
use crate::argument::{pairs_view, ArgValue, Argument};
use crate::error::{Error, ErrorValue};
use crate::helper::{
    field_values, fit, list_len_at, list_len_of, misfit, misuse, number_at, number_of,
    parse_spec, Field, FieldValue, Kind,
};

verus! {

/// What may pass in one interval: a number of bytes, a number of packets, or
/// both, or anything.
#[derive(Debug, Clone, Copy, PartialEq, Eq, Structural)]
pub struct Budget {
    pub size: Option<i64>,
    pub n_packets: Option<i64>,
}

/// A node that limits what passes, and loses packets at a given rate.
#[derive(Debug, Clone, Copy, PartialEq, Eq, Structural)]
pub struct Actor {
    /// The share of packets that are lost, in hundredths.
    pub drop_rate: Option<u64>,
    /// The length of an interval, in milliseconds.
    pub interval: u64,
    pub budget: Budget,
}

/// The fields that the component declares.
pub open spec fn fields() -> Seq<FieldValue> {
    seq![
        FieldValue { name: "size"@, kind: Kind::Int },
        FieldValue { name: "n_packets"@, kind: Kind::Int },
        FieldValue { name: "drop_rate"@, kind: Kind::Int },
        FieldValue { name: "interval"@, kind: Kind::Int },
        FieldValue { name: "outputs"@, kind: Kind::List },
        FieldValue { name: "function_name"@, kind: Kind::Str },
    ]
}

/// A limit as it is kept: it fits a signed number of 64 bits.
pub open spec fn limit_of(value: Option<u64>) -> Option<i64> {
    match value {
        Some(v) => Some(v as i64),
        None => None,
    }
}

/// Whether a limit is too large to be kept.
pub open spec fn too_large(value: Option<u64>) -> bool {
    value is Some && value.unwrap() > i64::MAX
}

/// What the arguments make of the component, or the misuse that is
/// reported. An interval is one second where none is given.
pub open spec fn create_spec(args: Seq<(Seq<char>, ArgValue)>) -> Result<Actor, ErrorValue> {
    match parse_spec(fields(), args) {
        Err(e) => Err(misfit(e)),
        Ok(values) => if list_len_of(values, 4) != Some(1nat) {
            Err(misuse("throttle must have exactly 1 output"@))
        } else if too_large(number_of(values, 0)) || too_large(number_of(values, 1)) {
            Err(misuse("the input number does not fit `i64`"@))
        } else {
            Ok(
                Actor {
                    drop_rate: number_of(values, 2),
                    interval: match number_of(values, 3) {
                        Some(ms) => ms,
                        None => 1000,
                    },
                    budget: Budget {
                        size: limit_of(number_of(values, 0)),
                        n_packets: limit_of(number_of(values, 1)),
                    },
                },
            )
        },
    }
}

fn limit(value: Option<u64>) -> (r: Option<Option<i64>>)
    ensures
        r == if too_large(value) {
            None
        } else {
            Some(limit_of(value))
        },
{
    match value {
        Some(v) => if v > i64::MAX as u64 {
            None
        } else {
            Some(Some(v as i64))
        },
        None => Some(None),
    }
}

/// Makes the node that the pipeline asks for.
pub fn create(arguments: &[(String, Argument)]) -> (r: Result<Actor, Error>)
    ensures
        match create_spec(pairs_view(arguments@)) {
            Ok(a) => r == Ok::<Actor, Error>(a),
            Err(e) => r is Err && r->Err_0@ == e,
        },
{
    let mut declared: Vec<Field> = Vec::new();
    declared.push(Field::new("size", Kind::Int));
    declared.push(Field::new("n_packets", Kind::Int));
    declared.push(Field::new("drop_rate", Kind::Int));
    declared.push(Field::new("interval", Kind::Int));
    declared.push(Field::new("outputs", Kind::List));
    declared.push(Field::new("function_name", Kind::Str));
    assert(field_values(declared@) =~= fields());
    let values = match fit(arguments, declared.as_slice()) {
        Ok(values) => values,
        Err(e) => {
            return Err(e);
        },
    };
    match list_len_at(&values, 4) {
        Some(1) => {},
        _ => {
            return Err(Error::misused("throttle must have exactly 1 output"));
        },
    }
    let size = limit(number_at(&values, 0));
    let n_packets = limit(number_at(&values, 1));
    match (size, n_packets) {
        (Some(size), Some(n_packets)) => Ok(
            Actor {
                drop_rate: number_at(&values, 2),
                interval: match number_at(&values, 3) {
                    Some(ms) => ms,
                    None => 1000,
                },
                budget: Budget { size, n_packets },
            },
        ),
        _ => Err(Error::misused("the input number does not fit `i64`")),
    }
}

/// What becomes of a packet.
#[derive(Debug, Clone, Copy, PartialEq, Eq, Structural)]
pub enum Verdict {
    /// The packet is lost.
    Drop,
    /// The packet is sent, after waiting for the start of the next interval
    /// as many times as given.
    Send { waits: u8 },
}

/// What is left of a limit when `used` is taken from it, and whether that
/// uses the limit up, so that the next interval must be waited for.
pub open spec fn spend(limit: Option<i64>, used: int) -> (Option<i64>, bool) {
    match limit {
        Some(v) => (Some((v - used) as i64), v - used < 0),
        None => (None, false),
    }
}

/// The verdict on a packet of `len` bytes and the budget left afterwards.
/// `full` is the budget of a whole interval and `left` what is left of it;
/// `elapsed` says that the interval is over, so a new one starts; `lost`
/// says that the packet is among those that are lost. A packet that is not
/// lost counts against the packets first, then against the bytes; where it
/// uses a limit up, the next interval is waited for and starts with the
/// whole budget.
pub open spec fn verdict(full: Budget, left: Budget, elapsed: bool, lost: bool, len: int) -> (
    Verdict,
    Budget,
) {
    let start = if elapsed {
        full
    } else {
        left
    };
    if lost {
        (Verdict::Drop, start)
    } else {
        let (packets, first_wait) = spend(start.n_packets, 1);
        let counted = if first_wait {
            full
        } else {
            Budget { n_packets: packets, ..start }
        };
        let (size, second_wait) = spend(counted.size, len);
        let sized = if second_wait {
            full
        } else {
            Budget { size, ..counted }
        };
        (
            Verdict::Send {
                waits: if first_wait && second_wait {
                    2u8
                } else if first_wait || second_wait {
                    1u8
                } else {
                    0u8
                },
            },
            sized,
        )
    }
}

impl Budget {
    /// A budget of which nothing is overdrawn.
    pub open spec fn sound(self) -> bool {
        &&& self.size matches Some(s) ==> s >= 0
        &&& self.n_packets matches Some(n) ==> n >= 0
    }
}

impl Actor {
    /// Judges the next packet of one direction of a stream, of `len` bytes,
    /// and brings the budget of the direction up to date.
    pub fn throttle(&self, left: &mut Budget, elapsed: bool, lost: bool, len: usize) -> (v: Verdict)
        requires
            self.budget.sound(),
            old(left).sound(),
            len <= i64::MAX,
        ensures
            (v, *final(left)) == verdict(self.budget, *old(left), elapsed, lost, len as int),
            final(left).sound(),
    {
        if elapsed {
            *left = self.budget;
        }
        if lost {
            return Verdict::Drop;
        }
        let mut waits: u8 = 0;
        match left.n_packets {
            Some(n) => {
                if n - 1 < 0 {
                    *left = self.budget;
                    waits += 1;
                } else {
                    left.n_packets = Some(n - 1);
                }
            },
            None => {},
        }
        match left.size {
            Some(s) => {
                if s - (len as i64) < 0 {
                    *left = self.budget;
                    waits += 1;
                } else {
                    left.size = Some(s - len as i64);
                }
            },
            None => {},
        }
        Verdict::Send { waits }
    }
}

/// The component, as it is registered with the pipeline.
pub fn init() -> (c: Component)
    ensures
        c == Component::Throttle,
{
    Component::Throttle
}

} // verus!

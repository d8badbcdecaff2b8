//! A node that sends back what it receives.

use vstd::prelude::*;
use crate::components::Component;
use crate::argument::{pairs_view, ArgValue, Argument};
use crate::error::{Error, ErrorValue};
use crate::helper::misuse;
use crate::tee::{count_outputs, outputs_len};

verus! {

/// A node that sends back what it receives.
#[derive(Debug, Clone, Copy, PartialEq, Eq, Structural)]
pub struct Actor;

/// The component takes the arguments of a node that has no output.
pub open spec fn create_spec(args: Seq<(Seq<char>, ArgValue)>) -> Result<(), ErrorValue> {
    if outputs_len(args) == Some(0nat) {
        Ok(())
    } else {
        Err(misuse("echo takes no output"@))
    }
}

/// Makes the node that the pipeline asks for.
pub fn create(arguments: &[(String, Argument)]) -> (r: Result<Actor, Error>)
    ensures
        match create_spec(pairs_view(arguments@)) {
            Ok(_) => r is Ok,
            Err(e) => r is Err && r->Err_0@ == e,
        },
{
    match count_outputs(arguments) {
        Some(0) => Ok(Actor),
        _ => Err(Error::misused("echo takes no output")),
    }
}

/// The component, as it is registered with the pipeline.
pub fn init() -> (c: Component)
    ensures
        c == Component::Echo,
{
    Component::Echo
}

} // verus!

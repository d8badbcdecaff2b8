//! A node that swallows what it receives.

use vstd::prelude::*;
use crate::components::Component;
use crate::argument::Argument;
use crate::error::Error;

verus! {

/// A node that receives and sends nothing on.
#[derive(Debug, Clone, Copy, PartialEq, Eq, Structural)]
pub struct Actor;

/// Makes the node that the pipeline asks for, whatever the arguments.
pub fn create(arguments: &[(String, Argument)]) -> (r: Result<Actor, Error>)
    ensures
        r is Ok,
{
    Ok(Actor)
}

/// The component, as it is registered with the pipeline.
pub fn init() -> (c: Component)
    ensures
        c == Component::Drop,
{
    Component::Drop
}

} // verus!

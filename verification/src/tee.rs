//! A node that copies a stream to all its outputs.

use vstd::prelude::*;
use crate::components::Component;
use crate::argument::{lemma_list_view, pairs_view, ArgValue, Argument};
use crate::error::{Error, ErrorValue};
use crate::helper::misuse;

verus! {

/// A node that copies each frame to all its outputs, and hands what comes
/// back from any of them to its input.
#[derive(Debug, Clone, Copy, PartialEq, Eq, Structural)]
pub struct Actor {
    n_outputs: usize,
}

/// The length of the list given as `outputs`, the first of that name
/// counting, if there is one.
pub open spec fn outputs_len(args: Seq<(Seq<char>, ArgValue)>) -> Option<nat>
    decreases args.len(),
{
    if args.len() == 0 {
        None
    } else if args[0].0 == "outputs"@ {
        match args[0].1 {
            ArgValue::List(l) => Some(l.len()),
            _ => None,
        }
    } else {
        outputs_len(args.drop_first())
    }
}

/// Reads the number of outputs from the arguments of a node.
pub fn count_outputs(arguments: &[(String, Argument)]) -> (r: Option<usize>)
    ensures
        match outputs_len(pairs_view(arguments@)) {
            Some(n) => r is Some && r->Some_0 as nat == n,
            None => r is None,
        },
{
    let ghost all = pairs_view(arguments@);
    let wanted = String::from_str("outputs");
    let mut i: usize = 0;
    assert(all.skip(0) =~= all);
    while i < arguments.len()
        invariant
            i <= arguments@.len(),
            all == pairs_view(arguments@),
            wanted@ == "outputs"@,
            outputs_len(all) == outputs_len(all.skip(i as int)),
        decreases arguments@.len() - i,
    {
        let ghost rest = all.skip(i as int);
        assert(rest[0] == all[i as int]);
        assert(rest.drop_first() =~= all.skip(i + 1));
        if arguments[i].0 == wanted {
            return match &arguments[i].1 {
                Argument::Vec(v) => {
                    proof {
                        lemma_list_view(*v);
                    }
                    Some(v.len())
                },
                _ => None,
            };
        }
        i += 1;
    }
    None
}

impl Actor {
    #[verifier::type_invariant]
    spec fn has_outputs(self) -> bool {
        self.n_outputs > 0
    }

    /// The number of outputs, each of which gets every frame.
    pub closed spec fn n_outputs(&self) -> nat {
        self.n_outputs as nat
    }

    /// The number of outputs, each of which gets every frame.
    pub fn outputs(&self) -> (n: usize)
        ensures
            n == self.n_outputs(),
            n > 0,
    {
        proof {
            use_type_invariant(self);
        }
        self.n_outputs
    }
}

/// What the arguments make of the component: the number of its outputs,
/// which is one at least.
pub open spec fn create_spec(args: Seq<(Seq<char>, ArgValue)>) -> Result<nat, ErrorValue> {
    match outputs_len(args) {
        Some(n) => if n >= 1 {
            Ok(n)
        } else {
            Err(misuse("tee needs an output"@))
        },
        None => Err(misuse("tee needs an output"@)),
    }
}

/// Makes the node that the pipeline asks for.
pub fn create(arguments: &[(String, Argument)]) -> (r: Result<Actor, Error>)
    ensures
        match create_spec(pairs_view(arguments@)) {
            Ok(n) => r is Ok && r->Ok_0.n_outputs() == n,
            Err(e) => r is Err && r->Err_0@ == e,
        },
{
    match count_outputs(arguments) {
        Some(n) => if n >= 1 {
            Ok(Actor { n_outputs: n })
        } else {
            Err(Error::misused("tee needs an output"))
        },
        None => Err(Error::misused("tee needs an output")),
    }
}

/// The component, as it is registered with the pipeline.
pub fn init() -> (c: Component)
    ensures
        c == Component::Tee,
{
    Component::Tee
}

} // verus!

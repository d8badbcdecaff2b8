//! A node that spreads new streams over its outputs in turn.

use vstd::prelude::*;
use crate::components::Component;
use crate::argument::{pairs_view, ArgValue, Argument};
use crate::error::{Error, ErrorValue};
use crate::helper::{
    field_values, fit, list_len_at, list_len_of, misfit, misuse, parse_spec, text_at, text_is,
    text_of, Field, FieldValue, Kind,
};

verus! {

/// A node that hands each new stream to the next of its outputs in turn.
#[derive(Debug, Clone, Copy, PartialEq, Eq, Structural)]
pub struct Actor {
    n_outputs: usize,
}

/// The fields that the component declares.
pub open spec fn fields() -> Seq<FieldValue> {
    seq![
        FieldValue { name: "method"@, kind: Kind::Str },
        FieldValue { name: "outputs"@, kind: Kind::List },
        FieldValue { name: "function_name"@, kind: Kind::Str },
    ]
}

/// What the arguments make of the component: the number of its outputs, or
/// the misuse that is reported. The only method is `round_robin`, which is
/// also what no method means; there is one output at least.
pub open spec fn create_spec(args: Seq<(Seq<char>, ArgValue)>) -> Result<nat, ErrorValue> {
    match parse_spec(fields(), args) {
        Err(e) => Err(misfit(e)),
        Ok(values) => if text_of(values, 0) is Some && text_of(values, 0) != Some(
            "round_robin"@,
        ) {
            Err(misuse("unknown balance method"@))
        } else {
            match list_len_of(values, 1) {
                Some(n) => if n > 0 {
                    Ok(n)
                } else {
                    Err(misuse("balance needs an output"@))
                },
                None => Err(misuse("balance needs an output"@)),
            }
        },
    }
}

impl Actor {
    #[verifier::type_invariant]
    spec fn has_outputs(self) -> bool {
        self.n_outputs > 0
    }

    /// The number of outputs that take turns.
    pub closed spec fn n_outputs(&self) -> nat {
        self.n_outputs as nat
    }

    /// A node with `n_outputs` outputs, or nothing where there is none.
    pub fn new(n_outputs: usize) -> (a: Option<Actor>)
        ensures
            match a {
                Some(actor) => n_outputs > 0 && actor.n_outputs() == n_outputs,
                None => n_outputs == 0,
            },
    {
        if n_outputs == 0 {
            None
        } else {
            Some(Actor { n_outputs })
        }
    }

    /// The output for the stream with number `count`, the streams being
    /// counted from zero: the outputs take turns.
    pub fn pick(&self, count: u64) -> (index: usize)
        ensures
            index == count as int % self.n_outputs() as int,
            index < self.n_outputs(),
    {
        proof {
            use_type_invariant(self);
        }
        (count % (self.n_outputs as u64)) as usize
    }

    /// The output for the next stream; the count of streams goes on by one,
    /// and starts again from zero after the last number.
    pub fn next(&self, count: &mut u64) -> (index: usize)
        ensures
            index == *old(count) as int % self.n_outputs() as int,
            index < self.n_outputs(),
            *final(count) == if *old(count) == u64::MAX {
                0
            } else {
                *old(count) + 1
            },
    {
        let index = self.pick(*count);
        *count = count.wrapping_add(1);
        index
    }
}

/// Makes the node that the pipeline asks for.
pub fn create(arguments: &[(String, Argument)]) -> (r: Result<Actor, Error>)
    ensures
        match create_spec(pairs_view(arguments@)) {
            Ok(n) => r is Ok && r->Ok_0.n_outputs() == n,
            Err(e) => r is Err && r->Err_0@ == e,
        },
{
    let mut declared: Vec<Field> = Vec::new();
    declared.push(Field::new("method", Kind::Str));
    declared.push(Field::new("outputs", Kind::List));
    declared.push(Field::new("function_name", Kind::Str));
    assert(field_values(declared@) =~= fields());
    let values = match fit(arguments, declared.as_slice()) {
        Ok(values) => values,
        Err(e) => {
            return Err(e);
        },
    };
    let method = text_at(&values, 0);
    if method.is_some() && !text_is(method, "round_robin") {
        return Err(Error::misused("unknown balance method"));
    }
    match list_len_at(&values, 1) {
        Some(n) => match Actor::new(n) {
            Some(actor) => Ok(actor),
            None => Err(Error::misused("balance needs an output")),
        },
        None => Err(Error::misused("balance needs an output")),
    }
}

/// The component, as it is registered with the pipeline.
pub fn init() -> (c: Component)
    ensures
        c == Component::Balance,
{
    Component::Balance
}

} // verus!

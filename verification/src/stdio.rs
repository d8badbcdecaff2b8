//! Nodes for the standard input and the standard output.

use vstd::prelude::*;
use crate::components::Component;
use crate::argument::{pairs_view, ArgValue, Argument};
use crate::error::{Error, ErrorValue};
use crate::helper::{
    field_values, fit, given, is_given, list_len_at, list_len_of, misfit, misuse, parse_spec,
    text_at, text_is, text_of, Field, FieldValue, Kind,
};

verus! {

/// Which of the three functions of the component a node calls.
#[derive(Debug, Clone, Copy, PartialEq, Eq, Structural)]
pub enum FuncName {
    STDIN,
    STDOUT,
    STDIO,
}

/// A node that reads the standard input or writes the standard output.
#[derive(Debug, Clone, Copy, PartialEq, Eq, Structural)]
pub struct Actor {
    pub func: FuncName,
    pub has_output: bool,
    pub no_flush: bool,
    pub buffer_size: usize,
}

/// The fields that the component declares.
pub open spec fn fields() -> Seq<FieldValue> {
    seq![
        FieldValue { name: "outputs"@, kind: Kind::List },
        FieldValue { name: "function_name"@, kind: Kind::Str },
        FieldValue { name: "no_flush"@, kind: Kind::Flag },
    ]
}

/// The function that a name stands for.
pub open spec fn func_of(name: Option<Seq<char>>) -> Option<FuncName> {
    if name == Some("stdin"@) {
        Some(FuncName::STDIN)
    } else if name == Some("stdout"@) {
        Some(FuncName::STDOUT)
    } else if name == Some("stdio"@) {
        Some(FuncName::STDIO)
    } else {
        None
    }
}

/// What the arguments make of the component, or the misuse that is
/// reported. A node has one output at most, and reads 1024 bytes at a time.
pub open spec fn create_spec(args: Seq<(Seq<char>, ArgValue)>) -> Result<Actor, ErrorValue> {
    match parse_spec(fields(), args) {
        Err(e) => Err(misfit(e)),
        Ok(values) => match func_of(text_of(values, 1)) {
            None => Err(misuse("unknown function"@)),
            Some(func) => match list_len_of(values, 0) {
                Some(n) => if n <= 1 {
                    Ok(
                        Actor {
                            func,
                            has_output: n == 1,
                            no_flush: given(values, 2),
                            buffer_size: 1024,
                        },
                    )
                } else {
                    Err(misuse("too many outputs"@))
                },
                None => Err(misuse("too many outputs"@)),
            },
        },
    }
}

/// Makes the node that the pipeline asks for.
pub fn create(arguments: &[(String, Argument)]) -> (r: Result<Actor, Error>)
    ensures
        match create_spec(pairs_view(arguments@)) {
            Ok(a) => r == Ok::<Actor, Error>(a),
            Err(e) => r is Err && r->Err_0@ == e,
        },
{
    let mut declared: Vec<Field> = Vec::new();
    declared.push(Field::new("outputs", Kind::List));
    declared.push(Field::new("function_name", Kind::Str));
    declared.push(Field::new("no_flush", Kind::Flag));
    assert(field_values(declared@) =~= fields());
    let values = match fit(arguments, declared.as_slice()) {
        Ok(values) => values,
        Err(e) => {
            return Err(e);
        },
    };
    let name = text_at(&values, 1);
    let func = if text_is(name, "stdin") {
        FuncName::STDIN
    } else if text_is(name, "stdout") {
        FuncName::STDOUT
    } else if text_is(name, "stdio") {
        FuncName::STDIO
    } else {
        return Err(Error::misused("unknown function"));
    };
    let has_output = match list_len_at(&values, 0) {
        Some(0) => false,
        Some(1) => true,
        _ => {
            return Err(Error::misused("too many outputs"));
        },
    };
    Ok(Actor { func, has_output, no_flush: is_given(&values, 2), buffer_size: 1024 })
}

/// How a node at the start of a pipeline works.
#[derive(Debug, Clone, Copy, PartialEq, Eq, Structural)]
pub enum SourcePlan {
    /// What is read goes to the output, and what comes back is written.
    Piped,
    /// What is read is written.
    Echo,
}

impl Actor {
    /// Whether the node can stand at the end of a pipeline: only `stdout`
    /// can, and without an output.
    pub fn check_sink(&self) -> (r: Result<(), Error>)
        ensures
            match r {
                Ok(_) => !self.has_output && self.func == FuncName::STDOUT,
                Err(e) => (self.has_output || self.func != FuncName::STDOUT) && e@ == if self.has_output {
                    misuse("stdout takes no output"@)
                } else {
                    misuse("sink node can only be stdout"@)
                },
            },
    {
        if self.has_output {
            return Err(Error::misused("stdout takes no output"));
        }
        match self.func {
            FuncName::STDOUT => Ok(()),
            _ => Err(Error::misused("sink node can only be stdout")),
        }
    }

    /// How the node works at the start of a pipeline, where `stdout` cannot
    /// stand.
    pub fn check_source(&self) -> (r: Result<SourcePlan, Error>)
        ensures
            match r {
                Ok(plan) => self.func != FuncName::STDOUT && plan == if self.has_output {
                    SourcePlan::Piped
                } else {
                    SourcePlan::Echo
                },
                Err(e) => self.func == FuncName::STDOUT && e@ == misuse(
                    "stdout cannot be a source"@,
                ),
            },
    {
        match self.func {
            FuncName::STDOUT => Err(Error::misused("stdout cannot be a source")),
            _ => if self.has_output {
                Ok(SourcePlan::Piped)
            } else {
                Ok(SourcePlan::Echo)
            },
        }
    }
}

/// The component, as it is registered with the pipeline.
pub fn init() -> (c: Component)
    ensures
        c == Component::Stdio,
{
    Component::Stdio
}

} // verus!

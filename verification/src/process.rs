//! A node that pipes a stream through a program.

use vstd::prelude::*;
use crate::components::Component;
use crate::argument::{lemma_list_view, pairs_view, ArgValue, Argument};
use crate::error::{Error, ErrorValue};
use crate::helper::misuse;

verus! {

/// A node that runs a program and carries the data of the pipeline through
/// its standard input and output.
#[derive(Debug)]
pub struct Actor {
    pub has_output: bool,
    /// The program and its arguments.
    pub args: Vec<String>,
}

/// What an [`Actor`] stands for.
pub struct ActorValue {
    pub has_output: bool,
    pub args: Seq<Seq<char>>,
}

impl View for Actor {
    type V = ActorValue;

    open spec fn view(&self) -> ActorValue {
        ActorValue { has_output: self.has_output, args: self.args@.map_values(|s: String| s@) }
    }
}

/// What the first `n` arguments of a node give: the words of the command
/// line, which are the positional arguments, and the number of outputs,
/// where it was given; or the misuse that is reported for the first
/// argument that does not fit.
pub open spec fn scan(args: Seq<(Seq<char>, ArgValue)>, n: int) -> Result<
    (Seq<Seq<char>>, Option<nat>),
    ErrorValue,
>
    decreases n,
{
    if n <= 0 {
        Ok((Seq::empty(), None))
    } else {
        match scan(args, n - 1) {
            Err(e) => Err(e),
            Ok((words, outputs)) => {
                let (name, value) = args[n - 1];
                if name == ""@ {
                    match value {
                        ArgValue::Text(s) => Ok((words.push(s), outputs)),
                        _ => Err(misuse("wrong argument type"@)),
                    }
                } else if name == "outputs"@ {
                    match value {
                        ArgValue::List(l) => Ok((words, Some(l.len()))),
                        _ => Err(misuse("wrong argument type"@)),
                    }
                } else if name == "function_name"@ {
                    Ok((words, outputs))
                } else {
                    Err(misuse("wrong argument"@))
                }
            },
        }
    }
}

/// What the arguments make of the component, or the misuse that is
/// reported. A node has one output at most.
pub open spec fn create_spec(args: Seq<(Seq<char>, ArgValue)>) -> Result<ActorValue, ErrorValue> {
    match scan(args, args.len() as int) {
        Err(e) => Err(e),
        Ok((words, outputs)) => match outputs {
            Some(n) => if n <= 1 {
                Ok(ActorValue { has_output: n == 1, args: words })
            } else {
                Err(misuse("too many outputs"@))
            },
            None => Err(misuse("too many outputs"@)),
        },
    }
}

proof fn lemma_scan_fails(args: Seq<(Seq<char>, ArgValue)>, k: int, n: int)
    requires
        0 <= k <= n,
        scan(args, k) is Err,
    ensures
        scan(args, n) == scan(args, k),
    decreases n - k,
{
    if k < n {
        lemma_scan_fails(args, k, n - 1);
    }
}

/// Makes the node that the pipeline asks for.
pub fn create(arguments: &[(String, Argument)]) -> (r: Result<Actor, Error>)
    ensures
        match create_spec(pairs_view(arguments@)) {
            Ok(a) => r is Ok && r->Ok_0@ == a,
            Err(e) => r is Err && r->Err_0@ == e,
        },
{
    let ghost all = pairs_view(arguments@);
    let mut words: Vec<String> = Vec::new();
    let mut outputs: Option<usize> = None;
    let empty = String::from_str("");
    let outputs_name = String::from_str("outputs");
    let function_name = String::from_str("function_name");
    let mut i: usize = 0;
    assert(words@.map_values(|s: String| s@) =~= Seq::<Seq<char>>::empty());
    while i < arguments.len()
        invariant
            i <= arguments@.len(),
            all == pairs_view(arguments@),
            empty@ == ""@,
            outputs_name@ == "outputs"@,
            function_name@ == "function_name"@,
            scan(all, i as int) is Ok,
            scan(all, i as int)->Ok_0.0 == words@.map_values(|s: String| s@),
            match scan(all, i as int)->Ok_0.1 {
                Some(n) => outputs is Some && outputs->Some_0 as nat == n,
                None => outputs is None,
            },
        decreases arguments@.len() - i,
    {
        let name = &arguments[i].0;
        let value = &arguments[i].1;
        assert(all[i as int] == (name@, value@));
        let ghost before = words@.map_values(|s: String| s@);
        if *name == empty {
            match value {
                Argument::String(s) => {
                    words.push(s.clone());
                    assert(words@.map_values(|s: String| s@) =~= before.push(s@));
                },
                _ => {
                    proof {
                        assert(scan(all, i + 1) is Err);
                        lemma_scan_fails(all, i + 1, all.len() as int);
                    }
                    return Err(Error::misused("wrong argument type"));
                },
            }
        } else if *name == outputs_name {
            match value {
                Argument::Vec(v) => {
                    proof {
                        lemma_list_view(*v);
                    }
                    outputs = Some(v.len());
                },
                _ => {
                    proof {
                        assert(scan(all, i + 1) is Err);
                        lemma_scan_fails(all, i + 1, all.len() as int);
                    }
                    return Err(Error::misused("wrong argument type"));
                },
            }
        } else if *name == function_name {
        } else {
            proof {
                assert(scan(all, i + 1) is Err);
                lemma_scan_fails(all, i + 1, all.len() as int);
            }
            return Err(Error::misused("wrong argument"));
        }
        i += 1;
    }
    match outputs {
        Some(0) => Ok(Actor { has_output: false, args: words }),
        Some(1) => Ok(Actor { has_output: true, args: words }),
        _ => Err(Error::misused("too many outputs")),
    }
}

impl Actor {
    /// The program to run, if the command line names one.
    pub fn program(&self) -> (p: Option<&String>)
        ensures
            match p {
                Some(name) => self.args@.len() > 0 && *name == self.args@[0],
                None => self.args@.len() == 0,
            },
    {
        if self.args.len() > 0 {
            Some(&self.args[0])
        } else {
            None
        }
    }

    /// Whether the node can stand at the start of a pipeline, where it needs
    /// an output, or take a stream, where it can have none.
    pub fn check(&self, source: bool) -> (r: Result<(), Error>)
        ensures
            match r {
                Ok(_) => self.has_output == source,
                Err(e) => self.has_output != source && e@ == misuse(
                    "exec is wired the wrong way"@,
                ),
            },
    {
        if self.has_output == source {
            Ok(())
        } else {
            Err(Error::misused("exec is wired the wrong way"))
        }
    }
}

/// The component, as it is registered with the pipeline.
pub fn init() -> (c: Component)
    ensures
        c == Component::Exec,
{
    Component::Exec
}

} // verus!

//! The meaning of the script language: what each construct does to the slots and the names.

use vstd::prelude::*;
use crate::argument::ArgValue;
use crate::lexer::{CompileError, TokenValue};

verus! {

/// A call of a function: its name and the arguments written in the script.
pub struct CallValue {
    pub function: Seq<char>,
    pub args: Seq<(Seq<char>, ArgValue)>,
}

/// A slot of the pipeline while the script is read: one call, or two for a
/// composite, and the outputs linked so far, each with the name of the output
/// that it hangs on.
pub struct SlotValue {
    pub forward: CallValue,
    pub backward: Option<CallValue>,
    pub outputs: Seq<(usize, Seq<char>)>,
}

/// What a name stands for.
#[derive(Debug, Clone, Copy, PartialEq, Eq, Structural)]
pub enum SymbolValue {
    /// A slot bound by an assignment.
    CNode(usize),
    /// A function that a component registers.
    Function,
}

/// The state of the interpreter: the slots allocated so far, and the names,
/// where the last binding of a name is the one that counts.
pub struct Scope {
    pub slots: Seq<SlotValue>,
    pub names: Seq<(Seq<char>, SymbolValue)>,
}

/// What `key` stands for among `names`: its last binding.
pub open spec fn lookup(names: Seq<(Seq<char>, SymbolValue)>, key: Seq<char>) -> Option<
    SymbolValue,
>
    decreases names.len(),
{
    if names.len() == 0 {
        None
    } else if names.last().0 == key {
        Some(names.last().1)
    } else {
        lookup(names.drop_last(), key)
    }
}

/// The error for a token that cannot stand at `pos`.
pub open spec fn unexpected(ts: Seq<TokenValue>, pos: int) -> CompileError {
    if 0 <= pos < ts.len() {
        CompileError::UnexpectedToken { at: pos as usize }
    } else {
        CompileError::UnexpectedEnd
    }
}

/// Whether the token at `pos` is there and is `t`.
pub open spec fn at(ts: Seq<TokenValue>, pos: int, t: TokenValue) -> bool {
    0 <= pos < ts.len() && ts[pos] == t
}

/// The literal that the token at `pos` writes, if it is one.
pub open spec fn literal(ts: Seq<TokenValue>, pos: int) -> Option<ArgValue> {
    if 0 <= pos < ts.len() {
        match ts[pos] {
            TokenValue::Int(x) => Some(ArgValue::Number(x)),
            TokenValue::Str(s) => Some(ArgValue::Text(s)),
            _ => None,
        }
    } else {
        None
    }
}

/// A fresh slot for a call of `function`, with no arguments and no outputs yet.
pub open spec fn fresh_slot(function: Seq<char>) -> SlotValue {
    SlotValue {
        forward: CallValue { function, args: Seq::empty() },
        backward: None,
        outputs: Seq::empty(),
    }
}

impl Scope {
    /// The scope with one more slot.
    pub open spec fn allocate(self, slot: SlotValue) -> Scope {
        Scope { slots: self.slots.push(slot), ..self }
    }

    /// The scope with `slot` in the place `index`.
    pub open spec fn with_slot(self, index: int, slot: SlotValue) -> Scope {
        Scope { slots: self.slots.update(index, slot), ..self }
    }

    /// The scope in which `name` stands for `value`.
    pub open spec fn bind(self, name: Seq<char>, value: SymbolValue) -> Scope {
        Scope { names: self.names.push((name, value)), ..self }
    }

    /// Records `to` as an output of the slot `from`, under `name`. A
    /// composite takes one output at most, and keeps no name for it.
    pub open spec fn link(self, from: usize, to: usize, name: Seq<char>) -> Result<
        Scope,
        CompileError,
    > {
        let slot = self.slots[from as int];
        if slot.backward is Some {
            if slot.outputs.len() >= 1 {
                Err(CompileError::CompositeFanOut { node: from })
            } else {
                Ok(
                    self.with_slot(
                        from as int,
                        SlotValue { outputs: slot.outputs.push((to, Seq::empty())), ..slot },
                    ),
                )
            }
        } else {
            Ok(
                self.with_slot(
                    from as int,
                    SlotValue { outputs: slot.outputs.push((to, name)), ..slot },
                ),
            )
        }
    }

    /// Sets the arguments of the forward call of the slot `index`.
    pub open spec fn with_forward_args(self, index: int, args: Seq<(Seq<char>, ArgValue)>) -> Scope {
        let slot = self.slots[index];
        self.with_slot(
            index,
            SlotValue { forward: CallValue { function: slot.forward.function, args }, ..slot },
        )
    }

    /// Sets the arguments of the backward call of the slot `index`, where it
    /// has one.
    pub open spec fn with_backward_args(self, index: int, args: Seq<(Seq<char>, ArgValue)>) -> Scope {
        let slot = self.slots[index];
        match slot.backward {
            Some(call) => self.with_slot(
                index,
                SlotValue { backward: Some(CallValue { function: call.function, args }), ..slot },
            ),
            None => self,
        }
    }

    /// Makes the slot `index` a composite whose backward call is `call`. Its
    /// outputs lose their names.
    pub open spec fn with_backward(self, index: int, call: CallValue) -> Scope {
        let slot = self.slots[index];
        self.with_slot(
            index,
            SlotValue {
                backward: Some(call),
                outputs: slot.outputs.map_values(|o: (usize, Seq<char>)| (o.0, Seq::empty())),
                ..slot
            },
        )
    }
}

/// One argument of a call of the slot `parent`, read at `pos`: a literal, a
/// name with or without a literal after a colon, or an inline pipe, which
/// starts with `=>` or with the name of an output and `=>`, and gives no
/// argument but hangs its chain on `parent`.
pub open spec fn eval_arg(ts: Seq<TokenValue>, pos: int, scope: Scope, parent: usize) -> Result<
    (Scope, int, Option<(Seq<char>, ArgValue)>),
    CompileError,
>
    decreases ts.len() - pos, 1int,
{
    if !(0 <= pos < ts.len()) {
        Err(CompileError::UnexpectedEnd)
    } else if literal(ts, pos) is Some {
        Ok((scope, pos + 1, Some((Seq::empty(), literal(ts, pos).unwrap()))))
    } else if ts[pos] is Arrow {
        match eval_chain(ts, pos + 1, scope, Some(parent), Seq::empty()) {
            Err(e) => Err(e),
            Ok((scope1, pos1, _)) => Ok((scope1, pos1, None)),
        }
    } else if ts[pos] is Ident {
        let name = ts[pos]->Ident_0;
        if at(ts, pos + 1, TokenValue::Arrow) {
            match eval_chain(ts, pos + 2, scope, Some(parent), name) {
                Err(e) => Err(e),
                Ok((scope1, pos1, _)) => Ok((scope1, pos1, None)),
            }
        } else if at(ts, pos + 1, TokenValue::Colon) {
            match literal(ts, pos + 2) {
                Some(value) => Ok((scope, pos + 3, Some((name, value)))),
                None => Err(unexpected(ts, pos + 2)),
            }
        } else {
            Ok((scope, pos + 1, Some((name, ArgValue::Nothing))))
        }
    } else {
        Err(unexpected(ts, pos))
    }
}

/// The arguments of a call of the slot `parent`, read at `pos`, behind the
/// opening bracket or a comma, up to the closing bracket. `acc` holds the
/// arguments read so far; the closing bracket may stand at `pos` only where
/// `first` says that no argument was read yet.
pub open spec fn eval_args(
    ts: Seq<TokenValue>,
    pos: int,
    scope: Scope,
    parent: usize,
    acc: Seq<(Seq<char>, ArgValue)>,
    first: bool,
) -> Result<(Scope, int, Seq<(Seq<char>, ArgValue)>), CompileError>
    decreases ts.len() - pos, 2int,
{
    if !(0 <= pos < ts.len()) {
        Err(CompileError::UnexpectedEnd)
    } else if first && ts[pos] is Close {
        Ok((scope, pos + 1, acc))
    } else {
        match eval_arg(ts, pos, scope, parent) {
            Err(e) => Err(e),
            Ok((scope1, pos1, item)) => {
                let acc1 = match item {
                    Some(pair) => acc.push(pair),
                    None => acc,
                };
                if !(pos < pos1 < ts.len()) {
                    Err(CompileError::UnexpectedEnd)
                } else if ts[pos1] is Close {
                    Ok((scope1, pos1 + 1, acc1))
                } else if ts[pos1] is Comma {
                    eval_args(ts, pos1 + 1, scope1, parent, acc1, false)
                } else {
                    Err(unexpected(ts, pos1))
                }
            },
        }
    }
}

/// The arguments that follow the name of a call, where there are any: a
/// bracketed list at `pos`, or nothing.
pub open spec fn eval_call_args(ts: Seq<TokenValue>, pos: int, scope: Scope, parent: usize) -> Result<
    (Scope, int, Seq<(Seq<char>, ArgValue)>),
    CompileError,
>
    decreases ts.len() - pos, 3int,
{
    if at(ts, pos, TokenValue::Open) {
        eval_args(ts, pos + 1, scope, parent, Seq::empty(), true)
    } else {
        Ok((scope, pos, Seq::empty()))
    }
}

/// The second call of a composite, read at `pos`, behind `!!`: the name of a
/// function and its arguments. It makes the slot `index` a composite.
pub open spec fn eval_backward(ts: Seq<TokenValue>, pos: int, scope: Scope, index: usize) -> Result<
    (Scope, int),
    CompileError,
>
    decreases ts.len() - pos, 4int,
{
    if !(0 <= pos < ts.len()) {
        Err(CompileError::UnexpectedEnd)
    } else if ts[pos] is Ident {
        let name = ts[pos]->Ident_0;
        match lookup(scope.names, name) {
            None => Err(CompileError::UndefinedIdentifier { at: pos as usize }),
            Some(SymbolValue::CNode(_)) => Err(CompileError::NotAFunction { at: pos as usize }),
            Some(SymbolValue::Function) => {
                if scope.slots[index as int].outputs.len() > 1 {
                    Err(CompileError::CompositeFanOut { node: index })
                } else {
                    let scope1 = scope.with_backward(
                        index as int,
                        CallValue { function: name, args: Seq::empty() },
                    );
                    match eval_call_args(ts, pos + 1, scope1, index) {
                        Err(e) => Err(e),
                        Ok((scope2, pos2, args)) => Ok(
                            (scope2.with_backward_args(index as int, args), pos2),
                        ),
                    }
                }
            },
        }
    } else {
        Err(unexpected(ts, pos))
    }
}

/// A node of a chain, read at `pos`: the name of a bound slot, or a call of a
/// function, which allocates a slot, with a second call behind `!!` where the
/// slot is a composite. Gives the index of the slot.
pub open spec fn eval_cnode(ts: Seq<TokenValue>, pos: int, scope: Scope) -> Result<
    (Scope, int, usize),
    CompileError,
>
    decreases ts.len() - pos, 5int,
{
    if !(0 <= pos < ts.len()) {
        Err(CompileError::UnexpectedEnd)
    } else if ts[pos] is Ident {
        let name = ts[pos]->Ident_0;
        match lookup(scope.names, name) {
            None => Err(CompileError::UndefinedIdentifier { at: pos as usize }),
            Some(SymbolValue::CNode(index)) => {
                if at(ts, pos + 1, TokenValue::Open) {
                    Err(CompileError::ArgumentsOnNode { at: pos as usize })
                } else if at(ts, pos + 1, TokenValue::Bang) {
                    Err(CompileError::NotAFunction { at: pos as usize })
                } else {
                    Ok((scope, pos + 1, index))
                }
            },
            Some(SymbolValue::Function) => {
                let index = scope.slots.len() as usize;
                match eval_call_args(ts, pos + 1, scope.allocate(fresh_slot(name)), index) {
                    Err(e) => Err(e),
                    Ok((scope1, pos1, args)) => {
                        let scope2 = scope1.with_forward_args(index as int, args);
                        if !(pos < pos1 <= ts.len()) {
                            Err(CompileError::UnexpectedEnd)
                        } else if at(ts, pos1, TokenValue::Bang) {
                            match eval_backward(ts, pos1 + 1, scope2, index) {
                                Err(e) => Err(e),
                                Ok((scope3, pos3)) => Ok((scope3, pos3, index)),
                            }
                        } else {
                            Ok((scope2, pos1, index))
                        }
                    },
                }
            },
        }
    } else {
        Err(unexpected(ts, pos))
    }
}

/// A chain `node => node => ..`, read at `pos`. The first node is linked as
/// an output of `last`, where there is one, under `name`; each further node
/// as an output of the node before it, under the empty name. Gives the index
/// of the last node.
pub open spec fn eval_chain(
    ts: Seq<TokenValue>,
    pos: int,
    scope: Scope,
    last: Option<usize>,
    name: Seq<char>,
) -> Result<(Scope, int, usize), CompileError>
    decreases ts.len() - pos, 6int,
{
    match eval_cnode(ts, pos, scope) {
        Err(e) => Err(e),
        Ok((scope1, pos1, node)) => {
            let linked = match last {
                Some(from) => scope1.link(from, node, name),
                None => Ok(scope1),
            };
            match linked {
                Err(e) => Err(e),
                Ok(scope2) => {
                    if !(pos < pos1 <= ts.len()) {
                        Err(CompileError::UnexpectedEnd)
                    } else if at(ts, pos1, TokenValue::Arrow) {
                        eval_chain(ts, pos1 + 1, scope2, Some(node), Seq::empty())
                    } else {
                        Ok((scope2, pos1, node))
                    }
                },
            }
        },
    }
}

/// A pipe, read at `pos`: a chain, which may be hung on a named output of a
/// bound slot by `slot . output =>` in front of it.
pub open spec fn eval_pipe(ts: Seq<TokenValue>, pos: int, scope: Scope) -> Result<
    (Scope, int, usize),
    CompileError,
> {
    if 0 <= pos < ts.len() && ts[pos] is Ident && at(ts, pos + 1, TokenValue::Dot) {
        if !(pos + 2 < ts.len() && ts[pos + 2] is Ident) {
            Err(unexpected(ts, pos + 2))
        } else if !at(ts, pos + 3, TokenValue::Arrow) {
            Err(unexpected(ts, pos + 3))
        } else {
            match lookup(scope.names, ts[pos]->Ident_0) {
                None => Err(CompileError::UndefinedIdentifier { at: pos as usize }),
                Some(SymbolValue::Function) => Err(CompileError::NotANode { at: pos as usize }),
                Some(SymbolValue::CNode(index)) => eval_chain(
                    ts,
                    pos + 4,
                    scope,
                    Some(index),
                    ts[pos + 2]->Ident_0,
                ),
            }
        }
    } else {
        eval_chain(ts, pos, scope, None, Seq::empty())
    }
}

/// A statement, read at `pos`: a pipe, or `name = pipe`, which binds the name
/// to the last node of the pipe.
pub open spec fn eval_stmt(ts: Seq<TokenValue>, pos: int, scope: Scope) -> Result<
    (Scope, int),
    CompileError,
> {
    if 0 <= pos < ts.len() && ts[pos] is Ident && at(ts, pos + 1, TokenValue::Assign) {
        match eval_pipe(ts, pos + 2, scope) {
            Err(e) => Err(e),
            Ok((scope1, pos1, node)) => Ok(
                (scope1.bind(ts[pos]->Ident_0, SymbolValue::CNode(node)), pos1),
            ),
        }
    } else {
        match eval_pipe(ts, pos, scope) {
            Err(e) => Err(e),
            Ok((scope1, pos1, _)) => Ok((scope1, pos1)),
        }
    }
}

/// The statements from `pos` to the end of the script, one after the other.
pub open spec fn eval_script(ts: Seq<TokenValue>, pos: int, scope: Scope) -> Result<
    Scope,
    CompileError,
>
    decreases ts.len() - pos,
{
    if !(0 <= pos < ts.len()) {
        Ok(scope)
    } else {
        match eval_stmt(ts, pos, scope) {
            Err(e) => Err(e),
            Ok((scope1, pos1)) => {
                if pos < pos1 <= ts.len() {
                    eval_script(ts, pos1, scope1)
                } else {
                    Err(CompileError::UnexpectedEnd)
                }
            },
        }
    }
}

/// The scope in which a script starts: no slot, and each registered function
/// under its name.
pub open spec fn initial_scope(functions: Seq<Seq<char>>) -> Scope {
    Scope {
        slots: Seq::empty(),
        names: functions.map_values(|f: Seq<char>| (f, SymbolValue::Function)),
    }
}

/// What holds of the slots of every scope that the interpreter reaches: each
/// output is the index of a slot, and a composite has one output at most.
pub open spec fn slots_wf(slots: Seq<SlotValue>) -> bool {
    forall|i: int|
        0 <= i < slots.len() ==> {
            &&& (#[trigger] slots[i]).backward is Some ==> slots[i].outputs.len() <= 1
            &&& forall|k: int|
                0 <= k < slots[i].outputs.len() ==> (#[trigger] slots[i].outputs[k]).0
                    < slots.len()
        }
}

/// What holds of the names of every scope that the interpreter reaches: each
/// bound slot exists.
pub open spec fn names_wf(scope: Scope) -> bool {
    forall|i: int|
        0 <= i < scope.names.len() ==> ((#[trigger] scope.names[i]).1 matches SymbolValue::CNode(
            n,
        ) ==> n < scope.slots.len())
}

/// What holds of every scope that the interpreter reaches.
pub open spec fn scope_wf(scope: Scope) -> bool {
    &&& slots_wf(scope.slots)
    &&& names_wf(scope)
    &&& scope.slots.len() <= usize::MAX
}

} // verus!

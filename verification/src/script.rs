//! The compiler of the script language: from the text of a script to the nodes of its pipeline.

use vstd::prelude::*;
use crate::argument::{copy_of, lemma_list_view, pairs_view, views_of, ArgValue, Argument};
use crate::lexer::{lex, token_values, tokenize, CompileError, Token};
use crate::syntax::{
    eval_arg, eval_args, eval_backward, eval_call_args, eval_chain, eval_cnode, eval_pipe,
    eval_script, eval_stmt, fresh_slot, initial_scope, literal, lookup, names_wf, scope_wf,
    unexpected, CallValue, Scope, SlotValue, SymbolValue,
};

verus! {

/// A call of a function, as a script writes it.
#[derive(Debug)]
pub struct Call {
    pub function: String,
    pub args: Vec<(String, Argument)>,
}

impl View for Call {
    type V = CallValue;

    open spec fn view(&self) -> CallValue {
        CallValue { function: self.function@, args: pairs_view(self.args@) }
    }
}

/// The view of a call that may be missing.
pub open spec fn call_view(call: Option<Call>) -> Option<CallValue> {
    match call {
        Some(c) => Some(c@),
        None => None,
    }
}

/// A slot of the pipeline while the script is read.
struct CNode {
    forward: Call,
    backward: Option<Call>,
    outputs: Vec<(usize, String)>,
}

impl View for CNode {
    type V = SlotValue;

    closed spec fn view(&self) -> SlotValue {
        SlotValue {
            forward: self.forward@,
            backward: call_view(self.backward),
            outputs: self.outputs@.map_values(|o: (usize, String)| (o.0, o.1@)),
        }
    }
}

/// The interpreter of the script language: the slots allocated so far and the
/// table of names.
struct Interpreter {
    cnodes: Vec<CNode>,
    symbol_table: Vec<(String, SymbolValue)>,
}

impl View for Interpreter {
    type V = Scope;

    closed spec fn view(&self) -> Scope {
        Scope {
            slots: self.cnodes@.map_values(|c: CNode| c@),
            names: self.symbol_table@.map_values(|p: (String, SymbolValue)| (p.0@, p.1)),
        }
    }
}

/// One node of a compiled pipeline: the call that makes its actor, a second
/// call where the node is a composite built with `!!`, and the indices of the
/// nodes downstream. Each call holds the arguments of the script, then
/// `function_name`, then `outputs` with the names of the outputs.
#[derive(Debug)]
pub struct NodePlan {
    pub forward: Call,
    pub backward: Option<Call>,
    pub outputs: Vec<usize>,
}

/// What a [`NodePlan`] stands for.
pub struct NodePlanValue {
    pub forward: CallValue,
    pub backward: Option<CallValue>,
    pub outputs: Seq<usize>,
}

impl View for NodePlan {
    type V = NodePlanValue;

    open spec fn view(&self) -> NodePlanValue {
        NodePlanValue {
            forward: self.forward@,
            backward: call_view(self.backward),
            outputs: self.outputs@,
        }
    }
}

/// The views of a list of node plans.
pub open spec fn plan_values(plans: Seq<NodePlan>) -> Seq<NodePlanValue> {
    plans.map_values(|p: NodePlan| p@)
}

/// The call with the two arguments that every component receives added
/// behind those of the script: the name of the function, and the names of the
/// outputs.
pub open spec fn complete(call: CallValue, names: Seq<Seq<char>>) -> CallValue {
    CallValue {
        function: call.function,
        args: call.args.push(("function_name"@, ArgValue::Text(call.function))).push(
            ("outputs"@, ArgValue::List(names.map_values(|n: Seq<char>| ArgValue::Text(n)))),
        ),
    }
}

/// The node that a slot becomes when the script has been read.
pub open spec fn freeze(slot: SlotValue) -> NodePlanValue {
    let names = slot.outputs.map_values(|o: (usize, Seq<char>)| o.1);
    NodePlanValue {
        forward: complete(slot.forward, names),
        backward: match slot.backward {
            Some(call) => Some(complete(call, names)),
            None => None,
        },
        outputs: slot.outputs.map_values(|o: (usize, Seq<char>)| o.0),
    }
}

/// The pipeline that a script describes, given the names of the registered
/// functions: its nodes in the order in which the script allocates them.
pub open spec fn compile_spec(code: Seq<char>, functions: Seq<Seq<char>>) -> Result<
    Seq<NodePlanValue>,
    CompileError,
> {
    match lex(code) {
        Err(e) => Err(e),
        Ok(ts) => match eval_script(ts, 0, initial_scope(functions)) {
            Err(e) => Err(e),
            Ok(scope) => Ok(scope.slots.map_values(|s: SlotValue| freeze(s))),
        },
    }
}

/// A pipeline is well formed when every output of a node is the index of a
/// node, and a composite node has one output at most.
pub open spec fn plans_wf(plans: Seq<NodePlanValue>) -> bool {
    forall|i: int|
        0 <= i < plans.len() ==> {
            &&& (#[trigger] plans[i]).backward is Some ==> plans[i].outputs.len() <= 1
            &&& forall|k: int|
                0 <= k < plans[i].outputs.len() ==> (#[trigger] plans[i].outputs[k])
                    < plans.len()
        }
}

/// The view of an argument that may be missing.
pub open spec fn item_view(item: Option<(String, Argument)>) -> Option<(Seq<char>, ArgValue)> {
    match item {
        Some(p) => Some((p.0@, p.1@)),
        None => None,
    }
}

fn literal_at(tokens: &Vec<Token>, pos: usize) -> (r: Option<Argument>)
    ensures
        match literal(token_values(tokens@), pos as int) {
            Some(v) => r is Some && r->Some_0@ == v,
            None => r is None,
        },
{
    if pos < tokens.len() {
        match &tokens[pos] {
            Token::Int(x) => Some(Argument::Int(*x)),
            Token::Str(s) => Some(Argument::String(s.clone())),
            _ => None,
        }
    } else {
        None
    }
}

fn unexpected_at(tokens: &Vec<Token>, pos: usize) -> (e: CompileError)
    ensures
        e == unexpected(token_values(tokens@), pos as int),
{
    if pos < tokens.len() {
        CompileError::UnexpectedToken { at: pos }
    } else {
        CompileError::UnexpectedEnd
    }
}

impl Interpreter {
    /// What holds of the interpreter between any two steps.
    spec fn wf(&self) -> bool {
        scope_wf(self@)
    }

    /// An interpreter that knows the registered functions and nothing else.
    fn new(functions: &Vec<String>) -> (it: Interpreter)
        ensures
            it@ == initial_scope(functions@.map_values(|f: String| f@)),
            it.wf(),
    {
        let mut table: Vec<(String, SymbolValue)> = Vec::new();
        let mut i: usize = 0;
        while i < functions.len()
            invariant
                i <= functions@.len(),
                table@.len() == i,
                forall|k: int|
                    0 <= k < i ==> (#[trigger] table@[k]).0@ == functions@[k]@ && table@[k].1
                        == SymbolValue::Function,
            decreases functions@.len() - i,
        {
            table.push((functions[i].clone(), SymbolValue::Function));
            i += 1;
        }
        let it = Interpreter { cnodes: Vec::new(), symbol_table: table };
        proof {
            let target = initial_scope(functions@.map_values(|f: String| f@));
            assert(it@.names =~= target.names);
            assert(it@.slots =~= target.slots);
        }
        it
    }

    fn find(&self, key: &String) -> (r: Option<SymbolValue>)
        ensures
            r == lookup(self@.names, key@),
    {
        let mut i: usize = self.symbol_table.len();
        let ghost names = self@.names;
        assert(names.take(i as int) =~= names);
        while i > 0
            invariant
                i <= self.symbol_table@.len(),
                names == self@.names,
                lookup(names, key@) == lookup(names.take(i as int), key@),
            decreases i,
        {
            i -= 1;
            assert(names.take(i + 1).last() == names[i as int]);
            assert(names.take(i + 1).drop_last() =~= names.take(i as int));
            if self.symbol_table[i].0 == *key {
                return Some(self.symbol_table[i].1);
            }
        }
        None
    }

    fn allocate(&mut self, function: String) -> (index: usize)
        requires
            old(self).wf(),
        ensures
            final(self)@ == old(self)@.allocate(fresh_slot(function@)),
            index == old(self)@.slots.len(),
            final(self).wf(),
    {
        let index = self.cnodes.len();
        let node = CNode {
            forward: Call { function, args: Vec::new() },
            backward: None,
            outputs: Vec::new(),
        };
        proof {
            assert(node@.forward.args =~= Seq::empty());
            assert(node@.outputs =~= Seq::empty());
        }
        self.cnodes.push(node);
        let count = self.cnodes.len();
        proof {
            assert(self@.slots =~= old(self)@.slots.push(fresh_slot(function@)));
            assert(self@.names =~= old(self)@.names);
            assert(self@.slots.len() == count);
            assert forall|i: int| 0 <= i < self@.names.len() implies ((
            #[trigger] self@.names[i]).1 matches SymbolValue::CNode(n) ==> n
                < self@.slots.len()) by {
                assert(self@.names[i] == old(self)@.names[i]);
            }
            let slots = self@.slots;
            assert forall|i: int| 0 <= i < slots.len() implies {
                &&& (#[trigger] slots[i]).backward is Some ==> slots[i].outputs.len() <= 1
                &&& forall|k: int|
                    0 <= k < slots[i].outputs.len() ==> (#[trigger] slots[i].outputs[k]).0
                        < slots.len()
            } by {
                if i < index {
                    assert(slots[i] == old(self)@.slots[i]);
                }
            }
        }
        index
    }

    fn link(&mut self, from: usize, to: usize, name: String) -> (r: Result<(), CompileError>)
        requires
            old(self).wf(),
            from < old(self)@.slots.len(),
            to < old(self)@.slots.len(),
        ensures
            match old(self)@.link(from, to, name@) {
                Ok(scope) => r is Ok && final(self)@ == scope && final(self).wf(),
                Err(e) => r is Err && r->Err_0 == e,
            },
            final(self)@.slots.len() == old(self)@.slots.len(),
    {
        let ghost before = self@;
        let ghost slot = before.slots[from as int];
        if self.cnodes[from].backward.is_some() {
            if self.cnodes[from].outputs.len() >= 1 {
                return Err(CompileError::CompositeFanOut { node: from });
            }
            self.cnodes[from].outputs.push((to, String::new()));
            proof {
                let after = SlotValue { outputs: slot.outputs.push((to, Seq::empty())), ..slot };
                assert(self@.slots[from as int].outputs =~= after.outputs);
                assert(self@.slots =~= before.slots.update(from as int, after));
                assert(self@.names =~= before.names);
            }
        } else {
            self.cnodes[from].outputs.push((to, name));
            proof {
                let after = SlotValue { outputs: slot.outputs.push((to, name@)), ..slot };
                assert(self@.slots[from as int].outputs =~= after.outputs);
                assert(self@.slots =~= before.slots.update(from as int, after));
                assert(self@.names =~= before.names);
            }
        }
        proof {
            let slots = self@.slots;
            assert forall|i: int| 0 <= i < slots.len() implies {
                &&& (#[trigger] slots[i]).backward is Some ==> slots[i].outputs.len() <= 1
                &&& forall|k: int|
                    0 <= k < slots[i].outputs.len() ==> (#[trigger] slots[i].outputs[k]).0
                        < slots.len()
            } by {
                if i != from {
                    assert(slots[i] == before.slots[i]);
                } else {
                    assert forall|k: int| 0 <= k < slots[i].outputs.len() implies (
                    #[trigger] slots[i].outputs[k]).0 < slots.len() by {
                        if k < slot.outputs.len() {
                            assert(slots[i].outputs[k] == slot.outputs[k]);
                        }
                    }
                }
            }
        }
        Ok(())
    }

    fn set_forward_args(&mut self, index: usize, args: Vec<(String, Argument)>)
        requires
            old(self).wf(),
            index < old(self)@.slots.len(),
        ensures
            final(self)@ == old(self)@.with_forward_args(index as int, pairs_view(args@)),
            final(self).wf(),
    {
        let ghost before = self@;
        let ghost slot = before.slots[index as int];
        self.cnodes[index].forward.args = args;
        proof {
            let after = SlotValue {
                forward: CallValue { function: slot.forward.function, args: pairs_view(args@) },
                ..slot
            };
            assert(self@.slots =~= before.slots.update(index as int, after));
            assert(self@.names =~= before.names);
            let slots = self@.slots;
            assert forall|i: int| 0 <= i < slots.len() implies {
                &&& (#[trigger] slots[i]).backward is Some ==> slots[i].outputs.len() <= 1
                &&& forall|k: int|
                    0 <= k < slots[i].outputs.len() ==> (#[trigger] slots[i].outputs[k]).0
                        < slots.len()
            } by {
                if i != index {
                    assert(slots[i] == before.slots[i]);
                } else {
                    assert(slots[i].outputs == slot.outputs);
                }
            }
        }
    }

    fn set_backward(&mut self, index: usize, call: Call)
        requires
            old(self).wf(),
            index < old(self)@.slots.len(),
            old(self)@.slots[index as int].outputs.len() <= 1,
        ensures
            final(self)@ == old(self)@.with_backward(index as int, call@),
            final(self).wf(),
    {
        let ghost before = self@;
        let ghost slot = before.slots[index as int];
        self.cnodes[index].backward = Some(call);
        if self.cnodes[index].outputs.len() == 1 {
            self.cnodes[index].outputs[0].1 = String::new();
        }
        proof {
            let after = SlotValue {
                backward: Some(call@),
                outputs: slot.outputs.map_values(|o: (usize, Seq<char>)| (o.0, Seq::empty())),
                ..slot
            };
            assert(self@.slots[index as int].outputs =~= after.outputs);
            assert(self@.slots =~= before.slots.update(index as int, after));
            assert(self@.names =~= before.names);
            let slots = self@.slots;
            assert forall|i: int| 0 <= i < slots.len() implies {
                &&& (#[trigger] slots[i]).backward is Some ==> slots[i].outputs.len() <= 1
                &&& forall|k: int|
                    0 <= k < slots[i].outputs.len() ==> (#[trigger] slots[i].outputs[k]).0
                        < slots.len()
            } by {
                if i != index {
                    assert(slots[i] == before.slots[i]);
                } else {
                    assert forall|k: int| 0 <= k < slots[i].outputs.len() implies (
                    #[trigger] slots[i].outputs[k]).0 < slots.len() by {
                        assert(slots[i].outputs[k].0 == slot.outputs[k].0);
                    }
                }
            }
        }
    }

    fn set_backward_args(&mut self, index: usize, args: Vec<(String, Argument)>)
        requires
            old(self).wf(),
            index < old(self)@.slots.len(),
        ensures
            final(self)@ == old(self)@.with_backward_args(index as int, pairs_view(args@)),
            final(self).wf(),
    {
        let ghost before = self@;
        let ghost slot = before.slots[index as int];
        match &mut self.cnodes[index].backward {
            Some(call) => {
                call.args = args;
            },
            None => {},
        }
        proof {
            assert(self@.names =~= before.names);
            match slot.backward {
                Some(call) => {
                    let after = SlotValue {
                        backward: Some(
                            CallValue { function: call.function, args: pairs_view(args@) },
                        ),
                        ..slot
                    };
                    assert(self@.slots =~= before.slots.update(index as int, after));
                },
                None => {
                    assert(self@.slots =~= before.slots);
                },
            }
            let slots = self@.slots;
            assert forall|i: int| 0 <= i < slots.len() implies {
                &&& (#[trigger] slots[i]).backward is Some ==> slots[i].outputs.len() <= 1
                &&& forall|k: int|
                    0 <= k < slots[i].outputs.len() ==> (#[trigger] slots[i].outputs[k]).0
                        < slots.len()
            } by {
                if i != index {
                    assert(slots[i] == before.slots[i]);
                } else {
                    assert(slots[i].outputs == slot.outputs);
                }
            }
        }
    }

    fn bind(&mut self, name: String, value: SymbolValue)
        requires
            old(self).wf(),
            value matches SymbolValue::CNode(n) ==> n < old(self)@.slots.len(),
        ensures
            final(self)@ == old(self)@.bind(name@, value),
            final(self).wf(),
    {
        self.symbol_table.push((name, value));
        proof {
            assert(self@.names =~= old(self)@.names.push((name@, value)));
            assert(self@.slots =~= old(self)@.slots);
            assert forall|i: int| 0 <= i < self@.names.len() implies ((
            #[trigger] self@.names[i]).1 matches SymbolValue::CNode(n) ==> n
                < self@.slots.len()) by {
                if i < old(self)@.names.len() {
                    assert(self@.names[i] == old(self)@.names[i]);
                }
            }
        }
    }

    fn eval_arg(&mut self, tokens: &Vec<Token>, pos: usize, parent: usize) -> (r: Result<
        (usize, Option<(String, Argument)>),
        CompileError,
    >)
        requires
            old(self).wf(),
            parent < old(self)@.slots.len(),
            pos <= tokens@.len(),
        ensures
            match eval_arg(token_values(tokens@), pos as int, old(self)@, parent) {
                Ok((scope, pos1, item)) => {
                    &&& r is Ok
                    &&& r->Ok_0.0 == pos1
                    &&& item_view(r->Ok_0.1) == item
                    &&& final(self)@ == scope
                    &&& final(self).wf()
                    &&& pos < pos1 <= tokens@.len()
                    &&& final(self)@.slots.len() >= old(self)@.slots.len()
                },
                Err(e) => r is Err && r->Err_0 == e,
            },
        decreases tokens@.len() - pos, 1int,
    {
        let ghost ts = token_values(tokens@);
        if pos >= tokens.len() {
            return Err(CompileError::UnexpectedEnd);
        }
        assert(ts[pos as int] == tokens@[pos as int]@);
        match literal_at(tokens, pos) {
            Some(value) => {
                return Ok((pos + 1, Some((String::new(), value))));
            },
            None => {},
        }
        match &tokens[pos] {
            Token::Arrow => {
                match self.eval_chain(tokens, pos + 1, Some(parent), String::new()) {
                    Err(e) => Err(e),
                    Ok((pos1, _)) => Ok((pos1, None)),
                }
            },
            Token::Ident(name) => {
                if pos + 1 < tokens.len() {
                    assert(ts[pos + 1] == tokens@[pos + 1]@);
                }
                if pos + 1 < tokens.len() && matches!(tokens[pos + 1], Token::Arrow) {
                    match self.eval_chain(tokens, pos + 2, Some(parent), name.clone()) {
                        Err(e) => Err(e),
                        Ok((pos1, _)) => Ok((pos1, None)),
                    }
                } else if pos + 1 < tokens.len() && matches!(tokens[pos + 1], Token::Colon) {
                    match literal_at(tokens, pos + 2) {
                        Some(value) => Ok((pos + 3, Some((name.clone(), value)))),
                        None => Err(unexpected_at(tokens, pos + 2)),
                    }
                } else {
                    Ok((pos + 1, Some((name.clone(), Argument::Nil))))
                }
            },
            _ => Err(unexpected_at(tokens, pos)),
        }
    }

    fn eval_args(
        &mut self,
        tokens: &Vec<Token>,
        pos: usize,
        parent: usize,
        acc: Vec<(String, Argument)>,
        first: bool,
    ) -> (r: Result<(usize, Vec<(String, Argument)>), CompileError>)
        requires
            old(self).wf(),
            parent < old(self)@.slots.len(),
            pos <= tokens@.len(),
        ensures
            match eval_args(
                token_values(tokens@),
                pos as int,
                old(self)@,
                parent,
                pairs_view(acc@),
                first,
            ) {
                Ok((scope, pos1, args)) => {
                    &&& r is Ok
                    &&& r->Ok_0.0 == pos1
                    &&& pairs_view(r->Ok_0.1@) == args
                    &&& final(self)@ == scope
                    &&& final(self).wf()
                    &&& pos < pos1 <= tokens@.len()
                    &&& final(self)@.slots.len() >= old(self)@.slots.len()
                },
                Err(e) => r is Err && r->Err_0 == e,
            },
        decreases tokens@.len() - pos, 2int,
    {
        let ghost ts = token_values(tokens@);
        if pos >= tokens.len() {
            return Err(CompileError::UnexpectedEnd);
        }
        assert(ts[pos as int] == tokens@[pos as int]@);
        if first && matches!(tokens[pos], Token::Close) {
            return Ok((pos + 1, acc));
        }
        let mut acc = acc;
        let ghost acc0 = pairs_view(acc@);
        match self.eval_arg(tokens, pos, parent) {
            Err(e) => Err(e),
            Ok((pos1, item)) => {
                match item {
                    Some(pair) => {
                        proof {
                            assert(pairs_view(acc@.push(pair)) =~= acc0.push((pair.0@, pair.1@)));
                        }
                        acc.push(pair);
                    },
                    None => {},
                }
                if pos1 >= tokens.len() {
                    return Err(CompileError::UnexpectedEnd);
                }
                assert(ts[pos1 as int] == tokens@[pos1 as int]@);
                if matches!(tokens[pos1], Token::Close) {
                    Ok((pos1 + 1, acc))
                } else if matches!(tokens[pos1], Token::Comma) {
                    self.eval_args(tokens, pos1 + 1, parent, acc, false)
                } else {
                    Err(unexpected_at(tokens, pos1))
                }
            },
        }
    }

    fn eval_call_args(&mut self, tokens: &Vec<Token>, pos: usize, parent: usize) -> (r: Result<
        (usize, Vec<(String, Argument)>),
        CompileError,
    >)
        requires
            old(self).wf(),
            parent < old(self)@.slots.len(),
            pos <= tokens@.len(),
        ensures
            match eval_call_args(token_values(tokens@), pos as int, old(self)@, parent) {
                Ok((scope, pos1, args)) => {
                    &&& r is Ok
                    &&& r->Ok_0.0 == pos1
                    &&& pairs_view(r->Ok_0.1@) == args
                    &&& final(self)@ == scope
                    &&& final(self).wf()
                    &&& pos <= pos1 <= tokens@.len()
                    &&& final(self)@.slots.len() >= old(self)@.slots.len()
                },
                Err(e) => r is Err && r->Err_0 == e,
            },
        decreases tokens@.len() - pos, 3int,
    {
        let ghost ts = token_values(tokens@);
        if pos < tokens.len() {
            assert(ts[pos as int] == tokens@[pos as int]@);
        }
        if pos < tokens.len() && matches!(tokens[pos], Token::Open) {
            let acc: Vec<(String, Argument)> = Vec::new();
            assert(pairs_view(acc@) =~= Seq::empty());
            self.eval_args(tokens, pos + 1, parent, acc, true)
        } else {
            let acc: Vec<(String, Argument)> = Vec::new();
            assert(pairs_view(acc@) =~= Seq::empty());
            Ok((pos, acc))
        }
    }

    fn eval_backward(&mut self, tokens: &Vec<Token>, pos: usize, index: usize) -> (r: Result<
        usize,
        CompileError,
    >)
        requires
            old(self).wf(),
            index < old(self)@.slots.len(),
            pos <= tokens@.len(),
        ensures
            match eval_backward(token_values(tokens@), pos as int, old(self)@, index) {
                Ok((scope, pos1)) => {
                    &&& r is Ok
                    &&& r->Ok_0 == pos1
                    &&& final(self)@ == scope
                    &&& final(self).wf()
                    &&& pos < pos1 <= tokens@.len()
                    &&& final(self)@.slots.len() >= old(self)@.slots.len()
                },
                Err(e) => r is Err && r->Err_0 == e,
            },
        decreases tokens@.len() - pos, 4int,
    {
        let ghost ts = token_values(tokens@);
        if pos >= tokens.len() {
            return Err(CompileError::UnexpectedEnd);
        }
        assert(ts[pos as int] == tokens@[pos as int]@);
        match &tokens[pos] {
            Token::Ident(name) => {
                match self.find(name) {
                    None => Err(CompileError::UndefinedIdentifier { at: pos }),
                    Some(SymbolValue::CNode(_)) => Err(CompileError::NotAFunction { at: pos }),
                    Some(SymbolValue::Function) => {
                        if self.cnodes[index].outputs.len() > 1 {
                            return Err(CompileError::CompositeFanOut { node: index });
                        }
                        let empty: Vec<(String, Argument)> = Vec::new();
                        assert(pairs_view(empty@) =~= Seq::empty());
                        self.set_backward(index, Call { function: name.clone(), args: empty });
                        match self.eval_call_args(tokens, pos + 1, index) {
                            Err(e) => Err(e),
                            Ok((pos2, args)) => {
                                self.set_backward_args(index, args);
                                Ok(pos2)
                            },
                        }
                    },
                }
            },
            _ => Err(unexpected_at(tokens, pos)),
        }
    }

    fn eval_cnode(&mut self, tokens: &Vec<Token>, pos: usize) -> (r: Result<
        (usize, usize),
        CompileError,
    >)
        requires
            old(self).wf(),
            pos <= tokens@.len(),
        ensures
            match eval_cnode(token_values(tokens@), pos as int, old(self)@) {
                Ok((scope, pos1, node)) => {
                    &&& r is Ok
                    &&& r->Ok_0.0 == pos1
                    &&& r->Ok_0.1 == node
                    &&& final(self)@ == scope
                    &&& final(self).wf()
                    &&& pos < pos1 <= tokens@.len()
                    &&& final(self)@.slots.len() >= old(self)@.slots.len()
                    &&& node < final(self)@.slots.len()
                },
                Err(e) => r is Err && r->Err_0 == e,
            },
        decreases tokens@.len() - pos, 5int,
    {
        let ghost ts = token_values(tokens@);
        if pos >= tokens.len() {
            return Err(CompileError::UnexpectedEnd);
        }
        assert(ts[pos as int] == tokens@[pos as int]@);
        if pos + 1 < tokens.len() {
            assert(ts[pos + 1] == tokens@[pos + 1]@);
        }
        match &tokens[pos] {
            Token::Ident(name) => {
                match self.find(name) {
                    None => Err(CompileError::UndefinedIdentifier { at: pos }),
                    Some(SymbolValue::CNode(index)) => {
                        if pos + 1 < tokens.len() && matches!(tokens[pos + 1], Token::Open) {
                            Err(CompileError::ArgumentsOnNode { at: pos })
                        } else if pos + 1 < tokens.len() && matches!(tokens[pos + 1], Token::Bang) {
                            Err(CompileError::NotAFunction { at: pos })
                        } else {
                            proof {
                                lemma_lookup_bound(self@, name@);
                            }
                            Ok((pos + 1, index))
                        }
                    },
                    Some(SymbolValue::Function) => {
                        let index = self.allocate(name.clone());
                        match self.eval_call_args(tokens, pos + 1, index) {
                            Err(e) => Err(e),
                            Ok((pos1, args)) => {
                                self.set_forward_args(index, args);
                                if pos1 < tokens.len() {
                                    assert(ts[pos1 as int] == tokens@[pos1 as int]@);
                                }
                                if pos1 < tokens.len() && matches!(tokens[pos1], Token::Bang) {
                                    match self.eval_backward(tokens, pos1 + 1, index) {
                                        Err(e) => Err(e),
                                        Ok(pos3) => Ok((pos3, index)),
                                    }
                                } else {
                                    Ok((pos1, index))
                                }
                            },
                        }
                    },
                }
            },
            _ => Err(unexpected_at(tokens, pos)),
        }
    }

    fn eval_chain(
        &mut self,
        tokens: &Vec<Token>,
        pos: usize,
        last: Option<usize>,
        name: String,
    ) -> (r: Result<(usize, usize), CompileError>)
        requires
            old(self).wf(),
            pos <= tokens@.len(),
            last matches Some(from) ==> from < old(self)@.slots.len(),
        ensures
            match eval_chain(token_values(tokens@), pos as int, old(self)@, last, name@) {
                Ok((scope, pos1, node)) => {
                    &&& r is Ok
                    &&& r->Ok_0.0 == pos1
                    &&& r->Ok_0.1 == node
                    &&& final(self)@ == scope
                    &&& final(self).wf()
                    &&& pos < pos1 <= tokens@.len()
                    &&& final(self)@.slots.len() >= old(self)@.slots.len()
                    &&& node < final(self)@.slots.len()
                },
                Err(e) => r is Err && r->Err_0 == e,
            },
        decreases tokens@.len() - pos, 6int,
    {
        let ghost ts = token_values(tokens@);
        match self.eval_cnode(tokens, pos) {
            Err(e) => Err(e),
            Ok((pos1, node)) => {
                match last {
                    Some(from) => {
                        match self.link(from, node, name) {
                            Err(e) => {
                                return Err(e);
                            },
                            Ok(_) => {},
                        }
                    },
                    None => {},
                }
                if pos1 < tokens.len() {
                    assert(ts[pos1 as int] == tokens@[pos1 as int]@);
                }
                if pos1 < tokens.len() && matches!(tokens[pos1], Token::Arrow) {
                    self.eval_chain(tokens, pos1 + 1, Some(node), String::new())
                } else {
                    Ok((pos1, node))
                }
            },
        }
    }

    fn eval_pipe(&mut self, tokens: &Vec<Token>, pos: usize) -> (r: Result<
        (usize, usize),
        CompileError,
    >)
        requires
            old(self).wf(),
            pos <= tokens@.len(),
        ensures
            match eval_pipe(token_values(tokens@), pos as int, old(self)@) {
                Ok((scope, pos1, node)) => {
                    &&& r is Ok
                    &&& r->Ok_0.0 == pos1
                    &&& r->Ok_0.1 == node
                    &&& final(self)@ == scope
                    &&& final(self).wf()
                    &&& pos < pos1 <= tokens@.len()
                    &&& node < final(self)@.slots.len()
                },
                Err(e) => r is Err && r->Err_0 == e,
            },
    {
        let ghost ts = token_values(tokens@);
        if pos >= tokens.len() {
            proof {
                let none = Seq::<char>::empty();
                assert(eval_cnode(ts, pos as int, self@) is Err);
                assert(eval_chain(ts, pos as int, self@, None, none) is Err);
                assert(eval_chain(ts, pos as int, self@, None, none)->Err_0
                    == CompileError::UnexpectedEnd);
            }
            return Err(CompileError::UnexpectedEnd);
        }
        assert(ts[pos as int] == tokens@[pos as int]@);
        if pos + 1 < tokens.len() {
            assert(ts[pos + 1] == tokens@[pos + 1]@);
        }
        if pos + 1 < tokens.len() && matches!(tokens[pos], Token::Ident(_)) && matches!(
            tokens[pos + 1],
            Token::Dot
        ) {
            if pos + 2 < tokens.len() {
                assert(ts[pos + 2] == tokens@[pos + 2]@);
            }
            if !(pos + 2 < tokens.len() && matches!(tokens[pos + 2], Token::Ident(_))) {
                return Err(unexpected_at(tokens, pos + 2));
            }
            if pos + 3 < tokens.len() {
                assert(ts[pos + 3] == tokens@[pos + 3]@);
            }
            if !(pos + 3 < tokens.len() && matches!(tokens[pos + 3], Token::Arrow)) {
                return Err(unexpected_at(tokens, pos + 3));
            }
            match (&tokens[pos], &tokens[pos + 2]) {
                (Token::Ident(slot), Token::Ident(output)) => {
                    match self.find(slot) {
                        None => Err(CompileError::UndefinedIdentifier { at: pos }),
                        Some(SymbolValue::Function) => Err(CompileError::NotANode { at: pos }),
                        Some(SymbolValue::CNode(index)) => {
                            proof {
                                lemma_lookup_bound(self@, slot@);
                            }
                            self.eval_chain(tokens, pos + 4, Some(index), output.clone())
                        },
                    }
                },
                _ => Err(CompileError::UnexpectedEnd),
            }
        } else {
            self.eval_chain(tokens, pos, None, String::new())
        }
    }

    fn eval_stmt(&mut self, tokens: &Vec<Token>, pos: usize) -> (r: Result<usize, CompileError>)
        requires
            old(self).wf(),
            pos <= tokens@.len(),
        ensures
            match eval_stmt(token_values(tokens@), pos as int, old(self)@) {
                Ok((scope, pos1)) => {
                    &&& r is Ok
                    &&& r->Ok_0 == pos1
                    &&& final(self)@ == scope
                    &&& final(self).wf()
                    &&& pos < pos1 <= tokens@.len()
                },
                Err(e) => r is Err && r->Err_0 == e,
            },
    {
        let ghost ts = token_values(tokens@);
        if pos >= tokens.len() {
            proof {
                let none = Seq::<char>::empty();
                assert(eval_cnode(ts, pos as int, self@) is Err);
                assert(eval_chain(ts, pos as int, self@, None, none) is Err);
                assert(eval_chain(ts, pos as int, self@, None, none)->Err_0
                    == CompileError::UnexpectedEnd);
            }
            return Err(CompileError::UnexpectedEnd);
        }
        assert(ts[pos as int] == tokens@[pos as int]@);
        if pos + 1 < tokens.len() {
            assert(ts[pos + 1] == tokens@[pos + 1]@);
        }
        if pos + 1 < tokens.len() && matches!(tokens[pos + 1], Token::Assign) {
            match &tokens[pos] {
                Token::Ident(name) => {
                    match self.eval_pipe(tokens, pos + 2) {
                        Err(e) => Err(e),
                        Ok((pos1, node)) => {
                            self.bind(name.clone(), SymbolValue::CNode(node));
                            Ok(pos1)
                        },
                    }
                },
                _ => {
                    match self.eval_pipe(tokens, pos) {
                        Err(e) => Err(e),
                        Ok((pos1, _)) => Ok(pos1),
                    }
                },
            }
        } else {
            match self.eval_pipe(tokens, pos) {
                Err(e) => Err(e),
                Ok((pos1, _)) => Ok(pos1),
            }
        }
    }

    /// Reads the statements of a script, one after the other.
    fn eval(&mut self, tokens: &Vec<Token>) -> (r: Result<(), CompileError>)
        requires
            old(self).wf(),
        ensures
            match eval_script(token_values(tokens@), 0, old(self)@) {
                Ok(scope) => r is Ok && final(self)@ == scope && final(self).wf(),
                Err(e) => r is Err && r->Err_0 == e,
            },
    {
        let ghost ts = token_values(tokens@);
        let mut pos: usize = 0;
        while pos < tokens.len()
            invariant
                pos <= tokens@.len(),
                ts == token_values(tokens@),
                self.wf(),
                eval_script(ts, 0, old(self)@) == eval_script(ts, pos as int, self@),
            decreases tokens@.len() - pos,
        {
            match self.eval_stmt(tokens, pos) {
                Err(e) => {
                    return Err(e);
                },
                Ok(pos1) => {
                    pos = pos1;
                },
            }
        }
        Ok(())
    }
}

/// A copy of a list of named arguments.
fn copy_pairs(args: &Vec<(String, Argument)>) -> (out: Vec<(String, Argument)>)
    ensures
        pairs_view(out@) == pairs_view(args@),
{
    let mut out: Vec<(String, Argument)> = Vec::new();
    let mut i: usize = 0;
    while i < args.len()
        invariant
            i <= args@.len(),
            out@.len() == i,
            forall|k: int|
                0 <= k < i ==> (#[trigger] out@[k]).0@ == args@[k].0@ && out@[k].1@ == args@[k].1@,
        decreases args@.len() - i,
    {
        out.push((args[i].0.clone(), copy_of(&args[i].1)));
        i += 1;
    }
    assert(pairs_view(out@) =~= pairs_view(args@));
    out
}

/// The call with `function_name` and `outputs` added behind its arguments.
fn complete_call(call: &Call, names: &Vec<(usize, String)>) -> (r: Call)
    ensures
        r@ == complete(call@, names@.map_values(|o: (usize, String)| o.1@)),
{
    let mut args = copy_pairs(&call.args);
    let mut list: Vec<Argument> = Vec::new();
    let mut i: usize = 0;
    while i < names.len()
        invariant
            i <= names@.len(),
            list@.len() == i,
            forall|k: int| 0 <= k < i ==> (#[trigger] list@[k])@ == ArgValue::Text(names@[k].1@),
        decreases names@.len() - i,
    {
        list.push(Argument::String(names[i].1.clone()));
        i += 1;
    }
    let ghost wanted = names@.map_values(|o: (usize, String)| o.1@).map_values(
        |n: Seq<char>| ArgValue::Text(n),
    );
    proof {
        lemma_list_view(list);
        assert(views_of(list@) =~= wanted);
    }
    let ghost before = pairs_view(args@);
    let name_arg = (String::from_str("function_name"), Argument::String(call.function.clone()));
    let outputs_arg = (String::from_str("outputs"), Argument::Vec(list));
    proof {
        assert(pairs_view(args@.push(name_arg).push(outputs_arg)) =~= before.push(
            (name_arg.0@, name_arg.1@),
        ).push((outputs_arg.0@, outputs_arg.1@)));
    }
    args.push(name_arg);
    args.push(outputs_arg);
    Call { function: call.function.clone(), args }
}

/// Compiles a script into the nodes of its pipeline, given the names of the
/// functions that the components register.
///
/// The nodes come in the order in which the script allocates them: a node is
/// allocated by each call of a function, and `a !! b` allocates one node for
/// its two calls. The pipeline that comes out is well formed.
pub fn compile(code: &str, functions: &Vec<String>) -> (r: Result<Vec<NodePlan>, CompileError>)
    ensures
        match compile_spec(code@, functions@.map_values(|f: String| f@)) {
            Ok(plans) => r is Ok && plan_values(r->Ok_0@) == plans && plans_wf(plans),
            Err(e) => r is Err && r->Err_0 == e,
        },
{
    let tokens = match tokenize(code) {
        Ok(tokens) => tokens,
        Err(e) => {
            return Err(e);
        },
    };
    let mut it = Interpreter::new(functions);
    match it.eval(&tokens) {
        Err(e) => {
            return Err(e);
        },
        Ok(_) => {},
    }
    let ghost slots = it@.slots;
    let mut plans: Vec<NodePlan> = Vec::new();
    let mut i: usize = 0;
    while i < it.cnodes.len()
        invariant
            i <= it.cnodes@.len(),
            slots == it@.slots,
            plans@.len() == i,
            forall|k: int| 0 <= k < i ==> (#[trigger] plans@[k])@ == freeze(slots[k]),
        decreases it.cnodes@.len() - i,
    {
        let node = &it.cnodes[i];
        let ghost slot = slots[i as int];
        assert(slot == node@);
        let forward = complete_call(&node.forward, &node.outputs);
        let backward = match &node.backward {
            Some(call) => Some(complete_call(call, &node.outputs)),
            None => None,
        };
        let mut outputs: Vec<usize> = Vec::new();
        let mut k: usize = 0;
        while k < node.outputs.len()
            invariant
                k <= node.outputs@.len(),
                outputs@.len() == k,
                forall|j: int| 0 <= j < k ==> outputs@[j] == (#[trigger] node.outputs@[j]).0,
            decreases node.outputs@.len() - k,
        {
            outputs.push(node.outputs[k].0);
            k += 1;
        }
        proof {
            assert(slot.outputs.map_values(|o: (usize, Seq<char>)| o.1)
                =~= node.outputs@.map_values(|o: (usize, String)| o.1@));
            assert(outputs@ =~= slot.outputs.map_values(|o: (usize, Seq<char>)| o.0));
        }
        plans.push(NodePlan { forward, backward, outputs });
        i += 1;
    }
    proof {
        let wanted = slots.map_values(|s: SlotValue| freeze(s));
        assert(plan_values(plans@) =~= wanted);
        assert forall|i: int| 0 <= i < wanted.len() implies {
            &&& (#[trigger] wanted[i]).backward is Some ==> wanted[i].outputs.len() <= 1
            &&& forall|k: int|
                0 <= k < wanted[i].outputs.len() ==> (#[trigger] wanted[i].outputs[k])
                    < wanted.len()
        } by {
            let s = slots[i];
            assert(s.backward is Some ==> s.outputs.len() <= 1);
            assert forall|k: int| 0 <= k < wanted[i].outputs.len() implies (
            #[trigger] wanted[i].outputs[k]) < wanted.len() by {
                assert(s.outputs[k].0 < slots.len());
            }
        }
    }
    Ok(plans)
}

/// A name that stands for a slot in a well-formed scope stands for one that
/// exists.
proof fn lemma_lookup_bound(scope: Scope, key: Seq<char>)
    requires
        names_wf(scope),
    ensures
        lookup(scope.names, key) matches Some(SymbolValue::CNode(n)) ==> n < scope.slots.len(),
    decreases scope.names.len(),
{
    if scope.names.len() > 0 {
        if scope.names.last().0 != key {
            let rest = Scope { names: scope.names.drop_last(), ..scope };
            assert forall|i: int| 0 <= i < rest.names.len() implies ((
            #[trigger] rest.names[i]).1 matches SymbolValue::CNode(n) ==> n
                < rest.slots.len()) by {
                assert(rest.names[i] == scope.names[i]);
            }
            lemma_lookup_bound(rest, key);
        }
    }
}

} // verus!

//! The stock components, the registry of their function names, and the loading of a script.

use vstd::prelude::*;
use crate::argument::{pairs_view, ArgValue, Argument};
use crate::error::{Error, ErrorValue};
use crate::helper::misuse;
use crate::lexer::CompileError;
use crate::runtime::{nodes_wf, Node};
use crate::script::{
    compile, compile_spec, plan_values, plans_wf, Call, NodePlan, NodePlanValue,
};
use crate::syntax::CallValue;
use crate::{
    aead, auth, balance, discard, echo, http2, miniz, process, socks5, stdio, tcp, tee, throttle,
    udp, vmess, xor,
};

verus! {

/// A stock component: a kind of node that scripts can ask for under the
/// function names that the component registers.
#[derive(Debug, Clone, Copy, PartialEq, Eq, Structural)]
pub enum Component {
    Aead,
    Auth,
    Balance,
    Drop,
    Echo,
    Exec,
    Http2,
    Miniz,
    Socks5,
    Stdio,
    Tcp,
    Tee,
    Throttle,
    Udp,
    Vmess,
    Xor,
}

/// The actor of a node: what a component makes of the arguments of the node.
pub enum Actor {
    Aead(aead::Actor),
    Auth(auth::Actor),
    Balance(balance::Actor),
    Drop(discard::Actor),
    Echo(echo::Actor),
    Exec(process::Actor),
    Http2(http2::Actor),
    Miniz(miniz::Actor),
    Socks5,
    Stdio(stdio::Actor),
    Tcp(tcp::Actor),
    Tee(tee::Actor),
    Throttle(throttle::Actor),
    Udp(udp::Actor),
    Vmess(vmess::Client),
    Xor(xor::Actor),
}

impl Actor {
    /// The component that made the actor.
    pub open spec fn component(&self) -> Component {
        match self {
            Actor::Aead(_) => Component::Aead,
            Actor::Auth(_) => Component::Auth,
            Actor::Balance(_) => Component::Balance,
            Actor::Drop(_) => Component::Drop,
            Actor::Echo(_) => Component::Echo,
            Actor::Exec(_) => Component::Exec,
            Actor::Http2(_) => Component::Http2,
            Actor::Miniz(_) => Component::Miniz,
            Actor::Socks5 => Component::Socks5,
            Actor::Stdio(_) => Component::Stdio,
            Actor::Tcp(_) => Component::Tcp,
            Actor::Tee(_) => Component::Tee,
            Actor::Throttle(_) => Component::Throttle,
            Actor::Udp(_) => Component::Udp,
            Actor::Vmess(_) => Component::Vmess,
            Actor::Xor(_) => Component::Xor,
        }
    }
}

impl Component {
    /// The short name of the component, as listings show it.
    pub open spec fn spec_name(self) -> Seq<char> {
        match self {
            Component::Aead => "aead"@,
            Component::Auth => "auth"@,
            Component::Balance => "balance"@,
            Component::Drop => "drop"@,
            Component::Echo => "echo"@,
            Component::Exec => "exec"@,
            Component::Http2 => "http2"@,
            Component::Miniz => "miniz"@,
            Component::Socks5 => "socks5"@,
            Component::Stdio => "stdio"@,
            Component::Tcp => "tcp"@,
            Component::Tee => "tee"@,
            Component::Throttle => "throttle"@,
            Component::Udp => "udp"@,
            Component::Vmess => "vmess"@,
            Component::Xor => "xor"@,
        }
    }

    /// The function names that the component registers.
    pub open spec fn spec_functions(self) -> Seq<Seq<char>> {
        match self {
            Component::Aead => seq!["aead_encode"@, "aead_decode"@],
            Component::Auth => seq!["auth_client"@, "auth_server"@],
            Component::Balance => seq!["balance"@],
            Component::Drop => seq!["drop"@],
            Component::Echo => seq!["echo"@],
            Component::Exec => seq!["exec"@],
            Component::Http2 => seq!["http2_client"@],
            Component::Miniz => seq!["deflate"@, "inflate"@],
            Component::Socks5 => seq!["socks5_server"@, "socks5_client"@],
            Component::Stdio => seq!["stdin"@, "stdout"@, "stdio"@],
            Component::Tcp => seq!["tcp"@],
            Component::Tee => seq!["tee"@],
            Component::Throttle => seq!["throttle"@],
            Component::Udp => seq!["udp"@],
            Component::Vmess => seq!["vmess_client"@],
            Component::Xor => seq!["xor"@],
        }
    }

    /// Whether the component takes the arguments of a node, or the misuse
    /// that it reports.
    #[verifier::opaque]
    pub open spec fn outcome(self, args: Seq<(Seq<char>, ArgValue)>) -> Result<(), ErrorValue> {
        match self {
            Component::Aead => match aead::create_spec(args) {
                Ok(_) => Ok(()),
                Err(e) => Err(e),
            },
            Component::Auth => match auth::create_spec(args) {
                Ok(_) => Ok(()),
                Err(e) => Err(e),
            },
            Component::Balance => match balance::create_spec(args) {
                Ok(_) => Ok(()),
                Err(e) => Err(e),
            },
            Component::Drop => Ok(()),
            Component::Echo => match echo::create_spec(args) {
                Ok(_) => Ok(()),
                Err(e) => Err(e),
            },
            Component::Exec => match process::create_spec(args) {
                Ok(_) => Ok(()),
                Err(e) => Err(e),
            },
            Component::Http2 => match http2::create_spec(args) {
                Ok(_) => Ok(()),
                Err(e) => Err(e),
            },
            Component::Miniz => match miniz::create_spec(args) {
                Ok(_) => Ok(()),
                Err(e) => Err(e),
            },
            Component::Socks5 => match socks5::create_spec(args) {
                Ok(_) => Ok(()),
                Err(e) => Err(e),
            },
            Component::Stdio => match stdio::create_spec(args) {
                Ok(_) => Ok(()),
                Err(e) => Err(e),
            },
            Component::Tcp => match tcp::create_spec(args) {
                Ok(_) => Ok(()),
                Err(e) => Err(e),
            },
            Component::Tee => match tee::create_spec(args) {
                Ok(_) => Ok(()),
                Err(e) => Err(e),
            },
            Component::Throttle => match throttle::create_spec(args) {
                Ok(_) => Ok(()),
                Err(e) => Err(e),
            },
            Component::Udp => match udp::create_spec(args) {
                Ok(_) => Ok(()),
                Err(e) => Err(e),
            },
            Component::Vmess => match vmess::create_spec(args) {
                Ok(_) => Ok(()),
                Err(e) => Err(e),
            },
            Component::Xor => match xor::create_spec(args) {
                Ok(_) => Ok(()),
                Err(e) => Err(e),
            },
        }
    }

    /// Whether `actor` is what the component makes of the arguments.
    #[verifier::opaque]
    pub open spec fn makes(self, args: Seq<(Seq<char>, ArgValue)>, actor: Actor) -> bool {
        match (self, actor) {
            (Component::Aead, Actor::Aead(a)) => aead::create_spec(args) == Ok::<
                aead::ActorValue,
                ErrorValue,
            >(a@),
            (Component::Auth, Actor::Auth(a)) => auth::create_spec(args) == Ok::<
                (auth::Role, Seq<u8>),
                ErrorValue,
            >((a.role(), a.key())),
            (Component::Balance, Actor::Balance(a)) => balance::create_spec(args) == Ok::<
                nat,
                ErrorValue,
            >(a.n_outputs()),
            (Component::Drop, Actor::Drop(_)) => true,
            (Component::Echo, Actor::Echo(_)) => echo::create_spec(args) is Ok,
            (Component::Exec, Actor::Exec(a)) => process::create_spec(args) == Ok::<
                process::ActorValue,
                ErrorValue,
            >(a@),
            (Component::Http2, Actor::Http2(a)) => http2::create_spec(args) == Ok::<
                http2::ActorValue,
                ErrorValue,
            >(a@),
            (Component::Miniz, Actor::Miniz(a)) => miniz::create_spec(args) == Ok::<
                miniz::Actor,
                ErrorValue,
            >(a),
            (Component::Socks5, Actor::Socks5) => socks5::create_spec(args) is Ok,
            (Component::Stdio, Actor::Stdio(a)) => stdio::create_spec(args) == Ok::<
                stdio::Actor,
                ErrorValue,
            >(a),
            (Component::Tcp, Actor::Tcp(a)) => tcp::create_spec(args) == Ok::<
                tcp::ActorValue,
                ErrorValue,
            >(a@),
            (Component::Tee, Actor::Tee(a)) => tee::create_spec(args) == Ok::<nat, ErrorValue>(
                a.n_outputs(),
            ),
            (Component::Throttle, Actor::Throttle(a)) => throttle::create_spec(args) == Ok::<
                throttle::Actor,
                ErrorValue,
            >(a),
            (Component::Udp, Actor::Udp(a)) => udp::create_spec(args) == Ok::<
                tcp::ActorValue,
                ErrorValue,
            >(a@),
            (Component::Vmess, Actor::Vmess(a)) => vmess::create_spec(args) == Ok::<
                Seq<u8>,
                ErrorValue,
            >(a.user_id()),
            (Component::Xor, Actor::Xor(a)) => xor::create_spec(args) == Ok::<Seq<u8>, ErrorValue>(
                a.key(),
            ),
            _ => false,
        }
    }

    /// The short name of the component.
    pub fn name(self) -> (n: &'static str)
        ensures
            n@ == self.spec_name(),
    {
        match self {
            Component::Aead => "aead",
            Component::Auth => "auth",
            Component::Balance => "balance",
            Component::Drop => "drop",
            Component::Echo => "echo",
            Component::Exec => "exec",
            Component::Http2 => "http2",
            Component::Miniz => "miniz",
            Component::Socks5 => "socks5",
            Component::Stdio => "stdio",
            Component::Tcp => "tcp",
            Component::Tee => "tee",
            Component::Throttle => "throttle",
            Component::Udp => "udp",
            Component::Vmess => "vmess",
            Component::Xor => "xor",
        }
    }

    /// The function names that the component registers.
    pub fn functions(self) -> (names: Vec<&'static str>)
        ensures
            names@.map_values(|n: &'static str| n@) == self.spec_functions(),
    {
        let mut names: Vec<&'static str> = Vec::new();
        match self {
            Component::Aead => {
                names.push("aead_encode");
                names.push("aead_decode");
            },
            Component::Auth => {
                names.push("auth_client");
                names.push("auth_server");
            },
            Component::Balance => {
                names.push("balance");
            },
            Component::Drop => {
                names.push("drop");
            },
            Component::Echo => {
                names.push("echo");
            },
            Component::Exec => {
                names.push("exec");
            },
            Component::Http2 => {
                names.push("http2_client");
            },
            Component::Miniz => {
                names.push("deflate");
                names.push("inflate");
            },
            Component::Socks5 => {
                names.push("socks5_server");
                names.push("socks5_client");
            },
            Component::Stdio => {
                names.push("stdin");
                names.push("stdout");
                names.push("stdio");
            },
            Component::Tcp => {
                names.push("tcp");
            },
            Component::Tee => {
                names.push("tee");
            },
            Component::Throttle => {
                names.push("throttle");
            },
            Component::Udp => {
                names.push("udp");
            },
            Component::Vmess => {
                names.push("vmess_client");
            },
            Component::Xor => {
                names.push("xor");
            },
        }
        assert(names@.map_values(|n: &'static str| n@) =~= self.spec_functions());
        names
    }

    /// Makes the actor of a node from its arguments, which hold those of
    /// the script, then `function_name`, then `outputs`.
    pub fn create(self, arguments: &[(String, Argument)]) -> (r: Result<Actor, Error>)
        ensures
            match self.outcome(pairs_view(arguments@)) {
                Ok(_) => r is Ok && self.makes(pairs_view(arguments@), r->Ok_0),
                Err(e) => r is Err && r->Err_0@ == e,
            },
    {
        reveal(Component::makes);
        reveal(Component::outcome);
        match self {
            Component::Aead => match aead::create(arguments) {
                Ok(a) => Ok(Actor::Aead(a)),
                Err(e) => Err(e),
            },
            Component::Auth => match auth::create(arguments) {
                Ok(a) => Ok(Actor::Auth(a)),
                Err(e) => Err(e),
            },
            Component::Balance => match balance::create(arguments) {
                Ok(a) => Ok(Actor::Balance(a)),
                Err(e) => Err(e),
            },
            Component::Drop => match discard::create(arguments) {
                Ok(a) => Ok(Actor::Drop(a)),
                Err(e) => Err(e),
            },
            Component::Echo => match echo::create(arguments) {
                Ok(a) => Ok(Actor::Echo(a)),
                Err(e) => Err(e),
            },
            Component::Exec => match process::create(arguments) {
                Ok(a) => Ok(Actor::Exec(a)),
                Err(e) => Err(e),
            },
            Component::Http2 => match http2::create(arguments) {
                Ok(a) => Ok(Actor::Http2(a)),
                Err(e) => Err(e),
            },
            Component::Miniz => match miniz::create(arguments) {
                Ok(a) => Ok(Actor::Miniz(a)),
                Err(e) => Err(e),
            },
            Component::Socks5 => match socks5::create(arguments) {
                Ok(_) => Ok(Actor::Socks5),
                Err(e) => Err(e),
            },
            Component::Stdio => match stdio::create(arguments) {
                Ok(a) => Ok(Actor::Stdio(a)),
                Err(e) => Err(e),
            },
            Component::Tcp => match tcp::create(arguments) {
                Ok(a) => Ok(Actor::Tcp(a)),
                Err(e) => Err(e),
            },
            Component::Tee => match tee::create(arguments) {
                Ok(a) => Ok(Actor::Tee(a)),
                Err(e) => Err(e),
            },
            Component::Throttle => match throttle::create(arguments) {
                Ok(a) => Ok(Actor::Throttle(a)),
                Err(e) => Err(e),
            },
            Component::Udp => match udp::create(arguments) {
                Ok(a) => Ok(Actor::Udp(a)),
                Err(e) => Err(e),
            },
            Component::Vmess => match vmess::create(arguments) {
                Ok(a) => Ok(Actor::Vmess(a)),
                Err(e) => Err(e),
            },
            Component::Xor => match xor::create(arguments) {
                Ok(a) => Ok(Actor::Xor(a)),
                Err(e) => Err(e),
            },
        }
    }
}

/// The stock components, in the order in which they are listed.
pub open spec fn stock() -> Seq<Component> {
    seq![
        Component::Aead,
        Component::Auth,
        Component::Balance,
        Component::Drop,
        Component::Echo,
        Component::Exec,
        Component::Http2,
        Component::Miniz,
        Component::Socks5,
        Component::Stdio,
        Component::Tcp,
        Component::Tee,
        Component::Throttle,
        Component::Udp,
        Component::Vmess,
        Component::Xor,
    ]
}

/// The stock components.
pub fn all() -> (components: Vec<Component>)
    ensures
        components@ == stock(),
{
    let mut components: Vec<Component> = Vec::new();
    components.push(Component::Aead);
    components.push(Component::Auth);
    components.push(Component::Balance);
    components.push(Component::Drop);
    components.push(Component::Echo);
    components.push(Component::Exec);
    components.push(Component::Http2);
    components.push(Component::Miniz);
    components.push(Component::Socks5);
    components.push(Component::Stdio);
    components.push(Component::Tcp);
    components.push(Component::Tee);
    components.push(Component::Throttle);
    components.push(Component::Udp);
    components.push(Component::Vmess);
    components.push(Component::Xor);
    assert(components@ =~= stock());
    components
}

/// The function names of the first `n` components, each with its
/// component, in the order of registration.
pub open spec fn registered(components: Seq<Component>, n: int) -> Seq<(Seq<char>, Component)>
    decreases n,
{
    if n <= 0 {
        Seq::empty()
    } else {
        registered(components, n - 1) + components[n - 1].spec_functions().map_values(
            |f: Seq<char>| (f, components[n - 1]),
        )
    }
}

/// The component that registers `function`: the last that does, if several do.
pub open spec fn owner(table: Seq<(Seq<char>, Component)>, function: Seq<char>) -> Option<Component>
    decreases table.len(),
{
    if table.len() == 0 {
        None
    } else if table.last().0 == function {
        Some(table.last().1)
    } else {
        owner(table.drop_last(), function)
    }
}

/// The function names that components register, with their components.
pub struct Registry {
    table: Vec<(String, Component)>,
}

impl View for Registry {
    type V = Seq<(Seq<char>, Component)>;

    closed spec fn view(&self) -> Seq<(Seq<char>, Component)> {
        self.table@.map_values(|p: (String, Component)| (p.0@, p.1))
    }
}

impl Registry {
    /// The registry of the components given.
    pub fn new(components: &[Component]) -> (r: Registry)
        ensures
            r@ == registered(components@, components@.len() as int),
    {
        let mut table: Vec<(String, Component)> = Vec::new();
        let ghost view = |p: (String, Component)| (p.0@, p.1);
        let mut i: usize = 0;
        assert(table@.map_values(view) =~= registered(components@, 0));
        while i < components.len()
            invariant
                i <= components@.len(),
                view == |p: (String, Component)| (p.0@, p.1),
                table@.map_values(view) == registered(components@, i as int),
            decreases components@.len() - i,
        {
            let component = components[i];
            let names = component.functions();
            let ghost before = table@.map_values(view);
            let ghost wanted = component.spec_functions().map_values(
                |f: Seq<char>| (f, component),
            );
            let mut k: usize = 0;
            while k < names.len()
                invariant
                    k <= names@.len(),
                    view == |p: (String, Component)| (p.0@, p.1),
                    names@.map_values(|n: &'static str| n@) == component.spec_functions(),
                    wanted == component.spec_functions().map_values(
                        |f: Seq<char>| (f, component),
                    ),
                    table@.map_values(view) == before + wanted.take(k as int),
                decreases names@.len() - k,
            {
                let ghost prior = table@.map_values(view);
                let name = String::from_str(names[k]);
                assert(name@ == component.spec_functions()[k as int]) by {
                    assert(names@.map_values(|n: &'static str| n@)[k as int] == names@[k as int]@);
                }
                table.push((name, component));
                assert(table@.map_values(view) =~= prior.push((name@, component)));
                assert(wanted.take(k + 1) =~= wanted.take(k as int).push(wanted[k as int]));
                assert(before + wanted.take(k + 1) =~= (before + wanted.take(k as int)).push(
                    wanted[k as int],
                ));
                k += 1;
            }
            assert(wanted.take(names@.len() as int) =~= wanted);
            i += 1;
        }
        Registry { table }
    }

    /// The names that are registered, in the order of registration.
    pub fn names(&self) -> (names: Vec<String>)
        ensures
            names@.map_values(|n: String| n@) == self@.map_values(
                |p: (Seq<char>, Component)| p.0,
            ),
    {
        let mut names: Vec<String> = Vec::new();
        let mut i: usize = 0;
        while i < self.table.len()
            invariant
                i <= self.table@.len(),
                names@.len() == i,
                forall|k: int| 0 <= k < i ==> (#[trigger] names@[k])@ == self.table@[k].0@,
            decreases self.table@.len() - i,
        {
            names.push(self.table[i].0.clone());
            i += 1;
        }
        assert(names@.map_values(|n: String| n@) =~= self@.map_values(
            |p: (Seq<char>, Component)| p.0,
        ));
        names
    }

    /// The component that registers `function`.
    pub fn find(&self, function: &String) -> (c: Option<Component>)
        ensures
            c == owner(self@, function@),
    {
        let ghost table = self@;
        let mut i: usize = self.table.len();
        assert(table.take(i as int) =~= table);
        while i > 0
            invariant
                i <= self.table@.len(),
                table == self@,
                owner(table, function@) == owner(table.take(i as int), function@),
            decreases i,
        {
            i -= 1;
            assert(table.take(i + 1).last() == table[i as int]);
            assert(table.take(i + 1).drop_last() =~= table.take(i as int));
            if self.table[i].0 == *function {
                return Some(self.table[i].1);
            }
        }
        None
    }
}

/// Why a script gives no pipeline.
pub enum LoadError {
    /// The script is refused.
    Compile(CompileError),
    /// The component of the node `node` refuses its arguments.
    Create { node: usize, error: Error },
}

/// Whether the component of a call takes the arguments of the call, or the
/// misuse that is reported; a function that no component registers is a
/// misuse too.
pub open spec fn call_outcome(table: Seq<(Seq<char>, Component)>, call: CallValue) -> Result<
    (),
    ErrorValue,
> {
    match owner(table, call.function) {
        Some(c) => c.outcome(call.args),
        None => Err(misuse("unknown function"@)),
    }
}

/// Whether the components take the arguments of a node, the forward call
/// being asked first, or the misuse that is reported.
pub open spec fn node_outcome(table: Seq<(Seq<char>, Component)>, plan: NodePlanValue) -> Result<
    (),
    ErrorValue,
> {
    match call_outcome(table, plan.forward) {
        Err(e) => Err(e),
        Ok(_) => match plan.backward {
            Some(call) => call_outcome(table, call),
            None => Ok(()),
        },
    }
}

/// The first of the first `n` nodes that is refused, with the misuse that is
/// reported for it.
pub open spec fn first_refusal(
    table: Seq<(Seq<char>, Component)>,
    plans: Seq<NodePlanValue>,
    n: int,
) -> Option<(int, ErrorValue)>
    decreases n,
{
    if n <= 0 {
        None
    } else {
        match first_refusal(table, plans, n - 1) {
            Some(r) => Some(r),
            None => match node_outcome(table, plans[n - 1]) {
                Err(e) => Some((n - 1, e)),
                Ok(_) => None,
            },
        }
    }
}

/// Whether `actor` is what the component of a call makes of the call.
pub open spec fn call_makes(table: Seq<(Seq<char>, Component)>, call: CallValue, actor: Actor) -> bool {
    owner(table, call.function) matches Some(c) && c.makes(call.args, actor)
}

/// Whether `node` is the node of the running pipeline that the plan asks for.
pub open spec fn node_built(
    table: Seq<(Seq<char>, Component)>,
    plan: NodePlanValue,
    node: Node<Actor>,
) -> bool {
    &&& node.outputs@ == plan.outputs
    &&& call_makes(table, plan.forward, node.forward_actor)
    &&& match plan.backward {
        Some(call) => node.backward_actor matches Some(actor) && call_makes(table, call, actor),
        None => node.backward_actor is None,
    }
}

proof fn lemma_first_refusal_at(
    table: Seq<(Seq<char>, Component)>,
    plans: Seq<NodePlanValue>,
    k: int,
    n: int,
)
    requires
        0 <= k < n,
        first_refusal(table, plans, k) is None,
        node_outcome(table, plans[k]) is Err,
    ensures
        first_refusal(table, plans, n) == Some((k, node_outcome(table, plans[k])->Err_0)),
    decreases n - k,
{
    if n > k + 1 {
        lemma_first_refusal_at(table, plans, k, n - 1);
    }
}

fn make(registry: &Registry, call: &Call) -> (r: Result<Actor, Error>)
    ensures
        match call_outcome(registry@, call@) {
            Ok(_) => r is Ok && call_makes(registry@, call@, r->Ok_0),
            Err(e) => r is Err && r->Err_0@ == e,
        },
{
    match registry.find(&call.function) {
        Some(component) => component.create(call.args.as_slice()),
        None => Err(Error::misused("unknown function")),
    }
}

/// Makes the node of the running pipeline that a plan asks for.
fn build(registry: &Registry, plan: &NodePlan) -> (r: Result<Node<Actor>, Error>)
    ensures
        match node_outcome(registry@, plan@) {
            Ok(_) => r is Ok && node_built(registry@, plan@, r->Ok_0),
            Err(e) => r is Err && r->Err_0@ == e,
        },
{
    let forward = match make(registry, &plan.forward) {
        Ok(actor) => actor,
        Err(error) => {
            return Err(error);
        },
    };
    let backward = match &plan.backward {
        Some(call) => match make(registry, call) {
            Ok(actor) => Some(actor),
            Err(error) => {
                return Err(error);
            },
        },
        None => None,
    };
    Ok(Node::new(forward, backward, plan.outputs.clone()))
}

/// Loads a script: compiles it with the function names of the components,
/// and has the component of each node make the actor of the node, the nodes
/// in their order. A node built with `!!` gets two actors.
pub fn load_script(code: &str, components: &[Component]) -> (r: Result<Vec<Node<Actor>>, LoadError>)
    ensures
        ({
            let table = registered(components@, components@.len() as int);
            match compile_spec(code@, table.map_values(|p: (Seq<char>, Component)| p.0)) {
                Err(e) => r matches Err(LoadError::Compile(found)) && found == e,
                Ok(plans) => match first_refusal(table, plans, plans.len() as int) {
                    Some((node, e)) => r matches Err(LoadError::Create { node: at, error })
                        && at == node && error@ == e,
                    None => r matches Ok(nodes) && nodes@.len() == plans.len() && nodes_wf(nodes@)
                        && forall|i: int|
                        0 <= i < plans.len() ==> node_built(table, plans[i], #[trigger] nodes@[i]),
                },
            }
        }),
{
    let registry = Registry::new(components);
    let names = registry.names();
    let plans = match compile(code, &names) {
        Ok(plans) => plans,
        Err(e) => {
            return Err(LoadError::Compile(e));
        },
    };
    let ghost table = registry@;
    let ghost wanted = plan_values(plans@);
    let mut nodes: Vec<Node<Actor>> = Vec::new();
    let mut i: usize = 0;
    while i < plans.len()
        invariant
            i <= plans@.len(),
            table == registry@,
            table == registered(components@, components@.len() as int),
            wanted == plan_values(plans@),
            compile_spec(code@, table.map_values(|p: (Seq<char>, Component)| p.0)) == Ok::<
                Seq<NodePlanValue>,
                CompileError,
            >(wanted),
            plans_wf(wanted),
            nodes@.len() == i,
            first_refusal(table, wanted, i as int) is None,
            forall|k: int| 0 <= k < i ==> node_built(table, wanted[k], #[trigger] nodes@[k]),
        decreases plans@.len() - i,
    {
        assert(wanted[i as int] == plans@[i as int]@);
        match build(&registry, &plans[i]) {
            Ok(node) => {
                nodes.push(node);
            },
            Err(error) => {
                proof {
                    lemma_first_refusal_at(table, wanted, i as int, wanted.len() as int);
                }
                return Err(LoadError::Create { node: i, error });
            },
        }
        i += 1;
    }
    proof {
        assert forall|i: int| 0 <= i < nodes@.len() implies {
            &&& !(#[trigger] nodes@[i]).symmetric() ==> nodes@[i].outputs@.len() <= 1
            &&& forall|k: int|
                0 <= k < nodes@[i].outputs@.len() ==> (#[trigger] nodes@[i].outputs@[k])
                    < nodes@.len()
        } by {
            assert(node_built(table, wanted[i], nodes@[i]));
            assert(wanted[i].backward is Some ==> wanted[i].outputs.len() <= 1);
            assert forall|k: int| 0 <= k < nodes@[i].outputs@.len() implies (
            #[trigger] nodes@[i].outputs@[k]) < nodes@.len() by {
                assert(wanted[i].outputs[k] < wanted.len());
            }
        }
    }
    Ok(nodes)
}

/// The line that is shown when no script is given: the name of the program
/// with its version, then the short names of the components.
pub open spec fn banner_of(version: Seq<char>, components: Seq<Component>, n: int) -> Seq<char>
    decreases n,
{
    if n <= 0 {
        "Sopipe "@ + version
    } else {
        banner_of(version, components, n - 1) + " "@ + components[n - 1].spec_name()
    }
}

/// The line that is shown when no script is given.
pub fn banner(version: &str, components: &[Component]) -> (line: String)
    ensures
        line@ == banner_of(version@, components@, components@.len() as int),
{
    let mut line = String::from_str("Sopipe ");
    line.append(version);
    let mut i: usize = 0;
    while i < components.len()
        invariant
            i <= components@.len(),
            line@ == banner_of(version@, components@, i as int),
        decreases components@.len() - i,
    {
        line.append(" ");
        line.append(components[i].name());
        i += 1;
    }
    line
}

} // verus!

//! The decisions of the runtime: levels, sources, task counts and the way of a new stream.

use vstd::prelude::*;
use crate::error::Error;
use crate::helper::misuse;

verus! {

/// The phase that the whole process is in.
#[derive(Debug, Clone, Copy, PartialEq, Eq, Structural)]
pub enum RunLevel {
    /// Sources prepare and accept no work yet.
    Init,
    /// Normal operation.
    Run,
    /// No new work is accepted; what runs is left to end.
    Shut,
}

impl RunLevel {
    /// The place of the level in the order of the levels.
    pub open spec fn rank(self) -> int {
        match self {
            RunLevel::Init => 0,
            RunLevel::Run => 1,
            RunLevel::Shut => 2,
        }
    }

    /// The byte under which the level is kept.
    pub fn to_u8(self) -> (b: u8)
        ensures
            b == self.rank(),
    {
        match self {
            RunLevel::Init => 0,
            RunLevel::Run => 1,
            RunLevel::Shut => 2,
        }
    }

    /// The level that is kept under a byte, if it is one.
    pub fn from_u8(b: u8) -> (level: Option<RunLevel>)
        ensures
            match level {
                Some(l) => l.rank() == b,
                None => b > 2,
            },
    {
        if b == 0 {
            Some(RunLevel::Init)
        } else if b == 1 {
            Some(RunLevel::Run)
        } else if b == 2 {
            Some(RunLevel::Shut)
        } else {
            None
        }
    }

    /// The level after the sources had their time to prepare: a process that
    /// is starting runs; any other level stays.
    pub open spec fn after_start(self) -> RunLevel {
        if self == RunLevel::Init {
            RunLevel::Run
        } else {
            self
        }
    }

    /// The level after an interrupt from the user.
    pub open spec fn after_interrupt(self) -> RunLevel {
        RunLevel::Shut
    }

    /// The level after the sources had their time to prepare.
    pub fn started(self) -> (next: RunLevel)
        ensures
            next == self.after_start(),
    {
        match self {
            RunLevel::Init => RunLevel::Run,
            other => other,
        }
    }
}

/// What an interrupt from the user asks for.
#[derive(Debug, Clone, Copy, PartialEq, Eq, Structural)]
pub enum Interrupt {
    /// Stop accepting work, say so, and wait for what runs to end.
    ShutDown,
    /// Leave at once, with the exit code given.
    Abort(i32),
}

/// What to do on an interrupt from the user at the level given, and the
/// level afterwards: the first interrupt shuts the process down, the next
/// one aborts it with the exit code 1.
pub fn on_interrupt(level: RunLevel) -> (r: (RunLevel, Interrupt))
    ensures
        r.0 == level.after_interrupt(),
        r.1 == if level == RunLevel::Shut {
            Interrupt::Abort(1)
        } else {
            Interrupt::ShutDown
        },
{
    match level {
        RunLevel::Shut => (RunLevel::Shut, Interrupt::Abort(1)),
        _ => (RunLevel::Shut, Interrupt::ShutDown),
    }
}

/// The level never goes back: the start and an interrupt only move it on,
/// and once it is `Shut` it stays so.
pub proof fn lemma_level_moves_on(level: RunLevel)
    ensures
        level.after_start().rank() >= level.rank(),
        level.after_interrupt().rank() >= level.rank(),
        level == RunLevel::Shut ==> level.after_start() == RunLevel::Shut
            && level.after_interrupt() == RunLevel::Shut,
{
}

/// What the loop of a source does next.
#[derive(Debug, Clone, Copy, PartialEq, Eq, Structural)]
pub enum SourceStep {
    /// Sleep for the milliseconds given and look at the level again.
    Sleep(u64),
    /// Wait for work, for no longer than the milliseconds given, then look at
    /// the level again.
    Accept(u64),
    /// Leave the loop.
    Exit,
}

/// The pause of a source that waits for the process to run, in milliseconds.
pub const INIT_PAUSE: u64 = 20;

/// The longest wait of a source for work, in milliseconds.
pub const ACCEPT_TIMEOUT: u64 = 1000;

/// The time that sources get to prepare, in milliseconds.
pub const QUIESCENCE: u64 = 200;

/// The pause between two looks at the task counters, in milliseconds.
pub const IDLE_PAUSE: u64 = 20;

/// The number of frames that a channel holds.
pub const CHANNEL_CAPACITY: usize = 4;

/// What the loop of a source does at the level given. `serving` says whether
/// the loop has seen the process run before: a source that waits for the
/// start sleeps while the process starts, and a source accepts work only
/// while the process runs. So after the level is `Shut` the loop leaves at
/// its next look, which is no later than the longest wait for work.
pub open spec fn next_step(level: RunLevel, serving: bool) -> SourceStep {
    match level {
        RunLevel::Init => if serving {
            SourceStep::Exit
        } else {
            SourceStep::Sleep(INIT_PAUSE)
        },
        RunLevel::Run => SourceStep::Accept(ACCEPT_TIMEOUT),
        RunLevel::Shut => SourceStep::Exit,
    }
}

/// A source never waits longer than the longest wait for work before it
/// looks at the level again, and it leaves at the first look that finds the
/// process shut down.
pub proof fn lemma_source_leaves(level: RunLevel, serving: bool)
    ensures
        next_step(level, serving) matches SourceStep::Sleep(ms) ==> ms <= ACCEPT_TIMEOUT,
        next_step(level, serving) matches SourceStep::Accept(ms) ==> ms <= ACCEPT_TIMEOUT,
        level == RunLevel::Shut ==> next_step(level, serving) == SourceStep::Exit,
{
}

/// What the loop of a source does at the level given; see [`next_step`].
pub fn source_step(level: RunLevel, serving: bool) -> (step: SourceStep)
    ensures
        step == next_step(level, serving),
        level == RunLevel::Shut ==> step == SourceStep::Exit,
{
    match level {
        RunLevel::Init => if serving {
            SourceStep::Exit
        } else {
            SourceStep::Sleep(INIT_PAUSE)
        },
        RunLevel::Run => SourceStep::Accept(ACCEPT_TIMEOUT),
        RunLevel::Shut => SourceStep::Exit,
    }
}

/// A node of the running pipeline: the actor that handles the forward
/// direction, the actor for the backward direction where the node is a
/// composite built with `!!`, and the indices of the nodes downstream.
pub struct Node<A> {
    pub forward_actor: A,
    pub backward_actor: Option<A>,
    pub outputs: Vec<usize>,
}

impl<A> Node<A> {
    /// A node with the actors and the outputs given.
    pub fn new(forward_actor: A, backward_actor: Option<A>, outputs: Vec<usize>) -> (n: Node<A>)
        ensures
            n.forward_actor == forward_actor,
            n.backward_actor == backward_actor,
            n.outputs == outputs,
    {
        Node { forward_actor, backward_actor, outputs }
    }

    /// Whether one actor handles both directions.
    pub open spec fn symmetric(&self) -> bool {
        self.backward_actor is None
    }

    /// Whether one actor handles both directions.
    pub fn is_symmetric(&self) -> (r: bool)
        ensures
            r == self.symmetric(),
    {
        self.backward_actor.is_none()
    }
}

/// The outputs of the nodes of a pipeline.
pub open spec fn wiring<A>(nodes: Seq<Node<A>>) -> Seq<Seq<usize>> {
    nodes.map_values(|n: Node<A>| n.outputs@)
}

/// Whether the node `i` is an output of one of the first `n` nodes.
pub open spec fn referenced(outputs: Seq<Seq<usize>>, i: int, n: int) -> bool {
    exists|j: int, k: int|
        0 <= j < n && j < outputs.len() && 0 <= k < outputs[j].len() && #[trigger] outputs[j][k]
            == i
}

/// Whether the node `i` is a source: a node that is the output of no node.
pub open spec fn is_source(outputs: Seq<Seq<usize>>, i: int) -> bool {
    0 <= i < outputs.len() && !referenced(outputs, i, outputs.len() as int)
}

/// The sources of a pipeline, in the order of their indices: the nodes that
/// are the output of no node, and no others.
pub fn source_nodes<A>(nodes: &Vec<Node<A>>) -> (sources: Vec<usize>)
    ensures
        forall|i: int| is_source(wiring(nodes@), i) <==> sources@.contains(i as usize) && 0 <= i
            < nodes@.len(),
        forall|a: int, b: int| 0 <= a < b < sources@.len() ==> sources@[a] < sources@[b],
{
    let ghost outputs = wiring(nodes@);
    let n = nodes.len();
    let mut marked: Vec<bool> = Vec::new();
    let mut i: usize = 0;
    while i < n
        invariant
            i <= n,
            marked@.len() == i,
            forall|k: int| 0 <= k < i ==> !(#[trigger] marked@[k]),
        decreases n - i,
    {
        marked.push(false);
        i += 1;
    }
    let mut j: usize = 0;
    while j < n
        invariant
            j <= n,
            n == nodes@.len(),
            outputs == wiring(nodes@),
            marked@.len() == n,
            forall|t: int| 0 <= t < n ==> (#[trigger] marked@[t] <==> referenced(outputs, t, j as int)),
        decreases n - j,
    {
        let outs = &nodes[j].outputs;
        assert(outputs[j as int] == outs@);
        let mut k: usize = 0;
        while k < outs.len()
            invariant
                k <= outs@.len(),
                j < n,
                n == nodes@.len(),
                outputs == wiring(nodes@),
                outputs[j as int] == outs@,
                marked@.len() == n,
                forall|t: int|
                    0 <= t < n ==> (#[trigger] marked@[t] <==> referenced(outputs, t, j as int) || exists|
                        q: int,
                    |
                        0 <= q < k && #[trigger] outs@[q] == t),
            decreases outs@.len() - k,
        {
            let target = outs[k];
            if target < n {
                marked.set(target, true);
            }
            k += 1;
        }
        proof {
            assert forall|t: int| 0 <= t < n implies (#[trigger] marked@[t] <==> referenced(
                outputs,
                t,
                j + 1,
            )) by {
                if referenced(outputs, t, j + 1) {
                    let (a, b) = choose|a: int, b: int|
                        0 <= a < j + 1 && a < outputs.len() && 0 <= b < outputs[a].len()
                            && #[trigger] outputs[a][b] == t;
                    if a < j {
                        assert(referenced(outputs, t, j as int));
                    } else {
                        assert(outs@[b] == t);
                    }
                }
                if marked@[t] {
                    if referenced(outputs, t, j as int) {
                        let (a, b) = choose|a: int, b: int|
                            0 <= a < j && a < outputs.len() && 0 <= b < outputs[a].len()
                                && #[trigger] outputs[a][b] == t;
                        assert(outputs[a][b] == t);
                    } else {
                        let q = choose|q: int| 0 <= q < k && #[trigger] outs@[q] == t;
                        assert(outputs[j as int][q] == t);
                    }
                }
            }
        }
        j += 1;
    }
    let mut sources: Vec<usize> = Vec::new();
    let mut s: usize = 0;
    while s < n
        invariant
            s <= n,
            n == nodes@.len(),
            outputs == wiring(nodes@),
            outputs.len() == n,
            marked@.len() == n,
            forall|t: int| 0 <= t < n ==> (#[trigger] marked@[t] <==> referenced(outputs, t, n as int)),
            forall|t: int| 0 <= t < s ==> (is_source(outputs, t) <==> sources@.contains(t as usize)),
            forall|a: int| 0 <= a < sources@.len() ==> (#[trigger] sources@[a]) < s,
            forall|a: int, b: int| 0 <= a < b < sources@.len() ==> sources@[a] < sources@[b],
        decreases n - s,
    {
        let ghost before = sources@;
        if !marked[s] {
            sources.push(s);
        }
        proof {
            assert forall|t: int| 0 <= t < s + 1 implies (is_source(outputs, t)
                <==> sources@.contains(t as usize)) by {
                if t < s {
                    if before.contains(t as usize) {
                        let a = choose|a: int| 0 <= a < before.len() && before[a] == t as usize;
                        assert(sources@[a] == t as usize);
                    }
                    if sources@.contains(t as usize) {
                        let a = choose|a: int| 0 <= a < sources@.len() && sources@[a] == t as usize;
                        if a < before.len() {
                            assert(before[a] == t as usize);
                        }
                    }
                } else {
                    if sources@.contains(t as usize) {
                        let a = choose|a: int| 0 <= a < sources@.len() && sources@[a] == t as usize;
                        if a < before.len() {
                            assert(before[a] < s);
                        }
                    }
                    if !marked@[t] {
                        assert(sources@[sources@.len() - 1] == t as usize);
                    }
                }
            }
        }
        s += 1;
    }
    proof {
        assert forall|i: int| is_source(outputs, i) <==> sources@.contains(i as usize) && 0 <= i
            < nodes@.len() by {
            if !(0 <= i < n) && sources@.contains(i as usize) && 0 <= i < nodes@.len() {
            }
        }
    }
    sources
}

/// Whether no task of any node is alive: the moment at which the process
/// may leave.
pub fn all_idle(task_counts: &[u32]) -> (idle: bool)
    ensures
        idle <==> forall|i: int| 0 <= i < task_counts@.len() ==> task_counts@[i] == 0,
{
    let mut i: usize = 0;
    while i < task_counts.len()
        invariant
            i <= task_counts@.len(),
            forall|k: int| 0 <= k < i ==> task_counts@[k] == 0,
        decreases task_counts@.len() - i,
    {
        if task_counts[i] != 0 {
            return false;
        }
        i += 1;
    }
    true
}

/// The count of the live tasks of a node.
#[derive(Debug, Clone, Copy, PartialEq, Eq, Structural)]
pub struct Counter(pub u32);

impl Counter {
    /// The count with one more task.
    pub open spec fn entered(count: u32) -> u32 {
        (count + 1) as u32
    }

    /// The count with one task less.
    pub open spec fn left(count: u32) -> u32 {
        if count > 0 {
            (count - 1) as u32
        } else {
            0
        }
    }

    /// The count with one more task, where it can still count.
    pub fn new(count: u32) -> (c: Option<Counter>)
        ensures
            c == if count < u32::MAX {
                Some(Counter(Self::entered(count)))
            } else {
                None
            },
    {
        if count < u32::MAX {
            Some(Counter(count + 1))
        } else {
            None
        }
    }

    /// The count when a task has ended, however it ended.
    pub fn leave(self) -> (count: u32)
        ensures
            count == Self::left(self.0),
    {
        if self.0 > 0 {
            self.0 - 1
        } else {
            0
        }
    }
}

/// The count after `n` more tasks have entered.
pub open spec fn after_entering(count: u32, n: nat) -> u32
    decreases n,
{
    if n == 0 {
        count
    } else {
        Counter::entered(after_entering(count, (n - 1) as nat))
    }
}

/// The count after `n` tasks have left.
pub open spec fn after_leaving(count: u32, n: nat) -> u32
    decreases n,
{
    if n == 0 {
        count
    } else {
        Counter::left(after_leaving(count, (n - 1) as nat))
    }
}

/// When every task that entered has left, the count is what it was before:
/// a node that had no task has none again when all its streams have ended.
pub proof fn lemma_counter_returns(count: u32, n: nat)
    requires
        count + n <= u32::MAX,
    ensures
        after_entering(count, n) == count + n,
        after_leaving(after_entering(count, n), n) == count,
    decreases n,
{
    if n > 0 {
        lemma_counter_returns(count, (n - 1) as nat);
        lemma_leaving(after_entering(count, n), n);
    }
}

/// Leaving takes one from the count each time, down to zero.
proof fn lemma_leaving(count: u32, n: nat)
    ensures
        after_leaving(count, n) == if count >= n {
            count - n
        } else {
            0
        },
    decreases n,
{
    if n > 0 {
        lemma_leaving(count, (n - 1) as nat);
    }
}

/// A pipeline is well formed when every output of a node is the index of a
/// node, and a node built with `!!` has one output at most.
pub open spec fn nodes_wf<A>(nodes: Seq<Node<A>>) -> bool {
    forall|i: int|
        0 <= i < nodes.len() ==> {
            &&& !(#[trigger] nodes[i]).symmetric() ==> nodes[i].outputs@.len() <= 1
            &&& forall|k: int|
                0 <= k < nodes[i].outputs@.len() ==> (#[trigger] nodes[i].outputs@[k])
                    < nodes.len()
        }
}

/// How a new stream reaches the node downstream: through the composites on
/// its way, each of which gets a pair of fresh channels, to the node that
/// handles both directions itself.
pub struct SpawnPlan {
    /// The composite nodes, in the order in which the stream passes them.
    pub composites: Vec<usize>,
    /// The node that takes the stream at the end.
    pub target: usize,
}

/// What a [`SpawnPlan`] stands for.
pub struct Route {
    pub composites: Seq<usize>,
    pub target: usize,
}

impl View for SpawnPlan {
    type V = Route;

    open spec fn view(&self) -> Route {
        Route { composites: self.composites@, target: self.target }
    }
}

/// Why a stream cannot be handed downstream.
#[derive(Debug, Clone, Copy, PartialEq, Eq, Structural)]
pub enum SpawnFault {
    /// The node has no output with the index given, or an output that is no
    /// node.
    NoSuchOutput,
    /// A composite on the way has no output.
    DeadEnd,
    /// The composites lead back to one of themselves.
    Cycle,
}

/// The way from the node `at` on, through at most `fuel` composites, `seen`
/// being the composites passed before.
pub open spec fn route_from(
    symmetric: Seq<bool>,
    outputs: Seq<Seq<usize>>,
    at: usize,
    seen: Seq<usize>,
    fuel: nat,
) -> Result<Route, SpawnFault>
    decreases fuel,
{
    if at >= symmetric.len() || at >= outputs.len() {
        Err(SpawnFault::NoSuchOutput)
    } else if symmetric[at as int] {
        Ok(Route { composites: seen, target: at })
    } else if fuel == 0 {
        Err(SpawnFault::Cycle)
    } else if outputs[at as int].len() == 0 {
        Err(SpawnFault::DeadEnd)
    } else {
        route_from(symmetric, outputs, outputs[at as int][0], seen.push(at), (fuel - 1) as nat)
    }
}

/// The way of a new stream from the node `node` to its output `index`. A
/// node that handles both directions takes the stream as it is. A composite
/// takes it with its two actors, linked by fresh channels to the first
/// output of the composite, where the way goes on; it passes no more
/// composites than there are nodes.
pub open spec fn route(
    symmetric: Seq<bool>,
    outputs: Seq<Seq<usize>>,
    node: usize,
    index: usize,
) -> Result<Route, SpawnFault> {
    if node >= outputs.len() || index >= outputs[node as int].len() {
        Err(SpawnFault::NoSuchOutput)
    } else {
        route_from(symmetric, outputs, outputs[node as int][index as int], Seq::empty(), outputs.len())
    }
}

/// A stream that is handed to a composite goes on to the first output of
/// the composite: where that is a node that handles both directions, it is
/// the node that takes the stream, and the composite is the one node passed
/// on the way.
pub proof fn lemma_composite_leads_on(
    symmetric: Seq<bool>,
    outputs: Seq<Seq<usize>>,
    node: usize,
    index: usize,
)
    requires
        symmetric.len() == outputs.len(),
        node < outputs.len(),
        index < outputs[node as int].len(),
        ({
            let composite = outputs[node as int][index as int];
            &&& composite < outputs.len()
            &&& !symmetric[composite as int]
            &&& outputs[composite as int].len() > 0
            &&& outputs[composite as int][0] < outputs.len()
            &&& symmetric[outputs[composite as int][0] as int]
        }),
    ensures
        ({
            let composite = outputs[node as int][index as int];
            route(symmetric, outputs, node, index) == Ok::<Route, SpawnFault>(
                Route { composites: seq![composite], target: outputs[composite as int][0] },
            )
        }),
{
    let composite = outputs[node as int][index as int];
    let fuel = outputs.len();
    let next = outputs[composite as int][0];
    assert(Seq::<usize>::empty().push(composite) =~= seq![composite]);
    assert(route_from(symmetric, outputs, next, seq![composite], (fuel - 1) as nat) == Ok::<
        Route,
        SpawnFault,
    >(Route { composites: seq![composite], target: next }));
}

/// Which nodes handle both directions themselves.
pub open spec fn symmetry<A>(nodes: Seq<Node<A>>) -> Seq<bool> {
    nodes.map_values(|n: Node<A>| n.symmetric())
}

/// Plans how the actor of the node `node` hands a new stream to its output
/// `index`. `is_composite` says whether the actor works inside a composite:
/// such an actor may not hand a stream on, so the call is for the others.
pub fn spawn_next<A>(nodes: &Vec<Node<A>>, node: usize, index: usize, is_composite: bool) -> (r:
    Result<SpawnPlan, SpawnFault>)
    requires
        !is_composite,
    ensures
        match route(symmetry(nodes@), wiring(nodes@), node, index) {
            Ok(way) => r is Ok && r->Ok_0@ == way,
            Err(e) => r == Err::<SpawnPlan, SpawnFault>(e),
        },
{
    let ghost sym = symmetry(nodes@);
    let ghost outs = wiring(nodes@);
    if node >= nodes.len() {
        return Err(SpawnFault::NoSuchOutput);
    }
    assert(outs[node as int] == nodes@[node as int].outputs@);
    if index >= nodes[node].outputs.len() {
        return Err(SpawnFault::NoSuchOutput);
    }
    let mut at = nodes[node].outputs[index];
    let mut seen: Vec<usize> = Vec::new();
    let mut fuel = nodes.len();
    loop
        invariant
            sym == symmetry(nodes@),
            outs == wiring(nodes@),
            route(sym, outs, node, index) == route_from(
                sym,
                outs,
                at,
                seen@,
                fuel as nat,
            ),
        decreases fuel,
    {
        if at >= nodes.len() {
            return Err(SpawnFault::NoSuchOutput);
        }
        assert(sym[at as int] == nodes@[at as int].symmetric());
        assert(outs[at as int] == nodes@[at as int].outputs@);
        if nodes[at].is_symmetric() {
            return Ok(SpawnPlan { composites: seen, target: at });
        }
        if fuel == 0 {
            return Err(SpawnFault::Cycle);
        }
        if nodes[at].outputs.len() == 0 {
            return Err(SpawnFault::DeadEnd);
        }
        seen.push(at);
        at = nodes[at].outputs[0];
        fuel -= 1;
    }
}

/// What the helper that passes frames on does next.
pub enum PassStep {
    /// Receive the next frame.
    Receive,
    /// Send the frame on.
    Send(Vec<u8>),
    /// Stop.
    Stop,
}

/// What happened to the helper that passes frames on.
pub enum PassEvent {
    /// It starts, with or without a mailbox to receive from.
    Started { has_mailbox: bool },
    /// A frame was received.
    Received(Vec<u8>),
    /// The mailbox is closed.
    Closed,
    /// The frame was sent.
    Sent,
    /// The address is closed.
    SendFailed,
}

/// What the helper that passes frames on does after an event: it hands each
/// frame on as it came, one after the other, until either end is closed.
pub open spec fn passing(event: PassEvent) -> PassStep {
    match event {
        PassEvent::Started { has_mailbox } => if has_mailbox {
            PassStep::Receive
        } else {
            PassStep::Stop
        },
        PassEvent::Received(frame) => PassStep::Send(frame),
        PassEvent::Closed => PassStep::Stop,
        PassEvent::Sent => PassStep::Receive,
        PassEvent::SendFailed => PassStep::Stop,
    }
}

/// What the helper that passes frames on does after an event; see
/// [`passing`].
pub fn pass(event: PassEvent) -> (step: PassStep)
    ensures
        step == passing(event),
{
    match event {
        PassEvent::Started { has_mailbox } => if has_mailbox {
            PassStep::Receive
        } else {
            PassStep::Stop
        },
        PassEvent::Received(frame) => PassStep::Send(frame),
        PassEvent::Closed => PassStep::Stop,
        PassEvent::Sent => PassStep::Receive,
        PassEvent::SendFailed => PassStep::Stop,
    }
}

/// The frames that the helper sends on when `frames` come in, one after the
/// other, and each is sent before the next comes.
pub open spec fn passed_on(frames: Seq<Vec<u8>>) -> Seq<Vec<u8>>
    decreases frames.len(),
{
    if frames.len() == 0 {
        Seq::empty()
    } else {
        match passing(PassEvent::Received(frames[0])) {
            PassStep::Send(out) => seq![out] + passed_on(frames.drop_first()),
            _ => Seq::empty(),
        }
    }
}

/// The helper sends on the frames that come in, each as it came and in the
/// order in which they came.
pub proof fn lemma_passed_on(frames: Seq<Vec<u8>>)
    ensures
        passed_on(frames) == frames,
    decreases frames.len(),
{
    if frames.len() > 0 {
        lemma_passed_on(frames.drop_first());
        assert(seq![frames[0]] + frames.drop_first() =~= frames);
    }
}

/// What comes back to a caller that sends `frames` into a stream which
/// passes `composites` composite nodes and ends at a node that sends back
/// what it receives, when both actors of each composite pass frames on: the
/// frames go through one actor of each composite on their way, and through
/// the other on their way back.
pub open spec fn sent_back(composites: nat, frames: Seq<Vec<u8>>) -> Seq<Vec<u8>>
    decreases composites,
{
    if composites == 0 {
        passed_on(frames)
    } else {
        passed_on(sent_back((composites - 1) as nat, passed_on(frames)))
    }
}

/// Composites whose actors pass frames on do not show: what comes back
/// through them is what comes back without them, which is the frames that
/// were sent.
pub proof fn lemma_composites_do_not_show(composites: nat, frames: Seq<Vec<u8>>)
    ensures
        sent_back(composites, frames) == sent_back(0, frames),
        sent_back(0, frames) == frames,
    decreases composites,
{
    lemma_passed_on(frames);
    if composites > 0 {
        lemma_composites_do_not_show((composites - 1) as nat, frames);
        lemma_passed_on(sent_back((composites - 1) as nat, frames));
    }
}

/// The misuse that a fault of handing a stream downstream is reported as.
pub fn spawn_error(fault: SpawnFault) -> (e: Error)
    ensures
        e@ == misuse(
            match fault {
                SpawnFault::NoSuchOutput => "no such output"@,
                SpawnFault::DeadEnd => "a composite node has no output"@,
                SpawnFault::Cycle => "composite nodes form a cycle"@,
            },
        ),
{
    match fault {
        SpawnFault::NoSuchOutput => Error::misused("no such output"),
        SpawnFault::DeadEnd => Error::misused("a composite node has no output"),
        SpawnFault::Cycle => Error::misused("composite nodes form a cycle"),
    }
}

} // verus!

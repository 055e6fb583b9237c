//! The per-transaction data store: each node's execution state, keyed by
//! name, gating node readiness against the shared dependency graph.

use vstd::prelude::*;
use vstd::hash_map::StringHashMap;

use crate::dependency_graph::{spec_names_under, DependencyGraph};
use crate::payload::{Payload, PayloadV};

verus! {

/// The HTTP phase whose host callback is currently driving the scheduler.
#[derive(PartialEq, Eq, Structural, Clone, Copy, Debug)]
pub enum Phase {
    HttpRequestHeaders,
    HttpRequestBody,
    HttpResponseHeaders,
    HttpResponseBody,
    HttpCallResponse,
}

/// What a node sees when it fires: its providers' payloads, in declared
/// order, and the phase driving the scheduler.
pub struct Input<'a> {
    pub data: &'a [Option<&'a Payload>],
    pub phase: Phase,
}

/// A node's per-transaction execution state.
pub enum State {
    Waiting(u32),
    Done(Option<Payload>),
    Fail(Option<Payload>),
}

/// The mathematical value of a state.
pub enum StateV {
    Waiting(u32),
    Done(Option<PayloadV>),
    Fail(Option<PayloadV>),
}

impl View for State {
    type V = StateV;

    open spec fn view(&self) -> StateV {
        match self {
            State::Waiting(t) => StateV::Waiting(*t),
            State::Done(p) => StateV::Done(p.deep_view()),
            State::Fail(p) => StateV::Fail(p.deep_view()),
        }
    }
}

impl DeepView for State {
    type V = StateV;

    open spec fn deep_view(&self) -> StateV {
        self@
    }
}

/// The readiness condition. A node may fire when: its recorded state, if any,
/// is `Waiting` on exactly the offered token; and every one of its
/// providers has finished with `Done`.
pub open spec fn spec_can_trigger(
    states: Map<Seq<char>, StateV>,
    provs: Seq<Seq<char>>,
    name: Seq<char>,
    waiting: Option<u32>,
) -> bool {
    &&& (states.contains_key(name) ==> match states[name] {
        StateV::Waiting(w) => waiting == Some(w),
        _ => false,
    })
    &&& forall|i: int|
        0 <= i < provs.len() ==> states.contains_key(#[trigger] provs[i]) && states[provs[i]]
            is Done
}

/// The transitions the state lifecycle allows for `name`: an unrecorded
/// node may enter any state; a `Waiting` node may settle to `Done` or
/// `Fail`; `Done` and `Fail` are absorbing.
pub open spec fn spec_valid_transition(
    states: Map<Seq<char>, StateV>,
    name: Seq<char>,
    st: StateV,
) -> bool {
    if states.contains_key(name) {
        match states[name] {
            StateV::Waiting(_) => st is Done || st is Fail,
            _ => false,
        }
    } else {
        true
    }
}

pub struct Data {
    graph: std::rc::Rc<DependencyGraph>,
    states: StringHashMap<State>,
}

impl Data {
    /// The recorded states, by name.
    pub closed spec fn states(&self) -> Map<Seq<char>, StateV> {
        self.states@.map_values(|s: State| s@)
    }

    /// The ordered providers of `name` in the graph this store was built
    /// over.
    pub closed spec fn provs_of(&self, name: Seq<char>) -> Seq<Seq<char>> {
        spec_names_under((*self.graph).provs(), name)
    }

    pub closed spec fn wf(&self) -> bool {
        (*self.graph).wf()
    }

    pub fn new(graph: std::rc::Rc<DependencyGraph>) -> (r: Data)
        requires
            (*graph).wf(),
        ensures
            r.wf(),
            r.states() == Map::<Seq<char>, StateV>::empty(),
            forall|name: Seq<char>| r.provs_of(name) == spec_names_under((*graph).provs(), name),
    {
        let r = Data { graph, states: StringHashMap::new() };
        proof {
            assert(r.states() =~= Map::<Seq<char>, StateV>::empty());
        }
        r
    }

    /// Record (or overwrite) a node's state. The caller is responsible for
    /// respecting the state lifecycle.
    pub fn set(&mut self, name: &str, state: State)
        requires
            old(self).wf(),
        ensures
            final(self).wf(),
            final(self).states() == old(self).states().insert(name@, state@),
            forall|n: Seq<char>| final(self).provs_of(n) == old(self).provs_of(n),
    {
        let ghost pre = self.states();
        self.states.insert(name.to_owned(), state);
        proof {
            assert(self.states() =~= pre.insert(name@, state@));
        }
    }

    /// The readiness condition, executably.
    fn can_trigger(&self, name: &str, waiting: Option<u32>) -> (r: bool)
        requires
            self.wf(),
        ensures
            r == spec_can_trigger(self.states(), self.provs_of(name@), name@, waiting),
    {
        if let Some(state) = self.states.get(name) {
            match state {
                State::Done(_) => {
                    return false;
                },
                State::Fail(_) => {
                    return false;
                },
                State::Waiting(w) => {
                    match waiting {
                        Some(id) => {
                            if *w != id {
                                return false;
                            }
                        },
                        None => {
                            return false;
                        },
                    }
                },
            }
        }
        let inputs = self.graph.each_input(name);
        let mut i: usize = 0;
        while i < inputs.len()
            invariant
                self.wf(),
                0 <= i <= inputs.len(),
                inputs.deep_view() == self.provs_of(name@),
                forall|j: int|
                    0 <= j < i ==> self.states().contains_key(
                        #[trigger] inputs.deep_view()[j],
                    ) && self.states()[inputs.deep_view()[j]] is Done,
            decreases inputs.len() - i,
        {
            match self.states.get(inputs[i].as_str()) {
                Some(State::Done(_)) => {},
                _ => {
                    proof {
                        let prov = self.provs_of(name@)[i as int];
                        assert(inputs.deep_view()[i as int] == prov);
                        assert(!(self.states().contains_key(prov) && self.states()[prov]
                            is Done));
                    }
                    return false;
                },
            }
            i += 1;
        }
        true
    }

    /// If the node is ready, the borrowed payloads of the node's providers,
    /// aligned with its declared inputs; `None` in a slot whose provider
    /// finished with no output.
    pub fn get_inputs_for<'a>(&'a self, name: &str, waiting: Option<u32>) -> (r: Option<
        Vec<Option<&'a Payload>>,
    >)
        requires
            self.wf(),
        ensures
            r is Some <==> spec_can_trigger(self.states(), self.provs_of(name@), name@, waiting),
            r matches Some(v) ==> {
                &&& v@.len() == self.provs_of(name@).len()
                &&& forall|i: int|
                    0 <= i < v@.len() ==> (self.states()[self.provs_of(name@)[i]] matches
                    StateV::Done(op) && (#[trigger] v@[i]).deep_view() == op)
            },
    {
        if !self.can_trigger(name, waiting) {
            return None;
        }
        let inputs = self.graph.each_input(name);
        let mut vec: Vec<Option<&Payload>> = Vec::new();
        let mut i: usize = 0;
        while i < inputs.len()
            invariant
                self.wf(),
                0 <= i <= inputs.len(),
                vec@.len() == i,
                inputs.deep_view() == self.provs_of(name@),
                spec_can_trigger(self.states(), self.provs_of(name@), name@, waiting),
                forall|j: int|
                    0 <= j < i ==> (self.states()[self.provs_of(name@)[j]] matches StateV::Done(
                    op) && (#[trigger] vec@[j]).deep_view() == op),
            decreases inputs.len() - i,
        {
            match self.states.get(inputs[i].as_str()) {
                Some(State::Done(p)) => {
                    vec.push(p.as_ref());
                },
                _ => {
                    proof {
                        assert(self.states().contains_key(inputs.deep_view()[i as int]));
                        assert(false);
                    }
                },
            }
            i += 1;
        }
        Some(vec)
    }

    /// The first provider's payload, if the node is ready. A `None` return
    /// conflates an unready node with a first provider that finished with no
    /// output; this is used only for the implicit sink nodes, where the
    /// driver already knows whether the sink is connected.
    pub fn first_input_for<'a>(&'a self, name: &str, waiting: Option<u32>) -> (r: Option<
        &'a Payload,
    >)
        requires
            self.wf(),
        ensures
            !spec_can_trigger(self.states(), self.provs_of(name@), name@, waiting) ==> r is None,
            (spec_can_trigger(self.states(), self.provs_of(name@), name@, waiting)
                && self.provs_of(name@).len() == 0) ==> r is None,
            (spec_can_trigger(self.states(), self.provs_of(name@), name@, waiting)
                && self.provs_of(name@).len() > 0) ==> (self.states()[self.provs_of(name@)[0]]
                matches StateV::Done(op) && r.deep_view() == op),
    {
        if !self.can_trigger(name, waiting) {
            return None;
        }
        let inputs = self.graph.each_input(name);
        if inputs.len() == 0 {
            return None;
        }
        match self.states.get(inputs[0].as_str()) {
            Some(State::Done(p)) => p.as_ref(),
            _ => {
                proof {
                    assert(self.states().contains_key(inputs.deep_view()[0]));
                    assert(false);
                }
                None
            },
        }
    }
}

/// Readiness is monotonic: once a node is ready to fire (with no token),
/// any valid transition of another node keeps it ready; readiness is lost
/// only when the node itself is recorded.
pub proof fn lemma_readiness_monotonic(
    states: Map<Seq<char>, StateV>,
    provs: Seq<Seq<char>>,
    n: Seq<char>,
    m: Seq<char>,
    st: StateV,
)
    requires
        spec_can_trigger(states, provs, n, None),
        spec_valid_transition(states, m, st),
        m != n,
    ensures
        spec_can_trigger(states.insert(m, st), provs, n, None),
{
    let states2 = states.insert(m, st);
    assert forall|i: int|
        0 <= i < provs.len() implies states2.contains_key(#[trigger] provs[i])
        && states2[provs[i]] is Done by {
        if provs[i] == m {
            assert(states[m] is Done);
        }
    }
}

/// Any recorded state ends tokenless readiness: a node that has fired
/// cannot fire again in the same phase, whatever state its run produced.
pub proof fn lemma_settled_state_ends_readiness(
    states: Map<Seq<char>, StateV>,
    provs: Seq<Seq<char>>,
    n: Seq<char>,
    st: StateV,
)
    ensures
        !spec_can_trigger(states.insert(n, st), provs, n, None),
{
}

/// A failed provider blocks its dependents: no dependent of a `Fail` node
/// can become ready, with or without a token.
pub proof fn lemma_fail_blocks_dependents(
    states: Map<Seq<char>, StateV>,
    provs: Seq<Seq<char>>,
    d: Seq<char>,
    i: int,
    waiting: Option<u32>,
)
    requires
        0 <= i < provs.len(),
        states.contains_key(provs[i]),
        states[provs[i]] is Fail,
    ensures
        !spec_can_trigger(states, provs, d, waiting),
{
}

/// `Fail` is absorbing: under valid transitions, a failed node stays
/// failed for the rest of the transaction.
pub proof fn lemma_fail_is_absorbing(
    states: Map<Seq<char>, StateV>,
    n: Seq<char>,
    m: Seq<char>,
    st: StateV,
)
    requires
        states.contains_key(n),
        states[n] is Fail,
        spec_valid_transition(states, m, st),
    ensures
        states.insert(m, st).contains_key(n),
        states.insert(m, st)[n] is Fail,
{
    if m == n {
        assert(false);
    }
}

} // verus!

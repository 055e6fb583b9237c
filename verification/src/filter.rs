//! The filter driver: one HTTP transaction's context. It seeds the
//! implicit source nodes from what the host hands it, runs the scheduler
//! loop until no node can fire, drains the implicit sinks into host
//! writes, and suspends whenever a Call node awaits a subrequest.
//!
//! All host interaction is by value: every phase entry takes what the
//! host produced and returns a verdict carrying the writes the host owes,
//! so the surrounding glue stays free of logic.

use vstd::prelude::*;
use vstd::string::StringExecFns;

use crate::config::Config;
use crate::data::{spec_can_trigger, Data, Input, Phase, State, StateV};
use crate::debug::RunMode;
use crate::nodes::{Action, DispatchRequest, Effect, NodeKind, RunOutcome};
use crate::payload::{from_pwm_headers, to_pwm_headers, Payload};
use crate::strutil::{str_eq, usize_to_string};

verus! {

broadcast use vstd::std_specs::vec::vec_clone_deep_view_proof;

/// What a phase entry owes the host: either the phase is finished, with
/// the action to return and the writes to perform, or a Call node needs a
/// subrequest dispatched — perform the writes, dispatch, and hand the
/// outcome to `dispatch_result`.
pub enum PhaseVerdict {
    Done { action: Action, effects: Vec<Effect> },
    AwaitDispatch { request: DispatchRequest, effects: Vec<Effect> },
}

/// A sequence with no element twice.
pub open spec fn spec_distinct(s: Seq<int>) -> bool {
    forall|k1: int, k2: int| 0 <= k1 < k2 < s.len() ==> s[k1] != s[k2]
}

/// A strictly increasing sequence.
pub open spec fn spec_strictly_increasing(s: Seq<int>) -> bool {
    forall|k1: int, k2: int| 0 <= k1 < k2 < s.len() ==> s[k1] < s[k2]
}

/// No two nodes share a name.
pub open spec fn spec_names_distinct(names: Seq<Seq<char>>) -> bool {
    forall|i: int, j: int| 0 <= i < j < names.len() ==> names[i] != names[j]
}

/// The reserved sink name `response_body` differs from the other
/// implicit names the driver seeds.
proof fn lemma_seed_names_differ()
    ensures
        "request_headers"@ != "response_body"@,
        "request_body"@ != "response_body"@,
        "service_response_headers"@ != "response_body"@,
        "service_response_body"@ != "response_body"@,
{
    broadcast use vstd::string::group_string_axioms;

    reveal_strlit("request_headers");
    reveal_strlit("request_body");
    reveal_strlit("service_response_headers");
    reveal_strlit("service_response_body");
    reveal_strlit("response_body");
    assert("request_headers"@.len() == 15);
    assert("request_body"@.len() == 12);
    assert("service_response_headers"@.len() == 24);
    assert("service_response_body"@.len() == 21);
    assert("response_body"@.len() == 13);
}

/// A whole scheduler entry's firing trace, pass by pass, flattened.
pub open spec fn spec_flat(passes: Seq<Seq<int>>) -> Seq<int>
    decreases passes.len(),
{
    if passes.len() == 0 {
        Seq::empty()
    } else {
        spec_flat(passes.drop_last()) + passes.last()
    }
}

/// A duplicate-free sequence of indices into `0..n` has at most `n`
/// elements.
proof fn lemma_distinct_bounded(s: Seq<int>, n: int)
    requires
        n >= 0,
        spec_distinct(s),
        forall|k: int| 0 <= k < s.len() ==> 0 <= #[trigger] s[k] < n,
    ensures
        s.len() <= n,
{
    assert(s.no_duplicates()) by {
        assert forall|i: int, j: int|
            (0 <= i < s.len() && 0 <= j < s.len() && i != j) implies s[i] != s[j] by {
            if i < j {
            }
        }
    }
    s.unique_seq_to_set();
    vstd::set_lib::lemma_int_range(0, n);
    assert(s.to_set().subset_of(vstd::set_lib::set_int_range(0, n))) by {
        assert forall|x: int| s.to_set().contains(x) implies vstd::set_lib::set_int_range(
            0,
            n,
        ).contains(x) by {
            let k = choose|k: int| 0 <= k < s.len() && s[k] == x;
            assert(0 <= s[k] < n);
        }
    }
    vstd::set_lib::lemma_len_subset(s.to_set(), vstd::set_lib::set_int_range(0, n));
}

/// Unreserved node names carry over to any filter state that keeps the
/// same names.
proof fn lemma_names_unreserved_transfer(pre: &DataKitFilter, post: &DataKitFilter)
    requires
        pre.wf(),
        post.names() == pre.names(),
    ensures
        forall|i: int|
            0 <= i < post.names().len() ==> !crate::config::spec_is_reserved(
                #[trigger] post.names()[i],
            ),
{
    assert forall|i: int|
        0 <= i < post.names().len() implies !crate::config::spec_is_reserved(
        #[trigger] post.names()[i]) by {
        assert(post.names()[i] == pre.names()[i]);
    }
}

pub struct DataKitFilter {
    node_names: Vec<String>,
    node_types: Vec<String>,
    nodes: Vec<NodeKind>,
    data: Data,
    debug: Option<crate::debug::Debug>,
    effects: Vec<Effect>,
    phase: Phase,
    phase_action: Action,
    pending_dispatch: Option<usize>,
    host_response_body: Option<Vec<u8>>,
    do_request_headers: bool,
    do_request_body: bool,
    do_service_request_headers: bool,
    do_service_request_body: bool,
    do_service_response_headers: bool,
    do_service_response_body: bool,
    do_response_headers: bool,
    do_response_body: bool,
}

/// Whether a debug-trace header value turns tracing on: anything but an
/// explicit off.
pub fn header_to_bool(header_value: &Option<String>) -> (r: bool)
    ensures
        r == match *header_value {
            Some(val) => val@ != "off"@ && val@ != "false"@ && val@ != "0"@,
            None => false,
        },
{
    match header_value {
        Some(val) => !str_eq(val.as_str(), "off") && !str_eq(val.as_str(), "false") && !str_eq(
            val.as_str(),
            "0",
        ),
        None => false,
    }
}

impl DataKitFilter {
    /// The node names, in configuration order.
    pub closed spec fn names(&self) -> Seq<Seq<char>> {
        self.node_names.deep_view()
    }

    /// The recorded node states.
    pub closed spec fn states(&self) -> Map<Seq<char>, StateV> {
        self.data.states()
    }

    /// The node instances, aligned with the declared node order.
    pub closed spec fn node_kinds(&self) -> Seq<NodeKind> {
        self.nodes@
    }

    /// The index of the node whose dispatch the host still owes.
    pub closed spec fn pending(&self) -> Option<usize> {
        self.pending_dispatch
    }

    /// The ordered providers of `name` in the shared graph.
    pub closed spec fn provs_of(&self, name: Seq<char>) -> Seq<Seq<char>> {
        self.data.provs_of(name)
    }

    /// The action the phase will report: `Pause` once a node suspended.
    pub closed spec fn action_view(&self) -> Action {
        self.phase_action
    }

    /// The host writes gathered so far in this phase, in order.
    pub closed spec fn effects_view(&self) -> Seq<crate::nodes::EffectV> {
        self.effects.deep_view()
    }

    /// The phase whose host callback is driving the scheduler.
    pub closed spec fn phase_view(&self) -> Phase {
        self.phase
    }

    /// Whether anything consumes the host's request headers.
    pub closed spec fn flag_request_headers(&self) -> bool {
        self.do_request_headers
    }

    /// Whether anything consumes the host's request body.
    pub closed spec fn flag_request_body(&self) -> bool {
        self.do_request_body
    }

    /// Whether anything produces the upstream request headers.
    pub closed spec fn flag_service_request_headers(&self) -> bool {
        self.do_service_request_headers
    }

    /// Whether anything produces the upstream request body.
    pub closed spec fn flag_service_request_body(&self) -> bool {
        self.do_service_request_body
    }

    /// Whether anything consumes the upstream response headers.
    pub closed spec fn flag_service_response_headers(&self) -> bool {
        self.do_service_response_headers
    }

    /// Whether anything consumes the upstream response body.
    pub closed spec fn flag_service_response_body(&self) -> bool {
        self.do_service_response_body
    }

    /// Whether anything produces the downstream response headers.
    pub closed spec fn flag_response_headers(&self) -> bool {
        self.do_response_headers
    }

    /// Whether anything produces the downstream response body.
    pub closed spec fn flag_response_body(&self) -> bool {
        self.do_response_body
    }

    /// Whether the debug facility was configured for this transaction.
    pub closed spec fn has_debug(&self) -> bool {
        self.debug is Some
    }

    /// Whether the debug facility exists and tracing was switched on.
    pub closed spec fn tracing(&self) -> bool {
        match self.debug {
            Some(d) => d.tracing(),
            None => false,
        }
    }

    pub closed spec fn wf(&self) -> bool {
        &&& self.data.wf()
        &&& self.nodes@.len() == self.node_names@.len()
        &&& self.node_types@.len() == self.node_names@.len()
        &&& forall|i: int|
            0 <= i < self.names().len() ==> !crate::config::spec_is_reserved(
                #[trigger] self.names()[i],
            )
    }

    /// The parts of the filter that never change after attach.
    pub open spec fn cfg_eq(pre: &DataKitFilter, post: &DataKitFilter) -> bool {
        &&& post.names() == pre.names()
    }

    /// Attach: snapshot the shared configuration into one transaction's
    /// context — node instances, a fresh data store over the shared
    /// graph, and one flag per implicit node saying whether anything is
    /// connected to it.
    pub fn new(config: &Config) -> (r: DataKitFilter)
        requires
            config.wf(),
            config.no_reserved_names(),
        ensures
            r.wf(),
            r.pending() is None,
            r.states() == Map::<Seq<char>, StateV>::empty(),
            r.names() == config.names(),
            r.action_view() == Action::Continue,
            forall|m: Seq<char>| r.provs_of(m) == crate::dependency_graph::spec_names_under(
                config.graph_provs(),
                m,
            ),
            r.flag_request_headers() == config.graph_deps().contains_key("request_headers"@),
            r.flag_request_body() == config.graph_deps().contains_key("request_body"@),
            r.flag_service_request_headers() == config.graph_provs().contains_key(
                "service_request_headers"@,
            ),
            r.flag_service_request_body() == config.graph_provs().contains_key(
                "service_request_body"@,
            ),
            r.flag_service_response_headers() == config.graph_deps().contains_key(
                "service_response_headers"@,
            ),
            r.flag_service_response_body() == config.graph_deps().contains_key(
                "service_response_body"@,
            ),
            r.flag_response_headers() == config.graph_provs().contains_key("response_headers"@),
            r.flag_response_body() == config.graph_provs().contains_key("response_body"@),
            r.node_kinds().len() == config.names().len(),
            forall|i: int|
                0 <= i < r.node_kinds().len() ==> {
                    &&& (config.config_kinds()[i] is Template ==> #[trigger] r.node_kinds()[i]
                        is Template)
                    &&& (config.config_kinds()[i] is Call ==> r.node_kinds()[i] is Call)
                    &&& (config.config_kinds()[i] is Response ==> r.node_kinds()[i] is Response)
                    &&& (config.config_kinds()[i] is Jq ==> (r.node_kinds()[i] is Jq
                        || r.node_kinds()[i] is Broken))
                },
    {
        let graph = config.get_graph();
        let do_request_headers = graph.has_dependents("request_headers");
        let do_request_body = graph.has_dependents("request_body");
        let do_service_request_headers = graph.has_providers("service_request_headers");
        let do_service_request_body = graph.has_providers("service_request_body");
        let do_service_response_headers = graph.has_dependents("service_response_headers");
        let do_service_response_body = graph.has_dependents("service_response_body");
        let do_response_headers = graph.has_providers("response_headers");
        let do_response_body = graph.has_providers("response_body");
        let debug = if config.debug() {
            Some(crate::debug::Debug::new())
        } else {
            None
        };
        let filter = DataKitFilter {
            node_names: config.get_node_names().clone(),
            node_types: config.get_node_types(),
            nodes: config.build_nodes(),
            data: Data::new(config.graph_handle()),
            debug,
            effects: Vec::new(),
            phase: Phase::HttpRequestHeaders,
            phase_action: Action::Continue,
            pending_dispatch: None,
            host_response_body: None,
            do_request_headers,
            do_request_body,
            do_service_request_headers,
            do_service_request_body,
            do_service_response_headers,
            do_service_response_body,
            do_response_headers,
            do_response_body,
        };
        proof {
            assert(filter.names() =~= config.names());
            assert forall|i: int|
                0 <= i < filter.names().len() implies !crate::config::spec_is_reserved(
                #[trigger] filter.names()[i]) by {
                assert(filter.names()[i] == config.names()[i]);
            }
        }
        filter
    }

    /// Whether the driver needs the request body fetched at the
    /// request-body phase.
    pub fn needs_request_body(&self) -> (r: bool)
        ensures
            r == self.flag_request_body(),
    {
        self.do_request_body
    }

    /// Whether the driver needs the response body fetched at the
    /// response-body phase: to seed the upstream response body, or to
    /// keep the host body for the debug trace.
    pub fn needs_response_body(&self) -> (r: bool)
        ensures
            r == (self.flag_service_response_body() || self.flag_response_body()),
    {
        self.do_service_response_body || self.do_response_body
    }

    /// Record a node's state, tracing the transition when the debug
    /// facility is on.
    fn set_data(&mut self, name: &str, state: State)
        requires
            old(self).wf(),
        ensures
            final(self).wf(),
            DataKitFilter::cfg_eq(old(self), final(self)),
            final(self).states() == old(self).states().insert(name@, state@),
            final(self).pending() == old(self).pending(),
            final(self).nodes@.len() == old(self).nodes@.len(),
            forall|m: Seq<char>| final(self).provs_of(m) == old(self).provs_of(m),
            final(self).action_view() == old(self).action_view(),
            final(self).phase_view() == old(self).phase_view(),
            final(self).tracing() == old(self).tracing(),
    {
        if let Some(debug) = &mut self.debug {
            debug.set_data(name, &state);
        }
        self.data.set(name, state);
        proof {
            lemma_names_unreserved_transfer(old(self), self);
        }
    }

    /// Record a node's state without a trace entry: the scheduler's own
    /// invocation trace already recorded it, as one `run` and one state
    /// entry.
    fn record_state(&mut self, name: &str, state: State)
        requires
            old(self).wf(),
        ensures
            final(self).wf(),
            DataKitFilter::cfg_eq(old(self), final(self)),
            final(self).states() == old(self).states().insert(name@, state@),
            final(self).pending() == old(self).pending(),
            final(self).nodes@.len() == old(self).nodes@.len(),
            forall|m: Seq<char>| final(self).provs_of(m) == old(self).provs_of(m),
            final(self).action_view() == old(self).action_view(),
            final(self).phase_view() == old(self).phase_view(),
            final(self).tracing() == old(self).tracing(),
    {
        self.data.set(name, state);
        proof {
            lemma_names_unreserved_transfer(old(self), self);
        }
    }

    /// Seed an implicit source node with host headers, as a JSON-object
    /// payload.
    fn set_headers_data(&mut self, vec: &Vec<(String, String)>, name: &str)
        requires
            old(self).wf(),
        ensures
            final(self).wf(),
            DataKitFilter::cfg_eq(old(self), final(self)),
            final(self).states().contains_key(name@),
            final(self).states()[name@] matches StateV::Done(Some(
                crate::payload::PayloadV::Json(_),
            )),
            final(self).states() == old(self).states().insert(
                name@,
                final(self).states()[name@],
            ),
            final(self).pending() == old(self).pending(),
            final(self).nodes@.len() == old(self).nodes@.len(),
            forall|m: Seq<char>| final(self).provs_of(m) == old(self).provs_of(m),
            final(self).action_view() == old(self).action_view(),
            final(self).phase_view() == old(self).phase_view(),
            final(self).tracing() == old(self).tracing(),
    {
        let payload = from_pwm_headers(vec);
        self.set_data(name, State::Done(Some(payload)));
    }

    /// One pass over the nodes in configuration order. Every node whose
    /// readiness condition holds fires, in declared order; a Call node's dispatch
    /// interrupts the pass. The returned (ghost) indices of the fired
    /// nodes are strictly increasing — ties in readiness are broken by
    /// configuration order — and none of them had a recorded state when
    /// the pass began.
    #[verifier::rlimit(50)]
    pub fn run_pass(&mut self) -> (r: (bool, Option<DispatchRequest>, Ghost<Seq<int>>))
        requires
            old(self).wf(),
            old(self).pending() is None,
        ensures
            final(self).wf(),
            DataKitFilter::cfg_eq(old(self), final(self)),
            spec_strictly_increasing(r.2@),
            forall|k: int| 0 <= k < r.2@.len() ==> 0 <= #[trigger] r.2@[k] < final(self).names().len(),
            forall|k: int|
                0 <= k < r.2@.len() ==> !old(self).states().contains_key(
                    final(self).names()[#[trigger] r.2@[k]],
                ),
            forall|n: Seq<char>|
                #[trigger] old(self).states().contains_key(n) ==> (final(self).states().contains_key(n) && final(self).states()[n] == old(self).states()[n]),
            r.0 == (r.2@.len() > 0),
            r.2@.len() == 0 ==> (final(self).states() == old(self).states() && (forall|j: int|
                0 <= j < final(self).names().len() ==> !spec_can_trigger(
                    final(self).states(),
                    final(self).provs_of(final(self).names()[j]),
                    final(self).names()[j],
                    None,
                ))),
            r.1 is Some ==> (r.2@.len() > 0 && final(self).pending() == Some(
                r.2@.last() as usize,
            ) && (forall|k: int|
                0 <= k < r.2@.len() - 1 ==> final(self).states().contains_key(
                    final(self).names()[#[trigger] r.2@[k]],
                ))),
            r.1 is None ==> (final(self).pending() is None && (forall|k: int|
                0 <= k < r.2@.len() ==> final(self).states().contains_key(
                    final(self).names()[#[trigger] r.2@[k]],
                ))),
            final(self).action_view() == old(self).action_view(),
            final(self).phase_view() == old(self).phase_view(),
            final(self).tracing() == old(self).tracing(),
            forall|m: Seq<char>| final(self).provs_of(m) == old(self).provs_of(m),
            (spec_names_distinct(final(self).names()) && r.1 is None) ==> (forall|j: int|
                (0 <= j < final(self).names().len() && spec_can_trigger(
                    old(self).states(),
                    old(self).provs_of(old(self).names()[j]),
                    old(self).names()[j],
                    None,
                )) ==> r.2@.contains(j)),
    {
        let ghost start = self.states();
        let ghost mut fired: Seq<int> = Seq::empty();
        let mut any_ran = false;
        let n = self.node_names.len();
        let mut i: usize = 0;
        while i < n
            invariant
                self.wf(),
                DataKitFilter::cfg_eq(old(self), self),
                self.nodes@.len() == old(self).nodes@.len(),
                n == self.node_names@.len(),
                0 <= i <= n,
                start == old(self).states(),
                self.pending() is None,
                self.action_view() == old(self).action_view(),
                self.phase_view() == old(self).phase_view(),
                self.tracing() == old(self).tracing(),
                forall|m: Seq<char>| self.provs_of(m) == old(self).provs_of(m),
                spec_strictly_increasing(fired),
                forall|k: int| 0 <= k < fired.len() ==> 0 <= #[trigger] fired[k] < i,
                forall|k: int|
                    0 <= k < fired.len() ==> !start.contains_key(
                        self.names()[#[trigger] fired[k]],
                    ),
                forall|k: int|
                    0 <= k < fired.len() ==> self.states().contains_key(
                        self.names()[#[trigger] fired[k]],
                    ),
                forall|m: Seq<char>|
                    #[trigger] start.contains_key(m) ==> (self.states().contains_key(m)
                        && self.states()[m] == start[m]),
                fired.len() == 0 ==> (self.states() == start && (forall|j: int|
                    0 <= j < i ==> !spec_can_trigger(
                        self.states(),
                        self.provs_of(self.names()[j]),
                        self.names()[j],
                        None,
                    ))),
                spec_names_distinct(self.names()) ==> (forall|j: int|
                    (0 <= j < i && spec_can_trigger(
                        start,
                        self.provs_of(self.names()[j]),
                        self.names()[j],
                        None,
                    )) ==> fired.contains(j)),
                spec_names_distinct(self.names()) ==> (forall|j: int|
                    (i <= j < n && spec_can_trigger(
                        start,
                        self.provs_of(self.names()[j]),
                        self.names()[j],
                        None,
                    )) ==> spec_can_trigger(
                        self.states(),
                        self.provs_of(self.names()[j]),
                        self.names()[j],
                        None,
                    )),
                any_ran == (fired.len() > 0),
            decreases n - i,
        {
            let name = self.node_names[i].clone();
            let node_type = self.node_types[i].clone();
            let phase = self.phase;
            let mut outcome_opt: Option<RunOutcome> = None;
            match self.data.get_inputs_for(name.as_str(), None) {
                Some(inputs) => {
                    let input = Input { data: inputs.as_slice(), phase };
                    outcome_opt = Some(self.nodes[i].run(&input));
                },
                None => {},
            }
            match outcome_opt {
                Some(outcome) => {
                    proof {
                        assert(!self.states().contains_key(name@));
                        assert(!start.contains_key(name@));
                        assert(name@ == self.names()[i as int]);
                    }
                    any_ran = true;
                    match outcome {
                        RunOutcome::Settled(state) => {
                            if let Some(debug) = &mut self.debug {
                                debug.run(name.as_str(), node_type.as_str(), &state, RunMode::Run);
                            }
                            self.record_state(name.as_str(), state);
                            proof {
                                let ghost pre_fired = fired;
                                fired = fired.push(i as int);
                                assert(fired[fired.len() - 1] == i as int);
                                assert(fired.contains(i as int));
                                assert forall|q: int|
                                    pre_fired.contains(q) implies fired.contains(q) by {
                                    let w = choose|w: int|
                                        0 <= w < pre_fired.len() && pre_fired[w] == q;
                                    assert(fired[w] == q);
                                }
                            }
                        },
                        RunOutcome::Respond(effect) => {
                            self.effects.push(effect);
                            let state = State::Done(None);
                            if let Some(debug) = &mut self.debug {
                                debug.run(name.as_str(), node_type.as_str(), &state, RunMode::Run);
                            }
                            self.record_state(name.as_str(), state);
                            proof {
                                let ghost pre_fired = fired;
                                fired = fired.push(i as int);
                                assert(fired[fired.len() - 1] == i as int);
                                assert(fired.contains(i as int));
                                assert forall|q: int|
                                    pre_fired.contains(q) implies fired.contains(q) by {
                                    let w = choose|w: int|
                                        0 <= w < pre_fired.len() && pre_fired[w] == q;
                                    assert(fired[w] == q);
                                }
                            }
                        },
                        RunOutcome::Dispatch(request) => {
                            self.pending_dispatch = Some(i);
                            proof {
                                fired = fired.push(i as int);
                            }
                            return (true, Some(request), Ghost(fired));
                        },
                    }
                },
                None => {
                    proof {
                        if spec_names_distinct(self.names()) && spec_can_trigger(
                            start,
                            self.provs_of(self.names()[i as int]),
                            self.names()[i as int],
                            None,
                        ) {
                            assert(spec_can_trigger(
                                self.states(),
                                self.provs_of(self.names()[i as int]),
                                self.names()[i as int],
                                None,
                            ));
                            assert(false);
                        }
                    }
                },
            }
            i += 1;
        }
        (any_ran, None, Ghost(fired))
    }

    /// The scheduler loop: run passes until one fires nothing, or until a
    /// Call node needs a dispatch. Over the whole loop no node fires
    /// twice — every firing records a state, and a recorded state closes
    /// the tokenless readiness condition — each pass fires in declared
    /// order, and a return without a pending dispatch means no node is
    /// left ready without a resume token.
    pub fn run_nodes(&mut self) -> (r: (Option<DispatchRequest>, Ghost<Seq<Seq<int>>>))
        requires
            old(self).wf(),
            old(self).pending() is None,
        ensures
            final(self).wf(),
            DataKitFilter::cfg_eq(old(self), final(self)),
            forall|p: int| 0 <= p < r.1@.len() ==> spec_strictly_increasing(#[trigger] r.1@[p]),
            forall|p: int, k: int|
                0 <= p < r.1@.len() && 0 <= k < r.1@[p].len() ==> 0 <= #[trigger] r.1@[p][k]
                    < final(self).names().len(),
            spec_distinct(spec_flat(r.1@)),
            forall|m: Seq<char>|
                #[trigger] old(self).states().contains_key(m) ==> (final(self).states().contains_key(m) && final(self).states()[m] == old(self).states()[m]),
            r.0 is Some ==> final(self).pending() is Some,
            r.0 is None ==> final(self).pending() is None,
            r.0 is None ==> (forall|j: int|
                0 <= j < final(self).names().len() ==> !spec_can_trigger(
                    final(self).states(),
                    final(self).provs_of(final(self).names()[j]),
                    final(self).names()[j],
                    None,
                )),
            final(self).action_view() == old(self).action_view(),
            final(self).phase_view() == old(self).phase_view(),
            final(self).tracing() == old(self).tracing(),
            forall|m: Seq<char>| final(self).provs_of(m) == old(self).provs_of(m),
    {
        let ghost start_states = self.states();
        let ghost mut passes: Seq<Seq<int>> = Seq::empty();
        let n = self.node_names.len();
        loop
            invariant
                self.wf(),
                DataKitFilter::cfg_eq(old(self), self),
                n == self.names().len(),
                self.pending() is None,
                start_states == old(self).states(),
                self.action_view() == old(self).action_view(),
                self.phase_view() == old(self).phase_view(),
                self.tracing() == old(self).tracing(),
                forall|m: Seq<char>| self.provs_of(m) == old(self).provs_of(m),
                forall|p: int|
                    0 <= p < passes.len() ==> spec_strictly_increasing(#[trigger] passes[p]),
                forall|p: int, k: int|
                    0 <= p < passes.len() && 0 <= k < passes[p].len() ==> 0 <= #[trigger] passes[p][k] < n,
                spec_distinct(spec_flat(passes)),
                forall|k: int|
                    0 <= k < spec_flat(passes).len() ==> 0 <= #[trigger] spec_flat(passes)[k] < n,
                forall|k: int|
                    0 <= k < spec_flat(passes).len() ==> self.states().contains_key(
                        self.names()[#[trigger] spec_flat(passes)[k]],
                    ),
                forall|m: Seq<char>|
                    #[trigger] start_states.contains_key(m) ==> (self.states().contains_key(m)
                        && self.states()[m] == start_states[m]),
            decreases n - spec_flat(passes).len(),
        {
            proof {
                lemma_distinct_bounded(spec_flat(passes), n as int);
            }
            let ghost pre_states = self.states();
            let ghost pre_flat = spec_flat(passes);
            let (any_ran, pending, fired) = self.run_pass();
            proof {
                assert(passes.push(fired@).drop_last() =~= passes);
                assert(spec_flat(passes.push(fired@)) == pre_flat + fired@);
                assert forall|k1: int, k2: int|
                    0 <= k1 < k2 < (pre_flat + fired@).len() implies (pre_flat + fired@)[k1] != (
                pre_flat + fired@)[k2] by {
                    if k2 < pre_flat.len() {
                    } else if k1 >= pre_flat.len() {
                        assert(fired@[k1 - pre_flat.len()] != fired@[k2 - pre_flat.len()]);
                    } else {
                        let a = pre_flat[k1];
                        let b = fired@[k2 - pre_flat.len()];
                        assert(pre_states.contains_key(self.names()[a]));
                        assert(!pre_states.contains_key(self.names()[b]));
                    }
                }
                passes = passes.push(fired@);
            }
            match pending {
                Some(request) => {
                    return (Some(request), Ghost(passes));
                },
                None => {},
            }
            if !any_ran {
                return (None, Ghost(passes));
            }
            proof {
                assert(fired@.len() > 0);
                assert(spec_flat(passes).len() == pre_flat.len() + fired@.len());
                lemma_distinct_bounded(spec_flat(passes), n as int);
            }
        }
    }

    /// Hand over the host writes gathered so far.
    fn take_effects(&mut self) -> (r: Vec<Effect>)
        requires
            old(self).wf(),
        ensures
            final(self).wf(),
            DataKitFilter::cfg_eq(old(self), final(self)),
            final(self).states() == old(self).states(),
            final(self).pending() == old(self).pending(),
            final(self).action_view() == old(self).action_view(),
            final(self).phase_view() == old(self).phase_view(),
            final(self).tracing() == old(self).tracing(),
            forall|m: Seq<char>| final(self).provs_of(m) == old(self).provs_of(m),
            r.deep_view() == old(self).effects_view(),
            final(self).effects_view() == Seq::<crate::nodes::EffectV>::empty(),
    {
        let mut out: Vec<Effect> = Vec::new();
        core::mem::swap(&mut out, &mut self.effects);
        proof {
            lemma_names_unreserved_transfer(old(self), self);
            assert(final(self).effects_view() =~= Seq::<crate::nodes::EffectV>::empty());
        }
        out
    }

    /// Turn tracing on for this transaction when the debug header asks
    /// for it, and force production of the downstream response body.
    fn debug_init(&mut self, trace_header: &Option<String>)
        requires
            old(self).wf(),
        ensures
            final(self).wf(),
            DataKitFilter::cfg_eq(old(self), final(self)),
            final(self).states() == old(self).states(),
            final(self).pending() == old(self).pending(),
            final(self).action_view() == old(self).action_view(),
            final(self).phase_view() == old(self).phase_view(),
            forall|m: Seq<char>| final(self).provs_of(m) == old(self).provs_of(m),
            ({ let truthy = match *trace_header {
                Some(val) => val@ != "off"@ && val@ != "false"@ && val@ != "0"@,
                None => false,
            };
            {
                &&& final(self).flag_response_body() == (old(self).flag_response_body() || truthy)
                &&& (truthy && old(self).has_debug()) ==> final(self).tracing()
                &&& !truthy ==> final(self).tracing() == old(self).tracing()
                &&& final(self).flag_request_headers() == old(self).flag_request_headers()
                &&& final(self).flag_request_body() == old(self).flag_request_body()
                &&& final(self).flag_service_request_headers() == old(self).flag_service_request_headers()
                &&& final(self).flag_service_request_body() == old(self).flag_service_request_body()
                &&& final(self).flag_service_response_headers() == old(self).flag_service_response_headers()
                &&& final(self).flag_service_response_body() == old(self).flag_service_response_body()
                &&& final(self).flag_response_headers() == old(self).flag_response_headers()
            } }),
    {
        if header_to_bool(trace_header) {
            if let Some(debug) = &mut self.debug {
                debug.set_tracing(true);
            }
            self.do_response_body = true;
        }
        proof {
            lemma_names_unreserved_transfer(old(self), self);
        }
    }

    /// When tracing, the trace replaces the downstream body: announce it
    /// as JSON and clear the headers the replacement invalidates.
    fn debug_done_headers(&mut self)
        requires
            old(self).wf(),
        ensures
            final(self).wf(),
            DataKitFilter::cfg_eq(old(self), final(self)),
            final(self).states() == old(self).states(),
            final(self).pending() == old(self).pending(),
            final(self).action_view() == old(self).action_view(),
            final(self).phase_view() == old(self).phase_view(),
            final(self).tracing() == old(self).tracing(),
            forall|m: Seq<char>| final(self).provs_of(m) == old(self).provs_of(m),
            old(self).tracing() ==> final(self).effects_view() == old(self).effects_view()
                + seq![
                crate::nodes::EffectV::SetResponseHeader(
                    "Content-Type"@,
                    Some("application/json"@),
                ),
                crate::nodes::EffectV::SetResponseHeader("Content-Length"@, None),
                crate::nodes::EffectV::SetResponseHeader("Content-Encoding"@, None),
            ],
            !old(self).tracing() ==> final(self).effects_view() == old(self).effects_view(),
    {
        let ghost e0 = self.effects_view();
        let tracing = match &self.debug {
            Some(d) => d.is_tracing(),
            None => false,
        };
        if tracing {
            self.effects.push(Effect::SetResponseHeader(
                "Content-Type".to_owned(),
                Some("application/json".to_owned()),
            ));
            let ghost e1 = self.effects_view();
            self.effects.push(Effect::SetResponseHeader("Content-Length".to_owned(), None));
            let ghost e2 = self.effects_view();
            self.effects.push(Effect::SetResponseHeader("Content-Encoding".to_owned(), None));
            proof {
                assert(e1 =~~= e0.push(
                    crate::nodes::EffectV::SetResponseHeader(
                        "Content-Type"@,
                        Some("application/json"@),
                    ),
                ));
                assert(e2 =~~= e1.push(
                    crate::nodes::EffectV::SetResponseHeader("Content-Length"@, None),
                ));
                assert(self.effects_view() =~~= e2.push(
                    crate::nodes::EffectV::SetResponseHeader("Content-Encoding"@, None),
                ));
                assert(self.effects_view() =~~= e0 + seq![
                    crate::nodes::EffectV::SetResponseHeader(
                        "Content-Type"@,
                        Some("application/json"@),
                    ),
                    crate::nodes::EffectV::SetResponseHeader("Content-Length"@, None),
                    crate::nodes::EffectV::SetResponseHeader("Content-Encoding"@, None),
                ]);
            }
        }
        proof {
            lemma_names_unreserved_transfer(old(self), self);
        }
    }

    /// When tracing, substitute the rendered trace as the downstream
    /// response body.
    fn debug_done(&mut self)
        requires
            old(self).wf(),
        ensures
            final(self).wf(),
            DataKitFilter::cfg_eq(old(self), final(self)),
            final(self).states() == old(self).states(),
            final(self).pending() == old(self).pending(),
            final(self).action_view() == old(self).action_view(),
            final(self).phase_view() == old(self).phase_view(),
            final(self).tracing() == old(self).tracing(),
            forall|m: Seq<char>| final(self).provs_of(m) == old(self).provs_of(m),
            old(self).tracing() ==> (final(self).effects_view().len() == old(self).effects_view().len() + 1
                && final(self).effects_view().last() is SetResponseBody && final(self).effects_view().take(
                old(self).effects_view().len() as int,
            ) == old(self).effects_view()),
            !old(self).tracing() ==> final(self).effects_view() == old(self).effects_view(),
    {
        let trace: Option<String> = match &self.debug {
            Some(d) => if d.is_tracing() {
                Some(d.get_trace())
            } else {
                None
            },
            None => None,
        };
        if let Some(t) = trace {
            let ghost e0 = self.effects_view();
            let bytes = t.as_str().as_bytes_vec();
            self.effects.push(Effect::SetResponseBody(bytes));
            proof {
                assert(self.effects_view().take(e0.len() as int) =~~= e0);
                assert(self.effects_view().last() is SetResponseBody);
            }
        }
        proof {
            lemma_names_unreserved_transfer(old(self), self);
        }
    }

    /// After the scheduler quiesced, drain the implicit sinks the current
    /// phase owns into host writes, and finish the phase.
    fn finish_phase(&mut self) -> (r: PhaseVerdict)
        requires
            old(self).wf(),
        ensures
            final(self).wf(),
            DataKitFilter::cfg_eq(old(self), final(self)),
            final(self).pending() == old(self).pending(),
            r is Done,
            final(self).action_view() == old(self).action_view(),
            final(self).phase_view() == old(self).phase_view(),
            final(self).tracing() == old(self).tracing(),
            r matches PhaseVerdict::Done { action, .. } ==> action == old(self).action_view(),
            forall|m: Seq<char>|
                (#[trigger] old(self).states().contains_key(m) && m != "response_body"@) ==> (
                final(self).states().contains_key(m) && final(self).states()[m] == old(
                    self,
                ).states()[m]),
            !(old(self).phase_view() is HttpResponseBody) ==> (forall|m: Seq<char>|
                #[trigger] old(self).states().contains_key(m) ==> (final(self).states().contains_key(m) && final(self).states()[m] == old(self).states()[m])),
            forall|m: Seq<char>| final(self).provs_of(m) == old(self).provs_of(m),
            (old(self).phase_view() is HttpResponseHeaders && old(self).tracing()) ==> (r matches
            PhaseVerdict::Done { effects, .. } && effects.deep_view().len() >= 3
                && effects.deep_view()[effects.deep_view().len() - 3]
                == crate::nodes::EffectV::SetResponseHeader(
                "Content-Type"@,
                Some("application/json"@),
            ) && effects.deep_view()[effects.deep_view().len() - 2]
                == crate::nodes::EffectV::SetResponseHeader("Content-Length"@, None)
                && effects.deep_view()[effects.deep_view().len() - 1]
                == crate::nodes::EffectV::SetResponseHeader("Content-Encoding"@, None)),
            (old(self).phase_view() is HttpResponseBody && old(self).tracing()) ==> (r matches
            PhaseVerdict::Done { effects, .. } && effects.deep_view().len() >= 1
                && effects.deep_view().last() is SetResponseBody),
            !(old(self).phase_view() is HttpResponseBody) ==> final(self).states() == old(self).states(),
    {
        match self.phase {
            Phase::HttpRequestHeaders => {},
            Phase::HttpRequestBody => {
                if self.do_service_request_headers {
                    let hdrs = match self.data.first_input_for("service_request_headers", None) {
                        Some(p) => Some(to_pwm_headers(Some(p))),
                        None => None,
                    };
                    if let Some(h) = hdrs {
                        self.effects.push(Effect::SetRequestHeaders(h));
                    }
                }
                if self.do_service_request_body {
                    let bytes = match self.data.first_input_for("service_request_body", None) {
                        Some(p) => match p.to_bytes() {
                            Ok(b) => Some(b),
                            Err(_) => None,
                        },
                        None => None,
                    };
                    if let Some(b) = bytes {
                        self.effects.push(Effect::SetRequestBody(b));
                    }
                }
            },
            Phase::HttpResponseHeaders => {
                if self.do_response_headers {
                    let hdrs = match self.data.first_input_for("response_headers", None) {
                        Some(p) => Some(to_pwm_headers(Some(p))),
                        None => None,
                    };
                    if let Some(h) = hdrs {
                        self.effects.push(Effect::SetResponseHeaders(h));
                    }
                }
                if self.do_response_body {
                    let info = match self.data.first_input_for("response_body", None) {
                        Some(p) => {
                            let ct = match p.content_type() {
                                Some(c) => Some(c.to_owned()),
                                None => None,
                            };
                            Some((p.len(), ct))
                        },
                        None => None,
                    };
                    if let Some((len_opt, ct)) = info {
                        let clen = match len_opt {
                            Some(nv) => Some(usize_to_string(nv)),
                            None => None,
                        };
                        self.effects.push(Effect::SetResponseHeader(
                            "Content-Length".to_owned(),
                            clen,
                        ));
                        self.effects.push(Effect::SetResponseHeader(
                            "Content-Encoding".to_owned(),
                            None,
                        ));
                        self.effects.push(Effect::SetResponseHeader("Content-Type".to_owned(), ct));
                    }
                }
                proof {
                    lemma_names_unreserved_transfer(old(self), self);
                }
                self.debug_done_headers();
            },
            Phase::HttpResponseBody => {
                if self.do_response_body {
                    let bytes = match self.data.first_input_for("response_body", None) {
                        Some(p) => match p.to_bytes() {
                            Ok(b) => Some(b),
                            Err(_) => Some(Vec::new()),
                        },
                        None => None,
                    };
                    match bytes {
                        Some(b) => {
                            self.effects.push(Effect::SetResponseBody(b));
                        },
                        None => {
                            // tracing forced this sink on: record the host's own
                            // body so the trace shows what went downstream
                            let mut host_body: Option<Vec<u8>> = None;
                            core::mem::swap(&mut host_body, &mut self.host_response_body);
                            if let Some(hb) = host_body {
                                let ct: Option<String> = match &self.debug {
                                    Some(d) => match d.response_body_content_type() {
                                        Some(c) => Some(c.clone()),
                                        None => None,
                                    },
                                    None => None,
                                };
                                if self.debug.is_some() {
                                    let ctr = match &ct {
                                        Some(c) => Some(c.as_str()),
                                        None => None,
                                    };
                                    let payload = Payload::from_bytes(hb, ctr);
                                    proof {
                                        lemma_names_unreserved_transfer(old(self), self);
                                    }
                                    self.set_data("response_body", State::Done(payload));
                                }
                            }
                        },
                    }
                }
                proof {
                    lemma_names_unreserved_transfer(old(self), self);
                }
                self.debug_done();
            },
            Phase::HttpCallResponse => {},
        }
        proof {
            lemma_names_unreserved_transfer(old(self), self);
        }
        let action = self.phase_action;
        let effects = self.take_effects();
        PhaseVerdict::Done { action, effects }
    }

    /// Run the scheduler and either finish the phase or hand a pending
    /// dispatch to the host.
    fn continue_phase(&mut self) -> (r: PhaseVerdict)
        requires
            old(self).wf(),
            old(self).pending() is None,
        ensures
            final(self).wf(),
            DataKitFilter::cfg_eq(old(self), final(self)),
            r is Done ==> final(self).pending() is None,
            r is AwaitDispatch ==> final(self).pending() is Some,
            final(self).action_view() == old(self).action_view(),
            r matches PhaseVerdict::Done { action, .. } ==> action == old(self).action_view(),
            forall|m: Seq<char>|
                (#[trigger] old(self).states().contains_key(m) && m != "response_body"@) ==> (
                final(self).states().contains_key(m) && final(self).states()[m] == old(
                    self,
                ).states()[m]),
            !(old(self).phase_view() is HttpResponseBody) ==> (forall|m: Seq<char>|
                #[trigger] old(self).states().contains_key(m) ==> (final(self).states().contains_key(m) && final(self).states()[m] == old(self).states()[m])),
            forall|m: Seq<char>| final(self).provs_of(m) == old(self).provs_of(m),
            (old(self).phase_view() is HttpResponseHeaders && old(self).tracing()) ==> (r matches
            PhaseVerdict::Done { effects, .. } ==> (effects.deep_view().len() >= 3
                && effects.deep_view()[effects.deep_view().len() - 3]
                == crate::nodes::EffectV::SetResponseHeader(
                "Content-Type"@,
                Some("application/json"@),
            ) && effects.deep_view()[effects.deep_view().len() - 2]
                == crate::nodes::EffectV::SetResponseHeader("Content-Length"@, None)
                && effects.deep_view()[effects.deep_view().len() - 1]
                == crate::nodes::EffectV::SetResponseHeader("Content-Encoding"@, None))),
            (old(self).phase_view() is HttpResponseBody && old(self).tracing()) ==> (r matches
            PhaseVerdict::Done { effects, .. } ==> (effects.deep_view().len() >= 1
                && effects.deep_view().last() is SetResponseBody)),
            (!(old(self).phase_view() is HttpResponseBody) && r is Done) ==> (forall|j: int|
                0 <= j < final(self).names().len() ==> !spec_can_trigger(
                    final(self).states(),
                    final(self).provs_of(final(self).names()[j]),
                    final(self).names()[j],
                    None,
                )),
    {
        let result = self.run_nodes();
        match result.0 {
            Some(request) => {
                let effects = self.take_effects();
                PhaseVerdict::AwaitDispatch { request, effects }
            },
            None => self.finish_phase(),
        }
    }

    /// Request-headers phase: read the debug header, seed
    /// `request_headers` with the host's request headers when anything
    /// consumes them, and run the scheduler.
    pub fn on_http_request_headers(
        &mut self,
        headers: Vec<(String, String)>,
        trace_header: Option<String>,
    ) -> (r: PhaseVerdict)
        requires
            old(self).wf(),
            old(self).pending() is None,
        ensures
            final(self).wf(),
            DataKitFilter::cfg_eq(old(self), final(self)),
            r is Done ==> final(self).pending() is None,
            r is AwaitDispatch ==> final(self).pending() is Some,
            r matches PhaseVerdict::Done { action, .. } ==> action == Action::Continue,
            old(self).flag_request_headers() ==> (final(self).states().contains_key(
                "request_headers"@,
            ) && final(self).states()["request_headers"@] matches StateV::Done(
                Some(crate::payload::PayloadV::Json(_)),
            )),
            r is Done ==> (forall|j: int|
                0 <= j < final(self).names().len() ==> !spec_can_trigger(
                    final(self).states(),
                    final(self).provs_of(final(self).names()[j]),
                    final(self).names()[j],
                    None,
                )),
    {
        proof {
            lemma_seed_names_differ();
        }
        self.phase = Phase::HttpRequestHeaders;
        self.phase_action = Action::Continue;
        proof {
            lemma_names_unreserved_transfer(old(self), self);
        }
        if self.debug.is_some() {
            self.debug_init(&trace_header);
        }
        if self.do_request_headers {
            self.set_headers_data(&headers, "request_headers");
        }
        self.continue_phase()
    }

    /// Request-body phase: pause until the whole body arrived, then seed
    /// `request_body` under the request's content type, run the
    /// scheduler, and drain the upstream-request sinks.
    pub fn on_http_request_body(
        &mut self,
        body: Option<Vec<u8>>,
        content_type: Option<String>,
        eof: bool,
    ) -> (r: PhaseVerdict)
        requires
            old(self).wf(),
            old(self).pending() is None,
        ensures
            final(self).wf(),
            DataKitFilter::cfg_eq(old(self), final(self)),
            r is Done ==> final(self).pending() is None,
            r is AwaitDispatch ==> final(self).pending() is Some,
            !eof ==> (r matches PhaseVerdict::Done { action, effects } && action == Action::Pause
                && effects@.len() == 0 && final(self).states() == old(self).states()),
            r matches PhaseVerdict::Done { action, .. } ==> (eof ==> action == Action::Continue),
            (eof && r is Done) ==> (forall|j: int|
                0 <= j < final(self).names().len() ==> !spec_can_trigger(
                    final(self).states(),
                    final(self).provs_of(final(self).names()[j]),
                    final(self).names()[j],
                    None,
                )),
            (eof && old(self).flag_request_body()) ==> match (body, content_type) {
                (Some(b), ct_opt) => final(self).states().contains_key("request_body"@) && (match ct_opt {
                    None => final(self).states()["request_body"@] == StateV::Done(
                        None::<crate::payload::PayloadV>,
                    ),
                    Some(ct) => if ct@ == "application/json"@ {
                        (crate::json::json_wf(b@) ==> (final(self).states()["request_body"@]
                            matches StateV::Done(Some(crate::payload::PayloadV::Json(_))))) && (
                        !crate::json::json_wf(b@) ==> (final(self).states()["request_body"@]
                            matches StateV::Done(Some(crate::payload::PayloadV::Error(_)))))
                    } else {
                        final(self).states()["request_body"@] == StateV::Done(
                            Some(crate::payload::PayloadV::Raw(b@)),
                        )
                    },
                }),
                (None, _) => true,
            },
    {
        proof {
            lemma_seed_names_differ();
        }
        self.phase = Phase::HttpRequestBody;
        self.phase_action = Action::Continue;
        proof {
            lemma_names_unreserved_transfer(old(self), self);
        }
        if !eof {
            proof {
                lemma_names_unreserved_transfer(old(self), self);
            }
            return PhaseVerdict::Done { action: Action::Pause, effects: Vec::new() };
        }
        if self.do_request_body {
            if let Some(bytes) = body {
                let ct = match &content_type {
                    Some(s) => Some(s.as_str()),
                    None => None,
                };
                let body_payload = Payload::from_bytes(bytes, ct);
                let seeded = State::Done(body_payload);
                let ghost seeded_view = seeded@;
                self.set_data("request_body", seeded);
                proof {
                    assert(self.states().contains_key("request_body"@));
                    assert(self.states()["request_body"@] == seeded_view);
                }
            }
        }
        self.continue_phase()
    }

    /// Response-headers phase: seed `service_response_headers` with the
    /// upstream response headers, run the scheduler, and drain the
    /// downstream-response header sinks.
    pub fn on_http_response_headers(
        &mut self,
        headers: Option<Vec<(String, String)>>,
        response_content_type: Option<String>,
    ) -> (r: PhaseVerdict)
        requires
            old(self).wf(),
            old(self).pending() is None,
        ensures
            final(self).wf(),
            DataKitFilter::cfg_eq(old(self), final(self)),
            r is Done ==> final(self).pending() is None,
            r is AwaitDispatch ==> final(self).pending() is Some,
            r matches PhaseVerdict::Done { action, .. } ==> action == Action::Continue,
            (old(self).flag_service_response_headers() && headers is Some) ==> (final(self).states().contains_key("service_response_headers"@) && final(self).states()["service_response_headers"@] matches StateV::Done(
                Some(crate::payload::PayloadV::Json(_)),
            )),
            r is Done ==> (forall|j: int|
                0 <= j < final(self).names().len() ==> !spec_can_trigger(
                    final(self).states(),
                    final(self).provs_of(final(self).names()[j]),
                    final(self).names()[j],
                    None,
                )),
            old(self).tracing() ==> (r matches PhaseVerdict::Done { effects, .. } ==> (
            effects.deep_view().len() >= 3 && effects.deep_view()[effects.deep_view().len() - 3]
                == crate::nodes::EffectV::SetResponseHeader(
                "Content-Type"@,
                Some("application/json"@),
            ) && effects.deep_view()[effects.deep_view().len() - 2]
                == crate::nodes::EffectV::SetResponseHeader("Content-Length"@, None)
                && effects.deep_view()[effects.deep_view().len() - 1]
                == crate::nodes::EffectV::SetResponseHeader("Content-Encoding"@, None))),
    {
        proof {
            lemma_seed_names_differ();
        }
        self.phase = Phase::HttpResponseHeaders;
        self.phase_action = Action::Continue;
        proof {
            lemma_names_unreserved_transfer(old(self), self);
        }
        if self.do_service_response_headers {
            if let Some(h) = &headers {
                self.set_headers_data(h, "service_response_headers");
            }
        }
        let tracing = match &self.debug {
            Some(d) => d.is_tracing(),
            None => false,
        };
        if tracing {
            if let Some(debug) = &mut self.debug {
                debug.save_response_body_content_type(response_content_type);
            }
        }
        proof {
            lemma_names_unreserved_transfer(old(self), self);
            if old(self).flag_service_response_headers() && headers is Some {
                assert(self.states().contains_key("service_response_headers"@));
            }
        }
        self.continue_phase()
    }

    /// Response-body phase: pause until the whole body arrived, then seed
    /// `service_response_body` under the response's content type, run the
    /// scheduler, and drain the downstream response body.
    pub fn on_http_response_body(
        &mut self,
        body: Option<Vec<u8>>,
        content_type: Option<String>,
        eof: bool,
    ) -> (r: PhaseVerdict)
        requires
            old(self).wf(),
            old(self).pending() is None,
        ensures
            final(self).wf(),
            DataKitFilter::cfg_eq(old(self), final(self)),
            r is Done ==> final(self).pending() is None,
            r is AwaitDispatch ==> final(self).pending() is Some,
            !eof ==> (r matches PhaseVerdict::Done { action, effects } && action == Action::Pause
                && effects@.len() == 0 && final(self).states() == old(self).states()),
            r matches PhaseVerdict::Done { action, .. } ==> (eof ==> action == Action::Continue),
            (eof && old(self).tracing()) ==> (r matches PhaseVerdict::Done { effects, .. } ==> (
            effects.deep_view().len() >= 1 && effects.deep_view().last() is SetResponseBody)),
            (eof && old(self).flag_service_response_body()) ==> match (body, content_type) {
                (Some(b), ct_opt) => final(self).states().contains_key("service_response_body"@)
                    && (match ct_opt {
                    None => final(self).states()["service_response_body"@] == StateV::Done(
                        None::<crate::payload::PayloadV>,
                    ),
                    Some(ct) => if ct@ == "application/json"@ {
                        (crate::json::json_wf(b@) ==> (final(self).states()[
                            "service_response_body"@] matches StateV::Done(
                            Some(crate::payload::PayloadV::Json(_)),
                        ))) && (!crate::json::json_wf(b@) ==> (final(self).states()[
                            "service_response_body"@] matches StateV::Done(
                            Some(crate::payload::PayloadV::Error(_)),
                        )))
                    } else {
                        final(self).states()["service_response_body"@] == StateV::Done(
                            Some(crate::payload::PayloadV::Raw(b@)),
                        )
                    },
                }),
                (None, _) => true,
            },
    {
        proof {
            lemma_seed_names_differ();
        }
        self.phase = Phase::HttpResponseBody;
        self.phase_action = Action::Continue;
        proof {
            lemma_names_unreserved_transfer(old(self), self);
        }
        if !eof {
            proof {
                lemma_names_unreserved_transfer(old(self), self);
            }
            return PhaseVerdict::Done { action: Action::Pause, effects: Vec::new() };
        }
        if self.debug.is_some() {
            self.host_response_body = match &body {
                Some(b) => Some(b.clone()),
                None => None,
            };
        }
        proof {
            lemma_names_unreserved_transfer(old(self), self);
        }
        if self.do_service_response_body {
            if let Some(bytes) = body {
                let ct = match &content_type {
                    Some(s) => Some(s.as_str()),
                    None => None,
                };
                let payload = Payload::from_bytes(bytes, ct);
                let seeded = State::Done(payload);
                let ghost seeded_view = seeded@;
                self.set_data("service_response_body", seeded);
                proof {
                    assert(self.states().contains_key("service_response_body"@));
                    assert(self.states()["service_response_body"@] == seeded_view);
                }
            }
        }
        self.continue_phase()
    }

    /// The host's answer to the dispatch the scheduler paused on: a token
    /// suspends the Call node on it (the phase will return `Pause`); a
    /// dispatch error fails the node. The scheduler then resumes the
    /// interrupted phase.
    pub fn dispatch_result(&mut self, result: Result<u32, String>) -> (r: PhaseVerdict)
        requires
            old(self).wf(),
        ensures
            final(self).wf(),
            DataKitFilter::cfg_eq(old(self), final(self)),
            r is Done ==> final(self).pending() is None,
            r is AwaitDispatch ==> final(self).pending() is Some,
            r matches PhaseVerdict::Done { action, .. } ==> action == final(self).action_view(),
            (!(old(self).phase_view() is HttpResponseBody) && old(self).pending() is Some && r
                is Done) ==> (forall|j: int|
                0 <= j < final(self).names().len() ==> !spec_can_trigger(
                    final(self).states(),
                    final(self).provs_of(final(self).names()[j]),
                    final(self).names()[j],
                    None,
                )),
            match (old(self).pending(), result) {
                (Some(i), Ok(t)) => (i as int) < old(self).names().len() ==> (final(self).states().contains_key(
                    old(self).names()[i as int],
                ) && final(self).states()[old(self).names()[i as int]] == StateV::Waiting(t)
                    && final(self).action_view() == Action::Pause),
                (Some(i), Err(_)) => (i as int) < old(self).names().len() ==> (final(self).states().contains_key(
                    old(self).names()[i as int],
                ) && final(self).states()[old(self).names()[i as int]] is Fail),
                (None, _) => final(self).states() == old(self).states(),
            },
    {
        let idx = match self.pending_dispatch {
            Some(i) => i,
            None => {
                let action = self.phase_action;
                let effects = self.take_effects();
                return PhaseVerdict::Done { action, effects };
            },
        };
        self.pending_dispatch = None;
        proof {
            lemma_names_unreserved_transfer(old(self), self);
        }
        if idx < self.node_names.len() {
            let name = self.node_names[idx].clone();
            let node_type = self.node_types[idx].clone();
            let state = match result {
                Ok(token) => {
                    self.phase_action = Action::Pause;
                    State::Waiting(token)
                },
                Err(e) => {
                    let mut msg = String::new();
                    msg.append("error: ");
                    msg.append(e.as_str());
                    State::Fail(Some(Payload::Error(msg)))
                },
            };
            let ghost state_view = state@;
            proof {
                lemma_names_unreserved_transfer(old(self), self);
            }
            if let Some(debug) = &mut self.debug {
                debug.run(name.as_str(), node_type.as_str(), &state, RunMode::Run);
            }
            self.record_state(name.as_str(), state);
            proof {
                assert(name@ == old(self).names()[idx as int]);
                assert(self.states().contains_key(name@));
                assert(self.states()[name@] == state_view);
            }
        }
        self.continue_phase()
    }

    /// A subrequest finished: deliver its body to the unique node whose
    /// readiness the token restores (an unknown token is ignored so the
    /// transaction cannot hang), and run the scheduler once more. The
    /// host's request is resumed by the caller in every case.
    pub fn on_http_call_response(
        &mut self,
        token: u32,
        body: Option<Vec<u8>>,
        content_type: Option<String>,
    ) -> (r: PhaseVerdict)
        requires
            old(self).wf(),
            old(self).pending() is None,
        ensures
            final(self).wf(),
            DataKitFilter::cfg_eq(old(self), final(self)),
            r is Done ==> final(self).pending() is None,
            r is AwaitDispatch ==> final(self).pending() is Some,
            r matches PhaseVerdict::Done { action, .. } ==> action == Action::Continue,
            r is Done ==> (forall|j: int|
                0 <= j < final(self).names().len() ==> !spec_can_trigger(
                    final(self).states(),
                    final(self).provs_of(final(self).names()[j]),
                    final(self).names()[j],
                    None,
                )),
            forall|k: Seq<char>|
                (#[trigger] old(self).states().contains_key(k) && old(self).states()[k]
                    is Waiting) ==> (final(self).states().contains_key(k)
                    && (final(self).states()[k] == old(self).states()[k] || ((final(self).states()[k] is Done || final(self).states()[k] is Fail) && (exists|i: int|
                    0 <= i < old(self).names().len() && old(self).names()[i] == k
                        && spec_can_trigger(
                        old(self).states(),
                        old(self).provs_of(k),
                        k,
                        Some(token),
                    ) && (forall|j: int|
                        0 <= j < i ==> !spec_can_trigger(
                            old(self).states(),
                            old(self).provs_of(old(self).names()[j]),
                            old(self).names()[j],
                            Some(token),
                        )))))),
            forall|i: int|
                (0 <= i < old(self).names().len() && spec_can_trigger(
                    old(self).states(),
                    old(self).provs_of(old(self).names()[i]),
                    old(self).names()[i],
                    Some(token),
                ) && (forall|j: int|
                    0 <= j < i ==> !spec_can_trigger(
                        old(self).states(),
                        old(self).provs_of(old(self).names()[j]),
                        old(self).names()[j],
                        Some(token),
                    ))) ==> (final(self).states().contains_key(#[trigger] old(self).names()[i])
                    && (final(self).states()[old(self).names()[i]] is Done || final(self).states()[
                    old(self).names()[i]] is Fail) && (match (body, content_type) {
                    (Some(b), Some(ct)) => if ct@ == "application/json"@ {
                        (crate::json::json_wf(b@) ==> ((final(self).states()[old(self).names()[i]]
                            matches StateV::Done(Some(crate::payload::PayloadV::Json(_))))
                            || final(self).states()[old(self).names()[i]] == StateV::Done(
                            None::<crate::payload::PayloadV>,
                        ))) && (!crate::json::json_wf(b@) ==> ((final(self).states()[old(
                            self,
                        ).names()[i]] matches StateV::Done(Some(
                            crate::payload::PayloadV::Error(_),
                        ))) || final(self).states()[old(self).names()[i]] == StateV::Done(
                            None::<crate::payload::PayloadV>,
                        )))
                    } else {
                        final(self).states()[old(self).names()[i]] == StateV::Done(
                            Some(crate::payload::PayloadV::Raw(b@)),
                        ) || final(self).states()[old(self).names()[i]] == StateV::Done(
                            None::<crate::payload::PayloadV>,
                        )
                    },
                    _ => final(self).states()[old(self).names()[i]] == StateV::Done(
                        None::<crate::payload::PayloadV>,
                    ),
                })),
    {
        self.phase = Phase::HttpCallResponse;
        self.phase_action = Action::Continue;
        proof {
            lemma_names_unreserved_transfer(old(self), self);
        }
        let n = self.node_names.len();
        let mut found: Option<usize> = None;
        let mut i: usize = 0;
        while i < n
            invariant
                self.wf(),
                n == self.node_names@.len(),
                0 <= i <= n,
                DataKitFilter::cfg_eq(old(self), self),
                self.pending() is None,
                self.states() == old(self).states(),
                self.action_view() == Action::Continue,
                forall|m: Seq<char>| self.provs_of(m) == old(self).provs_of(m),
                match found {
                    None => forall|j: int|
                        0 <= j < i ==> !spec_can_trigger(
                            self.states(),
                            self.provs_of(self.names()[j]),
                            self.names()[j],
                            Some(token),
                        ),
                    Some(f) => f < i && spec_can_trigger(
                        self.states(),
                        self.provs_of(self.names()[f as int]),
                        self.names()[f as int],
                        Some(token),
                    ) && (forall|j: int|
                        0 <= j < f ==> !spec_can_trigger(
                            self.states(),
                            self.provs_of(self.names()[j]),
                            self.names()[j],
                            Some(token),
                        )),
                },
            decreases n - i,
        {
            if found.is_none() {
                let name = self.node_names[i].clone();
                let open = self.data.get_inputs_for(name.as_str(), Some(token)).is_some();
                if open {
                    found = Some(i);
                }
            }
            i += 1;
        }
        if let Some(idx) = found {
            let name = self.node_names[idx].clone();
            let node_type = self.node_types[idx].clone();
            let ct = match &content_type {
                Some(s) => Some(s.as_str()),
                None => None,
            };
            let state = self.nodes[idx].resume(body, ct);
            let ghost state_view = state@;
            if let Some(debug) = &mut self.debug {
                debug.run(name.as_str(), node_type.as_str(), &state, RunMode::Resume);
            }
            self.record_state(name.as_str(), state);
            proof {
                assert(name@ == old(self).names()[idx as int]);
                assert(self.states().contains_key(name@));
                assert(self.states()[name@] == state_view);
                assert(state_view is Done || state_view is Fail);
                assert forall|m: Seq<char>|
                    #[trigger] old(self).states().contains_key(m) && m != name@ implies (
                self.states().contains_key(m) && self.states()[m] == old(self).states()[m]) by {}
            }
        }
        self.continue_phase()
    }
}

} // verus!

//! The compiled configuration: the user's node list checked against the
//! reserved names, the dependency graph built from declared inputs and
//! outputs (with type defaults applied), and the per-node configurations,
//! shared read-only by every transaction.

use vstd::prelude::*;
use vstd::string::StringExecFns;

use std::rc::Rc;

use crate::dependency_graph::{spec_add_to, DependencyGraph};
use crate::nodes::{default_outputs_for, new_config, new_node, NodeConfigKind, NodeKind};
use crate::strutil::str_eq;

verus! {

/// One node as the operator declared it: its type tag, unique name,
/// ordered inputs and outputs, and the type-specific parameter bag.
pub struct UserNodeConfig {
    pub node_type: String,
    pub name: String,
    pub params: Vec<(String, serde_json::Value)>,
    pub inputs: Vec<String>,
    pub outputs: Vec<String>,
}

/// The whole declared configuration.
pub struct UserConfig {
    pub nodes: Vec<UserNodeConfig>,
    pub debug: bool,
}

/// The eight implicit node names, reserved for the filter itself.
pub open spec fn spec_is_reserved(s: Seq<char>) -> bool {
    ||| s == "request_headers"@
    ||| s == "request_body"@
    ||| s == "service_request_headers"@
    ||| s == "service_request_body"@
    ||| s == "service_response_headers"@
    ||| s == "service_response_body"@
    ||| s == "response_headers"@
    ||| s == "response_body"@
}

/// Whether a user node may not take this name.
pub fn is_reserved_name(name: &str) -> (r: bool)
    ensures
        r == spec_is_reserved(name@),
{
    str_eq(name, "request_headers") || str_eq(name, "request_body") || str_eq(
        name,
        "service_request_headers",
    ) || str_eq(name, "service_request_body") || str_eq(name, "service_response_headers")
        || str_eq(name, "service_response_body") || str_eq(name, "response_headers") || str_eq(
        name,
        "response_body",
    )
}

/// One node's input edges folded into the two indexes, in declared
/// order: `add(input, name)` for each input.
pub open spec fn spec_add_input_edges(
    deps: Map<Seq<char>, Seq<Seq<char>>>,
    provs: Map<Seq<char>, Seq<Seq<char>>>,
    name: Seq<char>,
    inputs: Seq<Seq<char>>,
) -> (Map<Seq<char>, Seq<Seq<char>>>, Map<Seq<char>, Seq<Seq<char>>>)
    decreases inputs.len(),
{
    if inputs.len() == 0 {
        (deps, provs)
    } else {
        let g = spec_add_input_edges(deps, provs, name, inputs.drop_last());
        (spec_add_to(g.0, inputs.last(), name), spec_add_to(g.1, name, inputs.last()))
    }
}

/// One node's output edges folded in, in declared order: `add(name,
/// output)` for each output.
pub open spec fn spec_add_output_edges(
    deps: Map<Seq<char>, Seq<Seq<char>>>,
    provs: Map<Seq<char>, Seq<Seq<char>>>,
    name: Seq<char>,
    outputs: Seq<Seq<char>>,
) -> (Map<Seq<char>, Seq<Seq<char>>>, Map<Seq<char>, Seq<Seq<char>>>)
    decreases outputs.len(),
{
    if outputs.len() == 0 {
        (deps, provs)
    } else {
        let g = spec_add_output_edges(deps, provs, name, outputs.drop_last());
        (spec_add_to(g.0, name, outputs.last()), spec_add_to(g.1, outputs.last(), name))
    }
}

/// The outputs a node contributes to the graph: the declared ones, or the
/// type's default where none are declared.
pub open spec fn spec_effective_outputs(node_type: Seq<char>, outputs: Seq<Seq<char>>) -> Seq<
    Seq<char>,
> {
    if outputs.len() == 0 && node_type == "response"@ {
        seq!["response_body"@]
    } else {
        outputs
    }
}

/// The dependency graph a declared node list compiles to: node by node in
/// config order, each node's inputs then its effective outputs, each edge
/// through `spec_add_to` on both indexes.
pub open spec fn spec_config_graph(nodes: Seq<UserNodeConfig>) -> (
    Map<Seq<char>, Seq<Seq<char>>>,
    Map<Seq<char>, Seq<Seq<char>>>,
)
    decreases nodes.len(),
{
    if nodes.len() == 0 {
        (Map::empty(), Map::empty())
    } else {
        let g = spec_config_graph(nodes.drop_last());
        let n = nodes.last();
        let gi = spec_add_input_edges(g.0, g.1, n.name@, n.inputs.deep_view());
        spec_add_output_edges(
            gi.0,
            gi.1,
            n.name@,
            spec_effective_outputs(n.node_type@, n.outputs.deep_view()),
        )
    }
}

struct NodeInfo {
    name: String,
    node_type: String,
    config: NodeConfigKind,
}

pub struct Config {
    node_list: Vec<NodeInfo>,
    node_names: Vec<String>,
    graph: Rc<DependencyGraph>,
    debug: bool,
}

impl Config {
    /// The node names, in the order the configuration declared them.
    pub closed spec fn names(&self) -> Seq<Seq<char>> {
        self.node_names.deep_view()
    }

    pub closed spec fn wf(&self) -> bool {
        &&& self.graph.wf()
        &&& self.node_list@.len() == self.node_names@.len()
    }

    /// The providers index of the compiled graph.
    pub closed spec fn graph_provs(&self) -> Map<Seq<char>, Seq<Seq<char>>> {
        (*self.graph).provs()
    }

    /// The dependents index of the compiled graph.
    pub closed spec fn graph_deps(&self) -> Map<Seq<char>, Seq<Seq<char>>> {
        (*self.graph).deps()
    }

    /// The node type tags, aligned with the declared node order.
    pub closed spec fn type_tags(&self) -> Seq<Seq<char>> {
        Seq::new(self.node_list@.len(), |i: int| self.node_list@[i].node_type@)
    }

    /// The compiled per-node configurations, in declared order.
    pub closed spec fn config_kinds(&self) -> Seq<NodeConfigKind> {
        Seq::new(self.node_list@.len(), |i: int| self.node_list@[i].config)
    }

    /// No declared node bears a reserved name.
    pub open spec fn no_reserved_names(&self) -> bool {
        forall|i: int| 0 <= i < self.names().len() ==> !spec_is_reserved(#[trigger] self.names()[i])
    }

    /// Compile a declared configuration: reject reserved node names, apply
    /// each type's default outputs, build the dependency graph from every
    /// declared input and output, and build each node's configuration.
    pub fn new(user_config: UserConfig) -> (r: Result<Config, String>)
        ensures
            r matches Ok(c) ==> {
                &&& c.wf()
                &&& c.no_reserved_names()
                &&& c.names().len() == user_config.nodes.deep_view_names().len()
                &&& forall|i: int|
                    0 <= i < c.names().len() ==> c.names()[i]
                        == user_config.nodes.deep_view_names()[i]
                &&& c.graph_deps() == spec_config_graph(user_config.nodes@).0
                &&& c.graph_provs() == spec_config_graph(user_config.nodes@).1
            },
            r matches Err(e) ==> ((exists|i: int|
                0 <= i < user_config.nodes@.len() && spec_is_reserved(
                    #[trigger] user_config.nodes.deep_view_names()[i],
                ) && e@ == "cannot use reserved node name '"@
                    + user_config.nodes.deep_view_names()[i] + "'"@) || (exists|i: int|
                0 <= i < user_config.nodes@.len() && (#[trigger] user_config.nodes.deep_view_types()[i]) != "template"@ && user_config.nodes.deep_view_types()[i] != "call"@
                    && user_config.nodes.deep_view_types()[i] != "response"@
                    && user_config.nodes.deep_view_types()[i] != "jq"@ && e@
                    == "no such node type: "@ + user_config.nodes.deep_view_types()[i]) || e@
                == "no filter specified"@),
            ((forall|i: int|
                0 <= i < user_config.nodes@.len() ==> !spec_is_reserved(
                    #[trigger] user_config.nodes.deep_view_names()[i],
                )) && (exists|i: int|
                0 <= i < user_config.nodes@.len() && (#[trigger] user_config.nodes.deep_view_types()[i]) != "template"@ && user_config.nodes.deep_view_types()[i] != "call"@
                    && user_config.nodes.deep_view_types()[i] != "response"@
                    && user_config.nodes.deep_view_types()[i] != "jq"@)) ==> r is Err,
            ((forall|i: int|
                0 <= i < user_config.nodes@.len() ==> !spec_is_reserved(
                    #[trigger] user_config.nodes.deep_view_names()[i],
                )) && (exists|i: int|
                0 <= i < user_config.nodes@.len() && (#[trigger] user_config.nodes.deep_view_types()[i]) == "jq"@ && (forall|p: int|
                    0 <= p < user_config.nodes@[i].params@.len()
                        ==> (#[trigger] user_config.nodes@[i].params@[p]).0@ != "filter"@)))
                ==> r is Err,
            (exists|i: int|
                0 <= i < user_config.nodes@.len() && spec_is_reserved(
                    user_config.nodes.deep_view_names()[i],
                )) ==> (r matches Err(e) && (exists|i: int|
                0 <= i < user_config.nodes@.len() && spec_is_reserved(
                    #[trigger] user_config.nodes.deep_view_names()[i],
                ) && (forall|j: int|
                    0 <= j < i ==> !spec_is_reserved(user_config.nodes.deep_view_names()[j]))
                    && e@ == "cannot use reserved node name '"@
                    + user_config.nodes.deep_view_names()[i] + "'"@)),
            (forall|i: int|
                0 <= i < user_config.nodes@.len() ==> (!spec_is_reserved(
                    #[trigger] user_config.nodes.deep_view_names()[i],
                ) && (user_config.nodes.deep_view_types()[i] == "template"@
                    || user_config.nodes.deep_view_types()[i] == "call"@
                    || user_config.nodes.deep_view_types()[i] == "response"@))) ==> r is Ok,
    {
        let ghost given = user_config.nodes;
        let UserConfig { nodes, debug } = user_config;
        proof {
            assert(nodes == given);
        }
        let mut node_names: Vec<String> = Vec::new();
        let mut graph = DependencyGraph::new();

        let mut i: usize = 0;
        while i < nodes.len()
            invariant
                0 <= i <= nodes@.len(),
                graph.wf(),
                node_names@.len() == i,
                nodes == given,
                given == user_config.nodes,
                forall|j: int|
                    0 <= j < i ==> node_names.deep_view()[j] == nodes.deep_view_names()[j],
                forall|j: int|
                    0 <= j < i ==> !spec_is_reserved(#[trigger] nodes.deep_view_names()[j]),
                graph.deps() == spec_config_graph(nodes@.take(i as int)).0,
                graph.provs() == spec_config_graph(nodes@.take(i as int)).1,
            decreases nodes@.len() - i,
        {
            let unc = &nodes[i];
            if is_reserved_name(unc.name.as_str()) {
                proof {
                    assert(given.deep_view_names()[i as int] == nodes@[i as int].name@);
                }
                let mut msg = String::new();
                msg.append("cannot use reserved node name '");
                msg.append(unc.name.as_str());
                msg.append("'");
                proof {
                    assert(msg@ =~= "cannot use reserved node name '"@ + given.deep_view_names()[
                        i as int] + "'"@);
                }
                return Err(msg);
            }
            node_names.push(unc.name.clone());
            let ghost base = spec_config_graph(nodes@.take(i as int));
            let mut k: usize = 0;
            while k < nodes[i].inputs.len()
                invariant
                    graph.wf(),
                    nodes == given,
                    0 <= i < nodes@.len(),
                    0 <= k <= nodes@[i as int].inputs@.len(),
                    base == spec_config_graph(nodes@.take(i as int)),
                    graph.deps() == spec_add_input_edges(
                        base.0,
                        base.1,
                        nodes@[i as int].name@,
                        nodes@[i as int].inputs.deep_view().take(k as int),
                    ).0,
                    graph.provs() == spec_add_input_edges(
                        base.0,
                        base.1,
                        nodes@[i as int].name@,
                        nodes@[i as int].inputs.deep_view().take(k as int),
                    ).1,
                decreases nodes@[i as int].inputs@.len() - k,
            {
                graph.add(nodes[i].inputs[k].as_str(), nodes[i].name.as_str());
                proof {
                    let iv = nodes@[i as int].inputs.deep_view();
                    assert(iv.take(k + 1).drop_last() =~= iv.take(k as int));
                    assert(iv.take(k + 1).last() == iv[k as int]);
                }
                k += 1;
            }
            proof {
                assert(nodes@[i as int].inputs.deep_view().take(
                    nodes@[i as int].inputs.deep_view().len() as int,
                ) =~= nodes@[i as int].inputs.deep_view());
            }
            let ghost mid = spec_add_input_edges(
                base.0,
                base.1,
                nodes@[i as int].name@,
                nodes@[i as int].inputs.deep_view(),
            );
            if nodes[i].outputs.len() == 0 {
                if let Some(defaults) = default_outputs_for(nodes[i].node_type.as_str()) {
                    let mut d: usize = 0;
                    while d < defaults.len()
                        invariant
                            graph.wf(),
                            nodes == given,
                            0 <= i < nodes@.len(),
                            0 <= d <= defaults@.len(),
                            defaults.deep_view() == seq!["response_body"@],
                            mid == spec_add_input_edges(
                                base.0,
                                base.1,
                                nodes@[i as int].name@,
                                nodes@[i as int].inputs.deep_view(),
                            ),
                            graph.deps() == spec_add_output_edges(
                                mid.0,
                                mid.1,
                                nodes@[i as int].name@,
                                defaults.deep_view().take(d as int),
                            ).0,
                            graph.provs() == spec_add_output_edges(
                                mid.0,
                                mid.1,
                                nodes@[i as int].name@,
                                defaults.deep_view().take(d as int),
                            ).1,
                        decreases defaults@.len() - d,
                    {
                        graph.add(nodes[i].name.as_str(), defaults[d].as_str());
                        proof {
                            let dv = defaults.deep_view();
                            assert(dv.take(d + 1).drop_last() =~= dv.take(d as int));
                            assert(dv.take(d + 1).last() == dv[d as int]);
                        }
                        d += 1;
                    }
                    proof {
                        assert(defaults.deep_view().take(defaults.deep_view().len() as int)
                            =~= defaults.deep_view());
                        assert(spec_effective_outputs(
                            nodes@[i as int].node_type@,
                            nodes@[i as int].outputs.deep_view(),
                        ) == defaults.deep_view());
                    }
                } else {
                    proof {
                        assert(nodes@[i as int].outputs.deep_view()
                            =~= Seq::<Seq<char>>::empty());
                        assert(spec_effective_outputs(
                            nodes@[i as int].node_type@,
                            nodes@[i as int].outputs.deep_view(),
                        ) =~= Seq::<Seq<char>>::empty());
                    }
                }
            } else {
                let mut o: usize = 0;
                while o < nodes[i].outputs.len()
                    invariant
                        graph.wf(),
                        nodes == given,
                        0 <= i < nodes@.len(),
                        0 <= o <= nodes@[i as int].outputs@.len(),
                        mid == spec_add_input_edges(
                            base.0,
                            base.1,
                            nodes@[i as int].name@,
                            nodes@[i as int].inputs.deep_view(),
                        ),
                        graph.deps() == spec_add_output_edges(
                            mid.0,
                            mid.1,
                            nodes@[i as int].name@,
                            nodes@[i as int].outputs.deep_view().take(o as int),
                        ).0,
                        graph.provs() == spec_add_output_edges(
                            mid.0,
                            mid.1,
                            nodes@[i as int].name@,
                            nodes@[i as int].outputs.deep_view().take(o as int),
                        ).1,
                    decreases nodes@[i as int].outputs@.len() - o,
                {
                    graph.add(nodes[i].name.as_str(), nodes[i].outputs[o].as_str());
                    proof {
                        let ov = nodes@[i as int].outputs.deep_view();
                        assert(ov.take(o + 1).drop_last() =~= ov.take(o as int));
                        assert(ov.take(o + 1).last() == ov[o as int]);
                    }
                    o += 1;
                }
                proof {
                    assert(nodes@[i as int].outputs.deep_view().take(
                        nodes@[i as int].outputs.deep_view().len() as int,
                    ) =~= nodes@[i as int].outputs.deep_view());
                    assert(spec_effective_outputs(
                        nodes@[i as int].node_type@,
                        nodes@[i as int].outputs.deep_view(),
                    ) == nodes@[i as int].outputs.deep_view());
                }
            }
            proof {
                assert(node_names.deep_view()[i as int] == nodes.deep_view_names()[i as int]);
                assert(nodes@.take(i + 1).drop_last() =~= nodes@.take(i as int));
                assert(nodes@.take(i + 1).last() == nodes@[i as int]);
                assert(graph.deps() == spec_config_graph(nodes@.take(i + 1)).0);
                assert(graph.provs() == spec_config_graph(nodes@.take(i + 1)).1);
            }
            i += 1;
        }

        proof {
            assert(nodes@.take(nodes@.len() as int) =~= nodes@);
        }
        let mut node_list: Vec<NodeInfo> = Vec::new();
        let mut n: usize = 0;
        while n < nodes.len()
            invariant
                0 <= n <= nodes@.len(),
                nodes == given,
                given == user_config.nodes,
                graph.wf(),
                node_list@.len() == n,
                forall|j: int|
                    0 <= j < nodes@.len() ==> !spec_is_reserved(
                        #[trigger] nodes.deep_view_names()[j],
                    ),
                graph.deps() == spec_config_graph(nodes@).0,
                graph.provs() == spec_config_graph(nodes@).1,
                forall|j: int|
                    0 <= j < n ==> ((#[trigger] nodes.deep_view_types()[j]) == "template"@
                        || nodes.deep_view_types()[j] == "call"@ || nodes.deep_view_types()[j]
                        == "response"@ || nodes.deep_view_types()[j] == "jq"@),
                forall|j: int|
                    0 <= j < n ==> ((#[trigger] nodes.deep_view_types()[j]) == "jq"@
                        ==> (exists|p: int|
                        0 <= p < nodes@[j].params@.len() && (#[trigger] nodes@[j].params@[p]).0@
                            == "filter"@)),
            decreases nodes@.len() - n,
        {
            let unc = &nodes[n];
            let inputs = graph.get_input_names(unc.name.as_str()).clone();
            match new_config(unc.node_type.as_str(), unc.name.as_str(), &inputs, &unc.params) {
                Ok(nc) => {
                    node_list.push(NodeInfo {
                        name: unc.name.clone(),
                        node_type: unc.node_type.clone(),
                        config: nc,
                    });
                },
                Err(err) => {
                    proof {
                        assert(given.deep_view_names()[n as int] == nodes@[n as int].name@);
                        assert(given.deep_view_types()[n as int] == nodes@[n as int].node_type@);
                    }
                    return Err(err);
                },
            }
            proof {
                assert(given.deep_view_types()[n as int] == nodes@[n as int].node_type@);
            }
            n += 1;
        }

        Ok(Config { node_list, node_names, graph: Rc::new(graph), debug })
    }

    pub fn get_node_names(&self) -> (r: &Vec<String>)
        ensures
            r.deep_view() == self.names(),
    {
        &self.node_names
    }

    pub fn get_graph(&self) -> (r: &DependencyGraph)
        requires
            self.wf(),
        ensures
            r.wf(),
            r.provs() == self.graph_provs(),
            r.deps() == self.graph_deps(),
    {
        &self.graph
    }

    /// A shared handle to the graph, for a transaction's data store.
    pub fn graph_handle(&self) -> (r: Rc<DependencyGraph>)
        requires
            self.wf(),
        ensures
            (*r).wf(),
            (*r).provs() == self.graph_provs(),
            (*r).deps() == self.graph_deps(),
    {
        rc_clone_graph(&self.graph)
    }

    /// Whether the operator asked for the debug facility.
    pub fn debug(&self) -> (r: bool) {
        self.debug
    }

    /// Build one transaction's node instances, aligned with the declared
    /// node order.
    pub fn build_nodes(&self) -> (r: Vec<NodeKind>)
        requires
            self.wf(),
        ensures
            r@.len() == self.names().len(),
            forall|i: int|
                0 <= i < r@.len() ==> {
                    &&& (self.config_kinds()[i] is Template ==> #[trigger] r@[i] is Template)
                    &&& (self.config_kinds()[i] is Call ==> r@[i] is Call)
                    &&& (self.config_kinds()[i] is Response ==> r@[i] is Response)
                    &&& (self.config_kinds()[i] is Jq ==> (r@[i] is Jq || r@[i] is Broken))
                },
    {
        let mut nodes: Vec<NodeKind> = Vec::new();
        let mut i: usize = 0;
        while i < self.node_list.len()
            invariant
                self.wf(),
                0 <= i <= self.node_list@.len(),
                nodes@.len() == i,
                forall|j: int|
                    0 <= j < i ==> {
                        &&& (self.config_kinds()[j] is Template ==> #[trigger] nodes@[j]
                            is Template)
                        &&& (self.config_kinds()[j] is Call ==> nodes@[j] is Call)
                        &&& (self.config_kinds()[j] is Response ==> nodes@[j] is Response)
                        &&& (self.config_kinds()[j] is Jq ==> (nodes@[j] is Jq || nodes@[j]
                            is Broken))
                    },
            decreases self.node_list@.len() - i,
        {
            nodes.push(new_node(&self.node_list[i].config));
            i += 1;
        }
        nodes
    }

    /// The node type tags, aligned with the declared node order.
    pub fn get_node_types(&self) -> (r: Vec<String>)
        requires
            self.wf(),
        ensures
            r@.len() == self.names().len(),
            r.deep_view() == self.type_tags(),
    {
        let mut types: Vec<String> = Vec::new();
        let mut i: usize = 0;
        while i < self.node_list.len()
            invariant
                self.wf(),
                0 <= i <= self.node_list@.len(),
                types@.len() == i,
                forall|j: int| 0 <= j < i ==> types.deep_view()[j] == self.type_tags()[j],
            decreases self.node_list@.len() - i,
        {
            types.push(self.node_list[i].node_type.clone());
            i += 1;
        }
        proof {
            assert(types.deep_view() =~= self.type_tags());
        }
        types
    }
}

/// Relies on `Rc::clone`: another handle to the same graph.
#[verifier::external_body]
fn rc_clone_graph(rc: &Rc<DependencyGraph>) -> (r: Rc<DependencyGraph>)
    ensures
        r == *rc,
{
    Rc::clone(rc)
}

/// The declared names and type tags of a node list, in order.
pub trait NodeNamesView {
    spec fn deep_view_names(&self) -> Seq<Seq<char>>;

    spec fn deep_view_types(&self) -> Seq<Seq<char>>;
}

impl NodeNamesView for Vec<UserNodeConfig> {
    open spec fn deep_view_names(&self) -> Seq<Seq<char>> {
        Seq::new(self@.len(), |i: int| self@[i].name@)
    }

    open spec fn deep_view_types(&self) -> Seq<Seq<char>> {
        Seq::new(self@.len(), |i: int| self@[i].node_type@)
    }
}

} // verus!

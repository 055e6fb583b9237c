//! The node layer: the four stock node types as tagged variants, their
//! per-node configurations, and the registry that builds them from a
//! configuration entry.

use vstd::prelude::*;

use crate::data::{Input, State};
use crate::json::{value_as_bool, value_as_string, value_as_u64};
use crate::strutil::str_eq;

pub mod call;
pub mod jq;
pub mod response;
pub mod template;

use crate::nodes::call::{Call, CallConfig};
use crate::nodes::jq::{Jq, JqConfig};
use crate::nodes::response::{Response, ResponseConfig};
use crate::nodes::template::{Template, TemplateConfig};

verus! {

broadcast use vstd::string::group_string_axioms;

/// What the scheduler should hand back to the host once it quiesces.
#[derive(PartialEq, Eq, Structural, Clone, Copy, Debug)]
pub enum Action {
    Continue,
    Pause,
}

/// An HTTP subrequest a Call node asks the host to dispatch.
pub struct DispatchRequest {
    pub host_port: String,
    pub headers: Vec<(String, String)>,
    pub body: Option<Vec<u8>>,
    pub timeout_secs: u32,
}

/// A write the driver owes the host on behalf of a node or an implicit
/// sink.
pub enum Effect {
    SetRequestHeaders(Vec<(String, String)>),
    SetRequestBody(Vec<u8>),
    SetResponseHeaders(Vec<(String, String)>),
    SetResponseHeader(String, Option<String>),
    SetResponseBody(Vec<u8>),
    SendHttpResponse(u32, Vec<(String, String)>, Option<Vec<u8>>),
}

/// The mathematical value of a host write.
pub enum EffectV {
    SetRequestHeaders(Seq<(Seq<char>, Seq<char>)>),
    SetRequestBody(Seq<u8>),
    SetResponseHeaders(Seq<(Seq<char>, Seq<char>)>),
    SetResponseHeader(Seq<char>, Option<Seq<char>>),
    SetResponseBody(Seq<u8>),
    SendHttpResponse(u32, Seq<(Seq<char>, Seq<char>)>, Option<Seq<u8>>),
}

impl View for Effect {
    type V = EffectV;

    open spec fn view(&self) -> EffectV {
        match self {
            Effect::SetRequestHeaders(hs) => EffectV::SetRequestHeaders(hs.deep_view()),
            Effect::SetRequestBody(b) => EffectV::SetRequestBody(b@),
            Effect::SetResponseHeaders(hs) => EffectV::SetResponseHeaders(hs.deep_view()),
            Effect::SetResponseHeader(n, v) => EffectV::SetResponseHeader(n@, v.deep_view()),
            Effect::SetResponseBody(b) => EffectV::SetResponseBody(b@),
            Effect::SendHttpResponse(status, hs, b) => EffectV::SendHttpResponse(
                *status,
                hs.deep_view(),
                b.deep_view(),
            ),
        }
    }
}

impl DeepView for Effect {
    type V = EffectV;

    open spec fn deep_view(&self) -> EffectV {
        self@
    }
}

/// What one firing of a node produced: a settled state, a subrequest to
/// dispatch (the node then waits on the returned token), or a host write
/// together with the implied `Done` with no output.
pub enum RunOutcome {
    Settled(State),
    Dispatch(DispatchRequest),
    Respond(Effect),
}

/// A node's type-specific configuration.
pub enum NodeConfigKind {
    Template(TemplateConfig),
    Call(CallConfig),
    Jq(JqConfig),
    Response(ResponseConfig),
}

/// A node instance bound to one transaction. A node whose construction
/// failed is kept as `Broken` and fails when fired.
pub enum NodeKind {
    Template(Template),
    Call(Call),
    Jq(Jq),
    Response(Response),
    Broken(String),
}

impl NodeKind {
    /// Fire the node on its inputs.
    pub fn run(&self, input: &Input<'_>) -> (r: RunOutcome)
        ensures
            self is Template ==> (r matches RunOutcome::Settled(st) && (st@ is Done || st@
                is Fail)),
            self is Jq ==> (r matches RunOutcome::Settled(st) && (st@ is Done || st@ is Fail)),
            self is Broken ==> (r matches RunOutcome::Settled(st) && st@ is Fail),
            self is Call ==> (r is Dispatch || (r matches RunOutcome::Settled(st) && st@
                is Fail)),
            self is Response ==> (r is Respond || (r matches RunOutcome::Settled(st) && (st@
                is Done || st@ is Fail))),
    {
        match self {
            NodeKind::Template(t) => RunOutcome::Settled(t.run(input)),
            NodeKind::Call(c) => c.run(input),
            NodeKind::Jq(j) => RunOutcome::Settled(j.run(input)),
            NodeKind::Response(rs) => rs.run(input),
            NodeKind::Broken(msg) => RunOutcome::Settled(
                State::Fail(Some(crate::payload::Payload::Error(msg.clone()))),
            ),
        }
    }

    /// Deliver a finished subrequest to the node. Only a Call node ever
    /// waits, and its resume always settles: a Call interprets the body
    /// under its content type, any other node finishes with no output.
    pub fn resume(&self, body: Option<Vec<u8>>, content_type: Option<&str>) -> (r: State)
        ensures
            r@ is Done || r@ is Fail,
            !(self is Call) ==> r@ == crate::data::StateV::Done(None::<crate::payload::PayloadV>),
            self is Call ==> match (body, content_type) {
                (Some(b), Some(ct)) => if ct@ == "application/json"@ {
                    (crate::json::json_wf(b@) ==> (r@ matches crate::data::StateV::Done(Some(
                        crate::payload::PayloadV::Json(_),
                    )))) && (!crate::json::json_wf(b@) ==> (r@ matches crate::data::StateV::Done(
                        Some(crate::payload::PayloadV::Error(_)),
                    )))
                } else {
                    r@ == crate::data::StateV::Done(Some(crate::payload::PayloadV::Raw(b@)))
                },
                _ => r@ == crate::data::StateV::Done(None::<crate::payload::PayloadV>),
            },
    {
        match self {
            NodeKind::Call(c) => c.resume(body, content_type),
            _ => State::Done(None),
        }
    }
}

/// The first value recorded under `key`, if any.
pub fn get_param<'a>(params: &'a Vec<(String, serde_json::Value)>, key: &str) -> (r: Option<
    &'a serde_json::Value,
>)
    ensures
        r matches Some(v) ==> (exists|i: int|
            0 <= i < params@.len() && (#[trigger] params@[i]).0@ == key@ && *v == params@[i].1
                && (forall|j: int| 0 <= j < i ==> (#[trigger] params@[j]).0@ != key@)),
        r is None ==> (forall|i: int|
            0 <= i < params@.len() ==> (#[trigger] params@[i]).0@ != key@),
{
    let mut i: usize = 0;
    while i < params.len()
        invariant
            0 <= i <= params.len(),
            forall|j: int| 0 <= j < i ==> (#[trigger] params@[j]).0@ != key@,
        decreases params.len() - i,
    {
        if str_eq(params[i].0.as_str(), key) {
            return Some(&params[i].1);
        }
        i += 1;
    }
    None
}

/// The parameter under `key` as text, where it is a JSON string.
pub fn get_string_param(params: &Vec<(String, serde_json::Value)>, key: &str) -> (r: Option<
    String,
>)
    ensures
        r is Some ==> (exists|i: int|
            0 <= i < params@.len() && (#[trigger] params@[i]).0@ == key@),
{
    match get_param(params, key) {
        Some(v) => value_as_string(v),
        None => None,
    }
}

/// The parameter under `key` as a non-negative integer.
pub fn get_u64_param(params: &Vec<(String, serde_json::Value)>, key: &str) -> (r: Option<u64>)
    ensures
        r is Some ==> (exists|i: int|
            0 <= i < params@.len() && (#[trigger] params@[i]).0@ == key@),
{
    match get_param(params, key) {
        Some(v) => value_as_u64(v),
        None => None,
    }
}

/// The parameter under `key` as a boolean.
pub fn get_bool_param(params: &Vec<(String, serde_json::Value)>, key: &str) -> (r: Option<bool>)
    ensures
        r is Some ==> (exists|i: int|
            0 <= i < params@.len() && (#[trigger] params@[i]).0@ == key@),
{
    match get_param(params, key) {
        Some(v) => value_as_bool(v),
        None => None,
    }
}

/// Build the type-specific configuration for a node from its declared
/// inputs and its parameter bag. Unknown node types are rejected.
pub fn new_config(
    node_type: &str,
    name: &str,
    inputs: &Vec<String>,
    params: &Vec<(String, serde_json::Value)>,
) -> (r: Result<NodeConfigKind, String>)
    ensures
        node_type@ == "template"@ ==> (r matches Ok(c) && c is Template),
        node_type@ == "call"@ ==> (r matches Ok(c) && c is Call),
        node_type@ == "response"@ ==> (r matches Ok(c) && c is Response),
        node_type@ == "jq"@ ==> (r matches Ok(c) ==> c is Jq),
        node_type@ == "jq"@ ==> (r matches Err(e) ==> e@ == "no filter specified"@),
        (node_type@ == "jq"@ && (forall|p: int|
            0 <= p < params@.len() ==> (#[trigger] params@[p]).0@ != "filter"@)) ==> r is Err,
        (node_type@ == "jq"@ && r is Ok) ==> (exists|p: int|
            0 <= p < params@.len() && (#[trigger] params@[p]).0@ == "filter"@),
        (node_type@ != "template"@ && node_type@ != "call"@ && node_type@ != "response"@
            && node_type@ != "jq"@) ==> (r matches Err(e) && e@ == "no such node type: "@
            + node_type@),
{
    proof {
        reveal_strlit("template");
        reveal_strlit("call");
        reveal_strlit("response");
        reveal_strlit("jq");
        assert("template"@.len() == 8 && "call"@.len() == 4 && "response"@.len() == 8 && "jq"@.len()
            == 2);
        assert("template"@[0] == 't' && "response"@[0] == 'r');
        assert("template"@ != "response"@);
    }
    if str_eq(node_type, "template") {
        Ok(NodeConfigKind::Template(TemplateConfig::from_params(inputs, params)))
    } else if str_eq(node_type, "call") {
        Ok(NodeConfigKind::Call(CallConfig::from_params(params)))
    } else if str_eq(node_type, "response") {
        Ok(NodeConfigKind::Response(ResponseConfig::from_params(name, params)))
    } else if str_eq(node_type, "jq") {
        match JqConfig::from_params(inputs, params) {
            Ok(c) => Ok(NodeConfigKind::Jq(c)),
            Err(e) => Err(e),
        }
    } else {
        let mut msg = String::new();
        msg.append("no such node type: ");
        msg.append(node_type);
        proof {
            assert(msg@ =~= "no such node type: "@ + node_type@);
        }
        Err(msg)
    }
}

/// Build a node instance for one transaction from its configuration. A
/// configuration whose node cannot be built (a jq filter that does not
/// compile) yields a `Broken` node, which fails when fired.
pub fn new_node(config: &NodeConfigKind) -> (r: NodeKind)
    ensures
        config is Template ==> r is Template,
        config is Call ==> r is Call,
        config is Jq ==> (r is Jq || r is Broken),
        config is Response ==> r is Response,
{
    match config {
        NodeConfigKind::Template(c) => NodeKind::Template(Template::new(c)),
        NodeConfigKind::Call(c) => NodeKind::Call(Call::new(c)),
        NodeConfigKind::Jq(c) => match Jq::from_config(c) {
            Ok(j) => NodeKind::Jq(j),
            Err(e) => NodeKind::Broken(e),
        },
        NodeConfigKind::Response(c) => NodeKind::Response(Response::new(c)),
    }
}

/// The default outputs a node type supplies when the user declares none:
/// a terminal Response node feeds the downstream response body. Applied
/// before the dependency graph is built.
pub fn default_outputs_for(node_type: &str) -> (r: Option<Vec<String>>)
    ensures
        node_type@ == "response"@ <==> r is Some,
        r matches Some(v) ==> v.deep_view() == seq!["response_body"@],
{
    if str_eq(node_type, "response") {
        let mut v: Vec<String> = Vec::new();
        v.push("response_body".to_owned());
        proof {
            assert(v.deep_view() =~= seq!["response_body"@]);
        }
        Some(v)
    } else {
        None
    }
}

} // verus!

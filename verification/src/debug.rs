//! The debug facility: an append-only trace of every state transition and
//! every run/resume invocation, rendered as a JSON array for the
//! downstream response body when tracing is requested.

use vstd::prelude::*;

use crate::data::{State, StateV};
use crate::json::{json_array, json_object, json_string, json_to_bytes};
use crate::payload::{Payload, PayloadV};
use crate::strutil::{utf8_ok, utf8_to_string};

verus! {

/// Whether an invocation was a first firing or a resume.
pub enum RunMode {
    Run,
    Resume,
}

/// The three ways a state transition is traced.
pub enum DataMode {
    Done,
    Waiting,
    Fail,
}

impl State {
    /// The trace category of a state.
    pub fn to_data_mode(&self) -> (r: DataMode)
        ensures
            self@ is Done <==> r is Done,
            self@ is Waiting <==> r is Waiting,
            self@ is Fail <==> r is Fail,
    {
        match self {
            State::Done(_) => DataMode::Done,
            State::Waiting(_) => DataMode::Waiting,
            State::Fail(_) => DataMode::Fail,
        }
    }
}

struct RunOperation {
    node_name: String,
    node_type: String,
    action: RunMode,
}

struct SetOperation {
    node_name: String,
    data_type: String,
    status: DataMode,
    value: Option<serde_json::Value>,
}

enum Operation {
    Invoked(RunOperation),
    Recorded(SetOperation),
}

/// The mathematical value of one trace operation: what was invoked or
/// recorded, for which node, and how the recorded state is categorised.
pub enum OperationV {
    Invoked { name: Seq<char>, node_type: Seq<char>, resume: bool },
    Recorded { name: Seq<char>, status: DataMode, kind: Seq<char>, has_value: bool },
}

impl View for Operation {
    type V = OperationV;

    closed spec fn view(&self) -> OperationV {
        match self {
            Operation::Invoked(op) => OperationV::Invoked {
                name: op.node_name@,
                node_type: op.node_type@,
                resume: op.action is Resume,
            },
            Operation::Recorded(op) => OperationV::Recorded {
                name: op.node_name@,
                status: op.status,
                kind: op.data_type@,
                has_value: op.value is Some,
            },
        }
    }
}

/// The trace category of a recorded payload: a JSON tree is JSON, raw
/// bytes keep the caller's default unless they cannot be rendered, an
/// error payload and unrenderable bytes are failures, nothing is none.
pub open spec fn spec_payload_kind(p: Option<PayloadV>, default_type: Seq<char>) -> Seq<char> {
    match p {
        None => "none"@,
        Some(PayloadV::Json(_)) => "application/json"@,
        Some(PayloadV::Raw(b)) => if utf8_ok(b) {
            default_type
        } else {
            "fail"@
        },
        Some(PayloadV::Error(_)) => "fail"@,
    }
}

/// The trace category of a recorded state.
pub open spec fn spec_record_kind(st: StateV) -> Seq<char> {
    match st {
        StateV::Waiting(_) => "waiting"@,
        StateV::Done(p) => spec_payload_kind(p, "raw"@),
        StateV::Fail(p) => spec_payload_kind(p, "fail"@),
    }
}

/// The entry recorded for one state transition.
pub open spec fn spec_recorded_op(name: Seq<char>, st: StateV) -> OperationV {
    OperationV::Recorded {
        name,
        status: match st {
            StateV::Done(_) => DataMode::Done,
            StateV::Waiting(_) => DataMode::Waiting,
            StateV::Fail(_) => DataMode::Fail,
        },
        kind: spec_record_kind(st),
        has_value: match st {
            StateV::Waiting(_) => false,
            StateV::Done(p) => p is Some,
            StateV::Fail(p) => p is Some,
        },
    }
}

/// The payload rendered for the trace: its content type (or the given
/// default) and its JSON form; a payload that cannot be rendered is
/// traced as a failure value.
fn payload_to_op_info(p: &Option<Payload>, default_type: &str) -> (r: (
    String,
    Option<serde_json::Value>,
))
    ensures
        r.0@ == spec_payload_kind(p.deep_view(), default_type@),
        r.1 is Some <==> p is Some,
{
    match p {
        Some(payload) => {
            let dt = match payload.content_type() {
                Some(ct) => ct.to_owned(),
                None => default_type.to_owned(),
            };
            match payload.to_json() {
                Ok(v) => (dt, Some(v)),
                Err(e) => ("fail".to_owned(), Some(json_string(e))),
            }
        },
        None => ("none".to_owned(), None),
    }
}

pub struct Debug {
    trace: bool,
    operations: Vec<Operation>,
    orig_response_body_content_type: Option<String>,
}

impl Debug {
    /// Whether tracing was requested for this transaction.
    pub closed spec fn tracing(&self) -> bool {
        self.trace
    }

    /// How many operations the trace holds.
    pub closed spec fn trace_len(&self) -> nat {
        self.operations@.len()
    }

    /// The recorded operations, in order.
    pub closed spec fn ops(&self) -> Seq<OperationV> {
        Seq::new(self.operations@.len(), |i: int| self.operations@[i]@)
    }

    pub fn new() -> (r: Debug)
        ensures
            !r.tracing(),
            r.trace_len() == 0,
    {
        Debug { trace: false, operations: Vec::new(), orig_response_body_content_type: None }
    }

    /// Record a state transition, when tracing.
    pub fn set_data(&mut self, name: &str, state: &State)
        ensures
            !old(self).tracing() ==> final(self).ops() == old(self).ops(),
            old(self).tracing() ==> final(self).ops() == old(self).ops().push(
                spec_recorded_op(name@, state@),
            ),
            !old(self).tracing() ==> final(self).trace_len() == old(self).trace_len(),
            old(self).tracing() ==> final(self).trace_len() == old(self).trace_len() + 1,
            final(self).tracing() == old(self).tracing(),
    {
        if self.trace {
            let ghost pre = self.ops();
            let (data_type, value) = match state {
                State::Done(p) => payload_to_op_info(p, "raw"),
                State::Waiting(_) => ("waiting".to_owned(), None),
                State::Fail(p) => payload_to_op_info(p, "fail"),
            };
            self.operations.push(Operation::Recorded(SetOperation {
                node_name: name.to_owned(),
                data_type,
                status: state.to_data_mode(),
                value,
            }));
            proof {
                assert(self.ops() =~= pre.push(spec_recorded_op(name@, state@)));
            }
        } else {
            proof {
                assert(final(self).ops() =~= old(self).ops());
            }
        }
    }

    /// Record an invocation and the state it produced, when tracing: one
    /// run or resume entry, then the state entry.
    pub fn run(&mut self, name: &str, node_type: &str, state: &State, action: RunMode)
        ensures
            final(self).tracing() == old(self).tracing(),
            !old(self).tracing() ==> final(self).ops() == old(self).ops(),
            old(self).tracing() ==> final(self).ops() == old(self).ops().push(
                OperationV::Invoked {
                    name: name@,
                    node_type: node_type@,
                    resume: action is Resume,
                },
            ).push(spec_recorded_op(name@, state@)),
            !old(self).tracing() ==> final(self).trace_len() == old(self).trace_len(),
            old(self).tracing() ==> final(self).trace_len() == old(self).trace_len() + 2,
    {
        if self.trace {
            let ghost pre = self.ops();
            self.operations.push(Operation::Invoked(RunOperation {
                action,
                node_name: name.to_owned(),
                node_type: node_type.to_owned(),
            }));
            proof {
                assert(self.ops() =~= pre.push(
                    OperationV::Invoked {
                        name: name@,
                        node_type: node_type@,
                        resume: action is Resume,
                    },
                ));
            }
            self.set_data(name, state);
        } else {
            proof {
                assert(final(self).ops() =~= old(self).ops());
            }
        }
    }

    /// Keep the downstream response's original content type, to interpret
    /// the body the trace replaces.
    pub fn save_response_body_content_type(&mut self, ct: Option<String>)
        ensures
            final(self).tracing() == old(self).tracing(),
    {
        self.orig_response_body_content_type = ct;
    }

    pub fn response_body_content_type(&self) -> (r: &Option<String>) {
        &self.orig_response_body_content_type
    }

    pub fn set_tracing(&mut self, enable: bool)
        ensures
            final(self).tracing() == enable,
            final(self).trace_len() == old(self).trace_len(),
    {
        self.trace = enable;
    }

    pub fn is_tracing(&self) -> (r: bool)
        ensures
            r == self.tracing(),
    {
        self.trace
    }

    /// The trace as a JSON array: one element per operation — `run` and
    /// `resume` for invocations; `value`, `wait` and `fail` for recorded
    /// states, a rendered payload where there is one.
    pub fn get_trace(&self) -> (r: String) {
        let mut actions: Vec<serde_json::Value> = Vec::new();
        let mut i: usize = 0;
        while i < self.operations.len()
            decreases self.operations@.len() - i,
        {
            let mut entry: Vec<(String, serde_json::Value)> = Vec::new();
            match &self.operations[i] {
                Operation::Invoked(run) => {
                    let action = match run.action {
                        RunMode::Run => "run",
                        RunMode::Resume => "resume",
                    };
                    entry.push(("action".to_owned(), json_string(action.to_owned())));
                    entry.push(("name".to_owned(), json_string(run.node_name.clone())));
                    entry.push(("type".to_owned(), json_string(run.node_type.clone())));
                },
                Operation::Recorded(rec) => {
                    match rec.status {
                        DataMode::Done => {
                            entry.push(("action".to_owned(), json_string("value".to_owned())));
                            entry.push(("name".to_owned(), json_string(rec.node_name.clone())));
                            entry.push(("type".to_owned(), json_string(rec.data_type.clone())));
                            if let Some(v) = &rec.value {
                                entry.push(("value".to_owned(), crate::json::clone_value(v)));
                            }
                        },
                        DataMode::Waiting => {
                            entry.push(("action".to_owned(), json_string("wait".to_owned())));
                            entry.push(("name".to_owned(), json_string(rec.node_name.clone())));
                        },
                        DataMode::Fail => {
                            entry.push(("action".to_owned(), json_string("fail".to_owned())));
                            entry.push(("name".to_owned(), json_string(rec.node_name.clone())));
                            if let Some(v) = &rec.value {
                                entry.push(("value".to_owned(), crate::json::clone_value(v)));
                            }
                        },
                    }
                },
            }
            actions.push(json_object(entry));
            i += 1;
        }
        let rendered = json_array(actions);
        match json_to_bytes(&rendered) {
            Ok(bytes) => match utf8_to_string(bytes.as_slice()) {
                Ok(s) => s,
                Err(_) => String::new(),
            },
            Err(_) => String::new(),
        }
    }
}

} // verus!

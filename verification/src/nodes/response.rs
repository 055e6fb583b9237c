//! The Response node: assembles status, headers and body and terminates
//! the transaction from the filter — or, once response headers are
//! already sent, replaces the downstream response body.

use vstd::prelude::*;

use crate::data::{Input, Phase, State};
use crate::nodes::{get_bool_param, get_u64_param, Effect, RunOutcome};
use crate::payload::{to_pwm_body, to_pwm_headers, Payload};

verus! {

pub struct ResponseConfig {
    pub name: String,
    pub status: Option<u32>,
    pub warn_headers_sent: bool,
}

impl ResponseConfig {
    /// The optional `status` and the `warn_headers_sent` switch (default
    /// on) from the node's parameter bag.
    pub fn from_params(name: &str, params: &Vec<(String, serde_json::Value)>) -> (r:
        ResponseConfig) {
        let status: Option<u32> = match get_u64_param(params, "status") {
            Some(s) => if s <= 0xffff_ffff {
                Some(s as u32)
            } else {
                None
            },
            None => None,
        };
        let warn_headers_sent = match get_bool_param(params, "warn_headers_sent") {
            Some(w) => w,
            None => true,
        };
        ResponseConfig { name: name.to_owned(), status, warn_headers_sent }
    }
}

pub struct Response {
    status: Option<u32>,
}

/// The payload in the node's first input slot, if any.
pub open spec fn spec_body_slot(data: Seq<Option<&Payload>>) -> Option<crate::payload::PayloadV> {
    if data.len() >= 1 {
        data[0].deep_view()
    } else {
        None
    }
}

/// The payload in the node's second input slot, if any.
pub open spec fn spec_headers_slot(data: Seq<Option<&Payload>>) -> Option<
    crate::payload::PayloadV,
> {
    if data.len() >= 2 {
        data[1].deep_view()
    } else {
        None
    }
}

impl Response {
    /// The status this node answers with: the configured one, or 200.
    pub closed spec fn status_view(&self) -> u32 {
        match self.status {
            Some(s) => s,
            None => 200,
        }
    }

    pub fn new(config: &ResponseConfig) -> (r: Response)
        ensures
            r.status_view() == (match config.status {
                Some(s) => s,
                None => 200,
            }),
    {
        Response { status: config.status }
    }

    /// Body from the first input, headers from the second. During the
    /// response-body phase the headers are already sent, so only the body
    /// is replaced; in any earlier phase the node sends a full downstream
    /// response with the configured status (default 200). A body that
    /// cannot be serialized fails the node.
    pub fn run(&self, input: &Input<'_>) -> (r: RunOutcome)
        ensures
            r is Respond || (r matches RunOutcome::Settled(st) && (st@ is Fail || st@ is Done)),
            match spec_body_slot(input.data@) {
                None => if input.phase is HttpResponseBody {
                    r matches RunOutcome::Settled(st) && st@ == crate::data::StateV::Done(
                        None::<crate::payload::PayloadV>,
                    )
                } else {
                    r matches RunOutcome::Respond(Effect::SendHttpResponse(status, _, body))
                        && status == self.status_view() && body is None
                },
                Some(crate::payload::PayloadV::Raw(bytes)) => if input.phase
                    is HttpResponseBody {
                    r matches RunOutcome::Respond(Effect::SetResponseBody(b)) && b@ == bytes
                } else {
                    r matches RunOutcome::Respond(Effect::SendHttpResponse(status, _, body))
                        && status == self.status_view() && (body matches Some(b) && b@ == bytes)
                },
                Some(crate::payload::PayloadV::Error(e)) => r matches RunOutcome::Settled(st)
                    && st@ == crate::data::StateV::Fail(
                    Some(crate::payload::PayloadV::Error(e)),
                ),
                Some(crate::payload::PayloadV::Json(_)) => if input.phase is HttpResponseBody {
                    r matches RunOutcome::Respond(Effect::SetResponseBody(_))
                } else {
                    r matches RunOutcome::Respond(Effect::SendHttpResponse(status, _, b))
                        && status == self.status_view() && b is Some
                },
            },
            r matches RunOutcome::Respond(Effect::SendHttpResponse(_, hs, _)) ==> {
                &&& (spec_body_slot(input.data@) matches Some(crate::payload::PayloadV::Json(_))
                    ==> (hs@.len() >= 1 && hs@[hs@.len() - 1].0@ == "Content-Type"@ && hs@[hs@.len()
                    - 1].1@ == "application/json"@))
                &&& ((match spec_headers_slot(input.data@) {
                    Some(crate::payload::PayloadV::Json(_)) => false,
                    _ => true,
                }) ==> hs@.len() == (if spec_body_slot(input.data@) matches Some(
                    crate::payload::PayloadV::Json(_),
                ) {
                    1int
                } else {
                    0int
                }))
            },
    {
        let body: Option<&Payload> = if input.data.len() >= 1 {
            match input.data[0] {
                Some(p) => Some(p),
                None => None,
            }
        } else {
            None
        };
        let headers: Option<&Payload> = if input.data.len() >= 2 {
            match input.data[1] {
                Some(p) => Some(p),
                None => None,
            }
        } else {
            None
        };

        let mut headers_vec = to_pwm_headers(headers);
        let ghost base_headers = headers_vec@;
        if let Some(payload) = body {
            if let Some(ct) = payload.content_type() {
                headers_vec.push(("Content-Type".to_owned(), ct.to_owned()));
                proof {
                    assert(headers_vec@.len() == base_headers.len() + 1);
                    assert(headers_vec@[headers_vec@.len() - 1].0@ == "Content-Type"@);
                    assert(headers_vec@[headers_vec@.len() - 1].1@ == "application/json"@);
                }
            }
        }

        let body_bytes = match to_pwm_body(body) {
            Ok(b) => b,
            Err(e) => {
                return RunOutcome::Settled(State::Fail(Some(Payload::Error(e))));
            },
        };

        if input.phase == Phase::HttpResponseBody {
            match body_bytes {
                Some(b) => RunOutcome::Respond(Effect::SetResponseBody(b)),
                None => RunOutcome::Settled(State::Done(None)),
            }
        } else {
            let status = match self.status {
                Some(s) => s,
                None => 200,
            };
            RunOutcome::Respond(Effect::SendHttpResponse(status, headers_vec, body_bytes))
        }
    }
}

} // verus!

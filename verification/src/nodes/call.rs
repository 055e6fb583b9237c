//! The Call node: dispatches an HTTP subrequest through the host and
//! suspends until the matching resume delivers the response.

use vstd::prelude::*;
use vstd::string::StringExecFns;

use crate::data::{Input, State};
use crate::nodes::{get_string_param, get_u64_param, DispatchRequest, RunOutcome};
use crate::payload::{to_pwm_body, to_pwm_headers, Payload};
use crate::strutil::usize_to_string;

verus! {

/// Whether `url::Url::parse` accepts the text, a function of it alone.
pub uninterp spec fn url_wf(s: Seq<char>) -> bool;

/// The scheme of the parsed URL; meaningful only where `url_wf` holds.
pub uninterp spec fn url_scheme(s: Seq<char>) -> Seq<char>;

/// The host of the parsed URL, if it has one.
pub uninterp spec fn url_host(s: Seq<char>) -> Option<Seq<char>>;

/// The explicit port of the parsed URL, if it names one.
pub uninterp spec fn url_port(s: Seq<char>) -> Option<u16>;

/// The path of the parsed URL.
pub uninterp spec fn url_path(s: Seq<char>) -> Seq<char>;

/// The pieces of a parsed URL that a dispatch needs.
pub struct UrlParts {
    pub scheme: String,
    pub host: Option<String>,
    pub port: Option<u16>,
    pub path: String,
}

/// Relies on `url::Url::parse` and its `scheme`, `host_str`, `port` and
/// `path` accessors: parsing succeeds exactly on well-formed absolute
/// URLs, every component is a function of the URL text alone, and the
/// error is rendered as text.
#[verifier::external_body]
fn parse_url_parts(url: &str) -> (r: Result<UrlParts, String>)
    ensures
        r is Ok <==> url_wf(url@),
        r matches Ok(p) ==> {
            &&& p.scheme@ == url_scheme(url@)
            &&& p.host.deep_view() == url_host(url@)
            &&& p.port == url_port(url@)
            &&& p.path@ == url_path(url@)
        },
{
    let u = url::Url::parse(url).map_err(|e| e.to_string())?;
    Ok(UrlParts {
        scheme: u.scheme().to_string(),
        host: u.host_str().map(|h| h.to_string()),
        port: u.port(),
        path: u.path().to_string(),
    })
}

pub struct CallConfig {
    pub url: String,
    pub method: String,
    pub timeout: u32,
}

impl CallConfig {
    /// The target `url` (default empty), `method` (default GET) and
    /// `timeout` in seconds (default 60) from the node's parameter bag.
    pub fn from_params(params: &Vec<(String, serde_json::Value)>) -> (r: CallConfig) {
        let url = match get_string_param(params, "url") {
            Some(u) => u,
            None => String::new(),
        };
        let method = match get_string_param(params, "method") {
            Some(m) => m,
            None => "GET".to_owned(),
        };
        let timeout: u32 = match get_u64_param(params, "timeout") {
            Some(t) => if t <= 0xffff_ffff {
                t as u32
            } else {
                60
            },
            None => 60,
        };
        CallConfig { url, method, timeout }
    }
}

pub struct Call {
    config: CallConfig,
}

fn fail_with(prefix: &str, detail: &str) -> (r: RunOutcome)
    ensures
        r matches RunOutcome::Settled(st) && st@ is Fail,
{
    let mut msg = String::new();
    msg.append(prefix);
    msg.append(detail);
    RunOutcome::Settled(State::Fail(Some(Payload::Error(msg))))
}

impl Call {
    /// The URL this node was configured with.
    pub closed spec fn url_view(&self) -> Seq<char> {
        self.config.url@
    }

    /// The configured subrequest timeout, in seconds.
    pub closed spec fn timeout_view(&self) -> u32 {
        self.config.timeout
    }

    /// The configured HTTP method.
    pub closed spec fn method_view(&self) -> Seq<char> {
        self.config.method@
    }

    pub fn new(config: &CallConfig) -> (r: Call)
        ensures
            r.url_view() == config.url@,
            r.method_view() == config.method@,
            r.timeout_view() == config.timeout,
    {
        Call {
            config: CallConfig {
                url: config.url.clone(),
                method: config.method.clone(),
                timeout: config.timeout,
            },
        }
    }

    /// Assemble the subrequest: body from the first input, headers from
    /// the second, target from the configured URL. A URL that does not
    /// parse, lacks a host, or an error payload in the body slot fails
    /// the node; otherwise the node asks for a dispatch and waits.
    pub fn run(&self, input: &Input<'_>) -> (r: RunOutcome)
        ensures
            !url_wf(self.url_view()) ==> (r matches RunOutcome::Settled(st) && st@ is Fail),
            r is Dispatch || (r matches RunOutcome::Settled(st) && st@ is Fail),
            (input.data@.len() >= 1 && input.data@[0].deep_view() matches Some(
                crate::payload::PayloadV::Error(_),
            )) ==> (r matches RunOutcome::Settled(st) && st@ is Fail),
            (url_wf(self.url_view()) && url_host(self.url_view()) is None) ==> (r matches
            RunOutcome::Settled(st) && st@ is Fail),
            (url_wf(self.url_view()) && url_host(self.url_view()) is Some && !(match (if input.data@.len() >= 1 {
                input.data@[0].deep_view()
            } else {
                None
            }) {
                Some(crate::payload::PayloadV::Error(_)) => true,
                _ => false,
            })) ==> r is Dispatch,
            r matches RunOutcome::Dispatch(req) ==> {
                &&& req.timeout_secs == self.timeout_view()
                &&& url_wf(self.url_view())
                &&& match url_host(self.url_view()) {
                    Some(h) => req.host_port@ == (match url_port(self.url_view()) {
                        None => h,
                        Some(p) => h + ":"@ + crate::strutil::spec_dec(p as nat),
                    }),
                    None => false,
                }
                &&& req.headers@.len() >= 3
                &&& req.headers@[req.headers@.len() - 3].0@ == ":method"@
                &&& req.headers@[req.headers@.len() - 3].1@ == self.method_view()
                &&& req.headers@[req.headers@.len() - 2].0@ == ":path"@
                &&& req.headers@[req.headers@.len() - 2].1@ == url_path(self.url_view())
                &&& req.headers@[req.headers@.len() - 1].0@ == ":scheme"@
                &&& req.headers@[req.headers@.len() - 1].1@ == url_scheme(self.url_view())
                &&& match (if input.data@.len() >= 1 {
                    input.data@[0].deep_view()
                } else {
                    None
                }) {
                    None => req.body is None,
                    Some(crate::payload::PayloadV::Raw(bytes)) => req.body matches Some(b) && b@
                        == bytes,
                    Some(crate::payload::PayloadV::Json(_)) => req.body is Some,
                    Some(crate::payload::PayloadV::Error(_)) => true,
                }
            },
    {
        let body: Option<&Payload> = if input.data.len() >= 1 {
            match input.data[0] {
                Some(p) => Some(p),
                None => None,
            }
        } else {
            None
        };
        let headers: Option<&Payload> = if input.data.len() >= 2 {
            match input.data[1] {
                Some(p) => Some(p),
                None => None,
            }
        } else {
            None
        };

        let parts = match parse_url_parts(self.config.url.as_str()) {
            Ok(p) => p,
            Err(err) => {
                return fail_with("call: failed parsing URL from 'url' field: ", err.as_str());
            },
        };
        let host = match parts.host {
            Some(h) => h,
            None => {
                return fail_with("call: failed getting host from URL", "");
            },
        };

        let mut headers_vec = to_pwm_headers(headers);
        headers_vec.push((":method".to_owned(), self.config.method.clone()));
        headers_vec.push((":path".to_owned(), parts.path));
        headers_vec.push((":scheme".to_owned(), parts.scheme));

        let body_bytes = match to_pwm_body(body) {
            Ok(b) => b,
            Err(e) => {
                return fail_with("", e.as_str());
            },
        };

        let host_port = match parts.port {
            Some(port) => {
                let mut hp = host;
                hp.append(":");
                hp.append(usize_to_string(port as usize).as_str());
                hp
            },
            None => host,
        };

        RunOutcome::Dispatch(DispatchRequest {
            host_port,
            headers: headers_vec,
            body: body_bytes,
            timeout_secs: self.config.timeout,
        })
    }

    /// Deliver the subrequest's response: its body interpreted under its
    /// `Content-Type`; no body, or no content type to interpret it under,
    /// means the node finishes with no output.
    pub fn resume(&self, body: Option<Vec<u8>>, content_type: Option<&str>) -> (r: State)
        ensures
            r@ is Done,
            match (body, content_type) {
                (Some(b), Some(ct)) => if ct@ == "application/json"@ {
                    (crate::json::json_wf(b@) ==> (r@ matches crate::data::StateV::Done(Some(
                        crate::payload::PayloadV::Json(_),
                    )))) && (!crate::json::json_wf(b@) ==> (r@ matches crate::data::StateV::Done(
                        Some(crate::payload::PayloadV::Error(_)),
                    )))
                } else {
                    r@ == crate::data::StateV::Done(Some(crate::payload::PayloadV::Raw(b@)))
                },
                _ => r@ == crate::data::StateV::Done(None::<crate::payload::PayloadV>),
            },
    {
        match body {
            Some(bytes) => State::Done(Payload::from_bytes(bytes, content_type)),
            None => State::Done(None),
        }
    }
}

} // verus!

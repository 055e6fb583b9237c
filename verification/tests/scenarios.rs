use datakit::config::{Config, UserConfig, UserNodeConfig};
use datakit::filter::{DataKitFilter, PhaseVerdict};
use datakit::nodes::{Action, Effect};

fn json(s: &str) -> serde_json::Value {
    serde_json::from_str(s).expect("valid test JSON")
}

fn node(
    node_type: &str,
    name: &str,
    inputs: &[&str],
    outputs: &[&str],
    params: &[(&str, serde_json::Value)],
) -> UserNodeConfig {
    UserNodeConfig {
        node_type: node_type.to_string(),
        name: name.to_string(),
        params: params.iter().map(|(k, v)| (k.to_string(), v.clone())).collect(),
        inputs: inputs.iter().map(|s| s.to_string()).collect(),
        outputs: outputs.iter().map(|s| s.to_string()).collect(),
    }
}

fn config(nodes: Vec<UserNodeConfig>, debug: bool) -> Config {
    Config::new(UserConfig { nodes, debug }).expect("valid configuration")
}

fn done(v: PhaseVerdict) -> (Action, Vec<Effect>) {
    match v {
        PhaseVerdict::Done { action, effects } => (action, effects),
        PhaseVerdict::AwaitDispatch { .. } => panic!("unexpected dispatch"),
    }
}

fn sent_response(effects: &[Effect]) -> Option<(u32, Vec<(String, String)>, Option<Vec<u8>>)> {
    for e in effects {
        if let Effect::SendHttpResponse(status, headers, body) = e {
            return Some((*status, headers.clone(), body.clone()));
        }
    }
    None
}

fn response_body(effects: &[Effect]) -> Option<Vec<u8>> {
    let mut out = None;
    for e in effects {
        if let Effect::SetResponseBody(b) = e {
            out = Some(b.clone());
        }
    }
    out
}

fn header_effect<'a>(effects: &'a [Effect], name: &str) -> Option<&'a Option<String>> {
    let mut out = None;
    for e in effects {
        if let Effect::SetResponseHeader(n, v) = e {
            if n == name {
                out = Some(v);
            }
        }
    }
    out
}

#[test]
fn template_only() {
    let cfg = config(
        vec![node(
            "template",
            "t",
            &["request_headers"],
            &["response_body"],
            &[
                ("template", json(r#""hello {{request_headers.host.[0]}}""#)),
                ("content_type", json(r#""text/plain""#)),
            ],
        )],
        false,
    );
    let mut f = DataKitFilter::new(&cfg);
    // a repeated header collects into an array, which the template's
    // index addresses; a single value would stay a plain JSON string
    let (action, _) = done(f.on_http_request_headers(
        vec![
            ("Host".to_string(), "example.com".to_string()),
            ("Host".to_string(), "fallback.example".to_string()),
        ],
        None,
    ));
    assert_eq!(action, Action::Continue);
    let (_, header_effects) = done(f.on_http_response_headers(None, None));
    // a rendered text/plain payload is kept as raw bytes, which declare no
    // content type of their own, so the engine clears the header
    assert_eq!(header_effect(&header_effects, "Content-Type"), Some(&None));
    assert_eq!(header_effect(&header_effects, "Content-Length"), Some(&Some("17".to_string())));
    let (_, body_effects) = done(f.on_http_response_body(None, None, true));
    assert_eq!(response_body(&body_effects), Some(b"hello example.com".to_vec()));
}

#[test]
fn call_then_response() {
    let cfg = config(
        vec![
            node(
                "call",
                "c",
                &["request_body"],
                &[],
                &[
                    ("url", json(r#""http://svc/echo""#)),
                    ("method", json(r#""POST""#)),
                ],
            ),
            node("response", "r", &["c"], &["response_body"], &[("status", json("201"))]),
        ],
        false,
    );
    let mut f = DataKitFilter::new(&cfg);
    done(f.on_http_request_headers(vec![], None));
    let verdict = f.on_http_request_body(
        Some(br#"{"x":1}"#.to_vec()),
        Some("application/json".to_string()),
        true,
    );
    let request = match verdict {
        PhaseVerdict::AwaitDispatch { request, .. } => request,
        PhaseVerdict::Done { .. } => panic!("expected a dispatch"),
    };
    assert_eq!(request.host_port, "svc");
    assert!(request.headers.contains(&(":method".to_string(), "POST".to_string())));
    assert!(request.headers.contains(&(":path".to_string(), "/echo".to_string())));
    assert!(request.headers.contains(&(":scheme".to_string(), "http".to_string())));
    assert_eq!(request.body, Some(br#"{"x":1}"#.to_vec()));
    assert_eq!(request.timeout_secs, 60);

    let (action, _) = done(f.dispatch_result(Ok(7)));
    assert_eq!(action, Action::Pause);

    let (_, effects) = done(f.on_http_call_response(
        7,
        Some(br#"{"y":2}"#.to_vec()),
        Some("application/json".to_string()),
    ));
    let (status, headers, body) = sent_response(&effects).expect("a downstream response");
    assert_eq!(status, 201);
    assert!(headers.contains(&("Content-Type".to_string(), "application/json".to_string())));
    assert_eq!(json(std::str::from_utf8(&body.unwrap()).unwrap()), json(r#"{"y":2}"#));
}

#[test]
fn jq_transform() {
    let cfg = config(
        vec![
            node("jq", "j", &["request_body"], &[], &[("filter", json(r#"".a + .b""#))]),
            node("response", "r", &["j"], &[], &[]),
        ],
        false,
    );
    let mut f = DataKitFilter::new(&cfg);
    done(f.on_http_request_headers(vec![], None));
    let (_, effects) = done(f.on_http_request_body(
        Some(br#"{"a":1,"b":2}"#.to_vec()),
        Some("application/json".to_string()),
        true,
    ));
    let (status, _, body) = sent_response(&effects).expect("a downstream response");
    assert_eq!(status, 200);
    assert_eq!(body, Some(b"3".to_vec()));
}

#[test]
fn fail_short_circuit() {
    let cfg = config(
        vec![
            node("call", "c", &[], &[], &[("url", json(r#""not a url""#))]),
            node("response", "r", &["c"], &[], &[]),
        ],
        false,
    );
    let mut f = DataKitFilter::new(&cfg);
    let (action, effects) = done(f.on_http_request_headers(vec![], None));
    assert_eq!(action, Action::Continue);
    assert!(sent_response(&effects).is_none());
    let (_, e2) = done(f.on_http_request_body(None, None, true));
    assert!(sent_response(&e2).is_none());
    let (_, e3) = done(f.on_http_response_headers(None, None));
    assert!(sent_response(&e3).is_none());
    let (_, e4) = done(f.on_http_response_body(None, None, true));
    assert!(sent_response(&e4).is_none());
    assert!(response_body(&e4).is_none());
}

#[test]
fn debug_trace() {
    let cfg = config(
        vec![node(
            "template",
            "t",
            &["request_headers"],
            &["response_body"],
            &[
                ("template", json(r#""hello {{request_headers.host.[0]}}""#)),
                ("content_type", json(r#""text/plain""#)),
            ],
        )],
        true,
    );
    let mut f = DataKitFilter::new(&cfg);
    done(f.on_http_request_headers(
        vec![("Host".to_string(), "example.com".to_string())],
        Some("true".to_string()),
    ));
    let (_, header_effects) = done(f.on_http_response_headers(None, None));
    assert_eq!(
        header_effect(&header_effects, "Content-Type"),
        Some(&Some("application/json".to_string()))
    );
    assert_eq!(header_effect(&header_effects, "Content-Length"), Some(&None));
    assert_eq!(header_effect(&header_effects, "Content-Encoding"), Some(&None));

    let (_, body_effects) = done(f.on_http_response_body(None, None, true));
    let body = response_body(&body_effects).expect("the trace replaces the body");
    let trace: serde_json::Value = serde_json::from_slice(&body).expect("trace is JSON");
    let entries = trace.as_array().expect("trace is an array");
    assert!(!entries.is_empty());
    let run_at = entries
        .iter()
        .position(|e| e["action"] == json(r#""run""#))
        .expect("the fired node is traced");
    assert_eq!(entries[run_at]["name"], json(r#""t""#));
    assert_eq!(entries[run_at]["type"], json(r#""template""#));
    assert_eq!(entries[run_at + 1]["action"], json(r#""value""#));
    assert_eq!(entries[run_at + 1]["name"], json(r#""t""#));
}

#[test]
fn reserved_name() {
    let r = Config::new(UserConfig {
        nodes: vec![node("template", "response_body", &[], &[], &[])],
        debug: false,
    });
    match r {
        Err(e) => assert_eq!(e, "cannot use reserved node name 'response_body'"),
        Ok(_) => panic!("expected the configuration to be rejected"),
    }
}

#[test]
fn unknown_node_type_rejected() {
    let r = Config::new(UserConfig {
        nodes: vec![node("mystery", "m", &[], &[], &[])],
        debug: false,
    });
    match r {
        Err(e) => assert_eq!(e, "no such node type: mystery"),
        Ok(_) => panic!("expected the configuration to be rejected"),
    }
}

#[test]
fn jq_without_filter_rejected() {
    let r = Config::new(UserConfig {
        nodes: vec![node("jq", "j", &[], &[], &[])],
        debug: false,
    });
    match r {
        Err(e) => assert_eq!(e, "no filter specified"),
        Ok(_) => panic!("expected the configuration to be rejected"),
    }
}

#[test]
fn unknown_resume_token_is_ignored() {
    let cfg = config(
        vec![
            node("call", "c", &["request_body"], &[], &[("url", json(r#""http://svc/x""#))]),
            node("response", "r", &["c"], &[], &[]),
        ],
        false,
    );
    let mut f = DataKitFilter::new(&cfg);
    done(f.on_http_request_headers(vec![], None));
    let verdict = f.on_http_request_body(Some(b"{}".to_vec()), Some("application/json".to_string()), true);
    assert!(matches!(verdict, PhaseVerdict::AwaitDispatch { .. }));
    done(f.dispatch_result(Ok(9)));
    // a token nothing waits on: no node resumes, nothing is sent
    let (_, effects) = done(f.on_http_call_response(1234, Some(b"{}".to_vec()), None));
    assert!(sent_response(&effects).is_none());
    // the real token still works afterwards
    let (_, effects) = done(f.on_http_call_response(9, Some(b"{}".to_vec()), Some("application/json".to_string())));
    assert!(sent_response(&effects).is_some());
}

#[test]
fn response_body_phase_replaces_body() {
    // a response node fed by the upstream response body replaces the
    // downstream body instead of sending a full response
    let cfg = config(
        vec![
            node("jq", "j", &["service_response_body"], &[], &[("filter", json(r#""{wrapped: .}""#))]),
            node("response", "r", &["j"], &[], &[]),
        ],
        false,
    );
    let mut f = DataKitFilter::new(&cfg);
    done(f.on_http_request_headers(vec![], None));
    done(f.on_http_request_body(None, None, true));
    done(f.on_http_response_headers(None, None));
    assert!(f.needs_response_body());
    let (_, effects) = done(f.on_http_response_body(
        Some(br#"{"v":1}"#.to_vec()),
        Some("application/json".to_string()),
        true,
    ));
    let body = response_body(&effects).expect("body replaced");
    assert_eq!(json(std::str::from_utf8(&body).unwrap()), json(r#"{"wrapped":{"v":1}}"#));
}

#[test]
fn body_phase_without_eof_pauses() {
    let cfg = config(
        vec![node("response", "r", &["request_body"], &[], &[])],
        false,
    );
    let mut f = DataKitFilter::new(&cfg);
    done(f.on_http_request_headers(vec![], None));
    let (action, effects) = done(f.on_http_request_body(None, None, false));
    assert_eq!(action, Action::Pause);
    assert!(effects.is_empty());
}

#[test]
fn declared_order_breaks_readiness_ties() {
    // both nodes become ready at the same pass; the trace shows them
    // fired in the order the configuration declared them
    let cfg = config(
        vec![
            node(
                "template",
                "second_in_alphabet",
                &["request_headers"],
                &["out_b"],
                &[("template", json(r#""B""#)), ("content_type", json(r#""text/plain""#))],
            ),
            node(
                "template",
                "a_first_in_alphabet",
                &["request_headers"],
                &["out_a"],
                &[("template", json(r#""A""#)), ("content_type", json(r#""text/plain""#))],
            ),
        ],
        true,
    );
    let mut f = DataKitFilter::new(&cfg);
    done(f.on_http_request_headers(
        vec![("Host".to_string(), "example.com".to_string())],
        Some("true".to_string()),
    ));
    done(f.on_http_response_headers(None, None));
    let (_, body_effects) = done(f.on_http_response_body(None, None, true));
    let body = response_body(&body_effects).expect("the trace replaces the body");
    let trace: serde_json::Value = serde_json::from_slice(&body).expect("trace is JSON");
    let runs: Vec<String> = trace
        .as_array()
        .unwrap()
        .iter()
        .filter(|e| e["action"] == json(r#""run""#))
        .map(|e| e["name"].as_str().unwrap().to_string())
        .collect();
    assert_eq!(runs, vec!["second_in_alphabet".to_string(), "a_first_in_alphabet".to_string()]);
}

#[test]
fn nodes_fire_once_across_passes() {
    // a diamond declared against its topological order: the scheduler
    // needs several passes, and every node still fires exactly once
    let tpl = |t: &str| vec![("template", json(&format!(r#""{}""#, t))), ("content_type", json(r#""text/plain""#))];
    let cfg = config(
        vec![
            node("template", "d", &["b", "c"], &["out_d"], &tpl("D")),
            node("template", "b", &["a"], &["mid_b"], &tpl("B")),
            node("template", "c", &["a"], &["mid_c"], &tpl("C")),
            node("template", "a", &["request_headers"], &["mid_a"], &tpl("A")),
        ],
        true,
    );
    let mut f = DataKitFilter::new(&cfg);
    done(f.on_http_request_headers(vec![], Some("true".to_string())));
    done(f.on_http_response_headers(None, None));
    let (_, body_effects) = done(f.on_http_response_body(None, None, true));
    let body = response_body(&body_effects).expect("the trace replaces the body");
    let trace: serde_json::Value = serde_json::from_slice(&body).expect("trace is JSON");
    let runs: Vec<String> = trace
        .as_array()
        .unwrap()
        .iter()
        .filter(|e| e["action"] == json(r#""run""#))
        .map(|e| e["name"].as_str().unwrap().to_string())
        .collect();
    assert_eq!(
        runs,
        vec!["a".to_string(), "b".to_string(), "c".to_string(), "d".to_string()]
    );
}

#[test]
fn jq_multiple_results_wrap_as_array() {
    let cfg = config(
        vec![
            node("jq", "j", &["request_body"], &[], &[("filter", json(r#"".a, .b""#))]),
            node("response", "r", &["j"], &[], &[]),
        ],
        false,
    );
    let mut f = DataKitFilter::new(&cfg);
    done(f.on_http_request_headers(vec![], None));
    let (_, effects) = done(f.on_http_request_body(
        Some(br#"{"a":1,"b":2}"#.to_vec()),
        Some("application/json".to_string()),
        true,
    ));
    let (_, _, body) = sent_response(&effects).expect("a downstream response");
    assert_eq!(json(std::str::from_utf8(&body.unwrap()).unwrap()), json("[1,2]"));
}

#[test]
fn jq_empty_results_mean_no_output() {
    let cfg = config(
        vec![
            node("jq", "j", &["request_body"], &[], &[("filter", json(r#""empty""#))]),
            node("response", "r", &["j"], &[], &[]),
        ],
        false,
    );
    let mut f = DataKitFilter::new(&cfg);
    done(f.on_http_request_headers(vec![], None));
    let (_, effects) = done(f.on_http_request_body(
        Some(br#"{"a":1}"#.to_vec()),
        Some("application/json".to_string()),
        true,
    ));
    // j finished with no output; its consumer still fires, with nothing
    // in the body slot
    let (status, _, body) = sent_response(&effects).expect("a downstream response");
    assert_eq!(status, 200);
    assert_eq!(body, None);
}

#[test]
fn call_without_host_fails() {
    // a URL that parses but names no host: the node fails, its dependent
    // never fires
    let cfg = config(
        vec![
            node("call", "c", &[], &[], &[("url", json(r#""mailto:someone@example.com""#))]),
            node("response", "r", &["c"], &[], &[]),
        ],
        false,
    );
    let mut f = DataKitFilter::new(&cfg);
    let (action, effects) = done(f.on_http_request_headers(vec![], None));
    assert_eq!(action, Action::Continue);
    assert!(sent_response(&effects).is_none());
    let (_, e2) = done(f.on_http_request_body(None, None, true));
    assert!(sent_response(&e2).is_none());
}

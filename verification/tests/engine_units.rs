use std::rc::Rc;

use datakit::data::{Data, State};
use datakit::dependency_graph::DependencyGraph;
use datakit::payload::{
    flatten_header_doc, from_pwm_headers, group_header_pairs, to_pwm_body, HeaderValue, Payload,
};

fn json(s: &str) -> serde_json::Value {
    serde_json::from_str(s).expect("valid test JSON")
}

fn pairs(v: &[(&str, &str)]) -> Vec<(String, String)> {
    v.iter().map(|(a, b)| (a.to_string(), b.to_string())).collect()
}

#[test]
fn graph_add_is_symmetric() {
    let mut g = DependencyGraph::new();
    g.add("a", "b");
    assert!(g.has_dependents("a"));
    assert!(g.has_providers("b"));
    assert_eq!(g.get_input_names("b"), &vec!["a".to_string()]);
    assert!(!g.has_providers("a"));
    assert!(!g.has_dependents("b"));
}

#[test]
fn graph_add_is_idempotent() {
    let mut g = DependencyGraph::new();
    g.add("x", "y");
    g.add("x", "y");
    g.add("w", "y");
    assert_eq!(g.get_input_names("y"), &vec!["x".to_string(), "w".to_string()]);
}

#[test]
fn graph_preserves_provider_order() {
    let mut g = DependencyGraph::new();
    g.add("one", "sink");
    g.add("two", "sink");
    g.add("three", "sink");
    assert_eq!(
        g.get_input_names("sink"),
        &vec!["one".to_string(), "two".to_string(), "three".to_string()]
    );
}

#[test]
fn readiness_requires_all_providers_done() {
    let mut g = DependencyGraph::new();
    g.add("a", "c");
    g.add("b", "c");
    let mut d = Data::new(Rc::new(g));
    assert!(d.get_inputs_for("c", None).is_none());
    d.set("a", State::Done(None));
    assert!(d.get_inputs_for("c", None).is_none());
    d.set("b", State::Done(Some(Payload::Raw(b"hi".to_vec()))));
    let inputs = d.get_inputs_for("c", None).expect("c is ready");
    assert_eq!(inputs.len(), 2);
    assert!(inputs[0].is_none());
    assert!(inputs[1].is_some());
}

#[test]
fn done_node_does_not_retrigger() {
    let g = DependencyGraph::new();
    let mut d = Data::new(Rc::new(g));
    assert!(d.get_inputs_for("n", None).is_some());
    d.set("n", State::Done(None));
    assert!(d.get_inputs_for("n", None).is_none());
}

#[test]
fn waiting_node_needs_matching_token() {
    let g = DependencyGraph::new();
    let mut d = Data::new(Rc::new(g));
    d.set("n", State::Waiting(42));
    assert!(d.get_inputs_for("n", None).is_none());
    assert!(d.get_inputs_for("n", Some(7)).is_none());
    assert!(d.get_inputs_for("n", Some(42)).is_some());
}

#[test]
fn failed_provider_blocks_dependents() {
    let mut g = DependencyGraph::new();
    g.add("a", "b");
    let mut d = Data::new(Rc::new(g));
    d.set("a", State::Fail(Some(Payload::Error("boom".to_string()))));
    assert!(d.get_inputs_for("b", None).is_none());
    assert!(d.first_input_for("b", None).is_none());
}

#[test]
fn header_payload_round_trip() {
    let p = Payload::Json(json(r#"{"a":"1","b":["x","y"]}"#));
    let out = p.to_pwm_headers();
    assert_eq!(out, pairs(&[("a", "1"), ("b", "x"), ("b", "y")]));
    let back = from_pwm_headers(&out);
    assert_eq!(back.to_pwm_headers(), out);
}

#[test]
fn header_names_are_lowercased() {
    let p = from_pwm_headers(&pairs(&[("Host", "example.com"), ("X-Two", "a"), ("x-two", "b")]));
    assert_eq!(
        p.to_pwm_headers(),
        pairs(&[("host", "example.com"), ("x-two", "a"), ("x-two", "b")])
    );
}

#[test]
fn header_grouping_collects_repeats_in_order() {
    let doc = group_header_pairs(&pairs(&[("N", "1"), ("m", "0"), ("n", "2"), ("n", "3")]));
    assert_eq!(doc.len(), 2);
    assert_eq!(doc[0].0, "n");
    match &doc[0].1 {
        HeaderValue::Many(vs) => assert_eq!(vs, &vec!["1".to_string(), "2".to_string(), "3".to_string()]),
        HeaderValue::One(_) => panic!("expected a collected list"),
    }
    assert_eq!(doc[1].0, "m");
    match &doc[1].1 {
        HeaderValue::One(v) => assert_eq!(v, "0"),
        HeaderValue::Many(_) => panic!("expected a single value"),
    }
    let flat = flatten_header_doc(&doc);
    assert_eq!(flat, pairs(&[("n", "1"), ("n", "2"), ("n", "3"), ("m", "0")]));
}

#[test]
fn json_payload_round_trip() {
    let bytes = br#"{ "a" : 1, "b" : [true, null, "s"] }"#.to_vec();
    let p = Payload::from_bytes(bytes.clone(), Some("application/json")).expect("interpreted");
    let out = p.to_bytes().expect("serializable");
    let before: serde_json::Value = serde_json::from_slice(&bytes).unwrap();
    let after: serde_json::Value = serde_json::from_slice(&out).unwrap();
    assert_eq!(before, after);
}

#[test]
fn from_bytes_shapes() {
    assert!(Payload::from_bytes(b"anything".to_vec(), None).is_none());
    match Payload::from_bytes(b"plain".to_vec(), Some("text/plain")) {
        Some(Payload::Raw(b)) => assert_eq!(b, b"plain".to_vec()),
        _ => panic!("expected raw bytes"),
    }
    match Payload::from_bytes(b"{nope".to_vec(), Some("application/json")) {
        Some(Payload::Error(_)) => {},
        _ => panic!("expected a parse-error payload"),
    }
}

#[test]
fn payload_errors_and_lengths() {
    let e = Payload::Error("broken".to_string());
    assert_eq!(e.to_bytes(), Err("broken".to_string()));
    assert_eq!(e.len(), Some(6));
    assert_eq!(e.content_type(), None);

    let r = Payload::Raw(b"abc".to_vec());
    assert_eq!(r.len(), Some(3));
    assert_eq!(r.to_bytes(), Ok(b"abc".to_vec()));

    let j = Payload::Json(json("7"));
    assert_eq!(j.len(), None);
    assert_eq!(j.content_type(), Some("application/json"));

    assert_eq!(to_pwm_body(None), Ok(None));
    assert_eq!(to_pwm_body(Some(&e)), Err("broken".to_string()));
}

#[test]
fn payload_to_json_wraps_utf8() {
    let r = Payload::Raw("text".as_bytes().to_vec());
    assert_eq!(r.to_json(), Ok(json(r#""text""#)));
    let bad = Payload::Raw(vec![0xff, 0xfe]);
    assert!(bad.to_json().is_err());
    let e = Payload::Error("oops".to_string());
    assert_eq!(e.to_json(), Err("oops".to_string()));
}

#[test]
fn readiness_stays_until_the_node_fires() {
    let mut g = DependencyGraph::new();
    g.add("a", "c");
    let mut d = Data::new(Rc::new(g));
    d.set("a", State::Done(None));
    assert!(d.get_inputs_for("c", None).is_some());
    // an unrelated node's transition does not close c's readiness
    d.set("x", State::Done(None));
    assert!(d.get_inputs_for("c", None).is_some());
    d.set("y", State::Fail(None));
    assert!(d.get_inputs_for("c", None).is_some());
    // only c's own transition does
    d.set("c", State::Done(None));
    assert!(d.get_inputs_for("c", None).is_none());
}

#[test]
fn error_payload_length_counts_bytes() {
    // a non-ASCII message: 5 characters, 6 UTF-8 bytes
    let e = Payload::Error("h\u{e9}llo".to_string());
    assert_eq!(e.len(), Some(6));
}

use datakit::nodes::jq::Jq;
use datakit::payload::Payload;

fn json(s: &str) -> serde_json::Value {
    serde_json::from_str(s).expect("valid test JSON")
}

#[test]
fn filter_sanity() {
    let jq = Jq::new("{ a: $a, b: $b }", vec!["a".to_string(), "b".to_string()]);

    let Ok(jq) = jq else {
        panic!("jq error");
    };

    let a = Payload::Json(json(r#"{"foo":"bar","arr":[1,2,3]}"#));
    let b = Payload::Json(json(r#""some text""#));

    let inputs = vec![Some(&a), Some(&b)];

    let res = jq.exec(inputs.as_slice());

    let Ok(results) = res else {
        panic!("unexpected jq error");
    };

    assert_eq!(
        results,
        vec![json(r#"{"a":{"foo":"bar","arr":[1,2,3]},"b":"some text"}"#)]
    );
}

#[test]
fn invalid_filter_text() {
    let jq = Jq::new("nope!", Vec::new());

    let Err(e) = jq else {
        panic!("expected invalid filter to result in an error");
    };

    assert_eq!("invalid filter", e.to_string());
}

#[test]
fn empty_filter() {
    let jq = Jq::new("", vec![]);

    let Err(e) = jq else {
        panic!("expected invalid filter to result in an error");
    };

    assert_eq!("invalid filter", e.to_string());
}

#[test]
fn filter_errors() {
    let jq = Jq::new("error(\"woops\")", vec![]).unwrap();

    let res = jq.exec(&[]);
    let Err(errs) = res else {
        panic!("expected a failure");
    };

    assert_eq!(errs.into_inner(), vec!["woops"]);
}

#[test]
fn invalid_number_of_inputs() {
    let jq = Jq::new("$foo", vec!["foo".to_string()]).unwrap();

    let res = jq.exec(&[]);
    let Err(errs) = res else {
        panic!("expected a failure");
    };

    assert_eq!(
        errs.into_inner(),
        vec!["invalid number of inputs, expected: 1, got: 0"]
    );
}

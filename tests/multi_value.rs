use scraper_archive::multi_value::{Encoded, Error, MultiValue};

fn collect(m: &MultiValue) -> Vec<String> {
    let mut it = m.iter();
    let mut out = Vec::new();
    while let Some(v) = it.next() {
        out.push(v);
    }
    out
}

fn strings(values: &[&str]) -> Vec<String> {
    values.iter().map(|s| s.to_string()).collect()
}

fn encoded_of(value: &serde_json::Value) -> Encoded {
    match value {
        serde_json::Value::String(s) => Encoded::Text(s.clone()),
        serde_json::Value::Array(items) => Encoded::List(
            items
                .iter()
                .map(|i| i.as_str().expect("a string").to_string())
                .collect(),
        ),
        other => panic!("unexpected header value {other}"),
    }
}

#[test]
fn deserialize_multi_value() {
    let singleton_example = r#"{ "header_values": "test" }"#;
    let multi_example = r#"{ "header_values": ["foo", "bar", "baz"] }"#;

    let singleton: serde_json::Value = serde_json::from_str(singleton_example).unwrap();
    let multi: serde_json::Value = serde_json::from_str(multi_example).unwrap();

    let singleton_parsed = MultiValue::decode(encoded_of(&singleton["header_values"])).unwrap();
    let multi_parsed = MultiValue::decode(encoded_of(&multi["header_values"])).unwrap();

    assert_eq!(singleton_parsed, MultiValue::new("test".to_string()));
    assert_eq!(
        multi_parsed,
        MultiValue::try_from(strings(&["foo", "bar", "baz"])).unwrap()
    );
}

#[test]
fn iter() {
    let singleton_example = MultiValue::new("test".to_string());
    let multi_example = MultiValue::try_from(strings(&["foo", "bar", "baz"])).unwrap();

    assert_eq!(collect(&singleton_example), vec!["test"]);
    assert_eq!(collect(&multi_example), vec!["foo", "bar", "baz"]);
}

#[test]
fn try_from_yields_values_in_order() {
    let values = strings(&["a", "b", "c", "d"]);
    let m = MultiValue::try_from(values.clone()).unwrap();
    assert_eq!(collect(&m), values);
    assert_eq!(m.first, "a");
}

#[test]
fn try_from_empty_fails() {
    assert_eq!(MultiValue::try_from(Vec::new()), Err(Error::Empty));
}

#[test]
fn push_appends_in_order() {
    let mut m = MultiValue::new("x".to_string());
    m.push("y".to_string());
    m.push("z".to_string());
    assert_eq!(collect(&m), strings(&["x", "y", "z"]));
}

#[test]
fn iterator_stays_exhausted() {
    let m = MultiValue::new("only".to_string());
    let mut it = m.iter();
    assert_eq!(it.next(), Some("only".to_string()));
    assert_eq!(it.next(), None);
    assert_eq!(it.next(), None);
}

#[test]
fn single_value_encodes_as_text_and_round_trips() {
    let m = MultiValue::new("gzip".to_string());
    let e = m.encode();
    assert_eq!(e, Encoded::Text("gzip".to_string()));
    assert_eq!(MultiValue::decode(e).unwrap(), m);
}

#[test]
fn several_values_encode_as_list_and_round_trip() {
    let m = MultiValue::try_from(strings(&["a=1", "b=2"])).unwrap();
    let e = m.encode();
    assert_eq!(e, Encoded::List(strings(&["a=1", "b=2"])));
    assert_eq!(MultiValue::decode(e).unwrap(), m);
}

#[test]
fn one_element_list_decodes_to_single_value() {
    let m = MultiValue::decode(Encoded::List(strings(&["solo"]))).unwrap();
    assert_eq!(m, MultiValue::new("solo".to_string()));
    assert_eq!(m.encode(), Encoded::Text("solo".to_string()));
}

#[test]
fn empty_list_does_not_decode() {
    assert_eq!(MultiValue::decode(Encoded::List(Vec::new())), Err(Error::Empty));
}

#[test]
fn first_is_the_mandatory_value() {
    let mut m = MultiValue::try_from(strings(&["one", "two"])).unwrap();
    assert_eq!(m.first(), "one");
    m.push("three".to_string());
    assert_eq!(m.first(), "one");
    assert_eq!(MultiValue::new("solo".to_string()).first(), "solo");
    assert_eq!(m.iter().next(), Some("one".to_string()));
}

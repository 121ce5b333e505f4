use subconv::subscription::decode_subscription;
use subconv::transform::transform;
use subconv::render::render_config;

/// serde_json's pretty form of the given JSON text, as the reference layout.
fn pretty_of(text: &str) -> String {
    let v: serde_json::Value = serde_json::from_str(text).unwrap();
    serde_json::to_string_pretty(&v).unwrap()
}

#[test]
fn rendered_config_has_exact_shape() {
    let body = "{\"a\": 1, \"inbounds\": [\
        {\"type\": \"mixed\", \"listen\": \"127.0.0.1\", \"listen_port\": 7890}], \"z\": \"end\"}";
    let doc = decode_subscription(body).unwrap();
    let (out, _) = transform(doc).unwrap();
    let text = render_config(&out);
    let expected = "{\n  \"a\": 1,\n  \"inbounds\": [\n    {\n      \"listen\": \"127.0.0.1\",\n      \
        \"listen_port\": 7890,\n      \"type\": \"mixed\"\n    }\n  ],\n  \"z\": \"end\"\n}";
    assert_eq!(text, expected);
}

#[test]
fn rendered_config_matches_full_pretty_serialization() {
    let body = "{\"a\": 1, \"dns\": {\"servers\": [\"1.1.1.1\", {\"tag\": \"x\"}]}, \"inbounds\": [\
        {\"type\": \"mixed\", \"listen\": \"127.0.0.1\", \"listen_port\": 7890, \
         \"users\": [{\"name\": \"u\"}]}], \"z\": [true, null]}";
    let doc = decode_subscription(body).unwrap();
    let (out, _) = transform(doc).unwrap();
    let text = render_config(&out);
    // the same document with the same (already all-mixed) inbounds array,
    // written by serde_json itself
    assert_eq!(text, pretty_of(body));
}

#[test]
fn rendered_empty_inbounds_is_an_empty_array() {
    let doc = decode_subscription("{\"inbounds\": []}").unwrap();
    let (out, _) = transform(doc).unwrap();
    assert_eq!(render_config(&out), "{\n  \"inbounds\": []\n}");
    assert_eq!(render_config(&out), pretty_of("{\"inbounds\": []}"));
}

#[test]
fn rendered_filtered_config_matches_pretty_of_filtered_document() {
    let body = "{\"inbounds\": [{\"type\": \"direct\"}, \
        {\"type\": \"mixed\", \"listen\": \"::\", \"listen_port\": 7890}], \"log\": {}}";
    let filtered = "{\"inbounds\": [\
        {\"type\": \"mixed\", \"listen\": \"::\", \"listen_port\": 7890}], \"log\": {}}";
    let doc = decode_subscription(body).unwrap();
    let (out, _) = transform(doc).unwrap();
    assert_eq!(render_config(&out), pretty_of(filtered));
}

#[test]
fn rendered_config_round_trips_every_other_key() {
    let body = "{\"dns\": {\"servers\": [\"1.1.1.1\"]}, \"experimental\": {}, \
        \"inbounds\": [{\"type\": \"direct\"}], \"route\": {\"rules\": [1, 2]}}";
    let doc = decode_subscription(body).unwrap();
    let (out, _) = transform(doc).unwrap();
    let text = render_config(&out);
    let reparsed: serde_json::Value = serde_json::from_str(&text).unwrap();
    let original: serde_json::Value = serde_json::from_str(body).unwrap();
    let obj = reparsed.as_object().unwrap();
    let orig = original.as_object().unwrap();
    for (k, v) in orig.iter() {
        if k != "inbounds" {
            assert_eq!(obj.get(k), Some(v));
        }
    }
    assert_eq!(obj.len(), orig.len());
    assert_eq!(reparsed.get("inbounds").unwrap().as_array().unwrap().len(), 0);
}

#[test]
fn kept_mixed_entry_is_written_verbatim() {
    let body = "{\"inbounds\": [\
        {\"type\": \"direct\"}, \
        {\"type\": \"mixed\", \"listen\": \"::\", \"listen_port\": 7890, \"sniff\": true}]}";
    let doc = decode_subscription(body).unwrap();
    let (out, _) = transform(doc).unwrap();
    let text = render_config(&out);
    let reparsed: serde_json::Value = serde_json::from_str(&text).unwrap();
    let arr = reparsed.get("inbounds").unwrap().as_array().unwrap();
    let original: serde_json::Value = serde_json::from_str(body).unwrap();
    let second = &original.get("inbounds").unwrap().as_array().unwrap()[1];
    assert_eq!(arr.len(), 1);
    assert_eq!(&arr[0], second);
}

#[test]
fn keys_are_escaped_when_written() {
    let body = "{\"inbounds\": [], \"we\\\"ird\": 1}";
    let doc = decode_subscription(body).unwrap();
    let (out, _) = transform(doc).unwrap();
    let text = render_config(&out);
    let reparsed: serde_json::Value = serde_json::from_str(&text).unwrap();
    assert_eq!(reparsed.get("we\"ird"), Some(&serde_json::Value::from(1)));
}

#[test]
fn document_with_only_inbounds_renders_alone() {
    let body = "{\"inbounds\": [{\"type\": \"mixed\", \"listen\": \"a\", \"listen_port\": 1}]}";
    let doc = decode_subscription(body).unwrap();
    let (out, _) = transform(doc).unwrap();
    let text = render_config(&out);
    assert!(text.starts_with("{\n  \"inbounds\": [\n    "));
    assert!(text.ends_with("\n  ]\n}"));
    assert_eq!(text, pretty_of(body));
}

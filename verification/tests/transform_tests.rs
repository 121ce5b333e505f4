use subconv::errors::Error;
use subconv::subscription::decode_subscription;
use subconv::subscription::subscription_from_response;
use subconv::transform::transform;

#[test]
fn non_success_status_is_a_fetch_error() {
    assert!(matches!(
        subscription_from_response(404, "{}"),
        Err(Error::FetchError(404))
    ));
}

#[test]
fn success_status_hands_the_body_on() {
    assert!(subscription_from_response(200, "{\"inbounds\": []}").is_ok());
}

#[test]
fn body_that_is_not_json_is_malformed() {
    assert!(matches!(
        subscription_from_response(200, "not json"),
        Err(Error::MalformedSubscription)
    ));
}

#[test]
fn body_that_is_not_an_object_is_malformed() {
    assert!(matches!(
        subscription_from_response(200, "[1, 2, 3]"),
        Err(Error::MalformedSubscription)
    ));
}

#[test]
fn document_without_inbounds_is_refused() {
    let doc = decode_subscription("{\"log\": {\"level\": \"info\"}}").unwrap();
    assert!(matches!(transform(doc), Err(Error::MissingInbounds)));
}

#[test]
fn empty_document_is_refused() {
    let doc = decode_subscription("{}").unwrap();
    assert!(matches!(transform(doc), Err(Error::MissingInbounds)));
}

#[test]
fn inbounds_that_is_not_an_array_is_malformed() {
    assert!(matches!(
        decode_subscription("{\"inbounds\": 5}"),
        Err(Error::MalformedInbound)
    ));
}

#[test]
fn inbound_entry_that_is_not_an_object_is_malformed() {
    assert!(matches!(
        decode_subscription("{\"inbounds\": [7]}"),
        Err(Error::MalformedInbound)
    ));
}

#[test]
fn inbound_type_that_is_not_a_string_is_malformed() {
    assert!(matches!(
        decode_subscription("{\"inbounds\": [{\"type\": 9}]}"),
        Err(Error::MalformedInbound)
    ));
}

#[test]
fn mixed_inbound_without_listen_is_malformed() {
    let doc = decode_subscription("{\"inbounds\": [{\"type\": \"mixed\", \"listen_port\": 7890}]}")
        .unwrap();
    assert!(matches!(transform(doc), Err(Error::MalformedInbound)));
}

#[test]
fn mixed_inbound_without_port_is_malformed() {
    let doc =
        decode_subscription("{\"inbounds\": [{\"type\": \"mixed\", \"listen\": \"::\"}]}").unwrap();
    assert!(matches!(transform(doc), Err(Error::MalformedInbound)));
}

#[test]
fn single_mixed_inbound_is_kept_and_recorded() {
    let body = "{\"inbounds\": [\
        {\"type\": \"direct\", \"tag\": \"d\"}, \
        {\"type\": \"mixed\", \"listen\": \"127.0.0.1\", \"listen_port\": 7890}, \
        {\"type\": \"tun\"}]}";
    let doc = decode_subscription(body).unwrap();
    let (out, ctrl) = transform(doc).unwrap();
    let kept = out.inbounds.as_ref().unwrap();
    assert_eq!(kept.len(), 1);
    assert_eq!(kept[0].kind.as_deref(), Some("mixed"));
    assert_eq!(ctrl.address, "127.0.0.1");
    assert_eq!(ctrl.port, "7890");
}

#[test]
fn no_mixed_inbound_gives_empty_output_and_default_controller() {
    let body = "{\"inbounds\": [{\"type\": \"direct\"}, {\"type\": \"tun\"}]}";
    let doc = decode_subscription(body).unwrap();
    let (out, ctrl) = transform(doc).unwrap();
    assert_eq!(out.inbounds.as_ref().unwrap().len(), 0);
    assert_eq!(ctrl.address, "");
    assert_eq!(ctrl.port, "");
}

#[test]
fn last_mixed_inbound_wins_for_the_controller() {
    let body = "{\"inbounds\": [\
        {\"type\": \"mixed\", \"listen\": \"127.0.0.1\", \"listen_port\": 7890}, \
        {\"type\": \"mixed\", \"listen\": \"0.0.0.0\", \"listen_port\": 1080}]}";
    let doc = decode_subscription(body).unwrap();
    let (out, ctrl) = transform(doc).unwrap();
    assert_eq!(out.inbounds.as_ref().unwrap().len(), 2);
    assert_eq!(ctrl.address, "0.0.0.0");
    assert_eq!(ctrl.port, "1080");
}

#[test]
fn string_listen_port_keeps_its_quotes() {
    let body = "{\"inbounds\": [\
        {\"type\": \"mixed\", \"listen\": \"::\", \"listen_port\": \"7890\"}]}";
    let doc = decode_subscription(body).unwrap();
    let (_, ctrl) = transform(doc).unwrap();
    assert_eq!(ctrl.port, "\"7890\"");
}

#[test]
fn other_top_level_keys_survive_the_transform() {
    let body = "{\"dns\": {\"servers\": []}, \"inbounds\": [], \"log\": true}";
    let doc = decode_subscription(body).unwrap();
    let (out, _) = transform(doc).unwrap();
    assert_eq!(out.before.len(), 1);
    assert_eq!(out.before[0].0, "dns");
    assert_eq!(out.after.len(), 1);
    assert_eq!(out.after[0].0, "log");
}

#[test]
fn inbound_without_type_is_decoded_quietly() {
    let v: serde_json::Value = serde_json::from_str("{\"listen\": \"a\"}").unwrap();
    let e = subconv::subscription::decode_inbound(v).unwrap();
    assert_eq!(e.kind, None);
    assert_eq!(e.listen.as_deref(), Some("a"));
    assert_eq!(e.port_text, None);
}

#[test]
fn inbound_fields_are_decoded_faithfully() {
    let v: serde_json::Value =
        serde_json::from_str("{\"type\": \"mixed\", \"listen\": \"::\", \"listen_port\": 7890}")
            .unwrap();
    let e = subconv::subscription::decode_inbound(v).unwrap();
    assert_eq!(e.kind.as_deref(), Some("mixed"));
    assert_eq!(e.listen.as_deref(), Some("::"));
    assert_eq!(e.port_text.as_deref(), Some("7890"));
}

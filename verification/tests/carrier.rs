use load_balance::carrier::MetadataMap;
use tonic::metadata::MetadataMap as GrpcMetadata;

const TRACEPARENT: &str = "00-0af7651916cd43dd8448eb211c80319c-b7ad6b7169203331-01";

#[test]
fn set_then_get_reads_back_the_value() {
    let mut inner = GrpcMetadata::new();
    let mut carrier = MetadataMap(&mut inner);
    carrier.set("traceparent", TRACEPARENT.to_string());
    assert_eq!(carrier.get("traceparent"), Some(TRACEPARENT));
    assert_eq!(carrier.get("tracestate"), None);
}

#[test]
fn set_normalizes_the_key() {
    let mut inner = GrpcMetadata::new();
    let mut carrier = MetadataMap(&mut inner);
    carrier.set("TraceParent", TRACEPARENT.to_string());
    assert_eq!(carrier.get("traceparent"), Some(TRACEPARENT));
    assert_eq!(carrier.get("TRACEPARENT"), Some(TRACEPARENT));
    assert_eq!(carrier.keys(), vec!["traceparent"]);
    assert_eq!(inner.get("traceparent").unwrap().to_str().unwrap(), TRACEPARENT);
}

#[test]
fn set_ignores_an_invalid_key() {
    let mut inner = GrpcMetadata::new();
    let mut carrier = MetadataMap(&mut inner);
    carrier.set("not a key", "value".to_string());
    carrier.set("", "value".to_string());
    assert!(carrier.keys().is_empty());
    assert!(inner.is_empty());
}

#[test]
fn set_ignores_an_invalid_value() {
    let mut inner = GrpcMetadata::new();
    let mut carrier = MetadataMap(&mut inner);
    carrier.set("tracestate", "line\nbreak".to_string());
    carrier.set("baggage", "del\u{7f}".to_string());
    assert!(carrier.keys().is_empty());
    assert_eq!(carrier.get("tracestate"), None);
}

#[test]
fn later_set_replaces_earlier_value() {
    let mut inner = GrpcMetadata::new();
    inner.append("tracestate", "a=1".parse().unwrap());
    inner.append("tracestate", "b=2".parse().unwrap());
    let mut carrier = MetadataMap(&mut inner);
    assert_eq!(carrier.get("tracestate"), Some("a=1"));
    carrier.set("tracestate", "c=3".to_string());
    carrier.set("tracestate", "d=4".to_string());
    assert_eq!(carrier.get("tracestate"), Some("d=4"));
    assert_eq!(inner.get_all("tracestate").iter().count(), 1);
}

#[test]
fn set_leaves_other_keys_alone() {
    let mut inner = GrpcMetadata::new();
    let mut carrier = MetadataMap(&mut inner);
    carrier.set("traceparent", TRACEPARENT.to_string());
    carrier.set("tracestate", "congo=t61rcWkgMzE".to_string());
    assert_eq!(carrier.get("traceparent"), Some(TRACEPARENT));
    assert_eq!(carrier.get("tracestate"), Some("congo=t61rcWkgMzE"));
    let mut keys = carrier.keys();
    keys.sort();
    assert_eq!(keys, vec!["traceparent", "tracestate"]);
}

#[test]
fn get_refuses_values_that_are_not_visible_ascii() {
    let mut inner = GrpcMetadata::new();
    let mut carrier = MetadataMap(&mut inner);
    carrier.set("baggage", "caf\u{e9}".to_string());
    assert_eq!(carrier.keys(), vec!["baggage"]);
    assert_eq!(carrier.get("baggage"), None);
    carrier.set("baggage", "tab\there".to_string());
    assert_eq!(carrier.get("baggage"), Some("tab\there"));
}

#[test]
fn get_does_not_read_binary_keys() {
    let mut inner = GrpcMetadata::new();
    inner.insert_bin("trace-proto-bin", tonic::metadata::MetadataValue::from_bytes(b"abc"));
    let carrier = MetadataMap(&mut inner);
    assert_eq!(carrier.get("trace-proto-bin"), None);
    assert_eq!(carrier.keys(), vec!["trace-proto-bin"]);
    assert_eq!(carrier.get("not a key"), None);
}

#[test]
fn set_ignores_binary_keys() {
    let mut inner = GrpcMetadata::new();
    let mut carrier = MetadataMap(&mut inner);
    carrier.set("bad key", "v".to_string());
    carrier.set("trace-bin", "v".to_string());
    carrier.set("Trace-Proto-BIN", "v".to_string());
    carrier.set("k", "a\nb".to_string());
    assert!(carrier.keys().is_empty());
    assert!(inner.is_empty());
}

#[test]
fn key_count_counts_keys_once() {
    let mut inner = GrpcMetadata::new();
    inner.append("x-word", "hello".parse().unwrap());
    inner.append("x-word", "goodbye".parse().unwrap());
    let mut carrier = MetadataMap(&mut inner);
    assert_eq!(carrier.key_count(), 1);
    carrier.set("traceparent", TRACEPARENT.to_string());
    assert_eq!(carrier.key_count(), 2);
    carrier.set("traceparent", "other".to_string());
    assert_eq!(carrier.key_count(), 2);
}

#[test]
fn set_under_many_keys_stays_below_the_limit() {
    let mut inner = GrpcMetadata::new();
    let mut carrier = MetadataMap(&mut inner);
    for i in 0..load_balance::grpc::METADATA_KEY_LIMIT {
        carrier.set(&format!("k{}", i), "v".to_string());
    }
    assert_eq!(carrier.key_count(), load_balance::grpc::METADATA_KEY_LIMIT);
    assert_eq!(carrier.get("k0"), Some("v"));
}

#[test]
fn keys_list_each_key_once() {
    let mut inner = GrpcMetadata::new();
    inner.append("x-word", "hello".parse().unwrap());
    inner.append("x-word", "goodbye".parse().unwrap());
    inner.insert("x-host", "example.com".parse().unwrap());
    let carrier = MetadataMap(&mut inner);
    let mut keys = carrier.keys();
    keys.sort();
    assert_eq!(keys, vec!["x-host", "x-word"]);
    for key in keys {
        assert!(carrier.get(key).is_some());
    }
}

#[test]
fn long_keys_are_looked_up_by_their_image() {
    const LONG: &str =
        "x-a-long-key-with a space-that-http-does-not-check-past-sixty-four-bytes";
    let mut headers = http::HeaderMap::new();
    headers.insert(LONG, http::HeaderValue::from_static("found"));
    let mut inner = GrpcMetadata::from_headers(headers);
    let carrier = MetadataMap(&mut inner);
    assert_eq!(carrier.get(LONG), Some("found"));
    let keys = carrier.keys();
    assert_eq!(keys.len(), 1);
    assert!(keys[0].contains('\0'));
}

#[test]
fn accepts_tells_which_writes_set_makes() {
    assert!(MetadataMap::accepts("traceparent", TRACEPARENT));
    assert!(MetadataMap::accepts("TraceParent", "x"));
    assert!(!MetadataMap::accepts("trace-bin", "x"));
    assert!(!MetadataMap::accepts("bad key", "x"));
    assert!(!MetadataMap::accepts("k", "a\nb"));
}

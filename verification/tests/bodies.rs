use quote_sidecar::handlers::attest_body;
use quote_sidecar::handlers::error_body;
use quote_sidecar::handlers::health_body;
use quote_sidecar::handlers::payload_bytes;
use quote_sidecar::handlers::quote_body;
use quote_sidecar::handlers::root_body;
use quote_sidecar::handlers::root_response;
use quote_sidecar::handlers::AttestOutcome;
use quote_sidecar::handlers::QuoteOutcome;
use quote_sidecar::handlers::QuoteParams;

fn parse(body: &str) -> serde_json::Value {
    serde_json::from_str(body).expect("body must be valid JSON")
}

#[test]
fn health_body_is_exact() {
    assert_eq!(health_body(), "{\"status\":\"ok\"}");
}

#[test]
fn root_body_is_exact() {
    let body = root_body("2024-01-01T00:00:00+00:00");
    assert_eq!(
        body,
        "{\"service\":\"dstack-quote-sidecar\",\"timestamp\":\"2024-01-01T00:00:00+00:00\"}"
    );
}

#[test]
fn root_body_has_service_field() {
    let v = parse(&root_body("2024-01-01T00:00:00+00:00"));
    let obj = v.as_object().unwrap();
    assert_eq!(obj.len(), 2);
    assert_eq!(obj.get("service").unwrap(), "dstack-quote-sidecar");
    assert_eq!(obj.get("timestamp").unwrap(), "2024-01-01T00:00:00+00:00");
}

#[test]
fn root_response_names_service_and_parses() {
    let v = parse(&root_response());
    let obj = v.as_object().unwrap();
    assert_eq!(obj.get("service").unwrap(), "dstack-quote-sidecar");
    let ts = obj.get("timestamp").unwrap().as_str().unwrap();
    assert!(!ts.is_empty());
}

#[test]
fn payload_defaults_to_hello_world() {
    let params = QuoteParams { data: None };
    assert_eq!(payload_bytes(&params), b"hello world".to_vec());
}

#[test]
fn payload_uses_data_verbatim() {
    let params = QuoteParams {
        data: Some("some payload".to_string()),
    };
    assert_eq!(payload_bytes(&params), b"some payload".to_vec());
}

#[test]
fn payload_encodes_utf8() {
    let params = QuoteParams {
        data: Some("h\u{e9}llo \u{2603}".to_string()),
    };
    assert_eq!(payload_bytes(&params), "h\u{e9}llo \u{2603}".as_bytes().to_vec());
}

#[test]
fn quote_failure_has_only_error_key() {
    let body = quote_body(&QuoteOutcome::Failed {
        message: "boom".to_string(),
    });
    assert_eq!(body, "{\"error\":\"Failed to get quote: boom\"}");
    let v = parse(&body);
    let obj = v.as_object().unwrap();
    assert_eq!(obj.len(), 1);
    assert_eq!(obj.get("error").unwrap(), "Failed to get quote: boom");
    assert!(obj.get("quote").is_none());
    assert!(obj.get("rtmrs").is_none());
}

#[test]
fn quote_replay_failure_has_only_error_key() {
    let body = quote_body(&QuoteOutcome::ReplayFailed {
        message: "bad log".to_string(),
    });
    let v = parse(&body);
    let obj = v.as_object().unwrap();
    assert_eq!(obj.len(), 1);
    assert_eq!(obj.get("error").unwrap(), "Failed to replay RTMRs: bad log");
    assert!(obj.get("quote").is_none());
    assert!(obj.get("rtmrs").is_none());
}

#[test]
fn quote_success_matches_reference_rendering() {
    let quote = "Quote { raw: \"ab\\cd\" }".to_string();
    let rtmrs = "Rtmrs [0, 1]\n".to_string();
    let body = quote_body(&QuoteOutcome::Replayed {
        quote: quote.clone(),
        rtmrs: rtmrs.clone(),
    });
    let mut reference = serde_json::Map::new();
    reference.insert("quote".to_string(), serde_json::Value::String(quote));
    reference.insert("rtmrs".to_string(), serde_json::Value::String(rtmrs));
    let reference = serde_json::to_string(&serde_json::Value::Object(reference)).unwrap();
    assert_eq!(body, reference);
}

#[test]
fn quote_success_round_trips() {
    let body = quote_body(&QuoteOutcome::Replayed {
        quote: "q\"uo\\te\u{1}".to_string(),
        rtmrs: "r\tt\u{1f}".to_string(),
    });
    let v = parse(&body);
    let obj = v.as_object().unwrap();
    assert_eq!(obj.len(), 2);
    assert_eq!(obj.get("quote").unwrap(), "q\"uo\\te\u{1}");
    assert_eq!(obj.get("rtmrs").unwrap(), "r\tt\u{1f}");
}

#[test]
fn attest_failure_has_only_error_key() {
    let body = attest_body(&AttestOutcome::Failed {
        message: "down".to_string(),
    });
    let v = parse(&body);
    let obj = v.as_object().unwrap();
    assert_eq!(obj.len(), 1);
    assert_eq!(obj.get("error").unwrap(), "Failed to attest: down");
}

#[test]
fn attest_success_frames_rendered_value() {
    let body = attest_body(&AttestOutcome::Attested {
        attestation: "\"0xabcd\"".to_string(),
    });
    assert_eq!(body, "{\"attestation\":\"0xabcd\"}");
    let v = parse(&body);
    let obj = v.as_object().unwrap();
    assert_eq!(obj.len(), 1);
    assert_eq!(obj.get("attestation").unwrap(), "0xabcd");
}

#[test]
fn attest_success_frames_structured_value() {
    let body = attest_body(&AttestOutcome::Attested {
        attestation: "{\"intel\":1}".to_string(),
    });
    let v = parse(&body);
    let inner = v.as_object().unwrap().get("attestation").unwrap();
    assert_eq!(inner.as_object().unwrap().get("intel").unwrap(), 1);
}

#[test]
fn error_body_matches_reference_rendering() {
    let message = "a \"strange\" \\ message\r\n\u{7} end";
    let body = error_body(message);
    let mut reference = serde_json::Map::new();
    reference.insert(
        "error".to_string(),
        serde_json::Value::String(message.to_string()),
    );
    let reference = serde_json::to_string(&serde_json::Value::Object(reference)).unwrap();
    assert_eq!(body, reference);
}

#[test]
fn error_body_escapes_every_control_character() {
    for code in 0u32..32u32 {
        let c = char::from_u32(code).unwrap();
        let message = format!("a{}b", c);
        let body = error_body(&message);
        let mut reference = serde_json::Map::new();
        reference.insert(
            "error".to_string(),
            serde_json::Value::String(message.clone()),
        );
        let reference = serde_json::to_string(&serde_json::Value::Object(reference)).unwrap();
        assert_eq!(body, reference);
        let v = parse(&body);
        assert_eq!(v.as_object().unwrap().get("error").unwrap(), &message);
    }
}

#[test]
fn root_body_matches_reference_rendering() {
    let timestamp = "2024-06-30T23:59:60.123+00:00";
    let mut reference = serde_json::Map::new();
    reference.insert(
        "service".to_string(),
        serde_json::Value::String("dstack-quote-sidecar".to_string()),
    );
    reference.insert(
        "timestamp".to_string(),
        serde_json::Value::String(timestamp.to_string()),
    );
    let reference = serde_json::to_string(&serde_json::Value::Object(reference)).unwrap();
    assert_eq!(root_body(timestamp), reference);
}

#[test]
fn error_body_round_trips_unicode() {
    let message = "caf\u{e9} \u{2603} \u{0}";
    let v = parse(&error_body(message));
    assert_eq!(v.as_object().unwrap().get("error").unwrap(), message);
}

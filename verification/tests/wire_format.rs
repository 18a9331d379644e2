use credits::{encode_envelope, interpret_execute_response, parse_envelope, CreditsError};

fn func_payload() -> Vec<u8> {
    br#"{"requests":[{"nonce":"1"}],"transitions":["a"]}"#.to_vec()
}

fn fee_payload() -> Vec<u8> {
    br#"{"requests":[{"nonce":"2, with \"escapes\" and }"}]}"#.to_vec()
}

#[test]
fn envelope_round_trip_with_fee() {
    let wire = encode_envelope(&func_payload(), &Some(fee_payload()), true);
    let (f, fee, broadcast) = parse_envelope(&wire).unwrap();
    assert_eq!(f, func_payload());
    assert_eq!(fee, Some(fee_payload()));
    assert!(broadcast);
}

#[test]
fn envelope_round_trip_without_fee() {
    let wire = encode_envelope(&func_payload(), &None, false);
    let (f, fee, broadcast) = parse_envelope(&wire).unwrap();
    assert_eq!(f, func_payload());
    assert_eq!(fee, None);
    assert!(!broadcast);
}

#[test]
fn envelope_without_fee_has_no_fee_key() {
    let wire = encode_envelope(&func_payload(), &None, true);
    let text = String::from_utf8(wire).unwrap();
    assert!(!text.contains("\"fee\""));
    assert_eq!(
        text,
        r#"{"function":{"requests":[{"nonce":"1"}],"transitions":["a"]},"broadcast":true}"#
    );
}

#[test]
fn envelope_with_fee_is_canonical() {
    let wire = encode_envelope(&b"{}".to_vec(), &Some(b"[1]".to_vec()), false);
    assert_eq!(
        String::from_utf8(wire).unwrap(),
        r#"{"function":{},"fee":[1],"broadcast":false}"#
    );
}

#[test]
fn parse_tolerates_null_fee() {
    let wire = br#"{"function":{},"fee":null,"broadcast":true}"#;
    let (f, fee, broadcast) = parse_envelope(wire).unwrap();
    assert_eq!(f, b"{}".to_vec());
    assert_eq!(fee, None);
    assert!(broadcast);
}

#[test]
fn parse_accepts_any_field_order() {
    let wire = br#"{"broadcast":false,"fee":{"a":1},"function":{"b":2}}"#;
    let (f, fee, broadcast) = parse_envelope(wire).unwrap();
    assert_eq!(f, br#"{"b":2}"#.to_vec());
    assert_eq!(fee, Some(br#"{"a":1}"#.to_vec()));
    assert!(!broadcast);
}

#[test]
fn parse_accepts_whitespace() {
    let wire = b" {\n\t\"function\" : { } ,\r\n \"broadcast\" : true } ";
    let (f, fee, broadcast) = parse_envelope(wire).unwrap();
    assert_eq!(f, b"{ }".to_vec());
    assert_eq!(fee, None);
    assert!(broadcast);
}

#[test]
fn parse_ignores_unknown_fields() {
    let wire = br#"{"function":{},"extra":[1,2,{"x":"}"}],"broadcast":true}"#;
    let (f, fee, broadcast) = parse_envelope(wire).unwrap();
    assert_eq!(f, b"{}".to_vec());
    assert_eq!(fee, None);
    assert!(broadcast);
}

#[test]
fn parse_keeps_last_duplicate() {
    let wire = br#"{"broadcast":false,"function":{},"broadcast":true}"#;
    let (_, _, broadcast) = parse_envelope(wire).unwrap();
    assert!(broadcast);
}

#[test]
fn parse_rejects_missing_function() {
    let r = parse_envelope(br#"{"broadcast":true}"#);
    assert!(matches!(r, Err(CreditsError::SerializationError(_))));
}

#[test]
fn parse_rejects_missing_broadcast() {
    let r = parse_envelope(br#"{"function":{}}"#);
    assert!(matches!(r, Err(CreditsError::SerializationError(_))));
}

#[test]
fn parse_rejects_non_boolean_broadcast() {
    let r = parse_envelope(br#"{"function":{},"broadcast":1}"#);
    assert!(matches!(r, Err(CreditsError::SerializationError(_))));
    let r = parse_envelope(br#"{"function":{},"broadcast":"true"}"#);
    assert!(matches!(r, Err(CreditsError::SerializationError(_))));
}

#[test]
fn parse_rejects_non_object() {
    assert!(parse_envelope(b"[]").is_err());
    assert!(parse_envelope(b"").is_err());
    assert!(parse_envelope(b"true").is_err());
}

#[test]
fn parse_rejects_trailing_bytes() {
    let r = parse_envelope(br#"{"function":{},"broadcast":true} x"#);
    assert!(matches!(r, Err(CreditsError::SerializationError(_))));
}

#[test]
fn parse_rejects_unclosed_object() {
    let r = parse_envelope(br#"{"function":{},"broadcast":true"#);
    assert!(matches!(r, Err(CreditsError::SerializationError(_))));
}

#[test]
fn rejected_response_carries_body() {
    let r = interpret_execute_response(false, b"insufficient balance");
    match r {
        Err(CreditsError::ExecutionRejected(text)) => {
            assert_eq!(text, "insufficient balance");
        }
        _ => panic!("expected an ExecutionRejected error"),
    }
}

#[test]
fn unreadable_success_body_is_transport_failure() {
    let r = interpret_execute_response(true, b"not a transaction");
    assert!(matches!(r, Err(CreditsError::TransportFailed(_))));
}

#[test]
fn well_formed_envelope_with_bad_payload_is_rejected() {
    let r = credits::Authorized::from_wire_bytes(br#"{"function":{},"broadcast":true}"#);
    assert!(matches!(r, Err(CreditsError::SerializationError(_))));
}

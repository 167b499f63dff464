use ed25519_dalek::Verifier;
use funding_bot::execution::{Ed25519Signer, Signer, SignerError};
use funding_bot::json::{to_json_string, JsonMap, JsonValue};
use funding_bot::pacifica_sign::{
    build_request_body, prepare_message, sign_message, signed_pair, sort_json_keys, CancelOrderPayload,
    LimitOrderPayload, MarketOrderPayload, PacificaHeader,
};

fn obj(members: Vec<(&str, JsonValue)>) -> JsonValue {
    let mut m = JsonMap::new();
    for (k, v) in members {
        m.insert(k.to_string(), v);
    }
    JsonValue::Object(m)
}

fn s(x: &str) -> JsonValue {
    JsonValue::Str(x.to_string())
}

fn n(x: u64) -> JsonValue {
    JsonValue::UInt(x)
}

fn market(symbol: &str, reduce_only: bool, amount: &str, side: &str, slip: &str, cid: &str) -> MarketOrderPayload {
    MarketOrderPayload {
        symbol: symbol.into(),
        reduce_only,
        amount: amount.into(),
        side: side.into(),
        slippage_percent: slip.into(),
        client_order_id: cid.into(),
    }
}

#[test]
fn sort_json_keys_alphabetizes_recursively() {
    let v = obj(vec![
        ("b", n(1)),
        ("a", obj(vec![("z", n(2)), ("y", n(1))])),
        ("c", JsonValue::Array(vec![obj(vec![("b", n(2)), ("a", n(1))])])),
    ]);
    let sorted = sort_json_keys(v);
    let out = to_json_string(&sorted);
    assert_eq!(out, r#"{"a":{"y":1,"z":2},"b":1,"c":[{"a":1,"b":2}]}"#);
}

#[test]
fn prepare_message_rejects_missing_header_fields() {
    let bad = obj(vec![("type", s("x")), ("timestamp", JsonValue::Int(0))]);
    let payload = obj(vec![]);
    let result = prepare_message(&bad, &payload);
    assert!(result.is_err());
}

#[test]
fn prepare_message_matches_python_shape_for_limit_order() {
    let header = PacificaHeader::new("create_order", 1_700_000_000_000, 5_000);
    let payload = LimitOrderPayload {
        symbol: "BTC".into(),
        price: "100000".into(),
        reduce_only: false,
        amount: "0.1".into(),
        side: "bid".into(),
        tif: "GTC".into(),
        client_order_id: "abc-123".into(),
    };
    let message = prepare_message(&header.to_json(), &payload.to_json()).unwrap();
    let expected = [
        r#"{"data":{"#,
        r#""amount":"0.1","client_order_id":"abc-123","price":"100000","reduce_only":false,"side":"bid","symbol":"BTC","tif":"GTC""#,
        r#"},"expiry_window":5000,"timestamp":1700000000000,"type":"create_order"}"#,
    ]
    .concat();
    assert_eq!(message, expected);
}

#[test]
fn prepare_message_matches_python_shape_for_market_order() {
    let header = PacificaHeader::new("create_market_order", 1_700_000_000_000, 5_000);
    let payload = market("BTC", false, "0.1", "bid", "0.5", "abc-123");
    let message = prepare_message(&header.to_json(), &payload.to_json()).unwrap();
    let expected = [
        r#"{"data":{"#,
        r#""amount":"0.1","client_order_id":"abc-123","reduce_only":false,"side":"bid","slippage_percent":"0.5","symbol":"BTC""#,
        r#"},"expiry_window":5000,"timestamp":1700000000000,"type":"create_market_order"}"#,
    ]
    .concat();
    assert_eq!(message, expected);
}

#[test]
fn sign_message_produces_64_byte_base58_signature() {
    let signer = Ed25519Signer::generate_for_test();
    let header = PacificaHeader::new("create_order", 1, 5000);
    let payload = market("BTC", false, "0.1", "bid", "0.5", "x");
    let (msg, sig_b58) = sign_message(&header.to_json(), &payload.to_json(), &signer).unwrap();
    let sig_bytes = bs58::decode(&sig_b58).into_vec().unwrap();
    assert_eq!(sig_bytes.len(), 64);
    let pk: [u8; 32] = signer.public_key().try_into().unwrap();
    let vk = ed25519_dalek::VerifyingKey::from_bytes(&pk).unwrap();
    let sig: [u8; 64] = sig_bytes.try_into().unwrap();
    let sig_obj = ed25519_dalek::Signature::from_bytes(&sig);
    assert!(vk.verify(msg.as_bytes(), &sig_obj).is_ok());
}

#[test]
fn build_request_body_flattens_payload() {
    let header = PacificaHeader::new("create_order", 42, 5000);
    let payload = market("ETH", true, "1", "ask", "0.1", "cid");
    let body = build_request_body("PUBKEY_B58", "SIG_B58", &header, &payload.to_json()).unwrap();
    assert_eq!(body.get("account"), Some(&s("PUBKEY_B58")));
    assert_eq!(body.get("signature"), Some(&s("SIG_B58")));
    assert_eq!(body.get("timestamp"), Some(&JsonValue::Int(42)));
    assert_eq!(body.get("expiry_window"), Some(&JsonValue::Int(5000)));
    assert_eq!(body.get("symbol"), Some(&s("ETH")));
    assert_eq!(body.get("side"), Some(&s("ask")));
    assert_eq!(body.get("amount"), Some(&s("1")));
    assert!(body.get("data").is_none());
}

#[test]
fn sort_matches_python_nested_case() {
    let v = obj(vec![
        ("z", obj(vec![("c", n(3)), ("a", n(1)), ("b", n(2))])),
        ("a", JsonValue::Array(vec![n(1), n(2), n(3)])),
        ("m", obj(vec![("nested", obj(vec![("y", n(1)), ("x", n(2))]))])),
    ]);
    let sorted = sort_json_keys(v);
    let out = to_json_string(&sorted);
    assert_eq!(out, r#"{"a":[1,2,3],"m":{"nested":{"x":2,"y":1}},"z":{"a":1,"b":2,"c":3}}"#);
}

#[test]
fn prepare_message_reports_first_missing_field() {
    let payload = obj(vec![]);
    let no_type = obj(vec![("timestamp", n(1))]);
    assert_eq!(
        prepare_message(&no_type, &payload),
        Err(SignerError::SigningFailed("header missing required field `type`".to_string()))
    );
    let no_window = obj(vec![("type", s("t")), ("timestamp", n(1))]);
    assert_eq!(
        prepare_message(&no_window, &payload),
        Err(SignerError::SigningFailed("header missing required field `expiry_window`".to_string()))
    );
    assert_eq!(
        prepare_message(&s("not an object"), &payload),
        Err(SignerError::SigningFailed("header must serialize to a JSON object".to_string()))
    );
}

#[test]
fn data_member_of_header_is_replaced() {
    let header = obj(vec![
        ("type", s("t")),
        ("timestamp", n(1)),
        ("expiry_window", n(2)),
        ("data", s("old")),
    ]);
    let msg = prepare_message(&header, &obj(vec![("k", JsonValue::Bool(true))])).unwrap();
    assert_eq!(msg, r#"{"data":{"k":true},"expiry_window":2,"timestamp":1,"type":"t"}"#);
}

#[test]
fn strings_are_escaped_like_serde_json() {
    let v = obj(vec![("q", s("a\"b\\c\n\t\u{1}\u{1f}é/"))]);
    let out = to_json_string(&v);
    let mut reference = serde_json::Map::new();
    reference.insert("q".to_string(), serde_json::Value::String("a\"b\\c\n\t\u{1}\u{1f}é/".to_string()));
    assert_eq!(out, serde_json::to_string(&serde_json::Value::Object(reference)).unwrap());
}

#[test]
fn cancel_payload_leaves_out_absent_ids() {
    let c = CancelOrderPayload { symbol: "BTC".into(), order_id: None, client_order_id: Some("c1".into()) };
    assert_eq!(to_json_string(&c.to_json()), r#"{"client_order_id":"c1","symbol":"BTC"}"#);
    let c = CancelOrderPayload { symbol: "BTC".into(), order_id: Some(7), client_order_id: None };
    assert_eq!(to_json_string(&c.to_json()), r#"{"order_id":7,"symbol":"BTC"}"#);
}

#[test]
fn payload_that_is_not_an_object_is_refused() {
    let header = PacificaHeader::new("create_order", 42, 5000);
    assert_eq!(
        build_request_body("A", "S", &header, &JsonValue::Null),
        Err(SignerError::SigningFailed("payload must serialize to a JSON object".to_string()))
    );
}

#[test]
fn base58_signature_matches_bs58_of_signature_bytes() {
    let signer = Ed25519Signer::from_seed(&[5u8; 32], "k".to_string()).unwrap();
    let header = PacificaHeader::new("create_order", 9, 5000);
    let payload = market("SOL", false, "2", "bid", "1", "id");
    let (msg, sig) = sign_message(&header.to_json(), &payload.to_json(), &signer).unwrap();
    let raw = signer.sign(msg.as_bytes()).unwrap();
    assert_eq!(sig, bs58::encode(raw).into_string());
}

#[test]
fn signed_pair_encodes_signature_in_base58() {
    let r = signed_pair("m".to_string(), Ok(vec![0, 0, 1])).unwrap();
    assert_eq!(r, ("m".to_string(), "112".to_string()));
    let r = signed_pair("msg".to_string(), Ok(vec![255])).unwrap();
    assert_eq!(r.1, "5Q");
    let r = signed_pair("msg".to_string(), Ok(vec![])).unwrap();
    assert_eq!(r.1, "");
}

#[test]
fn signed_pair_passes_signer_error_through() {
    assert_eq!(signed_pair("m".to_string(), Err(SignerError::MissingKey)), Err(SignerError::MissingKey));
    assert_eq!(
        signed_pair("m".to_string(), Err(SignerError::SigningFailed("hw".to_string()))),
        Err(SignerError::SigningFailed("hw".to_string()))
    );
}

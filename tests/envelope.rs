use serde_json::Value;
use ui_host_runtime::document::get_member;
use ui_host_runtime::envelope::capabilities;
use ui_host_runtime::{
    decode_elixir_document, decode_ui_document, intent_envelope, ready_envelope,
    ui_envelope_document, DecodeError, ElixirEnvelope, Json, JsonNumber, PatchOp, UiEnvelope,
};

fn to_json(v: &Value) -> Json {
    match v {
        Value::Null => Json::Null,
        Value::Bool(b) => Json::Bool(*b),
        Value::Number(n) => match (n.as_u64(), n.as_i64()) {
            (Some(u), _) => Json::Number(JsonNumber::Unsigned(u)),
            (None, Some(i)) => Json::Number(JsonNumber::Negative(i)),
            (None, None) => Json::Number(JsonNumber::Decimal(n.to_string())),
        },
        Value::String(s) => Json::Str(s.clone()),
        Value::Array(items) => Json::Array(items.iter().map(to_json).collect()),
        Value::Object(map) => {
            Json::Object(map.iter().map(|(k, v)| (k.clone(), to_json(v))).collect())
        }
    }
}

fn to_value(j: &Json) -> Value {
    match j {
        Json::Null => Value::Null,
        Json::Bool(b) => Value::Bool(*b),
        Json::Number(JsonNumber::Unsigned(u)) => Value::from(*u),
        Json::Number(JsonNumber::Negative(i)) => Value::from(*i),
        Json::Number(JsonNumber::Decimal(t)) => Value::Number(t.parse().unwrap()),
        Json::Str(s) => Value::String(s.clone()),
        Json::Array(items) => Value::Array(items.iter().map(to_value).collect()),
        Json::Object(members) => Value::Object(
            members.iter().map(|(k, v)| (k.clone(), to_value(v))).collect(),
        ),
    }
}

fn decode_elixir_envelope(payload: &[u8]) -> Result<ElixirEnvelope, DecodeError> {
    let value: Value = serde_json::from_slice(payload).map_err(|_| DecodeError::InvalidField)?;
    decode_elixir_document(&to_json(&value))
}

fn encode_ui_envelope(envelope: &UiEnvelope) -> Vec<u8> {
    serde_json::to_vec(&to_value(&ui_envelope_document(envelope))).unwrap()
}

fn s(text: &str) -> Json {
    Json::Str(text.to_string())
}

fn obj(members: Vec<(&str, Json)>) -> Json {
    Json::Object(members.into_iter().map(|(k, v)| (k.to_string(), v)).collect())
}

#[test]
fn decodes_patch_envelope() {
    let payload = br#"{"t":"patch","sid":"S1","rev":2,"ops":[{"op":"replace","path":"/any_field","value":"value-1"}]}"#;
    let decoded = decode_elixir_envelope(payload).expect("decode patch");

    match decoded {
        ElixirEnvelope::Patch { sid, rev, ops, .. } => {
            assert_eq!(sid, "S1");
            assert_eq!(rev, 2);
            assert_eq!(ops.len(), 1);
        }
        other => panic!("expected patch, got {other:?}"),
    }
}

#[test]
fn decodes_render_with_arbitrary_vm() {
    let payload = br#"{"t":"render","sid":"S1","rev":1,"vm":{"hello":"world","count":2,"items":["a","b"]}}"#;
    let decoded = decode_elixir_envelope(payload).expect("decode render");

    match decoded {
        ElixirEnvelope::Render { sid, rev, vm } => {
            assert_eq!(sid, "S1");
            assert_eq!(rev, 1);
            assert_eq!(get_member(&vm, "hello"), Some(&s("world")));
            assert_eq!(get_member(&vm, "count"), Some(&Json::Number(JsonNumber::Unsigned(2))));
            match get_member(&vm, "items") {
                Some(Json::Array(items)) => assert_eq!(items[1], s("b")),
                other => panic!("expected items, got {other:?}"),
            }
        }
        other => panic!("expected render, got {other:?}"),
    }
}

#[test]
fn encodes_intent_envelope() {
    let encoded = encode_ui_envelope(&intent_envelope(
        "S1".to_string(),
        7,
        "ui.route.navigate",
        obj(vec![("to", s("devices")), ("params", obj(vec![]))]),
    ));

    let value: Value = serde_json::from_slice(&encoded).expect("parse encoded json");
    assert_eq!(value["t"], "intent");
    assert_eq!(value["sid"], "S1");
    assert_eq!(value["id"], 7);
    assert_eq!(value["name"], "ui.route.navigate");
}

#[test]
fn decoded_patch_op_has_its_fields() {
    let payload = br#"{"t":"patch","sid":"S1","rev":2,"ack":4,"ops":[{"op":"replace","path":"/any_field","value":"value-1"}]}"#;
    let decoded = decode_elixir_envelope(payload).unwrap();
    assert_eq!(
        decoded,
        ElixirEnvelope::Patch {
            sid: "S1".to_string(),
            rev: 2,
            ack: Some(4),
            ops: vec![PatchOp::Replace { path: "/any_field".to_string(), value: s("value-1") }],
        }
    );
}

#[test]
fn absent_or_null_optionals_are_unset() {
    let patch = decode_elixir_envelope(br#"{"t":"patch","sid":"S","rev":3,"ack":null,"ops":[]}"#);
    assert_eq!(
        patch,
        Ok(ElixirEnvelope::Patch { sid: "S".to_string(), rev: 3, ack: None, ops: vec![] })
    );
    let error = decode_elixir_envelope(br#"{"t":"error","sid":"S","code":"rev_mismatch","message":"m"}"#);
    assert_eq!(
        error,
        Ok(ElixirEnvelope::Error {
            sid: "S".to_string(),
            rev: None,
            code: "rev_mismatch".to_string(),
            message: "m".to_string(),
        })
    );
    let error_rev = decode_elixir_envelope(br#"{"t":"error","sid":"S","rev":9,"code":"c","message":"m"}"#);
    match error_rev {
        Ok(ElixirEnvelope::Error { rev, .. }) => assert_eq!(rev, Some(9)),
        other => panic!("expected error, got {other:?}"),
    }
}

#[test]
fn unknown_or_missing_tags_are_refused() {
    assert_eq!(
        decode_elixir_envelope(br#"{"t":"ready","sid":"S1"}"#),
        Err(DecodeError::UnknownTag)
    );
    assert_eq!(decode_elixir_envelope(br#"{"sid":"S1"}"#), Err(DecodeError::MissingTag));
    assert_eq!(decode_elixir_envelope(br#"[1,2]"#), Err(DecodeError::MissingTag));
    assert_eq!(
        decode_elixir_envelope(br#"{"t":"patch","sid":"S","rev":1,"ops":[{"op":"move","path":"/a"}]}"#),
        Err(DecodeError::UnknownTag)
    );
}

#[test]
fn fields_of_wrong_type_are_refused() {
    assert!(decode_elixir_envelope(br#"{"t":"render","sid":"S","rev":-1,"vm":{}}"#).is_err());
    assert!(decode_elixir_envelope(br#"{"t":"render","sid":"S","rev":1.5,"vm":{}}"#).is_err());
    assert!(decode_elixir_envelope(br#"{"t":"render","sid":1,"rev":1,"vm":{}}"#).is_err());
    assert!(decode_elixir_envelope(br#"{"t":"render","sid":"S","rev":1}"#).is_err());
    assert!(decode_elixir_envelope(br#"{"t":"patch","sid":"S","rev":1,"ack":"x","ops":[]}"#).is_err());
    assert!(decode_elixir_envelope(br#"{"t":"patch","sid":"S","rev":1,"ops":{}}"#).is_err());
    assert!(decode_elixir_envelope(br#"{"t":"patch","sid":"S","rev":1,"ops":[{"op":"add","path":"/a"}]}"#).is_err());
}

#[test]
fn ready_carries_fixed_capabilities() {
    let doc = ui_envelope_document(&ready_envelope("S1".to_string()));
    assert_eq!(
        doc,
        obj(vec![
            ("t", s("ready")),
            ("sid", s("S1")),
            ("capabilities", obj(vec![("m1", Json::Bool(true)), ("transport", s("stdio-packet-4"))])),
        ])
    );
    assert_eq!(capabilities(), obj(vec![("m1", Json::Bool(true)), ("transport", s("stdio-packet-4"))]));
}

#[test]
fn outbound_envelopes_survive_encode_then_decode() {
    let ready = ready_envelope("S9".to_string());
    let back = decode_ui_document(&ui_envelope_document(&ready)).unwrap();
    assert_eq!(back, ready);
    let intent = intent_envelope("S1".to_string(), u64::MAX, "clock.pause", obj(vec![("arg", s("x"))]));
    let back = decode_ui_document(&ui_envelope_document(&intent)).unwrap();
    assert_eq!(back, intent);
    let through_bytes: Value = serde_json::from_slice(&encode_ui_envelope(&intent)).unwrap();
    assert_eq!(decode_ui_document(&to_json(&through_bytes)).unwrap(), intent);
}

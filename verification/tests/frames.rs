use spawn_core::json::{encode_string_array, push_byte_array, push_decimal, push_escaped};
use spawn_core::relay::{encode_terminal_output, encode_ws_message, relay_step, RelayAction, WsMessage};
use spawn_core::hub::{BroadcastHub, HUB_CAPACITY};

#[test]
fn test_terminal_output_frame_shape() {
    let bytes = encode_terminal_output("s1", &[104, 105]);
    assert_eq!(
        String::from_utf8(bytes).unwrap(),
        "{\"type\":\"TerminalOutput\",\"session_id\":\"s1\",\"data\":[104,105]}"
    );
}

#[test]
fn test_terminal_output_frame_empty_data() {
    let bytes = encode_terminal_output("shell", &[]);
    assert_eq!(
        String::from_utf8(bytes).unwrap(),
        "{\"type\":\"TerminalOutput\",\"session_id\":\"shell\",\"data\":[]}"
    );
}

#[test]
fn test_ping_frame_shape() {
    let bytes = encode_ws_message(&WsMessage::Ping);
    assert_eq!(String::from_utf8(bytes).unwrap(), "{\"type\":\"Ping\"}");
}

#[test]
fn test_frame_matches_reference_encoder() {
    // The hand-written frame must parse as the JSON object the relay
    // protocol promises, with the same escaping rules the reference
    // encoder applies.
    let id = "we\"ird\\id\nwith\u{1}ctl";
    let data: Vec<u8> = vec![0, 9, 255];
    let bytes = encode_ws_message(&WsMessage::TerminalOutput {
        session_id: id.to_string(),
        data: data.clone(),
    });
    let value: serde_json::Value = serde_json::from_slice(&bytes).unwrap();
    assert_eq!(value["type"], serde_json::Value::String("TerminalOutput".to_string()));
    assert_eq!(value["session_id"], serde_json::Value::String(id.to_string()));
    let expected_data: Vec<serde_json::Value> =
        data.iter().map(|b| serde_json::Value::from(*b)).collect();
    assert_eq!(value["data"], serde_json::Value::Array(expected_data));
    // And the escaping is byte-for-byte what the reference encoder writes.
    let reference = serde_json::to_string(&serde_json::Value::String(id.to_string())).unwrap();
    let mut mine: Vec<u8> = vec![34];
    push_escaped(&mut mine, id.as_bytes());
    mine.push(34);
    assert_eq!(String::from_utf8(mine).unwrap(), reference);
}

#[test]
fn test_relay_forwards_lag_skips_empty_waits() {
    let mut hub = BroadcastHub::new(HUB_CAPACITY);
    let mut sub = hub.subscribe();
    hub.publish("s1".to_string(), vec![104]);
    match relay_step(hub.receive(&mut sub)) {
        RelayAction::Forward(bytes) => assert_eq!(
            String::from_utf8(bytes).unwrap(),
            "{\"type\":\"TerminalOutput\",\"session_id\":\"s1\",\"data\":[104]}"
        ),
        _ => panic!("a received chunk must be forwarded"),
    }
    assert!(matches!(relay_step(hub.receive(&mut sub)), RelayAction::Wait));
    let mut slow = BroadcastHub::new(1);
    let mut lagging = slow.subscribe();
    slow.publish("s1".to_string(), vec![1]);
    slow.publish("s1".to_string(), vec![2]);
    assert!(matches!(relay_step(slow.receive(&mut lagging)), RelayAction::Skip));
}

#[test]
fn test_decimal_rendering() {
    let mut out: Vec<u8> = Vec::new();
    push_decimal(&mut out, 0);
    out.push(b' ');
    push_decimal(&mut out, 42);
    out.push(b' ');
    push_decimal(&mut out, 255);
    assert_eq!(String::from_utf8(out).unwrap(), "0 42 255");
}

#[test]
fn test_byte_array_rendering() {
    let mut out: Vec<u8> = Vec::new();
    push_byte_array(&mut out, &[10, 0, 200]);
    assert_eq!(String::from_utf8(out).unwrap(), "[10,0,200]");
}

#[test]
fn test_string_array_encoding() {
    let args = vec!["--flag".to_string(), "a \"b\"".to_string()];
    let bytes = encode_string_array(&args);
    // The reference encoder agrees byte for byte.
    let reference = serde_json::to_string(&serde_json::Value::Array(vec![
        serde_json::Value::String("--flag".to_string()),
        serde_json::Value::String("a \"b\"".to_string()),
    ]))
    .unwrap();
    assert_eq!(String::from_utf8(bytes).unwrap(), reference);
    let empty = encode_string_array(&Vec::new());
    assert_eq!(String::from_utf8(empty).unwrap(), "[]");
}

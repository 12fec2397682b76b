use oxid::codec::{json_to_string, parse_json_text};
use oxid::framing::extract_frames;
use oxid::json::Json;
use oxid::msg::{
    classify_message, encode_notification, encode_request, process_lsp_message, read_messages,
    DecodeError, InboundMessage, Notification, Request,
};

fn obj(pairs: Vec<(&str, Json)>) -> Json {
    let mut ms: Vec<(String, Json)> = Vec::new();
    for (k, v) in pairs {
        ms.push((k.to_string(), v));
    }
    Json::Obj(ms)
}

#[test]
fn request_wire_bytes_are_exact() {
    let req = Request {
        id: 1,
        method: "initialize".to_string(),
        params: None,
    };
    let wire = encode_request(&req);
    let body = "{\"jsonrpc\":\"2.0\",\"id\":1,\"method\":\"initialize\"}";
    let expected = format!("Content-Length: {}\r\n\r\n{}", body.len(), body);
    assert_eq!(wire, expected.into_bytes());
}

#[test]
fn notification_wire_bytes_are_exact() {
    let n = Notification {
        method: "initialized".to_string(),
        params: Some(Json::Obj(Vec::new())),
    };
    let wire = encode_notification(&n);
    let body = "{\"jsonrpc\":\"2.0\",\"method\":\"initialized\",\"params\":{}}";
    let expected = format!("Content-Length: {}\r\n\r\n{}", body.len(), body);
    assert_eq!(wire, expected.into_bytes());
}

#[test]
fn framing_round_trip_for_requests() {
    // Encoding then decoding through the framing parser reproduces the
    // envelope: id, method and params come back untouched.
    let req = Request {
        id: 42,
        method: "textDocument/hover".to_string(),
        params: Some(obj(vec![("line", Json::Int(3))])),
    };
    let wire = encode_request(&req);
    let frames = extract_frames(&wire);
    assert_eq!(frames.len(), 1);
    let text = String::from_utf8(frames[0].clone()).unwrap();
    let env = parse_json_text(&text).unwrap();
    assert_eq!(
        json_to_string(&env),
        "{\"jsonrpc\":\"2.0\",\"id\":42,\"method\":\"textDocument/hover\",\"params\":{\"line\":3}}"
    );
}

#[test]
fn classification_error_wins_over_other_fields() {
    // A body with an error member classifies as an error even when an id
    // is there too.
    let v = obj(vec![
        ("id", Json::Int(1)),
        (
            "error",
            obj(vec![
                ("code", Json::Int(-32601)),
                ("message", Json::Str("no".to_string())),
            ]),
        ),
    ]);
    match classify_message(&v).unwrap() {
        InboundMessage::Error(e) => {
            assert_eq!(e.code, -32601);
            assert_eq!(e.message, "no");
            assert!(e.data.is_none());
        }
        _ => panic!("expected an error classification"),
    }
}

#[test]
fn classification_id_means_response() {
    let v = obj(vec![("id", Json::Int(7)), ("result", Json::Null)]);
    match classify_message(&v).unwrap() {
        InboundMessage::Response(r) => {
            assert_eq!(r.id, 7);
            assert!(r.error.is_none());
        }
        _ => panic!("expected a response classification"),
    }
    // An absent result defaults to null.
    let w = obj(vec![("id", Json::Int(8))]);
    match classify_message(&w).unwrap() {
        InboundMessage::Response(r) => {
            assert_eq!(json_to_string(&r.result.unwrap()), "null");
        }
        _ => panic!("expected a response classification"),
    }
}

#[test]
fn classification_neither_means_notification() {
    let v = obj(vec![
        ("method", Json::Str("textDocument/publishDiagnostics".to_string())),
        ("params", obj(vec![("uri", Json::Str("file:///x".to_string()))])),
    ]);
    match classify_message(&v).unwrap() {
        InboundMessage::Notification(n) => {
            assert_eq!(n.method, "textDocument/publishDiagnostics");
        }
        _ => panic!("expected a notification classification"),
    }
}

#[test]
fn classification_violations_are_rejected() {
    // An error object without a message is a protocol violation.
    let v = obj(vec![("error", obj(vec![("code", Json::Int(1))]))]);
    assert!(classify_message(&v).is_err());
    // A non-integer id is a protocol violation.
    let w = obj(vec![("id", Json::Str("x".to_string()))]);
    assert!(classify_message(&w).is_err());
    // No method at all is a protocol violation.
    assert!(classify_message(&Json::Obj(Vec::new())).is_err());
    assert!(classify_message(&Json::Int(3)).is_err());
}

#[test]
fn process_lsp_message_full_chain() {
    let body = b"{\"id\":5,\"result\":{\"capabilities\":{}}}".to_vec();
    match process_lsp_message(&body).unwrap() {
        InboundMessage::Response(r) => assert_eq!(r.id, 5),
        _ => panic!("expected a response"),
    }
    assert!(matches!(
        process_lsp_message(&b"not json".to_vec()),
        Err(DecodeError::InvalidJson)
    ));
    assert!(matches!(
        process_lsp_message(&vec![0xff, 0xfe]),
        Err(DecodeError::InvalidUtf8)
    ));
    assert!(matches!(
        process_lsp_message(&b"{}".to_vec()),
        Err(DecodeError::ProtocolViolation)
    ));
}

#[test]
fn read_messages_keeps_wire_order_and_skips_junk() {
    let mut stream = Vec::new();
    stream.extend(oxid::framing::encode_frame(
        &b"{\"id\":5,\"result\":null}".to_vec(),
    ));
    stream.extend(b"junk line\r\n".to_vec());
    stream.extend(oxid::framing::encode_frame(&b"not json at all".to_vec()));
    stream.extend(oxid::framing::encode_frame(
        &b"{\"method\":\"m\",\"params\":null}".to_vec(),
    ));
    stream.extend(oxid::framing::encode_frame(
        &b"{\"id\":6,\"result\":true}".to_vec(),
    ));
    let msgs = read_messages(&stream);
    assert_eq!(msgs.len(), 3);
    assert!(matches!(&msgs[0], InboundMessage::Response(r) if r.id == 5));
    assert!(matches!(&msgs[1], InboundMessage::Notification(n) if n.method == "m"));
    assert!(matches!(&msgs[2], InboundMessage::Response(r) if r.id == 6));
}

#[test]
fn framing_round_trip_for_notifications() {
    let n = Notification {
        method: "textDocument/didSave".to_string(),
        params: Some(obj(vec![("text", Json::Str("x".to_string()))])),
    };
    let wire = encode_notification(&n);
    let frames = extract_frames(&wire);
    assert_eq!(frames.len(), 1);
    let text = String::from_utf8(frames[0].clone()).unwrap();
    let env = parse_json_text(&text).unwrap();
    assert_eq!(
        json_to_string(&env),
        "{\"jsonrpc\":\"2.0\",\"method\":\"textDocument/didSave\",\"params\":{\"text\":\"x\"}}"
    );
}

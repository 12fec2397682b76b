use oxid::codec::json_to_string;
use oxid::idalloc::RequestIdAllocator;
use oxid::json::Json;
use oxid::msg::{read_messages, InboundMessage, Notification, Response, ResponseError};
use oxid::session::{InitStep, LspClient, RecvStep, SessionError};

fn response(id: i64, result: Json) -> InboundMessage {
    InboundMessage::Response(Response {
        id,
        result: Some(result),
        error: None,
    })
}

fn obj(pairs: Vec<(&str, Json)>) -> Json {
    let mut ms: Vec<(String, Json)> = Vec::new();
    for (k, v) in pairs {
        ms.push((k.to_string(), v));
    }
    Json::Obj(ms)
}

#[test]
fn allocator_ids_are_unique_and_increasing() {
    let mut ids = RequestIdAllocator::new();
    let mut seen: Vec<i64> = Vec::new();
    for _ in 0..100 {
        let id = ids.next_id();
        for old in &seen {
            assert!(*old < id);
        }
        seen.push(id);
    }
    assert_eq!(seen[0], 1);
    assert_eq!(seen[99], 100);
}

#[test]
fn handshake_success_path() {
    // A fake server replies to initialize with an empty capabilities
    // document: the session initializes, caches it, and hands back exactly
    // one `initialized` notification with empty params.
    let mut client = LspClient::new();
    let req = client.initialize_request().unwrap();
    assert_eq!(req.id, 1);
    assert_eq!(req.method, "initialize");
    assert!(req.params.is_some());
    let reply = oxid::framing::encode_frame(&b"{\"id\":1,\"result\":{\"capabilities\":{}}}".to_vec());
    let msgs = read_messages(&reply);
    assert_eq!(msgs.len(), 1);
    match client.handle_initialize_message(req.id, msgs.into_iter().next().unwrap()) {
        InitStep::Completed(notif) => {
            assert_eq!(notif.method, "initialized");
            assert_eq!(json_to_string(&notif.params.unwrap()), "{}");
        }
        _ => panic!("handshake should complete"),
    }
    assert!(client.initialized);
    assert_eq!(json_to_string(client.server_capabilities.as_ref().unwrap()), "{}");
}

#[test]
fn handshake_failure_path() {
    // A fake server rejects initialize: the session stays uninitialized
    // and the caller sees the server's error.
    let mut client = LspClient::new();
    let req = client.initialize_request().unwrap();
    let reply = oxid::framing::encode_frame(
        &b"{\"id\":1,\"error\":{\"code\":-32601,\"message\":\"no\"}}".to_vec(),
    );
    let msgs = read_messages(&reply);
    assert_eq!(msgs.len(), 1);
    match client.handle_initialize_message(req.id, msgs.into_iter().next().unwrap()) {
        InitStep::Failed(e) => {
            assert_eq!(e.code, -32601);
            assert_eq!(e.message, "no");
        }
        _ => panic!("handshake should fail"),
    }
    assert!(!client.initialized);
    assert!(client.server_capabilities.is_none());
}

#[test]
fn handshake_discards_unrelated_messages() {
    let mut client = LspClient::new();
    let req = client.initialize_request().unwrap();
    // A response to some other id keeps the handshake waiting.
    match client.handle_initialize_message(req.id, response(99, Json::Null)) {
        InitStep::Discarded => {}
        _ => panic!("other ids must be discarded"),
    }
    // A notification keeps the handshake waiting.
    let note = InboundMessage::Notification(Notification {
        method: "x".to_string(),
        params: None,
    });
    match client.handle_initialize_message(req.id, note) {
        InitStep::Discarded => {}
        _ => panic!("notifications must be discarded"),
    }
    // A matching response without capabilities fails without initializing.
    match client.handle_initialize_message(req.id, response(req.id, Json::Obj(Vec::new()))) {
        InitStep::Malformed => {}
        _ => panic!("missing capabilities must be rejected"),
    }
    assert!(!client.initialized);
}

#[test]
fn correlation_filters_by_id() {
    // Awaiting id 6: a response for id 5 is discarded and the wait goes
    // on, until id 6 arrives.
    let client = LspClient::new();
    match client.match_response(6, response(5, Json::Null)) {
        RecvStep::Discarded => {}
        _ => panic!("id 5 must be discarded while awaiting id 6"),
    }
    match client.match_response(6, response(6, Json::Bool(true))) {
        RecvStep::Matched(r) => assert_eq!(r.id, 6),
        _ => panic!("id 6 must match"),
    }
    let err = InboundMessage::Error(ResponseError {
        code: 1,
        message: "bad".to_string(),
        data: None,
    });
    match client.match_response(6, err) {
        RecvStep::Failed(e) => assert_eq!(e.code, 1),
        _ => panic!("errors must fail the wait"),
    }
}

fn initialized_client() -> LspClient {
    let mut client = LspClient::new();
    let req = client.initialize_request().unwrap();
    let caps = obj(vec![("capabilities", Json::Obj(Vec::new()))]);
    match client.handle_initialize_message(req.id, response(req.id, caps)) {
        InitStep::Completed(_) => {}
        _ => panic!("handshake must complete"),
    }
    client
}

#[test]
fn notification_params_are_exact() {
    let client = initialized_client();
    let open = client.did_open("/tmp/a.rs", "fn main() {}\n").unwrap();
    assert_eq!(open.method, "textDocument/didOpen");
    assert_eq!(
        json_to_string(&open.params.unwrap()),
        "{\"textDocument\":{\"uri\":\"file:///tmp/a.rs\",\"languageId\":\"rust\",\"version\":1,\"text\":\"fn main() {}\\u000a\"}}"
    );
    let change = client.did_change("/tmp/a.rs", "x").unwrap();
    assert_eq!(change.method, "textDocument/didChange");
    assert_eq!(
        json_to_string(&change.params.unwrap()),
        "{\"textDocument\":{\"uri\":\"file:///tmp/a.rs\",\"version\":1},\"contentChanges\":[{\"text\":\"x\"}]}"
    );
    let save = client.did_save("/tmp/a.rs", "x").unwrap();
    assert_eq!(save.method, "textDocument/didSave");
    assert_eq!(
        json_to_string(&save.params.unwrap()),
        "{\"textDocument\":{\"uri\":\"file:///tmp/a.rs\"},\"text\":\"x\"}"
    );
}

#[test]
fn positional_requests_are_exact() {
    let mut client = initialized_client();
    let hover = client.hover_request("/tmp/a.rs", 5, 7).unwrap();
    assert_eq!(hover.method, "textDocument/hover");
    assert_eq!(
        json_to_string(&hover.params.unwrap()),
        "{\"textDocument\":{\"uri\":\"file:///tmp/a.rs\"},\"position\":{\"line\":5,\"character\":7}}"
    );
    let completion = client.completion_request("/tmp/a.rs", 0, 0).unwrap();
    assert_eq!(completion.method, "textDocument/completion");
    assert!(completion.id > hover.id);
}

#[test]
fn session_errors_are_reported() {
    let mut fresh = LspClient::new();
    assert!(matches!(
        fresh.hover_request("/x", 0, 0),
        Err(SessionError::NotInitialized)
    ));
    let mut client = initialized_client();
    assert!(matches!(
        client.initialize_request(),
        Err(SessionError::AlreadyInitialized)
    ));
    let shut = client.shutdown().unwrap();
    assert_eq!(shut.method, "shutdown");
    assert!(shut.params.is_none());
    assert!(matches!(
        client.did_open("/x", ""),
        Err(SessionError::ShutdownIssued)
    ));
    assert!(matches!(
        client.shutdown(),
        Err(SessionError::ShutdownIssued)
    ));
}

#[test]
fn diagnostics_are_cached_by_uri() {
    let mut client = initialized_client();
    assert!(client.get_file_diagnostic("/tmp/a.rs").is_none());
    let params = obj(vec![
        ("uri", Json::Str("file:///tmp/a.rs".to_string())),
        ("diagnostics", Json::Arr(vec![Json::Obj(Vec::new())])),
    ]);
    let note = Notification {
        method: "textDocument/publishDiagnostics".to_string(),
        params: Some(params),
    };
    client.note_notification(&note);
    let cached = client.get_file_diagnostic("/tmp/a.rs").unwrap();
    assert_eq!(
        json_to_string(cached),
        "{\"uri\":\"file:///tmp/a.rs\",\"diagnostics\":[{}]}"
    );
    // A later publication for the same uri replaces the cached one.
    let newer = obj(vec![
        ("uri", Json::Str("file:///tmp/a.rs".to_string())),
        ("diagnostics", Json::Arr(Vec::new())),
    ]);
    client.note_notification(&Notification {
        method: "textDocument/publishDiagnostics".to_string(),
        params: Some(newer),
    });
    let cached2 = client.get_file_diagnostic("/tmp/a.rs").unwrap();
    assert_eq!(
        json_to_string(cached2),
        "{\"uri\":\"file:///tmp/a.rs\",\"diagnostics\":[]}"
    );
    // Other methods leave the cache alone.
    client.note_notification(&Notification {
        method: "window/logMessage".to_string(),
        params: None,
    });
    assert!(client.get_file_diagnostic("/tmp/a.rs").is_some());
    assert!(client.get_file_diagnostic("/other").is_none());
}

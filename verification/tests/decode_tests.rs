use oxid::codec::parse_json_text;
use oxid::decode::{decode_completion_result, decode_hover_result};
use oxid::json::Json;
use oxid::types::{CompletionItemKind, DiagnosticSeverity, MarkupKind};

#[test]
fn hover_decoding() {
    let v = parse_json_text(
        "{\"contents\":{\"kind\":\"plaintext\",\"value\":\"fn main()\"}}",
    )
    .unwrap();
    let h = decode_hover_result(&v).unwrap().unwrap();
    assert!(matches!(h.contents.kind, MarkupKind::PlainText));
    assert_eq!(h.contents.value, "fn main()");
    // A null result means no hover, not an error.
    assert!(decode_hover_result(&Json::Null).unwrap().is_none());
    // A result of the wrong shape fails to decode.
    let bad = parse_json_text("{\"contents\":\"plain\"}").unwrap();
    assert!(decode_hover_result(&bad).is_err());
    let bad_kind = parse_json_text(
        "{\"contents\":{\"kind\":\"html\",\"value\":\"x\"}}",
    )
    .unwrap();
    assert!(decode_hover_result(&bad_kind).is_err());
}

#[test]
fn completion_decoding() {
    let v = parse_json_text(
        "{\"isIncomplete\":false,\"items\":[{\"label\":\"foo\"},{\"label\":\"bar\"}]}",
    )
    .unwrap();
    let l = decode_completion_result(&v).unwrap().unwrap();
    assert!(!l.is_incomplete);
    assert_eq!(l.items.len(), 2);
    assert_eq!(l.items[0].label, "foo");
    assert_eq!(l.items[1].label, "bar");
    assert!(decode_completion_result(&Json::Null).unwrap().is_none());
    let bad = parse_json_text("{\"isIncomplete\":false,\"items\":[{\"name\":\"x\"}]}").unwrap();
    assert!(decode_completion_result(&bad).is_err());
}

#[test]
fn enum_codes_round_trip() {
    assert_eq!(CompletionItemKind::Function.to_code(), 3);
    assert!(matches!(
        CompletionItemKind::from_code(3),
        Some(CompletionItemKind::Function)
    ));
    assert!(CompletionItemKind::from_code(0).is_none());
    assert!(CompletionItemKind::from_code(26).is_none());
    assert_eq!(DiagnosticSeverity::Warning.to_code(), 2);
    assert!(matches!(
        DiagnosticSeverity::from_code(4),
        Some(DiagnosticSeverity::Hint)
    ));
    assert!(DiagnosticSeverity::from_code(5).is_none());
}

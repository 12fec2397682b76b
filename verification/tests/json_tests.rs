use oxid::codec::{json_to_string, parse_json_text};
use oxid::json::Json;

fn obj(pairs: Vec<(&str, Json)>) -> Json {
    let mut ms: Vec<(String, Json)> = Vec::new();
    for (k, v) in pairs {
        ms.push((k.to_string(), v));
    }
    Json::Obj(ms)
}

fn roundtrip(v: &Json) -> String {
    let text = json_to_string(v);
    let back = parse_json_text(&text).expect("canonical text must parse");
    let again = json_to_string(&back);
    assert_eq!(text, again);
    text
}

#[test]
fn serialize_scalars() {
    assert_eq!(json_to_string(&Json::Null), "null");
    assert_eq!(json_to_string(&Json::Bool(true)), "true");
    assert_eq!(json_to_string(&Json::Bool(false)), "false");
    assert_eq!(json_to_string(&Json::Int(0)), "0");
    assert_eq!(json_to_string(&Json::Int(-7)), "-7");
    assert_eq!(json_to_string(&Json::Int(i64::MAX)), "9223372036854775807");
    assert_eq!(json_to_string(&Json::Int(i64::MIN)), "-9223372036854775808");
}

#[test]
fn serialize_strings_with_escapes() {
    assert_eq!(json_to_string(&Json::Str("abc".to_string())), "\"abc\"");
    assert_eq!(
        json_to_string(&Json::Str("a\"b\\c".to_string())),
        "\"a\\\"b\\\\c\""
    );
    assert_eq!(json_to_string(&Json::Str("\n".to_string())), "\"\\u000a\"");
    // Non-ASCII characters leave the body pure ASCII.
    assert_eq!(json_to_string(&Json::Str("é".to_string())), "\"\\u00e9\"");
    // Characters beyond the basic plane become a surrogate pair.
    assert_eq!(
        json_to_string(&Json::Str("\u{1F600}".to_string())),
        "\"\\ud83d\\ude00\""
    );
}

#[test]
fn serialize_composites() {
    let v = Json::Arr(vec![Json::Int(1), Json::Null, Json::Str("x".to_string())]);
    assert_eq!(json_to_string(&v), "[1,null,\"x\"]");
    let o = obj(vec![("a", Json::Int(1)), ("b", Json::Arr(vec![]))]);
    assert_eq!(json_to_string(&o), "{\"a\":1,\"b\":[]}");
    assert_eq!(json_to_string(&Json::Obj(Vec::new())), "{}");
}

#[test]
fn parse_round_trips_every_shape() {
    roundtrip(&Json::Null);
    roundtrip(&Json::Bool(true));
    roundtrip(&Json::Int(-123456789));
    roundtrip(&Json::Str("hello \"world\"\nwith\tescapes é 🙂".to_string()));
    roundtrip(&Json::Arr(vec![
        Json::Int(1),
        Json::Arr(vec![Json::Bool(false)]),
        Json::Obj(Vec::new()),
    ]));
    roundtrip(&obj(vec![
        ("jsonrpc", Json::Str("2.0".to_string())),
        ("id", Json::Int(1)),
        (
            "params",
            obj(vec![("position", obj(vec![("line", Json::Int(5))]))]),
        ),
    ]));
}

#[test]
fn parse_accepts_whitespace_and_escapes() {
    let v = parse_json_text("  { \"a\" : [ 1 , 2 ] , \"b\" : \"x\\ny\" }  ").unwrap();
    assert_eq!(json_to_string(&v), "{\"a\":[1,2],\"b\":\"x\\u000ay\"}");
    let s = parse_json_text("\"\\ud83d\\ude00\"").unwrap();
    assert_eq!(json_to_string(&s), "\"\\ud83d\\ude00\"");
}

#[test]
fn parse_rejects_malformed_documents() {
    assert!(parse_json_text("").is_none());
    assert!(parse_json_text("{").is_none());
    assert!(parse_json_text("[1,]").is_none());
    assert!(parse_json_text("nul").is_none());
    assert!(parse_json_text("1 2").is_none());
    assert!(parse_json_text("{\"a\":}").is_none());
    assert!(parse_json_text("\"unterminated").is_none());
    assert!(parse_json_text("\"lone \\ud800 surrogate\"").is_none());
    // Leading zeros and non-integral numbers are refused.
    assert!(parse_json_text("01").is_none());
    assert!(parse_json_text("1.5").is_none());
    assert!(parse_json_text("1e3").is_none());
    // Out-of-range integers are refused.
    assert!(parse_json_text("9223372036854775808").is_none());
    assert!(parse_json_text("-9223372036854775809").is_none());
}

#[test]
fn parse_handles_integer_bounds() {
    let v = parse_json_text("9223372036854775807").unwrap();
    assert_eq!(json_to_string(&v), "9223372036854775807");
    let w = parse_json_text("-9223372036854775808").unwrap();
    assert_eq!(json_to_string(&w), "-9223372036854775808");
}

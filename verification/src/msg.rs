//! The JSON-RPC messages the engine exchanges: outbound requests and
//! notifications with their envelopes, and the classification of inbound
//! bodies into responses, errors and notifications.

use vstd::prelude::*;
use vstd::string::StringSliceAdditionalSpecFns;

use crate::json::{
    json_parse, jview, obj_index_of, ser_value, Json, JsonV,
};
use crate::codec::{json_to_string, parse_json_text};
use crate::framing::{encode_frame, frame};
use crate::text::string_from_utf8;

verus! {

// ---------------------------------------------------------------------------
// The envelope keys, as character sequences.
// ---------------------------------------------------------------------------
pub open spec fn k_jsonrpc() -> Seq<char> {
    seq!['j', 's', 'o', 'n', 'r', 'p', 'c']
}

pub open spec fn k_id() -> Seq<char> {
    seq!['i', 'd']
}

pub open spec fn k_method() -> Seq<char> {
    seq!['m', 'e', 't', 'h', 'o', 'd']
}

pub open spec fn k_params() -> Seq<char> {
    seq!['p', 'a', 'r', 'a', 'm', 's']
}

pub open spec fn k_result() -> Seq<char> {
    seq!['r', 'e', 's', 'u', 'l', 't']
}

pub open spec fn k_error() -> Seq<char> {
    seq!['e', 'r', 'r', 'o', 'r']
}

pub open spec fn k_code() -> Seq<char> {
    seq!['c', 'o', 'd', 'e']
}

pub open spec fn k_message() -> Seq<char> {
    seq!['m', 'e', 's', 's', 'a', 'g', 'e']
}

pub open spec fn k_data() -> Seq<char> {
    seq!['d', 'a', 't', 'a']
}

pub open spec fn two_zero() -> Seq<char> {
    seq!['2', '.', '0']
}

// ---------------------------------------------------------------------------
// Message types
// ---------------------------------------------------------------------------
/// A request the client sends: correlated by its id.
pub struct Request {
    pub id: i64,
    pub method: String,
    pub params: Option<Json>,
}

/// A notification either side sends: fire and forget, no id.
pub struct Notification {
    pub method: String,
    pub params: Option<Json>,
}

/// A response to one of the client's requests.
pub struct Response {
    pub id: i64,
    pub result: Option<Json>,
    pub error: Option<ResponseError>,
}

/// The error object of a failed request.
pub struct ResponseError {
    pub code: i64,
    pub message: String,
    pub data: Option<Json>,
}

/// What the writer thread takes off the outbound queue.
pub enum OutboundMessage {
    Request(Request),
    Notification(Notification),
}

/// What the reader thread puts on the inbound queue.
pub enum InboundMessage {
    Response(Response),
    Error(ResponseError),
    Notification(Notification),
}

/// The mathematical shape of a classified inbound body.
pub enum MsgV {
    Response { id: i64, result: JsonV },
    Error { code: i64, message: Seq<char>, data: Option<JsonV> },
    Notification { method: Seq<char>, params: JsonV },
    Violation,
}

pub open spec fn opt_jv(p: Option<Json>) -> Option<JsonV> {
    match p {
        Some(j) => Some(jview(j)),
        None => None,
    }
}

/// The mathematical value of an inbound message, with an absent result or
/// params standing for JSON null, as the classifier produces them.
pub open spec fn inbound_view(m: InboundMessage) -> MsgV {
    match m {
        InboundMessage::Response(r) => MsgV::Response {
            id: r.id,
            result: match r.result {
                Some(j) => jview(j),
                None => JsonV::Null,
            },
        },
        InboundMessage::Error(e) => MsgV::Error {
            code: e.code,
            message: e.message@,
            data: opt_jv(e.data),
        },
        InboundMessage::Notification(n) => MsgV::Notification {
            method: n.method@,
            params: match n.params {
                Some(j) => jview(j),
                None => JsonV::Null,
            },
        },
    }
}

// ---------------------------------------------------------------------------
// Envelopes
// ---------------------------------------------------------------------------
/// The JSON-RPC envelope of a request.
pub open spec fn req_env(id: i64, method: Seq<char>, params: Option<JsonV>) -> JsonV {
    match params {
        Some(p) => JsonV::Obj(
            seq![
                (k_jsonrpc(), JsonV::Str(two_zero())),
                (k_id(), JsonV::Int(id)),
                (k_method(), JsonV::Str(method)),
                (k_params(), p),
            ],
        ),
        None => JsonV::Obj(
            seq![
                (k_jsonrpc(), JsonV::Str(two_zero())),
                (k_id(), JsonV::Int(id)),
                (k_method(), JsonV::Str(method)),
            ],
        ),
    }
}

/// The JSON-RPC envelope of a notification: no id.
pub open spec fn notif_env(method: Seq<char>, params: Option<JsonV>) -> JsonV {
    match params {
        Some(p) => JsonV::Obj(
            seq![
                (k_jsonrpc(), JsonV::Str(two_zero())),
                (k_method(), JsonV::Str(method)),
                (k_params(), p),
            ],
        ),
        None => JsonV::Obj(
            seq![(k_jsonrpc(), JsonV::Str(two_zero())), (k_method(), JsonV::Str(method))],
        ),
    }
}

/// The bytes of an ASCII character sequence, one byte per character.
pub open spec fn ascii_of(s: Seq<char>) -> Seq<u8> {
    Seq::new(s.len(), |i: int| s[i] as u8)
}

/// The exact bytes a request puts on the wire.
pub open spec fn request_wire(id: i64, method: Seq<char>, params: Option<JsonV>) -> Seq<u8> {
    frame(ascii_of(ser_value(req_env(id, method, params))))
}

/// The exact bytes a notification puts on the wire.
pub open spec fn notification_wire(method: Seq<char>, params: Option<JsonV>) -> Seq<u8> {
    frame(ascii_of(ser_value(notif_env(method, params))))
}

/// Turn a value's canonical text into its wire bytes.
fn ser_to_bytes(v: &Json) -> (r: Vec<u8>)
    ensures
        r@ == ascii_of(ser_value(v@)),
{
    let s = json_to_string(v);
    let st = s.as_str();
    proof {
        crate::msg::lemma_ser_value_ascii(v@);
        vstd::utf8::is_ascii_chars_encode_utf8(st@);
    }
    let b = st.as_bytes_vec();
    proof {
        assert(b@ =~= ascii_of(ser_value(v@)));
    }
    b
}

/// The framed wire bytes of `req`, exactly `request_wire`.
///
/// The writer thread sends these to the server's standard input unchanged.
pub fn encode_request(req: &Request) -> (r: Vec<u8>)
    ensures
        r@ == request_wire(req.id, req.method@, opt_jv(req.params)),
{
    let mut members: Vec<(String, Json)> = Vec::new();
    members.push((rust_string("jsonrpc"), Json::Str(rust_string("2.0"))));
    members.push((rust_string("id"), Json::Int(req.id)));
    members.push((rust_string("method"), Json::Str(req.method.clone())));
    match &req.params {
        Some(p) => {
            let pc = p.clone_json();
            members.push((rust_string("params"), pc));
        },
        None => {},
    }
    let env = Json::Obj(members);
    proof {
        reveal_strlit("jsonrpc");
        reveal_strlit("2.0");
        reveal_strlit("id");
        reveal_strlit("method");
        reveal_strlit("params");
        crate::json::lemma_members_of(env->Obj_0@);
        assert("jsonrpc"@ =~= k_jsonrpc());
        assert("2.0"@ =~= two_zero());
        assert("id"@ =~= k_id());
        assert("method"@ =~= k_method());
        assert("params"@ =~= k_params());
        assert(env@ == req_env(req.id, req.method@, opt_jv(req.params))) by {
            assert(jview(env) == JsonV::Obj(crate::json::members_of(env->Obj_0@)));
            let ms = env->Obj_0@;
            assert(crate::json::members_of(ms)[0] == (ms[0].0@, jview(ms[0].1)));
            assert(crate::json::members_of(ms)[1] == (ms[1].0@, jview(ms[1].1)));
            assert(crate::json::members_of(ms)[2] == (ms[2].0@, jview(ms[2].1)));
            match opt_jv(req.params) {
                Some(p) => {
                    assert(crate::json::members_of(ms)[3] == (ms[3].0@, jview(ms[3].1)));
                    assert(crate::json::members_of(ms) =~= req_env(
                        req.id,
                        req.method@,
                        opt_jv(req.params),
                    )->Obj_0);
                },
                None => {
                    assert(crate::json::members_of(ms) =~= req_env(
                        req.id,
                        req.method@,
                        opt_jv(req.params),
                    )->Obj_0);
                },
            }
        }
    }
    let body = ser_to_bytes(&env);
    encode_frame(&body)
}

/// The framed wire bytes of `n`, exactly `notification_wire`.
pub fn encode_notification(n: &Notification) -> (r: Vec<u8>)
    ensures
        r@ == notification_wire(n.method@, opt_jv(n.params)),
{
    let mut members: Vec<(String, Json)> = Vec::new();
    members.push((rust_string("jsonrpc"), Json::Str(rust_string("2.0"))));
    members.push((rust_string("method"), Json::Str(n.method.clone())));
    match &n.params {
        Some(p) => {
            let pc = p.clone_json();
            members.push((rust_string("params"), pc));
        },
        None => {},
    }
    let env = Json::Obj(members);
    proof {
        reveal_strlit("jsonrpc");
        reveal_strlit("2.0");
        reveal_strlit("method");
        reveal_strlit("params");
        crate::json::lemma_members_of(env->Obj_0@);
        assert("jsonrpc"@ =~= k_jsonrpc());
        assert("2.0"@ =~= two_zero());
        assert("method"@ =~= k_method());
        assert("params"@ =~= k_params());
        assert(env@ == notif_env(n.method@, opt_jv(n.params))) by {
            assert(jview(env) == JsonV::Obj(crate::json::members_of(env->Obj_0@)));
            let ms = env->Obj_0@;
            assert(crate::json::members_of(ms)[0] == (ms[0].0@, jview(ms[0].1)));
            assert(crate::json::members_of(ms)[1] == (ms[1].0@, jview(ms[1].1)));
            match opt_jv(n.params) {
                Some(p) => {
                    assert(crate::json::members_of(ms)[2] == (ms[2].0@, jview(ms[2].1)));
                    assert(crate::json::members_of(ms) =~= notif_env(
                        n.method@,
                        opt_jv(n.params),
                    )->Obj_0);
                },
                None => {
                    assert(crate::json::members_of(ms) =~= notif_env(
                        n.method@,
                        opt_jv(n.params),
                    )->Obj_0);
                },
            }
        }
    }
    let body = ser_to_bytes(&env);
    encode_frame(&body)
}

/// Whether the notification's method is exactly `m`.
pub fn method_is(n: &Notification, m: &str) -> (r: bool)
    ensures
        r == (n.method@ == m@),
{
    str_eq(n.method.as_str(), m)
}

fn rust_string(s: &str) -> (r: String)
    ensures
        r@ == s@,
{
    String::from_str(s)
}

// ---------------------------------------------------------------------------
// Classification
// ---------------------------------------------------------------------------
/// How a parsed inbound body is read, straight from the wire rules: a body
/// with an `error` member is an error (its `code` and `message` are
/// required); otherwise a body with an `id` is a response (its `result`
/// defaults to null); otherwise it is a notification (its `method` is
/// required, `params` defaults to null).  Anything else violates the
/// protocol.
pub open spec fn classify_spec(v: JsonV) -> MsgV {
    if v.has_key(k_error()) {
        let e = v.value_of(k_error());
        if e.has_key(k_code()) && e.value_of(k_code()) is Int && e.has_key(k_message())
            && e.value_of(k_message()) is Str {
            MsgV::Error {
                code: e.value_of(k_code())->Int_0,
                message: e.value_of(k_message())->Str_0,
                data: if e.has_key(k_data()) {
                    Some(e.value_of(k_data()))
                } else {
                    None
                },
            }
        } else {
            MsgV::Violation
        }
    } else if v.has_key(k_id()) {
        if v.value_of(k_id()) is Int {
            MsgV::Response {
                id: v.value_of(k_id())->Int_0,
                result: if v.has_key(k_result()) {
                    v.value_of(k_result())
                } else {
                    JsonV::Null
                },
            }
        } else {
            MsgV::Violation
        }
    } else if v.has_key(k_method()) && v.value_of(k_method()) is Str {
        MsgV::Notification {
            method: v.value_of(k_method())->Str_0,
            params: if v.has_key(k_params()) {
                v.value_of(k_params())
            } else {
                JsonV::Null
            },
        }
    } else {
        MsgV::Violation
    }
}

/// What a whole inbound body decodes to, if it is valid UTF-8 holding one
/// well-formed JSON document.
pub open spec fn decode_body(bytes: Seq<u8>) -> Option<JsonV> {
    if vstd::utf8::valid_utf8(bytes) {
        json_parse(vstd::utf8::decode_utf8(bytes))
    } else {
        None
    }
}

/// Why an inbound frame could not become a message.
#[derive(Debug)]
pub enum DecodeError {
    /// The body is not valid UTF-8.
    InvalidUtf8,
    /// The body is not one well-formed JSON document.
    InvalidJson,
    /// The body is JSON, but of no shape the protocol allows.
    ProtocolViolation,
}

pub fn str_eq(a: &str, b: &str) -> (r: bool)
    ensures
        r == (a@ == b@),
{
    let na = a.unicode_len();
    let nb = b.unicode_len();
    if na != nb {
        proof {
            assert(a@ != b@) by {
                if a@ == b@ {
                    assert(a@.len() == b@.len());
                }
            }
        }
        return false;
    }
    let mut i: usize = 0;
    while i < na
        invariant
            na == a@.len() == b@.len(),
            i <= na,
            forall|k: int| 0 <= k < i ==> a@[k] == b@[k],
        decreases na - i,
    {
        if a.get_char(i) != b.get_char(i) {
            proof {
                assert(a@ != b@) by {
                    if a@ == b@ {
                        assert(a@[i as int] == b@[i as int]);
                    }
                }
            }
            return false;
        }
        i = i + 1;
    }
    proof {
        assert(a@ =~= b@);
    }
    true
}

pub proof fn lemma_obj_index_found(o: Seq<(Seq<char>, JsonV)>, k: Seq<char>, j: int)
    requires
        0 <= j < o.len(),
        o[j].0 == k,
        forall|t: int| 0 <= t < j ==> (#[trigger] o[t]).0 != k,
    ensures
        obj_index_of(o, k) == j,
    decreases j,
{
    if j > 0 {
        assert(o[0].0 != k);
        lemma_obj_index_found(o.drop_first(), k, j - 1);
        assert(forall|t: int|
            0 <= t < j - 1 ==> (#[trigger] o.drop_first()[t]) == o[t + 1]);
    }
}

pub proof fn lemma_obj_index_none(o: Seq<(Seq<char>, JsonV)>, k: Seq<char>)
    requires
        forall|t: int| 0 <= t < o.len() ==> (#[trigger] o[t]).0 != k,
    ensures
        obj_index_of(o, k) == -1,
    decreases o.len(),
{
    if o.len() > 0 {
        lemma_obj_index_none(o.drop_first(), k);
        assert(forall|t: int|
            0 <= t < o.len() - 1 ==> (#[trigger] o.drop_first()[t]) == o[t + 1]);
    }
}

/// The member of object `v` under `key`, by the first match.
#[verifier::loop_isolation(false)]
pub fn lookup<'a>(v: &'a Json, key: &str) -> (r: Option<&'a Json>)
    ensures
        match r {
            Some(j) => v@.has_key(key@) && jview(*j) == v@.value_of(key@),
            None => !v@.has_key(key@),
        },
{
    match v {
        Json::Obj(members) => {
            proof {
                crate::json::lemma_members_of(members@);
                assert(v@ == JsonV::Obj(crate::json::members_of(members@)));
            }
            let ghost ov = crate::json::members_of(members@);
            let mut i: usize = 0;
            while i < members.len()
                invariant
                    i <= members@.len(),
                    forall|t: int| 0 <= t < i ==> (#[trigger] ov[t]).0 != key@,
                decreases members@.len() - i,
            {
                if str_eq(members[i].0.as_str(), key) {
                    proof {
                        assert(ov[i as int].0 == key@);
                        lemma_obj_index_found(ov, key@, i as int);
                        assert(ov[i as int].1 == jview(members@[i as int].1));
                    }
                    return Some(&members[i].1);
                }
                proof {
                    assert(ov[i as int].0 == members@[i as int].0@);
                }
                i = i + 1;
            }
            proof {
                lemma_obj_index_none(ov, key@);
            }
            None
        },
        _ => {
            proof {
                assert(!(v@ is Obj));
            }
            None
        },
    }
}

/// Classify one parsed body.  `Err` is returned exactly on a protocol
/// violation: an error object without integer `code` or string `message`,
/// a non-integer `id`, or a notification without a string `method`.
pub fn classify_message(v: &Json) -> (r: Result<InboundMessage, DecodeError>)
    ensures
        match r {
            Ok(m) => classify_spec(v@) != (MsgV::Violation) && inbound_view(m) == classify_spec(
                v@,
            ) && (m is Response ==> m->Response_0.error is None && m->Response_0.result
                is Some),
            Err(e) => classify_spec(v@) == (MsgV::Violation) && e == (
            DecodeError::ProtocolViolation),
        },
{
    proof {
        reveal_strlit("error");
        reveal_strlit("code");
        reveal_strlit("message");
        reveal_strlit("data");
        reveal_strlit("id");
        reveal_strlit("result");
        reveal_strlit("method");
        reveal_strlit("params");
        assert("error"@ =~= k_error());
        assert("code"@ =~= k_code());
        assert("message"@ =~= k_message());
        assert("data"@ =~= k_data());
        assert("id"@ =~= k_id());
        assert("result"@ =~= k_result());
        assert("method"@ =~= k_method());
        assert("params"@ =~= k_params());
    }
    match lookup(v, "error") {
        Some(e) => {
            let code = match lookup(e, "code") {
                Some(c) => match c {
                    Json::Int(n) => Some(*n),
                    _ => None,
                },
                None => None,
            };
            let message = match lookup(e, "message") {
                Some(m) => match m {
                    Json::Str(s) => Some(s.clone()),
                    _ => None,
                },
                None => None,
            };
            match (code, message) {
                (Some(code), Some(message)) => {
                    let data = match lookup(e, "data") {
                        Some(d) => Some(d.clone_json()),
                        None => None,
                    };
                    Ok(
                        InboundMessage::Error(
                            ResponseError { code, message, data },
                        ),
                    )
                },
                _ => Err(DecodeError::ProtocolViolation),
            }
        },
        None => {
            match lookup(v, "id") {
                Some(idj) => {
                    match idj {
                        Json::Int(id) => {
                            let result = match lookup(v, "result") {
                                Some(r) => r.clone_json(),
                                None => Json::Null,
                            };
                            Ok(
                                InboundMessage::Response(
                                    Response { id: *id, result: Some(result), error: None },
                                ),
                            )
                        },
                        _ => Err(DecodeError::ProtocolViolation),
                    }
                },
                None => {
                    match lookup(v, "method") {
                        Some(mj) => {
                            match mj {
                                Json::Str(method) => {
                                    let params = match lookup(v, "params") {
                                        Some(p) => p.clone_json(),
                                        None => Json::Null,
                                    };
                                    Ok(
                                        InboundMessage::Notification(
                                            Notification {
                                                method: method.clone(),
                                                params: Some(params),
                                            },
                                        ),
                                    )
                                },
                                _ => Err(DecodeError::ProtocolViolation),
                            }
                        },
                        None => Err(DecodeError::ProtocolViolation),
                    }
                },
            }
        },
    }
}

/// Decode and classify one inbound frame body, exactly as the reader does
/// for every frame it pulls off the wire: the body must be UTF-8, must hold
/// one JSON document, and that document must classify.
pub fn process_lsp_message(body: &Vec<u8>) -> (r: Result<InboundMessage, DecodeError>)
    ensures
        match r {
            Ok(m) => decode_body(body@) is Some && classify_spec(decode_body(body@)->0) != (
            MsgV::Violation) && inbound_view(m) == classify_spec(decode_body(body@)->0) && (m
                is Response ==> m->Response_0.error is None && m->Response_0.result is Some),
            Err(e) => match e {
                DecodeError::InvalidUtf8 => !vstd::utf8::valid_utf8(body@),
                DecodeError::InvalidJson => vstd::utf8::valid_utf8(body@) && decode_body(body@)
                    is None,
                DecodeError::ProtocolViolation => decode_body(body@) is Some && classify_spec(
                    decode_body(body@)->0,
                ) == (MsgV::Violation),
            },
        },
{
    let text = match string_from_utf8(body) {
        Some(t) => t,
        None => {
            return Err(DecodeError::InvalidUtf8);
        },
    };
    let parsed = match parse_json_text(text.as_str()) {
        Some(p) => p,
        None => {
            return Err(DecodeError::InvalidJson);
        },
    };
    classify_message(&parsed)
}

// ---------------------------------------------------------------------------
// The serializer's output is pure ASCII: that is what lets the announced
// Content-Length, a byte count, equal the character count of the body.
// ---------------------------------------------------------------------------
pub proof fn lemma_ser_value_ascii(v: JsonV)
    ensures
        vstd::utf8::is_ascii_chars(ser_value(v)),
    decreases v, 0int, 0int,
{
    crate::msg::lemma_ser_ascii_value(v);
}

proof fn lemma_ascii_concat(a: Seq<char>, b: Seq<char>)
    requires
        vstd::utf8::is_ascii_chars(a),
        vstd::utf8::is_ascii_chars(b),
    ensures
        vstd::utf8::is_ascii_chars(a + b),
{
    assert forall|i: int| 0 <= i < (a + b).len() implies '\0' <= #[trigger] (a + b)[i]
        <= '\u{7f}' by {
        if i < a.len() {
            assert((a + b)[i] == a[i]);
        } else {
            assert((a + b)[i] == b[i - a.len()]);
        }
    }
}

proof fn lemma_ascii_digits(n: int)
    requires
        n >= 0,
    ensures
        vstd::utf8::is_ascii_chars(crate::json::dec_digits(n)),
    decreases n,
{
    if n < 10 {
        assert((((48 + n) as u32) as char) as u32 == (48 + n) as u32) by {
            assert(vstd::utf8::is_scalar((48 + n) as u32));
        }
        assert(crate::json::dec_digits(n) =~= seq![crate::json::dec_digit_char(n)]);
    } else {
        lemma_ascii_digits(n / 10);
        assert((((48 + n % 10) as u32) as char) as u32 == (48 + n % 10) as u32) by {
            assert(vstd::utf8::is_scalar((48 + n % 10) as u32));
        }
        assert(crate::json::dec_digits(n) == crate::json::dec_digits(n / 10).push(
            crate::json::dec_digit_char(n % 10),
        ));
        assert forall|i: int|
            0 <= i < crate::json::dec_digits(n).len() implies '\0'
            <= #[trigger] crate::json::dec_digits(n)[i] <= '\u{7f}' by {
            if i < crate::json::dec_digits(n / 10).len() {
                assert(crate::json::dec_digits(n)[i] == crate::json::dec_digits(n / 10)[i]);
            }
        }
    }
}

proof fn lemma_ascii_hex4(n: int)
    requires
        0 <= n < 0x10000,
    ensures
        vstd::utf8::is_ascii_chars(crate::json::hex4(n)),
{
    lemma_ascii_hex_digit(n / 0x1000);
    lemma_ascii_hex_digit((n / 0x100) % 16);
    lemma_ascii_hex_digit((n / 16) % 16);
    lemma_ascii_hex_digit(n % 16);
}

proof fn lemma_ascii_hex_digit(d: int)
    requires
        0 <= d < 16,
    ensures
        '\0' <= crate::json::hex_digit_char(d) <= '\u{7f}',
{
    if d < 10 {
        assert((((48 + d) as u32) as char) as u32 == (48 + d) as u32) by {
            assert(vstd::utf8::is_scalar((48 + d) as u32));
        }
    } else {
        assert((((87 + d) as u32) as char) as u32 == (87 + d) as u32) by {
            assert(vstd::utf8::is_scalar((87 + d) as u32));
        }
    }
}

proof fn lemma_ascii_esc_char(c: char)
    ensures
        vstd::utf8::is_ascii_chars(crate::json::esc_char(c)),
{
    if c == '"' || c == '\\' {
    } else if (c as u32) < 0x20 || (c as u32) > 0x7e {
        let n = c as u32 as int;
        vstd::utf8::char_is_scalar(c);
        if n < 0x10000 {
            lemma_ascii_hex4(n);
            lemma_ascii_concat(seq!['\\', 'u'], crate::json::hex4(n));
        } else {
            lemma_ascii_hex4(0xD800 + (n - 0x10000) / 0x400);
            lemma_ascii_hex4(0xDC00 + (n - 0x10000) % 0x400);
            lemma_ascii_concat(seq!['\\', 'u'], crate::json::hex4(0xD800 + (n - 0x10000) / 0x400));
            lemma_ascii_concat(
                seq!['\\', 'u'] + crate::json::hex4(0xD800 + (n - 0x10000) / 0x400),
                seq!['\\', 'u'],
            );
            lemma_ascii_concat(
                (seq!['\\', 'u'] + crate::json::hex4(0xD800 + (n - 0x10000) / 0x400)) + seq![
                    '\\',
                    'u',
                ],
                crate::json::hex4(0xDC00 + (n - 0x10000) % 0x400),
            );
            assert(crate::json::esc_unicode(c) =~= ((seq!['\\', 'u'] + crate::json::hex4(
                0xD800 + (n - 0x10000) / 0x400,
            )) + seq!['\\', 'u']) + crate::json::hex4(0xDC00 + (n - 0x10000) % 0x400));
        }
    } else {
    }
}

proof fn lemma_ascii_str_body(s: Seq<char>, i: int)
    ensures
        vstd::utf8::is_ascii_chars(crate::json::ser_str_body(s, i)),
    decreases s.len() - i,
{
    if i < 0 || i >= s.len() {
    } else {
        lemma_ascii_esc_char(s[i]);
        lemma_ascii_str_body(s, i + 1);
        lemma_ascii_concat(crate::json::esc_char(s[i]), crate::json::ser_str_body(s, i + 1));
    }
}

proof fn lemma_ascii_string(s: Seq<char>)
    ensures
        vstd::utf8::is_ascii_chars(crate::json::ser_string(s)),
{
    lemma_ascii_str_body(s, 0);
    lemma_ascii_concat(seq!['"'], crate::json::ser_str_body(s, 0));
    lemma_ascii_concat(seq!['"'] + crate::json::ser_str_body(s, 0), seq!['"']);
    assert(crate::json::ser_string(s) =~= (seq!['"'] + crate::json::ser_str_body(s, 0))
        + seq!['"']);
}

proof fn lemma_ser_ascii_value(v: JsonV)
    ensures
        vstd::utf8::is_ascii_chars(ser_value(v)),
    decreases v, 0int, 0int,
{
    match v {
        JsonV::Null => {},
        JsonV::Bool(b) => {},
        JsonV::Int(i) => {
            if i < 0 {
                lemma_ascii_digits(-(i as int));
                lemma_ascii_concat(seq!['-'], crate::json::dec_digits(-(i as int)));
            } else {
                lemma_ascii_digits(i as int);
            }
        },
        JsonV::Str(s) => {
            lemma_ascii_string(s);
        },
        JsonV::Arr(a) => {
            lemma_ser_ascii_elems(a, 0);
            lemma_ascii_concat(seq!['['], crate::json::ser_elems(a, 0));
            lemma_ascii_concat(seq!['['] + crate::json::ser_elems(a, 0), seq![']']);
            assert(ser_value(v) =~= (seq!['['] + crate::json::ser_elems(a, 0)) + seq![']']);
        },
        JsonV::Obj(o) => {
            lemma_ser_ascii_members(o, 0);
            lemma_ascii_concat(seq!['{'], crate::json::ser_members(o, 0));
            lemma_ascii_concat(seq!['{'] + crate::json::ser_members(o, 0), seq!['}']);
            assert(ser_value(v) =~= (seq!['{'] + crate::json::ser_members(o, 0)) + seq!['}']);
        },
    }
}

proof fn lemma_ser_ascii_elems(a: Seq<JsonV>, i: int)
    ensures
        vstd::utf8::is_ascii_chars(crate::json::ser_elems(a, i)),
    decreases a, a.len() - i, 1int,
{
    if i < 0 || i >= a.len() {
    } else if i == a.len() - 1 {
        lemma_ser_ascii_value(a[i]);
    } else {
        lemma_ser_ascii_value(a[i]);
        lemma_ser_ascii_elems(a, i + 1);
        lemma_ascii_concat(ser_value(a[i]), seq![',']);
        lemma_ascii_concat(ser_value(a[i]) + seq![','], crate::json::ser_elems(a, i + 1));
        assert(crate::json::ser_elems(a, i) =~= (ser_value(a[i]) + seq![','])
            + crate::json::ser_elems(a, i + 1));
    }
}

proof fn lemma_ser_ascii_members(o: Seq<(Seq<char>, JsonV)>, i: int)
    ensures
        vstd::utf8::is_ascii_chars(crate::json::ser_members(o, i)),
    decreases o, o.len() - i, 1int,
{
    if i < 0 || i >= o.len() {
    } else {
        lemma_ascii_string(o[i].0);
        lemma_ser_ascii_value(o[i].1);
        lemma_ascii_concat(crate::json::ser_string(o[i].0), seq![':']);
        lemma_ascii_concat(
            crate::json::ser_string(o[i].0) + seq![':'],
            ser_value(o[i].1),
        );
        if i == o.len() - 1 {
            assert(crate::json::ser_members(o, i) =~= (crate::json::ser_string(o[i].0)
                + seq![':']) + ser_value(o[i].1));
        } else {
            lemma_ser_ascii_members(o, i + 1);
            lemma_ascii_concat(
                (crate::json::ser_string(o[i].0) + seq![':']) + ser_value(o[i].1),
                seq![','],
            );
            lemma_ascii_concat(
                ((crate::json::ser_string(o[i].0) + seq![':']) + ser_value(o[i].1)) + seq![','],
                crate::json::ser_members(o, i + 1),
            );
            assert(crate::json::ser_members(o, i) =~= (((crate::json::ser_string(o[i].0)
                + seq![':']) + ser_value(o[i].1)) + seq![',']) + crate::json::ser_members(
                o,
                i + 1,
            ));
        }
    }
}

// ---------------------------------------------------------------------------
// The reader loop over a whole stream
// ---------------------------------------------------------------------------
/// The classified messages of a list of frame bodies, in order: a body
/// that does not decode, or decodes to a shape the protocol refuses, is
/// skipped.
pub open spec fn messages_of_frames(fs: Seq<Seq<u8>>) -> Seq<MsgV>
    decreases fs.len(),
{
    if fs.len() == 0 {
        Seq::empty()
    } else {
        let rest = messages_of_frames(fs.drop_first());
        match decode_body(fs[0]) {
            Some(v) => if classify_spec(v) != (MsgV::Violation) {
                seq![classify_spec(v)] + rest
            } else {
                rest
            },
            None => rest,
        }
    }
}

/// The mathematical values of a vector of inbound messages, elementwise.
pub open spec fn inbound_views(ms: Seq<InboundMessage>) -> Seq<MsgV>
    decreases ms.len(),
{
    if ms.len() == 0 {
        Seq::empty()
    } else {
        inbound_views(ms.drop_last()).push(inbound_view(ms.last()))
    }
}

pub broadcast proof fn lemma_inbound_views(ms: Seq<InboundMessage>)
    ensures
        (#[trigger] inbound_views(ms)).len() == ms.len(),
        forall|i: int| 0 <= i < ms.len() ==> inbound_views(ms)[i] == inbound_view(ms[i]),
    decreases ms.len(),
{
    if ms.len() > 0 {
        lemma_inbound_views(ms.drop_last());
        assert(forall|i: int| 0 <= i < ms.len() - 1 ==> ms.drop_last()[i] == ms[i]);
    }
}

/// The whole reader loop over a closed stream: every frame is scanned out
/// of `input` and decoded and classified in order; a malformed frame is
/// skipped, and the end of the input ends the loop.
#[verifier::loop_isolation(false)]
pub fn read_messages(input: &Vec<u8>) -> (r: Vec<InboundMessage>)
    ensures
        inbound_views(r@) == messages_of_frames(crate::framing::scan_frames(input@)),
        forall|i: int|
            0 <= i < r@.len() && r@[i] is Response ==> (#[trigger] r@[i])->Response_0.error
                is None && r@[i]->Response_0.result is Some,
{
    broadcast use lemma_inbound_views;

    let frames = crate::framing::extract_frames(input);
    let ghost bodies = crate::framing::bodies_of(frames@);
    proof {
        crate::framing::lemma_bodies_of(frames@);
        assert(bodies.skip(0) =~= bodies);
    }
    let mut out: Vec<InboundMessage> = Vec::new();
    let mut i: usize = 0;
    while i < frames.len()
        invariant
            i <= frames@.len(),
            bodies.len() == frames@.len(),
            inbound_views(out@) + messages_of_frames(bodies.skip(i as int)) == messages_of_frames(
                bodies,
            ),
            forall|k: int|
                0 <= k < out@.len() && out@[k] is Response ==> (#[trigger] out@[k])->Response_0.error is None
                    && out@[k]->Response_0.result is Some,
        decreases frames@.len() - i,
    {
        proof {
            assert(bodies.skip(i as int)[0] == bodies[i as int]);
            assert(bodies.skip(i as int).drop_first() =~= bodies.skip(i + 1));
            assert(bodies[i as int] == frames@[i as int]@);
        }
        let ghost prev = out@;
        match process_lsp_message(&frames[i]) {
            Ok(m) => {
                out.push(m);
                proof {
                    assert(out@.drop_last() =~= prev);
                    assert(forall|k: int| 0 <= k < prev.len() ==> out@[k] == prev[k]);
                    assert(inbound_views(out@) =~= inbound_views(prev).push(
                        inbound_view(out@.last()),
                    ));
                    assert(inbound_views(out@) + messages_of_frames(bodies.skip(i + 1))
                        =~= messages_of_frames(bodies));
                }
            },
            Err(_) => {
                proof {
                    assert(inbound_views(out@) + messages_of_frames(bodies.skip(i + 1))
                        =~= messages_of_frames(bodies));
                }
            },
        }
        i = i + 1;
    }
    proof {
        assert(bodies.skip(frames@.len() as int) =~= Seq::<Seq<u8>>::empty());
        assert(inbound_views(out@) =~= messages_of_frames(bodies));
    }
    out
}

} // verus!

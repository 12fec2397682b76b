//! The wire laws: a framed envelope survives the trip through the framing
//! scanner and the JSON parser untouched, and classification follows the
//! body's shape alone.

use vstd::prelude::*;

use crate::framing::{lemma_frame_round_trip, scan_frames};
use crate::json::{obj_index_of, ser_value, JsonV};
use crate::json_laws::lemma_json_round_trip;
use crate::msg::{
    ascii_of, classify_spec, decode_body, k_code, k_error, k_id, k_jsonrpc, k_message, k_method,
    k_params, notif_env, notification_wire, req_env, request_wire, MsgV,
};

verus! {

/// A well-formed JSON-RPC error object: an integer `code` and a string
/// `message`.
pub open spec fn wf_error(e: JsonV) -> bool {
    e.has_key(k_code()) && e.value_of(k_code()) is Int && e.has_key(k_message()) && e.value_of(
        k_message(),
    ) is Str
}

/// Classification goes by shape alone: a body holding `error` never
/// classifies as anything but an error (or a violation, where the error
/// object itself is broken); a body holding `id` and no `error` never as
/// anything but a response; a body holding neither only as a notification.
pub proof fn lemma_classification(v: JsonV)
    ensures
        v.has_key(k_error()) && wf_error(v.value_of(k_error())) ==> classify_spec(v) is Error,
        v.has_key(k_error()) ==> (classify_spec(v) is Error || classify_spec(v) is Violation),
        !v.has_key(k_error()) && v.has_key(k_id()) && v.value_of(k_id()) is Int ==> classify_spec(
            v,
        ) is Response,
        !v.has_key(k_error()) && v.has_key(k_id()) ==> (classify_spec(v) is Response
            || classify_spec(v) is Violation),
        !v.has_key(k_error()) && !v.has_key(k_id()) ==> (classify_spec(v) is Notification
            || classify_spec(v) is Violation),
{
}

/// The serialized body of an envelope is ASCII, so it is valid UTF-8 and
/// decodes back to the same characters.
proof fn lemma_body_decodes(env: JsonV)
    ensures
        vstd::utf8::valid_utf8(ascii_of(ser_value(env))),
        vstd::utf8::decode_utf8(ascii_of(ser_value(env))) == ser_value(env),
        ascii_of(ser_value(env)).len() == ser_value(env).len(),
{
    let s = ser_value(env);
    crate::msg::lemma_ser_value_ascii(s1_of(env));
    vstd::utf8::is_ascii_chars_encode_utf8(s);
    assert(vstd::utf8::encode_utf8(s) =~= ascii_of(s));
    vstd::utf8::encode_utf8_valid_utf8(s);
    vstd::utf8::encode_utf8_decode_utf8(s);
}

/// The value whose serialization is under discussion; stands only to keep
/// the trigger on `env` itself.
spec fn s1_of(env: JsonV) -> JsonV {
    env
}

/// Framing round trip for a request: the wire bytes scan back to exactly
/// one frame, that frame decodes to exactly the envelope that was sent, and
/// the envelope carries the id, method and params it was built from.
pub proof fn lemma_request_wire_round_trip(id: i64, method: Seq<char>, params: Option<JsonV>)
    requires
        ser_value(req_env(id, method, params)).len() <= usize::MAX,
    ensures
        ({
            let env = req_env(id, method, params);
            let body = ascii_of(ser_value(env));
            &&& scan_frames(request_wire(id, method, params)) == seq![body]
            &&& decode_body(body) == Some(env)
            &&& env.has_key(k_id()) && env.value_of(k_id()) == JsonV::Int(id)
            &&& env.has_key(k_method()) && env.value_of(k_method()) == JsonV::Str(method)
            &&& (params is Some ==> env.has_key(k_params()) && env.value_of(k_params())
                == params->0)
            &&& (params is None ==> !env.has_key(k_params()))
        }),
{
    let env = req_env(id, method, params);
    let body = ascii_of(ser_value(env));
    lemma_body_decodes(env);
    lemma_frame_round_trip(body);
    lemma_json_round_trip(env);
    lemma_req_env_fields(id, method, params);
}

/// Framing round trip for a notification.
pub proof fn lemma_notification_wire_round_trip(method: Seq<char>, params: Option<JsonV>)
    requires
        ser_value(notif_env(method, params)).len() <= usize::MAX,
    ensures
        ({
            let env = notif_env(method, params);
            let body = ascii_of(ser_value(env));
            &&& scan_frames(notification_wire(method, params)) == seq![body]
            &&& decode_body(body) == Some(env)
            &&& !env.has_key(k_id())
            &&& env.has_key(k_method()) && env.value_of(k_method()) == JsonV::Str(method)
            &&& (params is Some ==> env.has_key(k_params()) && env.value_of(k_params())
                == params->0)
        }),
{
    let env = notif_env(method, params);
    let body = ascii_of(ser_value(env));
    lemma_body_decodes(env);
    lemma_frame_round_trip(body);
    lemma_json_round_trip(env);
    lemma_notif_env_fields(method, params);
}

/// The request envelope holds exactly the fields it was built from, each
/// under its own key.
pub proof fn lemma_req_env_fields(id: i64, method: Seq<char>, params: Option<JsonV>)
    ensures
        ({
            let env = req_env(id, method, params);
            &&& env.has_key(k_id()) && env.value_of(k_id()) == JsonV::Int(id)
            &&& env.has_key(k_method()) && env.value_of(k_method()) == JsonV::Str(method)
            &&& (params is Some ==> env.has_key(k_params()) && env.value_of(k_params())
                == params->0)
            &&& (params is None ==> !env.has_key(k_params()))
            &&& !env.has_key(k_error())
        }),
{
    reveal_with_fuel(obj_index_of, 6);
    let env = req_env(id, method, params);
    let o = env->Obj_0;
    assert(k_jsonrpc() != k_id() && k_jsonrpc() != k_method() && k_jsonrpc() != k_params()
        && k_jsonrpc() != k_error()) by {
        assert(k_jsonrpc().len() == 7 && k_id().len() == 2 && k_method().len() == 6
            && k_params().len() == 6 && k_error().len() == 5);
        assert(k_jsonrpc()[0] == 'j');
    }
    assert(k_id() != k_method() && k_id() != k_params() && k_id() != k_error());
    assert(k_method() != k_params()) by {
        assert(k_method()[0] == 'm' && k_params()[0] == 'p');
    }
    assert(k_method() != k_error() && k_params() != k_error());
    assert(obj_index_of(o, k_id()) == 1) by {
        assert(o[0].0 == k_jsonrpc() && o[1].0 == k_id());
        assert(o.drop_first()[0] == o[1]);
    }
    assert(obj_index_of(o, k_method()) == 2) by {
        assert(o.drop_first()[0] == o[1]);
        assert(o.drop_first().drop_first()[0] == o[2]);
    }
    match params {
        Some(p) => {
            assert(obj_index_of(o, k_params()) == 3) by {
                assert(o.drop_first()[0] == o[1]);
                assert(o.drop_first().drop_first()[0] == o[2]);
                assert(o.drop_first().drop_first().drop_first()[0] == o[3]);
            }
            assert(obj_index_of(o, k_error()) == -1) by {
                assert(o.drop_first()[0] == o[1]);
                assert(o.drop_first().drop_first()[0] == o[2]);
                assert(o.drop_first().drop_first().drop_first()[0] == o[3]);
                assert(o.drop_first().drop_first().drop_first().drop_first().len() == 0);
            }
        },
        None => {
            assert(obj_index_of(o, k_params()) == -1) by {
                assert(o.drop_first()[0] == o[1]);
                assert(o.drop_first().drop_first()[0] == o[2]);
                assert(o.drop_first().drop_first().drop_first().len() == 0);
            }
            assert(obj_index_of(o, k_error()) == -1) by {
                assert(o.drop_first()[0] == o[1]);
                assert(o.drop_first().drop_first()[0] == o[2]);
                assert(o.drop_first().drop_first().drop_first().len() == 0);
            }
        },
    }
}

/// The notification envelope holds no id, and exactly its method and
/// params.
pub proof fn lemma_notif_env_fields(method: Seq<char>, params: Option<JsonV>)
    ensures
        ({
            let env = notif_env(method, params);
            &&& !env.has_key(k_id())
            &&& env.has_key(k_method()) && env.value_of(k_method()) == JsonV::Str(method)
            &&& (params is Some ==> env.has_key(k_params()) && env.value_of(k_params())
                == params->0)
            &&& !env.has_key(k_error())
        }),
{
    reveal_with_fuel(obj_index_of, 6);
    let env = notif_env(method, params);
    let o = env->Obj_0;
    assert(k_jsonrpc() != k_id() && k_jsonrpc() != k_method() && k_jsonrpc() != k_params()
        && k_jsonrpc() != k_error()) by {
        assert(k_jsonrpc().len() == 7 && k_id().len() == 2 && k_method().len() == 6
            && k_params().len() == 6 && k_error().len() == 5);
        assert(k_jsonrpc()[0] == 'j');
    }
    assert(k_id() != k_method() && k_id() != k_params() && k_id() != k_error());
    assert(k_method() != k_params()) by {
        assert(k_method()[0] == 'm' && k_params()[0] == 'p');
    }
    assert(k_method() != k_error() && k_params() != k_error());
    assert(obj_index_of(o, k_method()) == 1) by {
        assert(o.drop_first()[0] == o[1]);
    }
    match params {
        Some(p) => {
            assert(obj_index_of(o, k_params()) == 2) by {
                assert(o.drop_first()[0] == o[1]);
                assert(o.drop_first().drop_first()[0] == o[2]);
            }
            assert(obj_index_of(o, k_id()) == -1) by {
                assert(o.drop_first()[0] == o[1]);
                assert(o.drop_first().drop_first()[0] == o[2]);
                assert(o.drop_first().drop_first().drop_first().len() == 0);
            }
            assert(obj_index_of(o, k_error()) == -1) by {
                assert(o.drop_first()[0] == o[1]);
                assert(o.drop_first().drop_first()[0] == o[2]);
                assert(o.drop_first().drop_first().drop_first().len() == 0);
            }
        },
        None => {
            assert(obj_index_of(o, k_id()) == -1) by {
                assert(o.drop_first()[0] == o[1]);
                assert(o.drop_first().drop_first().len() == 0);
            }
            assert(obj_index_of(o, k_error()) == -1) by {
                assert(o.drop_first()[0] == o[1]);
                assert(o.drop_first().drop_first().len() == 0);
            }
        },
    }
}

} // verus!

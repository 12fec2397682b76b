//! Decoding the payloads the engine actually reads out of responses: hover
//! contents and completion lists, in the minimal shapes the protocol
//! guarantees.

use vstd::prelude::*;

use crate::json::{jview, Json, JsonV};
use crate::msg::{lookup, str_eq, DecodeError};
use crate::types::{CompletionItem, CompletionList, Hover, MarkupContent, MarkupKind};

verus! {

/// A hover result the engine can read: an object whose `contents` holds a
/// markup `kind` of `plaintext` or `markdown` and a string `value`.
pub open spec fn hover_shape(v: JsonV) -> bool {
    &&& v.has_key("contents"@)
    &&& v.value_of("contents"@).has_key("kind"@)
    &&& v.value_of("contents"@).value_of("kind"@) is Str
    &&& (v.value_of("contents"@).value_of("kind"@)->Str_0 == "plaintext"@ || v.value_of(
        "contents"@,
    ).value_of("kind"@)->Str_0 == "markdown"@)
    &&& v.value_of("contents"@).has_key("value"@)
    &&& v.value_of("contents"@).value_of("value"@) is Str
}

/// Read a hover reply's result: a null result means no hover is available,
/// a well-shaped one yields its contents, and anything else fails to
/// decode — exactly.
pub fn decode_hover_result(result: &Json) -> (r: Result<Option<Hover>, DecodeError>)
    ensures
        match r {
            Ok(h) => match h {
                None => jview(*result) is Null,
                Some(hv) => !(jview(*result) is Null) && hover_shape(jview(*result)) && ({
                    let c = jview(*result).value_of("contents"@);
                    &&& hv.contents.value@ == c.value_of("value"@)->Str_0
                    &&& (hv.contents.kind is PlainText <==> c.value_of("kind"@)->Str_0
                        == "plaintext"@)
                    &&& hv.range is None
                }),
            },
            Err(_) => !(jview(*result) is Null) && !hover_shape(jview(*result)),
        },
{
    proof {
        reveal_strlit("contents");
        reveal_strlit("kind");
        reveal_strlit("value");
        reveal_strlit("plaintext");
        reveal_strlit("markdown");
    }
    match result {
        Json::Null => Ok(None),
        _ => {
            let contents = match lookup(result, "contents") {
                Some(c) => c,
                None => {
                    return Err(DecodeError::ProtocolViolation);
                },
            };
            let kind = match lookup(contents, "kind") {
                Some(k) => match k {
                    Json::Str(s) => {
                        if str_eq(s.as_str(), "plaintext") {
                            MarkupKind::PlainText
                        } else if str_eq(s.as_str(), "markdown") {
                            MarkupKind::Markdown
                        } else {
                            return Err(DecodeError::ProtocolViolation);
                        }
                    },
                    _ => {
                        return Err(DecodeError::ProtocolViolation);
                    },
                },
                None => {
                    return Err(DecodeError::ProtocolViolation);
                },
            };
            let value = match lookup(contents, "value") {
                Some(v) => match v {
                    Json::Str(s) => s.clone(),
                    _ => {
                        return Err(DecodeError::ProtocolViolation);
                    },
                },
                None => {
                    return Err(DecodeError::ProtocolViolation);
                },
            };
            Ok(Some(Hover { contents: MarkupContent { kind, value }, range: None }))
        },
    }
}

/// A completion result the engine can read: an object with a boolean
/// `isIncomplete` and an `items` array of objects, each with a string
/// `label`.
pub open spec fn completion_shape(v: JsonV) -> bool {
    &&& v.has_key("isIncomplete"@)
    &&& v.value_of("isIncomplete"@) is Bool
    &&& v.has_key("items"@)
    &&& v.value_of("items"@) is Arr
    &&& forall|k: int|
        0 <= k < v.value_of("items"@)->Arr_0.len() ==> (#[trigger] v.value_of(
            "items"@,
        )->Arr_0[k]).has_key("label"@) && v.value_of("items"@)->Arr_0[k].value_of(
            "label"@,
        ) is Str
}

/// Read a completion reply's result: null means no completions, a
/// well-shaped list yields one item per entry carrying its label, and
/// anything else fails to decode — exactly.
#[verifier::loop_isolation(false)]
pub fn decode_completion_result(result: &Json) -> (r: Result<Option<CompletionList>, DecodeError>)
    ensures
        match r {
            Ok(l) => match l {
                None => jview(*result) is Null,
                Some(cl) => !(jview(*result) is Null) && completion_shape(jview(*result)) && ({
                    let v = jview(*result);
                    let items = v.value_of("items"@)->Arr_0;
                    &&& cl.is_incomplete == v.value_of("isIncomplete"@)->Bool_0
                    &&& cl.items@.len() == items.len()
                    &&& forall|k: int|
                        0 <= k < items.len() ==> (#[trigger] cl.items@[k]).label@
                            == items[k].value_of("label"@)->Str_0
                }),
            },
            Err(_) => !(jview(*result) is Null) && !completion_shape(jview(*result)),
        },
{
    proof {
        reveal_strlit("isIncomplete");
        reveal_strlit("items");
        reveal_strlit("label");
    }
    match result {
        Json::Null => Ok(None),
        _ => {
            let is_incomplete = match lookup(result, "isIncomplete") {
                Some(b) => match b {
                    Json::Bool(v) => *v,
                    _ => {
                        return Err(DecodeError::ProtocolViolation);
                    },
                },
                None => {
                    return Err(DecodeError::ProtocolViolation);
                },
            };
            let items_json = match lookup(result, "items") {
                Some(a) => a,
                None => {
                    return Err(DecodeError::ProtocolViolation);
                },
            };
            match items_json {
                Json::Arr(arr) => {
                    let ghost av = jview(*result).value_of("items"@)->Arr_0;
                    proof {
                        crate::json::lemma_views_of(arr@);
                        assert(av == crate::json::views_of(arr@));
                    }
                    let mut items: Vec<CompletionItem> = Vec::new();
                    let mut i: usize = 0;
                    while i < arr.len()
                        invariant
                            i <= arr@.len(),
                            av == crate::json::views_of(arr@),
                            av.len() == arr@.len(),
                            forall|k: int| 0 <= k < arr@.len() ==> av[k] == jview(arr@[k]),
                            items@.len() == i,
                            forall|k: int|
                                0 <= k < i ==> (#[trigger] av[k]).has_key("label"@) && av[k].value_of(
                                    "label"@,
                                ) is Str,
                            forall|k: int|
                                0 <= k < i ==> (#[trigger] items@[k]).label@ == av[k].value_of(
                                    "label"@,
                                )->Str_0,
                        decreases arr@.len() - i,
                    {
                        proof {
                            reveal_strlit("label");
                        }
                        let label = match lookup(&arr[i], "label") {
                            Some(l) => match l {
                                Json::Str(s) => s.clone(),
                                _ => {
                                    proof {
                                        let v = jview(*result);
                                        if completion_shape(v) {
                                            assert(v.value_of("items"@)->Arr_0[i as int]
                                                == av[i as int]);
                                        }
                                        assert(!completion_shape(v));
                                    }
                                    return Err(DecodeError::ProtocolViolation);
                                },
                            },
                            None => {
                                proof {
                                    let v = jview(*result);
                                    if completion_shape(v) {
                                        assert(v.value_of("items"@)->Arr_0[i as int]
                                            == av[i as int]);
                                    }
                                    assert(!completion_shape(v));
                                }
                                return Err(DecodeError::ProtocolViolation);
                            },
                        };
                        items.push(CompletionItem::with_label(label));
                        i = i + 1;
                    }
                    Ok(Some(CompletionList { is_incomplete, items, item_defaults: None }))
                },
                _ => {
                    return Err(DecodeError::ProtocolViolation);
                },
            }
        },
    }
}

} // verus!

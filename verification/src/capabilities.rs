//! The capability document this client announces on `initialize`: plain-text
//! hover, completion with plain-text documentation and tag support, full
//! document synchronization with save notifications, and published
//! diagnostics.

use vstd::prelude::*;

use crate::json::{jview, members_of, Json, JsonV};

verus! {

broadcast use crate::json::lemma_members_of;

/// The text-document synchronization capabilities.
pub open spec fn sync_caps_doc() -> JsonV {
    JsonV::Obj(
        seq![
            ("dynamicRegistration"@, JsonV::Bool(false)),
            ("willSave"@, JsonV::Bool(false)),
            ("willSaveUntil"@, JsonV::Bool(false)),
            ("didSave"@, JsonV::Bool(true)),
        ],
    )
}

/// The hover capabilities: plain text only.
pub open spec fn hover_caps_doc() -> JsonV {
    JsonV::Obj(
        seq![
            ("dynamicRegistration"@, JsonV::Bool(false)),
            ("contentFormat"@, JsonV::Arr(seq![JsonV::Str("plaintext"@)])),
        ],
    )
}

/// The per-item completion capabilities.
pub open spec fn completion_item_caps_doc() -> JsonV {
    JsonV::Obj(
        seq![
            ("snippetSupport"@, JsonV::Bool(false)),
            ("documentationFormat"@, JsonV::Arr(seq![JsonV::Str("plaintext"@)])),
            ("deprecatedSupport"@, JsonV::Bool(true)),
            ("preselectSupport"@, JsonV::Bool(true)),
            ("tagSupport"@, JsonV::Obj(seq![("valueSet"@, JsonV::Arr(seq![JsonV::Int(1)]))])),
            ("insertReplaceSupport"@, JsonV::Bool(true)),
            (
                "insertTextModeSupport"@,
                JsonV::Obj(
                    seq![("valueSet"@, JsonV::Arr(seq![JsonV::Int(1), JsonV::Int(2)]))],
                ),
            ),
            ("labelDetailsSupport"@, JsonV::Bool(true)),
        ],
    )
}

/// The completion capabilities.
pub open spec fn completion_caps_doc() -> JsonV {
    JsonV::Obj(
        seq![
            ("dynamicRegistration"@, JsonV::Bool(false)),
            ("completionItem"@, completion_item_caps_doc()),
            ("insertTextMode"@, JsonV::Int(1)),
        ],
    )
}

/// The published-diagnostics capabilities.
pub open spec fn publish_diagnostics_caps_doc() -> JsonV {
    JsonV::Obj(
        seq![
            ("dataSupport"@, JsonV::Bool(false)),
            ("tagSupport"@, JsonV::Obj(seq![("valueSet"@, JsonV::Arr(seq![JsonV::Int(1)]))])),
            ("codeDescriptionSupport"@, JsonV::Bool(true)),
            ("versionSupport"@, JsonV::Bool(false)),
        ],
    )
}

/// The text-document capabilities.
pub open spec fn text_document_caps_doc() -> JsonV {
    JsonV::Obj(
        seq![
            ("synchronization"@, sync_caps_doc()),
            ("hover"@, hover_caps_doc()),
            ("completion"@, completion_caps_doc()),
            ("publishDiagnostics"@, publish_diagnostics_caps_doc()),
        ],
    )
}

/// The whole initialize params document: who this client is and what it
/// supports.
pub open spec fn client_capabilities_doc() -> JsonV {
    JsonV::Obj(
        seq![
            (
                "clientInfo"@,
                JsonV::Obj(
                    seq![
                        ("name"@, JsonV::Str("oxid"@)),
                        ("version"@, JsonV::Str("0.1.0"@)),
                    ],
                ),
            ),
            (
                "capabilities"@,
                JsonV::Obj(seq![("textDocument"@, text_document_caps_doc())]),
            ),
        ],
    )
}

fn skey(s: &str) -> (r: String)
    ensures
        r@ == s@,
{
    String::from_str(s)
}

fn one_int_arr(a: i64) -> (r: Json)
    ensures
        r@ == JsonV::Arr(seq![JsonV::Int(a)]),
{
    let mut items: Vec<Json> = Vec::new();
    items.push(Json::Int(a));
    let r = Json::Arr(items);
    proof {
        crate::json::lemma_views_of(r->Arr_0@);
        assert(crate::json::views_of(r->Arr_0@) =~= seq![JsonV::Int(a)]);
    }
    r
}

fn value_set_obj(items: Json) -> (r: Json)
    ensures
        r@ == JsonV::Obj(seq![("valueSet"@, jview(items))]),
{
    let mut ms: Vec<(String, Json)> = Vec::new();
    ms.push((skey("valueSet"), items));
    let r = Json::Obj(ms);
    proof {
        assert(members_of(r->Obj_0@) =~= seq![("valueSet"@, jview(r->Obj_0@[0].1))]);
    }
    r
}

/// Build the initialize params this client sends: exactly
/// `client_capabilities_doc`.
pub fn get_client_capabilities() -> (r: Json)
    ensures
        r@ == client_capabilities_doc(),
{
    // synchronization
    let mut sync: Vec<(String, Json)> = Vec::new();
    sync.push((skey("dynamicRegistration"), Json::Bool(false)));
    sync.push((skey("willSave"), Json::Bool(false)));
    sync.push((skey("willSaveUntil"), Json::Bool(false)));
    sync.push((skey("didSave"), Json::Bool(true)));
    let sync = Json::Obj(sync);
    proof {
        assert(members_of(sync->Obj_0@) =~= sync_caps_doc()->Obj_0);
    }
    // hover
    let mut fmt: Vec<Json> = Vec::new();
    fmt.push(Json::Str(skey("plaintext")));
    let fmt = Json::Arr(fmt);
    proof {
        crate::json::lemma_views_of(fmt->Arr_0@);
        assert(crate::json::views_of(fmt->Arr_0@) =~= seq![JsonV::Str("plaintext"@)]);
    }
    let mut hover: Vec<(String, Json)> = Vec::new();
    hover.push((skey("dynamicRegistration"), Json::Bool(false)));
    hover.push((skey("contentFormat"), fmt));
    let hover = Json::Obj(hover);
    proof {
        assert(members_of(hover->Obj_0@) =~= hover_caps_doc()->Obj_0);
    }
    // completion item capability
    let mut fmt2: Vec<Json> = Vec::new();
    fmt2.push(Json::Str(skey("plaintext")));
    let fmt2 = Json::Arr(fmt2);
    proof {
        crate::json::lemma_views_of(fmt2->Arr_0@);
        assert(crate::json::views_of(fmt2->Arr_0@) =~= seq![JsonV::Str("plaintext"@)]);
    }
    let tag_support = value_set_obj(one_int_arr(1));
    let mut modes: Vec<Json> = Vec::new();
    modes.push(Json::Int(1));
    modes.push(Json::Int(2));
    let modes = Json::Arr(modes);
    proof {
        crate::json::lemma_views_of(modes->Arr_0@);
        assert(crate::json::views_of(modes->Arr_0@) =~= seq![JsonV::Int(1), JsonV::Int(2)]);
    }
    let mode_support = value_set_obj(modes);
    let mut ci: Vec<(String, Json)> = Vec::new();
    ci.push((skey("snippetSupport"), Json::Bool(false)));
    ci.push((skey("documentationFormat"), fmt2));
    ci.push((skey("deprecatedSupport"), Json::Bool(true)));
    ci.push((skey("preselectSupport"), Json::Bool(true)));
    ci.push((skey("tagSupport"), tag_support));
    ci.push((skey("insertReplaceSupport"), Json::Bool(true)));
    ci.push((skey("insertTextModeSupport"), mode_support));
    ci.push((skey("labelDetailsSupport"), Json::Bool(true)));
    let ci = Json::Obj(ci);
    proof {
        assert(members_of(ci->Obj_0@) =~= completion_item_caps_doc()->Obj_0);
    }
    // completion
    let mut comp: Vec<(String, Json)> = Vec::new();
    comp.push((skey("dynamicRegistration"), Json::Bool(false)));
    comp.push((skey("completionItem"), ci));
    comp.push((skey("insertTextMode"), Json::Int(1)));
    let comp = Json::Obj(comp);
    proof {
        assert(members_of(comp->Obj_0@) =~= completion_caps_doc()->Obj_0);
    }
    // publish diagnostics
    let diag_tags = value_set_obj(one_int_arr(1));
    let mut pd: Vec<(String, Json)> = Vec::new();
    pd.push((skey("dataSupport"), Json::Bool(false)));
    pd.push((skey("tagSupport"), diag_tags));
    pd.push((skey("codeDescriptionSupport"), Json::Bool(true)));
    pd.push((skey("versionSupport"), Json::Bool(false)));
    let pd = Json::Obj(pd);
    proof {
        assert(members_of(pd->Obj_0@) =~= publish_diagnostics_caps_doc()->Obj_0);
    }
    // text document
    let mut td: Vec<(String, Json)> = Vec::new();
    td.push((skey("synchronization"), sync));
    td.push((skey("hover"), hover));
    td.push((skey("completion"), comp));
    td.push((skey("publishDiagnostics"), pd));
    let td = Json::Obj(td);
    proof {
        assert(members_of(td->Obj_0@) =~= text_document_caps_doc()->Obj_0);
    }
    // client info
    let mut info: Vec<(String, Json)> = Vec::new();
    info.push((skey("name"), Json::Str(skey("oxid"))));
    info.push((skey("version"), Json::Str(skey("0.1.0"))));
    let info = Json::Obj(info);
    proof {
        assert(members_of(info->Obj_0@) =~= seq![
            ("name"@, JsonV::Str("oxid"@)),
            ("version"@, JsonV::Str("0.1.0"@)),
        ]);
    }
    // capabilities wrapper
    let mut caps: Vec<(String, Json)> = Vec::new();
    caps.push((skey("textDocument"), td));
    let caps = Json::Obj(caps);
    proof {
        assert(members_of(caps->Obj_0@) =~= seq![("textDocument"@, text_document_caps_doc())]);
    }
    // whole document
    let mut doc: Vec<(String, Json)> = Vec::new();
    doc.push((skey("clientInfo"), info));
    doc.push((skey("capabilities"), caps));
    let doc = Json::Obj(doc);
    proof {
        assert(members_of(doc->Obj_0@) =~= client_capabilities_doc()->Obj_0);
    }
    doc
}

} // verus!

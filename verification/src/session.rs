//! The session façade: the handshake state machine, request-id allocation,
//! response correlation, and the request and notification builders the
//! editor drives.
//!
//! Every function here is a decision or construction step on plain values.
//! The surrounding process does the blocking work — it sends the returned
//! messages down the outbound channel and feeds every received message back
//! in — so the session's whole behaviour is stated here and checked.

use vstd::prelude::*;

use crate::capabilities::{client_capabilities_doc, get_client_capabilities};
use crate::idalloc::RequestIdAllocator;
use crate::json::{jview, members_of, obj_index_of, Json, JsonV};
use crate::msg::{
    opt_jv, InboundMessage, Notification, Request, Response, ResponseError,
};

verus! {

broadcast use crate::json::lemma_members_of;

/// A caller-visible session failure: the operation cannot be issued in the
/// session's current state.
#[derive(Debug)]
pub enum SessionError {
    /// The handshake has not completed yet.
    NotInitialized,
    /// The handshake already completed once.
    AlreadyInitialized,
    /// Shutdown has been issued; nothing more may be sent.
    ShutdownIssued,
}

/// What one inbound message means for the correlated request the caller is
/// waiting on.
pub enum RecvStep {
    /// Not ours: a response to some other id, or an interleaved
    /// notification.  The caller keeps waiting.
    Discarded,
    /// The response to the awaited id.
    Matched(Response),
    /// The server answered the session with an error object.
    Failed(ResponseError),
}

/// What one inbound message means for the pending handshake.
pub enum InitStep {
    /// Not the initialize response: discarded, keep waiting.
    Discarded,
    /// The server rejected the initialize request.
    Failed(ResponseError),
    /// The matching response carried no `capabilities` member.
    Malformed,
    /// The handshake completed; the notification announcing it must now be
    /// sent, exactly once.
    Completed(Notification),
}

/// The uri of a file path: the path behind a `file://` scheme.
pub open spec fn file_uri_of(path: Seq<char>) -> Seq<char> {
    "file://"@ + path
}

/// The `textDocument/didOpen` params for a freshly opened document.
pub open spec fn did_open_params(path: Seq<char>, text: Seq<char>) -> JsonV {
    JsonV::Obj(
        seq![
            (
                "textDocument"@,
                JsonV::Obj(
                    seq![
                        ("uri"@, JsonV::Str(file_uri_of(path))),
                        ("languageId"@, JsonV::Str("rust"@)),
                        ("version"@, JsonV::Int(1)),
                        ("text"@, JsonV::Str(text)),
                    ],
                ),
            ),
        ],
    )
}

/// The `textDocument/didChange` params: the versioned document and one
/// full-text change event.
pub open spec fn did_change_params(path: Seq<char>, text: Seq<char>) -> JsonV {
    JsonV::Obj(
        seq![
            (
                "textDocument"@,
                JsonV::Obj(
                    seq![
                        ("uri"@, JsonV::Str(file_uri_of(path))),
                        ("version"@, JsonV::Int(1)),
                    ],
                ),
            ),
            (
                "contentChanges"@,
                JsonV::Arr(seq![JsonV::Obj(seq![("text"@, JsonV::Str(text))])]),
            ),
        ],
    )
}

/// The `textDocument/didSave` params: the document and its saved text.
pub open spec fn did_save_params(path: Seq<char>, text: Seq<char>) -> JsonV {
    JsonV::Obj(
        seq![
            (
                "textDocument"@,
                JsonV::Obj(seq![("uri"@, JsonV::Str(file_uri_of(path)))]),
            ),
            ("text"@, JsonV::Str(text)),
        ],
    )
}

/// The params of a positional request: the document and a zero-based
/// line/character position.
pub open spec fn position_params(path: Seq<char>, line: int, character: int) -> JsonV {
    JsonV::Obj(
        seq![
            (
                "textDocument"@,
                JsonV::Obj(seq![("uri"@, JsonV::Str(file_uri_of(path)))]),
            ),
            (
                "position"@,
                JsonV::Obj(
                    seq![
                        ("line"@, JsonV::Int(line as i64)),
                        ("character"@, JsonV::Int(character as i64)),
                    ],
                ),
            ),
        ],
    )
}

/// The client side of one LSP session: handshake progress, the id
/// allocator, the negotiated capabilities, and the diagnostics the server
/// pushed.  The two transport threads around it only move the messages this
/// type builds and classifies.
pub struct LspClient {
    /// Produces a fresh id for every outbound request.
    pub ids: RequestIdAllocator,
    /// True only after a successful initialize response was consumed.
    pub initialized: bool,
    /// The raw capabilities document of the initialize response, written
    /// once.
    pub server_capabilities: Option<Json>,
    /// True once shutdown has been issued; nothing is sent after it.
    pub shutdown_sent: bool,
    /// The most recent published diagnostics, by document uri.
    pub diagnostics: Vec<(String, Json)>,
}

impl LspClient {
    /// The session's basic soundness: live id allocator, and capabilities
    /// exactly while initialized.
    pub open spec fn wf(&self) -> bool {
        &&& self.ids.wf()
        &&& (self.initialized <==> self.server_capabilities is Some)
    }

    /// A fresh session: uninitialized, nothing sent, nothing cached.
    pub fn new() -> (r: LspClient)
        ensures
            r.wf(),
            !r.initialized,
            !r.shutdown_sent,
            r.diagnostics@.len() == 0,
            r.ids.next_spec() == 1,
    {
        LspClient {
            ids: RequestIdAllocator::new(),
            initialized: false,
            server_capabilities: None,
            shutdown_sent: false,
            diagnostics: Vec::new(),
        }
    }

    /// Build a request with a fresh id.  Fails exactly after shutdown.
    pub fn send_request(&mut self, method: String, params: Option<Json>) -> (r: Result<
        Request,
        SessionError,
    >)
        requires
            old(self).wf(),
            old(self).ids.next_spec() < i64::MAX,
        ensures
            final(self).wf(),
            final(self).initialized == old(self).initialized,
            final(self).shutdown_sent == old(self).shutdown_sent,
            final(self).server_capabilities == old(self).server_capabilities,
            final(self).diagnostics == old(self).diagnostics,
            match r {
                Ok(req) => !old(self).shutdown_sent && req.id == old(self).ids.next_spec()
                    && req.method == method && req.params == params && final(self).ids.next_spec() == old(self).ids.next_spec() + 1,
                Err(e) => old(self).shutdown_sent && e == (SessionError::ShutdownIssued) && *final(self) == *old(self),
            },
    {
        if self.shutdown_sent {
            return Err(SessionError::ShutdownIssued);
        }
        let id = self.ids.next_id();
        Ok(Request { id, method, params })
    }

    /// Build a notification.  Fails exactly after shutdown.
    pub fn send_notification(&self, method: String, params: Option<Json>) -> (r: Result<
        Notification,
        SessionError,
    >)
        ensures
            match r {
                Ok(n) => !self.shutdown_sent && n.method == method && n.params == params,
                Err(e) => self.shutdown_sent && e == (SessionError::ShutdownIssued),
            },
    {
        if self.shutdown_sent {
            return Err(SessionError::ShutdownIssued);
        }
        Ok(Notification { method, params })
    }

    /// Begin the handshake: the `initialize` request carrying this client's
    /// capability document, under a fresh id.  Fails exactly when the
    /// session is already initialized or shut down.
    pub fn initialize_request(&mut self) -> (r: Result<Request, SessionError>)
        requires
            old(self).wf(),
            old(self).ids.next_spec() < i64::MAX,
        ensures
            final(self).wf(),
            final(self).initialized == old(self).initialized,
            final(self).shutdown_sent == old(self).shutdown_sent,
            final(self).server_capabilities == old(self).server_capabilities,
            final(self).diagnostics == old(self).diagnostics,
            match r {
                Ok(req) => !old(self).initialized && !old(self).shutdown_sent && req.id == old(self).ids.next_spec() && req.method@ == "initialize"@ && opt_jv(req.params) == Some(
                    client_capabilities_doc(),
                ) && final(self).ids.next_spec() == old(self).ids.next_spec() + 1,
                Err(e) => *final(self) == *old(self) && ((e == (SessionError::AlreadyInitialized)
                    && old(self).initialized) || (e == (SessionError::ShutdownIssued) && !old(self).initialized && old(self).shutdown_sent)),
            },
    {
        if self.initialized {
            return Err(SessionError::AlreadyInitialized);
        }
        if self.shutdown_sent {
            return Err(SessionError::ShutdownIssued);
        }
        let params = get_client_capabilities();
        let id = self.ids.next_id();
        Ok(Request { id, method: String::from_str("initialize"), params: Some(params) })
    }

    /// Consume one inbound message while the initialize response is
    /// awaited.  Anything that is not the matching response is discarded;
    /// an error object fails the handshake and the session stays
    /// uninitialized; the matching response must carry `capabilities`,
    /// which is cached, and exactly then the session becomes initialized
    /// and the `initialized` notification (with empty params) is handed
    /// back to be sent.
    pub fn handle_initialize_message(&mut self, init_id: i64, msg: InboundMessage) -> (r:
        InitStep)
        requires
            old(self).wf(),
            !old(self).initialized,
        ensures
            final(self).wf(),
            final(self).ids == old(self).ids,
            final(self).shutdown_sent == old(self).shutdown_sent,
            final(self).diagnostics == old(self).diagnostics,
            match r {
                InitStep::Discarded => *final(self) == *old(self) && match msg {
                    InboundMessage::Response(resp) => resp.id != init_id,
                    InboundMessage::Error(_) => false,
                    InboundMessage::Notification(_) => true,
                },
                InitStep::Failed(e) => *final(self) == *old(self) && !final(self).initialized
                    && msg is Error && msg->Error_0 == e,
                InitStep::Malformed => *final(self) == *old(self) && !final(self).initialized
                    && msg is Response && msg->Response_0.id == init_id && !(match msg->Response_0.result {
                    Some(res) => jview(res).has_key("capabilities"@),
                    None => false,
                }),
                InitStep::Completed(n) => {
                    &&& msg is Response
                    &&& msg->Response_0.id == init_id
                    &&& msg->Response_0.result is Some
                    &&& jview(msg->Response_0.result->0).has_key("capabilities"@)
                    &&& final(self).initialized
                    &&& final(self).server_capabilities is Some
                    &&& jview(final(self).server_capabilities->0) == jview(
                        msg->Response_0.result->0,
                    ).value_of("capabilities"@)
                    &&& n.method@ == "initialized"@
                    &&& opt_jv(n.params) == Some(JsonV::Obj(Seq::empty()))
                },
            },
    {
        match msg {
            InboundMessage::Error(e) => InitStep::Failed(e),
            InboundMessage::Notification(_) => InitStep::Discarded,
            InboundMessage::Response(resp) => {
                if resp.id != init_id {
                    return InitStep::Discarded;
                }
                match &resp.result {
                    None => InitStep::Malformed,
                    Some(res) => {
                        match crate::msg::lookup(res, "capabilities") {
                            Some(caps) => {
                                let caps = caps.clone_json();
                                self.server_capabilities = Some(caps);
                                self.initialized = true;
                                let empty: Vec<(String, Json)> = Vec::new();
                                let params = Json::Obj(empty);
                                proof {
                                    assert(members_of(params->Obj_0@) =~= Seq::<(
                                        Seq<char>,
                                        JsonV,
                                    )>::empty());
                                }
                                InitStep::Completed(
                                    Notification {
                                        method: String::from_str("initialized"),
                                        params: Some(params),
                                    },
                                )
                            },
                            None => InitStep::Malformed,
                        }
                    },
                }
            },
        }
    }

    /// Decide what one inbound message means for the correlated request
    /// with id `pending_id`: only the response carrying exactly that id
    /// matches; responses to other ids and interleaved notifications are
    /// discarded; an error object fails the wait.
    pub fn match_response(&self, pending_id: i64, msg: InboundMessage) -> (r: RecvStep)
        ensures
            match r {
                RecvStep::Discarded => match msg {
                    InboundMessage::Response(resp) => resp.id != pending_id,
                    InboundMessage::Error(_) => false,
                    InboundMessage::Notification(_) => true,
                },
                RecvStep::Matched(resp) => msg is Response && msg->Response_0 == resp
                    && resp.id == pending_id,
                RecvStep::Failed(e) => msg is Error && msg->Error_0 == e,
            },
    {
        match msg {
            InboundMessage::Error(e) => RecvStep::Failed(e),
            InboundMessage::Notification(_) => RecvStep::Discarded,
            InboundMessage::Response(resp) => {
                if resp.id == pending_id {
                    RecvStep::Matched(resp)
                } else {
                    RecvStep::Discarded
                }
            },
        }
    }

    /// Record a server-pushed notification: published diagnostics are
    /// cached under their document's uri, replacing what was cached for it;
    /// everything else is ignored.
    pub fn note_notification(&mut self, n: &Notification)
        requires
            old(self).wf(),
        ensures
            final(self).wf(),
            final(self).ids == old(self).ids,
            final(self).initialized == old(self).initialized,
            final(self).shutdown_sent == old(self).shutdown_sent,
            final(self).server_capabilities == old(self).server_capabilities,
            ({
                let is_diag = n.method@ == "textDocument/publishDiagnostics"@ && match n.params {
                    Some(p) => jview(p).has_key("uri"@) && jview(p).value_of("uri"@) is Str,
                    None => false,
                };
                if is_diag {
                    members_of(final(self).diagnostics@) == diag_upsert(
                        members_of(old(self).diagnostics@),
                        jview(n.params->0).value_of("uri"@)->Str_0,
                        jview(n.params->0),
                    )
                } else {
                    final(self).diagnostics == old(self).diagnostics
                }
            }),
    {
        if !crate::msg::method_is(n, "textDocument/publishDiagnostics") {
            return ;
        }
        match &n.params {
            None => {},
            Some(p) => {
                match crate::msg::lookup(p, "uri") {
                    Some(u) => {
                        match u {
                            Json::Str(uri) => {
                                let uri = uri.clone();
                                let value = p.clone_json();
                                self.upsert_diagnostic(uri, value);
                            },
                            _ => {},
                        }
                    },
                    None => {},
                }
            },
        }
    }

    #[verifier::loop_isolation(false)]
    fn upsert_diagnostic(&mut self, uri: String, value: Json)
        requires
            old(self).wf(),
        ensures
            final(self).wf(),
            final(self).ids == old(self).ids,
            final(self).initialized == old(self).initialized,
            final(self).shutdown_sent == old(self).shutdown_sent,
            final(self).server_capabilities == old(self).server_capabilities,
            members_of(final(self).diagnostics@) == diag_upsert(
                members_of(old(self).diagnostics@),
                uri@,
                jview(value),
            ),
    {
        let ghost dv = members_of(self.diagnostics@);
        let n = self.diagnostics.len();
        let mut i: usize = 0;
        while i < n
            invariant
                n == self.diagnostics@.len(),
                dv == members_of(self.diagnostics@),
                i <= n,
                forall|t: int| 0 <= t < i ==> (#[trigger] dv[t]).0 != uri@,
                *self == *old(self),
            decreases n - i,
        {
            if crate::msg::str_eq(self.diagnostics[i].0.as_str(), uri.as_str()) {
                proof {
                    assert(dv[i as int].0 == uri@);
                    lemma_diag_upsert_found(dv, uri@, jview(value), i as int);
                }
                self.diagnostics[i] = (uri, value);
                proof {
                    assert(members_of(self.diagnostics@) =~= dv.update(
                        i as int,
                        (uri@, jview(value)),
                    ));
                }
                return ;
            }
            proof {
                assert(dv[i as int].0 == self.diagnostics@[i as int].0@);
            }
            i = i + 1;
        }
        proof {
            lemma_diag_upsert_none(dv, uri@, jview(value));
        }
        self.diagnostics.push((uri, value));
        proof {
            assert(members_of(self.diagnostics@) =~= dv.push((uri@, jview(value))));
        }
    }

    /// The diagnostics last published for `file_path`, or None if the
    /// server never published any for it.
    #[verifier::loop_isolation(false)]
    pub fn get_file_diagnostic(&self, file_path: &str) -> (r: Option<&Json>)
        ensures
            match r {
                Some(d) => crate::json::obj_has_key(
                    members_of(self.diagnostics@),
                    file_uri_of(file_path@),
                ) && jview(*d) == crate::json::obj_value_of(
                    members_of(self.diagnostics@),
                    file_uri_of(file_path@),
                ),
                None => !crate::json::obj_has_key(
                    members_of(self.diagnostics@),
                    file_uri_of(file_path@),
                ),
            },
    {
        let uri = file_uri(file_path);
        let ghost dv = members_of(self.diagnostics@);
        let n = self.diagnostics.len();
        let mut i: usize = 0;
        while i < n
            invariant
                n == self.diagnostics@.len(),
                dv == members_of(self.diagnostics@),
                uri@ == file_uri_of(file_path@),
                i <= n,
                forall|t: int| 0 <= t < i ==> (#[trigger] dv[t]).0 != uri@,
            decreases n - i,
        {
            if crate::msg::str_eq(self.diagnostics[i].0.as_str(), uri.as_str()) {
                proof {
                    assert(dv[i as int].0 == uri@);
                    crate::msg::lemma_obj_index_found(dv, uri@, i as int);
                }
                return Some(&self.diagnostics[i].1);
            }
            proof {
                assert(dv[i as int].0 == self.diagnostics@[i as int].0@);
            }
            i = i + 1;
        }
        proof {
            crate::msg::lemma_obj_index_none(dv, uri@);
        }
        None
    }

    /// The `textDocument/didOpen` notification for a document.  Fails
    /// exactly after shutdown.
    pub fn did_open(&self, file_path: &str, file_contents: &str) -> (r: Result<
        Notification,
        SessionError,
    >)
        ensures
            match r {
                Ok(n) => !self.shutdown_sent && n.method@ == "textDocument/didOpen"@ && opt_jv(
                    n.params,
                ) == Some(did_open_params(file_path@, file_contents@)),
                Err(e) => self.shutdown_sent && e == (SessionError::ShutdownIssued),
            },
    {
        if self.shutdown_sent {
            return Err(SessionError::ShutdownIssued);
        }
        let mut td: Vec<(String, Json)> = Vec::new();
        td.push((key("uri"), Json::Str(file_uri(file_path))));
        td.push((key("languageId"), Json::Str(key("rust"))));
        td.push((key("version"), Json::Int(1)));
        td.push((key("text"), Json::Str(String::from_str(file_contents))));
        let td = Json::Obj(td);
        let mut ps: Vec<(String, Json)> = Vec::new();
        ps.push((key("textDocument"), td));
        let ps = Json::Obj(ps);
        proof {
            assert(members_of(ps->Obj_0@[0].1->Obj_0@) =~= did_open_params(
                file_path@,
                file_contents@,
            )->Obj_0[0].1->Obj_0);
            assert(members_of(ps->Obj_0@) =~= did_open_params(file_path@, file_contents@)->Obj_0);
        }
        Ok(Notification { method: String::from_str("textDocument/didOpen"), params: Some(ps) })
    }

    /// The `textDocument/didChange` notification carrying the document's
    /// full new text.  Fails exactly after shutdown.
    pub fn did_change(&self, file_path: &str, file_contents: &str) -> (r: Result<
        Notification,
        SessionError,
    >)
        ensures
            match r {
                Ok(n) => !self.shutdown_sent && n.method@ == "textDocument/didChange"@ && opt_jv(
                    n.params,
                ) == Some(did_change_params(file_path@, file_contents@)),
                Err(e) => self.shutdown_sent && e == (SessionError::ShutdownIssued),
            },
    {
        if self.shutdown_sent {
            return Err(SessionError::ShutdownIssued);
        }
        let mut td: Vec<(String, Json)> = Vec::new();
        td.push((key("uri"), Json::Str(file_uri(file_path))));
        td.push((key("version"), Json::Int(1)));
        let td = Json::Obj(td);
        let mut ch: Vec<(String, Json)> = Vec::new();
        ch.push((key("text"), Json::Str(String::from_str(file_contents))));
        let ch = Json::Obj(ch);
        let mut changes: Vec<Json> = Vec::new();
        changes.push(ch);
        let changes = Json::Arr(changes);
        let mut ps: Vec<(String, Json)> = Vec::new();
        ps.push((key("textDocument"), td));
        ps.push((key("contentChanges"), changes));
        let ps = Json::Obj(ps);
        proof {
            let target = did_change_params(file_path@, file_contents@);
            assert(members_of(ps->Obj_0@[0].1->Obj_0@) =~= target->Obj_0[0].1->Obj_0);
            crate::json::lemma_views_of(ps->Obj_0@[1].1->Arr_0@);
            assert(members_of(ps->Obj_0@[1].1->Arr_0@[0]->Obj_0@) =~= target->Obj_0[1].1->Arr_0[0]->Obj_0);
            assert(crate::json::views_of(ps->Obj_0@[1].1->Arr_0@) =~= target->Obj_0[1].1->Arr_0);
            assert(members_of(ps->Obj_0@) =~= target->Obj_0);
        }
        Ok(Notification { method: String::from_str("textDocument/didChange"), params: Some(ps) })
    }

    /// The `textDocument/didSave` notification carrying the saved text.
    /// Fails exactly after shutdown.
    pub fn did_save(&self, file_path: &str, file_contents: &str) -> (r: Result<
        Notification,
        SessionError,
    >)
        ensures
            match r {
                Ok(n) => !self.shutdown_sent && n.method@ == "textDocument/didSave"@ && opt_jv(
                    n.params,
                ) == Some(did_save_params(file_path@, file_contents@)),
                Err(e) => self.shutdown_sent && e == (SessionError::ShutdownIssued),
            },
    {
        if self.shutdown_sent {
            return Err(SessionError::ShutdownIssued);
        }
        let mut td: Vec<(String, Json)> = Vec::new();
        td.push((key("uri"), Json::Str(file_uri(file_path))));
        let td = Json::Obj(td);
        let mut ps: Vec<(String, Json)> = Vec::new();
        ps.push((key("textDocument"), td));
        ps.push((key("text"), Json::Str(String::from_str(file_contents))));
        let ps = Json::Obj(ps);
        proof {
            let target = did_save_params(file_path@, file_contents@);
            assert(members_of(ps->Obj_0@[0].1->Obj_0@) =~= target->Obj_0[0].1->Obj_0);
            assert(members_of(ps->Obj_0@) =~= target->Obj_0);
        }
        Ok(Notification { method: String::from_str("textDocument/didSave"), params: Some(ps) })
    }

    /// The `textDocument/hover` request for a position, under a fresh id.
    /// Fails exactly before the handshake or after shutdown.
    pub fn hover_request(&mut self, file_path: &str, line: usize, character: usize) -> (r:
        Result<Request, SessionError>)
        requires
            old(self).wf(),
            old(self).ids.next_spec() < i64::MAX,
            line <= i64::MAX,
            character <= i64::MAX,
        ensures
            final(self).wf(),
            final(self).initialized == old(self).initialized,
            final(self).shutdown_sent == old(self).shutdown_sent,
            final(self).server_capabilities == old(self).server_capabilities,
            final(self).diagnostics == old(self).diagnostics,
            match r {
                Ok(req) => old(self).initialized && !old(self).shutdown_sent && req.id == old(self).ids.next_spec() && req.method@ == "textDocument/hover"@ && opt_jv(req.params)
                    == Some(position_params(file_path@, line as int, character as int)) && final(self).ids.next_spec() == old(self).ids.next_spec() + 1,
                Err(e) => *final(self) == *old(self) && ((e == (SessionError::NotInitialized)
                    && !old(self).initialized) || (e == (SessionError::ShutdownIssued) && old(self).initialized && old(self).shutdown_sent)),
            },
    {
        if !self.initialized {
            return Err(SessionError::NotInitialized);
        }
        if self.shutdown_sent {
            return Err(SessionError::ShutdownIssued);
        }
        let params = build_position_params(file_path, line, character);
        let id = self.ids.next_id();
        Ok(Request { id, method: String::from_str("textDocument/hover"), params: Some(params) })
    }

    /// The `textDocument/completion` request for a position, under a fresh
    /// id.  Fails exactly before the handshake or after shutdown.
    pub fn completion_request(&mut self, file_path: &str, line: usize, character: usize) -> (r:
        Result<Request, SessionError>)
        requires
            old(self).wf(),
            old(self).ids.next_spec() < i64::MAX,
            line <= i64::MAX,
            character <= i64::MAX,
        ensures
            final(self).wf(),
            final(self).initialized == old(self).initialized,
            final(self).shutdown_sent == old(self).shutdown_sent,
            final(self).server_capabilities == old(self).server_capabilities,
            final(self).diagnostics == old(self).diagnostics,
            match r {
                Ok(req) => old(self).initialized && !old(self).shutdown_sent && req.id == old(self).ids.next_spec() && req.method@ == "textDocument/completion"@ && opt_jv(
                    req.params,
                ) == Some(position_params(file_path@, line as int, character as int)) && final(self).ids.next_spec() == old(self).ids.next_spec() + 1,
                Err(e) => *final(self) == *old(self) && ((e == (SessionError::NotInitialized)
                    && !old(self).initialized) || (e == (SessionError::ShutdownIssued) && old(self).initialized && old(self).shutdown_sent)),
            },
    {
        if !self.initialized {
            return Err(SessionError::NotInitialized);
        }
        if self.shutdown_sent {
            return Err(SessionError::ShutdownIssued);
        }
        let params = build_position_params(file_path, line, character);
        let id = self.ids.next_id();
        Ok(
            Request {
                id,
                method: String::from_str("textDocument/completion"),
                params: Some(params),
            },
        )
    }

    /// The `shutdown` request, under a fresh id.  After it no request or
    /// notification can be built; issuing it twice fails.
    pub fn shutdown(&mut self) -> (r: Result<Request, SessionError>)
        requires
            old(self).wf(),
            old(self).ids.next_spec() < i64::MAX,
        ensures
            final(self).wf(),
            final(self).initialized == old(self).initialized,
            final(self).server_capabilities == old(self).server_capabilities,
            final(self).diagnostics == old(self).diagnostics,
            match r {
                Ok(req) => !old(self).shutdown_sent && final(self).shutdown_sent && req.id == old(self).ids.next_spec() && req.method@ == "shutdown"@ && req.params is None && final(self).ids.next_spec() == old(self).ids.next_spec() + 1,
                Err(e) => old(self).shutdown_sent && e == (SessionError::ShutdownIssued) && *final(self) == *old(self),
            },
    {
        if self.shutdown_sent {
            return Err(SessionError::ShutdownIssued);
        }
        let id = self.ids.next_id();
        self.shutdown_sent = true;
        Ok(Request { id, method: String::from_str("shutdown"), params: None })
    }
}

/// Replace the first entry under `uri`, or append a new one.
pub open spec fn diag_upsert(
    cache: Seq<(Seq<char>, JsonV)>,
    uri: Seq<char>,
    value: JsonV,
) -> Seq<(Seq<char>, JsonV)> {
    let i = obj_index_of(cache, uri);
    if i >= 0 {
        cache.update(i, (uri, value))
    } else {
        cache.push((uri, value))
    }
}

proof fn lemma_diag_upsert_found(
    cache: Seq<(Seq<char>, JsonV)>,
    uri: Seq<char>,
    value: JsonV,
    j: int,
)
    requires
        0 <= j < cache.len(),
        cache[j].0 == uri,
        forall|t: int| 0 <= t < j ==> (#[trigger] cache[t]).0 != uri,
    ensures
        diag_upsert(cache, uri, value) == cache.update(j, (uri, value)),
{
    crate::msg::lemma_obj_index_found(cache, uri, j);
}

proof fn lemma_diag_upsert_none(cache: Seq<(Seq<char>, JsonV)>, uri: Seq<char>, value: JsonV)
    requires
        forall|t: int| 0 <= t < cache.len() ==> (#[trigger] cache[t]).0 != uri,
    ensures
        diag_upsert(cache, uri, value) == cache.push((uri, value)),
{
    crate::msg::lemma_obj_index_none(cache, uri);
}

fn key(s: &str) -> (r: String)
    ensures
        r@ == s@,
{
    String::from_str(s)
}

/// The `file://` uri of a path.
pub fn file_uri(path: &str) -> (r: String)
    ensures
        r@ == file_uri_of(path@),
{
    let mut u = String::from_str("file://");
    u.append(path);
    u
}

fn build_position_params(file_path: &str, line: usize, character: usize) -> (r: Json)
    requires
        line <= i64::MAX,
        character <= i64::MAX,
    ensures
        r@ == position_params(file_path@, line as int, character as int),
{
    let mut td: Vec<(String, Json)> = Vec::new();
    td.push((key("uri"), Json::Str(file_uri(file_path))));
    let td = Json::Obj(td);
    let mut pos: Vec<(String, Json)> = Vec::new();
    pos.push((key("line"), Json::Int(line as i64)));
    pos.push((key("character"), Json::Int(character as i64)));
    let pos = Json::Obj(pos);
    let mut ps: Vec<(String, Json)> = Vec::new();
    ps.push((key("textDocument"), td));
    ps.push((key("position"), pos));
    let ps = Json::Obj(ps);
    proof {
        let target = position_params(file_path@, line as int, character as int);
        assert(members_of(ps->Obj_0@[0].1->Obj_0@) =~= target->Obj_0[0].1->Obj_0);
        assert(members_of(ps->Obj_0@[1].1->Obj_0@) =~= target->Obj_0[1].1->Obj_0);
        assert(members_of(ps->Obj_0@) =~= target->Obj_0);
    }
    ps
}

} // verus!

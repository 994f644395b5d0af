//! Asynchronous protocol client for an out-of-process language server.
//!
//! This module holds the client's verified core: the single-slot request
//! queue and the latest-wins response buffer shared between the two
//! background workers, the routing of responses by id, and the construction
//! of the framed wire messages. Spawning the server process and pumping its
//! pipes happen outside; the workers drive this state machine through its
//! methods.
use vstd::prelude::*;

use crate::core_text::Cursor;
use crate::wire::encode_frame;
use crate::wire::frame_spec;

verus! {

/// Request id of the initialize request.
pub const ID_INIT: u64 = 0;

/// Request id of every completion request: only one is in flight by design,
/// so the latest answered response stands for the latest requested lookup.
pub const ID_COMPLETION: u64 = 1;

/// One completion proposal: the keyword to insert and its documentation.
#[derive(Clone, PartialEq, Eq, Debug)]
pub struct Completion {
    pub keyword: String,
    pub doc: String,
}

/// The numeric id of the JSON-RPC success response encoded in `msg`, or
/// nothing for malformed JSON, a failure response or a non-numeric id. A
/// function of the message bytes alone.
pub uninterp spec fn rpc_id_of(msg: Seq<u8>) -> Option<u64>;

/// The (keyword, documentation) pairs of the completion response encoded in
/// `msg`, or nothing when `msg` is not a success response carrying a
/// decodable completion result. A function of the message bytes alone.
pub uninterp spec fn completion_items_of(msg: Seq<u8>) -> Option<Seq<(Seq<char>, Seq<char>)>>;

/// The (keyword, documentation) pairs a batch of completions holds.
pub open spec fn completions_view(batch: Seq<Completion>) -> Seq<(Seq<char>, Seq<char>)> {
    Seq::new(batch.len(), |i: int| (batch[i].keyword@, batch[i].doc@))
}

/// Relies on serde_json::from_slice and jsonrpc_core's response types:
/// reads a JSON-RPC message and hands back the numeric id of a success
/// response; anything else (malformed JSON, a failure response, a
/// non-numeric id) yields nothing. Deterministic in the bytes.
#[verifier::external_body]
fn parse_response_id(msg: &[u8]) -> (r: Option<u64>)
    ensures
        r == rpc_id_of(msg@),
{
    match serde_json::from_slice::<jsonrpc_core::Output>(msg) {
        Ok(jsonrpc_core::Output::Success(s)) => match s.id {
            jsonrpc_core::Id::Num(n) => Some(n),
            _ => None,
        },
        _ => None,
    }
}

/// Relies on serde_json::from_slice/from_value and languageserver_types'
/// CompletionResponse: decodes a success response's result into plain
/// (keyword, documentation) pairs, one per proposed item, an absent
/// documentation becoming the empty string; nothing when the message is
/// not a decodable completion response. Deterministic in the bytes.
#[verifier::external_body]
fn decode_completion(msg: &[u8]) -> (r: Option<Vec<Completion>>)
    ensures
        r is Some <==> completion_items_of(msg@) is Some,
        r matches Some(batch) ==> Some(completions_view(batch@)) == completion_items_of(msg@),
{
    let value = match serde_json::from_slice::<jsonrpc_core::Output>(msg) {
        Ok(jsonrpc_core::Output::Success(s)) => s.result,
        _ => return None,
    };
    let response = serde_json::from_value::<languageserver_types::CompletionResponse>(value).ok()?;
    let items = match response {
        languageserver_types::CompletionResponse::Array(items) => items,
        languageserver_types::CompletionResponse::List(list) => list.items,
    };
    Some(items.into_iter().map(
        |item| Completion { keyword: item.label, doc: item.detail.unwrap_or_default() },
    ).collect())
}

/// The JSON-RPC notification announcing a freshly opened document with the
/// given extension and content, or nothing when no file URL can be formed
/// from the extension. A function of the arguments alone.
pub uninterp spec fn did_open_json(extension: Seq<char>, text: Seq<char>) -> Option<Seq<u8>>;

/// The JSON-RPC completion request at the given position, or nothing when
/// no file URL can be formed from the extension. A function of the
/// arguments alone.
pub uninterp spec fn completion_request_json(extension: Seq<char>, row: u64, col: u64) -> Option<
    Seq<u8>,
>;

/// The JSON-RPC initialize request for the given root path, or nothing
/// when it cannot be serialized. A function of the argument alone.
pub uninterp spec fn initialize_json(root_path: Seq<char>) -> Option<Seq<u8>>;

/// Relies on languageserver_types (Url::parse, DidOpenTextDocumentParams)
/// and serde_json::to_string through jsonrpc_core::Notification: serializes
/// the "document opened" notification; the maps are ordered, so the result
/// depends on the arguments alone, and it exists exactly when the named
/// serialization does.
#[verifier::external_body]
fn did_open_payload(extension: &str, text: &str) -> (r: Option<Vec<u8>>)
    ensures
        r is Some <==> did_open_json(extension@, text@) is Some,
        r matches Some(v) ==> Some(v@) == did_open_json(extension@, text@),
{
    let uri = languageserver_types::Url::parse(&format!("file://localhost/main.{}", extension)).ok()?;
    let item = languageserver_types::TextDocumentItem { uri, language_id: extension.to_string(), version: 0, text: text.to_string() };
    let params = languageserver_types::DidOpenTextDocumentParams { text_document: item };
    let map = match serde_json::to_value(params) {
        Ok(serde_json::Value::Object(map)) => map,
        _ => return None,
    };
    let method = <languageserver_types::notification::DidOpenTextDocument as languageserver_types::notification::Notification>::METHOD.to_string();
    let req = jsonrpc_core::Notification { jsonrpc: Some(jsonrpc_core::Version::V2), method, params: jsonrpc_core::Params::Map(map) };
    Some(serde_json::to_string(&req).ok()?.into_bytes())
}

/// Relies on languageserver_types (Url::parse, CompletionParams) and
/// serde_json::to_string through jsonrpc_core::MethodCall: serializes the
/// completion request with the fixed completion id; the result depends on
/// the arguments alone, and it exists exactly when the named serialization
/// does.
#[verifier::external_body]
fn completion_payload(extension: &str, row: u64, col: u64) -> (r: Option<Vec<u8>>)
    ensures
        r is Some <==> completion_request_json(extension@, row, col) is Some,
        r matches Some(v) ==> Some(v@) == completion_request_json(extension@, row, col),
{
    let uri = languageserver_types::Url::parse(&format!("file://localhost/main.{}", extension)).ok()?;
    let text_document = languageserver_types::TextDocumentIdentifier { uri };
    let position = languageserver_types::Position { line: row, character: col };
    let params = languageserver_types::CompletionParams { text_document, position, context: None };
    let map = match serde_json::to_value(params) {
        Ok(serde_json::Value::Object(map)) => map,
        _ => return None,
    };
    let method = <languageserver_types::request::Completion as languageserver_types::request::Request>::METHOD.to_string();
    let id = jsonrpc_core::Id::Num(ID_COMPLETION);
    let req = jsonrpc_core::MethodCall { jsonrpc: Some(jsonrpc_core::Version::V2), method, params: jsonrpc_core::Params::Map(map), id };
    Some(serde_json::to_string(&req).ok()?.into_bytes())
}

/// Relies on languageserver_types::InitializeParams and
/// serde_json::to_string through jsonrpc_core::MethodCall: serializes the
/// initialize request with the fixed initialize id; the result depends on
/// the root path alone, and it exists exactly when the named serialization
/// does.
#[verifier::external_body]
fn initialize_payload(root_path: &str) -> (r: Option<Vec<u8>>)
    ensures
        r is Some <==> initialize_json(root_path@) is Some,
        r matches Some(v) ==> Some(v@) == initialize_json(root_path@),
{
    let capabilities = languageserver_types::ClientCapabilities::default();
    let params = languageserver_types::InitializeParams {
        process_id: None, root_path: Some(root_path.to_string()), root_uri: None,
        initialization_options: None, capabilities, trace: None, workspace_folders: None,
    };
    let map = match serde_json::to_value(params) {
        Ok(serde_json::Value::Object(map)) => map,
        _ => return None,
    };
    let method = <languageserver_types::request::Initialize as languageserver_types::request::Request>::METHOD.to_string();
    let req = jsonrpc_core::MethodCall { jsonrpc: Some(jsonrpc_core::Version::V2), method, params: jsonrpc_core::Params::Map(map), id: jsonrpc_core::Id::Num(ID_INIT) };
    Some(serde_json::to_string(&req).ok()?.into_bytes())
}

/// The framed initialize request, sent once before anything else.
pub fn build_initialize_message(root_path: &str) -> (r: Option<Vec<u8>>)
    ensures
        r is Some <==> initialize_json(root_path@) is Some,
        r matches Some(v) ==> v@ == frame_spec(initialize_json(root_path@).unwrap()),
{
    match initialize_payload(root_path) {
        Some(payload) => Some(encode_frame(&payload)),
        None => None,
    }
}

/// The framed "document opened" notification for one queued lookup.
pub fn build_did_open_message(extension: &str, text: &str) -> (r: Option<Vec<u8>>)
    ensures
        r is Some <==> did_open_json(extension@, text@) is Some,
        r matches Some(v) ==> v@ == frame_spec(did_open_json(extension@, text@).unwrap()),
{
    match did_open_payload(extension, text) {
        Some(payload) => Some(encode_frame(&payload)),
        None => None,
    }
}

/// The framed completion request for one queued lookup.
pub fn build_completion_message(extension: &str, cursor: Cursor) -> (r: Option<Vec<u8>>)
    ensures
        r is Some <==> completion_request_json(extension@, cursor.row as u64, cursor.col as u64)
            is Some,
        r matches Some(v) ==> v@ == frame_spec(
            completion_request_json(extension@, cursor.row as u64, cursor.col as u64).unwrap(),
        ),
{
    match completion_payload(extension, cursor.row as u64, cursor.col as u64) {
        Some(payload) => Some(encode_frame(&payload)),
        None => None,
    }
}

/// Both framed messages of one lookup, in wire order: the "document
/// opened" notification first, the completion request right after it —
/// writing these bytes as one block fixes that order on the wire.
pub fn build_lookup_messages(extension: &str, text: &str, cursor: Cursor) -> (r: Option<Vec<u8>>)
    ensures
        r is Some <==> (did_open_json(extension@, text@) is Some && completion_request_json(
            extension@,
            cursor.row as u64,
            cursor.col as u64,
        ) is Some),
        r matches Some(v) ==> v@ == frame_spec(did_open_json(extension@, text@).unwrap())
            + frame_spec(
            completion_request_json(extension@, cursor.row as u64, cursor.col as u64).unwrap(),
        ),
{
    match build_did_open_message(extension, text) {
        Some(mut open_msg) => match build_completion_message(extension, cursor) {
            Some(mut completion_msg) => {
                open_msg.append(&mut completion_msg);
                Some(open_msg)
            },
            None => None,
        },
        None => None,
    }
}

/// Where a response with the given id is routed.
#[derive(Clone, Copy, PartialEq, Eq, Structural, Debug)]
pub enum Route {
    /// The initialize acknowledgment the writer worker waits for.
    InitializeAck,
    /// A completion result for the single in-flight completion slot.
    CompletionResult,
    /// Any other id: dropped.
    Ignored,
}

/// Routes a response id to its channel: the initialize id to the
/// initialize acknowledgment, the completion id to the completion slot,
/// everything else nowhere.
pub fn route_response(id: u64) -> (r: Route)
    ensures
        r == (if id == ID_INIT {
            Route::InitializeAck
        } else if id == ID_COMPLETION {
            Route::CompletionResult
        } else {
            Route::Ignored
        }),
{
    if id == ID_INIT {
        Route::InitializeAck
    } else if id == ID_COMPLETION {
        Route::CompletionResult
    } else {
        Route::Ignored
    }
}

/// Verified core of the protocol client.
///
/// `queued` holds the (source text, cursor) lookups the writer worker has
/// not yet sent, in submission order; the writer services it only once the
/// initialize acknowledgment was seen. `received` holds the completion
/// batches the reader worker has delivered and nobody polled yet, in
/// arrival order; `poll` drains it and keeps only the most recent batch.
pub struct LSPClient {
    initialized: bool,
    writer_alive: bool,
    queued: Vec<(String, Cursor)>,
    received: Vec<Vec<Completion>>,
}

impl LSPClient {
    /// Whether the initialize acknowledgment has been seen.
    pub closed spec fn spec_initialized(self) -> bool {
        self.initialized
    }

    /// Whether the writer worker still runs.
    pub closed spec fn spec_writer_alive(self) -> bool {
        self.writer_alive
    }

    /// The pending lookups, in submission order.
    pub closed spec fn spec_queued(self) -> Seq<(String, Cursor)> {
        self.queued@
    }

    /// The undrained completion batches, in arrival order.
    pub closed spec fn spec_received(self) -> Seq<Vec<Completion>> {
        self.received@
    }

    /// A fresh client: not initialized, writer running, nothing queued or
    /// received.
    pub fn new() -> (r: Self)
        ensures
            !r.spec_initialized(),
            r.spec_writer_alive(),
            r.spec_queued() == Seq::<(String, Cursor)>::empty(),
            r.spec_received() == Seq::<Vec<Completion>>::empty(),
    {
        LSPClient { initialized: false, writer_alive: true, queued: Vec::new(), received: Vec::new() }
    }

    /// Fire-and-forget completion lookup: appended to the queue, or silently
    /// dropped if the writer worker has already exited. Never blocks and
    /// never touches the responses already received.
    pub fn request_completion(&mut self, src: String, cursor: Cursor)
        ensures
            final(self).spec_queued() == if old(self).spec_writer_alive() {
                old(self).spec_queued().push((src, cursor))
            } else {
                old(self).spec_queued()
            },
            final(self).spec_received() == old(self).spec_received(),
            final(self).spec_initialized() == old(self).spec_initialized(),
            final(self).spec_writer_alive() == old(self).spec_writer_alive(),
    {
        if self.writer_alive {
            self.queued.push((src, cursor));
        }
    }

    /// Marks the writer worker as exited: later lookups are dropped.
    pub fn note_writer_exited(&mut self)
        ensures
            !final(self).spec_writer_alive(),
            final(self).spec_queued() == old(self).spec_queued(),
            final(self).spec_received() == old(self).spec_received(),
            final(self).spec_initialized() == old(self).spec_initialized(),
    {
        self.writer_alive = false;
    }

    /// Records the initialize acknowledgment: the writer may start sending.
    pub fn note_initialized(&mut self)
        ensures
            final(self).spec_initialized(),
            final(self).spec_queued() == old(self).spec_queued(),
            final(self).spec_received() == old(self).spec_received(),
            final(self).spec_writer_alive() == old(self).spec_writer_alive(),
    {
        self.initialized = true;
    }

    /// Hands the writer worker its next lookup: the oldest queued one, and
    /// only after initialization; the queue keeps submission order.
    pub fn writer_take(&mut self) -> (r: Option<(String, Cursor)>)
        ensures
            final(self).spec_received() == old(self).spec_received(),
            final(self).spec_initialized() == old(self).spec_initialized(),
            final(self).spec_writer_alive() == old(self).spec_writer_alive(),
            if old(self).spec_initialized() && old(self).spec_queued().len() > 0 {
                &&& r == Some(old(self).spec_queued()[0])
                &&& final(self).spec_queued() == old(self).spec_queued().skip(1)
            } else {
                &&& r is None
                &&& final(self).spec_queued() == old(self).spec_queued()
            },
    {
        if self.initialized && self.queued.len() > 0 {
            let item = self.queued.remove(0);
            proof {
                assert(self.queued@ =~= old(self).queued@.skip(1));
            }
            Some(item)
        } else {
            None
        }
    }

    /// Records one completion batch delivered by the reader worker.
    pub fn handle_completion_response(&mut self, batch: Vec<Completion>)
        ensures
            final(self).spec_received() == old(self).spec_received().push(batch),
            final(self).spec_queued() == old(self).spec_queued(),
            final(self).spec_initialized() == old(self).spec_initialized(),
            final(self).spec_writer_alive() == old(self).spec_writer_alive(),
    {
        self.received.push(batch);
    }

    /// Consumes one wire payload from the reader worker and dispatches it
    /// by its response id: the initialize id records the acknowledgment, the
    /// completion id appends the decoded batch to the received buffer, and
    /// everything else — another id, a failure response, an undecodable
    /// payload — is dropped. The queue and the writer are never touched and
    /// initialization is never undone.
    pub fn handle_message(&mut self, msg: &[u8])
        ensures
            final(self).spec_queued() == old(self).spec_queued(),
            final(self).spec_writer_alive() == old(self).spec_writer_alive(),
            final(self).spec_initialized() == (old(self).spec_initialized() || rpc_id_of(msg@)
                == Some(ID_INIT)),
            ({
                let items = completion_items_of(msg@);
                if rpc_id_of(msg@) == Some(ID_COMPLETION) && items is Some {
                    &&& final(self).spec_received().len() == old(self).spec_received().len() + 1
                    &&& final(self).spec_received().take(old(self).spec_received().len() as int)
                        == old(self).spec_received()
                    &&& Some(completions_view(final(self).spec_received().last()@)) == items
                } else {
                    final(self).spec_received() == old(self).spec_received()
                }
            }),
    {
        proof {
            assert(old(self).spec_received().take(old(self).spec_received().len() as int) =~= old(
                self,
            ).spec_received());
        }
        match parse_response_id(msg) {
            Some(id) => {
                match route_response(id) {
                    Route::InitializeAck => {
                        self.note_initialized();
                    },
                    Route::CompletionResult => {
                        match decode_completion(msg) {
                            Some(batch) => {
                                self.handle_completion_response(batch);
                                proof {
                                    assert(self.spec_received().take(
                                        old(self).spec_received().len() as int,
                                    ) =~= old(self).spec_received());
                                }
                            },
                            None => {},
                        }
                    },
                    Route::Ignored => {},
                }
            },
            None => {},
        }
    }

    /// Non-blocking poll: drains every buffered batch and returns only the
    /// most recently received one — which answers the latest answered
    /// request, not necessarily the latest submitted one.
    pub fn poll(&mut self) -> (r: Option<Vec<Completion>>)
        ensures
            final(self).spec_received().len() == 0,
            final(self).spec_queued() == old(self).spec_queued(),
            final(self).spec_initialized() == old(self).spec_initialized(),
            final(self).spec_writer_alive() == old(self).spec_writer_alive(),
            r == if old(self).spec_received().len() > 0 {
                Some(old(self).spec_received().last())
            } else {
                Option::<Vec<Completion>>::None
            },
    {
        let last = self.received.pop();
        self.received.clear();
        last
    }
}

/// Last-received-wins: whichever batch arrives last is the one a poll
/// yields, however many lookups were submitted before, because submissions
/// never touch the response buffer and a poll takes the buffer's last
/// entry.
pub proof fn lemma_latest_received_wins(
    buffered: Seq<Vec<Completion>>,
    first: Vec<Completion>,
    second: Vec<Completion>,
)
    ensures
        buffered.push(first).push(second).last() == second,
{
}

} // verus!

use accepted::core_text::Cursor;
use accepted::lsp::{
    build_completion_message, build_did_open_message, build_initialize_message,
    build_lookup_messages, route_response, Completion, LSPClient, Route, ID_COMPLETION, ID_INIT,
};

fn batch(names: &[&str]) -> Vec<Completion> {
    names
        .iter()
        .map(|n| Completion { keyword: n.to_string(), doc: String::new() })
        .collect()
}

#[test]
fn poll_observes_only_the_last_received_response() {
    let mut client = LSPClient::new();
    client.note_initialized();
    // two lookups go out before any answer arrives
    client.request_completion("fn ma".to_string(), Cursor { row: 0, col: 5 });
    client.request_completion("fn mai".to_string(), Cursor { row: 0, col: 6 });
    assert!(client.writer_take().is_some());
    assert!(client.writer_take().is_some());
    // two answers arrive; whichever came last is the one a poll sees
    client.handle_completion_response(batch(&["first"]));
    client.handle_completion_response(batch(&["second"]));
    let got = client.poll().expect("a batch was buffered");
    assert_eq!(got, batch(&["second"]));
    // the buffer was drained
    assert!(client.poll().is_none());
}

#[test]
fn requests_are_dropped_after_the_writer_exits() {
    let mut client = LSPClient::new();
    client.note_initialized();
    client.note_writer_exited();
    client.request_completion("src".to_string(), Cursor { row: 0, col: 0 });
    assert!(client.writer_take().is_none());
}

#[test]
fn writer_waits_for_the_initialize_ack() {
    let mut client = LSPClient::new();
    client.request_completion("src".to_string(), Cursor { row: 0, col: 0 });
    assert!(client.writer_take().is_none());
    client.note_initialized();
    let (text, cursor) = client.writer_take().expect("initialized writer services the queue");
    assert_eq!(text, "src".to_string());
    assert_eq!(cursor, Cursor { row: 0, col: 0 });
}

#[test]
fn responses_route_by_fixed_ids() {
    assert_eq!(route_response(ID_INIT), Route::InitializeAck);
    assert_eq!(route_response(ID_COMPLETION), Route::CompletionResult);
    assert_eq!(route_response(5), Route::Ignored);
}

#[test]
fn handle_message_delivers_completion_batches() {
    let mut client = LSPClient::new();
    let init_ack = b"{\"jsonrpc\":\"2.0\",\"result\":{},\"id\":0}";
    client.handle_message(init_ack);
    client.request_completion("x".to_string(), Cursor { row: 0, col: 1 });
    assert!(client.writer_take().is_some(), "the ack must initialize the client");
    let response =
        b"{\"jsonrpc\":\"2.0\",\"result\":[{\"label\":\"foo\",\"detail\":\"a doc\"}],\"id\":1}";
    client.handle_message(response);
    let got = client.poll().expect("the response was delivered");
    assert_eq!(got.len(), 1);
    assert_eq!(got[0].keyword, "foo".to_string());
    assert_eq!(got[0].doc, "a doc".to_string());
}

#[test]
fn malformed_messages_change_nothing() {
    let mut client = LSPClient::new();
    client.handle_message(b"not json at all");
    client.handle_message(b"{\"jsonrpc\":\"2.0\",\"result\":3,\"id\":1}");
    assert!(client.poll().is_none());
}

#[test]
fn did_open_message_is_framed_json_rpc() {
    let framed = build_did_open_message("rs", "fn main() {}").expect("an extension forms a URL");
    let text = String::from_utf8(framed).unwrap();
    let split = text.find("\r\n\r\n").expect("a blank line ends the headers");
    let (header, payload) = text.split_at(split);
    let payload = &payload[4..];
    let len: usize = header.strip_prefix("Content-Length: ").unwrap().parse().unwrap();
    assert_eq!(len, payload.len());
    let v: serde_json::Value = serde_json::from_str(payload).unwrap();
    assert_eq!(v["method"], "textDocument/didOpen");
    assert_eq!(v["params"]["textDocument"]["text"], "fn main() {}");
}

#[test]
fn completion_message_carries_position_and_fixed_id() {
    let framed =
        build_completion_message("rs", Cursor { row: 3, col: 9 }).expect("an extension forms a URL");
    let text = String::from_utf8(framed).unwrap();
    let split = text.find("\r\n\r\n").unwrap();
    let payload = &text[split + 4..];
    let v: serde_json::Value = serde_json::from_str(payload).unwrap();
    assert_eq!(v["method"], "textDocument/completion");
    assert_eq!(v["id"], 1);
    assert_eq!(v["params"]["position"]["line"], 3);
    assert_eq!(v["params"]["position"]["character"], 9);
}

#[test]
fn initialize_message_carries_the_fixed_init_id() {
    let framed = build_initialize_message("./").expect("the initialize request serializes");
    let text = String::from_utf8(framed).unwrap();
    let split = text.find("\r\n\r\n").unwrap();
    let payload = &text[split + 4..];
    let v: serde_json::Value = serde_json::from_str(payload).unwrap();
    assert_eq!(v["method"], "initialize");
    assert_eq!(v["id"], 0);
    assert_eq!(v["params"]["rootPath"], "./");
}

#[test]
fn lookup_block_is_open_then_completion() {
    let cursor = Cursor { row: 1, col: 2 };
    let open_msg = build_did_open_message("rs", "txt").unwrap();
    let completion_msg = build_completion_message("rs", cursor).unwrap();
    let block = build_lookup_messages("rs", "txt", cursor).unwrap();
    let mut expected = open_msg;
    expected.extend_from_slice(&completion_msg);
    assert_eq!(block, expected);
}

#[test]
fn unknown_ids_are_ignored() {
    let mut client = LSPClient::new();
    client.handle_message(b"{\"jsonrpc\":\"2.0\",\"result\":[],\"id\":9}");
    assert!(client.poll().is_none());
    client.request_completion("x".to_string(), Cursor { row: 0, col: 0 });
    // no initialize acknowledgment was routed either
    assert!(client.writer_take().is_none());
}

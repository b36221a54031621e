use dowe_language_server::conversion::{range, LanguageLocation, LanguagePosition, LanguageRange};
use dowe_language_server::protocol::message_from_body;
use dowe_language_server::server::{
    capabilities, completion_result, definition_result, formatting_result, hover_result,
    method_not_found, try_position, params_uri, position, requested_root, respond, route,
    symbols_result, Action, DocumentLookup, LanguageServer, Query, Route,
    SaveStep,
};

fn params(text: &str) -> serde_json::Value {
    serde_json::from_str(text).unwrap()
}

#[test]
fn methods_go_to_their_handlers() {
    let cases = [
        ("initialize", Route::Initialize),
        ("initialized", Route::Ignore),
        ("shutdown", Route::Shutdown),
        ("exit", Route::Exit),
        ("textDocument/didOpen", Route::DidOpen),
        ("textDocument/didChange", Route::DidChange),
        ("textDocument/didSave", Route::DidSave),
        ("textDocument/didClose", Route::DidClose),
        ("textDocument/completion", Route::Completion),
        ("textDocument/hover", Route::Hover),
        ("textDocument/definition", Route::Definition),
        ("textDocument/documentSymbol", Route::DocumentSymbol),
        ("textDocument/formatting", Route::Formatting),
        ("workspace/symbol", Route::MethodNotFound),
    ];
    for (method, expected) in cases {
        assert_eq!(route(Some(method)), expected, "{}", method);
    }
    assert_eq!(route(None), Route::Ignore);
}

#[test]
fn opened_documents_are_read_by_requests() {
    let mut server = LanguageServer::new();
    let open = params(r#"{"textDocument":{"uri":"file:///tmp/a%20b.dowe","text":"view"}}"#);
    assert_eq!(server.did_open(&open).as_deref(), Some("file:///tmp/a%20b.dowe"));
    match server.document(&params(r#"{"textDocument":{"uri":"file:///tmp/a%20b.dowe"}}"#)) {
        DocumentLookup::Open(d) => {
            assert_eq!(d.path, "/tmp/a b.dowe");
            assert_eq!(d.source, "view");
        }
        _ => panic!("expected the open document"),
    }
}

#[test]
fn opening_without_text_opens_an_empty_document() {
    let mut server = LanguageServer::new();
    assert!(server.did_open(&params(r#"{"textDocument":{"uri":"file:///x"}}"#)).is_some());
    assert_eq!(server.open_document("file:///x").unwrap().source, "");
}

#[test]
fn opening_without_a_file_uri_changes_nothing() {
    let mut server = LanguageServer::new();
    assert!(server.did_open(&params(r#"{"textDocument":{"uri":"untitled:1","text":"x"}}"#)).is_none());
    assert!(server.did_open(&params(r#"{"textDocument":{}}"#)).is_none());
    assert!(server.open_document("untitled:1").is_none());
}

#[test]
fn changes_replace_the_text_and_keep_the_path() {
    let mut server = LanguageServer::new();
    server.did_open(&params(r#"{"textDocument":{"uri":"file:///a","text":"one"}}"#));
    let change = params(
        r#"{"textDocument":{"uri":"file:///a"},"contentChanges":[{"text":"two"},{"text":"three"}]}"#,
    );
    assert_eq!(server.did_change(&change).as_deref(), Some("file:///a"));
    let d = server.open_document("file:///a").unwrap();
    assert_eq!(d.source, "three");
    assert_eq!(d.path, "/a");

    // A change without text, or to a document that is not open.
    assert!(server.did_change(&params(r#"{"textDocument":{"uri":"file:///a"},"contentChanges":[]}"#)).is_none());
    assert_eq!(
        server
            .did_change(&params(r#"{"textDocument":{"uri":"file:///b"},"contentChanges":[{"text":"x"}]}"#))
            .as_deref(),
        Some("file:///b")
    );
    assert!(server.open_document("file:///b").is_none());
}

#[test]
fn closing_clears_diagnostics_and_falls_back_to_the_file() {
    let mut server = LanguageServer::new();
    server.did_open(&params(r#"{"textDocument":{"uri":"file:///a","text":"one"}}"#));
    let note = server.did_close(&params(r#"{"textDocument":{"uri":"file:///a"}}"#)).unwrap();
    assert_eq!(
        note.to_string(),
        r#"{"jsonrpc":"2.0","method":"textDocument/publishDiagnostics","params":{"diagnostics":[],"uri":"file:///a"}}"#
    );
    assert!(server.open_document("file:///a").is_none());
    match server.document(&params(r#"{"textDocument":{"uri":"file:///a"}}"#)) {
        DocumentLookup::Read(path) => assert_eq!(path, "/a"),
        _ => panic!("expected a read from the file"),
    }
    assert!(matches!(server.document(&params(r#"{"textDocument":{"uri":"untitled:a"}}"#)), DocumentLookup::Missing));
    assert!(matches!(server.document(&params(r#"{}"#)), DocumentLookup::Missing));
}

#[test]
fn saving_reads_documents_that_are_not_open() {
    let mut server = LanguageServer::new();
    server.did_open(&params(r#"{"textDocument":{"uri":"file:///open","text":""}}"#));
    assert!(matches!(server.did_save(&params(r#"{"textDocument":{"uri":"file:///open"}}"#)), SaveStep::Publish(u) if u == "file:///open"));
    match server.did_save(&params(r#"{"textDocument":{"uri":"file:///closed%21"}}"#)) {
        SaveStep::Read { uri, path } => {
            assert_eq!(uri, "file:///closed%21");
            assert_eq!(path, "/closed!");
        }
        _ => panic!("expected a read"),
    }
    assert!(matches!(server.did_save(&params(r#"{"textDocument":{"uri":"untitled:x"}}"#)), SaveStep::Publish(_)));
    assert!(matches!(server.did_save(&params(r#"{}"#)), SaveStep::Skip));
}

#[test]
fn positions_become_one_based() {
    let p = params(r#"{"position":{"line":0,"character":4}}"#);
    assert_eq!(try_position(&p), Some(Some((1, 5))));
    assert_eq!(position(&p), Some((1, 5)));
    assert_eq!(position(&params(r#"{"position":{"line":2}}"#)), None);
    assert_eq!(position(&params(r#"{"position":{"line":-1,"character":0}}"#)), None);
    assert_eq!(try_position(&params(r#"{"position":{"line":18446744073709551615,"character":0}}"#)), None);
    assert_eq!(try_position(&params(r#"{"position":{"character":3}}"#)), Some(None));
}

#[test]
fn the_uri_of_the_document_is_read_through_text_document() {
    assert_eq!(params_uri(&params(r#"{"textDocument":{"uri":"file:///a"}}"#)), Some("file:///a"));
    assert_eq!(params_uri(&params(r#"{"textDocument":{"uri":3}}"#)), None);
    assert_eq!(params_uri(&params(r#"{"textDocument":[]}"#)), None);
}

#[test]
fn the_root_comes_from_root_uri_then_root_path() {
    assert_eq!(requested_root(&params(r#"{"rootUri":"file:///w%20s","rootPath":"/p"}"#)).as_deref(), Some("/w s"));
    assert_eq!(requested_root(&params(r#"{"rootUri":"http://x","rootPath":"/p"}"#)).as_deref(), Some("/p"));
    assert_eq!(requested_root(&params(r#"{"rootUri":null,"rootPath":"/p"}"#)).as_deref(), Some("/p"));
    assert_eq!(requested_root(&params(r#"{}"#)), None);
}

#[test]
fn requests_are_answered_and_notifications_are_not() {
    assert!(respond(None, Ok(serde_json::Value::from(1u64))).is_none());
    assert_eq!(
        respond(Some(serde_json::Value::from(7u64)), Ok(serde_json::Value::from(1u64))).unwrap().to_string(),
        r#"{"id":7,"jsonrpc":"2.0","result":1}"#
    );
    assert_eq!(
        respond(Some(serde_json::Value::from(7u64)), Err("boom".to_string())).unwrap().to_string(),
        r#"{"error":{"code":-32603,"message":"boom"},"id":7,"jsonrpc":"2.0"}"#
    );
    assert_eq!(
        method_not_found(Some(serde_json::Value::from(2u64))).unwrap().to_string(),
        r#"{"error":{"code":-32601,"message":"method not found"},"id":2,"jsonrpc":"2.0"}"#
    );
    assert!(method_not_found(None).is_none());
}

#[test]
fn request_results() {
    assert_eq!(completion_result(None).to_string(), "null");
    assert_eq!(completion_result(Some(vec![serde_json::Value::from(1u64)])).to_string(), "[1]");
    assert_eq!(hover_result(None).to_string(), "null");
    assert_eq!(
        hover_result(Some("docs".to_string())).to_string(),
        r#"{"contents":{"kind":"plaintext","value":"docs"}}"#
    );
    assert_eq!(definition_result(None).to_string(), "null");
    let location = LanguageLocation {
        path: "/a".to_string(),
        range: LanguageRange {
            start: LanguagePosition { line: 1, column: 1 },
            end: LanguagePosition { line: 1, column: 1 },
        },
    };
    assert_eq!(
        definition_result(Some(&location)).to_string(),
        r#"{"range":{"end":{"character":0,"line":0},"start":{"character":0,"line":0}},"uri":"file:///a"}"#
    );
    assert_eq!(symbols_result(None).to_string(), "[]");
}

#[test]
fn formatting_replaces_the_whole_document_only_when_the_text_changes() {
    assert_eq!(formatting_result(None, Some("x".to_string())).to_string(), "null");
    assert_eq!(formatting_result(Some("a\n"), None).to_string(), "[]");
    assert_eq!(formatting_result(Some("a\n"), Some("a\n".to_string())).to_string(), "[]");
    assert_eq!(
        formatting_result(Some("a  \nb"), Some("a\nb\n".to_string())).to_string(),
        r#"[{"newText":"a\nb\n","range":{"end":{"character":0,"line":2},"start":{"character":0,"line":0}}}]"#
    );
}

#[test]
fn capabilities_name_the_server_and_its_features() {
    assert_eq!(
        capabilities("0.1.0").to_string(),
        r#"{"capabilities":{"completionProvider":{"triggerCharacters":[".",":","/","\""]},"definitionProvider":true,"documentFormattingProvider":true,"documentSymbolProvider":true,"hoverProvider":true,"textDocumentSync":{"change":1,"openClose":true,"save":true}},"serverInfo":{"name":"dowe-language-server","version":"0.1.0"}}"#
    );
}

#[test]
fn message_params_drive_the_server() {
    let m = message_from_body(
        br#"{"jsonrpc":"2.0","method":"textDocument/didOpen","params":{"textDocument":{"uri":"file:///m","text":"t"}}}"#,
    )
    .unwrap();
    assert_eq!(route(m.method.as_deref()), Route::DidOpen);
    let mut server = LanguageServer::new();
    assert!(server.did_open(&m.params).is_some());
    assert_eq!(server.open_document("file:///m").unwrap().source, "t");
}

#[test]
fn request_positions_come_back_as_the_same_protocol_positions() {
    for (line, character) in [(0u64, 0u64), (3, 7), (100, 0)] {
        let p = params(&format!(r#"{{"position":{{"line":{},"character":{}}}}}"#, line, character));
        let (l, c) = position(&p).unwrap();
        let at = LanguagePosition { line: l, column: c };
        assert_eq!(
            range(&LanguageRange { start: at, end: at }).to_string(),
            format!(
                r#"{{"end":{{"character":{c},"line":{l}}},"start":{{"character":{c},"line":{l}}}}}"#,
                c = character,
                l = line
            )
        );
    }
}

#[test]
fn uris_that_cannot_be_decoded_are_refused_before_they_are_read() {
    let mut server = LanguageServer::new();
    let bad = r#"{"textDocument":{"uri":"file:///%xéy"}}"#;
    for method in ["textDocument/didOpen", "textDocument/didSave"] {
        let text = format!(r#"{{"method":"{}","params":{}}}"#, method, bad);
        assert!(server.try_handle(message(&text), "1").is_none(), "{}", method);
    }
    let request = format!(r#"{{"id":1,"method":"textDocument/hover","params":{}}}"#, bad);
    assert!(server.try_handle(message(&request), "1").is_none());
    let notification = format!(r#"{{"method":"textDocument/hover","params":{}}}"#, bad);
    assert!(matches!(server.try_handle(message(&notification), "1"), Some(Action::Continue)));
    assert!(server.open_document("file:///%xéy").is_none());
    let root = r#"{"id":1,"method":"initialize","params":{"rootUri":"file:///%xéy"}}"#;
    assert!(server.try_handle(message(root), "1").is_none());
    let root_path = r#"{"id":1,"method":"initialize","params":{"rootPath":"/r"}}"#;
    assert!(matches!(
        server.try_handle(message(root_path), "1"),
        Some(Action::Initialize { requested: Some(ref r), .. }) if r == "/r"
    ));
    let open = r#"{"method":"textDocument/didOpen","params":{"textDocument":{"uri":"file:///ok","text":"x"}}}"#;
    assert!(matches!(server.try_handle(message(open), "1"), Some(Action::Publish(ref u)) if u == "file:///ok"));
    let read = r#"{"id":2,"method":"textDocument/hover","params":{"textDocument":{"uri":"file:///ok"}}}"#;
    assert!(matches!(
        server.try_handle(message(read), "1"),
        Some(Action::Answer { lookup: DocumentLookup::Open(_), .. })
    ));
}

fn message(text: &str) -> dowe_language_server::protocol::Message {
    message_from_body(text.as_bytes()).unwrap()
}

#[test]
fn exit_stops_and_initialized_is_ignored() {
    let mut server = LanguageServer::new();
    assert!(matches!(server.handle(message(r#"{"method":"exit"}"#), "1.0.0"), Action::Stop));
    assert!(matches!(
        server.handle(message(r#"{"method":"initialized","params":{}}"#), "1.0.0"),
        Action::Continue
    ));
    assert!(matches!(server.handle(message(r#"{"id":1}"#), "1.0.0"), Action::Continue));
}

#[test]
fn shutdown_is_answered_with_null() {
    let mut server = LanguageServer::new();
    match server.handle(message(r#"{"jsonrpc":"2.0","id":4,"method":"shutdown"}"#), "1.0.0") {
        Action::Send(m) => assert_eq!(m.to_string(), r#"{"id":4,"jsonrpc":"2.0","result":null}"#),
        _ => panic!("expected an answer"),
    }
    assert!(matches!(server.handle(message(r#"{"method":"shutdown"}"#), "1.0.0"), Action::Continue));
}

#[test]
fn unknown_requests_get_method_not_found_and_unknown_notifications_nothing() {
    let mut server = LanguageServer::new();
    match server.handle(message(r#"{"id":"a","method":"workspace/symbol"}"#), "1.0.0") {
        Action::Send(m) => assert_eq!(
            m.to_string(),
            r#"{"error":{"code":-32601,"message":"method not found"},"id":"a","jsonrpc":"2.0"}"#
        ),
        _ => panic!("expected an error"),
    }
    assert!(matches!(
        server.handle(message(r#"{"method":"$/cancelRequest","params":{"id":1}}"#), "1.0.0"),
        Action::Continue
    ));
}

#[test]
fn initialize_asks_for_the_root_and_answers_capabilities() {
    let mut server = LanguageServer::new();
    let m = message(r#"{"id":0,"method":"initialize","params":{"rootUri":"file:///work/site"}}"#);
    match server.handle(m, "2.3.4") {
        Action::Initialize { requested, answer } => {
            assert_eq!(requested.as_deref(), Some("/work/site"));
            let answer = answer.unwrap();
            assert_eq!(answer["id"], serde_json::Value::from(0u64));
            assert_eq!(answer["result"]["serverInfo"]["version"], "2.3.4");
            assert_eq!(answer["result"]["capabilities"]["textDocumentSync"]["change"], 1);
        }
        _ => panic!("expected initialize"),
    }
    match server.handle(message(r#"{"method":"initialize","params":{}}"#), "2.3.4") {
        Action::Initialize { requested, answer } => {
            assert!(requested.is_none());
            assert!(answer.is_none());
        }
        _ => panic!("expected initialize"),
    }
}

#[test]
fn document_notifications_change_documents_and_publish() {
    let mut server = LanguageServer::new();
    let open = message(
        r#"{"method":"textDocument/didOpen","params":{"textDocument":{"uri":"file:///a.dowe","text":"one"}}}"#,
    );
    match server.handle(open, "1") {
        Action::Publish(uri) => assert_eq!(uri, "file:///a.dowe"),
        _ => panic!("expected a publish"),
    }
    let change = message(
        r#"{"method":"textDocument/didChange","params":{"textDocument":{"uri":"file:///a.dowe"},"contentChanges":[{"text":"two"},{"text":"three"}]}}"#,
    );
    assert!(matches!(server.handle(change, "1"), Action::Publish(_)));
    assert_eq!(server.open_document("file:///a.dowe").unwrap().source, "three");
    let save = message(r#"{"method":"textDocument/didSave","params":{"textDocument":{"uri":"file:///b.dowe"}}}"#);
    match server.handle(save, "1") {
        Action::ReadThenPublish { uri, path } => {
            assert_eq!(uri, "file:///b.dowe");
            assert_eq!(path, "/b.dowe");
        }
        _ => panic!("expected a read"),
    }
    let close = message(r#"{"method":"textDocument/didClose","params":{"textDocument":{"uri":"file:///a.dowe"}}}"#);
    match server.handle(close, "1") {
        Action::Send(m) => assert_eq!(
            m.to_string(),
            r#"{"jsonrpc":"2.0","method":"textDocument/publishDiagnostics","params":{"diagnostics":[],"uri":"file:///a.dowe"}}"#
        ),
        _ => panic!("expected the cleared diagnostics"),
    }
    assert!(server.open_document("file:///a.dowe").is_none());
}

#[test]
fn queries_are_answered_only_for_requests() {
    let mut server = LanguageServer::new();
    server.handle(
        message(r#"{"method":"textDocument/didOpen","params":{"textDocument":{"uri":"file:///q.dowe","text":"x"}}}"#),
        "1",
    );
    let request = message(
        r#"{"id":9,"method":"textDocument/hover","params":{"textDocument":{"uri":"file:///q.dowe"},"position":{"line":2,"character":5}}}"#,
    );
    match server.handle(request, "1") {
        Action::Answer { id, query, lookup, at } => {
            assert_eq!(id, serde_json::Value::from(9u64));
            assert_eq!(query, Query::Hover);
            assert!(matches!(lookup, DocumentLookup::Open(ref d) if d.source == "x" && d.path == "/q.dowe"));
            assert_eq!(at, Some(Some((3, 6))));
        }
        _ => panic!("expected a query"),
    }
    let notification = message(
        r#"{"method":"textDocument/formatting","params":{"textDocument":{"uri":"file:///q.dowe"}}}"#,
    );
    assert!(matches!(server.handle(notification, "1"), Action::Continue));
    let symbols = message(r#"{"id":10,"method":"textDocument/documentSymbol","params":{}}"#);
    match server.handle(symbols, "1") {
        Action::Answer { query, lookup, at, .. } => {
            assert_eq!(query, Query::DocumentSymbol);
            assert!(matches!(lookup, DocumentLookup::Missing));
            assert_eq!(at, Some(None));
        }
        _ => panic!("expected a query"),
    }
}

#[test]
fn handling_refuses_uris_split_inside_a_character() {
    let mut server = LanguageServer::new();
    let open = message(
        r#"{"method":"textDocument/didOpen","params":{"textDocument":{"uri":"file:///%aé"}}}"#,
    );
    assert!(server.try_handle(open, "1").is_none());
    assert!(server.open_document("file:///%aé").is_none());
    let fine = message(r#"{"method":"textDocument/didOpen","params":{"textDocument":{"uri":"file:///e"}}}"#);
    assert!(matches!(server.try_handle(fine, "1"), Some(Action::Publish(_))));
}

#[test]
fn a_query_after_a_change_reads_the_changed_text() {
    let mut server = LanguageServer::new();
    server.handle(
        message(r#"{"method":"textDocument/didOpen","params":{"textDocument":{"uri":"file:///c.dowe","text":"old"}}}"#),
        "1",
    );
    server.handle(
        message(r#"{"method":"textDocument/didChange","params":{"textDocument":{"uri":"file:///c.dowe"},"contentChanges":[{"text":"new"}]}}"#),
        "1",
    );
    let request = message(
        r#"{"id":1,"method":"textDocument/formatting","params":{"textDocument":{"uri":"file:///c.dowe"}}}"#,
    );
    match server.handle(request, "1") {
        Action::Answer { query, lookup, .. } => {
            assert_eq!(query, Query::Formatting);
            assert!(matches!(lookup, DocumentLookup::Open(ref d) if d.source == "new" && d.path == "/c.dowe"));
        }
        _ => panic!("expected a query"),
    }
}

fn written(server: &mut LanguageServer, text: &str) -> Vec<serde_json::Value> {
    let action = server.handle(message(text), "1");
    let diagnostics = vec![serde_json::Value::from("d")];
    server.outgoing(action, serde_json::Value::from("r"), diagnostics)
}

#[test]
fn each_request_gets_one_answer_and_notifications_none() {
    let mut server = LanguageServer::new();
    let open = written(
        &mut server,
        r#"{"method":"textDocument/didOpen","params":{"textDocument":{"uri":"file:///w.dowe","text":"x"}}}"#,
    );
    assert_eq!(open.len(), 1);
    assert_eq!(
        open[0].to_string(),
        r#"{"jsonrpc":"2.0","method":"textDocument/publishDiagnostics","params":{"diagnostics":["d"],"uri":"file:///w.dowe"}}"#
    );
    let hover = written(
        &mut server,
        r#"{"id":5,"method":"textDocument/hover","params":{"textDocument":{"uri":"file:///w.dowe"},"position":{"line":0,"character":0}}}"#,
    );
    assert_eq!(hover.len(), 1);
    assert_eq!(hover[0].to_string(), r#"{"id":5,"jsonrpc":"2.0","result":"r"}"#);
    let cases = [
        (r#"{"id":1,"method":"initialize","params":{}}"#, 1),
        (r#"{"id":2,"method":"shutdown"}"#, 1),
        (r#"{"id":3,"method":"unknown/thing"}"#, 1),
        (r#"{"id":4,"method":"textDocument/formatting","params":{}}"#, 1),
        (r#"{"id":6,"method":"initialized"}"#, 0),
        (r#"{"id":7}"#, 0),
        (r#"{"method":"shutdown"}"#, 0),
        (r#"{"method":"textDocument/hover","params":{}}"#, 0),
        (r#"{"method":"exit"}"#, 0),
    ];
    for (text, answers) in cases {
        let out = written(&mut server, text);
        let with_id: Vec<_> = out.iter().filter(|m| m.get("id").is_some()).collect();
        assert_eq!(with_id.len(), answers, "{}", text);
        for m in &with_id {
            assert_eq!(m["id"], message(text).id.unwrap(), "{}", text);
        }
    }
}

#[test]
fn only_open_documents_are_published() {
    let mut server = LanguageServer::new();
    let change = written(
        &mut server,
        r#"{"method":"textDocument/didChange","params":{"textDocument":{"uri":"file:///n.dowe"},"contentChanges":[{"text":"t"}]}}"#,
    );
    assert!(change.is_empty());
    let save = written(
        &mut server,
        r#"{"method":"textDocument/didSave","params":{"textDocument":{"uri":"file:///n.dowe"}}}"#,
    );
    assert!(save.is_empty());
    let close = written(
        &mut server,
        r#"{"method":"textDocument/didClose","params":{"textDocument":{"uri":"file:///n.dowe"}}}"#,
    );
    assert_eq!(close.len(), 1);
    assert!(close[0].get("id").is_none());
    assert_eq!(close[0]["method"], "textDocument/publishDiagnostics");
}

use chatatui::chat::{
    add_piece, add_pieces, added_text, chat_events, chunk_events, data_of, gather, pending_call,
    read_piece, read_pieces, refusal, request_call, ChatReply, ToolCall,
};
use chatatui::event::AsyncEvent;
use chatatui::http::Status;
use chatatui::json_text::{parse, to_text};

fn replied(code: u16, text: &str) -> Vec<AsyncEvent> {
    chat_events(ChatReply::Replied(Status::new(code).unwrap(), text.to_string()))
}

fn piece(id: &str, name: &str, args: &str) -> ToolCall {
    ToolCall { id: id.to_string(), name: name.to_string(), args: args.to_string() }
}

/// The text, error or call of an event, and the name of its kind.
fn told(event: &AsyncEvent) -> String {
    match event {
        AsyncEvent::ChatChunk(s) => format!("chunk {}", s),
        AsyncEvent::ChatError(s) => format!("error {}", s),
        AsyncEvent::ChatFinished => "finished".to_string(),
        AsyncEvent::ToolCallRequested(p) => {
            format!("call {} {} {} [{}]", p.id, p.tool_name, to_text(&p.args), p.server_name)
        }
        other => panic!("{:?}", other),
    }
}

fn all_told(events: &[AsyncEvent]) -> Vec<String> {
    events.iter().map(told).collect()
}

#[test]
fn stream_gives_its_texts() {
    let text = "data: {\"choices\":[{\"delta\":{\"content\":\"Hel\"}}]}\n\n\
                : comment\n\
                data:{\"choices\":[{\"delta\":{\"content\":\"skipped\"}}]}\n\
                data: {\"choices\":[{\"delta\":{\"role\":\"assistant\"}}]}\n\
                data: not json\n\
                data: {\"choices\":[{\"delta\":{\"content\":\"lo\"}}]}\r\n\
                data: [DONE]\n";
    assert_eq!(all_told(&replied(200, text)), vec!["chunk Hel", "chunk lo", "finished"]);
    assert_eq!(all_told(&replied(200, "")), vec!["finished"]);
}

#[test]
fn calls_are_gathered_from_their_pieces() {
    let text = "data: {\"choices\":[{\"delta\":{\"tool_calls\":[{\"id\":\"1\",\"function\":{\"name\":\"add\",\"arguments\":\"{\\\"a\\\"\"}},{\"id\":\"2\",\"function\":{\"name\":\"bad\",\"arguments\":\"{\"}}]}}]}\n\
                data: {\"choices\":[{\"delta\":{\"content\":\"t\",\"tool_calls\":[{\"id\":\"1\",\"function\":{\"name\":\"other\",\"arguments\":\":1}\"}},{\"function\":{\"arguments\":\"lost\"}}]}}]}\n";
    let events = replied(200, text);
    assert_eq!(all_told(&events), vec!["chunk t", "call 1 add {\"a\":1} []", "finished"]);
    match &events[1] {
        AsyncEvent::ToolCallRequested(p) => assert_eq!(p.args_display, "{\n  \"a\": 1\n}"),
        other => panic!("{:?}", other),
    }
}

#[test]
fn refused_requests_are_errors() {
    assert_eq!(
        all_told(&replied(404, "")),
        vec!["error API Error: HTTP 404 Not Found", "finished"]
    );
    assert_eq!(
        all_told(&replied(401, "{\"error\":{\"message\":\"no key\"}}")),
        vec!["error API Error (HTTP 401 Unauthorized): no key", "finished"]
    );
    assert_eq!(
        all_told(&replied(500, "{\"error\":\"x\"}\nb\nc\nd")),
        vec!["error API Error (HTTP 500 Internal Server Error): {\"error\":\"x\"} b c", "finished"]
    );
    assert_eq!(
        all_told(&replied(500, "[1]")),
        vec!["error API Error (HTTP 500 Internal Server Error): [1]", "finished"]
    );
    assert_eq!(
        all_told(&replied(302, "\n")),
        vec!["error API Error (HTTP 302 Found): ", "finished"]
    );
}

#[test]
fn failed_requests_are_errors() {
    assert_eq!(
        all_told(&chat_events(ChatReply::Failed("down".to_string()))),
        vec!["error Connection Error: down", "finished"]
    );
}

#[test]
fn every_reply_ends_once() {
    for (code, text) in [(200, "data: [DONE]"), (200, "x"), (500, ""), (204, "data: {}")] {
        let events = replied(code, text);
        let ends = events.iter().filter(|e| matches!(e, AsyncEvent::ChatFinished)).count();
        assert_eq!(ends, 1);
        assert!(matches!(events.last(), Some(AsyncEvent::ChatFinished)));
        let errors = events.iter().filter(|e| matches!(e, AsyncEvent::ChatError(_))).count();
        assert_eq!(errors > 0, !(200..300).contains(&code));
    }
}

#[test]
fn reason_of_a_refusal() {
    let reason = parse("{\"error\":{\"message\":\"m\"}}");
    assert_eq!(refusal("400 Bad", "t", reason), "API Error (HTTP 400 Bad): m");
    assert_eq!(
        refusal("400 Bad", "a\nb\nc\nd", Err("e".to_string())),
        "API Error (HTTP 400 Bad): a b c"
    );
    assert_eq!(refusal("400 Bad", "", Err("e".to_string())), "API Error: HTTP 400 Bad");
}

#[test]
fn pieces_of_a_stream_value() {
    let value = parse(
        "{\"choices\":[{\"delta\":{\"content\":\"c\",\"tool_calls\":[{\"id\":\"i\"},{\"id\":3}]}}]}",
    )
    .unwrap();
    assert_eq!(added_text(&value), Some("c".to_string()));
    let pieces = read_pieces(&value);
    assert_eq!(pieces.len(), 1);
    assert_eq!((pieces[0].id.as_str(), pieces[0].name.as_str()), ("i", ""));
    assert!(read_piece(&parse("{\"name\":\"x\"}").unwrap()).is_none());
    assert_eq!(added_text(&parse("{\"choices\":[]}").unwrap()), None);
    assert_eq!(read_pieces(&parse("[]").unwrap()).len(), 0);
}

#[test]
fn pieces_add_up() {
    let mut apart = vec![piece("x", "n", "1")];
    add_pieces(&mut apart, vec![piece("y", "m", "a"), piece("y", "k", "b"), piece("x", "z", "2")]);
    assert_eq!(apart.len(), 2);
    assert_eq!((apart[0].id.as_str(), apart[0].name.as_str(), apart[0].args.as_str()), ("x", "n", "12"));
    assert_eq!((apart[1].id.as_str(), apart[1].name.as_str(), apart[1].args.as_str()), ("y", "m", "ab"));
    let mut whole = vec![piece("x", "n", "1")];
    add_piece(&mut whole, piece("y", "m", "ab"));
    assert_eq!(whole[1].args, apart[1].args);
}

#[test]
fn call_with_arguments_that_cannot_be_read() {
    assert!(request_call(piece("i", "n", "{"), Err("e".to_string())).is_none());
    let p = request_call(piece("i", "n", "[ ]"), parse("[ ]")).unwrap();
    assert_eq!(p.args_display, "[]");
    assert_eq!((p.id.as_str(), p.tool_name.as_str(), p.server_name.as_str()), ("i", "n", ""));
}

#[test]
fn data_of_a_line() {
    assert_eq!(data_of("data: {}"), Some("{}".to_string()));
    assert_eq!(data_of("data:  x"), Some(" x".to_string()));
    assert_eq!(data_of("data: [DONE]"), None);
    assert_eq!(data_of("data:{}"), None);
    assert_eq!(data_of(" data: {}"), None);
}

#[test]
fn values_of_a_stream() {
    let values = vec![
        parse("{\"choices\":[{\"delta\":{\"content\":\"a\",\"tool_calls\":[{\"id\":\"1\",\"function\":{\"name\":\"f\",\"arguments\":\"x\"}}]}}]}")
            .unwrap(),
        parse("7").unwrap(),
        parse("{\"choices\":[{\"delta\":{\"tool_calls\":[{\"id\":\"1\",\"function\":{\"arguments\":\"y\"}}]}}]}")
            .unwrap(),
    ];
    assert_eq!(all_told(&chunk_events(&values)), vec!["chunk a"]);
    let calls = gather(&values);
    assert_eq!(calls.len(), 1);
    assert_eq!((calls[0].name.as_str(), calls[0].args.as_str()), ("f", "xy"));
}

#[test]
fn arguments_as_they_are_shown() {
    let args = parse("{}").unwrap();
    let shown = pending_call(piece("i", "n", "raw"), args.clone(), Some("nice".to_string()));
    assert_eq!(shown.args_display, "nice");
    assert_eq!(pending_call(piece("i", "n", "raw"), args, None).args_display, "raw");
}

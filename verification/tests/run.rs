use chatatui::app::{AppState, Effect, Modal};
use chatatui::config::McpServerConfig;
use chatatui::event::{AsyncEvent, PendingToolCall};
use chatatui::http::{HttpOutcome, HttpReply, HttpRequest, Status};
use chatatui::json_text::{parse, to_text};
use chatatui::mcp::{McpClient, McpTool};
use chatatui::run::{call_event, models_event, startup_event, tools_event, Key, KeyPress};
use chatatui::ui::draw;

fn app() -> AppState {
    let servers = vec![
        McpServerConfig { name: "s0".to_string(), url: "u0".to_string(), api_key: None },
        McpServerConfig {
            name: "s1".to_string(),
            url: "u1".to_string(),
            api_key: Some("k1".to_string()),
        },
    ];
    AppState::new("http://h".to_string(), "m".to_string(), None, servers)
}

fn press(key: Key) -> KeyPress {
    KeyPress { key, control: false, pressed: true }
}

fn key(app: &mut AppState, k: Key) -> Effect {
    let (effect, stale) = app.handle_key(press(k), false);
    assert!(stale);
    effect
}

fn type_text(app: &mut AppState, text: &str) {
    for c in text.chars() {
        assert!(matches!(key(app, Key::Char(c)), Effect::Nothing));
    }
}

fn event(app: &mut AppState, e: AsyncEvent) -> Effect {
    app.handle_event(e, false).0
}

fn said(app: &AppState) -> Vec<String> {
    app.threads[app.current_thread_idx]
        .messages
        .iter()
        .map(|m| format!("{}: {}{}", m.0, m.1, if m.2 { " !" } else { "" }))
        .collect()
}

fn tool(name: &str, server: &str) -> McpTool {
    McpTool {
        name: name.to_string(),
        title: name.to_string(),
        description: "d".to_string(),
        server_name: server.to_string(),
        input_schema: parse("{}").unwrap(),
    }
}

fn client(name: &str) -> McpClient {
    McpClient::new(name.to_string(), "url".to_string(), None)
}

fn asked(tool: &str) -> PendingToolCall {
    PendingToolCall {
        id: "id1".to_string(),
        tool_name: tool.to_string(),
        args: parse("{\"a\":1}").unwrap(),
        server_name: String::new(),
        args_display: "shown".to_string(),
    }
}

#[test]
fn leaving() {
    let mut a = app();
    let quit = KeyPress { key: Key::Char('c'), control: true, pressed: true };
    let (effect, stale) = a.handle_key(quit, false);
    assert!(matches!(effect, Effect::Quit));
    assert!(!stale);
    let up = KeyPress { key: Key::Char('c'), control: true, pressed: false };
    assert!(matches!(a.handle_key(up, false), (Effect::Nothing, false)));
    a.modal = Some(Modal::ToolConfirm("t".to_string(), "a".to_string()));
    assert!(matches!(a.handle_key(quit, true), (Effect::Quit, true)));
    assert!(matches!(a.handle_key(press(Key::Other), false), (Effect::Nothing, false)));
}

#[test]
fn typing_and_sending() {
    let mut a = app();
    type_text(&mut a, "hi!");
    key(&mut a, Key::Backspace);
    assert_eq!(a.input, "hi");
    assert!(matches!(key(&mut a, Key::Enter), Effect::SendChat(_)));
    assert_eq!(said(&a), vec!["User: hi", "System: m is thinking..."]);
    key(&mut a, Key::Backspace);
    assert_eq!(a.input, "");
}

#[test]
fn slash_shows_the_commands() {
    let mut a = app();
    type_text(&mut a, "/");
    match &a.modal {
        Some(Modal::CommandList(c, 0, p)) => assert_eq!((c.len(), p.as_str()), (5, "/")),
        _ => panic!(),
    }
    key(&mut a, Key::Down);
    key(&mut a, Key::Down);
    key(&mut a, Key::Up);
    assert!(matches!(key(&mut a, Key::Enter), Effect::Emit(AsyncEvent::ListModels)));
    assert_eq!(a.input, "");
    assert!(a.modal.is_none());
}

#[test]
fn tab_takes_a_command() {
    let mut a = app();
    type_text(&mut a, "/");
    key(&mut a, Key::Down);
    key(&mut a, Key::Tab);
    assert_eq!(a.input, "/model");
    assert!(a.modal.is_none());
    a.input = "/he".to_string();
    key(&mut a, Key::Tab);
    assert_eq!(a.input, "/help");
}

#[test]
fn escape_closes_the_modal() {
    let mut a = app();
    type_text(&mut a, "/");
    key(&mut a, Key::Esc);
    assert!(a.modal.is_none());
    assert_eq!(a.input, "/");
}

#[test]
fn arrows_and_pages() {
    let mut a = app();
    key(&mut a, Key::Down);
    assert_eq!(a.chat_scroll, 3);
    key(&mut a, Key::Up);
    assert_eq!(a.chat_scroll, 0);
    a.create_thread("b".to_string());
    key(&mut a, Key::PageDown);
    assert_eq!(a.current_thread_idx, 0);
    key(&mut a, Key::PageUp);
    assert_eq!(a.current_thread_idx, 1);
    a.modal = Some(Modal::ToolConfirm("t".to_string(), "a".to_string()));
    key(&mut a, Key::Down);
    assert_eq!(a.chat_scroll, 3);
}

#[test]
fn chosen_server_is_listed() {
    let mut a = app();
    type_text(&mut a, "/mcp");
    assert!(matches!(key(&mut a, Key::Enter), Effect::Nothing));
    assert!(matches!(a.modal, Some(Modal::McpServers(_, 0))));
    key(&mut a, Key::Down);
    key(&mut a, Key::Down);
    match key(&mut a, Key::Enter) {
        Effect::Emit(e) => match event(&mut a, e) {
            Effect::ListTools(c) => {
                assert_eq!((c.name.as_str(), c.url.as_str()), ("s1", "u1"));
                assert_eq!(c.api_key, Some("k1".to_string()));
                assert_eq!(c.session_id, None);
            }
            _ => panic!(),
        },
        _ => panic!(),
    }
    assert!(matches!(event(&mut a, AsyncEvent::LoadMcpTools(2)), Effect::Nothing));
}

#[test]
fn clients_at_the_start() {
    let clients = app().startup_clients();
    let names: Vec<&str> = clients.iter().map(|c| c.name.as_str()).collect();
    assert_eq!(names, vec!["s0", "s1"]);
    assert_eq!(clients[1].api_key, Some("k1".to_string()));
}

#[test]
fn answer_comes_in_pieces() {
    let mut a = app();
    a.input = "q".to_string();
    a.send_message();
    event(&mut a, AsyncEvent::ChatChunk("Hel".to_string()));
    event(&mut a, AsyncEvent::ChatChunk("lo".to_string()));
    assert_eq!(said(&a), vec!["User: q", "Assistant: Hello"]);
    let mut b = app();
    b.input = "q".to_string();
    b.send_message();
    event(&mut b, AsyncEvent::ChatChunk("Hello".to_string()));
    assert_eq!(said(&a), said(&b));
    event(&mut a, AsyncEvent::ChatError("bad".to_string()));
    event(&mut a, AsyncEvent::ChatChunk("lost".to_string()));
    assert_eq!(said(&a), vec!["User: q", "Assistant: Hello", "Error: bad !"]);
}

#[test]
fn two_notices_and_two_pieces() {
    let mut a = app();
    a.say("User", "q".to_string(), false);
    a.say("System", "one".to_string(), false);
    a.say("System", "two".to_string(), false);
    a.add_chunk("x");
    assert_eq!(said(&a), vec!["User: q", "System: one"]);
    a.add_chunk("y");
    assert_eq!(said(&a), vec!["User: q", "Assistant: y"]);
}

#[test]
fn queue_goes_on_when_the_server_has_finished() {
    let mut a = app();
    for text in ["one", "two", "three"] {
        a.input = text.to_string();
        a.send_message();
    }
    assert!(matches!(event(&mut a, AsyncEvent::ChatFinished), Effect::SendChat(_)));
    assert!(a.is_loading);
    assert_eq!(a.message_queue, vec!["three".to_string()]);
    assert!(matches!(event(&mut a, AsyncEvent::ChatFinished), Effect::SendChat(_)));
    assert!(matches!(event(&mut a, AsyncEvent::ChatFinished), Effect::Nothing));
    assert!(!a.is_loading);
}

#[test]
fn models_are_asked_for_and_shown() {
    let mut a = app();
    match a.handle_event(AsyncEvent::ListModels, false) {
        (Effect::ListModels(r), false) => assert_eq!(r.url, "http://h/v1/models"),
        _ => panic!(),
    }
    event(&mut a, models_event(Ok(vec!["x".to_string()])));
    assert!(matches!(a.modal, Some(Modal::SelectModel(_, 0, _))));
    event(&mut a, models_event(Err("e".to_string())));
    assert_eq!(said(&a), vec!["Error: Failed to load models: e !"]);
}

#[test]
fn tools_of_a_server_are_shown() {
    let mut a = app();
    event(&mut a, tools_event(client("s"), Ok(vec![tool("t", "s")])));
    match &a.modal {
        Some(Modal::McpTools(name, tools, 0)) => {
            assert_eq!((name.as_str(), tools.len()), ("s", 1));
        }
        _ => panic!(),
    }
    event(&mut a, tools_event(client("s"), Err("e".to_string())));
    assert!(a.modal.is_none());
    assert_eq!(said(&a), vec!["System: MCP Error: Failed to load tools: e !"]);
}

#[test]
fn tools_loaded_at_the_start_are_offered() {
    let mut a = app();
    let loaded = startup_event(client("s"), Ok(vec![tool("t", "s")]));
    assert!(!a.handle_event(loaded, true).1);
    assert_eq!(a.mcp_clients[0].0, "s");
    a.input = "q".to_string();
    match a.send_message() {
        Effect::SendChat(r) => assert!(r.body.unwrap().ends_with(
            ",\"tools\":[{\"function\":{\"description\":\"d\",\"name\":\"t\",\"parameters\":{}},\"type\":\"function\"}]}"
        )),
        _ => panic!(),
    }
    event(&mut a, startup_event(client("z"), Err("e".to_string())));
    assert_eq!(said(&a).last().unwrap(), "Error: Failed to load MCP tools from z: e !");
}

#[test]
fn confirmed_call_reaches_its_server() {
    let mut a = app();
    event(&mut a, startup_event(client("s0"), Ok(vec![tool("other", "s0")])));
    event(&mut a, startup_event(client("s1"), Ok(vec![tool("add", "s1")])));
    event(&mut a, AsyncEvent::ToolCallRequested(asked("add")));
    match &a.modal {
        Some(Modal::ToolConfirm(label, args)) => {
            assert_eq!((label.as_str(), args.as_str()), ("add (s1)", "shown"));
        }
        _ => panic!(),
    }
    assert_eq!(
        said(&a),
        vec!["AssistantToolCall: {\"role\":\"assistant\",\"tool_calls\":[{\"function\":{\"arguments\":{\"a\":1},\"name\":\"add\"},\"id\":\"id1\",\"type\":\"function\"}]}"]
    );
    assert!(matches!(key(&mut a, Key::Char('x')), Effect::Nothing));
    assert!(a.modal.is_some());
    match key(&mut a, Key::Char('y')) {
        Effect::CallTool(1, r, p) => {
            assert_eq!(r.url, "url");
            assert_eq!(r.headers.len(), 2);
            assert_eq!(
                r.body.unwrap(),
                "{\"id\":1,\"jsonrpc\":\"2.0\",\"method\":\"tools/call\",\"params\":{\"arguments\":{\"a\":1},\"name\":\"add\"}}"
            );
            assert_eq!((p.id.as_str(), p.server_name.as_str()), ("id1", "s1"));
            assert_eq!(to_text(&p.args), "{\"a\":1}");
        }
        _ => panic!(),
    }
    assert!(a.modal.is_none() && a.pending_tool_call.is_none());
}

#[test]
fn call_of_an_unknown_tool_goes_nowhere() {
    let mut a = app();
    event(&mut a, AsyncEvent::ToolCallRequested(asked("none")));
    assert!(matches!(&a.modal, Some(Modal::ToolConfirm(l, _)) if l == "none ()"));
    assert!(matches!(key(&mut a, Key::Char('y')), Effect::Nothing));
    assert!(a.pending_tool_call.is_none());
}

#[test]
fn refused_call_is_dropped() {
    let mut a = app();
    event(&mut a, startup_event(client("s"), Ok(vec![tool("add", "s")])));
    event(&mut a, AsyncEvent::ToolCallRequested(asked("add")));
    assert!(matches!(key(&mut a, Key::Char('n')), Effect::Nothing));
    assert!(a.modal.is_none() && a.pending_tool_call.is_none());
    assert_eq!(said(&a)[1], "System: Tool call cancelled by user.");
    assert!(matches!(key(&mut a, Key::Char('y')), Effect::Nothing));
    assert_eq!(a.input, "y");
}

#[test]
fn result_of_a_call_is_sent_back() {
    let mut a = app();
    let result = call_event(asked("add"), Ok("42||x".to_string()));
    match event(&mut a, result) {
        Effect::SendChat(r) => assert!(r
            .body
            .unwrap()
            .contains("\"messages\":[{\"content\":\"42||x\",\"role\":\"tool\"}]")),
        _ => panic!(),
    }
    assert_eq!(said(&a), vec!["Tool: id1||add||42||x", "System: m is thinking..."]);
    let result = call_event(asked("add"), Ok("43".to_string()));
    assert!(matches!(event(&mut a, result), Effect::Nothing));
    assert_eq!(said(&a)[2], "Tool: id1||add||43");
    event(&mut a, call_event(asked("add"), Err("e".to_string())));
    assert_eq!(said(&a)[3], "Error: Tool call failed: e !");
}

#[test]
fn other_threads_stay_as_they_are() {
    let mut a = app();
    a.say("User", "first".to_string(), false);
    a.create_thread("b".to_string());
    event(&mut a, AsyncEvent::ChatError("e".to_string()));
    type_text(&mut a, "hi");
    key(&mut a, Key::Enter);
    assert_eq!(a.threads[0].messages.len(), 1);
    assert_eq!(a.threads.len(), 2);
}

#[test]
fn call_is_kept_as_its_text() {
    let mut a = app();
    a.put_call(asked("t"), "text".to_string());
    assert_eq!(said(&a), vec!["AssistantToolCall: text"]);
    assert!(matches!(&a.modal, Some(Modal::ToolConfirm(l, _)) if l == "t ()"));
    assert!(a.pending_tool_call.is_some());
}

fn answered(session: Option<&str>, code: u16, body: &str) -> HttpOutcome {
    HttpOutcome::Replied(HttpReply {
        session: session.map(|s| s.to_string()),
        status: Status::new(code).unwrap(),
        body: Ok(body.to_string()),
    })
}

fn confirmed(app: &mut AppState, tool: &str) -> (usize, HttpRequest, PendingToolCall) {
    event(app, AsyncEvent::ToolCallRequested(asked(tool)));
    match key(app, Key::Char('y')) {
        Effect::CallTool(i, r, p) => (i, r, p),
        _ => panic!(),
    }
}

fn session(request: &HttpRequest) -> Option<&str> {
    request.headers.iter().find(|h| h.0 == "Mcp-Session-Id").map(|h| h.1.as_str())
}

#[test]
fn next_call_carries_the_session() {
    let mut a = app();
    event(&mut a, startup_event(client("s0"), Ok(vec![tool("other", "s0")])));
    event(&mut a, startup_event(client("s1"), Ok(vec![tool("add", "s1")])));
    let (i, request, call) = confirmed(&mut a, "add");
    assert_eq!((i, session(&request)), (1, None));
    let good = "{\"result\":{\"content\":[{\"text\":\"3\"}]}}";
    match a.tool_called(i, call, answered(Some("one"), 200, good)) {
        AsyncEvent::ToolCallResult { id, name, content } => {
            assert_eq!((id.as_str(), name.as_str(), content.as_str()), ("id1", "add", "3"));
        }
        _ => panic!(),
    }
    let (i, request, call) = confirmed(&mut a, "add");
    assert_eq!(session(&request), Some("one"));
    match a.tool_called(i, call, answered(Some("two"), 500, "boom")) {
        AsyncEvent::ChatError(e) => {
            assert_eq!(e, "Tool call failed: HTTP 500 Internal Server Error: boom");
        }
        _ => panic!(),
    }
    let (i, request, call) = confirmed(&mut a, "add");
    assert_eq!(session(&request), Some("two"));
    a.tool_called(i, call, answered(None, 200, good));
    let (i, request, call) = confirmed(&mut a, "add");
    assert_eq!(session(&request), Some("two"));
    a.tool_called(i, call, HttpOutcome::Failed("gone".to_string()));
    assert_eq!(session(&confirmed(&mut a, "add").1), Some("two"));
    assert_eq!(session(&confirmed(&mut a, "other").1), None);
}

#[test]
fn named_thread_is_typed() {
    let mut a = app();
    type_text(&mut a, "/new work");
    assert_eq!(a.input, "/new work");
    assert!(a.modal.is_none());
    assert!(matches!(key(&mut a, Key::Enter), Effect::Nothing));
    assert_eq!(draw(&a).threads, vec!["  Default Chat".to_string(), "▶ work".to_string()]);
    assert_eq!(said(&a), vec!["System: Created thread: work"]);
    assert_eq!(a.input, "");
}

#[test]
fn input_follows_the_list_of_commands() {
    let mut a = app();
    type_text(&mut a, "/mo");
    assert_eq!(a.input, "/mo");
    assert!(matches!(&a.modal, Some(Modal::CommandList(c, 0, p)) if c.len() == 1 && p == "/mo"));
    key(&mut a, Key::Backspace);
    key(&mut a, Key::Backspace);
    key(&mut a, Key::Backspace);
    assert_eq!(a.input, "");
    assert!(matches!(&a.modal, Some(Modal::CommandList(c, 0, p)) if c.len() == 5 && p.is_empty()));
    type_text(&mut a, "hi");
    assert_eq!(a.input, "hi");
    assert!(a.modal.is_none());
    event(&mut a, models_event(Ok(vec!["x".to_string()])));
    type_text(&mut a, "z");
    key(&mut a, Key::Backspace);
    assert_eq!(a.input, "hi");
}

use chatatui::app::{AppState, Effect, Modal};
use chatatui::config::{Config, McpServerConfig};
use chatatui::event::AsyncEvent;
use chatatui::state::{history_of, stored_result, text_to_copy};
use chatatui::steps::Copied;

fn app() -> AppState {
    AppState::new("http://localhost:1".to_string(), "m".to_string(), None, vec![])
}

fn message(role: &str, content: &str) -> (String, String, bool) {
    (role.to_string(), content.to_string(), false)
}

fn said(app: &AppState) -> Vec<String> {
    app.threads[app.current_thread_idx]
        .messages
        .iter()
        .map(|m| format!("{}: {}{}", m.0, m.1, if m.2 { " !" } else { "" }))
        .collect()
}

fn send(app: &mut AppState, input: &str) -> Effect {
    app.input = input.to_string();
    app.send_message()
}

#[test]
fn state_at_the_start() {
    let a = app();
    assert_eq!(a.input, "");
    assert_eq!(a.threads.len(), 1);
    assert_eq!(a.threads[0].name, "Default Chat");
    assert_eq!(a.current_thread_idx, 0);
    assert_eq!(a.thread_state.selected, Some(0));
    assert_eq!(a.api_name, "Localhost");
    assert_eq!(a.model, "m");
    assert!(a.is_connected && !a.is_loading);
    assert!(a.modal.is_none() && a.pending_tool_call.is_none());
    assert!(a.message_queue.is_empty() && a.mcp_tools.is_empty() && a.mcp_clients.is_empty());
}

#[test]
fn command_line_comes_before_the_configuration() {
    let a = AppState::launch(Some("http://a.b".to_string()), None, Config::default());
    assert_eq!((a.api_name.as_str(), a.model.as_str()), ("A", "llama3"));
    let a = AppState::launch(None, Some("x".to_string()), Config::default());
    assert_eq!((a.api_name.as_str(), a.model.as_str()), ("Localhost", "x"));
}

#[test]
fn message_is_sent_and_kept() {
    let mut a = app();
    let effect = send(&mut a, " hello ");
    match effect {
        Effect::SendChat(r) => {
            assert_eq!(r.url, "http://localhost:1/v1/chat/completions");
            assert_eq!(
                r.body.unwrap(),
                "{\"messages\":[{\"content\":\" hello \",\"role\":\"user\"}],\"model\":\"m\",\"stream\":true}"
            );
        }
        _ => panic!(),
    }
    assert_eq!(said(&a), vec!["User:  hello ", "System: m is thinking..."]);
    assert!(a.is_loading);
    assert_eq!(a.input, "");
}

#[test]
fn messages_wait_while_the_server_answers() {
    let mut a = app();
    send(&mut a, "one");
    assert!(matches!(send(&mut a, "two"), Effect::Nothing));
    assert!(matches!(send(&mut a, "three"), Effect::Nothing));
    assert_eq!(a.message_queue, vec!["two".to_string(), "three".to_string()]);
    assert_eq!(said(&a).len(), 2);
    a.is_loading = false;
    assert!(matches!(a.send_next_queued_message(), Effect::SendChat(_)));
    assert_eq!(a.message_queue, vec!["three".to_string()]);
    assert_eq!(said(&a)[2], "User: two");
    a.message_queue.clear();
    assert!(matches!(a.send_next_queued_message(), Effect::Nothing));
}

#[test]
fn blank_input_is_not_sent() {
    let mut a = app();
    assert!(matches!(send(&mut a, " \n"), Effect::Nothing));
    assert_eq!(a.input, " \n");
    assert!(said(&a).is_empty());
}

#[test]
fn threads_are_created() {
    let mut a = app();
    a.chat_scroll = 9;
    send(&mut a, "/new");
    assert_eq!(a.threads[1].name, "Chat 2");
    assert_eq!(said(&a), vec!["System: Created thread: Chat 2"]);
    assert_eq!((a.current_thread_idx, a.thread_state.selected, a.chat_scroll), (1, Some(1), 0));
    send(&mut a, "  /new  a b ");
    assert_eq!(a.threads[2].name, " a b");
    assert_eq!(said(&a), vec!["System: Created thread:  a b"]);
    assert_eq!(a.threads[1].messages.len(), 1);
}

#[test]
fn threads_turn_round() {
    let mut a = app();
    a.create_thread("b".to_string());
    a.create_thread("c".to_string());
    a.chat_scroll = 5;
    a.next_thread();
    assert_eq!((a.current_thread_idx, a.thread_state.selected, a.chat_scroll), (0, Some(0), 5));
    a.prev_thread();
    assert_eq!((a.current_thread_idx, a.thread_state.selected, a.chat_scroll), (2, Some(2), 0));
    a.prev_thread();
    assert_eq!(a.current_thread_idx, 1);
    a.next_thread();
    assert_eq!(a.current_thread_idx, 2);
}

#[test]
fn other_commands() {
    let mut a = app();
    assert!(matches!(send(&mut a, "/model"), Effect::Emit(AsyncEvent::ListModels)));
    send(&mut a, "/mcp");
    send(&mut a, "/what is this");
    send(&mut a, "/help");
    assert_eq!(
        said(&a),
        vec![
            "System: No MCP servers configured.",
            "System: Unknown command: /what",
            "System: Available commands:\n/new - Create new thread\n/model - Select or switch model\n/mcp - List MCP servers and tools\n/copy - Copy last message to clipboard\n/help - Show available commands\n",
        ]
    );
    assert_eq!(a.input, "");
    a.mcp_servers.push(McpServerConfig {
        name: "s".to_string(),
        url: "u".to_string(),
        api_key: None,
    });
    assert!(matches!(a.handle_command("/mcp"), Effect::Nothing));
    match &a.modal {
        Some(Modal::McpServers(servers, 0)) => {
            assert_eq!(servers, &vec![("s".to_string(), "u".to_string())])
        }
        _ => panic!(),
    }
}

#[test]
fn commands_are_carried_out_while_the_server_answers() {
    let mut a = app();
    a.is_loading = true;
    send(&mut a, "/help");
    assert_eq!(said(&a).len(), 1);
    assert!(a.message_queue.is_empty());
}

#[test]
fn last_message_is_copied() {
    let user = message("User", "q");
    let answer = message("Assistant", "a");
    let error = ("Error".to_string(), "e".to_string(), true);
    assert_eq!(text_to_copy(&vec![user.clone(), answer.clone(), error]), "Error: e");
    assert_eq!(text_to_copy(&vec![user.clone(), answer.clone()]), "Assistant: a");
    assert_eq!(text_to_copy(&vec![answer, user]), "User: q");
    assert_eq!(text_to_copy(&vec![message("", "")]), ": ");
}

#[test]
fn copying_is_told() {
    let mut a = app();
    assert!(matches!(send(&mut a, "/copy"), Effect::Nothing));
    assert_eq!(said(&a), vec!["System: No messages to copy."]);
    match send(&mut a, "/copy") {
        Effect::Copy(s) => assert_eq!(s, "System: No messages to copy."),
        _ => panic!(),
    }
    a.say("User", "q".to_string(), false);
    a.say("Assistant", "x\ny".to_string(), false);
    match send(&mut a, "/copy") {
        Effect::Copy(s) => assert_eq!(s, "Assistant: x\ny"),
        _ => panic!(),
    }
    a.copy_finished(Copied::Done);
    a.copy_finished(Copied::Refused);
    a.copy_finished(Copied::NoClipboard);
    assert_eq!(
        said(&a)[3..],
        [
            "System: Copied to clipboard.".to_string(),
            "System: Failed to copy to clipboard. !".to_string(),
            "System: Clipboard not available. !".to_string(),
        ]
    );
}

#[test]
fn history_leaves_notices_out() {
    let messages = vec![
        message("User", "u"),
        message("System", "n"),
        message("Assistant", "a"),
        message("AssistantToolCall", "{}"),
        message("Tool", "id||name||x||y"),
        message("Tool", "id||rest"),
        message("Error", "e"),
        message("Stranger", "s"),
    ];
    let sent = history_of(&messages);
    let wanted = [
        ("user", "u"),
        ("assistant", "a"),
        ("assistant", "{}"),
        ("tool", "x||y"),
        ("tool", "id||rest"),
    ];
    assert_eq!(sent.len(), wanted.len());
    for (got, want) in sent.iter().zip(wanted) {
        assert_eq!((got.0.as_str(), got.1.as_str()), want);
    }
}

#[test]
fn stored_results_and_bars() {
    assert_eq!(stored_result("id||name||a||b|"), "a||b|");
    assert_eq!(stored_result("plain"), "plain");
    assert_eq!(stored_result("i|||n||c"), "c");
    assert_eq!(stored_result("i||n|||c"), "|c");
    assert_eq!(stored_result("i||j||n||c"), "n||c");
}

#[test]
fn command_list_follows_the_input() {
    let mut a = app();
    a.input = "/m".to_string();
    a.try_open_command_modal();
    match &a.modal {
        Some(Modal::CommandList(commands, 0, partial)) => {
            assert_eq!(commands.len(), 2);
            assert_eq!(partial, "/m");
        }
        _ => panic!(),
    }
    a.close_command_modal();
    assert!(a.modal.is_none());
    for input in ["", "m", "/x", "/new a"] {
        a.input = input.to_string();
        a.try_open_command_modal();
        assert!(a.modal.is_none());
    }
    a.open_models_modal(vec![]);
    a.close_command_modal();
    assert!(a.modal.is_some());
}

#[test]
fn input_is_completed() {
    let mut a = app();
    a.input = "/he".to_string();
    a.try_open_command_modal();
    assert_eq!(a.get_autocomplete_suggestion(), Some("/help".to_string()));
    a.accept_autocomplete();
    assert_eq!(a.input, "/help");
    assert!(a.modal.is_none());
    a.input = "/m".to_string();
    a.accept_autocomplete();
    assert_eq!(a.input, "/m");
}

#[test]
fn typing_into_the_list_of_commands() {
    let mut a = app();
    a.input = "/".to_string();
    a.try_open_command_modal();
    a.modal_select_down(5);
    a.modal_input('m');
    match &a.modal {
        Some(Modal::CommandList(c, 0, p)) => assert_eq!((c.len(), p.as_str()), (2, "/m")),
        _ => panic!(),
    }
    a.modal_backspace();
    match &a.modal {
        Some(Modal::CommandList(c, 0, p)) => assert_eq!((c.len(), p.as_str()), (5, "/")),
        _ => panic!(),
    }
    a.modal_input('z');
    assert!(a.modal.is_none());
    a.modal_input('z');
    a.modal_backspace();
    assert!(a.modal.is_none());
    assert_eq!(a.input, "/");
}

#[test]
fn selecting_a_model() {
    let mut a = app();
    a.open_models_modal(vec!["Aa".to_string(), "b".to_string(), "aC".to_string()]);
    a.modal_input('a');
    a.modal_select_down(0);
    a.modal_select_down(0);
    match &a.modal {
        Some(Modal::SelectModel(_, 1, search)) => assert_eq!(search, "a"),
        _ => panic!(),
    }
    assert_eq!(a.modal_confirm(), None);
    assert_eq!(a.model, "aC");
    assert!(a.modal.is_none());
    assert_eq!(said(&a), vec!["System: Model switched."]);
    match send(&mut a, "x") {
        Effect::SendChat(r) => assert!(r.body.unwrap().contains("\"model\":\"aC\"")),
        _ => panic!(),
    }
}

#[test]
fn selecting_among_no_models() {
    let mut a = app();
    a.open_models_modal(vec!["b".to_string()]);
    a.modal_input('z');
    a.modal_select_down(0);
    assert_eq!(a.modal_confirm(), None);
    assert_eq!(a.model, "m");
    assert!(said(&a).is_empty());
    a.open_models_modal(vec!["b".to_string()]);
    a.modal_input('z');
    a.modal_backspace();
    a.modal_backspace();
    a.modal_confirm();
    assert_eq!(a.model, "b");
}

#[test]
fn selections_stay_within_their_list() {
    let mut a = app();
    let pair = ("n".to_string(), "u".to_string());
    a.modal = Some(Modal::McpServers(vec![pair.clone(), pair], 0));
    a.modal_select_up();
    a.modal_select_down(0);
    a.modal_select_down(0);
    assert_eq!(a.modal_confirm(), Some(1));
    assert_eq!(a.modal_confirm(), None);
    a.modal = Some(Modal::McpTools("s".to_string(), vec![], 0));
    a.modal_select_down(9);
    a.modal_select_up();
    assert!(matches!(a.modal, Some(Modal::McpTools(_, _, 0))));
    assert_eq!(a.modal_confirm(), None);
}

#[test]
fn scrolling() {
    let mut a = app();
    a.scroll_down();
    a.scroll_down();
    assert_eq!(a.chat_scroll, 6);
    a.scroll_up();
    assert_eq!(a.chat_scroll, 3);
    a.chat_scroll = 2;
    a.scroll_up();
    assert_eq!(a.chat_scroll, 0);
    a.chat_scroll = u16::MAX - 1;
    a.scroll_down();
    assert_eq!(a.chat_scroll, u16::MAX);
}

#[test]
fn asking_once_more() {
    let mut a = app();
    a.is_loading = true;
    assert!(matches!(a.re_prompt_for_tool_call(), Effect::Nothing));
    a.is_loading = false;
    assert!(matches!(a.re_prompt_for_tool_call(), Effect::SendChat(_)));
    assert_eq!(said(&a), vec!["System: m is thinking..."]);
    assert!(a.is_loading);
    a.current_thread().name = "renamed".to_string();
    assert_eq!(a.threads[0].name, "renamed");
}

#[test]
fn copies_say_the_same() {
    let mut a = app();
    a.say("User", "q".to_string(), true);
    let thread = a.threads[0].clone();
    assert_eq!(thread.name, a.threads[0].name);
    assert_eq!(thread.messages, a.threads[0].messages);
    let pair = ("n".to_string(), "u".to_string());
    let modals = vec![
        Modal::SelectModel(vec!["x".to_string()], 1, "s".to_string()),
        Modal::CommandList(vec![pair.clone()], 2, "/".to_string()),
        Modal::McpServers(vec![pair], 3),
        Modal::McpTools("t".to_string(), vec![], 4),
        Modal::ToolConfirm("t".to_string(), "a".to_string()),
    ];
    for modal in &modals {
        assert_eq!(format!("{:?}", modal.clone()), format!("{:?}", modal));
    }
    let config = Config { ollama_port: Some(7), ..Config::default() };
    assert_eq!(format!("{:?}", config.clone()), format!("{:?}", config));
}

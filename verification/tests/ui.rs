use chatatui::app::{AppState, Modal};
use chatatui::json_text::parse;
use chatatui::mcp::McpTool;
use chatatui::ui::{
    calculate_scroll, draw, modal_popup, render_modal, render_modal_background, Area, Color, Inside,
    Popup, Screen, Share, Style,
};

fn app() -> AppState {
    AppState::new("http://localhost".to_string(), "m".to_string(), None, vec![])
}

fn line(screen: &Screen, i: usize) -> Vec<(&str, Style)> {
    screen.chat[i].iter().map(|s| (s.text.as_str(), s.style)).collect()
}

fn fg(color: Color) -> Style {
    Style { fg: Some(color), bg: None }
}

fn entries(popup: &Popup) -> Vec<&str> {
    match &popup.inside {
        Inside::Entries(e) => e.iter().map(|s| s.as_str()).collect(),
        Inside::Text(_) => panic!(),
    }
}

#[test]
fn screen_at_the_start() {
    let mut a = app();
    let s = draw(&a);
    assert_eq!(s.columns, [Share::Percentage(20), Share::Percentage(80)]);
    assert_eq!(s.rows, [Share::Min(1), Share::Length(3)]);
    assert_eq!(s.threads_title, " Threads (↑↓) ");
    assert_eq!(s.threads, vec!["▶ Default Chat".to_string()]);
    assert_eq!(s.selected, Some(0));
    assert_eq!(s.status, "● Localhost");
    assert_eq!(s.status_style, fg(Color::Green));
    assert_eq!(s.chat_title, " Default Chat | Model: m ");
    assert!(s.chat.is_empty());
    assert_eq!(s.input, ">> ");
    assert_eq!(
        s.input_title,
        " Input (↑↓ scroll | PgUp/PgDn threads | Enter send | Ctrl+C quit) "
    );
    a.is_connected = false;
    a.chat_scroll = 6;
    a.create_thread("b".to_string());
    a.chat_scroll = 6;
    let s = draw(&a);
    assert_eq!(s.status_style, fg(Color::Red));
    assert_eq!(s.threads, vec!["  Default Chat".to_string(), "▶ b".to_string()]);
    assert_eq!((s.scroll, s.selected), (6, Some(1)));
}

#[test]
fn conversation_on_the_screen() {
    let mut a = app();
    a.say("User", "one\ntwo".to_string(), false);
    a.say("Assistant", String::new(), false);
    a.say("System", "n".to_string(), false);
    a.say("Error", "e".to_string(), true);
    let s = draw(&a);
    assert_eq!(s.chat.len(), 9);
    let cyan = fg(Color::Cyan);
    assert_eq!(line(&s, 0), vec![("You: ", cyan), ("one", cyan)]);
    assert_eq!(line(&s, 1), vec![("  ", cyan), ("two", cyan)]);
    assert_eq!(line(&s, 2), vec![]);
    assert_eq!(line(&s, 3), vec![("AI: ", Style { fg: None, bg: None })]);
    assert_eq!(line(&s, 5), vec![("[System] ", fg(Color::Gray)), ("n", fg(Color::Gray))]);
    assert_eq!(line(&s, 7), vec![("Error: ", fg(Color::Red)), ("e", fg(Color::Red))]);
    assert_eq!(line(&s, 8), vec![]);
}

#[test]
fn input_is_shown_and_completed() {
    let mut a = app();
    for (input, shown) in
        [("hi", ">> hi"), ("/n", ">> /new"), ("/m", ">> /m"), ("/zz", ">> /zz"), ("", ">> ")]
    {
        a.input = input.to_string();
        assert_eq!(draw(&a).input, shown);
    }
}

#[test]
fn scroll_of_a_list() {
    assert_eq!(calculate_scroll(3, 5, 10), 0);
    assert_eq!(calculate_scroll(3, 5, 0), 0);
    assert_eq!(calculate_scroll(0, 20, 10), 0);
    assert_eq!(calculate_scroll(7, 20, 10), 0);
    assert_eq!(calculate_scroll(8, 20, 10), 1);
    assert_eq!(calculate_scroll(19, 20, 10), 10);
    for selected in 0..20 {
        for visible in 1..12 {
            let from = calculate_scroll(selected, 20, visible);
            assert!(from <= selected && selected < from + visible && from + visible <= 20);
        }
    }
}

#[test]
fn modal_of_models() {
    let models: Vec<String> = (0..20).map(|i| format!("model{}", i)).collect();
    let modal = Modal::SelectModel(models.clone(), 15, String::new());
    let p = render_modal(&modal, 80, 24);
    assert_eq!(p.area, Area { x: 15, y: 4, width: 50, height: 16 });
    assert_eq!(p.title, " Select Model (type to filter, ↑↓ ↵ Esc) ");
    assert_eq!(p.style, Style { fg: Some(Color::White), bg: Some(Color::DarkGray) });
    let shown = entries(&p);
    assert_eq!(shown.len(), 14);
    assert_eq!(shown[0], "  model4");
    assert_eq!(shown[11], "▶ model15");
    let modal = Modal::SelectModel(models, 0, "L1".to_string());
    let p = render_modal(&modal, 40, 5);
    assert_eq!(p.title, " L1 (11 match) ");
    assert_eq!(p.area, Area { x: 0, y: 0, width: 50, height: 15 });
    assert_eq!(entries(&p)[0], "▶ model1");
}

#[test]
fn modals_of_pairs_and_tools() {
    let pairs = vec![("a".to_string(), "b".to_string()), ("c".to_string(), "d".to_string())];
    let p = render_modal(&Modal::CommandList(pairs.clone(), 1, "/x".to_string()), 50, 15);
    assert_eq!(p.title, " Commands matching '/x' (↑↓↵Tab Esc) ");
    assert_eq!(p.area, Area { x: 0, y: 5, width: 50, height: 5 });
    assert_eq!(entries(&p), vec!["  a - b", "▶ c - d"]);
    let p = render_modal(&Modal::McpServers(pairs, 0), 52, 6);
    assert_eq!(p.title, " MCP Servers (↑↓ ↵ Esc) ");
    assert_eq!(p.area, Area { x: 1, y: 0, width: 50, height: 5 });
    assert_eq!(entries(&p), vec!["▶ a (b)", "  c (d)"]);
    let tool = McpTool {
        name: "n".to_string(),
        title: "T".to_string(),
        description: "d".to_string(),
        server_name: "s".to_string(),
        input_schema: parse("{}").unwrap(),
    };
    let p = render_modal(&Modal::McpTools("s".to_string(), vec![tool], 0), 50, 4);
    assert_eq!(p.title, " s Tools (↑↓ Esc) ");
    assert_eq!(p.area.height, 4);
    assert_eq!(entries(&p), vec!["▶ T"]);
}

#[test]
fn modal_that_asks_about_a_call() {
    let p = render_modal(&Modal::ToolConfirm("t (s)".to_string(), "{}".to_string()), 60, 20);
    assert_eq!(p.title, " Call tool? (y/n) ");
    assert_eq!(p.area, Area { x: 5, y: 6, width: 50, height: 8 });
    match &p.inside {
        Inside::Text(s) => assert_eq!(s, "Tool: t (s)\n\nArgs:\n{}\n\n(y=confirm, n=cancel)"),
        Inside::Entries(_) => panic!(),
    }
    assert_eq!(
        render_modal_background(),
        Style { fg: Some(Color::DarkGray), bg: Some(Color::Black) }
    );
}

#[test]
fn modal_whose_height_cannot_be_counted() {
    let many = |n: usize| Modal::SelectModel(vec![String::new(); n], 0, String::new());
    assert!(!many(65532).is_countable());
    assert!(modal_popup(&many(65532), 80, 24).is_none());
    assert_eq!(modal_popup(&many(65531), 80, 24).unwrap().area.height, 16);
    assert_eq!(modal_popup(&many(65536), 80, 24).unwrap().area.height, 4);
}

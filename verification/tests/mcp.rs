use chatatui::http::{HttpOutcome, HttpReply, HttpRequest, Method, Status};
use chatatui::json_text::{parse, to_text};
use chatatui::mcp::{
    read_body, read_extracted, read_tool_result, read_tools_result, rpc_message, ListStage, ListStep,
    McpClient, McpTool, Reading,
};

fn client() -> McpClient {
    McpClient::new("srv".to_string(), "http://h/mcp/".to_string(), Some("key".to_string()))
}

fn replied(code: u16, session: Option<&str>, body: &str) -> HttpOutcome {
    HttpOutcome::Replied(HttpReply {
        session: session.map(|s| s.to_string()),
        status: Status::new(code).unwrap(),
        body: Ok(body.to_string()),
    })
}

fn headers(request: &HttpRequest) -> Vec<(&str, &str)> {
    request.headers.iter().map(|h| (h.0.as_str(), h.1.as_str())).collect()
}

fn body(request: &HttpRequest) -> &str {
    request.body.as_ref().unwrap().as_str()
}

fn call(step: ListStep) -> (ListStage, HttpRequest) {
    match step {
        ListStep::Call(stage, request) => (stage, request),
        ListStep::Done(_) => panic!("done"),
    }
}

fn done(step: ListStep) -> Result<Vec<McpTool>, String> {
    match step {
        ListStep::Done(r) => r,
        ListStep::Call(_, _) => panic!("goes on"),
    }
}

#[test]
fn json_of_an_event_stream() {
    assert_eq!(McpClient::extract_sse_json("event: m\ndata: {\"a\":1}\n").unwrap(), "{\"a\":1}");
    assert_eq!(McpClient::extract_sse_json("  data:{\"a\":1}  \r\n").unwrap(), "{\"a\":1}");
    assert_eq!(McpClient::extract_sse_json("data:\n {\"b\":2}\n").unwrap(), "{\"b\":2}");
    assert_eq!(
        McpClient::extract_sse_json("data: [1]\ndata: x\ndata: {\"c\"\n").unwrap(),
        "{\"c\""
    );
    assert_eq!(
        McpClient::extract_sse_json("data: [1]\n{}\n").unwrap_err(),
        "No JSON data found in SSE response. Body: data: [1]\n{}\n"
    );
    assert!(McpClient::extract_sse_json("data:").is_err());
}

#[test]
fn bodies_read_in_either_form() {
    match read_body("x", Ok(parse("7").unwrap())) {
        Reading::Value(j) => assert_eq!(to_text(&j), "7"),
        _ => panic!(),
    }
    match read_body("data: {}", Err("e".to_string())) {
        Reading::Extracted(s) => assert_eq!(s, "{}"),
        _ => panic!(),
    }
    match read_body("nothing", Err("e".to_string())) {
        Reading::Failed(s) => assert_eq!(s, "No JSON data found in SSE response. Body: nothing"),
        _ => panic!(),
    }
    assert_eq!(to_text(&read_extracted("t", Ok(parse("7").unwrap())).unwrap()), "7");
    assert_eq!(
        read_extracted("t", Err("why".to_string())).unwrap_err(),
        "Failed to parse response: why. Body: t"
    );
}

#[test]
fn calls_carry_key_and_session() {
    let mut c = client();
    let request = c.send_json_rpc(&parse("{\"x\":1}").unwrap());
    assert_eq!(request.method, Method::Post);
    assert_eq!(request.url, "http://h/mcp/");
    assert_eq!(request.bearer, Some("key".to_string()));
    assert_eq!(body(&request), "{\"x\":1}");
    assert_eq!(
        headers(&request),
        vec![
            ("Content-Type", "application/json"),
            ("Accept", "application/json, text/event-stream")
        ]
    );
    assert!(c.receive(replied(202, Some("s1"), "")).is_ok());
    let request = c.send_json_rpc(&parse("{}").unwrap());
    assert_eq!(headers(&request)[2], ("Mcp-Session-Id", "s1"));
}

#[test]
fn outcomes_of_calls() {
    let mut c = client();
    assert_eq!(to_text(&c.receive(replied(200, None, " \n")).unwrap()), "{}");
    assert_eq!(to_text(&c.receive(replied(200, None, "{\"r\":[1]}")).unwrap()), "{\"r\":[1]}");
    assert_eq!(
        to_text(&c.receive(replied(200, None, "event: message\ndata: {\"r\":2}\n\n")).unwrap()),
        "{\"r\":2}"
    );
    assert_eq!(
        c.receive(replied(500, None, "boom")).unwrap_err(),
        "HTTP 500 Internal Server Error: boom"
    );
    assert_eq!(
        c.receive(HttpOutcome::Failed("no route".to_string())).unwrap_err(),
        "Connection failed: no route"
    );
    assert_eq!(
        c.receive(replied(200, None, "data: {\"r\"")).unwrap_err(),
        "Failed to parse response: EOF while parsing an object at line 1 column 4. Body: {\"r\""
    );
    assert_eq!(
        c.receive(replied(200, None, "hello")).unwrap_err(),
        "No JSON data found in SSE response. Body: hello"
    );
    let cut = HttpOutcome::Replied(HttpReply {
        session: Some("late".to_string()),
        status: Status::new(200).unwrap(),
        body: Err("cut".to_string()),
    });
    assert_eq!(c.receive(cut).unwrap_err(), "Failed to read response body: cut");
    assert_eq!(c.session_id, Some("late".to_string()));
    let refused = HttpOutcome::Replied(HttpReply {
        session: None,
        status: Status::new(404).unwrap(),
        body: Err("cut".to_string()),
    });
    assert_eq!(c.receive(refused).unwrap_err(), "HTTP 404 Not Found: ");
    assert_eq!(c.session_id, Some("late".to_string()));
}

#[test]
fn tools_are_called() {
    let mut c = client();
    let request = c.call_tool("add", &parse("{\"b\":2,\"a\":1}").unwrap());
    assert_eq!(
        body(&request),
        "{\"id\":1,\"jsonrpc\":\"2.0\",\"method\":\"tools/call\",\"params\":{\"arguments\":{\"a\":1,\"b\":2},\"name\":\"add\"}}"
    );
    let good = "{\"result\":{\"content\":[{\"type\":\"text\",\"text\":\"3\"},{\"text\":\"4\"}]}}";
    assert_eq!(c.tool_called(replied(200, Some("s"), good)).unwrap(), "3");
    assert_eq!(c.session_id, Some("s".to_string()));
    for bad in [
        "{}",
        "{\"result\":{}}",
        "{\"result\":{\"content\":[]}}",
        "{\"result\":{\"content\":[{\"text\":3}]}}",
        "{\"result\":{\"content\":{\"text\":\"3\"}}}",
    ] {
        assert_eq!(
            c.tool_called(replied(200, None, bad)).unwrap_err(),
            "Invalid tool call response format"
        );
    }
    assert_eq!(read_tool_result(Err("e".to_string())).unwrap_err(), "e");
}

#[test]
fn listing_with_a_session() {
    let mut c = client();
    let first = c.list_tools();
    assert_eq!(
        body(&first),
        "{\"id\":1,\"jsonrpc\":\"2.0\",\"method\":\"initialize\",\"params\":{\"capabilities\":{},\"clientInfo\":{\"name\":\"chatatui\",\"version\":\"0.1.0\"},\"protocolVersion\":\"2024-11-05\"}}"
    );
    let (stage, open) = call(c.list_tools_step(ListStage::Initialize, replied(200, Some("s"), "{}")));
    assert_eq!(stage, ListStage::OpenStream);
    assert_eq!(open.method, Method::Get);
    assert_eq!(open.url, "http://h/mcp/sse");
    assert_eq!(open.body, None);
    assert_eq!(open.bearer, Some("key".to_string()));
    assert_eq!(headers(&open), vec![("Accept", "text/event-stream"), ("Mcp-Session-Id", "s")]);
    let (stage, notice) =
        call(c.list_tools_step(stage, HttpOutcome::Failed("does not count".to_string())));
    assert_eq!(stage, ListStage::Notify);
    assert_eq!(body(&notice), "{\"jsonrpc\":\"2.0\",\"method\":\"notifications/initialized\"}");
    assert_eq!(headers(&notice)[2], ("Mcp-Session-Id", "s"));
    let (stage, list) = call(c.list_tools_step(stage, replied(202, None, "")));
    assert_eq!(stage, ListStage::List);
    assert_eq!(
        body(&list),
        "{\"id\":2,\"jsonrpc\":\"2.0\",\"method\":\"tools/list\",\"params\":{}}"
    );
    let reply = "{\"result\":{\"tools\":[
        {\"name\":\"a\",\"description\":\"A\",\"title\":\"TA\",\"inputSchema\":{\"x\":1}},
        {\"name\":\"b\"},
        {\"description\":\"C\"},
        {\"name\":\"d\",\"description\":\"D\",\"title\":5}]}}";
    let tools = done(c.list_tools_step(stage, replied(200, None, reply))).unwrap();
    assert_eq!(tools.len(), 2);
    assert_eq!(tools[0].name, "a");
    assert_eq!(tools[0].title, "TA");
    assert_eq!(tools[0].description, "A");
    assert_eq!(tools[0].server_name, "srv");
    assert_eq!(to_text(&tools[0].input_schema), "{\"x\":1}");
    assert_eq!(tools[1].name, "d");
    assert_eq!(tools[1].title, "d");
    assert_eq!(tools[1].server_name, "srv");
    assert_eq!(to_text(&tools[1].input_schema), "{}");
}

#[test]
fn listing_without_a_session() {
    let mut c = McpClient::new("srv".to_string(), "http://h".to_string(), None);
    let (stage, notice) = call(c.list_tools_step(ListStage::Initialize, replied(200, None, "{}")));
    assert_eq!(stage, ListStage::Notify);
    assert_eq!(notice.bearer, None);
    assert_eq!(headers(&notice).len(), 2);
}

#[test]
fn listing_that_fails() {
    let mut c = client();
    assert_eq!(
        done(c.list_tools_step(ListStage::Initialize, replied(401, None, "who"))).unwrap_err(),
        "HTTP 401 Unauthorized: who"
    );
    assert_eq!(
        done(c.list_tools_step(ListStage::Notify, HttpOutcome::Failed("gone".to_string())))
            .unwrap_err(),
        "Connection failed: gone"
    );
    assert_eq!(
        done(c.list_tools_step(ListStage::List, replied(200, None, "{\"result\":{}}"))).unwrap_err(),
        "Invalid response format: missing tools in result"
    );
    assert_eq!(
        done(c.list_tools_step(ListStage::List, replied(200, None, "oops"))).unwrap_err(),
        "MCP server not responding properly — check if server is running"
    );
    assert_eq!(
        done(c.list_tools_step(ListStage::Initialize, replied(200, None, "oops"))).unwrap_err(),
        "No JSON data found in SSE response. Body: oops"
    );
    assert_eq!(read_tools_result(Err("other".to_string()), "s").unwrap_err(), "other");
}

#[test]
fn messages_of_the_protocol() {
    assert_eq!(
        to_text(&rpc_message(Some(serde_json::Number::from(7)), "m", None)),
        "{\"id\":7,\"jsonrpc\":\"2.0\",\"method\":\"m\"}"
    );
    assert_eq!(
        to_text(&rpc_message(None, "m", Some(parse("[1]").unwrap()))),
        "{\"jsonrpc\":\"2.0\",\"method\":\"m\",\"params\":[1]}"
    );
    assert_eq!(body(&client().post("text".to_string())), "text");
}

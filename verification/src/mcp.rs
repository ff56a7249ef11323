//! Tool servers that speak the Model Context Protocol.
use serde_json::Number;
use vstd::prelude::*;
use vstd::string::*;

use crate::http::{copy_option, refused_text, HttpOutcome, HttpRequest, Method};
#[allow(unused_imports)]
use crate::http::{pair_views, refused, status_line, succeeded, OutcomeView, RequestView};
use crate::json::{empty_object, entry, get_member, get_text, make_object, text_value, Json};
#[allow(unused_imports)]
use crate::json::{array, entry_views, item, item_views, member, object, string, JsonView};
use crate::json_text::{number_from, parse, to_text};
#[allow(unused_imports)]
use crate::json_text::{number, parsed, printed, reading};
use crate::text;
#[allow(unused_imports)]
use crate::text::{has_substring, lines_of, trimmed, views, without_trailing};

verus! {

/// A tool server, with the session that it has opened for this client. There is one client for a
/// session, which every call goes through and every outcome comes back to.
#[derive(Debug)]
pub struct McpClient {
    pub name: String,
    pub url: String,
    pub api_key: Option<String>,
    pub session_id: Option<String>,
}

/// What an `McpClient` says.
pub struct McpClientView {
    pub name: Seq<char>,
    pub url: Seq<char>,
    pub api_key: Option<Seq<char>>,
    pub session_id: Option<Seq<char>>,
}

impl View for McpClient {
    type V = McpClientView;

    open spec fn view(&self) -> McpClientView {
        McpClientView {
            name: self.name@,
            url: self.url@,
            api_key: self.api_key.deep_view(),
            session_id: self.session_id.deep_view(),
        }
    }
}

/// A tool that a server offers.
#[derive(Debug)]
pub struct McpTool {
    pub name: String,
    pub title: String,
    pub description: String,
    pub server_name: String,
    pub input_schema: Json,
}

/// What an `McpTool` says.
pub struct ToolView {
    pub name: Seq<char>,
    pub title: Seq<char>,
    pub description: Seq<char>,
    pub server_name: Seq<char>,
    pub input_schema: JsonView,
}

impl View for McpTool {
    type V = ToolView;

    open spec fn view(&self) -> ToolView {
        ToolView {
            name: self.name@,
            title: self.title@,
            description: self.description@,
            server_name: self.server_name@,
            input_schema: self.input_schema@,
        }
    }
}

impl Clone for McpTool {
    fn clone(&self) -> (r: Self)
        ensures
            r@ == self@,
    {
        McpTool {
            name: self.name.clone(),
            title: self.title.clone(),
            description: self.description.clone(),
            server_name: self.server_name.clone(),
            input_schema: self.input_schema.clone(),
        }
    }
}

/// The views of a list of tools.
pub open spec fn tool_views(tools: Seq<McpTool>) -> Seq<ToolView> {
    tools.map_values(|t: McpTool| t@)
}

/// A message of the JSON-RPC protocol: with an identity, where it wants an answer, and with
/// parameters, where it has any.
pub open spec fn rpc_value(
    id: Option<Number>,
    method: Seq<char>,
    params: Option<JsonView>,
) -> JsonView {
    let version = seq![("jsonrpc"@, JsonView::Text("2.0"@))];
    let named = match id {
        Some(n) => version.push(("id"@, JsonView::Number(n))),
        None => version,
    };
    let called = named.push(("method"@, JsonView::Text(method)));
    object(
        match params {
            Some(p) => called.push(("params"@, p)),
            None => called,
        },
    )
}

/// What a client says of itself when it opens a session.
pub open spec fn initialize_params() -> JsonView {
    object(
        seq![
            ("protocolVersion"@, JsonView::Text("2024-11-05"@)),
            ("capabilities"@, object(Seq::empty())),
            (
                "clientInfo"@,
                object(
                    seq![
                        ("name"@, JsonView::Text("chatatui"@)),
                        ("version"@, JsonView::Text("0.1.0"@)),
                    ],
                ),
            ),
        ],
    )
}

/// What is asked of a server to open a session.
pub open spec fn initialize_request() -> JsonView {
    rpc_value(Some(number(1)), "initialize"@, Some(initialize_params()))
}

/// What a server is told once its session is open.
pub open spec fn initialized_notice() -> JsonView {
    rpc_value(None, "notifications/initialized"@, None)
}

/// What is asked of a server to list its tools.
pub open spec fn list_request() -> JsonView {
    rpc_value(Some(number(2)), "tools/list"@, Some(object(Seq::empty())))
}

/// The parameters of a call of a tool.
pub open spec fn call_params(name: Seq<char>, args: JsonView) -> JsonView {
    object(seq![("name"@, JsonView::Text(name)), ("arguments"@, args)])
}

/// What is asked of a server to call a tool.
pub open spec fn call_request(name: Seq<char>, args: JsonView) -> JsonView {
    rpc_value(Some(number(1)), "tools/call"@, Some(call_params(name, args)))
}

/// A message of the JSON-RPC protocol.
pub fn rpc_message(id: Option<Number>, method: &str, params: Option<Json>) -> (r: Json)
    ensures
        r@ == rpc_value(
            id,
            method@,
            match params {
                Some(p) => Some(p@),
                None => None,
            },
        ),
{
    let mut entries = vec![entry("jsonrpc", text_value("2.0"))];
    let ghost version = seq![("jsonrpc"@, JsonView::Text("2.0"@))];
    assert(entry_views(entries@) =~= version);
    if let Some(n) = id {
        entries.push(entry("id", Json::Number(n)));
        assert(entry_views(entries@) =~= version.push(("id"@, JsonView::Number(n))));
    }
    let ghost named = entry_views(entries@);
    entries.push(entry("method", text_value(method)));
    let ghost called = named.push(("method"@, JsonView::Text(method@)));
    assert(entry_views(entries@) =~= called);
    if let Some(p) = params {
        entries.push(entry("params", p));
        assert(entry_views(entries@) =~= called.push(("params"@, p@)));
    }
    make_object(entries)
}

fn initialize_body() -> (r: Json)
    ensures
        r@ == initialize_request(),
{
    let info = vec![
        entry("name", text_value("chatatui")),
        entry("version", text_value("0.1.0")),
    ];
    assert(entry_views(info@) =~= seq![
        ("name"@, JsonView::Text("chatatui"@)),
        ("version"@, JsonView::Text("0.1.0"@)),
    ]);
    let info = make_object(info);
    let params = vec![
        entry("protocolVersion", text_value("2024-11-05")),
        entry("capabilities", empty_object()),
        entry("clientInfo", info),
    ];
    assert(entry_views(params@) =~= seq![
        ("protocolVersion"@, JsonView::Text("2024-11-05"@)),
        ("capabilities"@, object(Seq::empty())),
        ("clientInfo"@, info@),
    ]);
    rpc_message(Some(number_from(1)), "initialize", Some(make_object(params)))
}

fn initialized_body() -> (r: Json)
    ensures
        r@ == initialized_notice(),
{
    rpc_message(None, "notifications/initialized", None)
}

fn list_body() -> (r: Json)
    ensures
        r@ == list_request(),
{
    rpc_message(Some(number_from(2)), "tools/list", Some(empty_object()))
}

fn call_body(name: &str, args: &Json) -> (r: Json)
    ensures
        r@ == call_request(name@, args@),
{
    let params = vec![entry("name", text_value(name)), entry("arguments", args.clone())];
    assert(entry_views(params@) =~= seq![
        ("name"@, JsonView::Text(name@)),
        ("arguments"@, args@),
    ]);
    rpc_message(Some(number_from(1)), "tools/call", Some(make_object(params)))
}

/// The text that a line of an event stream holds, where it starts as a JSON object does: on a line
/// of data, or on the line after an empty one.
pub open spec fn stream_json_at(lines: Seq<Seq<char>>, i: int) -> Option<Seq<char>> {
    let line = trimmed(lines[i]);
    if "data:"@.is_prefix_of(line) {
        let data = trimmed(line.skip(5));
        if data.len() > 0 && data.first() == '{' {
            Some(data)
        } else if data.len() == 0 && i + 1 < lines.len() {
            let next = trimmed(lines[i + 1]);
            if next.len() > 0 && next.first() == '{' {
                Some(next)
            } else {
                None
            }
        } else {
            None
        }
    } else {
        None
    }
}

/// The first such text from line `i` on.
pub open spec fn stream_json_from(lines: Seq<Seq<char>>, i: int) -> Option<Seq<char>>
    decreases lines.len() - i,
{
    if i < 0 || i >= lines.len() {
        None
    } else {
        match stream_json_at(lines, i) {
            Some(s) => Some(s),
            None => stream_json_from(lines, i + 1),
        }
    }
}

/// What to say of an event stream without JSON.
pub open spec fn no_json_message(text: Seq<char>) -> Seq<char> {
    "No JSON data found in SSE response. Body: "@ + text
}

/// The JSON text of an event stream, or what to say where there is none.
pub open spec fn stream_json(text: Seq<char>) -> Result<Seq<char>, Seq<char>> {
    match stream_json_from(lines_of(text), 0) {
        Some(s) => Ok(s),
        None => Err(no_json_message(text)),
    }
}

/// What a reply's body reads as, given what the whole of it reads as.
pub enum Reading {
    /// The body is this value.
    Value(Json),
    /// The body is an event stream, and this text of it is to be read.
    Extracted(String),
    /// The body is neither, for the reason given.
    Failed(String),
}

/// What a `Reading` says.
pub enum ReadingView {
    Value(JsonView),
    Extracted(Seq<char>),
    Failed(Seq<char>),
}

impl View for Reading {
    type V = ReadingView;

    open spec fn view(&self) -> ReadingView {
        match self {
            Reading::Value(j) => ReadingView::Value(j@),
            Reading::Extracted(s) => ReadingView::Extracted(s@),
            Reading::Failed(e) => ReadingView::Failed(e@),
        }
    }
}

/// What a body is, given what the whole of it reads as.
pub open spec fn body_reading(
    text: Seq<char>,
    whole: Result<JsonView, Seq<char>>,
) -> ReadingView {
    match whole {
        Ok(j) => ReadingView::Value(j),
        Err(_) => match stream_json(text) {
            Ok(s) => ReadingView::Extracted(s),
            Err(e) => ReadingView::Failed(e),
        },
    }
}

/// What an extracted text says, given what it reads as.
pub open spec fn extracted_reading(
    text: Seq<char>,
    read: Result<JsonView, Seq<char>>,
) -> Result<JsonView, Seq<char>> {
    match read {
        Ok(j) => Ok(j),
        Err(e) => Err("Failed to parse response: "@ + e + ". Body: "@ + text),
    }
}

/// What the body of a reply says.
pub open spec fn body_value(text: Seq<char>) -> Result<JsonView, Seq<char>> {
    if trimmed(text).len() == 0 {
        Ok(object(Seq::empty()))
    } else {
        match body_reading(text, parsed(text)) {
            ReadingView::Value(j) => Ok(j),
            ReadingView::Extracted(s) => extracted_reading(s, parsed(s)),
            ReadingView::Failed(e) => Err(e),
        }
    }
}

/// What an outcome says to the call that it answers.
pub open spec fn outcome_value(outcome: OutcomeView) -> Result<JsonView, Seq<char>> {
    match outcome {
        OutcomeView::Failed(e) => Err("Connection failed: "@ + e),
        OutcomeView::Replied { session, code, body } => if !succeeded(code) {
            Err(
                refused(
                    status_line(code),
                    match body {
                        Ok(s) => s,
                        Err(_) => Seq::empty(),
                    },
                ),
            )
        } else {
            match body {
                Ok(s) => body_value(s),
                Err(e) => Err("Failed to read response body: "@ + e),
            }
        },
    }
}

/// What a body is, given what the whole of it reads as.
pub fn read_body(text: &str, whole: Result<Json, String>) -> (r: Reading)
    ensures
        r@ == body_reading(text@, reading(whole)),
{
    match whole {
        Ok(j) => Reading::Value(j),
        Err(_e) => match McpClient::extract_sse_json(text) {
            Ok(s) => Reading::Extracted(s),
            Err(e) => Reading::Failed(e),
        },
    }
}

/// What an extracted text says, given what it reads as.
pub fn read_extracted(text: &str, read: Result<Json, String>) -> (r: Result<Json, String>)
    ensures
        reading(r) == extracted_reading(text@, reading(read)),
{
    match read {
        Ok(j) => Ok(j),
        Err(e) => {
            let mut s = "Failed to parse response: ".to_string();
            s.append(e.as_str());
            s.append(". Body: ");
            s.append(text);
            Err(s)
        },
    }
}

/// What the body of a reply says.
fn read_text(text: &str) -> (r: Result<Json, String>)
    ensures
        reading(r) == body_value(text@),
{
    if text::is_blank(text) {
        return Ok(empty_object());
    }
    match read_body(text, parse(text)) {
        Reading::Value(j) => Ok(j),
        Reading::Extracted(s) => {
            let read = parse(s.as_str());
            read_extracted(s.as_str(), read)
        },
        Reading::Failed(e) => Err(e),
    }
}

impl McpClientView {
    /// The headers of a call to the server.
    pub open spec fn call_headers(self) -> Seq<(Seq<char>, Seq<char>)> {
        seq![
            ("Content-Type"@, "application/json"@),
            ("Accept"@, "application/json, text/event-stream"@),
        ] + self.session_headers()
    }

    /// The headers that name the session, where there is one.
    pub open spec fn session_headers(self) -> Seq<(Seq<char>, Seq<char>)> {
        match self.session_id {
            Some(sid) => seq![("Mcp-Session-Id"@, sid)],
            None => Seq::empty(),
        }
    }

    /// The request that carries a text to the server.
    pub open spec fn post(self, text: Seq<char>) -> RequestView {
        RequestView {
            method: Method::Post,
            url: self.url,
            headers: self.call_headers(),
            bearer: self.api_key,
            body: Some(text),
        }
    }

    /// The request that carries a call to the server.
    pub open spec fn call(self, body: JsonView) -> RequestView {
        self.post(printed(body))
    }

    /// The request that opens the event stream of the session.
    pub open spec fn open_stream(self) -> RequestView {
        RequestView {
            method: Method::Get,
            url: without_trailing(self.url, '/') + "/sse"@,
            headers: seq![("Accept"@, "text/event-stream"@)] + self.session_headers(),
            bearer: self.api_key,
            body: None,
        }
    }

    /// The client once an outcome has come: a reply that names a session opens that session.
    pub open spec fn after(self, outcome: OutcomeView) -> McpClientView {
        match outcome {
            OutcomeView::Replied { session: Some(sid), .. } => McpClientView {
                session_id: Some(sid),
                ..self
            },
            _ => self,
        }
    }
}

impl McpClient {
    /// A client without a session.
    pub fn new(name: String, url: String, api_key: Option<String>) -> (r: Self)
        ensures
            r@ == (McpClientView {
                name: name@,
                url: url@,
                api_key: api_key.deep_view(),
                session_id: None,
            }),
    {
        McpClient { name, url, api_key, session_id: None }
    }

    /// The JSON text of an event stream, or what to say where there is none.
    pub fn extract_sse_json(text: &str) -> (r: Result<String, String>)
        ensures
            match r {
                Ok(s) => stream_json(text@) == Ok::<Seq<char>, Seq<char>>(s@),
                Err(e) => stream_json(text@) == Err::<Seq<char>, Seq<char>>(e@),
            },
    {
        let lines = text::lines(text);
        let ghost all = lines_of(text@);
        let mut i: usize = 0;
        while i < lines.len()
            invariant
                views(lines@) == all,
                i <= lines@.len(),
                all == lines_of(text@),
                stream_json_from(all, 0) == stream_json_from(all, i as int),
            decreases lines@.len() - i,
        {
            assert(all[i as int] == lines@[i as int]@);
            assert(all.len() == lines@.len());
            let line = text::trim(lines[i].as_str());
            if text::starts_with(line.as_str(), "data:") {
                proof {
                    reveal_strlit("data:");
                }
                let n = line.as_str().unicode_len();
                let data = text::slice(line.as_str(), 5, n);
                assert(data@ =~= line@.skip(5));
                let data = text::trim(data.as_str());
                if text::starts_with_char(data.as_str(), '{') {
                    return Ok(data);
                }
                if data.as_str().is_empty() && i + 1 < lines.len() {
                    assert(all[i + 1] == lines@[i + 1]@);
                    let next = text::trim(lines[i + 1].as_str());
                    if text::starts_with_char(next.as_str(), '{') {
                        return Ok(next);
                    }
                }
            }
            i += 1;
        }
        let mut e = "No JSON data found in SSE response. Body: ".to_string();
        e.append(text);
        Err(e)
    }

    /// The request that carries a call to the server.
    pub fn send_json_rpc(&self, body: &Json) -> (r: HttpRequest)
        ensures
            r@ == self@.call(body@),
    {
        self.post(to_text(body))
    }

    /// The request that carries a text to the server.
    pub fn post(&self, text: String) -> (r: HttpRequest)
        ensures
            r@ == self@.post(text@),
    {
        let mut headers = vec![
            ("Content-Type".to_string(), "application/json".to_string()),
            ("Accept".to_string(), "application/json, text/event-stream".to_string()),
        ];
        if let Some(sid) = &self.session_id {
            headers.push(("Mcp-Session-Id".to_string(), sid.clone()));
        }
        assert(pair_views(headers@) =~= self@.call_headers());
        HttpRequest {
            method: Method::Post,
            url: self.url.clone(),
            headers,
            bearer: copy_option(&self.api_key),
            body: Some(text),
        }
    }

    /// Takes in what became of a call, and says what it gave.
    pub fn receive(&mut self, outcome: HttpOutcome) -> (r: Result<Json, String>)
        ensures
            final(self)@ == old(self)@.after(outcome@),
            reading(r) == outcome_value(outcome@),
    {
        match outcome {
            HttpOutcome::Failed(e) => {
                let mut s = "Connection failed: ".to_string();
                s.append(e.as_str());
                Err(s)
            },
            HttpOutcome::Replied(reply) => {
                if let Some(sid) = reply.session {
                    self.session_id = Some(sid);
                }
                if !reply.status.is_success() {
                    let body = match reply.body {
                        Ok(s) => s,
                        Err(_e) => String::new(),
                    };
                    return Err(refused_text(reply.status.text().as_str(), body.as_str()));
                }
                match reply.body {
                    Ok(text) => read_text(text.as_str()),
                    Err(e) => {
                        let mut s = "Failed to read response body: ".to_string();
                        s.append(e.as_str());
                        Err(s)
                    },
                }
            },
        }
    }
}

/// The text that a called tool gave, in the server's reply.
pub open spec fn tool_text(reply: JsonView) -> Option<Seq<char>> {
    string(
        member(item(member(member(Some(reply), "result"@), "content"@), 0), "text"@),
    )
}

/// What calling a tool gave, given what the call gave.
pub open spec fn tool_result(
    reply: Result<JsonView, Seq<char>>,
) -> Result<Seq<char>, Seq<char>> {
    match reply {
        Ok(j) => match tool_text(j) {
            Some(s) => Ok(s),
            None => Err("Invalid tool call response format"@),
        },
        Err(e) => Err(e),
    }
}

/// The tool that an entry of a server's list describes. One without a name or a description is
/// none; one without a title has its name for a title.
pub open spec fn listed_tool(j: JsonView, server: Seq<char>) -> Option<ToolView> {
    match (string(j.get("name"@)), string(j.get("description"@))) {
        (Some(name), Some(description)) => Some(
            ToolView {
                name,
                title: match string(j.get("title"@)) {
                    Some(t) => t,
                    None => name,
                },
                description,
                server_name: server,
                input_schema: match j.get("inputSchema"@) {
                    Some(s) => s,
                    None => object(Seq::empty()),
                },
            },
        ),
        _ => None,
    }
}

/// The tools that a server's list describes, in its order.
pub open spec fn listed_tools(items: Seq<JsonView>, server: Seq<char>) -> Seq<ToolView> {
    items.filter_map(|j: JsonView| listed_tool(j, server))
}

/// What listing the tools gave, given what the call gave.
pub open spec fn tools_result(
    reply: Result<JsonView, Seq<char>>,
    server: Seq<char>,
) -> Result<Seq<ToolView>, Seq<char>> {
    match reply {
        Ok(j) => match array(member(member(Some(j), "result"@), "tools"@)) {
            Some(items) => Ok(listed_tools(items, server)),
            None => Err("Invalid response format: missing tools in result"@),
        },
        Err(e) => Err(
            if has_substring(e, "No JSON data found in SSE response"@) {
                "MCP server not responding properly — check if server is running"@
            } else {
                e
            },
        ),
    }
}

/// The view of a list of tools, or of why there is none.
pub open spec fn tools_view(r: Result<Vec<McpTool>, String>) -> Result<Seq<ToolView>, Seq<char>> {
    match r {
        Ok(tools) => Ok(tool_views(tools@)),
        Err(e) => Err(e@),
    }
}

/// The view of a text, or of why there is none.
pub open spec fn text_result(r: Result<String, String>) -> Result<Seq<char>, Seq<char>> {
    match r {
        Ok(s) => Ok(s@),
        Err(e) => Err(e@),
    }
}

/// The calls that list the tools of a server, in their order.
#[derive(Debug, Clone, Copy, PartialEq, Eq, Structural)]
pub enum ListStage {
    /// The session is being opened.
    Initialize,
    /// The event stream of the session is being opened.
    OpenStream,
    /// The server is being told that the session is open.
    Notify,
    /// The tools are being listed.
    List,
}

/// What to do next to list the tools of a server.
pub enum ListStep {
    Call(ListStage, HttpRequest),
    Done(Result<Vec<McpTool>, String>),
}

/// What a `ListStep` says.
pub enum ListStepView {
    Call(ListStage, RequestView),
    Done(Result<Seq<ToolView>, Seq<char>>),
}

impl View for ListStep {
    type V = ListStepView;

    open spec fn view(&self) -> ListStepView {
        match self {
            ListStep::Call(stage, request) => ListStepView::Call(*stage, request@),
            ListStep::Done(r) => ListStepView::Done(tools_view(*r)),
        }
    }
}

impl McpClientView {
    /// What follows on a call, for the client as it was when the call was made. A refused call
    /// ends the listing, but for that of the event stream, whose outcome does not count.
    pub open spec fn list_step(self, stage: ListStage, outcome: OutcomeView) -> ListStepView {
        let now = self.list_after(stage, outcome);
        match stage {
            ListStage::Initialize => match outcome_value(outcome) {
                Ok(_) => if now.session_id is Some {
                    ListStepView::Call(ListStage::OpenStream, now.open_stream())
                } else {
                    ListStepView::Call(ListStage::Notify, now.call(initialized_notice()))
                },
                Err(e) => ListStepView::Done(Err(e)),
            },
            ListStage::OpenStream => ListStepView::Call(
                ListStage::Notify,
                now.call(initialized_notice()),
            ),
            ListStage::Notify => match outcome_value(outcome) {
                Ok(_) => ListStepView::Call(ListStage::List, now.call(list_request())),
                Err(e) => ListStepView::Done(Err(e)),
            },
            ListStage::List => ListStepView::Done(tools_result(outcome_value(outcome), self.name)),
        }
    }

    /// The client once the outcome of a call has come.
    pub open spec fn list_after(self, stage: ListStage, outcome: OutcomeView) -> McpClientView {
        match stage {
            ListStage::OpenStream => self,
            _ => self.after(outcome),
        }
    }
}

impl McpTool {
    /// The tool that an entry of a server's list describes.
    pub fn from_listing(j: &Json, server: &str) -> (r: Option<McpTool>)
        ensures
            match r {
                Some(t) => listed_tool(j@, server@) == Some(t@),
                None => listed_tool(j@, server@) is None,
            },
    {
        let name = match get_text(j, "name") {
            Some(s) => s.to_string(),
            None => {
                return None;
            },
        };
        let title = match get_text(j, "title") {
            Some(s) => s.to_string(),
            None => name.clone(),
        };
        let description = match get_text(j, "description") {
            Some(s) => s.to_string(),
            None => {
                return None;
            },
        };
        let input_schema = match j.get("inputSchema") {
            Some(s) => s.clone(),
            None => empty_object(),
        };
        Some(McpTool { name, title, description, server_name: server.to_string(), input_schema })
    }
}

/// The tools that a server's list describes, in its order.
fn list_of_tools(items: &Vec<Json>, server: &str) -> (r: Vec<McpTool>)
    ensures
        tool_views(r@) == listed_tools(item_views(items@), server@),
{
    let ghost wanted = item_views(items@);
    let ghost pick = |j: JsonView| listed_tool(j, server@);
    let mut out: Vec<McpTool> = Vec::new();
    let mut i: usize = 0;
    assert(wanted.take(0).filter_map(pick) =~= Seq::<ToolView>::empty());
    assert(tool_views(out@) =~= Seq::<ToolView>::empty());
    while i < items.len()
        invariant
            i <= items@.len(),
            wanted == item_views(items@),
            pick == (|j: JsonView| listed_tool(j, server@)),
            tool_views(out@) == wanted.take(i as int).filter_map(pick),
        decreases items@.len() - i,
    {
        let ghost had = out@;
        proof {
            wanted.lemma_filter_map_take_succ(pick, i as int);
        }
        if let Some(tool) = McpTool::from_listing(&items[i], server) {
            out.push(tool);
            assert(tool_views(out@) =~= tool_views(had).push(tool@));
        }
        i += 1;
    }
    assert(wanted.take(i as int) =~= wanted);
    out
}

/// What calling a tool gave, given what the call gave.
pub fn read_tool_result(reply: Result<Json, String>) -> (r: Result<String, String>)
    ensures
        text_result(r) == tool_result(reading(reply)),
{
    match reply {
        Ok(j) => {
            let content = get_member(get_member(Some(&j), "result"), "content");
            let first = match content {
                Some(c) => c.at(0),
                None => None,
            };
            match get_member(first, "text") {
                Some(t) => match t.as_str() {
                    Some(s) => Ok(s.to_string()),
                    None => Err("Invalid tool call response format".to_string()),
                },
                None => Err("Invalid tool call response format".to_string()),
            }
        },
        Err(e) => Err(e),
    }
}

/// What listing the tools gave, given what the call gave.
pub fn read_tools_result(reply: Result<Json, String>, server: &str) -> (r: Result<
    Vec<McpTool>,
    String,
>)
    ensures
        tools_view(r) == tools_result(reading(reply), server@),
{
    match reply {
        Ok(j) => {
            let tools = match get_member(get_member(Some(&j), "result"), "tools") {
                Some(t) => t.as_array(),
                None => None,
            };
            match tools {
                Some(items) => Ok(list_of_tools(items, server)),
                None => Err("Invalid response format: missing tools in result".to_string()),
            }
        },
        Err(e) => if text::contains(e.as_str(), "No JSON data found in SSE response") {
            Err("MCP server not responding properly — check if server is running".to_string())
        } else {
            Err(e)
        },
    }
}

impl McpClient {
    /// The request that calls a tool.
    pub fn call_tool(&self, name: &str, args: &Json) -> (r: HttpRequest)
        ensures
            r@ == self@.call(call_request(name@, args@)),
    {
        self.send_json_rpc(&call_body(name, args))
    }

    /// Takes in what became of a call of a tool, and says what the tool gave.
    pub fn tool_called(&mut self, outcome: HttpOutcome) -> (r: Result<String, String>)
        ensures
            final(self)@ == old(self)@.after(outcome@),
            text_result(r) == tool_result(outcome_value(outcome@)),
    {
        let reply = self.receive(outcome);
        read_tool_result(reply)
    }

    /// The request that opens the event stream of the session.
    fn open_stream_request(&self) -> (r: HttpRequest)
        ensures
            r@ == self@.open_stream(),
    {
        let mut url = text::trim_end_char(self.url.as_str(), '/');
        url.append("/sse");
        let mut headers = vec![("Accept".to_string(), "text/event-stream".to_string())];
        if let Some(sid) = &self.session_id {
            headers.push(("Mcp-Session-Id".to_string(), sid.clone()));
        }
        assert(pair_views(headers@) =~= self@.open_stream().headers);
        HttpRequest {
            method: Method::Get,
            url,
            headers,
            bearer: copy_option(&self.api_key),
            body: None,
        }
    }

    /// The first of the requests that list the tools of the server.
    pub fn list_tools(&self) -> (r: HttpRequest)
        ensures
            r@ == self@.call(initialize_request()),
    {
        self.send_json_rpc(&initialize_body())
    }

    /// Takes in what became of a call, and says what follows.
    pub fn list_tools_step(&mut self, stage: ListStage, outcome: HttpOutcome) -> (r: ListStep)
        ensures
            final(self)@ == old(self)@.list_after(stage, outcome@),
            r@ == old(self)@.list_step(stage, outcome@),
    {
        match stage {
            ListStage::Initialize => match self.receive(outcome) {
                Ok(_j) => if self.session_id.is_some() {
                    ListStep::Call(ListStage::OpenStream, self.open_stream_request())
                } else {
                    ListStep::Call(ListStage::Notify, self.send_json_rpc(&initialized_body()))
                },
                Err(e) => ListStep::Done(Err(e)),
            },
            ListStage::OpenStream => ListStep::Call(
                ListStage::Notify,
                self.send_json_rpc(&initialized_body()),
            ),
            ListStage::Notify => match self.receive(outcome) {
                Ok(_j) => ListStep::Call(ListStage::List, self.send_json_rpc(&list_body())),
                Err(e) => ListStep::Done(Err(e)),
            },
            ListStage::List => {
                let reply = self.receive(outcome);
                ListStep::Done(read_tools_result(reply, self.name.as_str()))
            },
        }
    }
}

/// A reply that names a session opens it: the next call carries it, and so does the request that
/// opens its event stream. Any other outcome leaves the session as it is.
pub proof fn law_session_is_carried(client: McpClientView, outcome: OutcomeView, body: JsonView)
    ensures
        match outcome {
            OutcomeView::Replied { session: Some(sid), .. } => {
                let next = client.after(outcome);
                &&& next.call(body).headers.contains(("Mcp-Session-Id"@, sid))
                &&& next.open_stream().headers.contains(("Mcp-Session-Id"@, sid))
            },
            _ => client.after(outcome) == client,
        },
{
    if let OutcomeView::Replied { session: Some(sid), .. } = outcome {
        let next = client.after(outcome);
        assert(next.call(body).headers[2] == ("Mcp-Session-Id"@, sid));
        assert(next.open_stream().headers[1] == ("Mcp-Session-Id"@, sid));
    }
}

/// How far a listing has come.
pub open spec fn stage_rank(stage: ListStage) -> int {
    match stage {
        ListStage::Initialize => 0,
        ListStage::OpenStream => 1,
        ListStage::Notify => 2,
        ListStage::List => 3,
    }
}

/// A listing goes on from stage to stage and comes to an end, and gives tools at its last stage only.
pub proof fn law_listing_ends(client: McpClientView, stage: ListStage, outcome: OutcomeView)
    ensures
        client.list_step(stage, outcome) matches ListStepView::Call(next, _) ==> stage_rank(next)
            > stage_rank(stage),
        client.list_step(stage, outcome) matches ListStepView::Done(r) ==> (r is Ok ==> stage
            == ListStage::List),
        stage == ListStage::List ==> client.list_step(stage, outcome) is Done,
{
}

/// A listing that is answered with neither JSON nor an event stream with JSON in it is told as a
/// server that does not respond properly.
pub proof fn law_no_json_is_told(
    client: McpClientView,
    session: Option<Seq<char>>,
    code: u16,
    text: Seq<char>,
)
    requires
        succeeded(code),
        trimmed(text).len() > 0,
        stream_json(text) is Err,
    ensures
        parsed(text) is Err ==> client.list_step(
            ListStage::List,
            OutcomeView::Replied { session, code, body: Ok(text) },
        ) == ListStepView::Done(
            Err("MCP server not responding properly — check if server is running"@),
        ),
{
    reveal_strlit("No JSON data found in SSE response. Body: ");
    reveal_strlit("No JSON data found in SSE response");
    let e = no_json_message(text);
    let p = "No JSON data found in SSE response"@;
    assert(e.subrange(0, p.len() as int) =~= p);
    assert(text::occurs_at(e, p, 0));
}

/// A reply of a server comes as JSON or as an event stream: a line of data that holds a JSON object
/// is found, wherever it stands, if no line before it holds one.
pub proof fn law_stream_json_is_found(text: Seq<char>, i: int)
    requires
        0 <= i < lines_of(text).len(),
        stream_json_at(lines_of(text), i) is Some,
        forall|j: int| 0 <= j < i ==> (#[trigger] stream_json_at(lines_of(text), j)) is None,
    ensures
        stream_json(text) == Ok::<Seq<char>, Seq<char>>(stream_json_at(lines_of(text), i)->0),
{
    lemma_stream_json_from(lines_of(text), 0, i);
}

/// The search goes past the lines that hold nothing.
proof fn lemma_stream_json_from(lines: Seq<Seq<char>>, from: int, i: int)
    requires
        0 <= from <= i < lines.len(),
        stream_json_at(lines, i) is Some,
        forall|j: int| from <= j < i ==> (#[trigger] stream_json_at(lines, j)) is None,
    ensures
        stream_json_from(lines, from) == stream_json_at(lines, i),
    decreases i - from,
{
    if from < i {
        assert(stream_json_at(lines, from) is None);
        lemma_stream_json_from(lines, from + 1, i);
    }
}

/// Every tool that a listing gives names the server that was asked.
pub proof fn law_tools_name_their_server(items: Seq<JsonView>, server: Seq<char>)
    ensures
        forall|i: int|
            0 <= i < listed_tools(items, server).len() ==> (#[trigger] listed_tools(
                items,
                server,
            )[i]).server_name == server,
    decreases items.len(),
{
    if items.len() > 0 {
        let n = items.len() - 1;
        law_tools_name_their_server(items.drop_last(), server);
        items.lemma_filter_map_take_succ(|j: JsonView| listed_tool(j, server), n);
        assert(items.take(n) =~= items.drop_last());
        assert(items.take(n + 1) =~= items);
    }
}

/// The session that an outcome names, where it names one.
pub open spec fn named_session(outcome: OutcomeView) -> Option<Seq<char>> {
    match outcome {
        OutcomeView::Replied { session, .. } => session,
        _ => None,
    }
}

/// The last session that the outcomes name is `sid`.
pub open spec fn latest_session(outcomes: Seq<OutcomeView>, sid: Seq<char>) -> bool {
    exists|i: int|
        {
            &&& 0 <= i < outcomes.len()
            &&& #[trigger] named_session(outcomes[i]) == Some(sid)
            &&& forall|j: int|
                i < j < outcomes.len() ==> (#[trigger] named_session(outcomes[j])) is None
        }
}

impl McpClientView {
    /// The client once outcomes have come, one after the other.
    pub open spec fn after_all(self, outcomes: Seq<OutcomeView>) -> McpClientView
        decreases outcomes.len(),
    {
        if outcomes.len() == 0 {
            self
        } else {
            self.after_all(outcomes.drop_last()).after(outcomes.last())
        }
    }
}

/// Outcomes change nothing of a client but its session, which is the latest that they name, or the
/// one it had.
proof fn lemma_after_all(client: McpClientView, outcomes: Seq<OutcomeView>)
    ensures
        client.after_all(outcomes) == (McpClientView {
            session_id: client.after_all(outcomes).session_id,
            ..client
        }),
        forall|i: int|
            #![trigger named_session(outcomes[i])]
            0 <= i < outcomes.len() && named_session(outcomes[i]) is Some && (forall|j: int|
                i < j < outcomes.len() ==> (#[trigger] named_session(outcomes[j])) is None)
                ==> client.after_all(outcomes).session_id == named_session(outcomes[i]),
        (exists|i: int|
            {
                &&& 0 <= i < outcomes.len()
                &&& #[trigger] named_session(outcomes[i]) is Some
                &&& client.after_all(outcomes).session_id == named_session(outcomes[i])
                &&& forall|j: int|
                    i < j < outcomes.len() ==> (#[trigger] named_session(outcomes[j])) is None
            }) || (client.after_all(outcomes).session_id == client.session_id && forall|j: int|
            0 <= j < outcomes.len() ==> (#[trigger] named_session(outcomes[j])) is None),
    decreases outcomes.len(),
{
    if outcomes.len() > 0 {
        let front = outcomes.drop_last();
        let n = outcomes.len() - 1;
        lemma_after_all(client, front);
        assert(forall|j: int| 0 <= j < n ==> front[j] == outcomes[j]);
        if named_session(outcomes[n]) is None {
            assert forall|i: int|
                0 <= i < outcomes.len() && named_session(outcomes[i]) is Some && (forall|j: int|
                    i < j < outcomes.len() ==> (#[trigger] named_session(outcomes[j]))
                        is None) implies client.after_all(outcomes).session_id == named_session(
                outcomes[i],
            ) by {
                assert(named_session(front[i]) is Some);
                assert forall|j: int| i < j < front.len() implies (#[trigger] named_session(
                    front[j],
                )) is None by {
                    assert(named_session(outcomes[j]) is None);
                }
            }
            if client.after_all(front).session_id != client.session_id || exists|i: int|
                0 <= i < front.len() && #[trigger] named_session(front[i]) is Some {
                let i = choose|i: int|
                    {
                        &&& 0 <= i < front.len()
                        &&& #[trigger] named_session(front[i]) is Some
                        &&& client.after_all(front).session_id == named_session(front[i])
                        &&& forall|j: int|
                            i < j < front.len() ==> (#[trigger] named_session(front[j])) is None
                    };
                assert(named_session(outcomes[i]) is Some);
                assert forall|j: int| i < j < outcomes.len() implies (#[trigger] named_session(
                    outcomes[j],
                )) is None by {
                    if j < n {
                        assert(named_session(front[j]) is None);
                    }
                }
            } else {
                assert forall|j: int| 0 <= j < outcomes.len() implies (#[trigger] named_session(
                    outcomes[j],
                )) is None by {
                    if j < n {
                        assert(named_session(front[j]) is None);
                    }
                }
            }
        }
    }
}

/// A call of a client that started without a session names a session if and only if it is the
/// latest that an outcome of its calls has named, whether the call was carried out or refused.
pub proof fn law_call_names_the_latest_session(
    client: McpClientView,
    outcomes: Seq<OutcomeView>,
    body: JsonView,
    sid: Seq<char>,
)
    requires
        client.session_id is None,
    ensures
        client.after_all(outcomes).call(body).headers.contains(("Mcp-Session-Id"@, sid))
            <==> latest_session(outcomes, sid),
{
    reveal_strlit("Mcp-Session-Id");
    reveal_strlit("Content-Type");
    reveal_strlit("Accept");
    assert("Mcp-Session-Id"@.len() == 14 && "Content-Type"@.len() == 12 && "Accept"@.len() == 6);
    lemma_after_all(client, outcomes);
    let last = client.after_all(outcomes);
    let headers = last.call(body).headers;
    if last.session_id == Some(sid) {
        assert(headers[2] == ("Mcp-Session-Id"@, sid));
    }
    if headers.contains(("Mcp-Session-Id"@, sid)) {
        let k = choose|k: int| 0 <= k < headers.len() && headers[k] == ("Mcp-Session-Id"@, sid);
        assert(headers[0].0.len() == 12 && headers[1].0.len() == 6);
        assert(k == 2);
    }
}

} // verus!

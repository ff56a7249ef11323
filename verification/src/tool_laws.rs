//! What holds of the exchange with tool servers.
use serde_json::Number;
use vstd::prelude::*;

#[allow(unused_imports)]
use crate::http::{status_line, Method, OutcomeView};
#[allow(unused_imports)]
use crate::json::{object, JsonView};
#[allow(unused_imports)]
use crate::json_laws::{has_member, has_text, law_members_are_entries, law_object};
#[allow(unused_imports)]
use crate::json_text::{number, parsed, printed};
#[allow(unused_imports)]
use crate::mcp::{
    call_params, call_request, initialize_params, initialize_request, initialized_notice,
    list_request, listed_tool, listed_tools, outcome_value, rpc_value, stream_json, stream_json_at,
    stream_json_from, tool_result, tool_text, tools_result, ListStage, ListStepView, McpClientView,
    ToolView,
};
#[allow(unused_imports)]
use crate::text::{has_substring, lines_of, trimmed, white_space, without_trailing};
#[allow(unused_imports)]
use crate::text_laws::{law_trimmed, law_trimmed_keeps, law_without_trailing};

verus! {

/// `s` is the text of the first part of what a called tool gave, in the server's reply.
pub open spec fn gives(reply: JsonView, s: Seq<char>) -> bool {
    exists|r: JsonView, parts: Seq<JsonView>|
        {
            &&& #[trigger] has_member(reply, "result"@, r)
            &&& #[trigger] has_member(r, "content"@, JsonView::Array(parts))
            &&& parts.len() > 0
            &&& has_member(parts[0], "text"@, JsonView::Text(s))
        }
}

/// Calling a tool gives all of the text that the server's reply holds, and where it holds none, says
/// so; a call that failed gives its failure.
pub proof fn law_tool_gives_all(reply: JsonView, s: Seq<char>, e: Seq<char>)
    ensures
        tool_text(reply) == Some(s) <==> gives(reply, s),
        tool_result(Ok(reply)) == Ok::<Seq<char>, Seq<char>>(s) <==> gives(reply, s),
        (forall|t: Seq<char>| !gives(reply, t)) ==> tool_result(Ok(reply)) == Err::<
            Seq<char>,
            Seq<char>,
        >("Invalid tool call response format"@),
        tool_result(Err(e)) == Err::<Seq<char>, Seq<char>>(e),
{
    if let Some(t) = tool_text(reply) {
        let r = reply->Object_0["result"@];
        let parts = r->Object_0["content"@]->Array_0;
        assert(has_member(reply, "result"@, r));
        assert(has_member(r, "content"@, JsonView::Array(parts)));
        assert(has_member(parts[0], "text"@, JsonView::Text(t)));
        assert(gives(reply, t));
    }
}

/// A reply made of one part with a text gives that text.
pub proof fn law_made_reply_gives_its_text(s: Seq<char>)
    ensures
        tool_result(
            Ok(
                object(
                    seq![
                        (
                            "result"@,
                            object(
                                seq![
                                    (
                                        "content"@,
                                        JsonView::Array(
                                            seq![object(seq![("text"@, JsonView::Text(s))])],
                                        ),
                                    ),
                                ],
                            ),
                        ),
                    ],
                ),
            ),
        ) == Ok::<Seq<char>, Seq<char>>(s),
{
    let part = object(seq![("text"@, JsonView::Text(s))]);
    law_object(seq![("text"@, JsonView::Text(s))], "text"@, 0);
    let parts = JsonView::Array(seq![part]);
    let r = object(seq![("content"@, parts)]);
    law_object(seq![("content"@, parts)], "content"@, 0);
    let reply = object(seq![("result"@, r)]);
    law_object(seq![("result"@, r)], "result"@, 0);
    assert(has_member(r, "content"@, JsonView::Array(seq![part])));
    law_tool_gives_all(reply, s, s);
}

/// A text holds nothing but white space.
pub open spec fn blank(s: Seq<char>) -> bool {
    forall|k: int| 0 <= k < s.len() ==> white_space(#[trigger] s[k])
}

/// A text is blank where trimming leaves nothing of it.
pub proof fn law_blank(s: Seq<char>)
    ensures
        trimmed(s).len() == 0 <==> blank(s),
{
    law_trimmed(s);
    let (i, j) = choose|i: int, j: int|
        {
            &&& 0 <= i <= j <= s.len()
            &&& trimmed(s) == #[trigger] s.subrange(i, j)
            &&& forall|k: int| 0 <= k < i ==> white_space(#[trigger] s[k])
            &&& forall|k: int| j <= k < s.len() ==> white_space(#[trigger] s[k])
            &&& i < j ==> !white_space(s[i]) && !white_space(s[j - 1])
        };
}

/// What a call gives: the value that the body of the reply reads as, or that its event stream holds;
/// an empty object for a blank body; and for every way to fail the words for it with the whole of the
/// reason.
pub proof fn law_call_gives(
    session: Option<Seq<char>>,
    code: u16,
    text: Seq<char>,
    why: Seq<char>,
)
    ensures
        outcome_value(OutcomeView::Failed(why)) == Err::<JsonView, Seq<char>>(
            "Connection failed: "@ + why,
        ),
        ({
            let value = outcome_value(OutcomeView::Replied { session, code, body: Ok(text) });
            let unread = outcome_value(OutcomeView::Replied { session, code, body: Err(why) });
            if code < 200 || code >= 300 {
                &&& value == Err::<JsonView, Seq<char>>("HTTP "@ + status_line(code) + ": "@ + text)
                &&& unread == Err::<JsonView, Seq<char>>(
                    "HTTP "@ + status_line(code) + ": "@ + Seq::empty(),
                )
            } else {
                &&& unread == Err::<JsonView, Seq<char>>("Failed to read response body: "@ + why)
                &&& blank(text) ==> value == Ok::<JsonView, Seq<char>>(
                    JsonView::Object(Map::empty()),
                )
                &&& !blank(text) ==> match parsed(text) {
                    Ok(j) => value == Ok::<JsonView, Seq<char>>(j),
                    Err(_) => match stream_json(text) {
                        Ok(data) => match parsed(data) {
                            Ok(j) => value == Ok::<JsonView, Seq<char>>(j),
                            Err(e) => value == Err::<JsonView, Seq<char>>(
                                "Failed to parse response: "@ + e + ". Body: "@ + data,
                            ),
                        },
                        Err(_) => value == Err::<JsonView, Seq<char>>(
                            "No JSON data found in SSE response. Body: "@ + text,
                        ),
                    },
                }
            }
        }),
{
    law_blank(text);
}

/// `data` is what the line at an index of an event stream holds: all that stands on a line of data but
/// for the white space at its ends, or the next line where nothing stands there; and it starts as an
/// object does.
pub open spec fn event_data(lines: Seq<Seq<char>>, i: int, data: Seq<char>) -> bool {
    &&& 0 <= i < lines.len()
    &&& data.len() > 0 && data[0] == '{'
    &&& exists|d: Seq<char>|
        {
            &&& trimmed(lines[i]) == #[trigger] ("data:"@ + d)
            &&& trimmed(d) == data || (trimmed(d).len() == 0 && i + 1 < lines.len() && trimmed(
                lines[i + 1],
            ) == data)
        }
}

/// The JSON of an event stream is that of its first line that holds any, whole, and a stream without
/// such a line has none.
pub proof fn law_event_stream_is_read(text: Seq<char>, i: int, data: Seq<char>)
    ensures
        ({
            let lines = lines_of(text);
            &&& event_data(lines, i, data) && (forall|j: int, d: Seq<char>|
                0 <= j < i ==> !#[trigger] event_data(lines, j, d)) ==> stream_json(text) == Ok::<
                Seq<char>,
                Seq<char>,
            >(data)
            &&& (forall|j: int, d: Seq<char>| !#[trigger] event_data(lines, j, d)) ==> stream_json(
                text,
            ) is Err
        }),
{
    let lines = lines_of(text);
    lemma_event_data(lines);
    lemma_stream_json(lines, 0);
    if let Some(s) = stream_json_from(lines, 0) {
        let k = choose|k: int|
            {
                &&& 0 <= k < lines.len()
                &&& #[trigger] stream_json_at(lines, k) == Some(s)
                &&& forall|j: int| 0 <= j < k ==> (#[trigger] stream_json_at(lines, j)) is None
            };
        assert(event_data(lines, k, s));
        if event_data(lines, i, data) {
            assert(stream_json_at(lines, i) == Some(data));
        }
    } else if event_data(lines, i, data) {
        assert(stream_json_at(lines, i) == Some(data));
    }
}

/// What a line holds is what is read of it.
proof fn lemma_event_data(lines: Seq<Seq<char>>)
    ensures
        forall|i: int, data: Seq<char>|
            0 <= i < lines.len() ==> (stream_json_at(lines, i) == Some(data)
                <==> #[trigger] event_data(lines, i, data)),
{
    reveal_strlit("data:");
    assert forall|i: int, data: Seq<char>| 0 <= i < lines.len() implies (stream_json_at(lines, i)
        == Some(data) <==> #[trigger] event_data(lines, i, data)) by {
        let line = trimmed(lines[i]);
        if "data:"@.is_prefix_of(line) {
            assert(line =~= "data:"@ + line.skip(5));
        }
        assert forall|d: Seq<char>| line == #[trigger] ("data:"@ + d) implies "data:"@.is_prefix_of(
            line,
        ) && line.skip(5) == d by {
            assert(line.subrange(0, 5) =~= "data:"@);
            assert(line.skip(5) =~= d);
        }
    }
}

/// The search stops at the first line that holds JSON.
proof fn lemma_stream_json(lines: Seq<Seq<char>>, from: int)
    requires
        0 <= from <= lines.len(),
    ensures
        match stream_json_from(lines, from) {
            Some(s) => exists|i: int|
                {
                    &&& from <= i < lines.len()
                    &&& #[trigger] stream_json_at(lines, i) == Some(s)
                    &&& forall|j: int|
                        from <= j < i ==> (#[trigger] stream_json_at(lines, j)) is None
                },
            None => forall|i: int|
                from <= i < lines.len() ==> (#[trigger] stream_json_at(lines, i)) is None,
        },
    decreases lines.len() - from,
{
    if from < lines.len() && stream_json_at(lines, from) is None {
        lemma_stream_json(lines, from + 1);
    }
}

/// A line of data with an object on it holds the object whole.
pub proof fn law_data_line_is_read(lines: Seq<Seq<char>>, i: int, data: Seq<char>)
    requires
        0 <= i < lines.len(),
        lines[i] == "data: "@ + data,
        data.len() > 0 && data[0] == '{' && !white_space(data.last()),
    ensures
        stream_json_at(lines, i) == Some(data),
{
    reveal_strlit("data: ");
    reveal_strlit("data:");
    law_trimmed_keeps(lines[i]);
    law_trimmed_keeps(data);
    let d = lines[i].skip(5);
    assert(lines[i].subrange(0, 5) =~= "data:"@);
    assert(d =~= seq![' '] + data);
    assert(d.drop_first() =~= data);
    assert(crate::text::trimmed_start(data) == data);
    assert(trimmed(d) == data);
}

/// A tool is listed with its own name, description, title and schema, each as the entry has it, and
/// with the server that was asked. Without a title it has its name for one, and without a schema an
/// empty object; without a name or a description it is not listed.
pub proof fn law_tool_is_listed(j: JsonView, server: Seq<char>, s: Seq<char>, w: JsonView)
    ensures
        listed_tool(j, server) is Some <==> has_text(j, "name"@) && has_text(j, "description"@),
        listed_tool(j, server) matches Some(t) ==> {
            &&& t.server_name == server
            &&& has_member(j, "name"@, JsonView::Text(s)) ==> t.name == s
            &&& has_member(j, "description"@, JsonView::Text(s)) ==> t.description == s
            &&& has_member(j, "title"@, JsonView::Text(s)) ==> t.title == s
            &&& !has_text(j, "title"@) ==> t.title == t.name
            &&& has_member(j, "inputSchema"@, w) ==> t.input_schema == w
            &&& (forall|x: JsonView| !has_member(j, "inputSchema"@, x)) ==> t.input_schema
                == JsonView::Object(Map::empty())
        },
{
    if let Some(JsonView::Text(n)) = j.get("name"@) {
        assert(has_member(j, "name"@, JsonView::Text(n)));
    }
    if let Some(JsonView::Text(n)) = j.get("description"@) {
        assert(has_member(j, "description"@, JsonView::Text(n)));
    }
    if let Some(JsonView::Text(n)) = j.get("title"@) {
        assert(has_member(j, "title"@, JsonView::Text(n)));
    }
    if let Some(x) = j.get("inputSchema"@) {
        assert(has_member(j, "inputSchema"@, x));
    }
}

/// The tools of a list come in its order, each once for its entry.
pub proof fn law_tools_come_in_order(items: Seq<JsonView>, j: JsonView, server: Seq<char>)
    ensures
        listed_tools(Seq::empty(), server).len() == 0,
        listed_tools(items.push(j), server) == match listed_tool(j, server) {
            Some(t) => listed_tools(items, server).push(t),
            None => listed_tools(items, server),
        },
{
    let pick = |x: JsonView| listed_tool(x, server);
    assert(Seq::<JsonView>::empty().filter_map(pick) =~= Seq::empty());
    let all = items.push(j);
    let n = items.len() as int;
    all.lemma_filter_map_take_succ(pick, n);
    assert(all.take(n) =~= items);
    assert(all.take(n + 1) =~= all);
}

/// Listing gives the tools of the list in the reply; a reply without a list, and a call that failed,
/// give their words.
pub proof fn law_listing_gives(
    reply: JsonView,
    r: JsonView,
    items: Seq<JsonView>,
    server: Seq<char>,
    e: Seq<char>,
)
    ensures
        has_member(reply, "result"@, r) && has_member(r, "tools"@, JsonView::Array(items))
            ==> tools_result(Ok(reply), server) == Ok::<Seq<ToolView>, Seq<char>>(
            listed_tools(items, server),
        ),
        (forall|x: JsonView, y: Seq<JsonView>|
            has_member(reply, "result"@, x) ==> !#[trigger] has_member(
                x,
                "tools"@,
                JsonView::Array(y),
            )) ==> tools_result(Ok(reply), server) == Err::<Seq<ToolView>, Seq<char>>(
            "Invalid response format: missing tools in result"@,
        ),
        tools_result(Err(e), server) == Err::<Seq<ToolView>, Seq<char>>(
            if has_substring(e, "No JSON data found in SSE response"@) {
                "MCP server not responding properly — check if server is running"@
            } else {
                e
            },
        ),
{
    if let Some(x) = reply.get("result"@) {
        assert(has_member(reply, "result"@, x));
        if let Some(JsonView::Array(y)) = x.get("tools"@) {
            assert(has_member(x, "tools"@, JsonView::Array(y)));
        }
    }
}

/// A message of the protocol says its method, its identity and its parameters, and has no identity or
/// parameters where none are given.
pub proof fn law_message_says(
    id: Option<Number>,
    method: Seq<char>,
    params: Option<JsonView>,
    w: JsonView,
)
    ensures
        ({
            let v = rpc_value(id, method, params);
            &&& has_member(v, "jsonrpc"@, JsonView::Text("2.0"@))
            &&& has_member(v, "method"@, JsonView::Text(method))
            &&& has_member(v, "id"@, w) <==> id is Some && w == JsonView::Number(id->0)
            &&& has_member(v, "params"@, w) <==> params == Some(w)
        }),
{
    reveal_strlit("jsonrpc");
    reveal_strlit("id");
    reveal_strlit("method");
    reveal_strlit("params");
    assert("jsonrpc"@.len() == 7 && "id"@.len() == 2 && "method"@.len() == 6);
    assert("method"@[0] == 'm' && "params"@[0] == 'p' && "params"@.len() == 6);
    let version = seq![("jsonrpc"@, JsonView::Text("2.0"@))];
    let named = match id {
        Some(n) => version.push(("id"@, JsonView::Number(n))),
        None => version,
    };
    let called = named.push(("method"@, JsonView::Text(method)));
    let all = match params {
        Some(p) => called.push(("params"@, p)),
        None => called,
    };
    law_object(all, "jsonrpc"@, 0);
    law_object(all, "method"@, named.len() as int);
    law_object(
        all,
        "id"@,
        if id is Some {
            1
        } else {
            -1
        },
    );
    law_object(
        all,
        "params"@,
        if params is Some {
            called.len() as int
        } else {
            -1
        },
    );
}

/// A call of a tool names the tool and carries its arguments as they are.
pub proof fn law_call_says(name: Seq<char>, args: JsonView)
    ensures
        ({
            let v = call_request(name, args);
            let params = call_params(name, args);
            &&& has_member(v, "method"@, JsonView::Text("tools/call"@))
            &&& has_member(v, "params"@, params)
            &&& has_member(params, "name"@, JsonView::Text(name))
            &&& has_member(params, "arguments"@, args)
            &&& has_member(v, "id"@, JsonView::Number(number(1)))
        }),
{
    reveal_strlit("name");
    reveal_strlit("arguments");
    assert("name"@.len() == 4 && "arguments"@.len() == 9);
    let params = call_params(name, args);
    law_message_says(Some(number(1)), "tools/call"@, Some(params), params);
    law_message_says(
        Some(number(1)),
        "tools/call"@,
        Some(params),
        JsonView::Number(number(1)),
    );
    let entries = seq![("name"@, JsonView::Text(name)), ("arguments"@, args)];
    law_object(entries, "name"@, 0);
    law_object(entries, "arguments"@, 1);
}

/// The messages of a listing say their methods, and the two that want an answer have identities of
/// their own.
pub proof fn law_listing_says(w: JsonView)
    ensures
        has_member(initialize_request(), "method"@, JsonView::Text("initialize"@)),
        has_member(initialize_request(), "id"@, JsonView::Number(number(1))),
        has_member(initialize_request(), "params"@, initialize_params()),
        has_member(
            initialized_notice(),
            "method"@,
            JsonView::Text("notifications/initialized"@),
        ),
        !has_member(initialized_notice(), "id"@, w),
        has_member(list_request(), "method"@, JsonView::Text("tools/list"@)),
        has_member(list_request(), "id"@, JsonView::Number(number(2))),
        has_member(list_request(), "params"@, JsonView::Object(Map::empty())),
{
    let one = JsonView::Number(number(1));
    let two = JsonView::Number(number(2));
    let none = object(Seq::empty());
    let p = initialize_params();
    law_message_says(Some(number(1)), "initialize"@, Some(p), p);
    law_message_says(Some(number(1)), "initialize"@, Some(p), one);
    law_message_says(None, "notifications/initialized"@, None, w);
    law_message_says(Some(number(2)), "tools/list"@, Some(none), none);
    law_message_says(Some(number(2)), "tools/list"@, Some(none), two);
}

/// A call goes to the URL of the server as it is given, with the key and with the text of its message
/// for a body. It says what it sends and takes, and names a session only where there is one.
pub proof fn law_call_goes_to_the_server(client: McpClientView, body: JsonView)
    ensures
        ({
            let r = client.call(body);
            let said = seq![
                ("Content-Type"@, "application/json"@),
                ("Accept"@, "application/json, text/event-stream"@),
            ];
            &&& r.method == Method::Post
            &&& r.url == client.url
            &&& r.bearer == client.api_key
            &&& r.body == Some(printed(body))
            &&& r.headers == match client.session_id {
                Some(sid) => said.push(("Mcp-Session-Id"@, sid)),
                None => said,
            }
        }),
{
    assert(client.call(body).headers =~= match client.session_id {
        Some(sid) => seq![
            ("Content-Type"@, "application/json"@),
            ("Accept"@, "application/json, text/event-stream"@),
            ("Mcp-Session-Id"@, sid),
        ],
        None => seq![
            ("Content-Type"@, "application/json"@),
            ("Accept"@, "application/json, text/event-stream"@),
        ],
    });
}

/// The event stream of a session is opened below the URL of the server, whatever slashes the URL ends
/// with, with the key and in the session.
pub proof fn law_stream_is_opened(client: McpClientView, base: Seq<char>, slashes: Seq<char>)
    requires
        client.url == base + slashes,
        base.len() == 0 || base.last() != '/',
        forall|k: int| 0 <= k < slashes.len() ==> #[trigger] slashes[k] == '/',
    ensures
        ({
            let r = client.open_stream();
            &&& r.method == Method::Get
            &&& r.url == base + "/sse"@
            &&& r.bearer == client.api_key
            &&& r.body is None
            &&& r.headers == match client.session_id {
                Some(sid) => seq![("Accept"@, "text/event-stream"@), ("Mcp-Session-Id"@, sid)],
                None => seq![("Accept"@, "text/event-stream"@)],
            }
        }),
{
    let url = client.url;
    let bare = without_trailing(url, '/');
    law_without_trailing(url, '/');
    if bare.len() < base.len() {
        assert(url[base.len() - 1] == base.last());
    }
    if bare.len() > base.len() {
        assert(bare.last() == url[bare.len() - 1]);
        assert(url[bare.len() - 1] == slashes[bare.len() - 1 - base.len()]);
    }
    assert(bare =~= base);
    assert(client.open_stream().headers =~= match client.session_id {
        Some(sid) => seq![("Accept"@, "text/event-stream"@), ("Mcp-Session-Id"@, sid)],
        None => seq![("Accept"@, "text/event-stream"@)],
    });
}

/// A client keeps its name, its URL and its key, whatever comes of its calls.
pub proof fn law_client_stays(client: McpClientView, stage: ListStage, outcome: OutcomeView)
    ensures
        client.after(outcome).name == client.name,
        client.after(outcome).url == client.url,
        client.after(outcome).api_key == client.api_key,
        client.list_after(stage, outcome) == if stage == ListStage::OpenStream {
            client
        } else {
            client.after(outcome)
        },
{
}

/// A listing opens a session, opens its event stream where there is a session, tells the server so and
/// asks for the list, each with the session as it then is. It ends with the first call that fails, but
/// for that of the event stream, and with what the list gives, for the server of that name.
pub proof fn law_listing_goes_in_order(client: McpClientView, outcome: OutcomeView)
    ensures
        ({
            let now = client.after(outcome);
            let given = outcome_value(outcome);
            &&& client.list_step(ListStage::Initialize, outcome) == match given {
                Ok(_) => if now.session_id is Some {
                    ListStepView::Call(ListStage::OpenStream, now.open_stream())
                } else {
                    ListStepView::Call(ListStage::Notify, now.call(initialized_notice()))
                },
                Err(e) => ListStepView::Done(Err(e)),
            }
            &&& client.list_step(ListStage::OpenStream, outcome) == ListStepView::Call(
                ListStage::Notify,
                client.call(initialized_notice()),
            )
            &&& client.list_step(ListStage::Notify, outcome) == match given {
                Ok(_) => ListStepView::Call(ListStage::List, now.call(list_request())),
                Err(e) => ListStepView::Done(Err(e)),
            }
            &&& client.list_step(ListStage::List, outcome) == ListStepView::Done(
                tools_result(given, client.name),
            )
        }),
{
}

/// A message of the protocol says nothing beside its version, its identity, its method and its
/// parameters, and a call of a tool nothing beside the name and the arguments.
pub proof fn law_message_says_no_more(
    id: Option<Number>,
    method: Seq<char>,
    params: Option<JsonView>,
    name: Seq<char>,
    args: JsonView,
    key: Seq<char>,
    w: JsonView,
)
    ensures
        has_member(rpc_value(id, method, params), key, w) ==> key == "jsonrpc"@ || key == "id"@ || key
            == "method"@ || key == "params"@,
        has_member(call_params(name, args), key, w) ==> key == "name"@ || key == "arguments"@,
{
    if has_member(rpc_value(id, method, params), key, w) {
        let version = seq![("jsonrpc"@, JsonView::Text("2.0"@))];
        let named = match id {
            Some(n) => version.push(("id"@, JsonView::Number(n))),
            None => version,
        };
        let called = named.push(("method"@, JsonView::Text(method)));
        law_members_are_entries(
            match params {
                Some(p) => called.push(("params"@, p)),
                None => called,
            },
            key,
            w,
        );
    }
    if has_member(call_params(name, args), key, w) {
        law_members_are_entries(
            seq![("name"@, JsonView::Text(name)), ("arguments"@, args)],
            key,
            w,
        );
    }
}

/// A client says of itself the version of the protocol, no capabilities, and what it is.
pub proof fn law_client_says_what_it_is(key: Seq<char>, w: JsonView)
    ensures
        has_member(initialize_params(), key, w) ==> {
            ||| key == "protocolVersion"@ && w == JsonView::Text("2024-11-05"@)
            ||| key == "capabilities"@ && w == JsonView::Object(Map::empty())
            ||| key == "clientInfo"@ && (forall|k: Seq<char>, x: JsonView|
                has_member(w, k, x) ==> (k == "name"@ && x == JsonView::Text("chatatui"@)) || (k
                    == "version"@ && x == JsonView::Text("0.1.0"@)))
        },
        has_text(initialize_params(), "protocolVersion"@),
{
    reveal_strlit("protocolVersion");
    reveal_strlit("capabilities");
    reveal_strlit("clientInfo");
    assert("protocolVersion"@.len() == 15 && "capabilities"@.len() == 12 && "clientInfo"@.len()
        == 10);
    let info = seq![
        ("name"@, JsonView::Text("chatatui"@)),
        ("version"@, JsonView::Text("0.1.0"@)),
    ];
    let entries = seq![
        ("protocolVersion"@, JsonView::Text("2024-11-05"@)),
        ("capabilities"@, object(Seq::empty())),
        ("clientInfo"@, object(info)),
    ];
    assert(initialize_params() == object(entries));
    law_object(entries, "protocolVersion"@, 0);
    assert(has_member(
        initialize_params(),
        "protocolVersion"@,
        JsonView::Text("2024-11-05"@),
    ));
    if has_member(initialize_params(), key, w) {
        law_members_are_entries(entries, key, w);
        let i = choose|i: int| 0 <= i < entries.len() && (#[trigger] entries[i]) == (key, w);
        if i == 2 {
            assert forall|k: Seq<char>, x: JsonView| has_member(w, k, x) implies (k == "name"@ && x
                == JsonView::Text("chatatui"@)) || (k == "version"@ && x == JsonView::Text(
                "0.1.0"@,
            )) by {
                law_members_are_entries(info, k, x);
            }
        }
    }
}

} // verus!

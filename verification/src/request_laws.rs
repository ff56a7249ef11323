//! What holds of the requests to the chat server.
use vstd::prelude::*;

#[allow(unused_imports)]
use crate::app::{AppView, EffectView, MessageView};
#[allow(unused_imports)]
use crate::client::{
    endpoint, message_values, model_ids, models_result, ChatClientView, Model, ModelsReply,
};
#[allow(unused_imports)]
use crate::http::{status_line, Method};
#[allow(unused_imports)]
use crate::json::{object, JsonView};
#[allow(unused_imports)]
use crate::json_laws::{has_member, law_members_are_entries, law_object};
#[allow(unused_imports)]
use crate::json_text::printed;
#[allow(unused_imports)]
use crate::laws::law_notices_stay_here;
#[allow(unused_imports)]
use crate::mcp::ToolView;
#[allow(unused_imports)]
use crate::run::{client_index, server_of, Key, KeyPress};
#[allow(unused_imports)]
use crate::steps::{
    ends_with_bar, law_tool_result_comes_back, sent_history, sent_message, tool_content,
    tool_message, tool_values,
};
#[allow(unused_imports)]
use crate::text::{has_substring, trimmed};
#[allow(unused_imports)]
use crate::tool_laws::{blank, law_blank};

verus! {

/// A message more at the end of a conversation is sent behind the others with its content as it is: as
/// that of the user, or as that of the model, for its text and for its calls alike. What a tool gave is
/// sent as that of a tool, and any other message is not sent.
pub proof fn law_history_grows(before: Seq<MessageView>, c: Seq<char>, e: bool, role: Seq<char>)
    ensures
        sent_history(Seq::empty()) == Seq::<(Seq<char>, Seq<char>)>::empty(),
        sent_history(before.push(("User"@, c, e))) == sent_history(before).push(("user"@, c)),
        sent_history(before.push(("Assistant"@, c, e))) == sent_history(before).push(
            ("assistant"@, c),
        ),
        sent_history(before.push(("AssistantToolCall"@, c, e))) == sent_history(before).push(
            ("assistant"@, c),
        ),
        sent_history(before.push(("Tool"@, c, e))) == sent_history(before).push(
            ("tool"@, tool_content(c)),
        ),
        role != "User"@ && role != "Assistant"@ && role != "AssistantToolCall"@ && role != "Tool"@
            ==> sent_history(before.push((role, c, e))) == sent_history(before),
{
    reveal_strlit("User");
    reveal_strlit("Tool");
    reveal_strlit("Assistant");
    reveal_strlit("AssistantToolCall");
    assert("User"@[0] == 'U' && "Tool"@[0] == 'T' && "Assistant"@[0] == 'A');
    assert("AssistantToolCall"@[0] == 'A');
    let pick = |m: MessageView| sent_message(m);
    assert(Seq::<MessageView>::empty().filter_map(pick) =~= Seq::empty());
    lemma_pushed(before, ("User"@, c, e));
    lemma_pushed(before, ("Assistant"@, c, e));
    lemma_pushed(before, ("AssistantToolCall"@, c, e));
    lemma_pushed(before, ("Tool"@, c, e));
    lemma_pushed(before, (role, c, e));
}

/// A message more adds what is sent of it.
proof fn lemma_pushed(before: Seq<MessageView>, m: MessageView)
    ensures
        sent_history(before.push(m)) == match sent_message(m) {
            Some(p) => sent_history(before).push(p),
            None => sent_history(before),
        },
{
    let pick = |x: MessageView| sent_message(x);
    let all = before.push(m);
    let n = before.len() as int;
    all.lemma_filter_map_take_succ(pick, n);
    assert(all.take(n) =~= before);
    assert(all.take(n + 1) =~= all);
}

/// What a tool gave is sent whole as the content of a tool, where the identity and the name of the call
/// hold no bars that hide where it starts.
pub proof fn law_result_is_sent_whole(
    before: Seq<MessageView>,
    id: Seq<char>,
    name: Seq<char>,
    content: Seq<char>,
)
    requires
        !id.contains('|'),
        !name.contains('|'),
    ensures
        sent_history(before.push(("Tool"@, id + "||"@ + name + "||"@ + content, false)))
            == sent_history(before).push(("tool"@, content)),
{
    reveal_strlit("||");
    let m = tool_message(id, name, content);
    lemma_no_bars(id);
    lemma_no_bars(name);
    law_tool_result_comes_back(id, name, content);
    law_history_grows(before, m, false, "Tool"@);
}

/// A text without a bar has no two bars, nor one at its end.
proof fn lemma_no_bars(s: Seq<char>)
    requires
        !s.contains('|'),
    ensures
        !has_substring(s, "||"@),
        !ends_with_bar(s),
{
    reveal_strlit("||");
    if has_substring(s, "||"@) {
        let i = choose|i: int| crate::text::occurs_at(s, "||"@, i);
        assert(s.subrange(i, i + 2)[0] == '|');
        assert(s[i] == '|');
    }
}

/// Each message is told to the server with its role and its content as they are, in their order.
pub proof fn law_messages_are_told(history: Seq<(Seq<char>, Seq<char>)>, i: int)
    requires
        0 <= i < history.len(),
    ensures
        message_values(history).len() == history.len(),
        has_member(message_values(history)[i], "role"@, JsonView::Text(history[i].0)),
        has_member(message_values(history)[i], "content"@, JsonView::Text(history[i].1)),
{
    reveal_strlit("role");
    reveal_strlit("content");
    assert("role"@.len() == 4 && "content"@.len() == 7);
    let entries = seq![
        ("role"@, JsonView::Text(history[i].0)),
        ("content"@, JsonView::Text(history[i].1)),
    ];
    law_object(entries, "role"@, 0);
    law_object(entries, "content"@, 1);
}

/// A tool is offered to the model under its own name, with its own description and its own schema.
pub proof fn law_tool_is_offered(tools: Seq<ToolView>, i: int)
    requires
        0 <= i < tools.len(),
    ensures
        tool_values(tools).len() == tools.len(),
        has_member(tool_values(tools)[i], "type"@, JsonView::Text("function"@)),
        exists|f: JsonView| #[trigger]
            has_member(tool_values(tools)[i], "function"@, f) && has_member(
                f,
                "name"@,
                JsonView::Text(tools[i].name),
            ) && has_member(f, "description"@, JsonView::Text(tools[i].description)) && has_member(
                f,
                "parameters"@,
                tools[i].input_schema,
            ),
{
    reveal_strlit("type");
    reveal_strlit("function");
    reveal_strlit("name");
    reveal_strlit("description");
    reveal_strlit("parameters");
    assert("type"@.len() == 4 && "function"@.len() == 8 && "name"@.len() == 4);
    assert("description"@.len() == 11 && "parameters"@.len() == 10);
    let tool = tools[i];
    let inner = seq![
        ("name"@, JsonView::Text(tool.name)),
        ("description"@, JsonView::Text(tool.description)),
        ("parameters"@, tool.input_schema),
    ];
    let f = object(inner);
    law_object(inner, "name"@, 0);
    law_object(inner, "description"@, 1);
    law_object(inner, "parameters"@, 2);
    let outer = seq![("type"@, JsonView::Text("function"@)), ("function"@, f)];
    law_object(outer, "type"@, 0);
    law_object(outer, "function"@, 1);
    assert(has_member(tool_values(tools)[i], "function"@, f));
}

/// A call by the name under which a tool is offered finds a server: that of the first tool of the name.
/// A name that is not offered finds none.
pub proof fn law_offered_name_finds_its_server(tools: Seq<ToolView>, name: Seq<char>, i: int)
    ensures
        0 <= i < tools.len() && tools[i].name == name && (forall|j: int|
            0 <= j < i ==> (#[trigger] tools[j]).name != name) ==> server_of(tools, name) == Some(
            tools[i].server_name,
        ),
        server_of(tools, name) is Some <==> exists|j: int|
            0 <= j < tools.len() && (#[trigger] tools[j]).name == name,
    decreases tools.len(),
{
    if tools.len() > 0 {
        let front = tools.drop_last();
        law_offered_name_finds_its_server(front, name, i);
        assert forall|j: int| 0 <= j < front.len() implies (#[trigger] front[j]) == tools[j] by {}
        if exists|j: int| 0 <= j < tools.len() && (#[trigger] tools[j]).name == name {
            let j = choose|j: int| 0 <= j < tools.len() && (#[trigger] tools[j]).name == name;
            if j < front.len() {
                assert(front[j].name == name);
            }
        }
        if exists|j: int| 0 <= j < front.len() && (#[trigger] front[j]).name == name {
            let j = choose|j: int| 0 <= j < front.len() && (#[trigger] front[j]).name == name;
            assert(tools[j].name == name);
        }
        if server_of(tools, name) is Some && server_of(front, name) is None {
            assert(tools[tools.len() - 1].name == name);
        }
        if 0 <= i == front.len() && (forall|j: int|
            0 <= j < i ==> (#[trigger] tools[j]).name != name) {
            assert(server_of(front, name) is None) by {
                if server_of(front, name) is Some {
                    let j = choose|j: int|
                        0 <= j < front.len() && (#[trigger] front[j]).name == name;
                    assert(tools[j].name != name);
                }
            }
        }
    }
}

/// A server is found under its name: the first that has it, and none where none has it.
pub proof fn law_server_is_found(
    clients: Seq<(Seq<char>, crate::mcp::McpClientView)>,
    name: Seq<char>,
)
    ensures
        match client_index(clients, name) {
            Some(i) => {
                &&& 0 <= i < clients.len() && clients[i].0 == name
                &&& forall|j: int| 0 <= j < i ==> (#[trigger] clients[j]).0 != name
            },
            None => forall|j: int| 0 <= j < clients.len() ==> (#[trigger] clients[j]).0 != name,
        },
    decreases clients.len(),
{
    if clients.len() > 0 {
        let front = clients.drop_last();
        law_server_is_found(front, name);
        assert forall|j: int| 0 <= j < front.len() implies (#[trigger] front[j]) == clients[j] by {}
        match client_index(clients, name) {
            Some(i) => {
                assert forall|j: int| 0 <= j < i implies (#[trigger] clients[j]).0 != name by {
                    assert(front[j].0 != name);
                }
            },
            None => {
                assert forall|j: int| 0 <= j < clients.len() implies (#[trigger] clients[j]).0
                    != name by {
                    if j < front.len() {
                        assert(front[j].0 != name);
                    }
                }
            },
        }
    }
}

/// A path of the server stands behind its URL with one slash between them.
pub proof fn law_path_stands_behind(url: Seq<char>, path: Seq<char>)
    ensures
        url.len() > 0 && url.last() == '/' ==> endpoint(url, path) == url + path,
        url.len() == 0 || url.last() != '/' ==> endpoint(url, path) == url + seq!['/'] + path,
{
    reveal_strlit("/");
    assert("/"@ =~= seq!['/']);
}

/// A chat request goes to the server's answers with the key, with JSON, and with the whole of what is
/// asked for a body.
pub proof fn law_chat_goes_to_the_server(
    client: ChatClientView,
    history: Seq<(Seq<char>, Seq<char>)>,
    tools: Seq<JsonView>,
)
    ensures
        ({
            let r = client.chat_request(history, tools);
            &&& r.method == Method::Post
            &&& r.url == endpoint(client.api_url, "v1/chat/completions"@)
            &&& r.headers == seq![("Content-Type"@, "application/json"@)]
            &&& r.bearer == client.api_key
            &&& r.body == Some(printed(client.chat_body(history, tools)))
        }),
        ({
            let r = client.models_request();
            &&& r.method == Method::Get
            &&& r.url == endpoint(client.api_url, "v1/models"@)
            &&& r.headers.len() == 0
            &&& r.bearer == client.api_key
            &&& r.body is None
        }),
{
}

/// The models that a reply lists are all that it lists, by their names, in their order.
pub proof fn law_models_are_all_listed(models: Seq<Model>, i: int)
    requires
        0 <= i < models.len(),
    ensures
        model_ids(models).len() == models.len(),
        model_ids(models)[i] == models[i].id@,
{
}

/// What comes of a request for the models: the names of those listed, or the words for what went wrong
/// with the whole of the reason.
pub proof fn law_models_reply_is_told(reply: ModelsReply)
    ensures
        models_result(reply) == match reply {
            ModelsReply::Failed(e) => Err("Connection failed: "@ + e@),
            ModelsReply::Refused(status, body) => Err(
                "HTTP "@ + status_line(status.code()) + ": "@ + body@,
            ),
            ModelsReply::Unreadable(e) => Err("Failed to parse models response: "@ + e@),
            ModelsReply::Listed(m) => Ok(model_ids(m.data@)),
        },
{
}

/// A message that the user enters while the server is not answering is sent as it was typed, behind the
/// conversation so far and with all the tools.
pub proof fn law_entered_message_is_sent(v: AppView, press: KeyPress)
    requires
        v.has_thread(),
        v.modal is None,
        !v.is_loading,
        !blank(v.input),
        trimmed(v.input).first() != '/',
        press.pressed && press.key == Key::Enter,
    ensures
        v.after_key(press).1 == EffectView::SendChat(
            v.client.chat_request(
                sent_history(v.messages()).push(("user"@, v.input)),
                tool_values(v.tools),
            ),
        ),
        v.after_key(press).0.messages() == v.messages().push(("User"@, v.input, false)).push(
            ("System"@, v.model + " is thinking..."@, false),
        ),
        v.after_key(press).0.is_loading,
        v.after_key(press).0.input.len() == 0,
{
    law_blank(v.input);
    let before = v.messages();
    let said = before.push(("User"@, v.input, false));
    let notice = ("System"@, v.model + " is thinking..."@, false);
    law_history_grows(before, v.input, false, "User"@);
    law_notices_stay_here(said, notice, Seq::empty());
    assert(said.push(notice) + Seq::empty() =~= said.push(notice));
    assert(said + Seq::empty() =~= said);
    assert(v.sent().0.messages() == said.push(notice));
}

/// A request says nothing beside the model, the messages, the streaming and the tools; a message in it
/// nothing beside the role and the content; and a tool nothing beside its kind and its description.
pub proof fn law_request_says_no_more(
    client: ChatClientView,
    history: Seq<(Seq<char>, Seq<char>)>,
    tools: Seq<JsonView>,
    m: (Seq<char>, Seq<char>),
    tool: ToolView,
    key: Seq<char>,
    w: JsonView,
)
    ensures
        has_member(client.chat_body(history, tools), key, w) ==> key == "model"@ || key
            == "messages"@ || key == "stream"@ || (key == "tools"@ && tools.len() > 0),
        has_member(message_values(seq![m])[0], key, w) ==> (key == "role"@ && w == JsonView::Text(
            m.0,
        )) || (key == "content"@ && w == JsonView::Text(m.1)),
        has_member(tool_values(seq![tool])[0], key, w) ==> {
            ||| key == "type"@ && w == JsonView::Text("function"@)
            ||| key == "function"@ && (forall|k: Seq<char>, x: JsonView|
                has_member(w, k, x) ==> {
                    ||| k == "name"@ && x == JsonView::Text(tool.name)
                    ||| k == "description"@ && x == JsonView::Text(tool.description)
                    ||| k == "parameters"@ && x == tool.input_schema
                })
        },
{
    if has_member(client.chat_body(history, tools), key, w) {
        let base = seq![
            ("model"@, JsonView::Text(client.model)),
            ("messages"@, JsonView::Array(message_values(history))),
            ("stream"@, JsonView::Bool(true)),
        ];
        law_members_are_entries(
            if tools.len() == 0 {
                base
            } else {
                base.push(("tools"@, JsonView::Array(tools)))
            },
            key,
            w,
        );
    }
    if has_member(message_values(seq![m])[0], key, w) {
        law_members_are_entries(
            seq![("role"@, JsonView::Text(m.0)), ("content"@, JsonView::Text(m.1))],
            key,
            w,
        );
    }
    if has_member(tool_values(seq![tool])[0], key, w) {
        let inner = seq![
            ("name"@, JsonView::Text(tool.name)),
            ("description"@, JsonView::Text(tool.description)),
            ("parameters"@, tool.input_schema),
        ];
        let outer = seq![
            ("type"@, JsonView::Text("function"@)),
            ("function"@, object(inner)),
        ];
        law_members_are_entries(outer, key, w);
        let i = choose|i: int| 0 <= i < outer.len() && (#[trigger] outer[i]) == (key, w);
        if i == 1 {
            assert forall|k: Seq<char>, x: JsonView| has_member(w, k, x) implies {
                ||| k == "name"@ && x == JsonView::Text(tool.name)
                ||| k == "description"@ && x == JsonView::Text(tool.description)
                ||| k == "parameters"@ && x == tool.input_schema
            } by {
                law_members_are_entries(inner, k, x);
            }
        }
    }
}

} // verus!

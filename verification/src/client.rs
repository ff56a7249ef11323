//! The server that answers chat requests.
use vstd::prelude::*;
use vstd::string::*;

use crate::http::{copy_option, refused_text, HttpRequest, Method, Status};
#[allow(unused_imports)]
use crate::http::{pair_views, refused, status_line, RequestView};
use crate::json::{entry, make_array, make_object, text_value, Json};
#[allow(unused_imports)]
use crate::json::{entry_views, item_views, lemma_members, object, JsonView};
use crate::json_text::to_text;
#[allow(unused_imports)]
use crate::json_text::printed;
use crate::text;
#[allow(unused_imports)]
use crate::text::views;

verus! {

/// The server that answers chat requests, and the model asked of it.
pub struct ChatClient {
    api_url: String,
    model: String,
    api_key: Option<String>,
}

/// What a `ChatClient` says.
pub struct ChatClientView {
    pub api_url: Seq<char>,
    pub model: Seq<char>,
    pub api_key: Option<Seq<char>>,
}

impl View for ChatClient {
    type V = ChatClientView;

    closed spec fn view(&self) -> ChatClientView {
        ChatClientView {
            api_url: self.api_url@,
            model: self.model@,
            api_key: self.api_key.deep_view(),
        }
    }
}

impl Clone for ChatClient {
    fn clone(&self) -> (r: Self)
        ensures
            r@ == self@,
    {
        ChatClient {
            api_url: self.api_url.clone(),
            model: self.model.clone(),
            api_key: copy_option(&self.api_key),
        }
    }
}

/// The models that a server offers.
#[derive(Debug)]
pub struct ModelsResponse {
    pub data: Vec<Model>,
}

/// A model that a server offers.
#[derive(Debug)]
pub struct Model {
    pub id: String,
}

/// The names of models.
pub open spec fn model_ids(models: Seq<Model>) -> Seq<Seq<char>> {
    models.map_values(|m: Model| m.id@)
}

/// The URL of a path on the server: one slash stands between the two.
pub open spec fn endpoint(url: Seq<char>, path: Seq<char>) -> Seq<char> {
    if url.len() > 0 && url.last() == '/' {
        url + path
    } else {
        url + "/"@ + path
    }
}

/// A message as the server takes it.
pub open spec fn message_value(message: (Seq<char>, Seq<char>)) -> JsonView {
    object(
        seq![
            ("role"@, JsonView::Text(message.0)),
            ("content"@, JsonView::Text(message.1)),
        ],
    )
}

/// The messages as the server takes them.
pub open spec fn message_values(history: Seq<(Seq<char>, Seq<char>)>) -> Seq<JsonView> {
    history.map_values(|m: (Seq<char>, Seq<char>)| message_value(m))
}

impl ChatClientView {
    /// What is asked of the server. Tools are named only where there are any.
    pub open spec fn chat_body(
        self,
        history: Seq<(Seq<char>, Seq<char>)>,
        tools: Seq<JsonView>,
    ) -> JsonView {
        let base = seq![
            ("model"@, JsonView::Text(self.model)),
            ("messages"@, JsonView::Array(message_values(history))),
            ("stream"@, JsonView::Bool(true)),
        ];
        object(
            if tools.len() == 0 {
                base
            } else {
                base.push(("tools"@, JsonView::Array(tools)))
            },
        )
    }

    /// The request that carries a text to the server's answers.
    pub open spec fn post(self, text: Seq<char>) -> RequestView {
        RequestView {
            method: Method::Post,
            url: endpoint(self.api_url, "v1/chat/completions"@),
            headers: seq![("Content-Type"@, "application/json"@)],
            bearer: self.api_key,
            body: Some(text),
        }
    }

    /// The request that asks for the answer to a conversation.
    pub open spec fn chat_request(
        self,
        history: Seq<(Seq<char>, Seq<char>)>,
        tools: Seq<JsonView>,
    ) -> RequestView {
        self.post(printed(self.chat_body(history, tools)))
    }

    /// The request that asks for the models of the server.
    pub open spec fn models_request(self) -> RequestView {
        RequestView {
            method: Method::Get,
            url: endpoint(self.api_url, "v1/models"@),
            headers: Seq::empty(),
            bearer: self.api_key,
            body: None,
        }
    }
}

/// What became of a request for the models.
#[derive(Debug)]
pub enum ModelsReply {
    /// No reply came, for the reason given.
    Failed(String),
    /// The server refused, with this text for a body.
    Refused(Status, String),
    /// The reply does not list models, for the reason given.
    Unreadable(String),
    Listed(ModelsResponse),
}

/// The models that a reply lists, or why there are none.
pub open spec fn models_result(reply: ModelsReply) -> Result<Seq<Seq<char>>, Seq<char>> {
    match reply {
        ModelsReply::Failed(e) => Err("Connection failed: "@ + e@),
        ModelsReply::Refused(status, body) => Err(refused(status_line(status.code()), body@)),
        ModelsReply::Unreadable(e) => Err("Failed to parse models response: "@ + e@),
        ModelsReply::Listed(models) => Ok(model_ids(models.data@)),
    }
}

/// The view of a list of names, or of why there is none.
pub open spec fn names_view(r: Result<Vec<String>, String>) -> Result<Seq<Seq<char>>, Seq<char>> {
    match r {
        Ok(names) => Ok(views(names@)),
        Err(e) => Err(e@),
    }
}

/// The URL of a path on the server.
fn endpoint_url(url: &str, path: &str) -> (r: String)
    ensures
        r@ == endpoint(url@, path@),
{
    let mut r = url.to_string();
    if !text::ends_with_char(url, '/') {
        r.append("/");
    }
    r.append(path);
    r
}

/// The messages as the server takes them.
fn messages_json(history: &Vec<(String, String)>) -> (r: Vec<Json>)
    ensures
        item_views(r@) == message_values(pair_views(history@)),
{
    let ghost wanted = message_values(pair_views(history@));
    let mut out: Vec<Json> = Vec::new();
    let mut i: usize = 0;
    assert(item_views(out@) =~= wanted.take(0));
    while i < history.len()
        invariant
            i <= history@.len(),
            wanted == message_values(pair_views(history@)),
            item_views(out@) == wanted.take(i as int),
        decreases history@.len() - i,
    {
        let ghost had = out@;
        let entries = vec![
            entry("role", text_value(history[i].0.as_str())),
            entry("content", text_value(history[i].1.as_str())),
        ];
        assert(entry_views(entries@) =~= seq![
            ("role"@, JsonView::Text(history@[i as int].0@)),
            ("content"@, JsonView::Text(history@[i as int].1@)),
        ]);
        let message = make_object(entries);
        out.push(message);
        assert(wanted[i as int] == message@);
        assert(item_views(out@) =~= item_views(had).push(message@));
        assert(wanted.take(i + 1) =~= wanted.take(i as int).push(message@));
        i += 1;
    }
    assert(wanted.take(i as int) =~= wanted);
    out
}

impl ChatClient {
    /// A client of the server at `api_url`.
    pub fn new(api_url: String, model: String, api_key: Option<String>) -> (r: Self)
        ensures
            r@ == (ChatClientView {
                api_url: api_url@,
                model: model@,
                api_key: api_key.deep_view(),
            }),
    {
        ChatClient { api_url, model, api_key }
    }

    /// Asks another model from now on.
    pub fn set_model(&mut self, model: String)
        ensures
            final(self)@ == (ChatClientView { model: model@, ..old(self)@ }),
    {
        self.model = model;
    }

    /// The request that asks for the models of the server.
    pub fn list_models(&self) -> (r: HttpRequest)
        ensures
            r@ == self@.models_request(),
    {
        let headers: Vec<(String, String)> = Vec::new();
        assert(pair_views(headers@) =~= Seq::empty());
        HttpRequest {
            method: Method::Get,
            url: endpoint_url(self.api_url.as_str(), "v1/models"),
            headers,
            bearer: copy_option(&self.api_key),
            body: None,
        }
    }

    /// The models that a reply lists, or why there are none.
    pub fn models_listed(reply: ModelsReply) -> (r: Result<Vec<String>, String>)
        ensures
            names_view(r) == models_result(reply),
    {
        match reply {
            ModelsReply::Failed(e) => {
                let mut s = "Connection failed: ".to_string();
                s.append(e.as_str());
                Err(s)
            },
            ModelsReply::Refused(status, body) => Err(
                refused_text(status.text().as_str(), body.as_str()),
            ),
            ModelsReply::Unreadable(e) => {
                let mut s = "Failed to parse models response: ".to_string();
                s.append(e.as_str());
                Err(s)
            },
            ModelsReply::Listed(models) => {
                let ghost wanted = model_ids(models.data@);
                let mut out: Vec<String> = Vec::new();
                let mut i: usize = 0;
                assert(views(out@) =~= wanted.take(0));
                while i < models.data.len()
                    invariant
                        i <= models.data@.len(),
                        wanted == model_ids(models.data@),
                        views(out@) == wanted.take(i as int),
                    decreases models.data@.len() - i,
                {
                    let ghost had = out@;
                    let id = models.data[i].id.clone();
                    out.push(id);
                    assert(views(out@) =~= views(had).push(id@));
                    assert(wanted.take(i + 1) =~= wanted.take(i as int).push(id@));
                    i += 1;
                }
                assert(wanted.take(i as int) =~= wanted);
                Ok(out)
            },
        }
    }

    /// What is asked of the server.
    pub fn chat_json(&self, history: &Vec<(String, String)>, tools: Vec<Json>) -> (r: Json)
        ensures
            r@ == self@.chat_body(pair_views(history@), item_views(tools@)),
    {
        let messages = make_array(messages_json(history));
        let mut entries = vec![
            entry("model", text_value(self.model.as_str())),
            entry("messages", messages),
            entry("stream", Json::Bool(true)),
        ];
        if !tools.is_empty() {
            entries.push(entry("tools", make_array(tools)));
        }
        proof {
            let base = seq![
                ("model"@, JsonView::Text(self@.model)),
                ("messages"@, JsonView::Array(message_values(pair_views(history@)))),
                ("stream"@, JsonView::Bool(true)),
            ];
            if tools@.len() == 0 {
                assert(entry_views(entries@) =~= base);
            } else {
                assert(entry_views(entries@) =~= base.push(
                    ("tools"@, JsonView::Array(item_views(tools@))),
                ));
            }
        }
        make_object(entries)
    }

    /// The request that carries a text to the server's answers.
    pub fn post(&self, text: String) -> (r: HttpRequest)
        ensures
            r@ == self@.post(text@),
    {
        let headers = vec![("Content-Type".to_string(), "application/json".to_string())];
        assert(pair_views(headers@) =~= seq![("Content-Type"@, "application/json"@)]);
        HttpRequest {
            method: Method::Post,
            url: endpoint_url(self.api_url.as_str(), "v1/chat/completions"),
            headers,
            bearer: copy_option(&self.api_key),
            body: Some(text),
        }
    }

    /// The request that asks for the answer to a conversation.
    pub fn send_chat_message(&self, history: &Vec<(String, String)>, tools: Vec<Json>) -> (r:
        HttpRequest)
        ensures
            r@ == self@.chat_request(pair_views(history@), item_views(tools@)),
    {
        self.post(to_text(&self.chat_json(history, tools)))
    }
}

/// A slash at the end of the server's URL makes no difference to the URLs of its paths.
pub proof fn law_endpoint_slash(url: Seq<char>, path: Seq<char>)
    requires
        url.len() == 0 || url.last() != '/',
    ensures
        endpoint(url, path) == endpoint(url + "/"@, path),
{
    reveal_strlit("/");
    assert((url + "/"@).last() == '/');
}

/// What is asked of the server names the model, carries the conversation, and offers the tools, if
/// there are any.
pub proof fn law_request_says_what_is_asked(
    client: ChatClientView,
    history: Seq<(Seq<char>, Seq<char>)>,
    tools: Seq<JsonView>,
)
    ensures
        ({
            let body = client.chat_body(history, tools);
            &&& body.get("model"@) == Some(JsonView::Text(client.model))
            &&& body.get("messages"@) == Some(JsonView::Array(message_values(history)))
            &&& body.get("stream"@) == Some(JsonView::Bool(true))
            &&& body.get("tools"@) == if tools.len() == 0 {
                None
            } else {
                Some(JsonView::Array(tools))
            }
        }),
{
    reveal_strlit("model");
    reveal_strlit("messages");
    reveal_strlit("stream");
    reveal_strlit("tools");
    assert("model"@.len() == 5 && "messages"@.len() == 8 && "stream"@.len() == 6);
    assert("model"@[0] == 'm' && "tools"@[0] == 't');
    let base = seq![
        ("model"@, JsonView::Text(client.model)),
        ("messages"@, JsonView::Array(message_values(history))),
        ("stream"@, JsonView::Bool(true)),
    ];
    let entries = if tools.len() == 0 {
        base
    } else {
        base.push(("tools"@, JsonView::Array(tools)))
    };
    lemma_members(entries, "model"@, 1);
    lemma_members(entries, "messages"@, 2);
    lemma_members(entries, "stream"@, 3);
    lemma_members(
        entries,
        "tools"@,
        if tools.len() == 0 {
            0
        } else {
            4
        },
    );
}

} // verus!

use chatatui::client::{ChatClient, Model, ModelsReply, ModelsResponse};
use chatatui::http::{Method, Status};
use chatatui::json_text::{parse, to_text};

fn client(url: &str) -> ChatClient {
    ChatClient::new(url.to_string(), "m1".to_string(), Some("key".to_string()))
}

fn history() -> Vec<(String, String)> {
    vec![
        ("user".to_string(), "hi \"you\"".to_string()),
        ("assistant".to_string(), "yes".to_string()),
    ]
}

#[test]
fn request_for_the_models() {
    for url in ["http://h", "http://h/"] {
        let r = client(url).list_models();
        assert_eq!(r.method, Method::Get);
        assert_eq!(r.url, "http://h/v1/models");
        assert!(r.headers.is_empty());
        assert_eq!(r.bearer, Some("key".to_string()));
        assert_eq!(r.body, None);
    }
}

#[test]
fn request_for_an_answer() {
    let r = client("http://h/").send_chat_message(&history(), vec![]);
    assert_eq!(r.method, Method::Post);
    assert_eq!(r.url, "http://h/v1/chat/completions");
    assert_eq!(r.headers, vec![("Content-Type".to_string(), "application/json".to_string())]);
    assert_eq!(r.bearer, Some("key".to_string()));
    assert_eq!(
        r.body.unwrap(),
        "{\"messages\":[{\"content\":\"hi \\\"you\\\"\",\"role\":\"user\"},{\"content\":\"yes\",\"role\":\"assistant\"}],\"model\":\"m1\",\"stream\":true}"
    );
}

#[test]
fn request_with_tools_and_another_model() {
    let mut c = client("http://h");
    c.set_model("m2".to_string());
    let r = c.clone().send_chat_message(&vec![], vec![parse("{\"type\":\"function\"}").unwrap()]);
    assert_eq!(r.url, "http://h/v1/chat/completions");
    assert_eq!(
        r.body.unwrap(),
        "{\"messages\":[],\"model\":\"m2\",\"stream\":true,\"tools\":[{\"type\":\"function\"}]}"
    );
}

#[test]
fn models_of_a_reply() {
    let listed = ModelsReply::Listed(ModelsResponse {
        data: vec![Model { id: "b".to_string() }, Model { id: "a".to_string() }],
    });
    assert_eq!(
        ChatClient::models_listed(listed).unwrap(),
        vec!["b".to_string(), "a".to_string()]
    );
    assert_eq!(
        ChatClient::models_listed(ModelsReply::Failed("e".to_string())).unwrap_err(),
        "Connection failed: e"
    );
    let status = Status::new(403).unwrap();
    assert_eq!(
        ChatClient::models_listed(ModelsReply::Refused(status, "no".to_string())).unwrap_err(),
        "HTTP 403 Forbidden: no"
    );
    assert_eq!(
        ChatClient::models_listed(ModelsReply::Unreadable("e".to_string())).unwrap_err(),
        "Failed to parse models response: e"
    );
}

#[test]
fn text_and_value_of_a_request() {
    let c = client("http://h");
    assert_eq!(c.post("body".to_string()).body, Some("body".to_string()));
    let value = c.chat_json(&history(), vec![]);
    assert_eq!(value.get("model").unwrap().as_str(), Some("m1"));
    assert_eq!(value.get("messages").unwrap().as_array().unwrap().len(), 2);
    assert_eq!(to_text(value.get("stream").unwrap()), "true");
    assert!(value.get("tools").is_none());
}

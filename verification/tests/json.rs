use chatatui::http::{refused_text, Status};
use chatatui::json::{get_member, get_text, Json};
use chatatui::json_text::{parse, to_pretty_text, to_text};

fn read(text: &str) -> Json {
    parse(text).unwrap()
}

#[test]
fn values_are_read_and_written() {
    let j = read(r#" {"b":1, "a":[true,null,"x\n",1.5,-3] , "c":{}} "#);
    assert_eq!(to_text(&j), r#"{"a":[true,null,"x\n",1.5,-3],"b":1,"c":{}}"#);
    assert_eq!(to_text(&j.clone()), to_text(&j));
    assert_eq!(to_text(&read("18446744073709551615")), "18446744073709551615");
}

#[test]
fn values_over_several_lines() {
    let j = read(r#"{"b":[1],"a":{}}"#);
    assert_eq!(to_pretty_text(&j).unwrap(), "{\n  \"a\": {},\n  \"b\": [\n    1\n  ]\n}");
}

#[test]
fn what_is_no_json_is_refused() {
    assert_eq!(parse("").unwrap_err(), "EOF while parsing a value at line 1 column 0");
    assert_eq!(parse("{x}").unwrap_err(), "key must be a string at line 1 column 2");
    assert_eq!(parse("1 2").unwrap_err(), "trailing characters at line 1 column 3");
}

#[test]
fn later_entry_of_a_key_counts() {
    let j = read(r#"{"k":1,"k":2}"#);
    assert_eq!(to_text(&j), r#"{"k":2}"#);
    let made = Json::Object(vec![
        ("k".to_string(), Json::Bool(true)),
        ("k".to_string(), Json::Bool(false)),
    ]);
    assert!(matches!(made.get("k"), Some(Json::Bool(false))));
    assert_eq!(to_text(&made), r#"{"k":false}"#);
}

#[test]
fn parts_of_values() {
    let j = read(r#"{"a":[10,{"t":"x"}],"s":"y"}"#);
    assert_eq!(to_text(j.get("a").unwrap().at(0).unwrap()), "10");
    assert!(j.get("a").unwrap().at(2).is_none());
    assert!(j.get("z").is_none());
    assert!(j.at(0).is_none());
    assert!(j.get("a").unwrap().get("t").is_none());
    assert_eq!(j.get("s").unwrap().as_str(), Some("y"));
    assert_eq!(j.get("a").unwrap().as_str(), None);
    assert_eq!(j.get("a").unwrap().as_array().unwrap().len(), 2);
    assert!(j.as_array().is_none());
    assert_eq!(get_text(&j, "s"), Some("y"));
    assert_eq!(get_text(&j, "a"), None);
    assert!(get_member(None, "a").is_none());
    assert!(get_member(Some(&j), "a").is_some());
}

#[test]
fn statuses() {
    assert!(Status::new(99).is_none());
    assert!(Status::new(1000).is_none());
    assert_eq!(Status::new(404).unwrap().text(), "404 Not Found");
    assert_eq!(Status::new(200).unwrap().text(), "200 OK");
    assert_eq!(Status::new(799).unwrap().text(), "799 <unknown status code>");
    assert!(!Status::new(199).unwrap().is_success());
    assert!(Status::new(200).unwrap().is_success());
    assert!(Status::new(299).unwrap().is_success());
    assert!(!Status::new(300).unwrap().is_success());
    assert!(Status::new(100).is_some() && Status::new(999).is_some());
}

#[test]
fn text_of_a_refusal() {
    assert_eq!(refused_text("404 Not Found", "gone"), "HTTP 404 Not Found: gone");
}

use chatatui::naming::{extract_api_name, label_of, with_first, word_of};

#[test]
fn name_is_the_first_word_of_the_host() {
    assert_eq!(extract_api_name("http://localhost:11434"), "Localhost");
    assert_eq!(extract_api_name("https://api.openai.com/v1/"), "Api");
    assert_eq!(extract_api_name("my-server.example.org"), "My");
    assert_eq!(extract_api_name("a://b://c.d"), "C");
}

#[test]
fn name_of_a_host_without_letters() {
    assert_eq!(extract_api_name(""), "API");
    assert_eq!(extract_api_name("///"), "API");
    assert_eq!(extract_api_name("http://127.0.0.1:8000"), "API");
}

#[test]
fn name_starts_with_one_upper_case_character() {
    assert_eq!(extract_api_name("https://ärzte.de"), "Ärzte");
    assert_eq!(extract_api_name("ßeta.example"), "Seta");
    assert_eq!(extract_api_name("X.y"), "X");
}

#[test]
fn name_is_never_empty() {
    for url in ["", " ", ".", "://", "http://.com", "7", "\u{1f600}"] {
        assert!(!extract_api_name(url).is_empty());
    }
}

#[test]
fn parts_of_the_name() {
    assert_eq!(label_of("https://api.openai.com/v1/"), "api");
    assert_eq!(label_of("host"), "host");
    assert_eq!(word_of("  my server"), "my");
    assert_eq!(word_of("   "), "API");
    assert_eq!(with_first("äb", 'X'), "Xb");
}

#[test]
fn slash_makes_no_difference_to_the_name() {
    for url in ["", "http://host", "https://api.x.com/v1", "a://", "/"] {
        assert_eq!(extract_api_name(&format!("{}/", url)), extract_api_name(url));
    }
}

#[test]
fn ascii_names_are_letters() {
    for n in 0..128u8 {
        let c = n as char;
        let name = extract_api_name(&format!("{}b", c));
        if c.is_ascii_alphabetic() {
            assert_eq!(name, format!("{}b", c.to_ascii_uppercase()));
        } else if c == '.' {
            assert_eq!(name, "API");
        } else {
            assert_eq!(name, "B");
        }
    }
    assert_eq!(extract_api_name("http://9x2y.z"), "X");
}

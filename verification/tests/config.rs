use chatatui::config::{
    default_api_url, default_model, default_ollama_port, is_default_port, parse_warnings,
    write_warning, Config, FileAction, FileFound, McpServerConfig,
};

fn config(url: &str, port: Option<u16>) -> Config {
    Config {
        api_url: url.to_string(),
        ollama_port: port,
        default_model: "m".to_string(),
        api_key: Some("k".to_string()),
        mcp_servers: vec![McpServerConfig {
            name: "s".to_string(),
            url: "u".to_string(),
            api_key: None,
        }],
    }
}

#[test]
fn standard_configuration() {
    let c = Config::default();
    assert_eq!(c.api_url, "http://localhost:11434");
    assert_eq!(c.ollama_port, None);
    assert_eq!(c.default_model, "llama3");
    assert_eq!(c.api_key, None);
    assert!(c.mcp_servers.is_empty());
    assert_eq!(default_api_url(), c.api_url);
    assert_eq!(default_model(), c.default_model);
    assert_eq!(default_ollama_port(), None);
    assert!(is_default_port(&None));
    assert!(!is_default_port(&Some(11434)));
}

#[test]
fn port_is_merged_into_the_url() {
    assert_eq!(Config::load(Some(config("myhost", Some(8080)))).api_url, "myhost:8080");
    assert_eq!(
        Config::load(Some(config("http://localhost", Some(65535)))).api_url,
        "http://localhost:65535"
    );
    assert_eq!(
        Config::load(Some(config("http://localhost:11434", Some(5)))).api_url,
        "http://localhost:11434:5"
    );
    assert_eq!(Config::load(Some(config("https://host", Some(1)))).api_url, "https://host");
    assert_eq!(Config::load(Some(config("myhost", None))).api_url, "myhost");
    assert_eq!(Config::load(None).api_url, "http://localhost:11434");
}

#[test]
fn loading_keeps_the_rest_and_settles() {
    let c = Config::load(Some(config("myhost", Some(80))));
    assert_eq!(c.ollama_port, None);
    assert_eq!(c.default_model, "m");
    assert_eq!(c.api_key, Some("k".to_string()));
    assert_eq!(c.mcp_servers[0].name, "s");
    let again = Config::load(Some(c));
    assert_eq!(again.api_url, "myhost:80");
    assert_eq!(again.ollama_port, None);
}

#[test]
fn what_to_do_about_the_file() {
    match Config::load_from_file(FileFound::Missing) {
        FileAction::WriteDefault(c) => assert_eq!(c.api_url, "http://localhost:11434"),
        other => panic!("{:?}", other),
    }
    match Config::load_from_file(FileFound::Unreadable) {
        FileAction::Warn(s) => {
            assert_eq!(s, "Warning: Could not read config file, using defaults")
        }
        other => panic!("{:?}", other),
    }
    assert!(matches!(
        Config::load_from_file(FileFound::Text(String::new())),
        FileAction::UseDefault
    ));
    match Config::load_from_file(FileFound::Text(" ".to_string())) {
        FileAction::Parse(s) => assert_eq!(s, " "),
        other => panic!("{:?}", other),
    }
}

#[test]
fn written_configuration_is_used() {
    match Config::load_from_file(FileFound::Missing) {
        FileAction::WriteDefault(written) => {
            let read = Config::load(Some(written));
            let used = Config::load(None);
            assert_eq!(read.api_url, used.api_url);
            assert_eq!(read.ollama_port, used.ollama_port);
            assert_eq!(read.default_model, used.default_model);
            assert_eq!(read.api_key, used.api_key);
            assert!(read.mcp_servers.is_empty());
        }
        other => panic!("{:?}", other),
    }
}

#[test]
fn warnings() {
    assert_eq!(
        parse_warnings("bad", "/etc/c.toml"),
        vec!["Warning: Could not parse config file: bad", "Config file path: /etc/c.toml"]
    );
    assert_eq!(write_warning("full"), "Warning: Could not create default config file: full");
}

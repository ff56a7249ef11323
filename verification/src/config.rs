//! The configuration of the client.
use vstd::prelude::*;
use vstd::string::*;

use crate::http::copy_option;
use crate::text;
#[allow(unused_imports)]
use crate::text::digits;

verus! {

/// A tool server that the user has configured.
#[derive(Debug)]
pub struct McpServerConfig {
    pub name: String,
    pub url: String,
    pub api_key: Option<String>,
}

/// What an `McpServerConfig` says.
pub struct ServerView {
    pub name: Seq<char>,
    pub url: Seq<char>,
    pub api_key: Option<Seq<char>>,
}

impl View for McpServerConfig {
    type V = ServerView;

    open spec fn view(&self) -> ServerView {
        ServerView { name: self.name@, url: self.url@, api_key: self.api_key.deep_view() }
    }
}

/// The views of a list of servers.
pub open spec fn server_views(servers: Seq<McpServerConfig>) -> Seq<ServerView> {
    servers.map_values(|s: McpServerConfig| s@)
}

impl Clone for McpServerConfig {
    fn clone(&self) -> (r: Self)
        ensures
            r == *self,
    {
        McpServerConfig {
            name: self.name.clone(),
            url: self.url.clone(),
            api_key: copy_option(&self.api_key),
        }
    }
}

/// The configuration of the client.
#[derive(Debug)]
pub struct Config {
    pub api_url: String,
    /// The port of the server, where it is not part of the URL.
    pub ollama_port: Option<u16>,
    pub default_model: String,
    pub api_key: Option<String>,
    pub mcp_servers: Vec<McpServerConfig>,
}

impl Clone for Config {
    fn clone(&self) -> (r: Self)
        ensures
            r@ == self@,
    {
        let r = Config {
            api_url: self.api_url.clone(),
            ollama_port: self.ollama_port,
            default_model: self.default_model.clone(),
            api_key: copy_option(&self.api_key),
            mcp_servers: self.mcp_servers.clone(),
        };
        assert(r@.mcp_servers =~= self@.mcp_servers);
        r
    }
}

/// What a `Config` says.
pub struct ConfigView {
    pub api_url: Seq<char>,
    pub ollama_port: Option<u16>,
    pub default_model: Seq<char>,
    pub api_key: Option<Seq<char>>,
    pub mcp_servers: Seq<ServerView>,
}

impl View for Config {
    type V = ConfigView;

    open spec fn view(&self) -> ConfigView {
        ConfigView {
            api_url: self.api_url@,
            ollama_port: self.ollama_port,
            default_model: self.default_model@,
            api_key: self.api_key.deep_view(),
            mcp_servers: server_views(self.mcp_servers@),
        }
    }
}

impl ConfigView {
    /// The configuration where none is given.
    pub open spec fn standard() -> ConfigView {
        ConfigView {
            api_url: "http://localhost:11434"@,
            ollama_port: None,
            default_model: "llama3"@,
            api_key: None,
            mcp_servers: Seq::empty(),
        }
    }

    /// The URL, with the port behind it where the port is given apart and the URL either has no
    /// colon or is on this machine.
    pub open spec fn url_with_port(self) -> Seq<char> {
        match self.ollama_port {
            Some(port) => if !self.api_url.contains(':') || "http://localhost"@.is_prefix_of(
                self.api_url,
            ) {
                self.api_url + ":"@ + digits(port as nat)
            } else {
                self.api_url
            },
            None => self.api_url,
        }
    }

    /// The configuration with its port merged into its URL.
    pub open spec fn merged(self) -> ConfigView {
        ConfigView { api_url: self.url_with_port(), ollama_port: None, ..self }
    }
}

/// Whether a port is the one taken where none is given.
pub fn is_default_port(port: &Option<u16>) -> (r: bool)
    ensures
        r == (*port == ConfigView::standard().ollama_port),
{
    port.is_none()
}

/// The port where none is given.
pub fn default_ollama_port() -> (r: Option<u16>)
    ensures
        r == ConfigView::standard().ollama_port,
{
    None
}

/// The URL where none is given.
pub fn default_api_url() -> (r: String)
    ensures
        r@ == ConfigView::standard().api_url,
{
    "http://localhost:11434".to_string()
}

/// The model where none is given.
pub fn default_model() -> (r: String)
    ensures
        r@ == ConfigView::standard().default_model,
{
    "llama3".to_string()
}

impl Default for Config {
    fn default() -> (r: Self)
        ensures
            r@ == ConfigView::standard(),
    {
        let r = Config {
            api_url: default_api_url(),
            ollama_port: None,
            default_model: default_model(),
            api_key: None,
            mcp_servers: Vec::new(),
        };
        assert(r@.mcp_servers =~= Seq::empty());
        r
    }
}

/// What was found where the configuration file should be.
#[derive(Debug)]
pub enum FileFound {
    Missing,
    Unreadable,
    Text(String),
}

/// What to do about the configuration file.
#[derive(Debug)]
pub enum FileAction {
    /// Write this configuration to the file, and use the standard one.
    WriteDefault(Config),
    /// Show this warning, and use the standard configuration.
    Warn(String),
    /// Use the standard configuration.
    UseDefault,
    /// Read this text as a configuration.
    Parse(String),
}

/// What a `FileAction` says.
pub enum FileActionView {
    WriteDefault(ConfigView),
    Warn(Seq<char>),
    UseDefault,
    Parse(Seq<char>),
}

impl View for FileAction {
    type V = FileActionView;

    open spec fn view(&self) -> FileActionView {
        match self {
            FileAction::WriteDefault(c) => FileActionView::WriteDefault(c@),
            FileAction::Warn(s) => FileActionView::Warn(s@),
            FileAction::UseDefault => FileActionView::UseDefault,
            FileAction::Parse(s) => FileActionView::Parse(s@),
        }
    }
}

/// What to do about a configuration file that was found so.
pub open spec fn file_action(found: FileFound) -> FileActionView {
    match found {
        FileFound::Missing => FileActionView::WriteDefault(ConfigView::standard()),
        FileFound::Unreadable => FileActionView::Warn(
            "Warning: Could not read config file, using defaults"@,
        ),
        FileFound::Text(s) => if s@.len() == 0 {
            FileActionView::UseDefault
        } else {
            FileActionView::Parse(s@)
        },
    }
}

impl Config {
    /// The configuration to run with, given the one that the file holds, if it holds one.
    pub fn load(file: Option<Config>) -> (r: Config)
        ensures
            r@ == (match file {
                Some(c) => c@.merged(),
                None => ConfigView::standard().merged(),
            }),
    {
        let mut config = match file {
            Some(c) => c,
            None => Config::default(),
        };
        let ghost before = config@;
        if let Some(port) = config.ollama_port {
            if !text::contains_char(config.api_url.as_str(), ':') || text::starts_with(
                config.api_url.as_str(),
                "http://localhost",
            ) {
                let number = text::decimal(port as u64);
                let mut url = config.api_url.clone();
                url.append(":");
                url.append(number.as_str());
                config.api_url = url;
            }
        }
        config.ollama_port = None;
        config
    }

    /// What to do about the configuration file.
    pub fn load_from_file(found: FileFound) -> (r: FileAction)
        ensures
            r@ == file_action(found),
    {
        match found {
            FileFound::Missing => FileAction::WriteDefault(Config::default()),
            FileFound::Unreadable => FileAction::Warn(
                "Warning: Could not read config file, using defaults".to_string(),
            ),
            FileFound::Text(s) => if s.as_str().is_empty() {
                FileAction::UseDefault
            } else {
                FileAction::Parse(s)
            },
        }
    }
}

/// The lines to show where the configuration file at `path` is refused.
pub fn parse_warnings(error: &str, path: &str) -> (r: Vec<String>)
    ensures
        text::views(r@) == seq![
            "Warning: Could not parse config file: "@ + error@,
            "Config file path: "@ + path@,
        ],
{
    let mut first = "Warning: Could not parse config file: ".to_string();
    first.append(error);
    let mut second = "Config file path: ".to_string();
    second.append(path);
    let r = vec![first, second];
    assert(text::views(r@) =~= seq![
        "Warning: Could not parse config file: "@ + error@,
        "Config file path: "@ + path@,
    ]);
    r
}

/// The line to show where the standard configuration could not be written.
pub fn write_warning(error: &str) -> (r: String)
    ensures
        r@ == "Warning: Could not create default config file: "@ + error@,
{
    let mut r = "Warning: Could not create default config file: ".to_string();
    r.append(error);
    r
}

/// A configuration that has been loaded keeps no separate port, and loading it once more changes
/// nothing.
pub proof fn law_load_settles(config: ConfigView)
    ensures
        config.merged().ollama_port is None,
        config.merged().merged() == config.merged(),
{
}

/// Loading changes the URL and the port alone, and the URL only by adding to its end.
pub proof fn law_load_extends_url(config: ConfigView)
    ensures
        config.api_url.is_prefix_of(config.merged().api_url),
        config.ollama_port is None ==> config.merged() == config,
        config.merged() == (ConfigView {
            api_url: config.merged().api_url,
            ollama_port: None,
            ..config
        }),
{
}

/// The configuration that is written where there is no file is the one that is used then, and the
/// one that is used once the file reads as what was written.
pub proof fn law_written_configuration_is_used(found: FileFound)
    ensures
        file_action(found) matches FileActionView::WriteDefault(written) ==> written.merged()
            == ConfigView::standard().merged(),
{
}

} // verus!

//! A terminal chat client for servers that speak the chat-completions protocol, with tools of servers
//! that speak the Model Context Protocol.
pub mod app;
pub mod chat;
pub mod client;
pub mod commands;
pub mod config;
pub mod event;
pub mod http;
pub mod json;
pub mod json_laws;
pub mod json_text;
pub mod laws;
pub mod mcp;
pub mod naming;
pub mod reply_laws;
pub mod request_laws;
pub mod run;
pub mod screen_laws;
pub mod state;
pub mod step_laws;
pub mod steps;
pub mod text;
pub mod text_laws;
pub mod tool_laws;
pub mod ui;

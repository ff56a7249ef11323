//! The state of the client, and what it asks of its surroundings.
use vstd::prelude::*;

use crate::client::ChatClient;
#[allow(unused_imports)]
use crate::client::ChatClientView;
use crate::config::McpServerConfig;
#[allow(unused_imports)]
use crate::config::{server_views, ServerView};
use crate::event::{AsyncEvent, PendingToolCall};
#[allow(unused_imports)]
use crate::event::{EventView, PendingView};
use crate::http::{copy_pairs, HttpRequest};
#[allow(unused_imports)]
use crate::http::{pair_views, RequestView};
use crate::mcp::{McpClient, McpTool};
#[allow(unused_imports)]
use crate::mcp::{tool_views, McpClientView, ToolView};
#[allow(unused_imports)]
use crate::text::views;

verus! {

/// A conversation.
pub struct Thread {
    pub name: String,
    /// The messages: who speaks, what is said, and whether it tells of an error.
    pub messages: Vec<(String, String, bool)>,
}

/// A message: who speaks, what is said, and whether it tells of an error.
pub type MessageView = (Seq<char>, Seq<char>, bool);

/// What a `Thread` says.
pub struct ThreadView {
    pub name: Seq<char>,
    pub messages: Seq<MessageView>,
}

/// The views of a list of messages.
pub open spec fn message_views(messages: Seq<(String, String, bool)>) -> Seq<MessageView> {
    messages.map_values(|m: (String, String, bool)| (m.0@, m.1@, m.2))
}

impl View for Thread {
    type V = ThreadView;

    open spec fn view(&self) -> ThreadView {
        ThreadView { name: self.name@, messages: message_views(self.messages@) }
    }
}

impl Clone for Thread {
    fn clone(&self) -> (r: Self)
        ensures
            r@ == self@,
    {
        let ghost wanted = message_views(self.messages@);
        let mut messages: Vec<(String, String, bool)> = Vec::new();
        let mut i: usize = 0;
        assert(message_views(messages@) =~= wanted.take(0));
        while i < self.messages.len()
            invariant
                i <= self.messages@.len(),
                wanted == message_views(self.messages@),
                message_views(messages@) == wanted.take(i as int),
            decreases self.messages@.len() - i,
        {
            let ghost had = messages@;
            let message = &self.messages[i];
            let copy = (message.0.clone(), message.1.clone(), message.2);
            messages.push(copy);
            assert(message_views(messages@) =~= message_views(had).push(wanted[i as int]));
            assert(wanted.take(i + 1) =~= wanted.take(i as int).push(wanted[i as int]));
            i += 1;
        }
        assert(wanted.take(i as int) =~= wanted);
        Thread { name: self.name.clone(), messages }
    }
}

/// The views of a list of threads.
pub open spec fn thread_views(threads: Seq<Thread>) -> Seq<ThreadView> {
    threads.map_values(|t: Thread| t@)
}

/// What stands over the conversation and takes the keys.
#[derive(Debug)]
pub enum Modal {
    /// Models, the index selected, and the text searched for.
    SelectModel(Vec<String>, usize, String),
    /// Commands with their descriptions, the index selected, and what has been typed.
    CommandList(Vec<(String, String)>, usize, String),
    /// Names and URLs of servers, and the index selected.
    McpServers(Vec<(String, String)>, usize),
    /// The name of a server, its tools, and the index selected.
    McpTools(String, Vec<McpTool>, usize),
    /// A tool with its server, and the arguments of the call.
    ToolConfirm(String, String),
}

/// What a `Modal` says.
pub enum ModalView {
    SelectModel(Seq<Seq<char>>, int, Seq<char>),
    CommandList(Seq<(Seq<char>, Seq<char>)>, int, Seq<char>),
    McpServers(Seq<(Seq<char>, Seq<char>)>, int),
    McpTools(Seq<char>, Seq<ToolView>, int),
    ToolConfirm(Seq<char>, Seq<char>),
}

impl View for Modal {
    type V = ModalView;

    open spec fn view(&self) -> ModalView {
        match self {
            Modal::SelectModel(models, i, search) => ModalView::SelectModel(
                views(models@),
                *i as int,
                search@,
            ),
            Modal::CommandList(commands, i, partial) => ModalView::CommandList(
                pair_views(commands@),
                *i as int,
                partial@,
            ),
            Modal::McpServers(servers, i) => ModalView::McpServers(
                pair_views(servers@),
                *i as int,
            ),
            Modal::McpTools(name, tools, i) => ModalView::McpTools(
                name@,
                tool_views(tools@),
                *i as int,
            ),
            Modal::ToolConfirm(tool, args) => ModalView::ToolConfirm(tool@, args@),
        }
    }
}

impl Clone for Modal {
    fn clone(&self) -> (r: Self)
        ensures
            r@ == self@,
    {
        match self {
            Modal::SelectModel(models, i, search) => {
                let copy = models.clone();
                assert(views(copy@) =~= views(models@));
                Modal::SelectModel(copy, *i, search.clone())
            },
            Modal::CommandList(commands, i, partial) => Modal::CommandList(
                copy_pairs(commands),
                *i,
                partial.clone(),
            ),
            Modal::McpServers(servers, i) => Modal::McpServers(copy_pairs(servers), *i),
            Modal::McpTools(name, tools, i) => {
                let copy = tools.clone();
                assert(tool_views(copy@) =~= tool_views(tools@));
                Modal::McpTools(name.clone(), copy, *i)
            },
            Modal::ToolConfirm(tool, args) => Modal::ToolConfirm(tool.clone(), args.clone()),
        }
    }
}

/// The entry of a list that is selected.
#[derive(Debug, Clone, Copy)]
pub struct ListState {
    pub selected: Option<usize>,
}

impl ListState {
    /// A list with nothing selected.
    pub fn new() -> (r: Self)
        ensures
            r.selected is None,
    {
        ListState { selected: None }
    }

    /// Selects an entry, or none.
    pub fn select(&mut self, index: Option<usize>)
        ensures
            final(self).selected == index,
    {
        self.selected = index;
    }
}

/// The state of the client.
pub struct AppState {
    pub input: String,
    pub threads: Vec<Thread>,
    pub current_thread_idx: usize,
    pub client: ChatClient,
    pub model: String,
    pub api_name: String,
    pub is_loading: bool,
    pub is_connected: bool,
    pub thread_state: ListState,
    pub chat_scroll: u16,
    pub message_queue: Vec<String>,
    pub modal: Option<Modal>,
    pub mcp_servers: Vec<McpServerConfig>,
    pub mcp_tools: Vec<McpTool>,
    pub mcp_clients: Vec<(String, McpClient)>,
    pub pending_tool_call: Option<PendingToolCall>,
}

/// The views of a list of named clients.
pub open spec fn client_views(clients: Seq<(String, McpClient)>) -> Seq<
    (Seq<char>, McpClientView),
> {
    clients.map_values(|c: (String, McpClient)| (c.0@, c.1@))
}

/// What an `AppState` says.
pub struct AppView {
    pub input: Seq<char>,
    pub threads: Seq<ThreadView>,
    pub current: int,
    pub client: ChatClientView,
    pub model: Seq<char>,
    pub api_name: Seq<char>,
    pub is_loading: bool,
    pub is_connected: bool,
    pub selected: Option<usize>,
    pub chat_scroll: int,
    pub queue: Seq<Seq<char>>,
    pub modal: Option<ModalView>,
    pub servers: Seq<ServerView>,
    pub tools: Seq<ToolView>,
    pub clients: Seq<(Seq<char>, McpClientView)>,
    pub pending: Option<PendingView>,
}

/// The view of what stands over the conversation.
pub open spec fn modal_view(modal: Option<Modal>) -> Option<ModalView> {
    match modal {
        Some(m) => Some(m@),
        None => None,
    }
}

/// The view of the call that awaits the user.
pub open spec fn pending_view(pending: Option<PendingToolCall>) -> Option<PendingView> {
    match pending {
        Some(p) => Some(p@),
        None => None,
    }
}

impl View for AppState {
    type V = AppView;

    open spec fn view(&self) -> AppView {
        AppView {
            input: self.input@,
            threads: thread_views(self.threads@),
            current: self.current_thread_idx as int,
            client: self.client@,
            model: self.model@,
            api_name: self.api_name@,
            is_loading: self.is_loading,
            is_connected: self.is_connected,
            selected: self.thread_state.selected,
            chat_scroll: self.chat_scroll as int,
            queue: views(self.message_queue@),
            modal: modal_view(self.modal),
            servers: server_views(self.mcp_servers@),
            tools: tool_views(self.mcp_tools@),
            clients: client_views(self.mcp_clients@),
            pending: pending_view(self.pending_tool_call),
        }
    }
}

/// What the surroundings are to do for the client.
pub enum Effect {
    Nothing,
    Quit,
    /// Hand the event back to the client.
    Emit(AsyncEvent),
    /// Send a chat request.
    SendChat(HttpRequest),
    /// Put a text on the clipboard.
    Copy(String),
    /// Send a request for the models.
    ListModels(HttpRequest),
    /// List the tools of a server.
    ListTools(McpClient),
    /// Send the request that calls a tool of the server at an index among the connected ones.
    CallTool(usize, HttpRequest, PendingToolCall),
}

/// What an `Effect` says.
pub enum EffectView {
    Nothing,
    Quit,
    Emit(EventView),
    SendChat(RequestView),
    Copy(Seq<char>),
    ListModels(RequestView),
    ListTools(McpClientView),
    CallTool(int, RequestView, PendingView),
}

impl View for Effect {
    type V = EffectView;

    open spec fn view(&self) -> EffectView {
        match self {
            Effect::Nothing => EffectView::Nothing,
            Effect::Quit => EffectView::Quit,
            Effect::Emit(e) => EffectView::Emit(e@),
            Effect::SendChat(r) => EffectView::SendChat(r@),
            Effect::Copy(s) => EffectView::Copy(s@),
            Effect::ListModels(r) => EffectView::ListModels(r@),
            Effect::ListTools(c) => EffectView::ListTools(c@),
            Effect::CallTool(i, r, p) => EffectView::CallTool(*i as int, r@, p@),
        }
    }
}

} // verus!

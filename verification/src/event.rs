//! What happens to the client from outside: replies of servers, and what they ask for.
use vstd::prelude::*;

use crate::json::Json;
#[allow(unused_imports)]
use crate::json::JsonView;
use crate::mcp::{McpClient, McpTool};
#[allow(unused_imports)]
use crate::mcp::{tool_views, McpClientView, ToolView};
#[allow(unused_imports)]
use crate::text::views;

verus! {

/// A call of a tool that a model asks for and the user has not yet decided on.
#[derive(Debug)]
pub struct PendingToolCall {
    pub id: String,
    pub tool_name: String,
    pub args: Json,
    pub server_name: String,
    pub args_display: String,
}

/// What a `PendingToolCall` says.
pub struct PendingView {
    pub id: Seq<char>,
    pub tool_name: Seq<char>,
    pub args: JsonView,
    pub server_name: Seq<char>,
    pub args_display: Seq<char>,
}

impl View for PendingToolCall {
    type V = PendingView;

    open spec fn view(&self) -> PendingView {
        PendingView {
            id: self.id@,
            tool_name: self.tool_name@,
            args: self.args@,
            server_name: self.server_name@,
            args_display: self.args_display@,
        }
    }
}

impl Clone for PendingToolCall {
    fn clone(&self) -> (r: Self)
        ensures
            r@ == self@,
    {
        PendingToolCall {
            id: self.id.clone(),
            tool_name: self.tool_name.clone(),
            args: self.args.clone(),
            server_name: self.server_name.clone(),
            args_display: self.args_display.clone(),
        }
    }
}

/// What happens to the client from outside.
#[derive(Debug)]
pub enum AsyncEvent {
    ListModels,
    ChatChunk(String),
    ChatError(String),
    ChatFinished,
    ModelsLoaded(Vec<String>),
    /// The tools of the server with this index are asked for.
    LoadMcpTools(usize),
    McpToolsLoaded(String, Vec<McpTool>),
    McpToolsError(String),
    McpToolsStartupLoaded(String, Vec<McpTool>, McpClient),
    ToolCallRequested(PendingToolCall),
    ToolCallResult { id: String, name: String, content: String },
}

/// What an `AsyncEvent` says.
pub enum EventView {
    ListModels,
    ChatChunk(Seq<char>),
    ChatError(Seq<char>),
    ChatFinished,
    ModelsLoaded(Seq<Seq<char>>),
    LoadMcpTools(usize),
    McpToolsLoaded(Seq<char>, Seq<ToolView>),
    McpToolsError(Seq<char>),
    McpToolsStartupLoaded(Seq<char>, Seq<ToolView>, McpClientView),
    ToolCallRequested(PendingView),
    ToolCallResult { id: Seq<char>, name: Seq<char>, content: Seq<char> },
}

impl View for AsyncEvent {
    type V = EventView;

    open spec fn view(&self) -> EventView {
        match self {
            AsyncEvent::ListModels => EventView::ListModels,
            AsyncEvent::ChatChunk(s) => EventView::ChatChunk(s@),
            AsyncEvent::ChatError(s) => EventView::ChatError(s@),
            AsyncEvent::ChatFinished => EventView::ChatFinished,
            AsyncEvent::ModelsLoaded(models) => EventView::ModelsLoaded(views(models@)),
            AsyncEvent::LoadMcpTools(i) => EventView::LoadMcpTools(*i),
            AsyncEvent::McpToolsLoaded(name, tools) => EventView::McpToolsLoaded(
                name@,
                tool_views(tools@),
            ),
            AsyncEvent::McpToolsError(s) => EventView::McpToolsError(s@),
            AsyncEvent::McpToolsStartupLoaded(name, tools, client) =>
                EventView::McpToolsStartupLoaded(name@, tool_views(tools@), client@),
            AsyncEvent::ToolCallRequested(p) => EventView::ToolCallRequested(p@),
            AsyncEvent::ToolCallResult { id, name, content } => EventView::ToolCallResult {
                id: id@,
                name: name@,
                content: content@,
            },
        }
    }
}

/// The views of a list of events.
pub open spec fn event_views(events: Seq<AsyncEvent>) -> Seq<EventView> {
    events.map_values(|e: AsyncEvent| e@)
}

} // verus!

//! What the client does with the keys of the user and with the events from outside.
use vstd::prelude::*;
use vstd::string::*;

use crate::app::{AppState, Effect, Modal};
#[allow(unused_imports)]
use crate::app::{client_views, message_views, AppView, EffectView, ModalView};
use crate::config::McpServerConfig;
#[allow(unused_imports)]
use crate::config::{server_views, ServerView};
use crate::event::{AsyncEvent, PendingToolCall};
#[allow(unused_imports)]
use crate::event::{EventView, PendingView};
use crate::http::HttpOutcome;
#[allow(unused_imports)]
use crate::http::{pair_views, OutcomeView, RequestView};
use crate::json::{entry, make_array, make_object, text_value, Json};
#[allow(unused_imports)]
use crate::json::{entry_views, item_views, object, JsonView};
use crate::json_text::to_text;
#[allow(unused_imports)]
use crate::json_text::printed;
use crate::mcp::{McpClient, McpTool};
#[allow(unused_imports)]
use crate::mcp::{
    call_request, outcome_value, text_result, tool_result, tool_views, tools_view, McpClientView,
    ToolView,
};
#[allow(unused_imports)]
use crate::client::names_view;
#[allow(unused_imports)]
use crate::steps::{tool_message, without_last};
use crate::text;

verus! {

/// A key.
#[derive(Debug, Clone, Copy, PartialEq, Eq, Structural)]
pub enum Key {
    Char(char),
    Enter,
    Backspace,
    Up,
    Down,
    PageUp,
    PageDown,
    Esc,
    Tab,
    Other,
}

/// What the user did to a key.
#[derive(Debug, Clone, Copy)]
pub struct KeyPress {
    pub key: Key,
    /// Whether the control key was held.
    pub control: bool,
    /// Whether the key went down, not up.
    pub pressed: bool,
}

impl KeyPress {
    /// The user asks to leave.
    pub open spec fn quits(self) -> bool {
        self.pressed && self.control && self.key == Key::Char('c')
    }
}

/// The first of the named clients with the given name.
pub open spec fn client_index(clients: Seq<(Seq<char>, McpClientView)>, name: Seq<char>) -> Option<
    int,
>
    decreases clients.len(),
{
    if clients.len() == 0 {
        None
    } else {
        match client_index(clients.drop_last(), name) {
            Some(i) => Some(i),
            None => if clients.last().0 == name {
                Some(clients.len() - 1)
            } else {
                None
            },
        }
    }
}

/// The server of the first tool with the given name.
pub open spec fn server_of(tools: Seq<ToolView>, name: Seq<char>) -> Option<Seq<char>>
    decreases tools.len(),
{
    if tools.len() == 0 {
        None
    } else {
        match server_of(tools.drop_last(), name) {
            Some(s) => Some(s),
            None => if tools.last().name == name {
                Some(tools.last().server_name)
            } else {
                None
            },
        }
    }
}

/// The message that keeps a call that the model asks for.
pub open spec fn call_message(p: PendingView) -> JsonView {
    object(
        seq![
            ("role"@, JsonView::Text("assistant"@)),
            (
                "tool_calls"@,
                JsonView::Array(
                    seq![
                        object(
                            seq![
                                ("id"@, JsonView::Text(p.id)),
                                ("type"@, JsonView::Text("function"@)),
                                (
                                    "function"@,
                                    object(
                                        seq![
                                            ("name"@, JsonView::Text(p.tool_name)),
                                            ("arguments"@, p.args),
                                        ],
                                    ),
                                ),
                            ],
                        ),
                    ],
                ),
            ),
        ],
    )
}

/// A tool with its server, as the user is asked about it.
pub open spec fn tool_label(p: PendingView) -> Seq<char> {
    p.tool_name + " ("@ + p.server_name + ")"@
}

/// A client for a server that the user has configured.
pub open spec fn client_for(server: ServerView) -> McpClientView {
    McpClientView {
        name: server.name,
        url: server.url,
        api_key: server.api_key,
        session_id: None,
    }
}

impl AppView {
    /// The request that makes a call to the server at an index among the connected ones.
    pub open spec fn tool_request(self, i: int, p: PendingView) -> RequestView {
        self.clients[i].1.call(call_request(p.tool_name, p.args))
    }

    /// The outcome of a call taken in by the server at an index among the connected ones.
    pub open spec fn tool_answered(self, i: int, outcome: OutcomeView) -> AppView {
        AppView {
            clients: self.clients.update(
                i,
                (self.clients[i].0, self.clients[i].1.after(outcome)),
            ),
            ..self
        }
    }

    /// The call that awaits the user allowed.
    pub open spec fn call_allowed(self) -> (AppView, EffectView) {
        match self.pending {
            Some(p) => (
                AppView { pending: None, modal: None, ..self },
                match client_index(self.clients, p.server_name) {
                    Some(i) => EffectView::CallTool(i, self.tool_request(i, p), p),
                    None => EffectView::Nothing,
                },
            ),
            None => (self, EffectView::Nothing),
        }
    }

    /// The call that awaits the user refused.
    pub open spec fn call_refused(self) -> AppView {
        (AppView { pending: None, modal: None, ..self }).said(
            "System"@,
            "Tool call cancelled by user."@,
            false,
        )
    }

    /// The enter key.
    pub open spec fn entered(self) -> (AppView, EffectView) {
        match self.modal {
            Some(ModalView::CommandList(..)) => self.modal_confirmed().0.sent(),
            Some(_) => {
                let (v, server) = self.modal_confirmed();
                (
                    v,
                    match server {
                        Some(i) => EffectView::Emit(EventView::LoadMcpTools(i as usize)),
                        None => EffectView::Nothing,
                    },
                )
            },
            None => self.sent(),
        }
    }

    /// A character typed: into the input, where nothing or the list of commands stands over it, and
    /// into a list that is searched.
    pub open spec fn typed(self, c: char) -> (AppView, EffectView) {
        match self.modal {
            Some(ModalView::ToolConfirm(..)) => if c == 'y' {
                self.call_allowed()
            } else if c == 'n' {
                (self.call_refused(), EffectView::Nothing)
            } else {
                (self, EffectView::Nothing)
            },
            Some(ModalView::CommandList(..)) => (
                (AppView { input: self.input.push(c), ..self }).modal_typed(c),
                EffectView::Nothing,
            ),
            Some(_) => (self.modal_typed(c), EffectView::Nothing),
            None => (
                (AppView { input: self.input.push(c), ..self }).command_modal_tried(),
                EffectView::Nothing,
            ),
        }
    }

    /// The last character typed taken back.
    pub open spec fn erased(self) -> AppView {
        let shorter = AppView { input: without_last(self.input), ..self };
        match self.modal {
            Some(ModalView::CommandList(..)) => shorter.modal_erased(),
            Some(_) => self.modal_erased(),
            None => shorter,
        }
    }

    /// A key that moves up: the selection of a list, or else the conversation.
    pub open spec fn moved_up(self) -> AppView {
        match self.modal {
            Some(ModalView::ToolConfirm(..)) | None => self.scrolled_up(),
            Some(_) => self.modal_moved_up(),
        }
    }

    /// A key that moves down: the selection of a list, or else the conversation.
    pub open spec fn moved_down(self) -> AppView {
        match self.modal {
            Some(ModalView::ToolConfirm(..)) | None => self.scrolled_down(),
            Some(ModalView::CommandList(commands, _, _)) => self.modal_moved_down(
                commands.len() as int,
            ),
            Some(_) => self.modal_moved_down(0),
        }
    }

    /// What a key does.
    pub open spec fn after_key(self, press: KeyPress) -> (AppView, EffectView) {
        if !press.pressed {
            (self, EffectView::Nothing)
        } else if press.quits() {
            (self, EffectView::Quit)
        } else {
            match press.key {
                Key::Enter => self.entered(),
                Key::Char(c) => self.typed(c),
                Key::Backspace => (self.erased(), EffectView::Nothing),
                Key::Up => (self.moved_up(), EffectView::Nothing),
                Key::Down => (self.moved_down(), EffectView::Nothing),
                Key::PageUp => (self.prev_thread(), EffectView::Nothing),
                Key::PageDown => (self.next_thread(), EffectView::Nothing),
                Key::Esc => (AppView { modal: None, ..self }, EffectView::Nothing),
                Key::Tab => (
                    if self.modal matches Some(ModalView::CommandList(..)) {
                        self.modal_confirmed().0
                    } else {
                        self.autocompleted()
                    },
                    EffectView::Nothing,
                ),
                Key::Other => (self, EffectView::Nothing),
            }
        }
    }

    /// A piece of the answer added. A notice that stands last gives way to it; it starts an answer
    /// behind a message of the user, and goes on with an answer that has begun.
    pub open spec fn chunk_added(self, text: Seq<char>) -> AppView {
        let all = self.messages();
        let kept = if all.len() > 0 && all.last().0 == "System"@ {
            all.drop_last()
        } else {
            all
        };
        self.with_messages(
            if kept.len() > 0 && kept.last().0 == "User"@ {
                kept.push(("Assistant"@, text, false))
            } else if kept.len() > 0 && kept.last().0 == "Assistant"@ && !kept.last().2 {
                kept.drop_last().push(("Assistant"@, kept.last().1 + text, false))
            } else {
                kept
            },
        )
    }

    /// A call with its server, which is that of the tool, where the tool is known.
    pub open spec fn call_placed(self, asked: PendingView) -> PendingView {
        match server_of(self.tools, asked.tool_name) {
            Some(s) => PendingView { server_name: s, ..asked },
            None => asked,
        }
    }

    /// A call put to the user, and kept in the conversation as the given text.
    pub open spec fn call_put(self, p: PendingView, text: Seq<char>) -> AppView {
        AppView {
            pending: Some(p),
            modal: Some(ModalView::ToolConfirm(tool_label(p), p.args_display)),
            ..self.said("AssistantToolCall"@, text, false)
        }
    }

    /// A call of a tool put to the user with its server.
    pub open spec fn call_requested(self, asked: PendingView) -> AppView {
        let p = self.call_placed(asked);
        self.call_put(p, printed(call_message(p)))
    }

    /// What an event does.
    pub open spec fn after_event(self, event: EventView) -> (AppView, EffectView) {
        match event {
            EventView::ChatChunk(text) => (self.chunk_added(text), EffectView::Nothing),
            EventView::ChatError(text) => (
                self.said("Error"@, text, true),
                EffectView::Nothing,
            ),
            EventView::ChatFinished => (AppView { is_loading: false, ..self }).next_sent(),
            EventView::ListModels => (
                self,
                EffectView::ListModels(self.client.models_request()),
            ),
            EventView::ModelsLoaded(models) => (self.models_shown(models), EffectView::Nothing),
            EventView::LoadMcpTools(i) => (
                self,
                if i < self.servers.len() {
                    EffectView::ListTools(client_for(self.servers[i as int]))
                } else {
                    EffectView::Nothing
                },
            ),
            EventView::McpToolsLoaded(name, tools) => (
                AppView { modal: Some(ModalView::McpTools(name, tools, 0)), ..self },
                EffectView::Nothing,
            ),
            EventView::McpToolsError(error) => (
                (AppView { modal: None, ..self }).said("System"@, "MCP Error: "@ + error, true),
                EffectView::Nothing,
            ),
            EventView::McpToolsStartupLoaded(name, tools, client) => (
                AppView {
                    clients: self.clients.push((name, client)),
                    tools: self.tools + tools,
                    ..self
                },
                EffectView::Nothing,
            ),
            EventView::ToolCallRequested(p) => (self.call_requested(p), EffectView::Nothing),
            EventView::ToolCallResult { id, name, content } => self.said(
                "Tool"@,
                tool_message(id, name, content),
                false,
            ).reprompted(),
        }
    }
}

/// Whether the screen is out of date after a key, given whether it was before.
pub open spec fn stale_after_key(press: KeyPress, stale: bool) -> bool {
    stale || (press.pressed && !press.quits() && press.key != Key::Other)
}

/// Whether the screen is out of date after an event, given whether it was before.
pub open spec fn stale_after_event(event: EventView, stale: bool) -> bool {
    match event {
        EventView::ListModels => stale,
        EventView::LoadMcpTools(_) => stale,
        EventView::McpToolsStartupLoaded(..) => false,
        _ => true,
    }
}

/// The message that keeps a call that the model asks for.
fn call_message_json(p: &PendingToolCall) -> (r: Json)
    ensures
        r@ == call_message(p@),
{
    let function = vec![
        entry("name", text_value(p.tool_name.as_str())),
        entry("arguments", p.args.clone()),
    ];
    assert(entry_views(function@) =~= seq![
        ("name"@, JsonView::Text(p@.tool_name)),
        ("arguments"@, p@.args),
    ]);
    let function = make_object(function);
    let call = vec![
        entry("id", text_value(p.id.as_str())),
        entry("type", text_value("function")),
        entry("function", function),
    ];
    assert(entry_views(call@) =~= seq![
        ("id"@, JsonView::Text(p@.id)),
        ("type"@, JsonView::Text("function"@)),
        ("function"@, function@),
    ]);
    let call = make_object(call);
    let calls = vec![call];
    assert(item_views(calls@) =~= seq![call@]);
    let calls = make_array(calls);
    let message = vec![entry("role", text_value("assistant")), entry("tool_calls", calls)];
    assert(entry_views(message@) =~= seq![
        ("role"@, JsonView::Text("assistant"@)),
        ("tool_calls"@, calls@),
    ]);
    make_object(message)
}

/// The first named client stands where none before it has the name.
proof fn lemma_client_index(clients: Seq<(Seq<char>, McpClientView)>, name: Seq<char>, n: int)
    requires
        0 <= n <= clients.len(),
        forall|j: int| 0 <= j < n ==> (#[trigger] clients[j]).0 != name,
    ensures
        n == clients.len() ==> client_index(clients, name) is None,
        n < clients.len() && clients[n].0 == name ==> client_index(clients, name) == Some(n),
    decreases clients.len(),
{
    if clients.len() > 0 {
        let front = clients.drop_last();
        let m = if n < clients.len() {
            n
        } else {
            n - 1
        };
        assert forall|j: int| 0 <= j < m implies (#[trigger] front[j]).0 != name by {
            assert(front[j] == clients[j]);
        }
        lemma_client_index(front, name, m);
        if n == clients.len() {
            assert(clients[n - 1].0 != name);
        }
    }
}

/// The server of a tool is that of the first tool with its name.
proof fn lemma_server_of(tools: Seq<ToolView>, name: Seq<char>, n: int)
    requires
        0 <= n <= tools.len(),
        forall|j: int| 0 <= j < n ==> (#[trigger] tools[j]).name != name,
    ensures
        n == tools.len() ==> server_of(tools, name) is None,
        n < tools.len() && tools[n].name == name ==> server_of(tools, name) == Some(
            tools[n].server_name,
        ),
    decreases tools.len(),
{
    if tools.len() > 0 {
        let front = tools.drop_last();
        let m = if n < tools.len() {
            n
        } else {
            n - 1
        };
        assert forall|j: int| 0 <= j < m implies (#[trigger] front[j]).name != name by {
            assert(front[j] == tools[j]);
        }
        lemma_server_of(front, name, m);
        if n == tools.len() {
            assert(tools[n - 1].name != name);
        }
    }
}

/// The first of the named clients with the given name.
fn find_client(clients: &Vec<(String, McpClient)>, name: &str) -> (r: Option<usize>)
    ensures
        match r {
            Some(i) => i < clients@.len() && client_index(client_views(clients@), name@) == Some(
                i as int,
            ),
            None => client_index(client_views(clients@), name@) is None,
        },
{
    let ghost all = client_views(clients@);
    let mut i: usize = 0;
    while i < clients.len()
        invariant
            i <= clients@.len(),
            all == client_views(clients@),
            forall|j: int| 0 <= j < i ==> (#[trigger] all[j]).0 != name@,
        decreases clients@.len() - i,
    {
        assert(all[i as int].0 == clients@[i as int].0@);
        if text::same(clients[i].0.as_str(), name) {
            proof {
                lemma_client_index(all, name@, i as int);
            }
            return Some(i);
        }
        i += 1;
    }
    proof {
        lemma_client_index(all, name@, i as int);
    }
    None
}

/// The server of the first tool with the given name.
fn find_server(tools: &Vec<McpTool>, name: &str) -> (r: Option<String>)
    ensures
        r.deep_view() == server_of(tool_views(tools@), name@),
{
    let ghost all = tool_views(tools@);
    let mut i: usize = 0;
    while i < tools.len()
        invariant
            i <= tools@.len(),
            all == tool_views(tools@),
            forall|j: int| 0 <= j < i ==> (#[trigger] all[j]).name != name@,
        decreases tools@.len() - i,
    {
        assert(all[i as int] == tools@[i as int]@);
        if text::same(tools[i].name.as_str(), name) {
            proof {
                lemma_server_of(all, name@, i as int);
            }
            return Some(tools[i].server_name.clone());
        }
        i += 1;
    }
    proof {
        lemma_server_of(all, name@, i as int);
    }
    None
}

/// A client for a server that the user has configured.
fn new_client(server: &McpServerConfig) -> (r: McpClient)
    ensures
        r@ == client_for(server@),
{
    let server = server.clone();
    McpClient::new(server.name, server.url, server.api_key)
}

impl AppState {
    /// Clients for all the servers that the user has configured, whose tools are listed at the
    /// start.
    pub fn startup_clients(&self) -> (r: Vec<McpClient>)
        ensures
            r@.map_values(|c: McpClient| c@) == self@.servers.map_values(
                |s: ServerView| client_for(s),
            ),
    {
        let ghost wanted = self@.servers.map_values(|s: ServerView| client_for(s));
        let mut out: Vec<McpClient> = Vec::new();
        let mut i: usize = 0;
        assert(out@.map_values(|c: McpClient| c@) =~= wanted.take(0));
        while i < self.mcp_servers.len()
            invariant
                i <= self.mcp_servers@.len(),
                wanted == server_views(self.mcp_servers@).map_values(
                    |s: ServerView| client_for(s),
                ),
                out@.map_values(|c: McpClient| c@) == wanted.take(i as int),
            decreases self.mcp_servers@.len() - i,
        {
            let ghost had = out@.map_values(|c: McpClient| c@);
            let client = new_client(&self.mcp_servers[i]);
            out.push(client);
            assert(out@.map_values(|c: McpClient| c@) =~= had.push(client@));
            assert(wanted.take(i + 1) =~= wanted.take(i as int).push(client@));
            i += 1;
        }
        assert(wanted.take(i as int) =~= wanted);
        out
    }

    /// Allows the call that awaits the user.
    pub fn allow_call(&mut self) -> (r: Effect)
        ensures
            (final(self)@, r@) == old(self)@.call_allowed(),
    {
        match self.pending_tool_call.take() {
            Some(pending) => {
                self.modal = None;
                match find_client(&self.mcp_clients, pending.server_name.as_str()) {
                    Some(i) => {
                        assert(client_views(self.mcp_clients@)[i as int].1
                            == self.mcp_clients@[i as int].1@);
                        let client = &self.mcp_clients[i].1;
                        let request = client.call_tool(pending.tool_name.as_str(), &pending.args);
                        Effect::CallTool(i, request, pending)
                    },
                    None => Effect::Nothing,
                }
            },
            None => Effect::Nothing,
        }
    }

    /// Takes in what became of a call of a tool, and says what happened. The server at `index` among
    /// the connected ones keeps the session that the outcome names.
    pub fn tool_called(
        &mut self,
        index: usize,
        call: PendingToolCall,
        outcome: HttpOutcome,
    ) -> (r: AsyncEvent)
        requires
            index < old(self)@.clients.len(),
        ensures
            final(self)@ == old(self)@.tool_answered(index as int, outcome@),
            r@ == (match tool_result(outcome_value(outcome@)) {
                Ok(content) => EventView::ToolCallResult {
                    id: call@.id,
                    name: call@.tool_name,
                    content,
                },
                Err(e) => EventView::ChatError("Tool call failed: "@ + e),
            }),
    {
        let ghost before = self@;
        assert(before.clients.len() == self.mcp_clients@.len());
        let result = self.mcp_clients[index].1.tool_called(outcome);
        assert(self@.clients =~= before.tool_answered(index as int, outcome@).clients);
        call_event(call, result)
    }

    /// Refuses the call that awaits the user.
    pub fn refuse_call(&mut self)
        requires
            old(self)@.has_thread(),
        ensures
            final(self)@ == old(self)@.call_refused(),
    {
        self.modal = None;
        self.pending_tool_call = None;
        self.say("System", "Tool call cancelled by user.".to_string(), false);
    }

    /// The enter key.
    fn enter(&mut self) -> (r: Effect)
        requires
            old(self)@.has_thread(),
        ensures
            (final(self)@, r@) == old(self)@.entered(),
    {
        if let Some(Modal::CommandList(_, _, _)) = &self.modal {
            let _server = self.modal_confirm();
            self.send_message()
        } else if self.modal.is_some() {
            match self.modal_confirm() {
                Some(i) => Effect::Emit(AsyncEvent::LoadMcpTools(i)),
                None => Effect::Nothing,
            }
        } else {
            self.send_message()
        }
    }

    /// Types a character.
    fn type_char(&mut self, c: char) -> (r: Effect)
        requires
            old(self)@.has_thread(),
        ensures
            (final(self)@, r@) == old(self)@.typed(c),
    {
        if let Some(Modal::ToolConfirm(_, _)) = &self.modal {
            if c == 'y' {
                self.allow_call()
            } else if c == 'n' {
                self.refuse_call();
                Effect::Nothing
            } else {
                Effect::Nothing
            }
        } else if let Some(Modal::CommandList(_, _, _)) = &self.modal {
            self.input.push(c);
            self.modal_input(c);
            Effect::Nothing
        } else if self.modal.is_some() {
            self.modal_input(c);
            Effect::Nothing
        } else {
            self.input.push(c);
            self.try_open_command_modal();
            Effect::Nothing
        }
    }

    /// Takes back the last character typed.
    fn erase(&mut self)
        ensures
            final(self)@ == old(self)@.erased(),
    {
        if let Some(Modal::CommandList(_, _, _)) = &self.modal {
            let _last = self.input.pop();
            self.modal_backspace();
        } else if self.modal.is_some() {
            self.modal_backspace();
        } else {
            let _last = self.input.pop();
        }
    }

    /// Moves the selection of a list, or else the conversation, down.
    fn move_down(&mut self)
        ensures
            final(self)@ == old(self)@.moved_down(),
    {
        match &self.modal {
            Some(Modal::CommandList(commands, _, _)) => {
                let max = commands.len();
                assert(pair_views(commands@).len() == commands@.len());
                self.modal_select_down(max);
            },
            Some(Modal::ToolConfirm(_, _)) | None => {
                self.scroll_down();
            },
            _ => {
                self.modal_select_down(0);
            },
        }
    }

    /// Moves the selection of a list, or else the conversation, up.
    fn move_up(&mut self)
        ensures
            final(self)@ == old(self)@.moved_up(),
    {
        match &self.modal {
            Some(Modal::ToolConfirm(_, _)) | None => {
                self.scroll_up();
            },
            _ => {
                self.modal_select_up();
            },
        }
    }

    /// Takes a key, and says what is to be done and whether the screen is out of date.
    pub fn handle_key(&mut self, press: KeyPress, stale: bool) -> (r: (Effect, bool))
        requires
            old(self)@.has_thread(),
        ensures
            (final(self)@, r.0@) == old(self)@.after_key(press),
            r.1 == stale_after_key(press, stale),
    {
        if !press.pressed {
            return (Effect::Nothing, stale);
        }
        match press.key {
            Key::Char(c) => if c == 'c' && press.control {
                (Effect::Quit, stale)
            } else {
                (self.type_char(c), true)
            },
            Key::Enter => (self.enter(), true),
            Key::Backspace => {
                self.erase();
                (Effect::Nothing, true)
            },
            Key::Up => {
                self.move_up();
                (Effect::Nothing, true)
            },
            Key::Down => {
                self.move_down();
                (Effect::Nothing, true)
            },
            Key::PageUp => {
                self.prev_thread();
                (Effect::Nothing, true)
            },
            Key::PageDown => {
                self.next_thread();
                (Effect::Nothing, true)
            },
            Key::Esc => {
                self.modal = None;
                (Effect::Nothing, true)
            },
            Key::Tab => {
                if let Some(Modal::CommandList(_, _, _)) = &self.modal {
                    let _server = self.modal_confirm();
                } else {
                    self.accept_autocomplete();
                }
                (Effect::Nothing, true)
            },
            Key::Other => (Effect::Nothing, stale),
        }
    }

    /// Adds a piece of the answer.
    pub fn add_chunk(&mut self, text: &str)
        requires
            old(self)@.has_thread(),
        ensures
            final(self)@ == old(self)@.chunk_added(text@),
    {
        let ghost before = *self;
        let ghost i = self.current_thread_idx as int;
        let thread = self.current_thread();
        let ghost all = message_views(thread.messages@);
        let n = thread.messages.len();
        if n > 0 && text::same(thread.messages[n - 1].0.as_str(), "System") {
            let _notice = thread.messages.pop();
        }
        let ghost kept = message_views(thread.messages@);
        proof {
            if n > 0 {
                assert(all.last() == (
                    before.threads@[i].messages@[n - 1].0@,
                    before.threads@[i].messages@[n - 1].1@,
                    before.threads@[i].messages@[n - 1].2,
                ));
            }
            if n > 0 && all.last().0 == "System"@ {
                assert(kept =~= all.drop_last());
            }
        }
        let m = thread.messages.len();
        if m > 0 {
            assert(kept.last() == (
                thread.messages@[m - 1].0@,
                thread.messages@[m - 1].1@,
                thread.messages@[m - 1].2,
            ));
            if text::same(thread.messages[m - 1].0.as_str(), "User") {
                thread.messages.push(("Assistant".to_string(), text.to_string(), false));
                assert(message_views(thread.messages@) =~= kept.push(
                    ("Assistant"@, text@, false),
                ));
            } else if text::same(thread.messages[m - 1].0.as_str(), "Assistant")
                && !thread.messages[m - 1].2 {
                thread.messages[m - 1].1.append(text);
                assert(message_views(thread.messages@) =~= kept.drop_last().push(
                    ("Assistant"@, kept.last().1 + text@, false),
                ));
            }
        }
        assert(self@.threads =~= before@.chunk_added(text@).threads);
    }

    /// Puts a call of a tool to the user.
    pub fn request_call(&mut self, asked: PendingToolCall)
        requires
            old(self)@.has_thread(),
        ensures
            final(self)@ == old(self)@.call_requested(asked@),
    {
        let mut pending = asked;
        if let Some(server) = find_server(&self.mcp_tools, pending.tool_name.as_str()) {
            pending.server_name = server;
        }
        let text = to_text(&call_message_json(&pending));
        self.put_call(pending, text);
    }

    /// Puts a call to the user, and keeps it in the conversation as the given text.
    pub fn put_call(&mut self, pending: PendingToolCall, text: String)
        requires
            old(self)@.has_thread(),
        ensures
            final(self)@ == old(self)@.call_put(pending@, text@),
    {
        self.say("AssistantToolCall", text, false);
        let mut label = pending.tool_name.clone();
        label.append(" (");
        label.append(pending.server_name.as_str());
        label.append(")");
        self.modal = Some(Modal::ToolConfirm(label, pending.args_display.clone()));
        self.pending_tool_call = Some(pending);
    }

    /// Takes an event, and says what is to be done and whether the screen is out of date.
    pub fn handle_event(&mut self, event: AsyncEvent, stale: bool) -> (r: (Effect, bool))
        requires
            old(self)@.has_thread(),
        ensures
            (final(self)@, r.0@) == old(self)@.after_event(event@),
            r.1 == stale_after_event(event@, stale),
    {
        match event {
            AsyncEvent::ChatChunk(text) => {
                self.add_chunk(text.as_str());
                (Effect::Nothing, true)
            },
            AsyncEvent::ChatError(text) => {
                self.say("Error", text, true);
                (Effect::Nothing, true)
            },
            AsyncEvent::ChatFinished => {
                self.is_loading = false;
                (self.send_next_queued_message(), true)
            },
            AsyncEvent::ListModels => (Effect::ListModels(self.client.list_models()), stale),
            AsyncEvent::ModelsLoaded(models) => {
                self.open_models_modal(models);
                (Effect::Nothing, true)
            },
            AsyncEvent::LoadMcpTools(i) => {
                assert(self@.servers.len() == self.mcp_servers@.len());
                if i < self.mcp_servers.len() {
                    (Effect::ListTools(new_client(&self.mcp_servers[i])), stale)
                } else {
                    (Effect::Nothing, stale)
                }
            },
            AsyncEvent::McpToolsLoaded(name, tools) => {
                self.modal = Some(Modal::McpTools(name, tools, 0));
                (Effect::Nothing, true)
            },
            AsyncEvent::McpToolsError(error) => {
                self.modal = None;
                let mut notice = "MCP Error: ".to_string();
                notice.append(error.as_str());
                self.say("System", notice, true);
                (Effect::Nothing, true)
            },
            AsyncEvent::McpToolsStartupLoaded(name, tools, client) => {
                let ghost before = self@;
                let ghost added = tools@;
                let mut tools = tools;
                self.mcp_clients.push((name, client));
                self.mcp_tools.append(&mut tools);
                proof {
                    assert(self@.clients =~= before.clients.push((name@, client@)));
                    assert(self@.tools =~= before.tools + tool_views(added));
                }
                (Effect::Nothing, false)
            },
            AsyncEvent::ToolCallRequested(pending) => {
                self.request_call(pending);
                (Effect::Nothing, true)
            },
            AsyncEvent::ToolCallResult { id, name, content } => {
                let mut message = id.clone();
                message.append("||");
                message.append(name.as_str());
                message.append("||");
                message.append(content.as_str());
                self.say("Tool", message, false);
                (self.re_prompt_for_tool_call(), true)
            },
        }
    }
}

/// The event for the tools of a server that were listed at the start.
pub fn startup_event(client: McpClient, tools: Result<Vec<McpTool>, String>) -> (r: AsyncEvent)
    ensures
        r@ == (match tools_view(tools) {
            Ok(t) => EventView::McpToolsStartupLoaded(client@.name, t, client@),
            Err(e) => EventView::ChatError(
                "Failed to load MCP tools from "@ + client@.name + ": "@ + e,
            ),
        }),
{
    match tools {
        Ok(tools) => AsyncEvent::McpToolsStartupLoaded(client.name.clone(), tools, client),
        Err(e) => {
            let mut s = "Failed to load MCP tools from ".to_string();
            s.append(client.name.as_str());
            s.append(": ");
            s.append(e.as_str());
            AsyncEvent::ChatError(s)
        },
    }
}

/// The event for the tools of a server that the user has asked for.
pub fn tools_event(client: McpClient, tools: Result<Vec<McpTool>, String>) -> (r: AsyncEvent)
    ensures
        r@ == (match tools_view(tools) {
            Ok(t) => EventView::McpToolsLoaded(client@.name, t),
            Err(e) => EventView::McpToolsError("Failed to load tools: "@ + e),
        }),
{
    match tools {
        Ok(tools) => AsyncEvent::McpToolsLoaded(client.name, tools),
        Err(e) => {
            let mut s = "Failed to load tools: ".to_string();
            s.append(e.as_str());
            AsyncEvent::McpToolsError(s)
        },
    }
}

/// The event for the models of the server.
pub fn models_event(models: Result<Vec<String>, String>) -> (r: AsyncEvent)
    ensures
        r@ == (match names_view(models) {
            Ok(m) => EventView::ModelsLoaded(m),
            Err(e) => EventView::ChatError("Failed to load models: "@ + e),
        }),
{
    match models {
        Ok(models) => AsyncEvent::ModelsLoaded(models),
        Err(e) => {
            let mut s = "Failed to load models: ".to_string();
            s.append(e.as_str());
            AsyncEvent::ChatError(s)
        },
    }
}

/// The event for a call of a tool.
pub fn call_event(call: PendingToolCall, result: Result<String, String>) -> (r: AsyncEvent)
    ensures
        r@ == (match text_result(result) {
            Ok(content) => EventView::ToolCallResult {
                id: call@.id,
                name: call@.tool_name,
                content,
            },
            Err(e) => EventView::ChatError("Tool call failed: "@ + e),
        }),
{
    match result {
        Ok(content) => AsyncEvent::ToolCallResult { id: call.id, name: call.tool_name, content },
        Err(e) => {
            let mut s = "Tool call failed: ".to_string();
            s.append(e.as_str());
            AsyncEvent::ChatError(s)
        },
    }
}

} // verus!

//! What the user does to the state of the client.
use vstd::prelude::*;
use vstd::string::*;

use crate::app::{AppState, Effect, ListState, Modal, Thread};
#[allow(unused_imports)]
use crate::app::{message_views, AppView, MessageView, ThreadView};
use crate::client::ChatClient;
use crate::commands::{
    available_commands, get_autocomplete_suggestion, get_matching_commands, searched_models,
};
#[allow(unused_imports)]
use crate::commands::{commands, suggestion};
use crate::config::{Config, McpServerConfig};
#[allow(unused_imports)]
use crate::config::server_views;
use crate::event::AsyncEvent;
#[allow(unused_imports)]
use crate::http::pair_views;
use crate::json::{entry, make_object, text_value, Json};
#[allow(unused_imports)]
use crate::json::{entry_views, item_views, JsonView};
use crate::mcp::McpTool;
#[allow(unused_imports)]
use crate::mcp::tool_views;
use crate::naming::extract_api_name;
use crate::steps::Copied;
#[allow(unused_imports)]
use crate::steps::{
    copied_text, help_line, help_text, sent_history, sent_message, server_names, tool_content, tool_value, tool_values,
};
use crate::text;
#[allow(unused_imports)]
use crate::text::views;

verus! {

impl AppState {
    /// The state at the start.
    pub fn new(
        url: String,
        model: String,
        api_key: Option<String>,
        mcp_servers: Vec<McpServerConfig>,
    ) -> (r: Self)
        ensures
            r@ == AppView::initial(
                url@,
                model@,
                api_key.deep_view(),
                server_views(mcp_servers@),
            ),
    {
        let mut thread_state = ListState::new();
        thread_state.select(Some(0));
        let api_name = extract_api_name(url.as_str());
        let client = ChatClient::new(url, model.clone(), api_key);
        let messages: Vec<(String, String, bool)> = Vec::new();
        let threads = vec![Thread { name: "Default Chat".to_string(), messages }];
        let message_queue: Vec<String> = Vec::new();
        let mcp_tools: Vec<McpTool> = Vec::new();
        let r = AppState {
            input: String::new(),
            threads,
            current_thread_idx: 0,
            client,
            model,
            api_name,
            is_loading: false,
            is_connected: true,
            thread_state,
            chat_scroll: 0,
            message_queue,
            modal: None,
            mcp_servers,
            mcp_tools,
            mcp_clients: Vec::new(),
            pending_tool_call: None,
        };
        proof {
            assert(message_views(messages@) =~= Seq::empty());
            assert(r@.threads =~= seq![
                ThreadView { name: "Default Chat"@, messages: Seq::empty() },
            ]);
            assert(r@.queue =~= Seq::empty());
            assert(r@.tools =~= Seq::empty());
            assert(r@.clients =~= Seq::empty());
        }
        r
    }

    /// The current thread.
    pub fn current_thread(&mut self) -> (r: &mut Thread)
        requires
            old(self)@.has_thread(),
        ensures
            *r == old(self).threads@[old(self).current_thread_idx as int],
            final(self).threads@ == old(self).threads@.update(
                old(self).current_thread_idx as int,
                *final(r),
            ),
            *final(self) == (AppState { threads: final(self).threads, ..*old(self) }),
    {
        &mut self.threads[self.current_thread_idx]
    }

    /// Adds a message to the current thread.
    pub fn say(&mut self, role: &str, content: String, is_error: bool)
        requires
            old(self)@.has_thread(),
        ensures
            final(self)@ == old(self)@.said(role@, content@, is_error),
    {
        let ghost before = *self;
        let ghost message = (role@, content@, is_error);
        let thread = self.current_thread();
        let ghost had = thread@;
        thread.messages.push((role.to_string(), content, is_error));
        proof {
            let i = before.current_thread_idx as int;
            assert(message_views(self.threads@[i].messages@) =~= had.messages.push(message));
            assert(self@.threads =~= before@.said(role@, message.1, is_error).threads);
        }
    }

    /// The state at the start, for what is configured and what is given on the command line.
    pub fn launch(url: Option<String>, model: Option<String>, config: Config) -> (r: Self)
        ensures
            r@ == AppView::initial(
                match url {
                    Some(u) => u@,
                    None => config@.api_url,
                },
                match model {
                    Some(m) => m@,
                    None => config@.default_model,
                },
                config@.api_key,
                config@.mcp_servers,
            ),
    {
        let url = match url {
            Some(u) => u,
            None => config.api_url,
        };
        let model = match model {
            Some(m) => m,
            None => config.default_model,
        };
        AppState::new(url, model, config.api_key, config.mcp_servers)
    }

    /// Shows the commands, where the input starts one and holds no space.
    pub fn try_open_command_modal(&mut self)
        ensures
            final(self)@ == old(self)@.command_modal_tried(),
    {
        if text::starts_with_char(self.input.as_str(), '/') {
            let commands = get_matching_commands(self.input.as_str());
            assert(pair_views(commands@).len() == commands@.len());
            if !commands.is_empty() && !text::contains_char(self.input.as_str(), ' ') {
                self.modal = Some(Modal::CommandList(commands, 0, self.input.clone()));
            }
        }
    }

    /// Hides the commands.
    pub fn close_command_modal(&mut self)
        ensures
            final(self)@ == old(self)@.command_modal_closed(),
    {
        if let Some(Modal::CommandList(_, _, _)) = &self.modal {
            self.modal = None;
        }
    }

    /// The command that the input can only mean.
    pub fn get_autocomplete_suggestion(&self) -> (r: Option<String>)
        ensures
            r.deep_view() == suggestion(self@.input),
    {
        get_autocomplete_suggestion(self.input.as_str())
    }

    /// Completes the input, where it can only mean one command.
    pub fn accept_autocomplete(&mut self)
        ensures
            final(self)@ == old(self)@.autocompleted(),
    {
        if let Some(suggestion) = self.get_autocomplete_suggestion() {
            self.input = suggestion;
            self.close_command_modal();
        }
    }

    /// Asks the server to answer the conversation.
    fn ask(&mut self) -> (r: Effect)
        requires
            old(self)@.has_thread(),
        ensures
            (final(self)@, r@) == old(self)@.asked(),
    {
        self.is_loading = true;
        let mut notice = self.model.clone();
        notice.append(" is thinking...");
        self.say("System", notice, false);
        assert(self@.threads.len() == self.threads@.len());
        let history = history_of(&self.threads[self.current_thread_idx].messages);
        let tools = tools_json(&self.mcp_tools);
        Effect::SendChat(self.client.send_chat_message(&history, tools))
    }

    /// Sends the input: as a command, as a message to wait, or as a message.
    pub fn send_message(&mut self) -> (r: Effect)
        requires
            old(self)@.has_thread(),
        ensures
            (final(self)@, r@) == old(self)@.sent(),
    {
        let line = text::trim(self.input.as_str());
        if line.as_str().is_empty() {
            return Effect::Nothing;
        }
        self.close_command_modal();
        if text::starts_with_char(line.as_str(), '/') {
            let effect = self.handle_command(line.as_str());
            self.input = String::new();
            return effect;
        }
        if self.is_loading {
            let ghost before = self@;
            let message = self.input.clone();
            self.message_queue.push(message);
            self.input = String::new();
            assert(self@.queue =~= before.queue.push(message@));
            return Effect::Nothing;
        }
        let message = self.input.clone();
        self.say("User", message, false);
        self.input = String::new();
        self.ask()
    }

    /// Sends the first message that waits.
    pub fn send_next_queued_message(&mut self) -> (r: Effect)
        requires
            old(self)@.has_thread(),
        ensures
            (final(self)@, r@) == old(self)@.next_sent(),
    {
        let ghost before = self@;
        if !self.message_queue.is_empty() {
            let message = self.message_queue.remove(0);
            self.input = message;
            proof {
                assert(message@ == before.queue[0]);
                assert(self@.queue =~= before.queue.drop_first());
            }
            self.send_message()
        } else {
            Effect::Nothing
        }
    }

    /// Asks the server once more, unless it is answering.
    pub fn re_prompt_for_tool_call(&mut self) -> (r: Effect)
        requires
            old(self)@.has_thread(),
        ensures
            (final(self)@, r@) == old(self)@.reprompted(),
    {
        if self.is_loading {
            return Effect::Nothing;
        }
        self.ask()
    }

    /// Carries out a command.
    pub fn handle_command(&mut self, line: &str) -> (r: Effect)
        requires
            old(self)@.has_thread(),
        ensures
            (final(self)@, r@) == old(self)@.commanded(line@),
    {
        let (command, arg) = match text::split_once(line, " ") {
            Some((c, a)) => (c, a),
            None => (line.to_string(), String::new()),
        };
        if text::same(command.as_str(), "/new") {
            self.create_thread(arg);
            let name = self.threads[self.current_thread_idx].name.clone();
            let mut notice = "Created thread: ".to_string();
            notice.append(name.as_str());
            self.say("System", notice, false);
            Effect::Nothing
        } else if text::same(command.as_str(), "/model") {
            Effect::Emit(AsyncEvent::ListModels)
        } else if text::same(command.as_str(), "/mcp") {
            let servers = names_of_servers(&self.mcp_servers);
            assert(server_names(self@.servers).len() == self@.servers.len());
            assert(pair_views(servers@).len() == servers@.len());
            if servers.is_empty() {
                self.say("System", "No MCP servers configured.".to_string(), false);
            } else {
                self.modal = Some(Modal::McpServers(servers, 0));
            }
            Effect::Nothing
        } else if text::same(command.as_str(), "/copy") {
            self.copy_last_message()
        } else if text::same(command.as_str(), "/help") {
            self.say("System", help(), false);
            Effect::Nothing
        } else {
            let mut notice = "Unknown command: ".to_string();
            notice.append(command.as_str());
            self.say("System", notice, false);
            Effect::Nothing
        }
    }

    /// Types a character into the modal.
    pub fn modal_input(&mut self, c: char)
        ensures
            final(self)@ == old(self)@.modal_typed(c),
    {
        match &mut self.modal {
            Some(Modal::SelectModel(_, idx, search)) => {
                search.push(c);
                *idx = 0;
            },
            Some(Modal::CommandList(_, _, partial)) => {
                partial.push(c);
                let partial = partial.clone();
                let commands = get_matching_commands(partial.as_str());
                assert(pair_views(commands@).len() == commands@.len());
                if commands.is_empty() {
                    self.modal = None;
                } else {
                    self.modal = Some(Modal::CommandList(commands, 0, partial));
                }
            },
            _ => {},
        }
    }

    /// Takes back the last character typed into the modal.
    pub fn modal_backspace(&mut self)
        ensures
            final(self)@ == old(self)@.modal_erased(),
    {
        match &mut self.modal {
            Some(Modal::SelectModel(_, idx, search)) => {
                let _last = search.pop();
                *idx = 0;
            },
            Some(Modal::CommandList(_, _, partial)) => {
                let _last = partial.pop();
                let partial = partial.clone();
                let commands = get_matching_commands(partial.as_str());
                assert(pair_views(commands@).len() == commands@.len());
                if commands.is_empty() {
                    self.modal = None;
                } else {
                    self.modal = Some(Modal::CommandList(commands, 0, partial));
                }
            },
            _ => {},
        }
    }

    /// Moves the selection of the modal up.
    pub fn modal_select_up(&mut self)
        ensures
            final(self)@ == old(self)@.modal_moved_up(),
    {
        match &mut self.modal {
            Some(Modal::SelectModel(_, idx, _)) => {
                if *idx > 0 {
                    *idx = *idx - 1;
                }
            },
            Some(Modal::CommandList(_, idx, _)) => {
                if *idx > 0 {
                    *idx = *idx - 1;
                }
            },
            Some(Modal::McpServers(_, idx)) => {
                if *idx > 0 {
                    *idx = *idx - 1;
                }
            },
            Some(Modal::McpTools(_, _, idx)) => {
                if *idx > 0 {
                    *idx = *idx - 1;
                }
            },
            _ => {},
        }
    }

    /// Moves the selection of the modal down; in the list of commands, which counts `max` entries.
    pub fn modal_select_down(&mut self, max: usize)
        ensures
            final(self)@ == old(self)@.modal_moved_down(max as int),
    {
        match &mut self.modal {
            Some(Modal::SelectModel(models, idx, search)) => {
                let found = searched_models(models, search.as_str());
                assert(views(found@).len() == found@.len());
                if *idx < found.len().saturating_sub(1) {
                    *idx = *idx + 1;
                }
            },
            Some(Modal::CommandList(_, idx, _)) => {
                if *idx < max.saturating_sub(1) {
                    *idx = *idx + 1;
                }
            },
            Some(Modal::McpServers(servers, idx)) => {
                assert(pair_views(servers@).len() == servers@.len());
                if *idx < servers.len().saturating_sub(1) {
                    *idx = *idx + 1;
                }
            },
            Some(Modal::McpTools(_, tools, idx)) => {
                assert(tool_views(tools@).len() == tools@.len());
                if *idx < tools.len().saturating_sub(1) {
                    *idx = *idx + 1;
                }
            },
            _ => {},
        }
    }

    /// Takes the selection of the modal, and says which server it chooses.
    pub fn modal_confirm(&mut self) -> (r: Option<usize>)
        requires
            old(self)@.has_thread(),
        ensures
            final(self)@ == old(self)@.modal_confirmed().0,
            match r {
                Some(i) => old(self)@.modal_confirmed().1 == Some(i as int),
                None => old(self)@.modal_confirmed().1 is None,
            },
    {
        match self.modal.take() {
            Some(Modal::SelectModel(models, idx, search)) => {
                let mut found = searched_models(&models, search.as_str());
                assert(views(found@).len() == found@.len());
                if idx < found.len() {
                    assert(views(found@)[idx as int] == found@[idx as int]@);
                    let model = found.swap_remove(idx);
                    self.switch_model(model);
                }
                None
            },
            Some(Modal::CommandList(commands, idx, _)) => {
                assert(pair_views(commands@).len() == commands@.len());
                if idx < commands.len() {
                    assert(pair_views(commands@)[idx as int].0 == commands@[idx as int].0@);
                    self.input = commands[idx].0.clone();
                }
                None
            },
            Some(Modal::McpServers(_, idx)) => Some(idx),
            _ => None,
        }
    }

    /// Shows models to select from.
    pub fn open_models_modal(&mut self, models: Vec<String>)
        ensures
            final(self)@ == old(self)@.models_shown(views(models@)),
    {
        self.modal = Some(Modal::SelectModel(models, 0, String::new()));
    }

    /// Goes to the thread behind the current one, or to the first behind the last.
    pub fn next_thread(&mut self)
        requires
            old(self)@.has_thread(),
        ensures
            final(self)@ == old(self)@.next_thread(),
    {
        assert(self@.threads.len() == self.threads@.len());
        let count = self.threads.len();
        proof {
            if self.current_thread_idx + 1 < count {
                vstd::arithmetic::div_mod::lemma_small_mod(
                    (self.current_thread_idx + 1) as nat,
                    count as nat,
                );
            } else {
                vstd::arithmetic::div_mod::lemma_mod_self_0(count as int);
            }
        }
        self.current_thread_idx = (self.current_thread_idx + 1) % count;
        self.thread_state.select(Some(self.current_thread_idx));
    }

    /// Goes to the thread before the current one, or to the last before the first.
    pub fn prev_thread(&mut self)
        requires
            old(self)@.has_thread(),
        ensures
            final(self)@ == old(self)@.prev_thread(),
    {
        assert(self@.threads.len() == self.threads@.len());
        if self.current_thread_idx == 0 {
            self.current_thread_idx = self.threads.len() - 1;
        } else {
            self.current_thread_idx = self.current_thread_idx - 1;
        }
        self.thread_state.select(Some(self.current_thread_idx));
        self.chat_scroll = 0;
    }

    /// Scrolls the conversation up.
    pub fn scroll_up(&mut self)
        ensures
            final(self)@ == old(self)@.scrolled_up(),
    {
        self.chat_scroll = self.chat_scroll.saturating_sub(3);
    }

    /// Scrolls the conversation down.
    pub fn scroll_down(&mut self)
        ensures
            final(self)@ == old(self)@.scrolled_down(),
    {
        self.chat_scroll = self.chat_scroll.saturating_add(3);
    }

    /// Creates a thread and goes to it.
    pub fn create_thread(&mut self, name: String)
        ensures
            final(self)@ == old(self)@.thread_created(name@),
            final(self)@.has_thread(),
    {
        let ghost before = self@;
        let messages: Vec<(String, String, bool)> = Vec::new();
        assert(message_views(messages@) =~= Seq::empty());
        let unnamed = text::is_blank(name.as_str());
        self.threads.push(Thread { name, messages });
        let count = self.threads.len();
        assert(self@.threads.len() == count);
        if unnamed {
            let mut numbered = "Chat ".to_string();
            numbered.append(text::decimal(count as u64).as_str());
            let last = count - 1;
            self.threads[last].name = numbered;
        }
        self.current_thread_idx = count - 1;
        self.thread_state.select(Some(self.current_thread_idx));
        self.chat_scroll = 0;
        assert(self@.threads =~= before.thread_created(name@).threads);
    }

    /// Asks another model from now on.
    pub fn switch_model(&mut self, model_name: String)
        requires
            old(self)@.has_thread(),
        ensures
            final(self)@ == old(self)@.model_switched(model_name@),
    {
        self.model = model_name.clone();
        self.client.set_model(model_name);
        self.say("System", "Model switched.".to_string(), false);
    }

    /// The last message of the conversation, for the clipboard.
    pub fn copy_last_message(&mut self) -> (r: Effect)
        requires
            old(self)@.has_thread(),
        ensures
            (final(self)@, r@) == old(self)@.copy_asked(),
    {
        assert(self@.messages() == message_views(
            self.threads@[self.current_thread_idx as int].messages@,
        ));
        if self.threads[self.current_thread_idx].messages.is_empty() {
            self.say("System", "No messages to copy.".to_string(), false);
            return Effect::Nothing;
        }
        Effect::Copy(text_to_copy(&self.threads[self.current_thread_idx].messages))
    }

    /// Tells what became of a text that was to go to the clipboard.
    pub fn copy_finished(&mut self, copied: Copied)
        requires
            old(self)@.has_thread(),
        ensures
            final(self)@ == old(self)@.copy_told(copied),
    {
        match copied {
            Copied::Done => self.say("System", "Copied to clipboard.".to_string(), false),
            Copied::Refused => self.say("System", "Failed to copy to clipboard.".to_string(), true),
            Copied::NoClipboard => self.say("System", "Clipboard not available.".to_string(), true),
        }
    }
}

/// What a tool gave, as the message that keeps it holds it.
pub fn stored_result(content: &str) -> (r: String)
    ensures
        r@ == tool_content(content@),
{
    match text::split_once(content, "||") {
        Some((_id, rest)) => match text::split_once(rest.as_str(), "||") {
            Some((_name, result)) => result,
            None => content.to_string(),
        },
        None => content.to_string(),
    }
}

/// A message as it is sent to the server, for the messages that are.
fn message_to_send(message: &(String, String, bool)) -> (r: Option<(String, String)>)
    ensures
        match r {
            Some(p) => sent_message((message.0@, message.1@, message.2)) == Some((p.0@, p.1@)),
            None => sent_message((message.0@, message.1@, message.2)) is None,
        },
{
    let role = message.0.as_str();
    if text::same(role, "User") {
        proof {
            reveal_strlit("User");
            reveal_strlit("Tool");
            assert("User"@[0] != "Tool"@[0]);
        }
        Some(("user".to_string(), message.1.clone()))
    } else if text::same(role, "Assistant") || text::same(role, "AssistantToolCall") {
        proof {
            reveal_strlit("Assistant");
            reveal_strlit("AssistantToolCall");
            reveal_strlit("Tool");
            assert("Assistant"@[0] != "Tool"@[0]);
            assert("AssistantToolCall"@[0] != "Tool"@[0]);
        }
        Some(("assistant".to_string(), message.1.clone()))
    } else if text::same(role, "Tool") {
        Some(("tool".to_string(), stored_result(message.1.as_str())))
    } else {
        None
    }
}

/// The conversation as it is sent to the server.
pub fn history_of(messages: &Vec<(String, String, bool)>) -> (r: Vec<(String, String)>)
    ensures
        pair_views(r@) == sent_history(message_views(messages@)),
{
    let ghost wanted = message_views(messages@);
    let ghost pick = |m: MessageView| sent_message(m);
    let mut out: Vec<(String, String)> = Vec::new();
    let mut i: usize = 0;
    assert(pair_views(out@) =~= wanted.take(0).filter_map(pick));
    while i < messages.len()
        invariant
            i <= messages@.len(),
            wanted == message_views(messages@),
            pick == (|m: MessageView| sent_message(m)),
            pair_views(out@) == wanted.take(i as int).filter_map(pick),
        decreases messages@.len() - i,
    {
        let ghost had = out@;
        proof {
            wanted.lemma_filter_map_take_succ(pick, i as int);
        }
        if let Some(message) = message_to_send(&messages[i]) {
            out.push(message);
            assert(pair_views(out@) =~= pair_views(had).push((message.0@, message.1@)));
        }
        i += 1;
    }
    assert(wanted.take(i as int) =~= wanted);
    out
}

/// A tool as it is described to the server.
fn tool_json(tool: &McpTool) -> (r: Json)
    ensures
        r@ == tool_value(tool@),
{
    let function = vec![
        entry("name", text_value(tool.name.as_str())),
        entry("description", text_value(tool.description.as_str())),
        entry("parameters", tool.input_schema.clone()),
    ];
    assert(entry_views(function@) =~= seq![
        ("name"@, JsonView::Text(tool@.name)),
        ("description"@, JsonView::Text(tool@.description)),
        ("parameters"@, tool@.input_schema),
    ]);
    let function = make_object(function);
    let body = vec![entry("type", text_value("function")), entry("function", function)];
    assert(entry_views(body@) =~= seq![
        ("type"@, JsonView::Text("function"@)),
        ("function"@, function@),
    ]);
    make_object(body)
}

/// The tools as they are described to the server.
pub fn tools_json(tools: &Vec<McpTool>) -> (r: Vec<Json>)
    ensures
        item_views(r@) == tool_values(tool_views(tools@)),
{
    let ghost wanted = tool_values(tool_views(tools@));
    let mut out: Vec<Json> = Vec::new();
    let mut i: usize = 0;
    assert(item_views(out@) =~= wanted.take(0));
    while i < tools.len()
        invariant
            i <= tools@.len(),
            wanted == tool_values(tool_views(tools@)),
            item_views(out@) == wanted.take(i as int),
        decreases tools@.len() - i,
    {
        let ghost had = out@;
        let value = tool_json(&tools[i]);
        out.push(value);
        assert(item_views(out@) =~= item_views(had).push(value@));
        assert(wanted.take(i + 1) =~= wanted.take(i as int).push(value@));
        i += 1;
    }
    assert(wanted.take(i as int) =~= wanted);
    out
}

/// The names and URLs of servers.
fn names_of_servers(servers: &Vec<McpServerConfig>) -> (r: Vec<(String, String)>)
    ensures
        pair_views(r@) == server_names(server_views(servers@)),
{
    let ghost wanted = server_names(server_views(servers@));
    let mut out: Vec<(String, String)> = Vec::new();
    let mut i: usize = 0;
    assert(pair_views(out@) =~= wanted.take(0));
    while i < servers.len()
        invariant
            i <= servers@.len(),
            wanted == server_names(server_views(servers@)),
            pair_views(out@) == wanted.take(i as int),
        decreases servers@.len() - i,
    {
        let ghost had = out@;
        let pair = (servers[i].name.clone(), servers[i].url.clone());
        out.push(pair);
        assert(pair_views(out@) =~= pair_views(had).push((pair.0@, pair.1@)));
        assert(wanted.take(i + 1) =~= wanted.take(i as int).push((pair.0@, pair.1@)));
        i += 1;
    }
    assert(wanted.take(i as int) =~= wanted);
    out
}

/// The help.
fn help() -> (r: String)
    ensures
        r@ == help_text(commands()),
{
    let all = available_commands();
    let ghost wanted = commands();
    let mut out = "Available commands:\n".to_string();
    let mut i: usize = 0;
    while i < all.len()
        invariant
            i <= all@.len(),
            wanted == pair_views(all@),
            out@ == help_text(wanted.take(i as int)),
        decreases all@.len() - i,
    {
        assert(wanted.take(i + 1).drop_last() =~= wanted.take(i as int));
        assert(wanted.take(i + 1).last() == (all@[i as int].0@, all@[i as int].1@));
        out.append(all[i].0.as_str());
        out.append(" - ");
        out.append(all[i].1.as_str());
        out.append("\n");
        assert(out@ =~= help_text(wanted.take(i as int)) + help_line(
            wanted.take(i + 1).last(),
        ));
        i += 1;
    }
    assert(wanted.take(i as int) =~= wanted);
    out
}

/// The text that is copied of a conversation.
pub fn text_to_copy(messages: &Vec<(String, String, bool)>) -> (r: String)
    requires
        messages@.len() > 0,
    ensures
        r@ == copied_text(message_views(messages@)),
{
    let last = &messages[messages.len() - 1];
    assert(message_views(messages@).last() == (last.0@, last.1@, last.2));
    let mut text = last.0.clone();
    text.append(": ");
    text.append(last.1.as_str());
    text
}

} // verus!

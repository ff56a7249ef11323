//! How the state of the client changes, step by step.
//!
//! Each step is a function of the state's view. What the client does is stated by these functions.
use vstd::prelude::*;

#[allow(unused_imports)]
use crate::app::{AppView, EffectView, MessageView, ModalView, ThreadView};
#[allow(unused_imports)]
use crate::client::ChatClientView;
#[allow(unused_imports)]
use crate::commands::{commands, matching_commands, searched, suggestion};
#[allow(unused_imports)]
use crate::config::ServerView;
#[allow(unused_imports)]
use crate::event::EventView;
#[allow(unused_imports)]
use crate::json::{object, JsonView};
#[allow(unused_imports)]
use crate::mcp::ToolView;
#[allow(unused_imports)]
use crate::naming::api_name;
#[allow(unused_imports)]
use crate::text::{
    digits, first_index, has_substring, lemma_first_index_is, lemma_index_from, occurs_at,
    split_at_first, trimmed,
};

verus! {

/// The role under which the server knows who speaks, for the messages that are sent to it.
pub open spec fn api_role(role: Seq<char>) -> Option<Seq<char>> {
    if role == "User"@ {
        Some("user"@)
    } else if role == "Assistant"@ || role == "AssistantToolCall"@ {
        Some("assistant"@)
    } else if role == "Tool"@ {
        Some("tool"@)
    } else {
        None
    }
}

/// What a tool gave, as the message that keeps it holds it: behind its identity and its name, with
/// two bars behind each. A message of another form is taken whole.
pub open spec fn tool_content(content: Seq<char>) -> Seq<char> {
    match split_at_first(content, "||"@) {
        Some((id, rest)) => match split_at_first(rest, "||"@) {
            Some((name, result)) => result,
            None => content,
        },
        None => content,
    }
}

/// The message that keeps what a tool gave.
pub open spec fn tool_message(id: Seq<char>, name: Seq<char>, content: Seq<char>) -> Seq<char> {
    id + "||"@ + name + "||"@ + content
}

/// A message as it is sent to the server, for the messages that are.
pub open spec fn sent_message(m: MessageView) -> Option<(Seq<char>, Seq<char>)> {
    match api_role(m.0) {
        Some(role) => Some(
            (
                role,
                if m.0 == "Tool"@ {
                    tool_content(m.1)
                } else {
                    m.1
                },
            ),
        ),
        None => None,
    }
}

/// The conversation as it is sent to the server.
pub open spec fn sent_history(messages: Seq<MessageView>) -> Seq<(Seq<char>, Seq<char>)> {
    messages.filter_map(|m: MessageView| sent_message(m))
}

/// A tool as it is described to the server.
pub open spec fn tool_value(tool: ToolView) -> JsonView {
    object(
        seq![
            ("type"@, JsonView::Text("function"@)),
            (
                "function"@,
                object(
                    seq![
                        ("name"@, JsonView::Text(tool.name)),
                        ("description"@, JsonView::Text(tool.description)),
                        ("parameters"@, tool.input_schema),
                    ],
                ),
            ),
        ],
    )
}

/// The tools as they are described to the server.
pub open spec fn tool_values(tools: Seq<ToolView>) -> Seq<JsonView> {
    tools.map_values(|t: ToolView| tool_value(t))
}

/// A message as it is copied.
pub open spec fn copied_message(m: MessageView) -> Seq<char> {
    m.0 + ": "@ + m.1
}

/// The text that is copied of a conversation: its last message.
pub open spec fn copied_text(messages: Seq<MessageView>) -> Seq<char>
    recommends
        messages.len() > 0,
{
    copied_message(messages.last())
}

/// A command with its description, as the help shows it.
pub open spec fn help_line(command: (Seq<char>, Seq<char>)) -> Seq<char> {
    command.0 + " - "@ + command.1 + "\n"@
}

/// The help.
pub open spec fn help_text(commands: Seq<(Seq<char>, Seq<char>)>) -> Seq<char>
    decreases commands.len(),
{
    if commands.len() == 0 {
        "Available commands:\n"@
    } else {
        help_text(commands.drop_last()) + help_line(commands.last())
    }
}

/// The names and URLs of servers.
pub open spec fn server_names(servers: Seq<ServerView>) -> Seq<(Seq<char>, Seq<char>)> {
    servers.map_values(|s: ServerView| (s.name, s.url))
}

/// A selection moved one up.
pub open spec fn moved_up(i: int) -> int {
    if i > 0 {
        i - 1
    } else {
        i
    }
}

/// A selection moved one down, in a list of the given length.
pub open spec fn moved_down(i: int, len: int) -> int {
    if i < len - 1 {
        i + 1
    } else {
        i
    }
}

/// The list of commands that start with `partial`, where there are any.
pub open spec fn command_list(partial: Seq<char>) -> Option<ModalView> {
    let found = matching_commands(partial);
    if found.len() == 0 {
        None
    } else {
        Some(ModalView::CommandList(found, 0, partial))
    }
}

/// What became of a text that was to go to the clipboard.
#[derive(Debug, Clone, Copy, PartialEq, Eq, Structural)]
pub enum Copied {
    Done,
    Refused,
    NoClipboard,
}

impl AppView {
    /// There is a current thread.
    pub open spec fn has_thread(self) -> bool {
        0 <= self.current < self.threads.len()
    }

    /// The messages of the current thread.
    pub open spec fn messages(self) -> Seq<MessageView> {
        self.threads[self.current].messages
    }

    /// The state with other messages in the current thread.
    pub open spec fn with_messages(self, messages: Seq<MessageView>) -> AppView {
        AppView {
            threads: self.threads.update(
                self.current,
                ThreadView { messages, ..self.threads[self.current] },
            ),
            ..self
        }
    }

    /// The state with a message more in the current thread.
    pub open spec fn said(self, role: Seq<char>, content: Seq<char>, is_error: bool) -> AppView {
        self.with_messages(self.messages().push((role, content, is_error)))
    }

    /// The state at the start.
    pub open spec fn initial(
        url: Seq<char>,
        model: Seq<char>,
        api_key: Option<Seq<char>>,
        servers: Seq<ServerView>,
    ) -> AppView {
        AppView {
            input: Seq::empty(),
            threads: seq![ThreadView { name: "Default Chat"@, messages: Seq::empty() }],
            current: 0,
            client: ChatClientView { api_url: url, model, api_key },
            model,
            api_name: api_name(url),
            is_loading: false,
            is_connected: true,
            selected: Some(0),
            chat_scroll: 0,
            queue: Seq::empty(),
            modal: None,
            servers,
            tools: Seq::empty(),
            clients: Seq::empty(),
            pending: None,
        }
    }

    /// The commands shown, where the input starts one and holds no space.
    pub open spec fn command_modal_tried(self) -> AppView {
        if self.input.len() > 0 && self.input.first() == '/' && !self.input.contains(' ')
            && matching_commands(self.input).len() > 0 {
            AppView { modal: command_list(self.input), ..self }
        } else {
            self
        }
    }

    /// The commands hidden.
    pub open spec fn command_modal_closed(self) -> AppView {
        if self.modal matches Some(ModalView::CommandList(..)) {
            AppView { modal: None, ..self }
        } else {
            self
        }
    }

    /// The input completed, where it can only mean one command.
    pub open spec fn autocompleted(self) -> AppView {
        match suggestion(self.input) {
            Some(s) => (AppView { input: s, ..self }).command_modal_closed(),
            None => self,
        }
    }

    /// The server asked to answer the conversation.
    pub open spec fn asked(self) -> (AppView, EffectView) {
        let v = (AppView { is_loading: true, ..self }).said(
            "System"@,
            self.model + " is thinking..."@,
            false,
        );
        (
            v,
            EffectView::SendChat(
                v.client.chat_request(sent_history(v.messages()), tool_values(v.tools)),
            ),
        )
    }

    /// The input sent: as a command, as a message to wait, or as a message.
    pub open spec fn sent(self) -> (AppView, EffectView) {
        let line = trimmed(self.input);
        if line.len() == 0 {
            (self, EffectView::Nothing)
        } else {
            let v = self.command_modal_closed();
            if line.first() == '/' {
                let (w, effect) = v.commanded(line);
                (AppView { input: Seq::empty(), ..w }, effect)
            } else if v.is_loading {
                (
                    AppView { queue: v.queue.push(v.input), input: Seq::empty(), ..v },
                    EffectView::Nothing,
                )
            } else {
                (AppView { input: Seq::empty(), ..v.said("User"@, v.input, false) }).asked()
            }
        }
    }

    /// The first message that waits sent.
    pub open spec fn next_sent(self) -> (AppView, EffectView) {
        if self.queue.len() > 0 {
            (AppView { queue: self.queue.drop_first(), input: self.queue[0], ..self }).sent()
        } else {
            (self, EffectView::Nothing)
        }
    }

    /// The server asked once more, unless it is answering.
    pub open spec fn reprompted(self) -> (AppView, EffectView) {
        if self.is_loading {
            (self, EffectView::Nothing)
        } else {
            self.asked()
        }
    }

    /// A command carried out.
    pub open spec fn commanded(self, line: Seq<char>) -> (AppView, EffectView) {
        let (command, arg) = match split_at_first(line, " "@) {
            Some((c, a)) => (c, a),
            None => (line, Seq::empty()),
        };
        if command == "/new"@ {
            let v = self.thread_created(arg);
            (
                v.said("System"@, "Created thread: "@ + v.threads[v.current].name, false),
                EffectView::Nothing,
            )
        } else if command == "/model"@ {
            (self, EffectView::Emit(EventView::ListModels))
        } else if command == "/mcp"@ {
            (
                if self.servers.len() == 0 {
                    self.said("System"@, "No MCP servers configured."@, false)
                } else {
                    AppView {
                        modal: Some(ModalView::McpServers(server_names(self.servers), 0)),
                        ..self
                    }
                },
                EffectView::Nothing,
            )
        } else if command == "/copy"@ {
            self.copy_asked()
        } else if command == "/help"@ {
            (self.said("System"@, help_text(commands()), false), EffectView::Nothing)
        } else {
            (self.said("System"@, "Unknown command: "@ + command, false), EffectView::Nothing)
        }
    }

    /// The last message of the conversation to be copied.
    pub open spec fn copy_asked(self) -> (AppView, EffectView) {
        if self.messages().len() == 0 {
            (self.said("System"@, "No messages to copy."@, false), EffectView::Nothing)
        } else {
            (self, EffectView::Copy(copied_text(self.messages())))
        }
    }

    /// The outcome of copying told.
    pub open spec fn copy_told(self, copied: Copied) -> AppView {
        match copied {
            Copied::Done => self.said("System"@, "Copied to clipboard."@, false),
            Copied::Refused => self.said("System"@, "Failed to copy to clipboard."@, true),
            Copied::NoClipboard => self.said("System"@, "Clipboard not available."@, true),
        }
    }

    /// A character typed into the modal.
    pub open spec fn modal_typed(self, c: char) -> AppView {
        match self.modal {
            Some(ModalView::SelectModel(models, i, search)) => AppView {
                modal: Some(ModalView::SelectModel(models, 0, search.push(c))),
                ..self
            },
            Some(ModalView::CommandList(_, _, partial)) => AppView {
                modal: command_list(partial.push(c)),
                ..self
            },
            _ => self,
        }
    }

    /// The last character typed into the modal taken back.
    pub open spec fn modal_erased(self) -> AppView {
        match self.modal {
            Some(ModalView::SelectModel(models, i, search)) => AppView {
                modal: Some(ModalView::SelectModel(models, 0, without_last(search))),
                ..self
            },
            Some(ModalView::CommandList(_, _, partial)) => AppView {
                modal: command_list(without_last(partial)),
                ..self
            },
            _ => self,
        }
    }

    /// The selection of the modal moved up.
    pub open spec fn modal_moved_up(self) -> AppView {
        let modal = match self.modal {
            Some(ModalView::SelectModel(m, i, s)) => Some(
                ModalView::SelectModel(m, moved_up(i), s),
            ),
            Some(ModalView::CommandList(c, i, p)) => Some(
                ModalView::CommandList(c, moved_up(i), p),
            ),
            Some(ModalView::McpServers(s, i)) => Some(ModalView::McpServers(s, moved_up(i))),
            Some(ModalView::McpTools(n, t, i)) => Some(ModalView::McpTools(n, t, moved_up(i))),
            m => m,
        };
        AppView { modal, ..self }
    }

    /// The selection of the modal moved down; in the list of commands, which counts `max` entries.
    pub open spec fn modal_moved_down(self, max: int) -> AppView {
        let modal = match self.modal {
            Some(ModalView::SelectModel(m, i, s)) => Some(
                ModalView::SelectModel(m, moved_down(i, searched(m, s).len() as int), s),
            ),
            Some(ModalView::CommandList(c, i, p)) => Some(
                ModalView::CommandList(c, moved_down(i, max), p),
            ),
            Some(ModalView::McpServers(s, i)) => Some(
                ModalView::McpServers(s, moved_down(i, s.len() as int)),
            ),
            Some(ModalView::McpTools(n, t, i)) => Some(
                ModalView::McpTools(n, t, moved_down(i, t.len() as int)),
            ),
            m => m,
        };
        AppView { modal, ..self }
    }

    /// The selection of the modal taken, and the server that it chooses.
    pub open spec fn modal_confirmed(self) -> (AppView, Option<int>) {
        let v = AppView { modal: None, ..self };
        match self.modal {
            Some(ModalView::SelectModel(models, i, search)) => {
                let found = searched(models, search);
                (
                    if i < found.len() {
                        v.model_switched(found[i])
                    } else {
                        v
                    },
                    None,
                )
            },
            Some(ModalView::CommandList(commands, i, _)) => (
                if i < commands.len() {
                    AppView { input: commands[i].0, ..v }
                } else {
                    v
                },
                None,
            ),
            Some(ModalView::McpServers(_, i)) => (v, Some(i)),
            _ => (v, None),
        }
    }

    /// Models to select from.
    pub open spec fn models_shown(self, models: Seq<Seq<char>>) -> AppView {
        AppView { modal: Some(ModalView::SelectModel(models, 0, Seq::empty())), ..self }
    }

    /// The thread at an index made the current one.
    pub open spec fn at_thread(self, i: int) -> AppView {
        AppView { current: i, selected: Some(i as usize), ..self }
    }

    /// The thread behind the current one, or the first behind the last.
    pub open spec fn next_thread(self) -> AppView {
        self.at_thread(
            if self.current + 1 == self.threads.len() {
                0
            } else {
                self.current + 1
            },
        )
    }

    /// The thread before the current one, or the last before the first.
    pub open spec fn prev_thread(self) -> AppView {
        AppView {
            chat_scroll: 0,
            ..self.at_thread(
                if self.current == 0 {
                    self.threads.len() - 1
                } else {
                    self.current - 1
                },
            )
        }
    }

    /// The conversation scrolled up by three lines, as far as it goes.
    pub open spec fn scrolled_up(self) -> AppView {
        AppView {
            chat_scroll: if self.chat_scroll < 3 {
                0
            } else {
                self.chat_scroll - 3
            },
            ..self
        }
    }

    /// The conversation scrolled down by three lines, as far as the count goes.
    pub open spec fn scrolled_down(self) -> AppView {
        AppView {
            chat_scroll: if self.chat_scroll + 3 > u16::MAX {
                u16::MAX as int
            } else {
                self.chat_scroll + 3
            },
            ..self
        }
    }

    /// A new thread made the current one. Where no name is given, it is numbered.
    pub open spec fn thread_created(self, name: Seq<char>) -> AppView {
        let name = if trimmed(name).len() == 0 {
            "Chat "@ + digits((self.threads.len() + 1) as nat)
        } else {
            name
        };
        let threads = self.threads.push(ThreadView { name, messages: Seq::empty() });
        AppView { chat_scroll: 0, ..(AppView { threads, ..self }).at_thread(threads.len() - 1) }
    }

    /// Another model asked from now on.
    pub open spec fn model_switched(self, model: Seq<char>) -> AppView {
        (AppView { model, client: ChatClientView { model, ..self.client }, ..self }).said(
            "System"@,
            "Model switched."@,
            false,
        )
    }
}

/// A text without its last character.
pub open spec fn without_last(s: Seq<char>) -> Seq<char> {
    if s.len() == 0 {
        s
    } else {
        s.drop_last()
    }
}

/// A text ends with a bar.
pub open spec fn ends_with_bar(s: Seq<char>) -> bool {
    s.len() > 0 && s.last() == '|'
}

/// Where two bars stand behind `a`, the first two bars in a row are found in `a`, at the end of `a`
/// with a bar of its own, or behind it.
proof fn lemma_split_at_bars(a: Seq<char>, rest: Seq<char>)
    ensures
        ({
            let split = split_at_first(a + "||"@ + rest, "||"@);
            if has_substring(a, "||"@) {
                split matches Some((_, after)) && exists|x: Seq<char>|
                    after == #[trigger] (x + "||"@) + rest
            } else if ends_with_bar(a) {
                split == Some((a.drop_last(), "|"@ + rest))
            } else {
                split == Some((a, rest))
            }
        }),
{
    reveal_strlit("||");
    reveal_strlit("|");
    let bars = "||"@;
    let s = a + bars + rest;
    let n = a.len() as int;
    assert(occurs_at(s, bars, n)) by {
        assert(s.subrange(n, n + 2) =~= bars);
    }
    assert forall|j: int| 0 <= j <= n - 2 implies occurs_at(s, bars, j) == occurs_at(
        a,
        bars,
        j,
    ) by {
        assert(s.subrange(j, j + 2) =~= a.subrange(j, j + 2));
    }
    if n > 0 {
        assert(occurs_at(s, bars, n - 1) == ends_with_bar(a)) by {
            assert(s[n - 1] == a.last());
            assert(s[n] == '|');
            if ends_with_bar(a) {
                assert(s.subrange(n - 1, n + 1) =~= bars);
            } else {
                assert(s.subrange(n - 1, n + 1)[0] == a.last());
                assert(bars[0] == '|');
            }
        }
    }
    if has_substring(a, bars) {
        lemma_index_from(a, bars, 0);
        let i = choose|i: int| occurs_at(a, bars, i);
        let k = first_index(a, bars)->0;
        assert(first_index(a, bars) is Some);
        lemma_first_index_is(s, bars, k);
        assert(s.skip(k + 2) =~= (a.skip(k + 2) + bars) + rest);
    } else if ends_with_bar(a) {
        assert forall|j: int| 0 <= j < n - 1 implies !occurs_at(s, bars, j) by {
            assert(!occurs_at(a, bars, j));
        }
        lemma_first_index_is(s, bars, n - 1);
        assert(s.take(n - 1) =~= a.drop_last());
        assert(s.skip(n + 1) =~= "|"@ + rest);
    } else {
        assert forall|j: int| 0 <= j < n implies !occurs_at(s, bars, j) by {
            if j <= n - 2 {
                assert(!occurs_at(a, bars, j));
            }
        }
        lemma_first_index_is(s, bars, n);
        assert(s.take(n) =~= a);
        assert(s.skip(n + 2) =~= rest);
    }
}

/// What is sent back to the model of a tool's result is what the tool gave, exactly where the bars in
/// the identity and in the name of the call leave the two separators to be found: no two bars in a
/// row stand in the identity, nor in the name with a bar that the identity ends with before it, and
/// that does not end with a bar.
pub proof fn law_tool_result_comes_back(id: Seq<char>, name: Seq<char>, content: Seq<char>)
    ensures
        tool_content(tool_message(id, name, content)) == content <==> {
            let between = if ends_with_bar(id) {
                "|"@ + name
            } else {
                name
            };
            &&& !has_substring(id, "||"@)
            &&& !has_substring(between, "||"@)
            &&& !ends_with_bar(between)
        },
{
    reveal_strlit("||");
    reveal_strlit("|");
    let bars = "||"@;
    let rest = name + bars + content;
    let whole = tool_message(id, name, content);
    assert(whole =~= id + bars + rest);
    lemma_split_at_bars(id, rest);
    if has_substring(id, bars) {
        let (_, after) = split_at_first(whole, bars)->0;
        let x = choose|x: Seq<char>| after == #[trigger] (x + bars) + rest;
        let y = x + bars + name;
        assert(after =~= y + bars + content);
        assert(has_substring(y, bars)) by {
            assert(y.subrange(x.len() as int, x.len() as int + 2) =~= bars);
            assert(occurs_at(y, bars, x.len() as int));
        }
        lemma_split_at_bars(y, content);
    } else if ends_with_bar(id) {
        assert("|"@ + rest =~= ("|"@ + name) + bars + content);
        lemma_split_at_bars("|"@ + name, content);
    } else {
        lemma_split_at_bars(name, content);
    }
}

} // verus!

//! What holds of the client as a whole.
use vstd::prelude::*;

#[allow(unused_imports)]
use crate::app::{AppView, EffectView, MessageView, ModalView, ThreadView};
#[allow(unused_imports)]
use crate::client::ChatClientView;
#[allow(unused_imports)]
use crate::commands::{commands, matching_commands, searched};
#[allow(unused_imports)]
use crate::config::ServerView;
#[allow(unused_imports)]
use crate::event::{EventView, PendingView};
#[allow(unused_imports)]
use crate::http::OutcomeView;
#[allow(unused_imports)]
use crate::mcp::{call_request, law_session_is_carried, McpClientView, ToolView};
#[allow(unused_imports)]
use crate::run::{client_for, client_index, server_of, tool_label, Key, KeyPress};
#[allow(unused_imports)]
use crate::steps::{
    command_list, moved_down, moved_up, sent_history, sent_message, server_names, tool_content,
    tool_message, tool_values, without_last, Copied,
};
#[allow(unused_imports)]
use crate::text::{
    lemma_first_index_is, lemma_index_from, occurs_at, trimmed, trimmed_start, white_space,
};

verus! {

/// A text that is a message, not blank and not a command.
pub open spec fn is_message(s: Seq<char>) -> bool {
    trimmed(s).len() > 0 && trimmed(s).first() != '/'
}

impl AppView {
    /// What stands over the conversation shows what it should: the list of commands goes by the
    /// input, a list that is not searched has entries, the entry selected is there, and the
    /// question about a call is about the one that waits.
    pub open spec fn modal_settled(self) -> bool {
        match self.modal {
            Some(ModalView::SelectModel(models, i, search)) => i == 0 || 0 <= i < searched(
                models,
                search,
            ).len(),
            Some(ModalView::CommandList(found, i, partial)) => {
                &&& partial == self.input
                &&& found == matching_commands(partial)
                &&& 0 <= i < found.len()
            },
            Some(ModalView::McpServers(servers, i)) => servers == server_names(self.servers) && 0
                <= i < servers.len(),
            Some(ModalView::McpTools(_, tools, i)) => i == 0 || 0 <= i < tools.len(),
            Some(ModalView::ToolConfirm(tool, args)) => self.pending matches Some(p) && tool
                == tool_label(p) && args == p.args_display,
            None => true,
        }
    }

    /// What holds of every state that the client reaches: there is a current thread, and it is the
    /// one selected; the model shown is the one asked; only messages wait, and only while the
    /// server is answering; and the modal shows what it should.
    pub open spec fn settled(self) -> bool {
        &&& self.has_thread()
        &&& self.selected == Some(self.current as usize)
        &&& self.model == self.client.model
        &&& 0 <= self.chat_scroll <= u16::MAX
        &&& self.queue.len() > 0 ==> self.is_loading
        &&& forall|i: int| 0 <= i < self.queue.len() ==> is_message(#[trigger] self.queue[i])
        &&& self.modal_settled()
    }
}

/// The client starts settled.
pub proof fn law_starts_settled(
    url: Seq<char>,
    model: Seq<char>,
    api_key: Option<Seq<char>>,
    servers: Seq<ServerView>,
)
    ensures
        AppView::initial(url, model, api_key, servers).settled(),
{
}

/// Sending keeps the state settled.
proof fn lemma_sent_settled(v: AppView)
    requires
        v.settled(),
    ensures
        v.sent().0.settled(),
{
    let line = trimmed(v.input);
    let w = v.command_modal_closed();
    if line.len() > 0 && line.first() != '/' && v.is_loading {
        let q = v.sent().0.queue;
        assert forall|i: int| 0 <= i < q.len() implies is_message(#[trigger] q[i]) by {
            if i < v.queue.len() {
                assert(q[i] == v.queue[i]);
            } else {
                assert(q[i] == v.input);
            }
        }
    }
}

/// Taking the selection of the modal keeps the state settled.
proof fn lemma_confirmed_settled(v: AppView)
    requires
        v.settled(),
    ensures
        v.modal_confirmed().0.settled(),
{
}

/// Typing a character keeps the state settled.
proof fn lemma_typed_settled(v: AppView, c: char)
    requires
        v.settled(),
    ensures
        v.typed(c).0.settled(),
{
}

/// Moving up or down keeps the state settled.
proof fn lemma_moved_settled(v: AppView)
    requires
        v.settled(),
    ensures
        v.moved_up().settled(),
        v.moved_down().settled(),
{
}

/// A key keeps the state settled.
pub proof fn law_key_keeps_settled(v: AppView, press: KeyPress)
    requires
        v.settled(),
    ensures
        v.after_key(press).0.settled(),
{
    if press.pressed && !press.quits() {
        match press.key {
            Key::Enter => {
                lemma_confirmed_settled(v);
                lemma_sent_settled(v);
                lemma_sent_settled(v.modal_confirmed().0);
            },
            Key::Char(c) => lemma_typed_settled(v, c),
            Key::Up | Key::Down => lemma_moved_settled(v),
            Key::Tab => lemma_confirmed_settled(v),
            _ => {},
        }
    }
}

/// An event keeps the state settled.
pub proof fn law_event_keeps_settled(v: AppView, event: EventView)
    requires
        v.settled(),
    ensures
        v.after_event(event).0.settled(),
{
    if event is ChatFinished && v.queue.len() > 0 {
        let w = AppView {
            is_loading: false,
            queue: v.queue.drop_first(),
            input: v.queue[0],
            ..v
        };
        assert(is_message(v.queue[0]));
        assert forall|i: int| 0 <= i < w.queue.len() implies is_message(#[trigger] w.queue[i]) by {
            assert(w.queue[i] == v.queue[i + 1]);
        }
    }
}

/// The outcome of a call and that of copying keep the state settled.
pub proof fn law_outcomes_keep_settled(v: AppView, i: int, outcome: OutcomeView, copied: Copied)
    requires
        v.settled(),
    ensures
        v.tool_answered(i, outcome).settled(),
        v.copy_told(copied).settled(),
{
}

/// A tool is called only where the user presses `y` while being asked about it, and the call is the
/// one that the user was asked about: its tool, its server and its arguments are those shown.
pub proof fn law_calls_are_confirmed(v: AppView, press: KeyPress)
    requires
        v.settled(),
    ensures
        v.after_key(press).1 matches EffectView::CallTool(_, _, p) ==> {
            &&& press.pressed && press.key == Key::Char('y')
            &&& v.modal == Some(ModalView::ToolConfirm(tool_label(p), p.args_display))
            &&& v.pending == Some(p)
            &&& v.after_key(press).0.pending is None
        },
{
    lemma_sent_effect(v);
    lemma_sent_effect(v.modal_confirmed().0);
}

/// No event calls a tool.
pub proof fn law_events_call_no_tool(v: AppView, event: EventView)
    ensures
        !(v.after_event(event).1 is CallTool),
{
    lemma_sent_effect(
        AppView { is_loading: false, queue: v.queue.drop_first(), input: v.queue[0], ..v },
    );
}

/// Refusing a call drops it, and closes the question.
pub proof fn law_refused_call_is_dropped(v: AppView, press: KeyPress)
    requires
        press.pressed && press.key == Key::Char('n'),
        v.modal matches Some(ModalView::ToolConfirm(..)),
    ensures
        v.after_key(press).1 is Nothing,
        v.after_key(press).0.pending is None,
        v.after_key(press).0.modal is None,
{
}

/// Control and `c` leave the client in every state, and nothing else does.
pub proof fn law_quit(v: AppView, press: KeyPress, event: EventView)
    ensures
        v.after_key(press).1 is Quit <==> press.quits(),
        !(v.after_event(event).1 is Quit),
{
    lemma_sent_effect(v);
    lemma_sent_effect(v.modal_confirmed().0);
    lemma_sent_effect(
        AppView { is_loading: false, queue: v.queue.drop_first(), input: v.queue[0], ..v },
    );
}

/// Sending either does nothing, hands on an event, copies, or asks the server; it asks only where
/// the server is not answering.
proof fn lemma_sent_effect(v: AppView)
    ensures
        !(v.sent().1 is CallTool),
        !(v.sent().1 is Quit),
        v.sent().1 is SendChat ==> !v.is_loading && v.sent().0.is_loading,
{
}

/// A key asks the server only where it is not answering, and from then on it is.
pub proof fn law_key_asks_once(v: AppView, press: KeyPress)
    ensures
        v.after_key(press).1 is SendChat ==> !v.is_loading && v.after_key(press).0.is_loading,
{
    lemma_sent_effect(v);
    lemma_sent_effect(v.modal_confirmed().0);
}

/// An event asks the server only where it is not answering or has just finished, and from then on
/// it is answering.
pub proof fn law_event_asks_once(v: AppView, event: EventView)
    ensures
        v.after_event(event).1 is SendChat ==> {
            &&& event is ChatFinished || !v.is_loading
            &&& v.after_event(event).0.is_loading
        },
{
    lemma_sent_effect(
        AppView { is_loading: false, queue: v.queue.drop_first(), input: v.queue[0], ..v },
    );
}

/// A message that is sent is kept: at the end of the conversation, with the notice that the model
/// is thinking behind it, or, while the server is answering, at the end of those that wait.
pub proof fn law_message_is_kept(v: AppView)
    requires
        v.has_thread(),
        is_message(v.input),
    ensures
        v.is_loading ==> v.sent().0.queue == v.queue.push(v.input),
        !v.is_loading ==> v.sent().0.messages() == v.messages().push(
            ("User"@, v.input, false),
        ).push(("System"@, v.model + " is thinking..."@, false)),
        v.sent().0.input.len() == 0,
{
}

/// When the server has finished, the message that has waited longest is sent, and the others go on
/// waiting in their order.
pub proof fn law_queue_in_order(v: AppView)
    requires
        v.settled(),
        v.queue.len() > 0,
    ensures
        ({
            let (w, effect) = v.after_event(EventView::ChatFinished);
            &&& w.queue == v.queue.drop_first()
            &&& w.is_loading
            &&& effect is SendChat
            &&& w.messages() == v.messages().push(("User"@, v.queue[0], false)).push(
                ("System"@, v.model + " is thinking..."@, false),
            )
        }),
{
    assert(is_message(v.queue[0]));
}

/// A conversation that is not the current one stays as it is, whatever key is pressed, and no
/// conversation goes away.
pub proof fn law_key_keeps_other_threads(v: AppView, press: KeyPress, i: int)
    requires
        v.has_thread(),
        0 <= i < v.threads.len(),
        i != v.current,
    ensures
        v.after_key(press).0.threads.len() >= v.threads.len(),
        v.after_key(press).0.threads[i] == v.threads[i],
{
}

/// A conversation that is not the current one stays as it is, whatever event comes, and no
/// conversation goes away.
pub proof fn law_event_keeps_other_threads(v: AppView, event: EventView, i: int)
    requires
        v.has_thread(),
        0 <= i < v.threads.len(),
        i != v.current,
    ensures
        v.after_event(event).0.threads.len() >= v.threads.len(),
        v.after_event(event).0.threads[i] == v.threads[i],
{
}

/// Going to the next thread and back, or back and on again, ends at the thread where it began.
pub proof fn law_threads_turn_back(v: AppView)
    requires
        v.has_thread(),
    ensures
        v.next_thread().prev_thread().current == v.current,
        v.prev_thread().next_thread().current == v.current,
        v.next_thread().threads == v.threads,
        v.prev_thread().threads == v.threads,
{
}

/// A thread that is created is the current one and holds no message; the threads before it stay as
/// they are.
pub proof fn law_created_thread(v: AppView, name: Seq<char>)
    ensures
        v.thread_created(name).has_thread(),
        v.thread_created(name).current == v.threads.len(),
        v.thread_created(name).messages().len() == 0,
        v.thread_created(name).threads.drop_last() == v.threads,
{
    assert(v.thread_created(name).threads.drop_last() =~= v.threads);
}

/// Scrolling down and up again, or up and down again, changes nothing, but at either end.
pub proof fn law_scrolling_turns_back(v: AppView)
    requires
        0 <= v.chat_scroll <= u16::MAX,
    ensures
        v.chat_scroll + 3 <= u16::MAX ==> v.scrolled_down().scrolled_up() == v,
        v.chat_scroll >= 3 ==> v.scrolled_up().scrolled_down() == v,
{
}

/// A selection that can move down comes back when it moves up again, and one that can move up comes
/// back when it moves down again.
pub proof fn law_selection_turns_back(i: int, len: int)
    ensures
        0 <= i < len - 1 ==> moved_up(moved_down(i, len)) == i,
        0 < i < len ==> moved_down(moved_up(i), len) == i,
{
}

/// Notices and errors are not sent to the server.
pub proof fn law_notices_stay_here(
    before: Seq<MessageView>,
    notice: MessageView,
    behind: Seq<MessageView>,
)
    requires
        notice.0 == "System"@ || notice.0 == "Error"@,
    ensures
        sent_history(before.push(notice) + behind) == sent_history(before + behind),
    decreases behind.len(),
{
    reveal_strlit("System");
    reveal_strlit("Error");
    reveal_strlit("User");
    reveal_strlit("Assistant");
    reveal_strlit("AssistantToolCall");
    reveal_strlit("Tool");
    assert(sent_message(notice) is None) by {
        assert("System"@.len() == 6 && "Error"@.len() == 5 && "User"@.len() == 4);
        assert("Assistant"@.len() == 9 && "AssistantToolCall"@.len() == 17 && "Tool"@.len() == 4);
    }
    let pick = |m: MessageView| sent_message(m);
    if behind.len() == 0 {
        assert(before.push(notice) + behind =~= before.push(notice));
        assert(before + behind =~= before);
        assert(before.push(notice).drop_last() =~= before);
        assert(before.push(notice).filter_map(pick) == before.filter_map(pick)) by {
            before.push(notice).lemma_filter_map_take_succ(pick, before.len() as int);
            assert(before.push(notice).take(before.len() as int) =~= before);
            assert(before.push(notice).take((before.len() + 1) as int) =~= before.push(notice));
        }
    } else {
        let front = behind.drop_last();
        law_notices_stay_here(before, notice, front);
        let a = before.push(notice) + behind;
        let b = before + behind;
        assert(a.take(a.len() - 1) =~= before.push(notice) + front);
        assert(b.take(b.len() - 1) =~= before + front);
        a.lemma_filter_map_take_succ(pick, a.len() - 1);
        b.lemma_filter_map_take_succ(pick, b.len() - 1);
        assert(a.take(a.len() as int) =~= a);
        assert(b.take(b.len() as int) =~= b);
    }
}

/// An answer does not depend on the pieces that it comes in: two pieces one after the other add
/// what they add as one. Two notices at the end are left out, since a piece takes one of them away.
pub proof fn law_chunks_add_up(v: AppView, a: Seq<char>, b: Seq<char>)
    requires
        v.has_thread(),
        ({
            let m = v.messages();
            !(m.len() >= 2 && m.last().0 == "System"@ && m[m.len() - 2].0 == "System"@)
        }),
    ensures
        v.chunk_added(a).chunk_added(b) == v.chunk_added(a + b),
{
    reveal_strlit("System");
    reveal_strlit("Assistant");
    reveal_strlit("User");
    assert("System"@.len() == 6 && "Assistant"@.len() == 9 && "User"@.len() == 4);
    let m = v.messages();
    let kept = if m.len() > 0 && m.last().0 == "System"@ {
        m.drop_last()
    } else {
        m
    };
    let one = v.chunk_added(a).messages();
    if kept.len() > 0 && kept.last().0 == "User"@ {
        assert(one == kept.push(("Assistant"@, a, false)));
        assert(one.drop_last() =~= kept);
    } else if kept.len() > 0 && kept.last().0 == "Assistant"@ && !kept.last().2 {
        assert(one.drop_last() =~= kept.drop_last());
        assert(kept.last().1 + a + b =~= kept.last().1 + (a + b));
    } else if kept.len() > 0 {
        assert(one == kept);
        assert(kept.last() == m.last() || kept.last() == m[m.len() - 2]);
    }
    let both = v.chunk_added(a).chunk_added(b);
    assert(both.messages() == v.chunk_added(a + b).messages());
    assert(both.threads =~= v.chunk_added(a + b).threads);
}

/// A slash typed where nothing else stands shows all the commands.
pub proof fn law_slash_shows_commands(v: AppView, press: KeyPress)
    requires
        press.pressed && press.key == Key::Char('/'),
        v.modal is None,
        v.input.len() == 0,
    ensures
        v.after_key(press).0.modal == Some(ModalView::CommandList(commands(), 0, seq!['/'])),
        v.after_key(press).0.input == seq!['/'],
{
    let typed = v.input.push('/');
    assert(typed =~= seq!['/']);
    crate::commands::lemma_slash_matches_all();
}

/// The server that is chosen from the list is the one whose tools are then listed.
pub proof fn law_chosen_server_is_listed(v: AppView, press: KeyPress)
    requires
        v.settled(),
        v.servers.len() <= usize::MAX,
        press.pressed && press.key == Key::Enter,
        v.modal matches Some(ModalView::McpServers(..)),
    ensures
        ({
            let i = v.modal->0->McpServers_1;
            let (w, effect) = v.after_key(press);
            &&& effect is Emit
            &&& w.after_event(effect->Emit_0).1 == EffectView::ListTools(client_for(v.servers[i]))
        }),
{
}

/// A call that the model asks for is put to the user with its tool and its server, and once the user
/// presses `y` it goes to the server that offers the tool, as it was asked for.
pub proof fn law_confirmed_call_reaches_its_server(
    v: AppView,
    asked: PendingView,
    press: KeyPress,
    server: Seq<char>,
    i: int,
)
    requires
        server_of(v.tools, asked.tool_name) == Some(server),
        client_index(v.clients, server) == Some(i),
        press.pressed && press.key == Key::Char('y'),
    ensures
        ({
            let w = v.after_event(EventView::ToolCallRequested(asked)).0;
            &&& w.modal == Some(
                ModalView::ToolConfirm(
                    asked.tool_name + " ("@ + server + ")"@,
                    asked.args_display,
                ),
            )
            &&& w.after_key(press).1 == EffectView::CallTool(
                i,
                v.clients[i].1.call(call_request(asked.tool_name, asked.args)),
                PendingView { server_name: server, ..asked },
            )
        }),
{
}

/// What a tool gave is sent back to the model at once, unless the server is answering: it is the
/// last that the request tells.
pub proof fn law_result_is_sent_back(
    v: AppView,
    id: Seq<char>,
    name: Seq<char>,
    content: Seq<char>,
)
    requires
        v.has_thread(),
        !v.is_loading,
        tool_content(tool_message(id, name, content)) == content,
    ensures
        v.after_event(EventView::ToolCallResult { id, name, content }).1 == EffectView::SendChat(
            v.client.chat_request(
                sent_history(v.messages()).push(("tool"@, content)),
                tool_values(v.tools),
            ),
        ),
{
    reveal_strlit("User");
    reveal_strlit("Tool");
    reveal_strlit("Assistant");
    reveal_strlit("AssistantToolCall");
    assert("User"@[0] != "Tool"@[0]);
    assert("Assistant"@[0] != "Tool"@[0]);
    assert("AssistantToolCall"@[0] != "Tool"@[0]);
    let result = ("Tool"@, tool_message(id, name, content), false);
    let notice = ("System"@, v.model + " is thinking..."@, false);
    let before = v.messages();
    let told = before.push(result);
    law_notices_stay_here(told, notice, Seq::empty());
    assert(told.push(notice) + Seq::empty() =~= told.push(notice));
    assert(told + Seq::empty() =~= told);
    let pick = |m: MessageView| sent_message(m);
    told.lemma_filter_map_take_succ(pick, before.len() as int);
    assert(told.take(before.len() as int) =~= before);
    assert(told.take(before.len() as int + 1) =~= told);
    assert(sent_message(result) == Some(("tool"@, content)));
    let w = v.said("Tool"@, result.1, false);
    assert(w.messages() == told);
    assert(w.asked().0.messages() == told.push(notice));
    assert(sent_history(told) == sent_history(before).push(("tool"@, content)));
}

/// The tools that a server offers at the start are offered to the model from then on.
pub proof fn law_loaded_tools_are_offered(
    v: AppView,
    name: Seq<char>,
    tools: Seq<ToolView>,
    client: McpClientView,
)
    requires
        v.has_thread(),
        !v.is_loading,
        is_message(v.input),
    ensures
        ({
            let w = v.after_event(EventView::McpToolsStartupLoaded(name, tools, client)).0;
            w.sent().1 == EffectView::SendChat(
                v.client.chat_request(
                    sent_history(v.sent().0.messages()),
                    tool_values(v.tools + tools),
                ),
            )
        }),
{
}

/// The model that is selected is the one that is asked from then on.
pub proof fn law_selected_model_is_asked(v: AppView, model: Seq<char>)
    requires
        v.has_thread(),
    ensures
        ({
            let w = v.model_switched(model);
            w.model == model && w.asked().1 == EffectView::SendChat(
                (ChatClientView { model, ..v.client }).chat_request(
                    sent_history(v.messages()),
                    tool_values(v.tools),
                ),
            )
        }),
{
    let switched = ("System"@, "Model switched."@, false);
    let thinking = ("System"@, model + " is thinking..."@, false);
    let before = v.messages();
    law_notices_stay_here(before, switched, Seq::empty());
    law_notices_stay_here(before.push(switched), thinking, Seq::empty());
    assert(before + Seq::empty() =~= before);
    assert(before.push(switched) + Seq::empty() =~= before.push(switched));
    assert(before.push(switched).push(thinking) + Seq::empty() =~= before.push(switched).push(
        thinking,
    ));
}

/// A key for a character that is typed.
pub open spec fn char_key(c: char) -> KeyPress {
    KeyPress { key: Key::Char(c), control: false, pressed: true }
}

impl AppView {
    /// A text typed key by key.
    pub open spec fn typed_text(self, s: Seq<char>) -> AppView
        decreases s.len(),
    {
        if s.len() == 0 {
            self
        } else {
            self.typed_text(s.drop_last()).after_key(char_key(s.last())).0
        }
    }
}

/// With nothing or the list of commands over the input, a character that is typed comes to the end
/// of the input, and one that is taken back is taken from there.
pub proof fn law_typing_reaches_the_input(v: AppView, c: char)
    requires
        v.modal is None || v.modal matches Some(ModalView::CommandList(..)),
    ensures
        v.typed(c).0.input == v.input.push(c),
        v.typed(c).1 is Nothing,
        v.erased().input == without_last(v.input),
        v.typed(c).0.threads == v.threads,
        v.erased().threads == v.threads,
{
}

/// A text that is typed key by key into an empty input is the input, and changes nothing else but
/// the list of commands.
proof fn lemma_typed_text(v: AppView, s: Seq<char>)
    requires
        v.modal is None,
        v.input.len() == 0,
    ensures
        ({
            let w = v.typed_text(s);
            &&& w == (AppView { input: s, modal: w.modal, ..v })
            &&& w.modal is None || (w.modal == command_list(s) && matching_commands(s).len() > 0)
        }),
    decreases s.len(),
{
    if s.len() == 0 {
        assert(v.input =~= s);
    } else {
        lemma_typed_text(v, s.drop_last());
        assert(s.drop_last().push(s.last()) =~= s);
    }
}

/// A command that is typed key by key with something behind it is carried out as it was typed: from
/// the space on, the enter key sends the input.
pub proof fn law_typed_text_is_sent(v: AppView, s: Seq<char>)
    requires
        v.modal is None,
        v.input.len() == 0,
        s.contains(' '),
    ensures
        v.typed_text(s) == (AppView { input: s, ..v }),
        v.typed_text(s).after_key(KeyPress { key: Key::Enter, control: false, pressed: true })
            == (AppView { input: s, ..v }).sent(),
{
    lemma_typed_text(v, s);
    crate::commands::lemma_no_space_matches(s);
}

/// `/new` and a name, typed key by key and entered, make a thread of that name the current one, with
/// the notice of it for its only message. A name that ends with white space is left out, since it is
/// cut there.
pub proof fn law_named_thread_is_typed(v: AppView, name: Seq<char>)
    requires
        v.modal is None,
        v.input.len() == 0,
        name.len() > 0,
        !white_space(name.last()),
    ensures
        ({
            let enter = KeyPress { key: Key::Enter, control: false, pressed: true };
            let (w, effect) = v.typed_text("/new "@ + name).after_key(enter);
            &&& effect is Nothing
            &&& w.current == v.threads.len()
            &&& w.threads == v.threads.push(
                ThreadView {
                    name,
                    messages: seq![("System"@, "Created thread: "@ + name, false)],
                },
            )
        }),
{
    reveal_strlit("/new ");
    reveal_strlit("/new");
    reveal_strlit(" ");
    let line = "/new "@ + name;
    assert(line[4] == ' ');
    law_typed_text_is_sent(v, line);
    assert(line.last() == name.last());
    assert(trimmed_start(line) == line);
    assert(trimmed(line) == line);
    assert(line.subrange(4, 5) =~= " "@);
    assert forall|j: int| 0 <= j < 4 implies !occurs_at(line, " "@, j) by {
        assert(line.subrange(j, j + 1)[0] == "/new "@[j]);
    }
    lemma_first_index_is(line, " "@, 4);
    assert(line.take(4) =~= "/new"@);
    assert(line.skip(5) =~= name);
    lemma_trimmed_keeps(name);
    let w = (AppView { input: line, ..v }).sent().0;
    let made = ThreadView {
        name,
        messages: seq![("System"@, "Created thread: "@ + name, false)],
    };
    assert(w.threads.last().messages =~= made.messages);
    assert(w.threads =~= v.threads.push(made));
}

/// A text that does not end with white space is not blank.
proof fn lemma_trimmed_keeps(s: Seq<char>)
    requires
        s.len() > 0,
        !white_space(s.last()),
    ensures
        trimmed(s).len() > 0,
    decreases s.len(),
{
    if white_space(s.first()) {
        assert(s.drop_first().last() == s.last());
        lemma_trimmed_keeps(s.drop_first());
    }
}

/// The connected servers stay where they are, whatever key is pressed and whatever event comes.
pub proof fn law_servers_stay(v: AppView, press: KeyPress, event: EventView)
    ensures
        v.after_key(press).0.clients == v.clients,
        v.clients.is_prefix_of(v.after_event(event).0.clients),
{
}

/// Names that stay find the same servers.
proof fn lemma_same_names(
    a: Seq<(Seq<char>, McpClientView)>,
    b: Seq<(Seq<char>, McpClientView)>,
    name: Seq<char>,
)
    requires
        a.len() == b.len(),
        forall|j: int| 0 <= j < a.len() ==> (#[trigger] a[j]).0 == (#[trigger] b[j]).0,
    ensures
        client_index(a, name) == client_index(b, name),
        client_index(a, name) matches Some(i) ==> 0 <= i < a.len(),
    decreases a.len(),
{
    if a.len() > 0 {
        assert(a[a.len() - 1].0 == b[b.len() - 1].0);
        assert forall|j: int| 0 <= j < a.len() - 1 implies (#[trigger] a.drop_last()[j]).0 == (
        #[trigger] b.drop_last()[j]).0 by {
            assert(a[j].0 == b[j].0);
        }
        lemma_same_names(a.drop_last(), b.drop_last(), name);
    }
}

/// A session that a server names in its answer to a call is carried by the next call to that server,
/// and by no call to another.
pub proof fn law_next_call_carries_the_session(
    v: AppView,
    i: int,
    outcome: OutcomeView,
    asked: PendingView,
    press: KeyPress,
)
    requires
        client_index(v.clients, asked.server_name) == Some(i),
        press.pressed && press.key == Key::Char('y'),
    ensures
        ({
            let w = AppView {
                pending: Some(asked),
                modal: Some(ModalView::ToolConfirm(tool_label(asked), asked.args_display)),
                ..v.tool_answered(i, outcome)
            };
            &&& w.after_key(press).1 == EffectView::CallTool(
                i,
                v.clients[i].1.after(outcome).call(call_request(asked.tool_name, asked.args)),
                asked,
            )
            &&& outcome matches OutcomeView::Replied { session: Some(sid), .. }
                ==> w.after_key(press).1->CallTool_1.headers.contains(("Mcp-Session-Id"@, sid))
            &&& forall|j: int|
                0 <= j < v.clients.len() && j != i ==> #[trigger] w.clients[j] == v.clients[j]
        }),
{
    lemma_same_names(v.clients, v.clients, asked.server_name);
    lemma_same_names(v.clients, v.tool_answered(i, outcome).clients, asked.server_name);
    law_session_is_carried(
        v.clients[i].1,
        outcome,
        call_request(asked.tool_name, asked.args),
    );
}

/// What is copied of a conversation is its last message, and nothing before it counts.
pub proof fn law_last_message_is_copied(v: AppView, before: Seq<MessageView>, last: MessageView)
    requires
        v.has_thread(),
        v.messages() == before.push(last),
    ensures
        v.commanded("/copy"@) == (v, EffectView::Copy(last.0 + ": "@ + last.1)),
{
    reveal_strlit("/copy");
    reveal_strlit(" ");
    reveal_strlit("/new");
    reveal_strlit("/model");
    reveal_strlit("/mcp");
    assert("/copy"@.len() == 5 && "/new"@.len() == 4 && "/model"@.len() == 6 && "/mcp"@.len() == 4);
    lemma_index_from("/copy"@, " "@, 0);
    assert forall|j: int| 0 <= j implies !occurs_at("/copy"@, " "@, j) by {
        if j < 5 {
            assert("/copy"@.subrange(j, j + 1)[0] == "/copy"@[j]);
        }
    }
}

} // verus!

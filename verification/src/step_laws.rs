//! What holds of each step of the client.
use vstd::prelude::*;

#[allow(unused_imports)]
use crate::app::{AppView, EffectView, MessageView, ModalView, ThreadView};
#[allow(unused_imports)]
use crate::client::ChatClientView;
#[allow(unused_imports)]
use crate::commands::{
    commands, found, lemma_filter_all, matching_commands, searched, suggestion,
};
#[allow(unused_imports)]
use crate::config::{file_action, ConfigView, FileActionView, FileFound, ServerView};
#[allow(unused_imports)]
use crate::event::{EventView, PendingView};
#[allow(unused_imports)]
use crate::json::{object, JsonView};
#[allow(unused_imports)]
use crate::json_laws::{has_member, law_object};
#[allow(unused_imports)]
use crate::json_text::printed;
#[allow(unused_imports)]
use crate::http::OutcomeView;
#[allow(unused_imports)]
use crate::mcp::McpClientView;
#[allow(unused_imports)]
use crate::naming::api_name;
#[allow(unused_imports)]
use crate::run::{
    call_message, client_for, client_index, server_of, stale_after_event, stale_after_key, Key,
    KeyPress,
};
#[allow(unused_imports)]
use crate::steps::{help_text, tool_content, Copied};
#[allow(unused_imports)]
use crate::text::{digits, has_substring, lower, trimmed};
#[allow(unused_imports)]
use crate::text_laws::{law_cut_at_char, law_not_cut_at_char};
#[allow(unused_imports)]
use crate::tool_laws::{blank, law_blank};

verus! {

/// A key that is pressed alone.
pub open spec fn pressed(key: Key) -> KeyPress {
    KeyPress { key, control: false, pressed: true }
}

/// A model more is found behind the others if its lower case holds that of what is searched for, and
/// is left out otherwise.
pub proof fn law_search_goes_in_order(models: Seq<Seq<char>>, model: Seq<char>, search: Seq<char>)
    ensures
        searched(Seq::empty(), search) == Seq::<Seq<char>>::empty(),
        searched(models.push(model), search) == if has_substring(lower(model), lower(search)) {
            searched(models, search).push(model)
        } else {
            searched(models, search)
        },
{
    reveal(Seq::filter);
    assert(models.push(model).drop_last() =~= models);
}

/// Enter in the list of models takes the entry that is marked: the client asks that model from then on,
/// and shows it.
pub proof fn law_marked_model_is_taken(
    v: AppView,
    models: Seq<Seq<char>>,
    i: int,
    search: Seq<char>,
)
    requires
        v.has_thread(),
        v.modal == Some(ModalView::SelectModel(models, i, search)),
        0 <= i < searched(models, search).len(),
    ensures
        ({
            let (w, effect) = v.after_key(pressed(Key::Enter));
            let model = searched(models, search)[i];
            &&& w.model == model
            &&& w.client == (ChatClientView { model, ..v.client })
            &&& v.modal->0.labels()[v.modal->0.index()] == model
            &&& w.modal is None
            &&& w.messages() == v.messages().push(("System"@, "Model switched."@, false))
            &&& w.input == v.input
            &&& effect is Nothing
        }),
{
}

/// Enter in a list of models that shows none closes it and changes nothing.
pub proof fn law_no_model_is_taken(v: AppView, models: Seq<Seq<char>>, i: int, search: Seq<char>)
    requires
        v.modal == Some(ModalView::SelectModel(models, i, search)),
        i >= searched(models, search).len(),
    ensures
        v.after_key(pressed(Key::Enter)) == (AppView { modal: None, ..v }, EffectView::Nothing),
{
}

/// Enter in the list of commands sends the command that is marked, and Tab puts it into the input.
pub proof fn law_marked_command_is_taken(
    v: AppView,
    found: Seq<(Seq<char>, Seq<char>)>,
    i: int,
    partial: Seq<char>,
)
    requires
        v.modal == Some(ModalView::CommandList(found, i, partial)),
        0 <= i < found.len(),
    ensures
        v.after_key(pressed(Key::Enter)) == (AppView {
            modal: None,
            input: found[i].0,
            ..v
        }).sent(),
        v.after_key(pressed(Key::Tab)) == (
            AppView { modal: None, input: found[i].0, ..v },
            EffectView::Nothing,
        ),
{
}

/// Enter in the list of servers asks for the tools of the server that is marked, and what is asked then
/// goes to that server, by its URL and with its key.
pub proof fn law_marked_server_is_asked(
    v: AppView,
    shown: Seq<(Seq<char>, Seq<char>)>,
    i: int,
)
    requires
        v.modal == Some(ModalView::McpServers(shown, i)),
        0 <= i < v.servers.len() <= usize::MAX,
    ensures
        ({
            let (w, effect) = v.after_key(pressed(Key::Enter));
            let event = EventView::LoadMcpTools(i as usize);
            let s = v.servers[i];
            &&& w == (AppView { modal: None, ..v })
            &&& effect == EffectView::Emit(event)
            &&& w.after_event(event) == (
                w,
                EffectView::ListTools(
                    McpClientView {
                        name: s.name,
                        url: s.url,
                        api_key: s.api_key,
                        session_id: None,
                    },
                ),
            )
        }),
{
}

/// Enter closes a list of tools and a question about a call, and does nothing else.
pub proof fn law_enter_closes(v: AppView)
    requires
        v.modal matches Some(ModalView::McpTools(..)) || v.modal matches Some(
            ModalView::ToolConfirm(..),
        ),
    ensures
        v.after_key(pressed(Key::Enter)) == (AppView { modal: None, ..v }, EffectView::Nothing),
{
}

/// The down key moves the mark of a list to the next entry and leaves it on the last; the up key moves
/// it to the one before and leaves it on the first. What is listed stays.
pub proof fn law_mark_moves_by_one(v: AppView)
    ensures
        ({
            let down = v.after_key(pressed(Key::Down));
            let up = v.after_key(pressed(Key::Up));
            let w = AppView { modal: None, ..v };
            match v.modal {
                Some(ModalView::SelectModel(m, i, s)) => {
                    &&& down.0 == (AppView {
                        modal: Some(
                            ModalView::SelectModel(
                                m,
                                if i < searched(m, s).len() - 1 {
                                    i + 1
                                } else {
                                    i
                                },
                                s,
                            ),
                        ),
                        ..w
                    })
                    &&& up.0 == (AppView {
                        modal: Some(
                            ModalView::SelectModel(
                                m,
                                if i > 0 {
                                    i - 1
                                } else {
                                    i
                                },
                                s,
                            ),
                        ),
                        ..w
                    })
                },
                Some(ModalView::CommandList(c, i, p)) => {
                    &&& down.0 == (AppView {
                        modal: Some(
                            ModalView::CommandList(
                                c,
                                if i < c.len() - 1 {
                                    i + 1
                                } else {
                                    i
                                },
                                p,
                            ),
                        ),
                        ..w
                    })
                    &&& up.0 == (AppView {
                        modal: Some(
                            ModalView::CommandList(
                                c,
                                if i > 0 {
                                    i - 1
                                } else {
                                    i
                                },
                                p,
                            ),
                        ),
                        ..w
                    })
                },
                Some(ModalView::McpServers(s, i)) => {
                    &&& down.0 == (AppView {
                        modal: Some(
                            ModalView::McpServers(
                                s,
                                if i < s.len() - 1 {
                                    i + 1
                                } else {
                                    i
                                },
                            ),
                        ),
                        ..w
                    })
                    &&& up.0 == (AppView {
                        modal: Some(
                            ModalView::McpServers(
                                s,
                                if i > 0 {
                                    i - 1
                                } else {
                                    i
                                },
                            ),
                        ),
                        ..w
                    })
                },
                Some(ModalView::McpTools(n, t, i)) => {
                    &&& down.0 == (AppView {
                        modal: Some(
                            ModalView::McpTools(
                                n,
                                t,
                                if i < t.len() - 1 {
                                    i + 1
                                } else {
                                    i
                                },
                            ),
                        ),
                        ..w
                    })
                    &&& up.0 == (AppView {
                        modal: Some(
                            ModalView::McpTools(
                                n,
                                t,
                                if i > 0 {
                                    i - 1
                                } else {
                                    i
                                },
                            ),
                        ),
                        ..w
                    })
                },
                _ => {
                    &&& down.0 == (AppView {
                        chat_scroll: if v.chat_scroll + 3 > 65535 {
                            65535
                        } else {
                            v.chat_scroll + 3
                        },
                        ..v
                    })
                    &&& up.0 == (AppView {
                        chat_scroll: if v.chat_scroll < 3 {
                            0
                        } else {
                            v.chat_scroll - 3
                        },
                        ..v
                    })
                },
            }
        }),
        v.after_key(pressed(Key::Down)).1 is Nothing,
        v.after_key(pressed(Key::Up)).1 is Nothing,
{
}

/// A character typed into the list of models narrows the search by that character, and one taken back
/// widens it; the models stay, and the mark goes to the first.
pub proof fn law_search_is_typed(
    v: AppView,
    c: char,
    models: Seq<Seq<char>>,
    i: int,
    search: Seq<char>,
)
    requires
        v.modal == Some(ModalView::SelectModel(models, i, search)),
    ensures
        v.after_key(pressed(Key::Char(c))) == (
            AppView { modal: Some(ModalView::SelectModel(models, 0, search.push(c))), ..v },
            EffectView::Nothing,
        ),
        search.len() > 0 ==> v.after_key(pressed(Key::Backspace)) == (
            AppView { modal: Some(ModalView::SelectModel(models, 0, search.drop_last())), ..v },
            EffectView::Nothing,
        ),
        search.len() == 0 ==> v.after_key(pressed(Key::Backspace)) == (
            AppView { modal: Some(ModalView::SelectModel(models, 0, search)), ..v },
            EffectView::Nothing,
        ),
{
}

/// The commands that match are those that start with what has been typed, and where nothing has been
/// typed all of them, in their order.
pub proof fn law_commands_match(partial: Seq<char>, c: (Seq<char>, Seq<char>))
    ensures
        matching_commands(partial).contains(c) <==> commands().contains(c) && partial.is_prefix_of(
            c.0,
        ),
        matching_commands(Seq::empty()) == commands(),
        matching_commands(partial).len() <= commands().len(),
{
    let pick = |x: (Seq<char>, Seq<char>)| partial.is_prefix_of(x.0);
    if matching_commands(partial).contains(c) {
        let k = choose|k: int|
            0 <= k < matching_commands(partial).len() && matching_commands(partial)[k] == c;
        commands().lemma_filter_pred(pick, k);
        commands().lemma_filter_contains_rev(pick, c);
    }
    if commands().contains(c) && partial.is_prefix_of(c.0) {
        let k = choose|k: int| 0 <= k < commands().len() && commands()[k] == c;
        commands().lemma_filter_contains(pick, k);
    }
    commands().lemma_filter_len(pick);
    let all = |x: (Seq<char>, Seq<char>)| Seq::<char>::empty().is_prefix_of(x.0);
    assert forall|k: int| 0 <= k < commands().len() implies all(#[trigger] commands()[k]) by {
        assert(commands()[k].0.subrange(0, 0) =~= Seq::empty());
    }
    lemma_filter_all(commands(), all);
}

/// The list of commands that is shown is that of the commands that start with the input, with the first
/// one marked, and it goes away where there are none.
pub proof fn law_list_follows_the_typing(v: AppView, c: char)
    requires
        v.modal matches Some(ModalView::CommandList(_, _, partial)) && partial == v.input,
    ensures
        ({
            let longer = v.input.push(c);
            v.after_key(pressed(Key::Char(c))) == (
                AppView {
                    input: longer,
                    modal: if matching_commands(longer).len() == 0 {
                        None
                    } else {
                        Some(ModalView::CommandList(matching_commands(longer), 0, longer))
                    },
                    ..v
                },
                EffectView::Nothing,
            )
        }),
        v.input.len() > 0 ==> {
            let shorter = v.input.drop_last();
            v.after_key(pressed(Key::Backspace)) == (
                AppView {
                    input: shorter,
                    modal: if matching_commands(shorter).len() == 0 {
                        None
                    } else {
                        Some(ModalView::CommandList(matching_commands(shorter), 0, shorter))
                    },
                    ..v
                },
                EffectView::Nothing,
            )
        },
{
}

/// With nothing over the input, a character goes to its end, and shows the commands only where the input
/// starts with a slash, holds no space, and starts a command; one taken back leaves the rest.
pub proof fn law_input_is_typed(v: AppView, c: char)
    requires
        v.modal is None,
    ensures
        ({
            let longer = v.input.push(c);
            v.after_key(pressed(Key::Char(c))) == (
                AppView {
                    input: longer,
                    modal: if longer[0] == '/' && !longer.contains(' ') && matching_commands(
                        longer,
                    ).len() > 0 {
                        Some(ModalView::CommandList(matching_commands(longer), 0, longer))
                    } else {
                        None
                    },
                    ..v
                },
                EffectView::Nothing,
            )
        }),
        v.after_key(pressed(Key::Backspace)) == (
            AppView {
                input: if v.input.len() == 0 {
                    v.input
                } else {
                    v.input.drop_last()
                },
                ..v
            },
            EffectView::Nothing,
        ),
{
}

/// While a call is in question only `y` and `n` answer: `n` drops the call and says so, and any other
/// character, and the backspace key, change nothing.
pub proof fn law_question_is_answered(v: AppView, c: char)
    requires
        v.has_thread(),
        v.modal matches Some(ModalView::ToolConfirm(..)),
    ensures
        c != 'y' && c != 'n' ==> v.after_key(pressed(Key::Char(c))) == (v, EffectView::Nothing),
        v.after_key(pressed(Key::Backspace)) == (v, EffectView::Nothing),
        ({
            let w = v.after_key(pressed(Key::Char('n'))).0;
            &&& w.messages() == v.messages().push(
                ("System"@, "Tool call cancelled by user."@, false),
            )
            &&& w == (AppView { modal: None, pending: None, threads: w.threads, ..v })
        }),
        ({
            let (w, effect) = v.after_key(pressed(Key::Char('y')));
            &&& v.pending is Some ==> w == (AppView { modal: None, pending: None, ..v })
            &&& v.pending is None ==> w == v && effect is Nothing
            &&& (v.pending matches Some(p) && client_index(v.clients, p.server_name) is None)
                ==> effect is Nothing
        }),
{
}

/// Escape closes what stands over the conversation; a key that goes up, and a key of no use here, change
/// nothing.
pub proof fn law_other_keys(v: AppView, press: KeyPress)
    ensures
        v.after_key(pressed(Key::Esc)) == (AppView { modal: None, ..v }, EffectView::Nothing),
        v.after_key(pressed(Key::Other)) == (v, EffectView::Nothing),
        !press.pressed ==> v.after_key(press) == (v, EffectView::Nothing),
{
}

/// The page keys go to the next thread and to the one before, round and round, and select it.
pub proof fn law_threads_go_round(v: AppView)
    requires
        v.has_thread(),
    ensures
        ({
            let n = v.threads.len() as int;
            let next = (v.current + 1) % n;
            let prev = (v.current + n - 1) % n;
            &&& v.after_key(pressed(Key::PageDown)) == (
                AppView { current: next, selected: Some(next as usize), ..v },
                EffectView::Nothing,
            )
            &&& v.after_key(pressed(Key::PageUp)) == (
                AppView { current: prev, selected: Some(prev as usize), chat_scroll: 0, ..v },
                EffectView::Nothing,
            )
        }),
{
    let n = v.threads.len() as int;
    if v.current + 1 < n {
        vstd::arithmetic::div_mod::lemma_small_mod((v.current + 1) as nat, n as nat);
    } else {
        vstd::arithmetic::div_mod::lemma_mod_self_0(n);
    }
    if v.current > 0 {
        vstd::arithmetic::div_mod::lemma_mod_add_multiples_vanish(v.current - 1, n);
        vstd::arithmetic::div_mod::lemma_small_mod((v.current - 1) as nat, n as nat);
        assert(v.current + n - 1 == n + (v.current - 1));
    } else {
        vstd::arithmetic::div_mod::lemma_small_mod((n - 1) as nat, n as nat);
    }
}

/// The input is completed to a command where that command alone starts with it.
pub proof fn law_only_command_is_suggested(input: Seq<char>, c: (Seq<char>, Seq<char>))
    ensures
        suggestion(input) is Some <==> input.len() > 0 && input[0] == '/' && matching_commands(
            input,
        ).len() == 1,
        suggestion(input) is Some && commands().contains(c) && input.is_prefix_of(c.0)
            ==> suggestion(input) == Some(c.0),
{
    law_commands_match(input, c);
    if suggestion(input) is Some && matching_commands(input).contains(c) {
        let k = choose|k: int|
            0 <= k < matching_commands(input).len() && matching_commands(input)[k] == c;
        assert(k == 0);
    }
}

/// Tab completes the input, where it can be, and leaves it otherwise.
pub proof fn law_tab_completes(v: AppView)
    requires
        !(v.modal matches Some(ModalView::CommandList(..))),
    ensures
        v.after_key(pressed(Key::Tab)) == (
            match suggestion(v.input) {
                Some(s) => AppView { input: s, ..v },
                None => v,
            },
            EffectView::Nothing,
        ),
{
}

/// No key changes the servers, their tools, the chat server, its key or its name; what has been said
/// stays, with anything new behind it; the model changes only with enter; the server is being asked only
/// where a request goes out; and what waits keeps its place.
pub proof fn law_keys_keep_the_rest(v: AppView, press: KeyPress)
    requires
        v.has_thread(),
    ensures
        ({
            let (w, effect) = v.after_key(press);
            &&& w.servers == v.servers && w.tools == v.tools && w.clients == v.clients
            &&& w.api_name == v.api_name && w.is_connected == v.is_connected
            &&& w.client.api_url == v.client.api_url && w.client.api_key == v.client.api_key
            &&& w.threads.len() >= v.threads.len()
            &&& w.threads[v.current].name == v.threads[v.current].name
            &&& v.messages().is_prefix_of(w.threads[v.current].messages)
            &&& w.model != v.model ==> press.key == Key::Enter
            &&& w.is_loading != v.is_loading ==> effect is SendChat
            &&& v.queue.is_prefix_of(w.queue)
            &&& w.pending != v.pending ==> w.pending is None
        }),
{
    let w = v.after_key(press).0;
    assert(v.messages().is_prefix_of(v.messages()));
    assert(v.queue.is_prefix_of(v.queue));
    lemma_sent_keeps(v);
    lemma_sent_keeps(v.modal_confirmed().0);
}

/// Sending keeps what has been said and what waits.
proof fn lemma_sent_keeps(v: AppView)
    requires
        v.has_thread(),
    ensures
        ({
            let (w, effect) = v.sent();
            &&& w.servers == v.servers && w.tools == v.tools && w.clients == v.clients
            &&& w.api_name == v.api_name && w.is_connected == v.is_connected
            &&& w.client == v.client && w.model == v.model && w.pending == v.pending
            &&& w.threads.len() >= v.threads.len()
            &&& w.threads[v.current].name == v.threads[v.current].name
            &&& v.messages().is_prefix_of(w.threads[v.current].messages)
            &&& w.is_loading != v.is_loading ==> effect is SendChat
            &&& v.queue.is_prefix_of(w.queue)
        }),
{
}

/// Every event does what it tells of, and nothing else.
pub proof fn law_events_do_what_they_tell(v: AppView, event: EventView)
    requires
        v.has_thread(),
    ensures
        ({
            let (w, effect) = v.after_event(event);
            match event {
                EventView::ChatError(s) => {
                    &&& effect is Nothing
                    &&& w.messages() == v.messages().push(("Error"@, s, true))
                    &&& w == (AppView { threads: w.threads, ..v })
                },
                EventView::ListModels => w == v && effect == EffectView::ListModels(
                    v.client.models_request(),
                ),
                EventView::ModelsLoaded(models) => {
                    &&& effect is Nothing
                    &&& w == (AppView {
                        modal: Some(ModalView::SelectModel(models, 0, Seq::empty())),
                        ..v
                    })
                },
                EventView::LoadMcpTools(i) => {
                    &&& w == v
                    &&& i >= v.servers.len() ==> effect is Nothing
                },
                EventView::McpToolsLoaded(name, tools) => {
                    &&& effect is Nothing
                    &&& w == (AppView { modal: Some(ModalView::McpTools(name, tools, 0)), ..v })
                },
                EventView::McpToolsError(s) => {
                    &&& effect is Nothing
                    &&& w.messages() == v.messages().push(("System"@, "MCP Error: "@ + s, true))
                    &&& w == (AppView { modal: None, threads: w.threads, ..v })
                },
                EventView::McpToolsStartupLoaded(name, tools, client) => {
                    &&& effect is Nothing
                    &&& w == (AppView {
                        clients: v.clients.push((name, client)),
                        tools: v.tools + tools,
                        ..v
                    })
                },
                EventView::ToolCallResult { id, name, content } => {
                    &&& v.is_loading ==> effect is Nothing && w.messages() == v.messages().push(
                        ("Tool"@, id + "||"@ + name + "||"@ + content, false),
                    )
                    &&& !v.is_loading ==> effect is SendChat && w.messages() == v.messages().push(
                        ("Tool"@, id + "||"@ + name + "||"@ + content, false),
                    ).push(("System"@, v.model + " is thinking..."@, false))
                    &&& w == (AppView { threads: w.threads, is_loading: true, ..v })
                },
                EventView::ChatFinished => v.queue.len() == 0 ==> effect is Nothing && w
                    == (AppView { is_loading: false, ..v }),
                EventView::ChatChunk(_) => effect is Nothing && w == (AppView {
                    threads: w.threads,
                    ..v
                }),
                EventView::ToolCallRequested(_) => effect is Nothing && w == (AppView {
                    threads: w.threads,
                    pending: w.pending,
                    modal: w.modal,
                    ..v
                }),
            }
        }),
{
}

/// The first piece of an answer takes the place of the notice behind the user's message, whole; each
/// further piece stands right behind what has come; and a piece that answers nothing is dropped.
pub proof fn law_answer_is_kept(
    v: AppView,
    before: Seq<MessageView>,
    q: Seq<char>,
    a: Seq<char>,
    s: Seq<char>,
    e: bool,
)
    requires
        v.has_thread(),
    ensures
        ({
            let after = v.after_event(EventView::ChatChunk(s)).0.messages();
            let asked = before.push(("User"@, q, e));
            &&& forall|n: Seq<char>, f: bool|
                v.messages() == asked.push(#[trigger] note(n, f)) ==> after == asked.push(
                    ("Assistant"@, s, false),
                )
            &&& v.messages() == asked ==> after == asked.push(("Assistant"@, s, false))
            &&& v.messages() == before.push(("Assistant"@, a, false)) ==> after == before.push(
                ("Assistant"@, a + s, false),
            )
            &&& v.messages() == before.push(("Error"@, a, e)) || v.messages() == before.push(
                ("Tool"@, a, e),
            ) || v.messages() == before.push(("AssistantToolCall"@, a, e)) ==> after == v.messages()
            &&& v.messages().len() == 0 ==> after.len() == 0
        }),
{
    reveal_strlit("System");
    reveal_strlit("Assistant");
    reveal_strlit("AssistantToolCall");
    reveal_strlit("User");
    reveal_strlit("Error");
    reveal_strlit("Tool");
    assert("System"@.len() == 6 && "Assistant"@.len() == 9 && "User"@.len() == 4);
    assert("Error"@.len() == 5 && "Tool"@.len() == 4 && "AssistantToolCall"@.len() == 17);
    assert("User"@[0] == 'U' && "Tool"@[0] == 'T');
    let asked = before.push(("User"@, q, e));
    assert forall|n: Seq<char>, f: bool| asked.push(#[trigger] note(n, f)).drop_last() == asked by {
        assert(asked.push(note(n, f)).drop_last() =~= asked);
    }
    assert(before.push(("Assistant"@, a, false)).drop_last() =~= before);
}

/// A notice.
pub open spec fn note(n: Seq<char>, is_error: bool) -> MessageView {
    ("System"@, n, is_error)
}

/// The first word of a line decides what is done, and what stands behind the space is for it alone.
pub proof fn law_command_is_carried_out(v: AppView, word: Seq<char>, arg: Seq<char>, i: int)
    requires
        v.has_thread(),
        !word.contains(' '),
    ensures
        v.commanded(word) == v.commanded(word + seq![' ']),
        ({
            let (w, effect) = v.commanded(word + seq![' '] + arg);
            if word == "/new"@ {
                let name = if blank(arg) {
                    "Chat "@ + digits((v.threads.len() + 1) as nat)
                } else {
                    arg
                };
                &&& effect is Nothing
                &&& w == (AppView {
                    threads: v.threads.push(
                        ThreadView {
                            name,
                            messages: seq![("System"@, "Created thread: "@ + name, false)],
                        },
                    ),
                    current: v.threads.len() as int,
                    selected: Some(v.threads.len() as usize),
                    chat_scroll: 0,
                    ..v
                })
            } else if word == "/model"@ {
                w == v && effect == EffectView::Emit(EventView::ListModels)
            } else if word == "/mcp"@ {
                &&& effect is Nothing
                &&& v.servers.len() == 0 ==> w.messages() == v.messages().push(
                    ("System"@, "No MCP servers configured."@, false),
                ) && w == (AppView { threads: w.threads, ..v })
                &&& v.servers.len() > 0 ==> {
                    &&& w == (AppView { modal: w.modal, ..v })
                    &&& w.modal matches Some(ModalView::McpServers(shown, at)) && at == 0
                        && shown.len() == v.servers.len() && (0 <= i < shown.len() ==> shown[i] == (
                    v.servers[i].name, v.servers[i].url))
                }
            } else if word == "/copy"@ {
                &&& v.messages().len() == 0 ==> effect is Nothing && w.messages()
                    == v.messages().push(("System"@, "No messages to copy."@, false))
                &&& v.messages().len() > 0 ==> w == v && effect == EffectView::Copy(
                    v.messages().last().0 + ": "@ + v.messages().last().1,
                )
            } else if word == "/help"@ {
                &&& effect is Nothing
                &&& w.messages() == v.messages().push(("System"@, help_text(commands()), false))
                &&& w == (AppView { threads: w.threads, ..v })
            } else {
                &&& effect is Nothing
                &&& w.messages() == v.messages().push(
                    ("System"@, "Unknown command: "@ + word, false),
                )
                &&& w == (AppView { threads: w.threads, ..v })
            }
        }),
{
    reveal_strlit(" ");
    assert(" "@ =~= seq![' ']);
    law_not_cut_at_char(word, ' ');
    law_cut_at_char(word, ' ', arg);
    law_cut_at_char(word, ' ', Seq::empty());
    assert(word + seq![' '] + Seq::empty() =~= word + seq![' ']);
    law_blank(arg);
    let w = v.commanded(word + seq![' '] + arg).0;
    if word == "/new"@ {
        let name = if blank(arg) {
            "Chat "@ + digits((v.threads.len() + 1) as nat)
        } else {
            arg
        };
        let made = ThreadView {
            name,
            messages: seq![("System"@, "Created thread: "@ + name, false)],
        };
        assert(w.threads.last().messages =~= made.messages);
        assert(w.threads =~= v.threads.push(made));
    }
}

/// The help shows a command more on a line of its own, with its description.
pub proof fn law_help_lists(all: Seq<(Seq<char>, Seq<char>)>, c: (Seq<char>, Seq<char>))
    ensures
        help_text(Seq::empty()) == "Available commands:\n"@,
        help_text(all.push(c)) == help_text(all) + (c.0 + " - "@ + c.1 + "\n"@),
{
    assert(all.push(c).drop_last() =~= all);
}

/// A line that starts with a slash, once it is trimmed, is carried out as a command whether or not the
/// server is answering, and the input is empty then; a blank input does nothing.
pub proof fn law_commands_are_sent(v: AppView)
    requires
        v.modal is None,
    ensures
        blank(v.input) ==> v.sent() == (v, EffectView::Nothing),
        !blank(v.input) && trimmed(v.input)[0] == '/' ==> {
            let (w, effect) = v.commanded(trimmed(v.input));
            v.sent() == (AppView { input: Seq::empty(), ..w }, effect)
        },
{
    law_blank(v.input);
}

/// The client starts with one empty thread, for the server, the model, the key and the servers that are
/// given.
pub proof fn law_start(
    url: Seq<char>,
    model: Seq<char>,
    api_key: Option<Seq<char>>,
    servers: Seq<ServerView>,
)
    ensures
        ({
            let v = AppView::initial(url, model, api_key, servers);
            &&& v.client.api_url == url && v.client.model == model && v.client.api_key == api_key
            &&& v.model == model
            &&& v.api_name == api_name(url)
            &&& v.servers == servers
            &&& v.threads.len() == 1 && v.threads[0].messages.len() == 0
            &&& v.threads[0].name == "Default Chat"@
            &&& v.current == 0 && v.selected == Some(0usize) && v.chat_scroll == 0
            &&& v.input.len() == 0 && v.queue.len() == 0 && v.tools.len() == 0 && v.clients.len()
                == 0
            &&& v.modal is None && v.pending is None && !v.is_loading && v.is_connected
        }),
{
}

/// A call that the model asks for is kept in the conversation as a message of the model that names the
/// call, its tool and its arguments, and waits for the user as it was asked for, with the server of its
/// tool.
pub proof fn law_asked_call_is_kept(v: AppView, asked: PendingView)
    requires
        v.has_thread(),
    ensures
        ({
            let w = v.after_event(EventView::ToolCallRequested(asked)).0;
            let p = match server_of(v.tools, asked.tool_name) {
                Some(s) => PendingView { server_name: s, ..asked },
                None => asked,
            };
            &&& w.pending == Some(p)
            &&& w.modal == Some(
                ModalView::ToolConfirm(
                    p.tool_name + " ("@ + p.server_name + ")"@,
                    p.args_display,
                ),
            )
            &&& exists|m: JsonView, call: JsonView, f: JsonView|
                {
                    &&& w.messages() == v.messages().push(
                        ("AssistantToolCall"@, #[trigger] printed(m), false),
                    )
                    &&& has_member(m, "role"@, JsonView::Text("assistant"@))
                    &&& has_member(m, "tool_calls"@, JsonView::Array(seq![call]))
                    &&& has_member(call, "id"@, JsonView::Text(asked.id))
                    &&& has_member(call, "type"@, JsonView::Text("function"@))
                    &&& #[trigger] has_member(call, "function"@, f)
                    &&& has_member(f, "name"@, JsonView::Text(asked.tool_name))
                    &&& has_member(f, "arguments"@, asked.args)
                }
        }),
{
    reveal_strlit("role");
    reveal_strlit("tool_calls");
    reveal_strlit("id");
    reveal_strlit("type");
    reveal_strlit("function");
    reveal_strlit("name");
    reveal_strlit("arguments");
    assert("role"@.len() == 4 && "tool_calls"@.len() == 10 && "id"@.len() == 2);
    assert("type"@.len() == 4 && "function"@.len() == 8 && "name"@.len() == 4);
    assert("arguments"@.len() == 9);
    let inner = seq![
        ("name"@, JsonView::Text(asked.tool_name)),
        ("arguments"@, asked.args),
    ];
    let f = object(inner);
    law_object(inner, "name"@, 0);
    law_object(inner, "arguments"@, 1);
    let middle = seq![
        ("id"@, JsonView::Text(asked.id)),
        ("type"@, JsonView::Text("function"@)),
        ("function"@, f),
    ];
    let call = object(middle);
    law_object(middle, "id"@, 0);
    law_object(middle, "type"@, 1);
    law_object(middle, "function"@, 2);
    let outer = seq![
        ("role"@, JsonView::Text("assistant"@)),
        ("tool_calls"@, JsonView::Array(seq![call])),
    ];
    let m = object(outer);
    law_object(outer, "role"@, 0);
    law_object(outer, "tool_calls"@, 1);
    let p = v.call_placed(asked);
    assert(m == call_message(p));
    let w = v.after_event(EventView::ToolCallRequested(asked)).0;
    assert(w.messages() == v.messages().push(("AssistantToolCall"@, printed(m), false)));
    assert(has_member(call, "function"@, f));
}

/// A client for a configured server has its name, its URL and its key, and no session.
pub proof fn law_client_is_for_its_server(s: ServerView)
    ensures
        client_for(s).name == s.name,
        client_for(s).url == s.url,
        client_for(s).api_key == s.api_key,
        client_for(s).session_id is None,
{
}

/// A key that changes anything makes the screen out of date, and so does an event, unless it brings
/// tools at the start; and a screen that is out of date stays so for every key.
pub proof fn law_change_is_drawn(v: AppView, press: KeyPress, event: EventView, stale: bool)
    ensures
        v.after_key(press).0 != v ==> stale_after_key(press, stale),
        stale ==> stale_after_key(press, stale),
        v.after_event(event).0 != v ==> stale_after_event(event, stale) || event
            is McpToolsStartupLoaded,
        stale ==> stale_after_event(event, stale) || event is McpToolsStartupLoaded,
        stale_after_key(press, stale) <==> stale || (press.pressed && press.key != Key::Other && !(
        press.control && press.key == Key::Char('c'))),
        !stale ==> (stale_after_event(event, stale) <==> !(event is ListModels) && !(event
            is LoadMcpTools) && !(event is McpToolsStartupLoaded)),
        event is McpToolsStartupLoaded ==> !stale_after_event(event, stale),
{
}

/// A port that is given apart stands behind the URL, behind a colon and in decimal, where the URL has no
/// colon or starts as that of this machine does; the URL stays otherwise.
pub proof fn law_port_stands_behind(config: ConfigView, port: u16)
    requires
        config.ollama_port == Some(port),
    ensures
        !config.api_url.contains(':') || "http://localhost"@.is_prefix_of(config.api_url)
            ==> config.merged().api_url == config.api_url + seq![':'] + digits(port as nat),
        config.api_url.contains(':') && !"http://localhost"@.is_prefix_of(config.api_url)
            ==> config.merged().api_url == config.api_url,
{
    reveal_strlit(":");
    assert(":"@ =~= seq![':']);
}

/// The text of a configuration file is read whole, unless there is none.
pub proof fn law_file_is_read_whole(found: FileFound)
    ensures
        match found {
            FileFound::Text(s) => if s@.len() > 0 {
                file_action(found) == FileActionView::Parse(s@)
            } else {
                file_action(found) is UseDefault
            },
            FileFound::Missing => file_action(found) is WriteDefault,
            FileFound::Unreadable => file_action(found) is Warn,
        },
{
}

/// What is kept of a tool's result that does not hold the two separators is taken whole.
pub proof fn law_other_content_is_taken_whole(content: Seq<char>)
    ensures
        !has_substring(content, "||"@) ==> tool_content(content) == content,
{
    crate::text::lemma_index_from(content, "||"@, 0);
    if let Some(k) = crate::text::first_index(content, "||"@) {
        assert(crate::text::occurs_at(content, "||"@, k));
    }
}

/// The outcome of copying is told with a notice, which is an error where the text was not copied.
pub proof fn law_copying_is_told(v: AppView, copied: Copied)
    requires
        v.has_thread(),
    ensures
        ({
            let w = v.copy_told(copied);
            &&& w == (AppView { threads: w.threads, ..v })
            &&& w.messages().len() == v.messages().len() + 1
            &&& w.messages().drop_last() == v.messages()
            &&& w.messages().last().0 == "System"@
            &&& w.messages().last().2 <==> copied != Copied::Done
        }),
{
    let w = v.copy_told(copied);
    assert(w.messages().drop_last() =~= v.messages());
}

/// A notice at the end gives way to a piece of the answer, which then does as it does without the notice.
pub proof fn law_notice_gives_way(v: AppView, w: AppView, n: Seq<char>, f: bool, s: Seq<char>)
    requires
        v.has_thread(),
        w.has_thread(),
        w.messages() == v.messages().push(("System"@, n, f)),
        v.messages().len() == 0 || v.messages().last().0 != "System"@,
    ensures
        w.after_event(EventView::ChatChunk(s)).0.messages() == v.after_event(
            EventView::ChatChunk(s),
        ).0.messages(),
{
    assert(w.messages().drop_last() =~= v.messages());
}

/// A piece of the answer changes nothing behind a message that it does not answer or go on with.
pub proof fn law_piece_goes_nowhere_else(v: AppView, s: Seq<char>)
    requires
        v.has_thread(),
        v.messages().len() > 0,
        v.messages().last().0 != "System"@,
        v.messages().last().0 != "User"@,
        v.messages().last().0 != "Assistant"@ || v.messages().last().2,
    ensures
        v.after_event(EventView::ChatChunk(s)).0.messages() == v.messages(),
{
}

/// The outcome of a call changes the client of that server and nothing else, and the client's name
/// stays.
pub proof fn law_outcome_changes_its_client(v: AppView, i: int, outcome: OutcomeView)
    requires
        0 <= i < v.clients.len(),
    ensures
        ({
            let w = v.tool_answered(i, outcome);
            &&& w == (AppView { clients: w.clients, ..v })
            &&& w.clients.len() == v.clients.len()
            &&& w.clients[i] == (v.clients[i].0, v.clients[i].1.after(outcome))
            &&& forall|j: int|
                0 <= j < v.clients.len() && j != i ==> #[trigger] w.clients[j] == v.clients[j]
        }),
{
}

/// The control key counts with `c` alone.
pub proof fn law_control_counts_with_c_alone(v: AppView, a: KeyPress, b: KeyPress)
    requires
        a.key == b.key,
        a.pressed == b.pressed,
        a.key != Key::Char('c'),
    ensures
        v.after_key(a) == v.after_key(b),
{
}

/// Completing the input closes the list of commands, and leaves any other modal.
pub proof fn law_completing_closes_the_list(v: AppView)
    ensures
        match suggestion(v.input) {
            Some(s) => v.autocompleted() == (AppView {
                input: s,
                modal: match v.modal {
                    Some(ModalView::CommandList(..)) => None,
                    m => m,
                },
                ..v
            }),
            None => v.autocompleted() == v,
        },
        v.command_modal_closed() == (AppView {
            modal: match v.modal {
                Some(ModalView::CommandList(..)) => None,
                m => m,
            },
            ..v
        }),
{
}

/// A model more is found where the text at its place holds what is searched for.
pub proof fn law_found_goes_in_order(
    models: Seq<Seq<char>>,
    lowered: Seq<Seq<char>>,
    model: Seq<char>,
    low: Seq<char>,
    search: Seq<char>,
)
    ensures
        found(Seq::empty(), lowered, search).len() == 0,
        found(models.push(model), lowered.push(low), search) == if has_substring(low, search) {
            found(models, lowered, search).push(model)
        } else {
            found(models, lowered, search)
        },
{
    assert(models.push(model).drop_last() =~= models);
    assert(lowered.push(low).drop_last() =~= lowered);
}

/// In the list of commands the mark moves down within the count that is given.
pub proof fn law_mark_moves_within_the_count(
    v: AppView,
    found: Seq<(Seq<char>, Seq<char>)>,
    i: int,
    partial: Seq<char>,
    max: int,
)
    requires
        v.modal == Some(ModalView::CommandList(found, i, partial)),
    ensures
        v.modal_moved_down(max) == (AppView {
            modal: Some(
                ModalView::CommandList(
                    found,
                    if i + 1 < max {
                        i + 1
                    } else {
                        i
                    },
                    partial,
                ),
            ),
            ..v
        }),
{
}

/// The commands are shown for an input that starts with a slash, holds no space and starts a command,
/// whatever was shown before; any other input leaves what is shown.
pub proof fn law_commands_are_shown(v: AppView)
    ensures
        v.command_modal_tried() == if v.input.len() > 0 && v.input[0] == '/' && !v.input.contains(
            ' ',
        ) && matching_commands(v.input).len() > 0 {
            AppView {
                modal: Some(ModalView::CommandList(matching_commands(v.input), 0, v.input)),
                ..v
            }
        } else {
            v
        },
{
}

/// These are the commands, in this order, and each is described so.
pub proof fn law_commands_are_described(command: Seq<char>, description: Seq<char>)
    ensures
        commands().contains((command, description)) <==> {
            ||| command == "/new"@ && description == "Create new thread"@
            ||| command == "/model"@ && description == "Select or switch model"@
            ||| command == "/mcp"@ && description == "List MCP servers and tools"@
            ||| command == "/copy"@ && description == "Copy last message to clipboard"@
            ||| command == "/help"@ && description == "Show available commands"@
        },
        commands().map_values(|c: (Seq<char>, Seq<char>)| c.0) == seq![
            "/new"@,
            "/model"@,
            "/mcp"@,
            "/copy"@,
            "/help"@,
        ],
{
    let all = commands();
    assert(all.map_values(|c: (Seq<char>, Seq<char>)| c.0) =~= seq![
        "/new"@,
        "/model"@,
        "/mcp"@,
        "/copy"@,
        "/help"@,
    ]);
    assert(all[0].1 == "Create new thread"@ && all[1].1 == "Select or switch model"@);
    assert(all[2].1 == "List MCP servers and tools"@);
    assert(all[3].1 == "Copy last message to clipboard"@);
    assert(all[4].1 == "Show available commands"@);
}

} // verus!

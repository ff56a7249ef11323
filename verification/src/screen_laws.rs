//! What holds of the screen.
use vstd::prelude::*;

#[allow(unused_imports)]
use crate::app::{AppView, MessageView, ModalView};
#[allow(unused_imports)]
use crate::commands::{searched, suggestion};
#[allow(unused_imports)]
use crate::text::{digits, lines_of};
#[allow(unused_imports)]
use crate::ui::{
    chat_lines, first_visible, law_selection_in_sight, less, visible_entries, Color, InsideView,
    Share, Style,
};

verus! {

/// The mark that stands before an entry of a list.
pub open spec fn mark(selected: bool) -> Seq<char> {
    if selected {
        "▶ "@
    } else {
        "  "@
    }
}

/// The screen shows every thread by its name with the mark before the current one, the server's name,
/// the conversation of the current thread under its name and the model's, and the input.
pub proof fn law_screen_shows_the_state(v: AppView, i: int)
    requires
        v.has_thread(),
        0 <= i < v.threads.len(),
    ensures
        ({
            let s = v.screen();
            &&& s.threads.len() == v.threads.len()
            &&& s.threads[i] == mark(i == v.current) + v.threads[i].name
            &&& s.selected == v.selected
            &&& s.status == "● "@ + v.api_name
            &&& s.status_style == (Style {
                fg: Some(
                    if v.is_connected {
                        Color::Green
                    } else {
                        Color::Red
                    },
                ),
                bg: None,
            })
            &&& s.chat_title == " "@ + v.threads[v.current].name + " | Model: "@ + v.model + " "@
            &&& s.chat == chat_lines(v.threads[v.current].messages)
            &&& s.scroll == v.chat_scroll
            &&& s.input == ">> "@ + (match suggestion(v.input) {
                Some(c) => c,
                None => v.input,
            })
            &&& s.columns == seq![Share::Percentage(20), Share::Percentage(80)]
            &&& s.rows == seq![Share::Min(1), Share::Length(3)]
            &&& s.threads_title == " Threads (↑↓) "@
            &&& s.input_title
                == " Input (↑↓ scroll | PgUp/PgDn threads | Enter send | Ctrl+C quit) "@
        }),
{
}

/// What stands before a message of the given role.
pub open spec fn who(role: Seq<char>) -> Seq<char> {
    if role == "User"@ {
        "You: "@
    } else if role == "Error"@ {
        "Error: "@
    } else if role == "System"@ {
        "[System] "@
    } else {
        "AI: "@
    }
}

/// The style of a message: red for an error, and else by the role.
pub open spec fn look(m: MessageView) -> Style {
    Style {
        fg: if m.2 {
            Some(Color::Red)
        } else if m.0 == "User"@ {
            Some(Color::Cyan)
        } else if m.0 == "System"@ {
            Some(Color::Gray)
        } else {
            None
        },
        bg: None,
    }
}

/// A message more is shown behind the others: every line of it whole, the first behind its speaker and
/// the others indented, all in its style, and an empty line at the end.
pub proof fn law_message_is_shown_whole(before: Seq<MessageView>, m: MessageView, i: int)
    ensures
        chat_lines(Seq::empty()).len() == 0,
        ({
            let all = chat_lines(before.push(m));
            let n = chat_lines(before).len() as int;
            let lines = lines_of(m.1);
            let s = look(m);
            let rows: int = if lines.len() == 0 {
                1
            } else {
                lines.len() as int
            };
            &&& all.len() == n + rows + 1
            &&& all.take(n) == chat_lines(before)
            &&& all[n] == if lines.len() == 0 {
                seq![(who(m.0), s)]
            } else {
                seq![(who(m.0), s), (lines[0], s)]
            }
            &&& 0 < i < rows ==> all[n + i] == seq![("  "@, s), (lines[i], s)]
            &&& all.last().len() == 0
        }),
{
    assert(before.push(m).drop_last() =~= before);
    let n = chat_lines(before).len() as int;
    assert(chat_lines(before.push(m)).take(n) =~= chat_lines(before));
}

/// What a list shows of an entry: a model by its name, a command with its description, a server with its
/// URL, and a tool by its title.
pub proof fn law_entry_is_shown(modal: ModalView, i: int)
    ensures
        match modal {
            ModalView::SelectModel(models, at, search) => modal.labels() == searched(models, search)
                && modal.index() == at,
            ModalView::CommandList(c, at, _) => {
                &&& modal.labels().len() == c.len() && modal.index() == at
                &&& 0 <= i < c.len() ==> modal.labels()[i] == c[i].0 + " - "@ + c[i].1
            },
            ModalView::McpServers(s, at) => {
                &&& modal.labels().len() == s.len() && modal.index() == at
                &&& 0 <= i < s.len() ==> modal.labels()[i] == s[i].0 + " ("@ + s[i].1 + ")"@
            },
            ModalView::McpTools(_, t, at) => {
                &&& modal.labels().len() == t.len() && modal.index() == at
                &&& 0 <= i < t.len() ==> modal.labels()[i] == t[i].title
            },
            ModalView::ToolConfirm(tool, args) => modal.inside() == InsideView::Text(
                "Tool: "@ + tool + "\n\nArgs:\n"@ + args + "\n\n(y=confirm, n=cancel)"@,
            ),
        },
{
    if let ModalView::CommandList(c, _, _) = modal {
        if 0 <= i < c.len() {
            assert(modal.labels()[i] =~= c[i].0 + " - "@ + c[i].1);
        }
    }
}

/// The entries in sight are entries of the list one behind the other, as many as there is room for, with
/// the mark before the one selected and before no other.
pub proof fn law_entries_in_sight(modal: ModalView, k: int)
    requires
        !(modal is ToolConfirm),
        0 <= modal.index() < modal.labels().len(),
    ensures
        ({
            let labels = modal.labels();
            let room = modal.height() - 2;
            modal.inside() matches InsideView::Entries(shown) && exists|from: int|
                {
                    &&& 0 <= from <= modal.index()
                    &&& shown.len() == if room < labels.len() {
                        room
                    } else {
                        labels.len() as int
                    }
                    &&& from + shown.len() <= labels.len()
                    &&& 0 <= k < shown.len() ==> shown[k] == mark(from + k == modal.index())
                        + #[trigger] labels[from + k]
                }
        }),
{
    let labels = modal.labels();
    let room = modal.height() - 2;
    let visible = less(modal.height(), 2);
    assert(visible == room && visible > 0);
    law_selection_in_sight(modal.index(), labels.len() as int, visible);
    let from = first_visible(modal.index(), labels.len() as int, visible);
    let shown = visible_entries(labels, modal.index(), visible);
    let at = labels[from + k];
    assert(0 <= k < shown.len() ==> shown[k] == mark(from + k == modal.index()) + labels[from + k]);
}

/// The modal stands in the middle of the screen, as far as it fits, and grows with its list up to a
/// height of sixteen.
pub proof fn law_modal_stands_in_the_middle(modal: ModalView, width: u16, height: u16)
    ensures
        ({
            let area = modal.popup(width, height).area;
            let count = modal.labels().len();
            &&& area.width == 50
            &&& width >= 50 ==> width - 1 <= 2 * area.x + 50 <= width
            &&& width < 50 ==> area.x == 0
            &&& height >= area.height ==> height - 1 <= 2 * area.y + area.height <= height
            &&& height < area.height ==> area.y == 0
            &&& modal is ToolConfirm ==> area.height == 8
            &&& modal is SelectModel && count < 65536 ==> area.height == if count + 4 < 16 {
                count + 4
            } else {
                16
            }
            &&& !(modal is SelectModel) && !(modal is ToolConfirm) && count < 65536 ==> area.height
                == if count + 3 < 16 {
                count + 3
            } else {
                16
            }
        }),
{
}

/// The title of a modal says what it shows: what is searched for with the count of what is found, what
/// has been typed, or whose tools these are.
pub proof fn law_title_says_what_is_shown(modal: ModalView, width: u16, height: u16)
    ensures
        modal.popup(width, height).title == match modal {
            ModalView::SelectModel(_, _, search) => if search.len() == 0 {
                " Select Model (type to filter, ↑↓ ↵ Esc) "@
            } else {
                " "@ + search + " ("@ + digits(modal.labels().len()) + " match) "@
            },
            ModalView::CommandList(_, _, partial) => " Commands matching '"@ + partial
                + "' (↑↓↵Tab Esc) "@,
            ModalView::McpServers(..) => " MCP Servers (↑↓ ↵ Esc) "@,
            ModalView::McpTools(name, _, _) => " "@ + name + " Tools (↑↓ Esc) "@,
            ModalView::ToolConfirm(..) => " Call tool? (y/n) "@,
        },
        modal.popup(width, height).inside == modal.inside(),
        modal.popup(width, height).style == (Style { fg: Some(Color::White), bg: Some(Color::DarkGray) }),
{
}

/// The entries in sight start with the first entry for as long as the mark is not in the last fifth of
/// the places, then follow the mark entry by entry, and stop where the last entry is in sight.
pub proof fn law_list_follows_the_mark(selected: int, total: int, visible: int)
    requires
        0 <= selected,
        0 <= visible,
    ensures
        visible >= total || visible == 0 ==> first_visible(selected, total, visible) == 0,
        0 < visible < total ==> {
            let places = visible - 1 - visible / 5;
            first_visible(selected, total, visible) == if selected <= places {
                0
            } else if selected - places <= total - visible {
                selected - places
            } else {
                total - visible
            }
        },
{
}

/// The height of a list can be counted where the count of its entries, taken in sixteen bits, leaves
/// room for the frame; that of a question always can.
pub proof fn law_height_can_be_counted(modal: ModalView)
    ensures
        modal.countable() <==> match modal {
            ModalView::ToolConfirm(..) => true,
            ModalView::SelectModel(..) => modal.labels().len() % 65536 <= 65531,
            _ => modal.labels().len() % 65536 <= 65532,
        },
{
}

} // verus!

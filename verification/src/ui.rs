//! What the screen shows, as plain values.
use vstd::prelude::*;
use vstd::string::*;

use crate::app::{AppState, Modal};
#[allow(unused_imports)]
use crate::app::{message_views, thread_views, AppView, MessageView, ModalView, ThreadView};
use crate::commands::searched_models;
#[allow(unused_imports)]
use crate::commands::{law_suggestion_completes, searched, suggestion};
#[allow(unused_imports)]
use crate::http::pair_views;
#[allow(unused_imports)]
use crate::mcp::{tool_views, ToolView};
use crate::text;
#[allow(unused_imports)]
use crate::text::{digits, lines_of, views};

verus! {

/// A colour of the terminal.
#[derive(Debug, Clone, Copy, PartialEq, Eq, Structural)]
pub enum Color {
    Black,
    Cyan,
    DarkGray,
    Gray,
    Green,
    Red,
    White,
}

/// How text is shown. What is not given stays as the terminal has it.
#[derive(Debug, Clone, Copy, PartialEq, Eq, Structural)]
pub struct Style {
    pub fg: Option<Color>,
    pub bg: Option<Color>,
}

/// Text in one style.
#[derive(Debug)]
pub struct Span {
    pub text: String,
    pub style: Style,
}

/// What a `Span` says.
pub type SpanView = (Seq<char>, Style);

/// The views of the spans of a line.
pub open spec fn line_view(line: Seq<Span>) -> Seq<SpanView> {
    line.map_values(|s: Span| (s.text@, s.style))
}

/// The views of lines.
pub open spec fn line_views(lines: Seq<Vec<Span>>) -> Seq<Seq<SpanView>> {
    lines.map_values(|l: Vec<Span>| line_view(l@))
}

/// How much of an area a part takes.
#[derive(Debug, Clone, Copy, PartialEq, Eq, Structural)]
pub enum Share {
    Percentage(u16),
    Min(u16),
    Length(u16),
}

/// An area of the screen.
#[derive(Debug, Clone, Copy, PartialEq, Eq, Structural)]
pub struct Area {
    pub x: u16,
    pub y: u16,
    pub width: u16,
    pub height: u16,
}

/// The screen below the modal.
#[derive(Debug)]
pub struct Screen {
    /// The columns: the threads with the status, and the conversation with the input.
    pub columns: [Share; 2],
    /// The rows of either column.
    pub rows: [Share; 2],
    pub threads_title: String,
    pub threads: Vec<String>,
    pub selected: Option<usize>,
    pub status: String,
    pub status_style: Style,
    pub chat_title: String,
    pub chat: Vec<Vec<Span>>,
    pub scroll: u16,
    pub input_title: String,
    pub input: String,
}

/// What a `Screen` says.
pub struct ScreenView {
    pub columns: Seq<Share>,
    pub rows: Seq<Share>,
    pub threads_title: Seq<char>,
    pub threads: Seq<Seq<char>>,
    pub selected: Option<usize>,
    pub status: Seq<char>,
    pub status_style: Style,
    pub chat_title: Seq<char>,
    pub chat: Seq<Seq<SpanView>>,
    pub scroll: int,
    pub input_title: Seq<char>,
    pub input: Seq<char>,
}

impl View for Screen {
    type V = ScreenView;

    open spec fn view(&self) -> ScreenView {
        ScreenView {
            columns: self.columns@,
            rows: self.rows@,
            threads_title: self.threads_title@,
            threads: views(self.threads@),
            selected: self.selected,
            status: self.status@,
            status_style: self.status_style,
            chat_title: self.chat_title@,
            chat: line_views(self.chat@),
            scroll: self.scroll as int,
            input_title: self.input_title@,
            input: self.input@,
        }
    }
}

/// What a modal shows inside its frame.
#[derive(Debug)]
pub enum Inside {
    /// The entries of a list that are in sight.
    Entries(Vec<String>),
    Text(String),
}

/// What an `Inside` says.
pub enum InsideView {
    Entries(Seq<Seq<char>>),
    Text(Seq<char>),
}

impl View for Inside {
    type V = InsideView;

    open spec fn view(&self) -> InsideView {
        match self {
            Inside::Entries(e) => InsideView::Entries(views(e@)),
            Inside::Text(s) => InsideView::Text(s@),
        }
    }
}

/// A modal on the screen.
#[derive(Debug)]
pub struct Popup {
    pub area: Area,
    pub title: String,
    pub inside: Inside,
    pub style: Style,
}

/// What a `Popup` says.
pub struct PopupView {
    pub area: Area,
    pub title: Seq<char>,
    pub inside: InsideView,
    pub style: Style,
}

impl View for Popup {
    type V = PopupView;

    open spec fn view(&self) -> PopupView {
        PopupView {
            area: self.area,
            title: self.title@,
            inside: self.inside@,
            style: self.style,
        }
    }
}

/// Text in a colour, on whatever stands behind it.
pub open spec fn in_color(color: Color) -> Style {
    Style { fg: Some(color), bg: None }
}

/// Text as the terminal has it.
pub open spec fn plain() -> Style {
    Style { fg: None, bg: None }
}

/// What stands before the entry of a list.
pub open spec fn marker(selected: bool) -> Seq<char> {
    if selected {
        "▶ "@
    } else {
        "  "@
    }
}

/// What stands before a message.
pub open spec fn speaker(role: Seq<char>) -> Seq<char> {
    if role == "User"@ {
        "You: "@
    } else if role == "Error"@ {
        "Error: "@
    } else if role == "System"@ {
        "[System] "@
    } else {
        "AI: "@
    }
}

/// The style of a message.
pub open spec fn message_style(m: MessageView) -> Style {
    if m.2 {
        in_color(Color::Red)
    } else if m.0 == "User"@ {
        in_color(Color::Cyan)
    } else if m.0 == "System"@ {
        in_color(Color::Gray)
    } else {
        plain()
    }
}

/// The lines of a message up to the given count: the first behind the speaker, the others indented.
pub open spec fn first_message_lines(m: MessageView, n: int) -> Seq<Seq<SpanView>> {
    let lines = lines_of(m.1);
    let style = message_style(m);
    Seq::new(
        n as nat,
        |i: int|
            if lines.len() == 0 {
                seq![(speaker(m.0), style)]
            } else if i == 0 {
                seq![(speaker(m.0), style), (lines[0], style)]
            } else {
                seq![("  "@, style), (lines[i], style)]
            },
    )
}

/// A message on the screen, with an empty line behind it.
pub open spec fn message_lines(m: MessageView) -> Seq<Seq<SpanView>> {
    let n = lines_of(m.1).len();
    first_message_lines(
        m,
        if n == 0 {
            1
        } else {
            n as int
        },
    ).push(Seq::empty())
}

/// A conversation on the screen.
pub open spec fn chat_lines(messages: Seq<MessageView>) -> Seq<Seq<SpanView>>
    decreases messages.len(),
{
    if messages.len() == 0 {
        Seq::empty()
    } else {
        chat_lines(messages.drop_last()) + message_lines(messages.last())
    }
}

/// The names of threads on the screen.
pub open spec fn thread_entries(threads: Seq<ThreadView>, current: int) -> Seq<Seq<char>> {
    threads.map(|i: int, t: ThreadView| marker(i == current) + t.name)
}

/// The input on the screen, completed where it can only mean one command.
pub open spec fn input_line(input: Seq<char>) -> Seq<char> {
    ">> "@ + (match suggestion(input) {
        Some(s) => s,
        None => input,
    })
}

impl AppView {
    /// The screen below the modal.
    pub open spec fn screen(self) -> ScreenView {
        ScreenView {
            columns: seq![Share::Percentage(20), Share::Percentage(80)],
            rows: seq![Share::Min(1), Share::Length(3)],
            threads_title: " Threads (↑↓) "@,
            threads: thread_entries(self.threads, self.current),
            selected: self.selected,
            status: "● "@ + self.api_name,
            status_style: in_color(
                if self.is_connected {
                    Color::Green
                } else {
                    Color::Red
                },
            ),
            chat_title: " "@ + self.threads[self.current].name + " | Model: "@ + self.model
                + " "@,
            chat: chat_lines(self.messages()),
            scroll: self.chat_scroll,
            input_title: " Input (↑↓ scroll | PgUp/PgDn threads | Enter send | Ctrl+C quit) "@,
            input: input_line(self.input),
        }
    }
}

/// `a` less `b`, or nothing where `b` is greater.
pub open spec fn less(a: int, b: int) -> int {
    if a < b {
        0
    } else {
        a - b
    }
}

/// The lesser of two numbers.
pub open spec fn lesser(a: int, b: int) -> int {
    if a < b {
        a
    } else {
        b
    }
}

/// The index of the first entry in sight, where `visible` of `total` entries are.
pub open spec fn first_visible(selected: int, total: int, visible: int) -> int {
    if visible >= total || visible == 0 {
        0
    } else {
        lesser(
            lesser(
                less(selected, visible / 5),
                less(selected, less(visible - 1, visible / 5)),
            ),
            total - visible,
        )
    }
}

/// The entries in sight.
pub open spec fn visible_entries(labels: Seq<Seq<char>>, selected: int, visible: int) -> Seq<
    Seq<char>,
> {
    let from = first_visible(selected, labels.len() as int, visible);
    Seq::new(
        lesser(visible, labels.len() - from) as nat,
        |i: int| marker(from + i == selected) + labels[from + i],
    )
}

/// What a list shows of a pair.
pub open spec fn pair_labels(
    pairs: Seq<(Seq<char>, Seq<char>)>,
    between: Seq<char>,
    behind: Seq<char>,
) -> Seq<Seq<char>> {
    pairs.map_values(|p: (Seq<char>, Seq<char>)| p.0 + between + p.1 + behind)
}

/// What a list shows of tools.
pub open spec fn tool_labels(tools: Seq<ToolView>) -> Seq<Seq<char>> {
    tools.map_values(|t: ToolView| t.title)
}

impl ModalView {
    /// The entries of the list that the modal shows.
    pub open spec fn labels(self) -> Seq<Seq<char>> {
        match self {
            ModalView::SelectModel(models, _, search) => searched(models, search),
            ModalView::CommandList(commands, _, _) => pair_labels(
                commands,
                " - "@,
                Seq::empty(),
            ),
            ModalView::McpServers(servers, _) => pair_labels(servers, " ("@, ")"@),
            ModalView::McpTools(_, tools, _) => tool_labels(tools),
            ModalView::ToolConfirm(..) => Seq::empty(),
        }
    }

    /// The index of the entry selected.
    pub open spec fn index(self) -> int {
        match self {
            ModalView::SelectModel(_, i, _) => i,
            ModalView::CommandList(_, i, _) => i,
            ModalView::McpServers(_, i) => i,
            ModalView::McpTools(_, _, i) => i,
            ModalView::ToolConfirm(..) => 0,
        }
    }

    /// The rows that the frame takes beside the entries.
    pub open spec fn frame(self) -> int {
        match self {
            ModalView::SelectModel(..) => 4,
            _ => 3,
        }
    }

    /// The height of the list can be counted: the count of entries is taken in sixteen bits.
    pub open spec fn countable(self) -> bool {
        self is ToolConfirm || self.labels().len() % 0x10000 + self.frame() <= u16::MAX
    }

    /// The height of the modal.
    pub open spec fn height(self) -> int {
        match self {
            ModalView::ToolConfirm(..) => 8,
            _ => lesser((self.labels().len() % 0x10000) + self.frame(), 16),
        }
    }

    /// Where the modal stands on a screen of the given size: in the middle, as far as it fits.
    pub open spec fn place(self, width: u16, height: u16) -> Area {
        Area {
            x: (less(width as int, 50) / 2) as u16,
            y: (less(height as int, self.height()) / 2) as u16,
            width: 50,
            height: self.height() as u16,
        }
    }

    /// The title of the modal.
    pub open spec fn title(self) -> Seq<char> {
        match self {
            ModalView::SelectModel(_, _, search) => if search.len() == 0 {
                " Select Model (type to filter, ↑↓ ↵ Esc) "@
            } else {
                " "@ + search + " ("@ + digits(self.labels().len()) + " match) "@
            },
            ModalView::CommandList(_, _, partial) => " Commands matching '"@ + partial
                + "' (↑↓↵Tab Esc) "@,
            ModalView::McpServers(..) => " MCP Servers (↑↓ ↵ Esc) "@,
            ModalView::McpTools(name, _, _) => " "@ + name + " Tools (↑↓ Esc) "@,
            ModalView::ToolConfirm(..) => " Call tool? (y/n) "@,
        }
    }

    /// What the modal shows inside its frame.
    pub open spec fn inside(self) -> InsideView {
        match self {
            ModalView::ToolConfirm(tool, args) => InsideView::Text(
                "Tool: "@ + tool + "\n\nArgs:\n"@ + args + "\n\n(y=confirm, n=cancel)"@,
            ),
            _ => InsideView::Entries(
                visible_entries(self.labels(), self.index(), less(self.height(), 2)),
            ),
        }
    }

    /// The modal on a screen of the given size.
    pub open spec fn popup(self, width: u16, height: u16) -> PopupView {
        PopupView {
            area: self.place(width, height),
            title: self.title(),
            inside: self.inside(),
            style: Style { fg: Some(Color::White), bg: Some(Color::DarkGray) },
        }
    }
}

/// The index of the first entry in sight, where `visible` of `total` entries are.
pub fn calculate_scroll(selected: usize, total: usize, visible: usize) -> (r: usize)
    ensures
        r == first_visible(selected as int, total as int, visible as int),
{
    if visible >= total || visible == 0 {
        return 0;
    }
    let target_top: usize = selected.saturating_sub(visible / 5);
    let target_bottom: usize = selected.saturating_sub(
        visible.saturating_sub(1).saturating_sub(visible / 5),
    );
    let mut r: usize = if target_top < target_bottom {
        target_top
    } else {
        target_bottom
    };
    if total - visible < r {
        r = total - visible;
    }
    r
}

/// The entry selected stays in sight, and where there are more entries than places, every place is
/// filled.
pub proof fn law_selection_in_sight(selected: int, total: int, visible: int)
    requires
        0 <= selected < total,
        0 < visible,
    ensures
        0 <= first_visible(selected, total, visible) <= selected,
        selected < first_visible(selected, total, visible) + visible,
        visible <= total ==> first_visible(selected, total, visible) + visible <= total,
{
}

/// What stands before the entry of a list.
fn marker_text(selected: bool) -> (r: String)
    ensures
        r@ == marker(selected),
{
    if selected {
        "▶ ".to_string()
    } else {
        "  ".to_string()
    }
}

/// What stands before a message.
fn speaker_text(role: &str) -> (r: String)
    ensures
        r@ == speaker(role@),
{
    if text::same(role, "User") {
        "You: ".to_string()
    } else if text::same(role, "Error") {
        "Error: ".to_string()
    } else if text::same(role, "System") {
        "[System] ".to_string()
    } else {
        "AI: ".to_string()
    }
}

/// The style of a message.
fn style_of(message: &(String, String, bool)) -> (r: Style)
    ensures
        r == message_style((message.0@, message.1@, message.2)),
{
    if message.2 {
        Style { fg: Some(Color::Red), bg: None }
    } else if text::same(message.0.as_str(), "User") {
        Style { fg: Some(Color::Cyan), bg: None }
    } else if text::same(message.0.as_str(), "System") {
        Style { fg: Some(Color::Gray), bg: None }
    } else {
        Style { fg: None, bg: None }
    }
}

/// Puts a message on the screen, with an empty line behind it.
fn push_message(out: &mut Vec<Vec<Span>>, message: &(String, String, bool))
    ensures
        line_views(final(out)@) == line_views(old(out)@) + message_lines(
            (message.0@, message.1@, message.2),
        ),
{
    let ghost m = (message.0@, message.1@, message.2);
    let ghost before = line_views(out@);
    let style = style_of(message);
    let lines = text::lines(message.1.as_str());
    let ghost wanted = lines_of(m.1);
    let mut first: Vec<Span> = Vec::new();
    first.push(Span { text: speaker_text(message.0.as_str()), style });
    if lines.len() > 0 {
        assert(wanted[0] == lines@[0]@);
        first.push(Span { text: lines[0].clone(), style });
    }
    out.push(first);
    let mut i: usize = 1;
    proof {
        assert(line_view(first@) =~= first_message_lines(m, 1)[0]);
        assert(line_views(out@) =~= before + first_message_lines(m, 1));
    }
    while i < lines.len()
        invariant
            1 <= i,
            i <= lines@.len() || i == 1,
            wanted == views(lines@),
            wanted == lines_of(m.1),
            style == message_style(m),
            line_views(out@) == before + first_message_lines(m, i as int),
        decreases lines@.len() - i,
    {
        let ghost had = out@;
        let mut line: Vec<Span> = Vec::new();
        line.push(Span { text: "  ".to_string(), style });
        assert(wanted[i as int] == lines@[i as int]@);
        line.push(Span { text: lines[i].clone(), style });
        out.push(line);
        proof {
            assert(line_view(line@) =~= first_message_lines(m, i + 1)[i as int]);
            assert(line_views(out@) =~= line_views(had).push(line_view(line@)));
            assert(before + first_message_lines(m, i + 1) =~= (before + first_message_lines(
                m,
                i as int,
            )).push(line_view(line@)));
        }
        i += 1;
    }
    let ghost had = out@;
    let blank: Vec<Span> = Vec::new();
    out.push(blank);
    proof {
        assert(line_view(blank@) =~= Seq::empty());
        assert(line_views(out@) =~= line_views(had).push(Seq::empty()));
        assert(line_views(out@) =~= before + message_lines(m));
    }
}

/// A conversation on the screen.
fn chat_of(messages: &Vec<(String, String, bool)>) -> (r: Vec<Vec<Span>>)
    ensures
        line_views(r@) == chat_lines(message_views(messages@)),
{
    let ghost wanted = message_views(messages@);
    let mut out: Vec<Vec<Span>> = Vec::new();
    let mut i: usize = 0;
    assert(line_views(out@) =~= chat_lines(wanted.take(0)));
    while i < messages.len()
        invariant
            i <= messages@.len(),
            wanted == message_views(messages@),
            line_views(out@) == chat_lines(wanted.take(i as int)),
        decreases messages@.len() - i,
    {
        assert(wanted.take(i + 1).drop_last() =~= wanted.take(i as int));
        assert(wanted.take(i + 1).last() == wanted[i as int]);
        push_message(&mut out, &messages[i]);
        i += 1;
    }
    assert(wanted.take(i as int) =~= wanted);
    out
}

impl AppState {
    /// The names of the threads on the screen.
    fn thread_list(&self) -> (r: Vec<String>)
        ensures
            views(r@) == thread_entries(self@.threads, self@.current),
    {
        let ghost wanted = thread_entries(self@.threads, self@.current);
        let mut out: Vec<String> = Vec::new();
        let mut i: usize = 0;
        assert(views(out@) =~= wanted.take(0));
        while i < self.threads.len()
            invariant
                i <= self.threads@.len(),
                wanted == thread_entries(
                    thread_views(self.threads@),
                    self.current_thread_idx as int,
                ),
                views(out@) == wanted.take(i as int),
            decreases self.threads@.len() - i,
        {
            let ghost had = out@;
            let mut entry = marker_text(i == self.current_thread_idx);
            entry.append(self.threads[i].name.as_str());
            out.push(entry);
            assert(wanted[i as int] == entry@);
            assert(views(out@) =~= views(had).push(entry@));
            assert(wanted.take(i + 1) =~= wanted.take(i as int).push(entry@));
            i += 1;
        }
        assert(wanted.take(i as int) =~= wanted);
        out
    }

    /// The input on the screen.
    fn input_text(&self) -> (r: String)
        ensures
            r@ == input_line(self@.input),
    {
        let mut line = ">> ".to_string();
        match self.get_autocomplete_suggestion() {
            Some(s) => {
                line.append(s.as_str());
            },
            None => {
                line.append(self.input.as_str());
            },
        }
        line
    }
}

/// The screen below the modal.
pub fn draw(app: &AppState) -> (r: Screen)
    requires
        app@.has_thread(),
    ensures
        r@ == app@.screen(),
{
    let mut status = "● ".to_string();
    status.append(app.api_name.as_str());
    let thread = &app.threads[app.current_thread_idx];
    let mut chat_title = " ".to_string();
    chat_title.append(thread.name.as_str());
    chat_title.append(" | Model: ");
    chat_title.append(app.model.as_str());
    chat_title.append(" ");
    let r = Screen {
        columns: [Share::Percentage(20), Share::Percentage(80)],
        rows: [Share::Min(1), Share::Length(3)],
        threads_title: " Threads (↑↓) ".to_string(),
        threads: app.thread_list(),
        selected: app.thread_state.selected,
        status,
        status_style: Style {
            fg: Some(
                if app.is_connected {
                    Color::Green
                } else {
                    Color::Red
                },
            ),
            bg: None,
        },
        chat_title,
        chat: chat_of(&thread.messages),
        scroll: app.chat_scroll,
        input_title:
            " Input (↑↓ scroll | PgUp/PgDn threads | Enter send | Ctrl+C quit) ".to_string(),
        input: app.input_text(),
    };
    assert(r@.columns =~= app@.screen().columns);
    assert(r@.rows =~= app@.screen().rows);
    r
}

/// The style of what stands behind a modal.
pub fn render_modal_background() -> (r: Style)
    ensures
        r == (Style { fg: Some(Color::DarkGray), bg: Some(Color::Black) }),
{
    Style { fg: Some(Color::DarkGray), bg: Some(Color::Black) }
}

/// What a list shows of pairs.
fn labels_of_pairs(pairs: &Vec<(String, String)>, between: &str, behind: &str) -> (r: Vec<String>)
    ensures
        views(r@) == pair_labels(pair_views(pairs@), between@, behind@),
{
    let ghost wanted = pair_labels(pair_views(pairs@), between@, behind@);
    let mut out: Vec<String> = Vec::new();
    let mut i: usize = 0;
    assert(views(out@) =~= wanted.take(0));
    while i < pairs.len()
        invariant
            i <= pairs@.len(),
            wanted == pair_labels(pair_views(pairs@), between@, behind@),
            views(out@) == wanted.take(i as int),
        decreases pairs@.len() - i,
    {
        let ghost had = out@;
        let mut label = pairs[i].0.clone();
        label.append(between);
        label.append(pairs[i].1.as_str());
        label.append(behind);
        out.push(label);
        assert(wanted[i as int] == label@);
        assert(views(out@) =~= views(had).push(label@));
        assert(wanted.take(i + 1) =~= wanted.take(i as int).push(label@));
        i += 1;
    }
    assert(wanted.take(i as int) =~= wanted);
    out
}

impl Modal {
    /// The entries of the list that the modal shows.
    pub fn labels(&self) -> (r: Vec<String>)
        ensures
            views(r@) == self@.labels(),
    {
        match self {
            Modal::SelectModel(models, _, search) => searched_models(models, search.as_str()),
            Modal::CommandList(commands, _, _) => {
                proof {
                    reveal_strlit("");
                    assert(""@ =~= Seq::empty());
                }
                labels_of_pairs(commands, " - ", "")
            },
            Modal::McpServers(servers, _) => labels_of_pairs(servers, " (", ")"),
            Modal::McpTools(_, tools, _) => {
                let ghost wanted = tool_labels(tool_views(tools@));
                let mut out: Vec<String> = Vec::new();
                let mut i: usize = 0;
                assert(views(out@) =~= wanted.take(0));
                while i < tools.len()
                    invariant
                        i <= tools@.len(),
                        wanted == tool_labels(tool_views(tools@)),
                        views(out@) == wanted.take(i as int),
                    decreases tools@.len() - i,
                {
                    let ghost had = out@;
                    let label = tools[i].title.clone();
                    out.push(label);
                    assert(wanted[i as int] == label@);
                    assert(views(out@) =~= views(had).push(label@));
                    assert(wanted.take(i + 1) =~= wanted.take(i as int).push(label@));
                    i += 1;
                }
                assert(wanted.take(i as int) =~= wanted);
                out
            },
            Modal::ToolConfirm(_, _) => {
                let out: Vec<String> = Vec::new();
                assert(views(out@) =~= Seq::empty());
                out
            },
        }
    }

    /// The index of the entry selected.
    pub fn index(&self) -> (r: usize)
        ensures
            r == self@.index(),
    {
        match self {
            Modal::SelectModel(_, i, _) => *i,
            Modal::CommandList(_, i, _) => *i,
            Modal::McpServers(_, i) => *i,
            Modal::McpTools(_, _, i) => *i,
            Modal::ToolConfirm(_, _) => 0,
        }
    }

    /// Whether the height of the list can be counted.
    pub fn is_countable(&self) -> (r: bool)
        ensures
            r == self@.countable(),
    {
        let labels = self.labels();
        assert(views(labels@).len() == labels@.len());
        let count: u32 = (labels.len() % 0x10000) as u32;
        match self {
            Modal::ToolConfirm(_, _) => true,
            Modal::SelectModel(_, _, _) => count + 4 <= u16::MAX as u32,
            _ => count + 3 <= u16::MAX as u32,
        }
    }

    /// The height of the modal, whose list has the given count of entries.
    fn height(&self, count: usize) -> (r: u16)
        requires
            count == self@.labels().len(),
            self@.countable(),
        ensures
            r == self@.height(),
    {
        let count: u16 = (count % 0x10000) as u16;
        let height: u16 = match self {
            Modal::ToolConfirm(_, _) => {
                return 8;
            },
            Modal::SelectModel(_, _, _) => count + 4,
            _ => count + 3,
        };
        if height < 16 {
            height
        } else {
            16
        }
    }

    /// The title of the modal, whose list has the given count of entries.
    fn title(&self, count: usize) -> (r: String)
        requires
            count == self@.labels().len(),
        ensures
            r@ == self@.title(),
    {
        match self {
            Modal::SelectModel(_, _, search) => if search.as_str().is_empty() {
                " Select Model (type to filter, ↑↓ ↵ Esc) ".to_string()
            } else {
                let mut title = " ".to_string();
                title.append(search.as_str());
                title.append(" (");
                title.append(text::decimal(count as u64).as_str());
                title.append(" match) ");
                title
            },
            Modal::CommandList(_, _, partial) => {
                let mut title = " Commands matching '".to_string();
                title.append(partial.as_str());
                title.append("' (↑↓↵Tab Esc) ");
                title
            },
            Modal::McpServers(_, _) => " MCP Servers (↑↓ ↵ Esc) ".to_string(),
            Modal::McpTools(name, _, _) => {
                let mut title = " ".to_string();
                title.append(name.as_str());
                title.append(" Tools (↑↓ Esc) ");
                title
            },
            Modal::ToolConfirm(_, _) => " Call tool? (y/n) ".to_string(),
        }
    }
}

/// The entries in sight.
fn entries_in_sight(labels: &Vec<String>, selected: usize, visible: usize) -> (r: Vec<String>)
    ensures
        views(r@) == visible_entries(views(labels@), selected as int, visible as int),
{
    let total = labels.len();
    let ghost all = views(labels@);
    let from = calculate_scroll(selected, total, visible);
    let ghost wanted = visible_entries(all, selected as int, visible as int);
    let mut out: Vec<String> = Vec::new();
    let mut i: usize = 0;
    assert(views(out@) =~= wanted.take(0));
    while i < visible && i < total - from
        invariant
            total == labels@.len(),
            all == views(labels@),
            from == first_visible(selected as int, total as int, visible as int),
            from <= total,
            wanted == visible_entries(all, selected as int, visible as int),
            wanted.len() == lesser(visible as int, total - from),
            i <= wanted.len(),
            views(out@) == wanted.take(i as int),
        decreases total - from - i,
    {
        let ghost had = out@;
        let mut entry = marker_text(from + i == selected);
        entry.append(labels[from + i].as_str());
        out.push(entry);
        assert(wanted[i as int] == entry@);
        assert(views(out@) =~= views(had).push(entry@));
        assert(wanted.take(i + 1) =~= wanted.take(i as int).push(entry@));
        i += 1;
    }
    assert(wanted.take(i as int) =~= wanted);
    out
}

/// The modal on a screen of the given size.
pub fn render_modal(modal: &Modal, width: u16, height: u16) -> (r: Popup)
    requires
        modal@.countable(),
    ensures
        r@ == modal@.popup(width, height),
{
    let labels = modal.labels();
    let count = labels.len();
    assert(views(labels@).len() == count);
    let rows = modal.height(count);
    let area = Area {
        x: width.saturating_sub(50) / 2,
        y: height.saturating_sub(rows) / 2,
        width: 50,
        height: rows,
    };
    let inside = match modal {
        Modal::ToolConfirm(tool, args) => {
            let mut content = "Tool: ".to_string();
            content.append(tool.as_str());
            content.append("\n\nArgs:\n");
            content.append(args.as_str());
            content.append("\n\n(y=confirm, n=cancel)");
            Inside::Text(content)
        },
        _ => Inside::Entries(
            entries_in_sight(&labels, modal.index(), rows.saturating_sub(2) as usize),
        ),
    };
    Popup {
        area,
        title: modal.title(count),
        inside,
        style: Style { fg: Some(Color::White), bg: Some(Color::DarkGray) },
    }
}

/// The modal on a screen of the given size, where the height of its list can be counted.
pub fn modal_popup(modal: &Modal, width: u16, height: u16) -> (r: Option<Popup>)
    ensures
        match r {
            Some(p) => modal@.countable() && p@ == modal@.popup(width, height),
            None => !modal@.countable(),
        },
{
    if modal.is_countable() {
        Some(render_modal(modal, width, height))
    } else {
        None
    }
}

/// The entry selected of a list is always among those in sight, with the mark before it.
pub proof fn law_selected_entry_is_shown(modal: ModalView)
    requires
        !(modal is ToolConfirm),
        0 <= modal.index() < modal.labels().len(),
    ensures
        modal.inside() matches InsideView::Entries(entries) && entries.contains(
            marker(true) + modal.labels()[modal.index()],
        ),
{
    let labels = modal.labels();
    let visible = less(modal.height(), 2);
    law_selection_in_sight(modal.index(), labels.len() as int, visible);
    let from = first_visible(modal.index(), labels.len() as int, visible);
    let entries = visible_entries(labels, modal.index(), visible);
    assert(entries[modal.index() - from] == marker(true) + labels[modal.index()]);
}

/// The input on the screen starts with what has been typed.
pub proof fn law_input_is_shown(input: Seq<char>)
    ensures
        (">> "@ + input).is_prefix_of(input_line(input)),
{
    law_suggestion_completes(input);
    if let Some(s) = suggestion(input) {
        assert(s.subrange(0, input.len() as int) =~= input);
        assert((">> "@ + s).subrange(0, (">> "@ + input).len() as int) =~= ">> "@ + input);
    }
}

} // verus!

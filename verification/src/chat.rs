//! What the server's reply to a chat request gives.
use vstd::prelude::*;
use vstd::string::*;

use crate::event::{AsyncEvent, PendingToolCall};
#[allow(unused_imports)]
use crate::event::{event_views, EventView, PendingView};
use crate::http::Status;
#[allow(unused_imports)]
use crate::http::{status_line, succeeded};
use crate::json::{get_member, get_text, Json};
#[allow(unused_imports)]
use crate::json::{array, item, item_views, member, string, JsonView};
use crate::json_text::{parse, to_pretty_text};
#[allow(unused_imports)]
use crate::json_text::{parsed, printed_pretty, reading};
use crate::text;
#[allow(unused_imports)]
use crate::text::{joined, lines_of, views};

verus! {

/// What became of a chat request.
#[derive(Debug)]
pub enum ChatReply {
    /// No reply came, for the reason given.
    Failed(String),
    /// A reply came, with this text for a body.
    Replied(Status, String),
}

/// What a `ChatReply` says.
pub enum ChatReplyView {
    Failed(Seq<char>),
    Replied(u16, Seq<char>),
}

impl View for ChatReply {
    type V = ChatReplyView;

    open spec fn view(&self) -> ChatReplyView {
        match self {
            ChatReply::Failed(e) => ChatReplyView::Failed(e@),
            ChatReply::Replied(status, text) => ChatReplyView::Replied(status.code(), text@),
        }
    }
}

/// The first three lines of a text, as one.
pub open spec fn three_lines(text: Seq<char>) -> Seq<char> {
    let lines = lines_of(text);
    joined(
        if lines.len() <= 3 {
            lines
        } else {
            lines.take(3)
        },
        " "@,
    )
}

/// The message that a refusal carries, given its status line and what its text reads as.
pub open spec fn refusal_message(
    line: Seq<char>,
    text: Seq<char>,
    whole: Result<JsonView, Seq<char>>,
) -> Seq<char> {
    if text.len() == 0 {
        "API Error: HTTP "@ + line
    } else {
        let reason = match whole {
            Ok(j) => string(member(j.get("error"@), "message"@)),
            Err(_) => None,
        };
        "API Error (HTTP "@ + line + "): "@ + (match reason {
            Some(m) => m,
            None => three_lines(text),
        })
    }
}

/// The data that a line of the stream carries. The mark at the end of the stream is none.
pub open spec fn line_data(line: Seq<char>) -> Option<Seq<char>> {
    if "data: "@.is_prefix_of(line) && line.skip(6) != "[DONE]"@ {
        Some(line.skip(6))
    } else {
        None
    }
}

/// The value that a line of the stream carries.
pub open spec fn line_value(line: Seq<char>) -> Option<JsonView> {
    match line_data(line) {
        Some(data) => match parsed(data) {
            Ok(j) => Some(j),
            Err(_) => None,
        },
        None => None,
    }
}

/// The values that the stream carries, in their order.
pub open spec fn stream_values(text: Seq<char>) -> Seq<JsonView> {
    lines_of(text).filter_map(|line: Seq<char>| line_value(line))
}

/// What a value of the stream adds to the message.
pub open spec fn delta(value: JsonView) -> Option<JsonView> {
    member(item(value.get("choices"@), 0), "delta"@)
}

/// The text that a value of the stream adds.
pub open spec fn delta_text(value: JsonView) -> Option<Seq<char>> {
    string(member(delta(value), "content"@))
}

/// The text, or none.
pub open spec fn text_or_empty(s: Option<Seq<char>>) -> Seq<char> {
    match s {
        Some(s) => s,
        None => Seq::empty(),
    }
}

/// A call of a tool, or a piece of one: its identity, the tool's name, and the text of its arguments.
#[derive(Debug)]
pub struct ToolCall {
    pub id: String,
    pub name: String,
    pub args: String,
}

/// What a `ToolCall` says.
pub struct CallView {
    pub id: Seq<char>,
    pub name: Seq<char>,
    pub args: Seq<char>,
}

impl View for ToolCall {
    type V = CallView;

    open spec fn view(&self) -> CallView {
        CallView { id: self.id@, name: self.name@, args: self.args@ }
    }
}

/// The views of a list of calls.
pub open spec fn call_views(calls: Seq<ToolCall>) -> Seq<CallView> {
    calls.map_values(|c: ToolCall| c@)
}

/// The piece of a call that an entry of the stream carries. One without an identity carries none.
pub open spec fn call_piece(entry: JsonView) -> Option<CallView> {
    match string(entry.get("id"@)) {
        Some(id) => Some(
            CallView {
                id,
                name: text_or_empty(string(member(entry.get("function"@), "name"@))),
                args: text_or_empty(string(member(entry.get("function"@), "arguments"@))),
            },
        ),
        None => None,
    }
}

/// The pieces of calls that a value of the stream carries, in their order.
pub open spec fn delta_pieces(value: JsonView) -> Seq<CallView> {
    match array(member(delta(value), "tool_calls"@)) {
        Some(entries) => entries.filter_map(|e: JsonView| call_piece(e)),
        None => Seq::empty(),
    }
}

/// The index of the call with the given identity.
pub open spec fn call_index(calls: Seq<CallView>, id: Seq<char>) -> Option<int>
    decreases calls.len(),
{
    if calls.len() == 0 {
        None
    } else {
        match call_index(calls.drop_last(), id) {
            Some(i) => Some(i),
            None => if calls.last().id == id {
                Some(calls.len() - 1)
            } else {
                None
            },
        }
    }
}

/// The calls once a piece is added: to the call that it belongs to, or as a call of its own.
pub open spec fn with_piece(calls: Seq<CallView>, piece: CallView) -> Seq<CallView> {
    match call_index(calls, piece.id) {
        Some(i) => calls.update(i, CallView { args: calls[i].args + piece.args, ..calls[i] }),
        None => calls.push(piece),
    }
}

/// The calls once pieces are added one after the other.
pub open spec fn with_pieces(calls: Seq<CallView>, pieces: Seq<CallView>) -> Seq<CallView>
    decreases pieces.len(),
{
    if pieces.len() == 0 {
        calls
    } else {
        with_piece(with_pieces(calls, pieces.drop_last()), pieces.last())
    }
}

/// The calls whose pieces the values carry.
pub open spec fn gathered_calls(values: Seq<JsonView>) -> Seq<CallView>
    decreases values.len(),
{
    if values.len() == 0 {
        Seq::empty()
    } else {
        with_pieces(gathered_calls(values.drop_last()), delta_pieces(values.last()))
    }
}

/// The request that a call makes, given its arguments and how they are to be shown. The server is
/// found later.
pub open spec fn requested(
    call: CallView,
    args: JsonView,
    display: Option<Seq<char>>,
) -> PendingView {
    PendingView {
        id: call.id,
        tool_name: call.name,
        args,
        server_name: Seq::empty(),
        args_display: match display {
            Some(s) => s,
            None => call.args,
        },
    }
}

/// The request that a call makes, given what the text of its arguments reads as.
pub open spec fn call_request(
    call: CallView,
    args: Result<JsonView, Seq<char>>,
) -> Option<PendingView> {
    match args {
        Ok(j) => Some(requested(call, j, printed_pretty(j))),
        Err(_) => None,
    }
}

/// The event for a value of the stream.
pub open spec fn chunk_event(v: JsonView) -> Option<EventView> {
    match delta_text(v) {
        Some(s) => Some(EventView::ChatChunk(s)),
        None => None,
    }
}

/// The event for a call, as its arguments read.
pub open spec fn call_event(c: CallView) -> Option<EventView> {
    match call_request(c, parsed(c.args)) {
        Some(p) => Some(EventView::ToolCallRequested(p)),
        None => None,
    }
}

/// The events that a stream gives: the texts that it adds, the calls that it asks for, and its end.
pub open spec fn stream_events(text: Seq<char>) -> Seq<EventView> {
    let values = stream_values(text);
    values.filter_map(|v: JsonView| chunk_event(v)) + gathered_calls(values).filter_map(
        |c: CallView| call_event(c),
    ) + seq![EventView::ChatFinished]
}

/// The events that a reply gives.
pub open spec fn reply_events(reply: ChatReplyView) -> Seq<EventView> {
    match reply {
        ChatReplyView::Failed(e) => seq![
            EventView::ChatError("Connection Error: "@ + e),
            EventView::ChatFinished,
        ],
        ChatReplyView::Replied(code, text) => if succeeded(code) {
            stream_events(text)
        } else {
            seq![
                EventView::ChatError(refusal_message(status_line(code), text, parsed(text))),
                EventView::ChatFinished,
            ]
        },
    }
}

/// The first three lines of a text, as one.
fn first_three_lines(text: &str) -> (r: String)
    ensures
        r@ == three_lines(text@),
{
    let mut lines = text::lines(text);
    let ghost all = lines@;
    if lines.len() > 3 {
        lines.truncate(3);
        assert(views(lines@) =~= views(all).take(3));
    }
    text::join(&lines, " ")
}

/// The message that a refusal carries, given its status line and what its text reads as.
pub fn refusal(line: &str, text: &str, whole: Result<Json, String>) -> (r: String)
    ensures
        r@ == refusal_message(line@, text@, reading(whole)),
{
    if text.is_empty() {
        let mut r = "API Error: HTTP ".to_string();
        r.append(line);
        return r;
    }
    let reason = match &whole {
        Ok(j) => match j.get("error") {
            Some(e) => get_text(e, "message"),
            None => None,
        },
        Err(_e) => None,
    };
    let mut r = "API Error (HTTP ".to_string();
    r.append(line);
    r.append("): ");
    match reason {
        Some(m) => {
            r.append(m);
        },
        None => {
            r.append(first_three_lines(text).as_str());
        },
    }
    r
}

/// What a value of the stream adds to the message.
fn find_delta(value: &Json) -> (r: Option<&Json>)
    ensures
        match r {
            Some(j) => delta(value@) == Some(j@),
            None => delta(value@) is None,
        },
{
    match value.get("choices") {
        Some(choices) => match choices.at(0) {
            Some(first) => first.get("delta"),
            None => None,
        },
        None => None,
    }
}

/// The text that a value of the stream adds.
pub fn added_text(value: &Json) -> (r: Option<String>)
    ensures
        r.deep_view() == delta_text(value@),
{
    match get_member(find_delta(value), "content") {
        Some(c) => match c.as_str() {
            Some(s) => Some(s.to_string()),
            None => None,
        },
        None => None,
    }
}

/// The piece of a call that an entry of the stream carries.
pub fn read_piece(entry: &Json) -> (r: Option<ToolCall>)
    ensures
        match r {
            Some(c) => call_piece(entry@) == Some(c@),
            None => call_piece(entry@) is None,
        },
{
    match get_text(entry, "id") {
        Some(id) => {
            let function = entry.get("function");
            let name = match function {
                Some(f) => get_text(f, "name"),
                None => None,
            };
            let args = match function {
                Some(f) => get_text(f, "arguments"),
                None => None,
            };
            let name = match name {
                Some(s) => s.to_string(),
                None => String::new(),
            };
            let args = match args {
                Some(s) => s.to_string(),
                None => String::new(),
            };
            Some(ToolCall { id: id.to_string(), name, args })
        },
        None => None,
    }
}

/// The pieces of calls that a value of the stream carries, in their order.
pub fn read_pieces(value: &Json) -> (r: Vec<ToolCall>)
    ensures
        call_views(r@) == delta_pieces(value@),
{
    let mut out: Vec<ToolCall> = Vec::new();
    let entries = match get_member(find_delta(value), "tool_calls") {
        Some(t) => t.as_array(),
        None => None,
    };
    match entries {
        Some(entries) => {
            let ghost wanted = item_views(entries@);
            let ghost pick = |e: JsonView| call_piece(e);
            let mut i: usize = 0;
            assert(wanted.take(0).filter_map(pick) =~= Seq::<CallView>::empty());
            assert(call_views(out@) =~= Seq::<CallView>::empty());
            while i < entries.len()
                invariant
                    i <= entries@.len(),
                    wanted == item_views(entries@),
                    pick == (|e: JsonView| call_piece(e)),
                    call_views(out@) == wanted.take(i as int).filter_map(pick),
                decreases entries@.len() - i,
            {
                let ghost had = out@;
                proof {
                    wanted.lemma_filter_map_take_succ(pick, i as int);
                }
                if let Some(piece) = read_piece(&entries[i]) {
                    out.push(piece);
                    assert(call_views(out@) =~= call_views(had).push(piece@));
                }
                i += 1;
            }
            assert(wanted.take(i as int) =~= wanted);
        },
        None => {
            assert(call_views(out@) =~= Seq::<CallView>::empty());
        },
    }
    out
}

/// The index of a call is where the first call with that identity stands.
proof fn lemma_call_index(calls: Seq<CallView>, id: Seq<char>, n: int)
    requires
        0 <= n <= calls.len(),
        forall|j: int| 0 <= j < n ==> (#[trigger] calls[j]).id != id,
    ensures
        n == calls.len() ==> call_index(calls, id) is None,
        n < calls.len() && calls[n].id == id ==> call_index(calls, id) == Some(n),
    decreases calls.len(),
{
    if calls.len() > 0 {
        let front = calls.drop_last();
        if n < calls.len() {
            assert forall|j: int| 0 <= j < n implies (#[trigger] front[j]).id != id by {
                assert(front[j] == calls[j]);
            }
            lemma_call_index(front, id, n);
        } else {
            assert forall|j: int| 0 <= j < n - 1 implies (#[trigger] front[j]).id != id by {
                assert(front[j] == calls[j]);
            }
            lemma_call_index(front, id, n - 1);
            assert(calls[n - 1].id != id);
        }
    }
}

/// Adds a piece to the call that it belongs to, or as a call of its own.
pub fn add_piece(calls: &mut Vec<ToolCall>, piece: ToolCall)
    ensures
        call_views(final(calls)@) == with_piece(call_views(old(calls)@), piece@),
{
    let ghost before = call_views(calls@);
    let mut i: usize = 0;
    while i < calls.len()
        invariant
            i <= calls@.len(),
            before == call_views(calls@),
            before == call_views(old(calls)@),
            forall|j: int| 0 <= j < i ==> (#[trigger] before[j]).id != piece.id@,
        decreases calls@.len() - i,
    {
        assert(before[i as int] == calls@[i as int]@);
        if calls[i].id == piece.id {
            proof {
                lemma_call_index(before, piece.id@, i as int);
            }
            let mut call = calls.remove(i);
            call.args.append(piece.args.as_str());
            calls.insert(i, call);
            assert(call_views(calls@) =~= with_piece(before, piece@));
            return;
        }
        i += 1;
    }
    proof {
        lemma_call_index(before, piece.id@, i as int);
    }
    calls.push(piece);
    assert(call_views(calls@) =~= before.push(piece@));
}

/// Adds pieces one after the other.
pub fn add_pieces(calls: &mut Vec<ToolCall>, pieces: Vec<ToolCall>)
    ensures
        call_views(final(calls)@) == with_pieces(call_views(old(calls)@), call_views(pieces@)),
{
    let ghost before = call_views(calls@);
    let ghost all = pieces@;
    let ghost wanted = call_views(all);
    assert(wanted.take(0) =~= Seq::empty());
    for piece in it: pieces
        invariant
            it.seq() == all,
            wanted == call_views(all),
            call_views(calls@) == with_pieces(before, wanted.take(it.index() as int)),
    {
        let ghost n = it.index() as int;
        assert(wanted.take(n + 1).drop_last() =~= wanted.take(n));
        assert(wanted.take(n + 1).last() == piece@);
        add_piece(calls, piece);
    }
    assert(wanted.take(all.len() as int) =~= wanted);
}

/// The request that a call makes, given its arguments and how they are to be shown.
pub fn pending_call(call: ToolCall, args: Json, display: Option<String>) -> (r: PendingToolCall)
    ensures
        r@ == requested(call@, args@, display.deep_view()),
{
    PendingToolCall {
        id: call.id,
        tool_name: call.name,
        args,
        server_name: String::new(),
        args_display: match display {
            Some(s) => s,
            None => call.args,
        },
    }
}

/// The request that a call makes, given what the text of its arguments reads as.
pub fn request_call(call: ToolCall, args: Result<Json, String>) -> (r: Option<PendingToolCall>)
    ensures
        match r {
            Some(p) => call_request(call@, reading(args)) == Some(p@),
            None => call_request(call@, reading(args)) is None,
        },
        r matches Some(p) ==> printed_pretty(p@.args) == Some(p@.args_display),
{
    match args {
        Ok(args) => {
            let display = to_pretty_text(&args);
            Some(pending_call(call, args, display))
        },
        Err(_e) => None,
    }
}

/// The data that a line of the stream carries.
pub fn data_of(line: &str) -> (r: Option<String>)
    ensures
        r.deep_view() == line_data(line@),
{
    if !text::starts_with(line, "data: ") {
        return None;
    }
    proof {
        reveal_strlit("data: ");
    }
    let n = line.unicode_len();
    let rest = text::slice(line, 6, n);
    assert(rest@ =~= line@.skip(6));
    if text::same(rest.as_str(), "[DONE]") {
        None
    } else {
        Some(rest)
    }
}

/// The value that a line of the stream carries.
fn read_line(line: &str) -> (r: Option<Json>)
    ensures
        match r {
            Some(j) => line_value(line@) == Some(j@),
            None => line_value(line@) is None,
        },
{
    match data_of(line) {
        Some(data) => match parse(data.as_str()) {
            Ok(j) => Some(j),
            Err(_e) => None,
        },
        None => None,
    }
}

/// The values that the stream carries, in their order.
fn read_values(text: &str) -> (r: Vec<Json>)
    ensures
        item_views(r@) == stream_values(text@),
{
    let lines = text::lines(text);
    let ghost wanted = lines_of(text@);
    let ghost pick = |line: Seq<char>| line_value(line);
    let mut out: Vec<Json> = Vec::new();
    let mut i: usize = 0;
    assert(wanted.take(0).filter_map(pick) =~= Seq::<JsonView>::empty());
    assert(item_views(out@) =~= Seq::<JsonView>::empty());
    while i < lines.len()
        invariant
            i <= lines@.len(),
            wanted == views(lines@),
            pick == (|line: Seq<char>| line_value(line)),
            item_views(out@) == wanted.take(i as int).filter_map(pick),
        decreases lines@.len() - i,
    {
        let ghost had = out@;
        proof {
            wanted.lemma_filter_map_take_succ(pick, i as int);
        }
        assert(wanted[i as int] == lines@[i as int]@);
        if let Some(value) = read_line(lines[i].as_str()) {
            out.push(value);
            assert(item_views(out@) =~= item_views(had).push(value@));
        }
        i += 1;
    }
    assert(wanted.take(i as int) =~= wanted);
    out
}

/// The calls whose pieces the values carry.
pub fn gather(values: &Vec<Json>) -> (r: Vec<ToolCall>)
    ensures
        call_views(r@) == gathered_calls(item_views(values@)),
{
    let ghost wanted = item_views(values@);
    let mut calls: Vec<ToolCall> = Vec::new();
    let mut i: usize = 0;
    assert(wanted.take(0) =~= Seq::empty());
    assert(call_views(calls@) =~= Seq::empty());
    while i < values.len()
        invariant
            i <= values@.len(),
            wanted == item_views(values@),
            call_views(calls@) == gathered_calls(wanted.take(i as int)),
        decreases values@.len() - i,
    {
        let pieces = read_pieces(&values[i]);
        add_pieces(&mut calls, pieces);
        assert(wanted.take(i + 1).drop_last() =~= wanted.take(i as int));
        assert(wanted.take(i + 1).last() == values@[i as int]@);
        i += 1;
    }
    assert(wanted.take(i as int) =~= wanted);
    calls
}

/// The events for the texts that the values add.
pub fn chunk_events(values: &Vec<Json>) -> (r: Vec<AsyncEvent>)
    ensures
        event_views(r@) == item_views(values@).filter_map(|v: JsonView| chunk_event(v)),
{
    let ghost wanted = item_views(values@);
    let ghost pick = |v: JsonView| chunk_event(v);
    let mut out: Vec<AsyncEvent> = Vec::new();
    let mut i: usize = 0;
    assert(wanted.take(0).filter_map(pick) =~= Seq::<EventView>::empty());
    assert(event_views(out@) =~= Seq::<EventView>::empty());
    while i < values.len()
        invariant
            i <= values@.len(),
            wanted == item_views(values@),
            pick == (|v: JsonView| chunk_event(v)),
            event_views(out@) == wanted.take(i as int).filter_map(pick),
        decreases values@.len() - i,
    {
        let ghost had = out@;
        proof {
            wanted.lemma_filter_map_take_succ(pick, i as int);
        }
        if let Some(s) = added_text(&values[i]) {
            let event = AsyncEvent::ChatChunk(s);
            out.push(event);
            assert(event_views(out@) =~= event_views(had).push(event@));
        }
        i += 1;
    }
    assert(wanted.take(i as int) =~= wanted);
    out
}

/// The events for the calls.
fn call_events(calls: Vec<ToolCall>) -> (r: Vec<AsyncEvent>)
    ensures
        event_views(r@) == call_views(calls@).filter_map(|c: CallView| call_event(c)),
{
    let ghost all = calls@;
    let ghost wanted = call_views(all);
    let ghost pick = |c: CallView| call_event(c);
    let mut out: Vec<AsyncEvent> = Vec::new();
    assert(wanted.take(0).filter_map(pick) =~= Seq::<EventView>::empty());
    assert(event_views(out@) =~= Seq::<EventView>::empty());
    for call in it: calls
        invariant
            it.seq() == all,
            wanted == call_views(all),
            pick == (|c: CallView| call_event(c)),
            event_views(out@) == wanted.take(it.index() as int).filter_map(pick),
    {
        let ghost had = out@;
        proof {
            wanted.lemma_filter_map_take_succ(pick, it.index() as int);
            assert(wanted[it.index() as int] == call@);
        }
        let args = parse(call.args.as_str());
        if let Some(pending) = request_call(call, args) {
            let event = AsyncEvent::ToolCallRequested(pending);
            out.push(event);
            assert(event_views(out@) =~= event_views(had).push(event@));
        }
    }
    assert(wanted.take(all.len() as int) =~= wanted);
    out
}

/// The events that a stream gives.
fn read_stream(text: &str) -> (r: Vec<AsyncEvent>)
    ensures
        event_views(r@) == stream_events(text@),
{
    let values = read_values(text);
    let mut events = chunk_events(&values);
    let ghost chunks = events@;
    let mut requests = call_events(gather(&values));
    let ghost asked = requests@;
    events.append(&mut requests);
    events.push(AsyncEvent::ChatFinished);
    assert(event_views(events@) =~= event_views(chunks) + event_views(asked)
        + seq![EventView::ChatFinished]);
    events
}

/// The events that a reply gives.
pub fn chat_events(reply: ChatReply) -> (r: Vec<AsyncEvent>)
    ensures
        event_views(r@) == reply_events(reply@),
{
    match reply {
        ChatReply::Failed(e) => {
            let mut s = "Connection Error: ".to_string();
            s.append(e.as_str());
            let r = vec![AsyncEvent::ChatError(s), AsyncEvent::ChatFinished];
            assert(event_views(r@) =~= reply_events(reply@));
            r
        },
        ChatReply::Replied(status, text) => if status.is_success() {
            read_stream(text.as_str())
        } else {
            let s = refusal(status.text().as_str(), text.as_str(), parse(text.as_str()));
            let r = vec![AsyncEvent::ChatError(s), AsyncEvent::ChatFinished];
            assert(event_views(r@) =~= reply_events(reply@));
            r
        },
    }
}

/// Whatever comes of a chat request, its end is told, once and last.
pub proof fn law_reply_ends(reply: ChatReplyView)
    ensures
        reply_events(reply).len() > 0,
        reply_events(reply).last() == EventView::ChatFinished,
        forall|i: int|
            0 <= i < reply_events(reply).len() - 1 ==> !(
            #[trigger] reply_events(reply)[i] is ChatFinished),
{
    match reply {
        ChatReplyView::Replied(code, text) => {
            if succeeded(code) {
                let values = stream_values(text);
                let calls = gathered_calls(values);
                lemma_filter_map_all(
                    values,
                    |v: JsonView| chunk_event(v),
                    |e: EventView| !(e is ChatFinished),
                );
                lemma_filter_map_all(
                    calls,
                    |c: CallView| call_event(c),
                    |e: EventView| !(e is ChatFinished),
                );
                let chunks = values.filter_map(|v: JsonView| chunk_event(v));
                let asked = calls.filter_map(|c: CallView| call_event(c));
                let all = reply_events(reply);
                assert forall|i: int| 0 <= i < all.len() - 1 implies !(
                #[trigger] all[i] is ChatFinished) by {
                    if i < chunks.len() {
                        assert(all[i] == chunks[i]);
                    } else {
                        assert(all[i] == asked[i - chunks.len()]);
                    }
                }
            }
        },
        _ => {},
    }
}

/// What holds of everything that is picked holds of all that was.
proof fn lemma_filter_map_all<A, B>(
    s: Seq<A>,
    pick: spec_fn(A) -> Option<B>,
    good: spec_fn(B) -> bool,
)
    requires
        forall|a: A| (#[trigger] pick(a)) is Some ==> good(pick(a)->0),
    ensures
        forall|i: int| 0 <= i < s.filter_map(pick).len() ==> good(#[trigger] s.filter_map(pick)[i]),
    decreases s.len(),
{
    if s.len() > 0 {
        lemma_filter_map_all(s.drop_last(), pick, good);
        let n = s.len() - 1;
        s.lemma_filter_map_take_succ(pick, n);
        assert(s.take(n) =~= s.drop_last());
        assert(s.take(n + 1) =~= s);
    }
}

/// The calls have identities of their own: no two calls have the same.
pub open spec fn identities_differ(calls: Seq<CallView>) -> bool {
    forall|i: int, j: int|
        0 <= i < j < calls.len() ==> (#[trigger] calls[i]).id != (#[trigger] calls[j]).id
}

/// A piece added leaves the identities apart.
proof fn lemma_piece_keeps_identities(calls: Seq<CallView>, piece: CallView)
    requires
        identities_differ(calls),
    ensures
        identities_differ(with_piece(calls, piece)),
{
    lemma_call_index_found(calls, piece.id);
}

/// An index that is found is that of a call with the identity; where none is found, no call has it.
proof fn lemma_call_index_found(calls: Seq<CallView>, id: Seq<char>)
    ensures
        match call_index(calls, id) {
            Some(i) => 0 <= i < calls.len() && calls[i].id == id,
            None => forall|j: int| 0 <= j < calls.len() ==> (#[trigger] calls[j]).id != id,
        },
    decreases calls.len(),
{
    if calls.len() > 0 {
        let front = calls.drop_last();
        lemma_call_index_found(front, id);
        if call_index(calls, id) is None {
            assert forall|j: int| 0 <= j < calls.len() implies (#[trigger] calls[j]).id != id by {
                if j < front.len() {
                    assert(front[j] == calls[j]);
                }
            }
        }
    }
}

/// Pieces added leave the identities apart.
proof fn lemma_pieces_keep_identities(calls: Seq<CallView>, pieces: Seq<CallView>)
    requires
        identities_differ(calls),
    ensures
        identities_differ(with_pieces(calls, pieces)),
    decreases pieces.len(),
{
    if pieces.len() > 0 {
        lemma_pieces_keep_identities(calls, pieces.drop_last());
        lemma_piece_keeps_identities(with_pieces(calls, pieces.drop_last()), pieces.last());
    }
}

/// However a stream cuts its calls into pieces, each call is asked for once.
pub proof fn law_calls_are_gathered_once(values: Seq<JsonView>)
    ensures
        identities_differ(gathered_calls(values)),
    decreases values.len(),
{
    if values.len() > 0 {
        law_calls_are_gathered_once(values.drop_last());
        lemma_pieces_keep_identities(
            gathered_calls(values.drop_last()),
            delta_pieces(values.last()),
        );
    }
}

/// Two pieces of one call, one after the other, add to its arguments what they add as one.
pub proof fn law_pieces_add_up(calls: Seq<CallView>, piece: CallView, more: Seq<char>)
    ensures
        with_piece(with_piece(calls, piece), CallView { args: more, ..piece }) == with_piece(
            calls,
            CallView { args: piece.args + more, ..piece },
        ),
{
    let one = with_piece(calls, piece);
    lemma_call_index_found(calls, piece.id);
    match call_index(calls, piece.id) {
        Some(i) => {
            assert(call_index(one, piece.id) == Some(i)) by {
                lemma_call_index_first(calls, piece.id);
                lemma_call_index(one, piece.id, i);
            }
            assert(calls[i].args + piece.args + more =~= calls[i].args + (piece.args + more));
        },
        None => {
            lemma_call_index(one, piece.id, calls.len() as int);
        },
    }
    assert(with_piece(one, CallView { args: more, ..piece }) =~= with_piece(
        calls,
        CallView { args: piece.args + more, ..piece },
    ));
}

/// No call before the one that is found has the identity.
proof fn lemma_call_index_first(calls: Seq<CallView>, id: Seq<char>)
    ensures
        call_index(calls, id) matches Some(i) ==> forall|j: int|
            0 <= j < i ==> (#[trigger] calls[j]).id != id,
    decreases calls.len(),
{
    if calls.len() > 0 {
        let front = calls.drop_last();
        lemma_call_index_first(front, id);
        lemma_call_index_found(front, id);
        if let Some(i) = call_index(calls, id) {
            assert forall|j: int| 0 <= j < i implies (#[trigger] calls[j]).id != id by {
                assert(front[j] == calls[j]);
            }
        }
    }
}

/// A request that fails or is refused is told as an error, and one that is carried out is not.
pub proof fn law_failure_is_told(reply: ChatReplyView)
    ensures
        (exists|i: int|
            0 <= i < reply_events(reply).len() && (#[trigger] reply_events(reply)[i]) is ChatError)
            <==> match reply {
            ChatReplyView::Failed(_) => true,
            ChatReplyView::Replied(code, _) => !succeeded(code),
        },
{
    let all = reply_events(reply);
    match reply {
        ChatReplyView::Replied(code, text) => {
            if succeeded(code) {
                let values = stream_values(text);
                let calls = gathered_calls(values);
                let good = |e: EventView| !(e is ChatError);
                lemma_filter_map_all(values, |v: JsonView| chunk_event(v), good);
                lemma_filter_map_all(calls, |c: CallView| call_event(c), good);
                let chunks = values.filter_map(|v: JsonView| chunk_event(v));
                let asked = calls.filter_map(|c: CallView| call_event(c));
                assert forall|i: int| 0 <= i < all.len() implies !(
                #[trigger] all[i] is ChatError) by {
                    if i < chunks.len() {
                        assert(all[i] == chunks[i]);
                        assert(good(chunks[i]));
                    } else if i < chunks.len() + asked.len() {
                        assert(all[i] == asked[i - chunks.len()]);
                        assert(good(asked[i - chunks.len()]));
                    }
                }
            } else {
                assert(all[0] is ChatError);
            }
        },
        ChatReplyView::Failed(_) => {
            assert(all[0] is ChatError);
        },
    }
}

} // verus!

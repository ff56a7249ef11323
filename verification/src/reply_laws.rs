//! What holds of the replies of the chat server.
use vstd::prelude::*;

#[allow(unused_imports)]
use crate::chat::{
    call_event, call_piece, call_index, chunk_event, delta, delta_pieces, delta_text,
    gathered_calls, line_data, line_value, reply_events, stream_events, stream_values, with_piece,
    with_pieces, CallView, ChatReplyView,
};
#[allow(unused_imports)]
use crate::event::EventView;
#[allow(unused_imports)]
use crate::http::{status_line, succeeded};
#[allow(unused_imports)]
use crate::json::{object, JsonView};
#[allow(unused_imports)]
use crate::json_laws::{has_member, has_text, law_object};
#[allow(unused_imports)]
use crate::json_text::{parsed, printed_pretty};
#[allow(unused_imports)]
use crate::text::lines_of;
#[allow(unused_imports)]
use crate::text_laws::law_joined;

verus! {

/// `d` is what the first choice of a value of the stream adds.
pub open spec fn adds(value: JsonView, d: JsonView) -> bool {
    exists|choices: Seq<JsonView>|
        {
            &&& #[trigger] has_member(value, "choices"@, JsonView::Array(choices))
            &&& choices.len() > 0
            &&& has_member(choices[0], "delta"@, d)
        }
}

/// `s` is the text that a value of the stream adds.
pub open spec fn adds_text(value: JsonView, s: Seq<char>) -> bool {
    exists|d: JsonView| #[trigger]
        adds(value, d) && has_member(d, "content"@, JsonView::Text(s))
}

/// What a value of the stream adds is found, and nothing else.
proof fn lemma_adds(value: JsonView, d: JsonView)
    ensures
        delta(value) == Some(d) <==> adds(value, d),
{
    if delta(value) == Some(d) {
        let choices = value->Object_0["choices"@]->Array_0;
        assert(has_member(value, "choices"@, JsonView::Array(choices)));
    }
}

/// The text that a value of the stream adds is told character by character, and no value tells
/// anything else of the answer.
pub proof fn law_text_is_told_whole(value: JsonView, s: Seq<char>)
    ensures
        delta_text(value) == Some(s) <==> adds_text(value, s),
        chunk_event(value) == Some(EventView::ChatChunk(s)) <==> adds_text(value, s),
        chunk_event(value) is Some ==> chunk_event(value)->0 is ChatChunk,
{
    if delta_text(value) == Some(s) {
        let d = delta(value)->0;
        lemma_adds(value, d);
        assert(adds(value, d) && has_member(d, "content"@, JsonView::Text(s)));
    }
    if adds_text(value, s) {
        let d = choose|d: JsonView| #[trigger]
            adds(value, d) && has_member(d, "content"@, JsonView::Text(s));
        lemma_adds(value, d);
    }
}

/// A value made of one choice that adds a text tells that text.
pub proof fn law_made_text_is_told(s: Seq<char>)
    ensures
        chunk_event(
            object(
                seq![
                    (
                        "choices"@,
                        JsonView::Array(
                            seq![
                                object(
                                    seq![
                                        ("delta"@, object(seq![("content"@, JsonView::Text(s))])),
                                    ],
                                ),
                            ],
                        ),
                    ),
                ],
            ),
        ) == Some(EventView::ChatChunk(s)),
{
    let d = object(seq![("content"@, JsonView::Text(s))]);
    law_object(seq![("content"@, JsonView::Text(s))], "content"@, 0);
    let c = object(seq![("delta"@, d)]);
    law_object(seq![("delta"@, d)], "delta"@, 0);
    let choices = JsonView::Array(seq![c]);
    law_object(seq![("choices"@, choices)], "choices"@, 0);
    let v = object(seq![("choices"@, choices)]);
    assert(has_member(v, "choices"@, JsonView::Array(seq![c])));
    assert(adds(v, d));
    law_text_is_told_whole(v, s);
}

/// A line carries all that stands behind `data: `, unless that is the mark of the end; no other line
/// carries anything.
pub proof fn law_line_carries_its_data(line: Seq<char>, data: Seq<char>)
    ensures
        line_data(line) == Some(data) <==> line == "data: "@ + data && data != "[DONE]"@,
{
    reveal_strlit("data: ");
    if line == "data: "@ + data {
        assert(line.subrange(0, 6) =~= "data: "@);
        assert(line.skip(6) =~= data);
    }
    if line_data(line) == Some(data) {
        assert(line =~= line.subrange(0, 6) + line.skip(6));
    }
}

/// A line behind the lines that have come adds the value that its data reads as; a line that carries
/// nothing, or nothing that can be read, adds none. Nothing but the lines counts.
pub proof fn law_stream_grows(text: Seq<char>, more: Seq<char>, line: Seq<char>, data: Seq<char>)
    ensures
        lines_of(text).len() == 0 ==> stream_values(text).len() == 0,
        lines_of(more) == lines_of(text) ==> stream_values(more) == stream_values(text),
        lines_of(more) == lines_of(text).push(line) ==> {
            let before = stream_values(text);
            let after = stream_values(more);
            &&& line == "data: "@ + data && data != "[DONE]"@ ==> after == match parsed(data) {
                Ok(j) => before.push(j),
                Err(_) => before,
            }
            &&& (forall|d: Seq<char>| line != #[trigger] ("data: "@ + d)) ==> after == before
            &&& line == "data: [DONE]"@ ==> after == before
        },
{
    reveal_strlit("data: ");
    reveal_strlit("[DONE]");
    reveal_strlit("data: [DONE]");
    law_line_carries_its_data(line, data);
    if let Some(d) = line_data(line) {
        law_line_carries_its_data(line, d);
    }
    assert("data: [DONE]"@ =~= "data: "@ + "[DONE]"@);
    if line == "data: [DONE]"@ {
        if let Some(d) = line_data(line) {
            assert(d =~= line.skip(6));
            assert(d =~= "[DONE]"@);
        }
    }
    let pick = |l: Seq<char>| line_value(l);
    let lines = lines_of(text);
    if lines.len() == 0 {
        assert(lines.filter_map(pick) =~= Seq::empty());
    }
    let all = lines.push(line);
    all.lemma_filter_map_take_succ(pick, lines.len() as int);
    assert(all.take(lines.len() as int) =~= lines);
    assert(all.take(lines.len() as int + 1) =~= all);
}

/// The texts that events tell of the answer, in their order.
pub open spec fn told(events: Seq<EventView>) -> Seq<Seq<char>>
    decreases events.len(),
{
    if events.len() == 0 {
        Seq::empty()
    } else {
        match events.last() {
            EventView::ChatChunk(s) => told(events.drop_last()).push(s),
            _ => told(events.drop_last()),
        }
    }
}

/// What events tell is what their parts tell, one behind the other.
proof fn lemma_told_add(a: Seq<EventView>, b: Seq<EventView>)
    ensures
        told(a + b) == told(a) + told(b),
    decreases b.len(),
{
    if b.len() == 0 {
        assert(a + b =~= a);
        assert(told(a) + told(b) =~= told(a));
    } else {
        lemma_told_add(a, b.drop_last());
        assert((a + b).drop_last() =~= a + b.drop_last());
        assert((a + b).last() == b.last());
        assert(told(a) + told(b) =~= told(a + b));
    }
}

/// Events for calls tell nothing of the answer.
proof fn lemma_calls_tell_nothing(calls: Seq<CallView>)
    ensures
        told(calls.filter_map(|c: CallView| call_event(c))) == Seq::<Seq<char>>::empty(),
    decreases calls.len(),
{
    let pick = |c: CallView| call_event(c);
    if calls.len() > 0 {
        let n = calls.len() - 1;
        lemma_calls_tell_nothing(calls.drop_last());
        calls.lemma_filter_map_take_succ(pick, n);
        assert(calls.take(n) =~= calls.drop_last());
        assert(calls.take(n + 1) =~= calls);
        let front = calls.drop_last().filter_map(pick);
        if let Some(e) = call_event(calls.last()) {
            assert(calls.filter_map(pick) =~= front.push(e));
            assert(front.push(e).drop_last() =~= front);
        } else {
            assert(calls.filter_map(pick) =~= front);
        }
    } else {
        assert(calls.filter_map(pick) =~= Seq::empty());
    }
}

/// What a reply that was carried out tells of the answer.
proof fn lemma_told(text: Seq<char>)
    ensures
        told(stream_events(text)) == told(
            stream_values(text).filter_map(|v: JsonView| chunk_event(v)),
        ),
{
    let values = stream_values(text);
    let chunks = values.filter_map(|v: JsonView| chunk_event(v));
    let asked = gathered_calls(values).filter_map(|c: CallView| call_event(c));
    let end = seq![EventView::ChatFinished];
    lemma_told_add(chunks, asked);
    lemma_told_add(chunks + asked, end);
    lemma_calls_tell_nothing(gathered_calls(values));
    assert(end.drop_last() =~= Seq::empty());
    reveal_with_fuel(told, 2);
    assert(told(chunks) + Seq::empty() + Seq::empty() =~= told(chunks));
}

/// The answer that a reply tells grows with each line of data by exactly the text that the line adds,
/// and by nothing where it adds none. So the answer is all the texts of the lines, in their order.
pub proof fn law_answer_grows(
    code: u16,
    text: Seq<char>,
    more: Seq<char>,
    data: Seq<char>,
    s: Seq<char>,
)
    requires
        200 <= code < 300,
        lines_of(more) == lines_of(text).push("data: "@ + data),
        data != "[DONE]"@,
    ensures
        ({
            let before = told(reply_events(ChatReplyView::Replied(code, text)));
            let after = told(reply_events(ChatReplyView::Replied(code, more)));
            &&& (parsed(data) matches Ok(j) && adds_text(j, s)) ==> after == before.push(s)
            &&& (parsed(data) matches Ok(j) && (forall|t: Seq<char>| !adds_text(j, t))) ==> after
                == before
            &&& parsed(data) is Err ==> after == before
        }),
{
    law_stream_grows(text, more, "data: "@ + data, data);
    lemma_told(text);
    lemma_told(more);
    if let Ok(j) = parsed(data) {
        let pick = |v: JsonView| chunk_event(v);
        let values = stream_values(text);
        let all = values.push(j);
        let n = values.len() as int;
        all.lemma_filter_map_take_succ(pick, n);
        assert(all.take(n) =~= values);
        assert(all.take(n + 1) =~= all);
        law_text_is_told_whole(j, s);
        if let Some(e) = chunk_event(j) {
            law_text_is_told_whole(j, e->ChatChunk_0);
            let chunks = values.filter_map(pick);
            assert(all.filter_map(pick) =~= chunks.push(e));
            assert(chunks.push(e).drop_last() =~= chunks);
            assert(adds_text(j, e->ChatChunk_0));
        } else {
            assert(all.filter_map(pick) =~= values.filter_map(pick));
        }
    }
}

/// Lines that carry nothing tell nothing of the answer.
pub proof fn law_other_lines_tell_nothing(
    code: u16,
    text: Seq<char>,
    more: Seq<char>,
    line: Seq<char>,
)
    requires
        lines_of(more) == lines_of(text).push(line),
        line == "data: [DONE]"@ || forall|d: Seq<char>| line != #[trigger] ("data: "@ + d),
        200 <= code < 300,
    ensures
        reply_events(ChatReplyView::Replied(code, more)) == reply_events(
            ChatReplyView::Replied(code, text),
        ),
{
    law_stream_grows(text, more, line, line);
}

/// A reply that was carried out and has no text tells of its end alone.
pub proof fn law_empty_reply(code: u16)
    requires
        200 <= code < 300,
    ensures
        reply_events(ChatReplyView::Replied(code, Seq::empty())) == seq![EventView::ChatFinished],
{
    let none = lines_of(Seq::empty());
    assert(none.filter_map(|l: Seq<char>| line_value(l)) =~= Seq::empty());
    let values = stream_values(Seq::empty());
    assert(values.filter_map(|v: JsonView| chunk_event(v)) =~= Seq::empty());
    assert(gathered_calls(values).filter_map(|c: CallView| call_event(c)) =~= Seq::empty());
    assert(stream_events(Seq::empty()) =~= seq![EventView::ChatFinished]);
}

/// The text comes before the calls.
pub proof fn law_text_comes_first(reply: ChatReplyView, i: int, j: int)
    ensures
        ({
            let all = reply_events(reply);
            0 <= i < j < all.len() && all[j] is ChatChunk ==> all[i] is ChatChunk
        }),
{
    if let ChatReplyView::Replied(code, text) = reply {
        if succeeded(code) {
            let values = stream_values(text);
            let calls = gathered_calls(values);
            let chunks = values.filter_map(|v: JsonView| chunk_event(v));
            let asked = calls.filter_map(|c: CallView| call_event(c));
            lemma_chunks(values);
            lemma_calls(calls);
            let all = reply_events(reply);
            if 0 <= i < j < all.len() && all[j] is ChatChunk {
                if j >= chunks.len() {
                    if j < chunks.len() + asked.len() {
                        assert(all[j] == asked[j - chunks.len()]);
                    }
                    assert(false);
                }
                assert(all[i] == chunks[i]);
            }
        }
    }
}

/// Every event for a value of the stream tells a text.
proof fn lemma_chunks(values: Seq<JsonView>)
    ensures
        ({
            let chunks = values.filter_map(|v: JsonView| chunk_event(v));
            forall|i: int| 0 <= i < chunks.len() ==> (#[trigger] chunks[i]) is ChatChunk
        }),
    decreases values.len(),
{
    let pick = |v: JsonView| chunk_event(v);
    if values.len() > 0 {
        let n = values.len() - 1;
        lemma_chunks(values.drop_last());
        values.lemma_filter_map_take_succ(pick, n);
        assert(values.take(n) =~= values.drop_last());
        assert(values.take(n + 1) =~= values);
    }
}

/// Every event for a call asks for one of the calls.
proof fn lemma_calls(calls: Seq<CallView>)
    ensures
        ({
            let asked = calls.filter_map(|c: CallView| call_event(c));
            &&& forall|i: int|
                0 <= i < asked.len() ==> (#[trigger] asked[i]) is ToolCallRequested && exists|k: int|
                    0 <= k < calls.len() && call_event(#[trigger] calls[k]) == Some(asked[i])
            &&& forall|k: int|
                0 <= k < calls.len() && call_event(#[trigger] calls[k]) is Some ==> asked.contains(
                    call_event(calls[k])->0,
                )
        }),
    decreases calls.len(),
{
    let pick = |c: CallView| call_event(c);
    let asked = calls.filter_map(pick);
    if calls.len() > 0 {
        let n = calls.len() - 1;
        let front = calls.drop_last();
        let before = front.filter_map(pick);
        lemma_calls(front);
        calls.lemma_filter_map_take_succ(pick, n);
        assert(calls.take(n) =~= front);
        assert(calls.take(n + 1) =~= calls);
        assert forall|i: int| 0 <= i < asked.len() implies (
        #[trigger] asked[i]) is ToolCallRequested && exists|k: int|
            0 <= k < calls.len() && call_event(#[trigger] calls[k]) == Some(asked[i]) by {
            if i < before.len() {
                assert(asked[i] == before[i]);
                let k = choose|k: int|
                    0 <= k < front.len() && call_event(#[trigger] front[k]) == Some(before[i]);
                assert(calls[k] == front[k]);
            } else {
                assert(call_event(calls[n]) == Some(asked[i]));
            }
        }
        assert forall|k: int|
            0 <= k < calls.len() && call_event(#[trigger] calls[k]) is Some implies asked.contains(
            call_event(calls[k])->0,
        ) by {
            if k < n {
                assert(front[k] == calls[k]);
                let i = choose|i: int|
                    0 <= i < before.len() && before[i] == call_event(calls[k])->0;
                assert(asked[i] == before[i]);
            } else {
                assert(asked.last() == call_event(calls[k])->0);
            }
        }
    }
}

/// The piece of a call that an entry carries has the entry's identity, and the name and the arguments
/// of its function, each where it is a string. An entry without an identity carries none.
pub proof fn law_piece_is_read(entry: JsonView, id: Seq<char>, f: JsonView, s: Seq<char>)
    ensures
        call_piece(entry) is Some <==> has_text(entry, "id"@),
        has_member(entry, "id"@, JsonView::Text(id)) ==> call_piece(entry)->0.id == id,
        has_text(entry, "id"@) && has_member(entry, "function"@, f) && has_member(
            f,
            "name"@,
            JsonView::Text(s),
        ) ==> call_piece(entry)->0.name == s,
        has_text(entry, "id"@) && has_member(entry, "function"@, f) && has_member(
            f,
            "arguments"@,
            JsonView::Text(s),
        ) ==> call_piece(entry)->0.args == s,
        has_text(entry, "id"@) && has_member(entry, "function"@, f) && !has_text(f, "name"@)
            ==> call_piece(entry)->0.name.len() == 0,
        has_text(entry, "id"@) && has_member(entry, "function"@, f) && !has_text(f, "arguments"@)
            ==> call_piece(entry)->0.args.len() == 0,
{
    if let Some(c) = call_piece(entry) {
        assert(has_member(entry, "id"@, JsonView::Text(c.id)));
        if has_member(entry, "function"@, f) {
            assert(f.get("name"@) matches Some(JsonView::Text(t)) ==> has_member(
                f,
                "name"@,
                JsonView::Text(t),
            ));
            assert(f.get("arguments"@) matches Some(JsonView::Text(t)) ==> has_member(
                f,
                "arguments"@,
                JsonView::Text(t),
            ));
        }
    }
}

/// `entries` are the entries for calls that a value of the stream adds.
pub open spec fn adds_calls(value: JsonView, entries: Seq<JsonView>) -> bool {
    exists|d: JsonView| #[trigger]
        adds(value, d) && has_member(d, "tool_calls"@, JsonView::Array(entries))
}

/// The pieces that a value carries are those of its entries, in their order.
pub proof fn law_pieces_are_those_of_the_entries(
    v: JsonView,
    w: JsonView,
    entries: Seq<JsonView>,
    entry: JsonView,
)
    ensures
        (forall|e: Seq<JsonView>| !adds_calls(v, e)) ==> delta_pieces(v).len() == 0,
        adds_calls(v, Seq::empty()) ==> delta_pieces(v).len() == 0,
        adds_calls(v, entries) && adds_calls(w, entries.push(entry)) ==> delta_pieces(w) == (
        match call_piece(entry) {
            Some(c) => delta_pieces(v).push(c),
            None => delta_pieces(v),
        }),
{
    lemma_adds_calls(v);
    lemma_adds_calls(w);
    let pick = |e: JsonView| call_piece(e);
    assert(Seq::<JsonView>::empty().filter_map(pick) =~= Seq::empty());
    let all = entries.push(entry);
    let n = entries.len() as int;
    all.lemma_filter_map_take_succ(pick, n);
    assert(all.take(n) =~= entries);
    assert(all.take(n + 1) =~= all);
}

/// The entries for calls that a value adds are those read.
proof fn lemma_adds_calls(v: JsonView)
    ensures
        forall|e: Seq<JsonView>|
            adds_calls(v, e) ==> delta_pieces(v) == e.filter_map(|x: JsonView| call_piece(x)),
        (forall|e: Seq<JsonView>| !adds_calls(v, e)) ==> delta_pieces(v).len() == 0,
{
    assert forall|e: Seq<JsonView>| adds_calls(v, e) implies delta_pieces(v) == e.filter_map(
        |x: JsonView| call_piece(x),
    ) by {
        let d = choose|d: JsonView| #[trigger]
            adds(v, d) && has_member(d, "tool_calls"@, JsonView::Array(e));
        lemma_adds(v, d);
    }
    if delta(v) is Some {
        let d = delta(v)->0;
        lemma_adds(v, d);
        if let Some(JsonView::Array(e)) = d.get("tool_calls"@) {
            assert(has_member(d, "tool_calls"@, JsonView::Array(e)));
            assert(adds_calls(v, e));
        }
    }
}

/// The pieces of calls that values carry, one behind the other.
pub open spec fn all_pieces(values: Seq<JsonView>) -> Seq<CallView>
    decreases values.len(),
{
    if values.len() == 0 {
        Seq::empty()
    } else {
        all_pieces(values.drop_last()) + delta_pieces(values.last())
    }
}

/// The arguments of the pieces with an identity, one behind the other.
pub open spec fn arguments_of(pieces: Seq<CallView>, id: Seq<char>) -> Seq<char>
    decreases pieces.len(),
{
    if pieces.len() == 0 {
        Seq::empty()
    } else if pieces.last().id == id {
        arguments_of(pieces.drop_last(), id) + pieces.last().args
    } else {
        arguments_of(pieces.drop_last(), id)
    }
}

/// A piece with an identity is among the pieces.
pub open spec fn names(pieces: Seq<CallView>, id: Seq<char>) -> bool {
    exists|k: int| 0 <= k < pieces.len() && (#[trigger] pieces[k]).id == id
}

/// The first piece with an identity has the name.
pub open spec fn first_named(pieces: Seq<CallView>, id: Seq<char>, name: Seq<char>) -> bool {
    exists|k: int|
        {
            &&& 0 <= k < pieces.len()
            &&& (#[trigger] pieces[k]).id == id
            &&& pieces[k].name == name
            &&& forall|j: int| 0 <= j < k ==> (#[trigger] pieces[j]).id != id
        }
}

/// The calls are those of the pieces.
#[verifier::opaque]
pub open spec fn made_of(calls: Seq<CallView>, pieces: Seq<CallView>) -> bool {
    &&& forall|i: int|
        0 <= i < calls.len() ==> {
            let c = #[trigger] calls[i];
            c.args == arguments_of(pieces, c.id) && first_named(pieces, c.id, c.name)
        }
    &&& forall|i: int, j: int|
        0 <= i < j < calls.len() ==> (#[trigger] calls[i]).id != (#[trigger] calls[j]).id
    &&& forall|k: int| 0 <= k < pieces.len() ==> names(calls, (#[trigger] pieces[k]).id)
}

/// Pieces without an identity have no arguments of it.
proof fn lemma_no_arguments(pieces: Seq<CallView>, id: Seq<char>)
    requires
        !names(pieces, id),
    ensures
        arguments_of(pieces, id).len() == 0,
    decreases pieces.len(),
{
    if pieces.len() > 0 {
        let front = pieces.drop_last();
        assert(pieces[pieces.len() - 1].id != id);
        assert(!names(front, id)) by {
            if names(front, id) {
                let k = choose|k: int| 0 <= k < front.len() && (#[trigger] front[k]).id == id;
                assert(pieces[k].id == id);
            }
        }
        lemma_no_arguments(front, id);
    }
}

/// An index that is found is that of a call with the identity, and where none is found there is none.
proof fn lemma_index(calls: Seq<CallView>, id: Seq<char>)
    ensures
        match call_index(calls, id) {
            Some(i) => 0 <= i < calls.len() && calls[i].id == id,
            None => !names(calls, id),
        },
    decreases calls.len(),
{
    if calls.len() > 0 {
        let front = calls.drop_last();
        lemma_index(front, id);
        if call_index(calls, id) is None && names(calls, id) {
            let k = choose|k: int| 0 <= k < calls.len() && (#[trigger] calls[k]).id == id;
            if k < front.len() {
                assert(front[k].id == id);
            }
        }
    }
}

/// A piece more keeps the calls those of the pieces.
#[verifier::rlimit(40)]
proof fn lemma_one_more(calls: Seq<CallView>, pieces: Seq<CallView>, p: CallView)
    requires
        made_of(calls, pieces),
    ensures
        made_of(with_piece(calls, p), pieces.push(p)),
{
    reveal(made_of);
    let after = with_piece(calls, p);
    let all = pieces.push(p);
    assert(all.drop_last() =~= pieces);
    lemma_index(calls, p.id);
    assert forall|id: Seq<char>, n: Seq<char>| first_named(pieces, id, n) implies first_named(
        all,
        id,
        n,
    ) by {
        let k = choose|k: int|
            {
                &&& 0 <= k < pieces.len()
                &&& (#[trigger] pieces[k]).id == id
                &&& pieces[k].name == n
                &&& forall|j: int| 0 <= j < k ==> (#[trigger] pieces[j]).id != id
            };
        assert(all[k] == pieces[k]);
        assert forall|j: int| 0 <= j < k implies (#[trigger] all[j]).id != id by {
            assert(all[j] == pieces[j]);
        }
    }
    match call_index(calls, p.id) {
        Some(at) => {
            assert forall|i: int| 0 <= i < after.len() implies {
                let c = #[trigger] after[i];
                c.args == arguments_of(all, c.id) && first_named(all, c.id, c.name)
            } by {
                let c = calls[i];
                assert(c.args == arguments_of(pieces, c.id) && first_named(pieces, c.id, c.name));
                if i != at {
                    assert(calls[i].id != calls[at].id);
                }
            }
            assert forall|k: int| 0 <= k < all.len() implies names(
                after,
                (#[trigger] all[k]).id,
            ) by {
                if k < pieces.len() {
                    assert(names(calls, pieces[k].id));
                    let i = choose|i: int|
                        0 <= i < calls.len() && (#[trigger] calls[i]).id == pieces[k].id;
                    assert(after[i].id == all[k].id);
                } else {
                    assert(after[at].id == all[k].id);
                }
            }
        },
        None => {
            assert(!names(pieces, p.id)) by {
                if names(pieces, p.id) {
                    let k = choose|k: int|
                        0 <= k < pieces.len() && (#[trigger] pieces[k]).id == p.id;
                    assert(names(calls, pieces[k].id));
                }
            }
            lemma_no_arguments(pieces, p.id);
            assert(arguments_of(all, p.id) =~= p.args);
            let n = pieces.len() as int;
            assert(all[n] == p);
            assert forall|j: int| 0 <= j < n implies (#[trigger] all[j]).id != p.id by {
                assert(all[j] == pieces[j]);
            }
            assert(first_named(all, p.id, p.name));
            assert forall|i: int| 0 <= i < after.len() implies {
                let c = #[trigger] after[i];
                c.args == arguments_of(all, c.id) && first_named(all, c.id, c.name)
            } by {
                if i < calls.len() {
                    let c = calls[i];
                    assert(c.args == arguments_of(pieces, c.id) && first_named(
                        pieces,
                        c.id,
                        c.name,
                    ));
                    assert(c.id != p.id);
                }
            }
            assert forall|k: int| 0 <= k < all.len() implies names(
                after,
                (#[trigger] all[k]).id,
            ) by {
                if k < pieces.len() {
                    assert(names(calls, pieces[k].id));
                    let i = choose|i: int|
                        0 <= i < calls.len() && (#[trigger] calls[i]).id == pieces[k].id;
                    assert(after[i].id == all[k].id);
                } else {
                    assert(after[calls.len() as int].id == all[k].id);
                }
            }
        },
    }
}

/// Pieces more keep the calls those of the pieces.
proof fn lemma_more(calls: Seq<CallView>, pieces: Seq<CallView>, more: Seq<CallView>)
    requires
        made_of(calls, pieces),
    ensures
        made_of(with_pieces(calls, more), pieces + more),
    decreases more.len(),
{
    if more.len() == 0 {
        assert(pieces + more =~= pieces);
    } else {
        lemma_more(calls, pieces, more.drop_last());
        lemma_one_more(
            with_pieces(calls, more.drop_last()),
            pieces + more.drop_last(),
            more.last(),
        );
        assert(pieces + more =~= (pieces + more.drop_last()).push(more.last()));
    }
}

/// A call that a stream asks for has the arguments of all its pieces, one behind the other, and the
/// name of its first piece; every identity that a piece has is asked for once.
pub proof fn law_calls_are_whole(values: Seq<JsonView>)
    ensures
        made_of(gathered_calls(values), all_pieces(values)),
    decreases values.len(),
{
    if values.len() > 0 {
        law_calls_are_whole(values.drop_last());
        lemma_more(
            gathered_calls(values.drop_last()),
            all_pieces(values.drop_last()),
            delta_pieces(values.last()),
        );
    } else {
        reveal(made_of);
    }
}

/// A call is put as it was asked for: with its identity, its name and the value of its arguments, for
/// no server yet, and shown as the indented text of the arguments. One whose arguments cannot be read
/// is not put.
pub proof fn law_call_is_put_as_asked(call: CallView)
    ensures
        match parsed(call.args) {
            Ok(j) => {
                &&& call_event(call) matches Some(EventView::ToolCallRequested(p))
                &&& p.id == call.id && p.tool_name == call.name && p.args == j
                &&& p.server_name.len() == 0
                &&& printed_pretty(j) matches Some(shown) ==> p.args_display == shown
                &&& printed_pretty(j) is None ==> p.args_display == call.args
            },
            Err(_) => call_event(call) is None,
        },
{
}

/// A reply that was carried out puts the calls of its stream that can be read, all of them and no
/// others.
pub proof fn law_calls_are_put(code: u16, text: Seq<char>, event: EventView)
    requires
        200 <= code < 300,
        event is ToolCallRequested,
    ensures
        reply_events(ChatReplyView::Replied(code, text)).contains(event) <==> exists|k: int|
            0 <= k < gathered_calls(stream_values(text)).len() && call_event(
                #[trigger] gathered_calls(stream_values(text))[k],
            ) == Some(event),
{
    let values = stream_values(text);
    let calls = gathered_calls(values);
    let chunks = values.filter_map(|v: JsonView| chunk_event(v));
    let asked = calls.filter_map(|c: CallView| call_event(c));
    let all = reply_events(ChatReplyView::Replied(code, text));
    lemma_chunks(values);
    lemma_calls(calls);
    if all.contains(event) {
        let i = choose|i: int| 0 <= i < all.len() && all[i] == event;
        if i < chunks.len() {
            assert(all[i] == chunks[i]);
        } else if i < chunks.len() + asked.len() {
            assert(all[i] == asked[i - chunks.len()]);
        }
    }
    if exists|k: int| 0 <= k < calls.len() && call_event(#[trigger] calls[k]) == Some(event) {
        let k = choose|k: int| 0 <= k < calls.len() && call_event(#[trigger] calls[k]) == Some(event);
        assert(asked.contains(call_event(calls[k])->0));
        let i = choose|i: int| 0 <= i < asked.len() && asked[i] == event;
        assert(all[chunks.len() + i] == event);
    }
}

/// A request that fails or is refused gives one error and the end. The error of a refusal carries the
/// whole message that the server gives, or else the first three lines of its text.
pub proof fn law_refusal_is_told(code: u16, text: Seq<char>, e: JsonView, m: Seq<char>, why: Seq<char>)
    requires
        code < 200 || code >= 300,
    ensures
        ({
            let all = reply_events(ChatReplyView::Replied(code, text));
            let start = "API Error (HTTP "@ + status_line(code) + "): "@;
            let lines = lines_of(text);
            &&& all.len() == 2 && all[0] is ChatError && all[1] is ChatFinished
            &&& text.len() == 0 ==> all[0]->ChatError_0 == "API Error: HTTP "@ + status_line(code)
            &&& (text.len() > 0 && (parsed(text) matches Ok(j) && has_member(j, "error"@, e))
                && has_member(e, "message"@, JsonView::Text(m))) ==> all[0]->ChatError_0 == start
                + m
            &&& text.len() > 0 && (parsed(text) matches Ok(j) ==> (forall|x: JsonView|
                has_member(j, "error"@, x) ==> !#[trigger] has_text(x, "message"@))) ==> {
                &&& lines.len() == 1 ==> all[0]->ChatError_0 == start + lines[0]
                &&& lines.len() == 2 ==> all[0]->ChatError_0 == start + (lines[0] + " "@ + lines[1])
                &&& lines.len() >= 3 ==> all[0]->ChatError_0 == start + (lines[0] + " "@ + lines[1]
                    + " "@ + lines[2])
            }
        }),
        reply_events(ChatReplyView::Failed(why)) == seq![
            EventView::ChatError("Connection Error: "@ + why),
            EventView::ChatFinished,
        ],
{
    let lines = lines_of(text);
    if let Ok(j) = parsed(text) {
        if j.get("error"@) is Some {
            let x = j.get("error"@)->0;
            assert(has_member(j, "error"@, x));
            if let Some(JsonView::Text(t)) = x.get("message"@) {
                assert(has_member(x, "message"@, JsonView::Text(t)));
                assert(has_text(x, "message"@));
            }
        }
    }
    if lines.len() >= 1 {
        let a = seq![lines[0]];
        law_joined(a, lines[0], " "@);
        if lines.len() == 1 {
            assert(lines =~= a);
        } else {
            let b = a.push(lines[1]);
            law_joined(a, lines[1], " "@);
            if lines.len() == 2 {
                assert(lines =~= b);
            } else {
                law_joined(b, lines[2], " "@);
                assert(lines.take(3) =~= b.push(lines[2]));
                if lines.len() == 3 {
                    assert(lines =~= b.push(lines[2]));
                }
            }
        }
    }
}

} // verus!

//! The commands of the client, and the search for models.
use vstd::prelude::*;

#[allow(unused_imports)]
use crate::http::pair_views;
use crate::text;
#[allow(unused_imports)]
use crate::text::{
    ascii, ascii_lower, ascii_lowered, ascii_upper, ascii_uppered, has_substring, lower, occurs_at,
    views,
};

verus! {

/// The commands, each with its description.
pub open spec fn commands() -> Seq<(Seq<char>, Seq<char>)> {
    seq![
        ("/new"@, "Create new thread"@),
        ("/model"@, "Select or switch model"@),
        ("/mcp"@, "List MCP servers and tools"@),
        ("/copy"@, "Copy last message to clipboard"@),
        ("/help"@, "Show available commands"@),
    ]
}

/// The commands that start with what has been typed.
pub open spec fn matching_commands(partial: Seq<char>) -> Seq<(Seq<char>, Seq<char>)> {
    commands().filter(|c: (Seq<char>, Seq<char>)| partial.is_prefix_of(c.0))
}

/// The command that the input can only mean.
pub open spec fn suggestion(input: Seq<char>) -> Option<Seq<char>> {
    if input.len() > 0 && input.first() == '/' && matching_commands(input).len() == 1 {
        Some(matching_commands(input)[0].0)
    } else {
        None
    }
}

/// Whether a model is among those searched for. Case does not count.
pub open spec fn is_searched(model: Seq<char>, search: Seq<char>) -> bool {
    has_substring(lower(model), lower(search))
}

/// The models searched for, in their order.
pub open spec fn searched(models: Seq<Seq<char>>, search: Seq<char>) -> Seq<Seq<char>> {
    models.filter(|m: Seq<char>| is_searched(m, search))
}

/// The models of ASCII searched for, in their order. Case does not count.
pub open spec fn ascii_searched(models: Seq<Seq<char>>, search: Seq<char>) -> Seq<Seq<char>> {
    models.filter(|m: Seq<char>| has_substring(ascii_lowered(m), ascii_lowered(search)))
}

/// Every model is of ASCII.
pub open spec fn ascii_models(models: Seq<Seq<char>>) -> bool {
    forall|i: int| 0 <= i < models.len() ==> ascii(#[trigger] models[i])
}

/// The commands, each with its description.
pub fn available_commands() -> (r: Vec<(String, String)>)
    ensures
        pair_views(r@) == commands(),
{
    let r = vec![
        ("/new".to_string(), "Create new thread".to_string()),
        ("/model".to_string(), "Select or switch model".to_string()),
        ("/mcp".to_string(), "List MCP servers and tools".to_string()),
        ("/copy".to_string(), "Copy last message to clipboard".to_string()),
        ("/help".to_string(), "Show available commands".to_string()),
    ];
    assert(pair_views(r@) =~= commands());
    r
}

/// The commands that start with what has been typed.
pub fn get_matching_commands(partial: &str) -> (r: Vec<(String, String)>)
    ensures
        pair_views(r@) == matching_commands(partial@),
{
    let all = available_commands();
    let ghost wanted = pair_views(all@);
    let ghost pick = |c: (Seq<char>, Seq<char>)| partial@.is_prefix_of(c.0);
    let mut out: Vec<(String, String)> = Vec::new();
    let mut i: usize = 0;
    assert(pair_views(out@) =~= wanted.take(0).filter(pick));
    while i < all.len()
        invariant
            i <= all@.len(),
            wanted == pair_views(all@),
            pick == (|c: (Seq<char>, Seq<char>)| partial@.is_prefix_of(c.0)),
            pair_views(out@) == wanted.take(i as int).filter(pick),
        decreases all@.len() - i,
    {
        let ghost had = out@;
        proof {
            assert(wanted.take(i + 1) =~= wanted.take(i as int).push(wanted[i as int]));
            wanted.take(i as int).lemma_filter_push(wanted[i as int], pick);
        }
        if text::starts_with(all[i].0.as_str(), partial) {
            let command = (all[i].0.clone(), all[i].1.clone());
            out.push(command);
            assert(pair_views(out@) =~= pair_views(had).push((command.0@, command.1@)));
        }
        i += 1;
    }
    assert(wanted.take(i as int) =~= wanted);
    out
}

/// The command that the input can only mean.
pub fn get_autocomplete_suggestion(input: &str) -> (r: Option<String>)
    ensures
        r.deep_view() == suggestion(input@),
{
    if !text::starts_with_char(input, '/') {
        return None;
    }
    let matches = get_matching_commands(input);
    assert(pair_views(matches@).len() == matches@.len());
    if matches.len() == 1 {
        assert(pair_views(matches@)[0].0 == matches@[0].0@);
        Some(matches[0].0.clone())
    } else {
        None
    }
}

/// The models whose entry in `lowered`, at the same index, holds `search`, in their order.
pub open spec fn found(
    models: Seq<Seq<char>>,
    lowered: Seq<Seq<char>>,
    search: Seq<char>,
) -> Seq<Seq<char>>
    decreases models.len(),
{
    if models.len() == 0 {
        Seq::empty()
    } else {
        let before = found(models.drop_last(), lowered.drop_last(), search);
        if has_substring(lowered.last(), search) {
            before.push(models.last())
        } else {
            before
        }
    }
}

/// The lower case of each model.
pub open spec fn lowered_models(models: Seq<Seq<char>>) -> Seq<Seq<char>> {
    models.map_values(|m: Seq<char>| lower(m))
}

/// Searching is finding in lower case.
proof fn lemma_searched(models: Seq<Seq<char>>, search: Seq<char>)
    ensures
        searched(models, search) == found(models, lowered_models(models), lower(search)),
    decreases models.len(),
{
    reveal(Seq::filter);
    if models.len() > 0 {
        lemma_searched(models.drop_last(), search);
        assert(lowered_models(models).drop_last() =~= lowered_models(models.drop_last()));
    }
}

/// Searching in ASCII is finding in the lower case of ASCII.
proof fn lemma_ascii_searched(models: Seq<Seq<char>>, search: Seq<char>)
    ensures
        ascii_searched(models, search) == found(
            models,
            models.map_values(|m: Seq<char>| ascii_lowered(m)),
            ascii_lowered(search),
        ),
    decreases models.len(),
{
    reveal(Seq::filter);
    if models.len() > 0 {
        let low = |m: Seq<char>| ascii_lowered(m);
        lemma_ascii_searched(models.drop_last(), search);
        assert(models.map_values(low).drop_last() =~= models.drop_last().map_values(low));
    }
}

/// Where nothing is searched for, everything is found.
proof fn lemma_found_all(models: Seq<Seq<char>>, lowered: Seq<Seq<char>>)
    requires
        models.len() == lowered.len(),
    ensures
        found(models, lowered, Seq::empty()) == models,
    decreases models.len(),
{
    if models.len() > 0 {
        lemma_found_all(models.drop_last(), lowered.drop_last());
        assert(lowered.last().subrange(0, 0) =~= Seq::empty());
        assert(occurs_at(lowered.last(), Seq::empty(), 0));
        assert(models.drop_last().push(models.last()) =~= models);
    }
}

/// The models whose entry in `lowered`, at the same index, holds `search`, in their order.
pub fn models_found(models: &Vec<String>, lowered: &Vec<String>, search: &str) -> (r: Vec<String>)
    requires
        models@.len() == lowered@.len(),
    ensures
        views(r@) == found(views(models@), views(lowered@), search@),
{
    let ghost all = views(models@);
    let ghost low = views(lowered@);
    let mut out: Vec<String> = Vec::new();
    let mut i: usize = 0;
    assert(views(out@) =~= found(all.take(0), low.take(0), search@));
    while i < models.len()
        invariant
            i <= models@.len(),
            models@.len() == lowered@.len(),
            all == views(models@),
            low == views(lowered@),
            views(out@) == found(all.take(i as int), low.take(i as int), search@),
        decreases models@.len() - i,
    {
        let ghost had = out@;
        proof {
            assert(all.take(i + 1).drop_last() =~= all.take(i as int));
            assert(low.take(i + 1).drop_last() =~= low.take(i as int));
            assert(all.take(i + 1).last() == models@[i as int]@);
            assert(low.take(i + 1).last() == lowered@[i as int]@);
        }
        if text::contains(lowered[i].as_str(), search) {
            let model = models[i].clone();
            out.push(model);
            assert(views(out@) =~= views(had).push(model@));
        }
        i += 1;
    }
    assert(all.take(i as int) =~= all);
    assert(low.take(i as int) =~= low);
    out
}

/// The models searched for, in their order.
pub fn searched_models(models: &Vec<String>, search: &str) -> (r: Vec<String>)
    ensures
        views(r@) == searched(views(models@), search@),
        search@.len() == 0 ==> views(r@) == views(models@),
        ascii(search@) && ascii_models(views(models@)) ==> views(r@) == ascii_searched(
            views(models@),
            search@,
        ),
{
    let ghost wanted = lowered_models(views(models@));
    let ghost plain = views(models@).map_values(|m: Seq<char>| ascii_lowered(m));
    let mut lowered: Vec<String> = Vec::new();
    let mut i: usize = 0;
    assert(views(lowered@) =~= wanted.take(0));
    while i < models.len()
        invariant
            i <= models@.len(),
            wanted == lowered_models(views(models@)),
            plain == views(models@).map_values(|m: Seq<char>| ascii_lowered(m)),
            lowered@.len() == i,
            ascii_models(views(models@)) ==> views(lowered@) == plain.take(i as int),
            views(lowered@) == wanted.take(i as int),
        decreases models@.len() - i,
    {
        let ghost had = lowered@;
        let model = models[i].as_str().to_lowercase();
        lowered.push(model);
        assert(views(lowered@) =~= views(had).push(model@));
        assert(wanted.take(i + 1) =~= wanted.take(i as int).push(model@));
        proof {
            if ascii_models(views(models@)) {
                assert(ascii(views(models@)[i as int]));
                assert(plain.take(i + 1) =~= plain.take(i as int).push(model@));
            }
        }
        i += 1;
    }
    let sought = search.to_lowercase();
    proof {
        assert(wanted.take(i as int) =~= wanted);
        assert(plain.take(i as int) =~= plain);
        lemma_searched(views(models@), search@);
        lemma_ascii_searched(views(models@), search@);
        if search@.len() == 0 {
            assert(sought@ =~= Seq::empty());
            lemma_found_all(views(models@), wanted);
        }
    }
    models_found(models, &lowered, sought.as_str())
}

/// Every command starts with a slash.
pub proof fn lemma_slash_matches_all()
    ensures
        matching_commands(seq!['/']) == commands(),
{
    reveal_strlit("/new");
    reveal_strlit("/model");
    reveal_strlit("/mcp");
    reveal_strlit("/copy");
    reveal_strlit("/help");
    let pick = |c: (Seq<char>, Seq<char>)| seq!['/'].is_prefix_of(c.0);
    assert forall|i: int| 0 <= i < commands().len() implies pick(#[trigger] commands()[i]) by {
        assert(commands()[i].0[0] == '/');
        assert(commands()[i].0.subrange(0, 1) =~= seq!['/']);
    }
    lemma_filter_all(commands(), pick);
}

/// No command holds a space.
pub proof fn lemma_no_space_matches(partial: Seq<char>)
    requires
        partial.contains(' '),
    ensures
        matching_commands(partial).len() == 0,
{
    if matching_commands(partial).len() > 0 {
        reveal_strlit("/new");
        reveal_strlit("/model");
        reveal_strlit("/mcp");
        reveal_strlit("/copy");
        reveal_strlit("/help");
        let pick = |c: (Seq<char>, Seq<char>)| partial.is_prefix_of(c.0);
        commands().lemma_filter_pred(pick, 0);
        let found = matching_commands(partial)[0];
        assert(matching_commands(partial).contains(found));
        commands().lemma_filter_contains_rev(pick, found);
        let k = choose|k: int| 0 <= k < commands().len() && commands()[k] == found;
        let i = choose|i: int| 0 <= i < partial.len() && partial[i] == ' ';
        assert(found.0[i] == ' ');
        assert(k == 0 || k == 1 || k == 2 || k == 3 || k == 4);
        assert(i == 0 || i == 1 || i == 2 || i == 3 || i == 4 || i == 5);
    }
}

/// A filter that every entry passes changes nothing.
pub proof fn lemma_filter_all<A>(s: Seq<A>, pick: spec_fn(A) -> bool)
    requires
        forall|i: int| 0 <= i < s.len() ==> pick(#[trigger] s[i]),
    ensures
        s.filter(pick) == s,
    decreases s.len(),
{
    reveal(Seq::filter);
    if s.len() > 0 {
        let front = s.drop_last();
        assert forall|i: int| 0 <= i < front.len() implies pick(#[trigger] front[i]) by {
            assert(front[i] == s[i]);
        }
        lemma_filter_all(front, pick);
        assert(s =~= front.push(s.last()));
    }
}

/// What is suggested is a command, and goes on from what has been typed.
pub proof fn law_suggestion_completes(input: Seq<char>)
    ensures
        suggestion(input) matches Some(s) ==> {
            &&& input.is_prefix_of(s)
            &&& exists|i: int| 0 <= i < commands().len() && (#[trigger] commands()[i]).0 == s
        },
{
    if suggestion(input) is Some {
        let pick = |c: (Seq<char>, Seq<char>)| input.is_prefix_of(c.0);
        commands().lemma_filter_pred(pick, 0);
        let found = matching_commands(input)[0];
        assert(matching_commands(input).contains(found));
        commands().lemma_filter_contains_rev(pick, found);
        assert(commands().contains(found));
    }
}

/// Case does not count in the search: texts with the same lower case find the same models.
pub proof fn law_same_case_finds_the_same(models: Seq<Seq<char>>, a: Seq<char>, b: Seq<char>)
    ensures
        lower(a) == lower(b) ==> searched(models, a) == searched(models, b),
{
    if lower(a) == lower(b) {
        lemma_searched(models, a);
        lemma_searched(models, b);
    }
}

/// Case does not count in a search in ASCII: what is searched for finds the same models in lower case
/// and in upper case, and finds every model that differs in case alone from a text that holds it.
pub proof fn law_ascii_case_does_not_count(
    models: Seq<Seq<char>>,
    search: Seq<char>,
    i: int,
    text: Seq<char>,
)
    ensures
        ascii_searched(models, ascii_lowered(search)) == ascii_searched(models, search),
        ascii_searched(models, ascii_uppered(search)) == ascii_searched(models, search),
        0 <= i < models.len() && ascii_lowered(models[i]) == ascii_lowered(text) && has_substring(
            text,
            search,
        ) ==> ascii_searched(models, search).contains(models[i]),
{
    assert(ascii_lowered(ascii_lowered(search)) =~= ascii_lowered(search));
    assert(ascii_lowered(ascii_uppered(search)) =~= ascii_lowered(search)) by {
        assert forall|k: int| 0 <= k < search.len() implies ascii_lower(
            ascii_upper(#[trigger] search[k]),
        ) == ascii_lower(search[k]) by {}
    }
    if 0 <= i < models.len() && ascii_lowered(models[i]) == ascii_lowered(text) && has_substring(
        text,
        search,
    ) {
        let at = choose|at: int| occurs_at(text, search, at);
        let low = ascii_lowered(text);
        assert forall|k: int| 0 <= k < search.len() implies #[trigger] low[at + k]
            == ascii_lowered(search)[k] by {
            assert(text.subrange(at, at + search.len())[k] == search[k]);
        }
        assert(low.subrange(at, at + search.len()) =~= ascii_lowered(search));
        assert(occurs_at(low, ascii_lowered(search), at));
        let pick = |m: Seq<char>| has_substring(ascii_lowered(m), ascii_lowered(search));
        models.lemma_filter_contains(pick, i);
    }
}

} // verus!

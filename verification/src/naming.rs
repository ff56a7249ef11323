//! The name under which a server is shown.
use vstd::prelude::*;
use vstd::string::*;

use crate::text;
#[allow(unused_imports)]
use crate::text::{
    alphabetic, ascii, ascii_letter, ascii_upper, before_white_space, first_piece, has_substring,
    last_piece, leading_word, lemma_index_from, split_at_first, trimmed_start, upper, white_space,
    without_trailing,
};
#[allow(unused_imports)]
use crate::text_laws::{law_behind_scheme, law_cut_at_char, law_not_cut_at_char};

verus! {

/// A character, if it is alphabetic, else a space.
pub open spec fn letter_or_space(c: char) -> char {
    if alphabetic(c) {
        c
    } else {
        ' '
    }
}

/// A word with its first character in upper case.
pub open spec fn capitalized(word: Seq<char>) -> Seq<char> {
    if word.len() == 0 {
        word
    } else {
        seq![upper(word.first())[0]] + word.drop_first()
    }
}

/// The first label of the host in a URL.
pub open spec fn host_label(url: Seq<char>) -> Seq<char> {
    first_piece(last_piece(without_trailing(url, '/'), "://"@), "."@)
}

/// The characters of a label, with a space for each that is not alphabetic.
pub open spec fn letters_of(label: Seq<char>) -> Seq<char> {
    label.map_values(|c: char| letter_or_space(c))
}

/// The first run of letters, or a word where there is none.
pub open spec fn shown_word(letters: Seq<char>) -> Seq<char> {
    match leading_word(letters) {
        Some(word) => word,
        None => "API"@,
    }
}

/// The name under which the server at a URL is shown: the first run of letters in the first label of
/// its host.
pub open spec fn api_name(url: Seq<char>) -> Seq<char> {
    capitalized(shown_word(letters_of(host_label(url))))
}

/// The characters of a label, with a space for each that is not a letter of ASCII.
pub open spec fn ascii_letters_of(label: Seq<char>) -> Seq<char> {
    label.map_values(
        |c: char|
            if ascii_letter(c) {
                c
            } else {
                ' '
            },
    )
}

/// The name under which the server at a URL of ASCII is shown.
pub open spec fn ascii_api_name(url: Seq<char>) -> Seq<char> {
    let word = shown_word(ascii_letters_of(host_label(url)));
    seq![ascii_upper(word.first())] + word.drop_first()
}

/// The first label of the host in a URL.
pub fn label_of(url: &str) -> (r: String)
    ensures
        r@ == host_label(url@),
{
    let url = text::trim_end_char(url, '/');
    proof {
        reveal_strlit("://");
    }
    let host = text::after_last(url.as_str(), "://");
    text::before_first(host.as_str(), ".")
}

/// The characters of a label, with a space for each that is not alphabetic.
fn letters_or_spaces(label: &str) -> (r: String)
    ensures
        r@ == letters_of(label@),
        ascii(label@) ==> r@ == ascii_letters_of(label@),
{
    let chars = text::chars_of(label);
    let ghost wanted = letters_of(chars@);
    let mut letters = String::new();
    let mut i: usize = 0;
    assert(letters@ =~= wanted.take(0));
    while i < chars.len()
        invariant
            i <= chars@.len(),
            wanted == letters_of(chars@),
            letters@ == wanted.take(i as int),
            ascii(chars@) ==> letters@ == ascii_letters_of(chars@).take(i as int),
        decreases chars@.len() - i,
    {
        let c = chars[i];
        letters.push(
            if c.is_alphabetic() {
                c
            } else {
                ' '
            },
        );
        assert(wanted.take(i + 1) =~= wanted.take(i as int).push(wanted[i as int]));
        proof {
            let plain = ascii_letters_of(chars@);
            assert(plain.take(i + 1) =~= plain.take(i as int).push(plain[i as int]));
        }
        i += 1;
    }
    assert(wanted.take(i as int) =~= wanted);
    assert(ascii_letters_of(chars@).take(i as int) =~= ascii_letters_of(chars@));
    letters
}

/// The first run of letters, or a word where there is none.
pub fn word_of(letters: &str) -> (r: String)
    ensures
        r@ == shown_word(letters@),
{
    match text::first_word(letters) {
        Some(word) => word,
        None => "API".to_string(),
    }
}

/// A word with another first character.
pub fn with_first(word: &str, first: char) -> (r: String)
    requires
        word@.len() > 0,
    ensures
        r@ == seq![first] + word@.drop_first(),
{
    let mut r = String::new();
    r.push(first);
    let n = word.unicode_len();
    let rest = text::slice(word, 1, n);
    r.append(rest.as_str());
    assert(r@ =~= seq![first] + word@.drop_first());
    r
}

/// The name under which the server at a URL is shown.
pub fn extract_api_name(url: &str) -> (r: String)
    ensures
        r@ == api_name(url@),
        ascii(url@) ==> r@ == ascii_api_name(url@),
{
    let label = label_of(url);
    proof {
        if ascii(url@) {
            lemma_ascii_label(url@);
        }
        law_name_is_not_empty(url@);
    }
    let letters = letters_or_spaces(label.as_str());
    let word = word_of(letters.as_str());
    let chars = text::chars_of(word.as_str());
    assert(chars@.len() > 0);
    proof {
        if ascii(url@) {
            law_ascii_name(url@);
            assert(ascii_api_name(url@)[0] == ascii_upper(chars@[0]));
        }
    }
    let first = text::to_upper(chars[0]);
    with_first(word.as_str(), first[0])
}

/// A server always has a name to be shown under.
pub proof fn law_name_is_not_empty(url: Seq<char>)
    ensures
        api_name(url).len() > 0,
{
    reveal_strlit("API");
    let letters = letters_of(host_label(url));
    let _start = lemma_word_start(letters);
    if let Some(word) = leading_word(letters) {
        assert(word.len() > 0);
    }
}

/// A slash at the end of the URL makes no difference to the name.
pub proof fn law_slash_keeps_the_name(url: Seq<char>)
    ensures
        api_name(url + "/"@) == api_name(url),
        ascii_api_name(url + "/"@) == ascii_api_name(url),
{
    reveal_strlit("/");
    assert((url + "/"@).drop_last() =~= url);
}

/// A run of letters of ASCII, from index `i` up to index `j`, is the first in `s` and does not go on.
pub open spec fn first_run(s: Seq<char>, i: int, j: int) -> bool {
    &&& 0 <= i < j <= s.len()
    &&& forall|k: int| 0 <= k < i ==> !ascii_letter(#[trigger] s[k])
    &&& forall|k: int| i <= k < j ==> ascii_letter(#[trigger] s[k])
    &&& j < s.len() ==> !ascii_letter(s[j])
}

/// The name of a server at a URL of ASCII is not empty and made of letters alone, the first of them
/// in upper case: it is the first run of letters in the first label of the host, with its first
/// letter in upper case, or `API` where the label has no letter.
pub proof fn law_ascii_name(url: Seq<char>)
    ensures
        ({
            let label = host_label(url);
            let name = ascii_api_name(url);
            &&& name.len() > 0
            &&& 'A' <= name[0] <= 'Z'
            &&& forall|k: int| 0 <= k < name.len() ==> ascii_letter(#[trigger] name[k])
            &&& if exists|k: int| 0 <= k < label.len() && ascii_letter(#[trigger] label[k]) {
                exists|i: int, j: int| #[trigger]
                    first_run(label, i, j) && name == seq![ascii_upper(label[i])]
                        + label.subrange(i + 1, j)
            } else {
                name == "API"@
            }
        }),
{
    reveal_strlit("API");
    let label = host_label(url);
    let letters = ascii_letters_of(label);
    let name = ascii_api_name(url);
    assert forall|k: int| 0 <= k < label.len() implies white_space(#[trigger] letters[k])
        == !ascii_letter(label[k]) by {}
    let i = lemma_word_start(letters);
    if i < letters.len() {
        let rest = letters.skip(i);
        let n = lemma_word_end(rest);
        assert(rest[0] == letters[i]);
        let j = i + n;
        assert forall|k: int| i <= k < j implies ascii_letter(#[trigger] label[k]) by {
            assert(!white_space(rest[k - i]));
            assert(rest[k - i] == letters[k]);
        }
        assert forall|k: int| 0 <= k < i implies !ascii_letter(#[trigger] label[k]) by {
            assert(white_space(letters[k]));
        }
        if j < label.len() {
            assert(rest[n] == letters[j]);
        }
        assert(first_run(label, i, j));
        assert(rest.take(n) =~= label.subrange(i, j));
        assert(name =~= seq![ascii_upper(label[i])] + label.subrange(i + 1, j));
        assert forall|k: int| 0 <= k < name.len() implies ascii_letter(#[trigger] name[k]) by {
            if k > 0 {
                assert(name[k] == label[i + k]);
            }
        }
        assert(ascii_letter(label[i]));
    } else {
        assert forall|k: int| 0 <= k < label.len() implies !ascii_letter(#[trigger] label[k]) by {
            assert(white_space(letters[k]));
        }
        assert(name =~= "API"@);
    }
}

/// What is left once the white space at the start is gone starts at the first character that is not
/// white space.
proof fn lemma_word_start(s: Seq<char>) -> (i: int)
    ensures
        0 <= i <= s.len(),
        forall|k: int| 0 <= k < i ==> white_space(#[trigger] s[k]),
        i < s.len() ==> !white_space(s[i]),
        trimmed_start(s) == s.skip(i),
    decreases s.len(),
{
    if s.len() > 0 && white_space(s.first()) {
        let i = lemma_word_start(s.drop_first());
        assert forall|k: int| 0 <= k < i + 1 implies white_space(#[trigger] s[k]) by {
            if k > 0 {
                assert(s[k] == s.drop_first()[k - 1]);
            }
        }
        assert(s.skip(i + 1) =~= s.drop_first().skip(i));
        i + 1
    } else {
        assert(s.skip(0) =~= s);
        0
    }
}

/// What stands before the first white space ends there, or with the text.
proof fn lemma_word_end(s: Seq<char>) -> (n: int)
    ensures
        0 <= n <= s.len(),
        forall|k: int| 0 <= k < n ==> !white_space(#[trigger] s[k]),
        n < s.len() ==> white_space(s[n]),
        s.len() > 0 && !white_space(s[0]) ==> n > 0,
        before_white_space(s) == s.take(n),
    decreases s.len(),
{
    if s.len() == 0 || white_space(s.first()) {
        assert(s.take(0) =~= Seq::<char>::empty());
        0
    } else {
        let n = lemma_word_end(s.drop_first());
        assert forall|k: int| 0 <= k < n + 1 implies !white_space(#[trigger] s[k]) by {
            if k > 0 {
                assert(s[k] == s.drop_first()[k - 1]);
            }
        }
        assert(s.take(n + 1) =~= seq![s.first()] + s.drop_first().take(n));
        n + 1
    }
}

/// The first label of the host in a URL of ASCII is of ASCII.
proof fn lemma_ascii_label(url: Seq<char>)
    requires
        ascii(url),
    ensures
        ascii(host_label(url)),
{
    let bare = without_trailing(url, '/');
    lemma_ascii_without_trailing(url, '/');
    lemma_ascii_last_piece(bare, "://"@);
    lemma_index_from(last_piece(bare, "://"@), "."@, 0);
}

/// Characters taken off the end leave a text of ASCII of ASCII.
proof fn lemma_ascii_without_trailing(s: Seq<char>, c: char)
    requires
        ascii(s),
    ensures
        ascii(without_trailing(s, c)),
    decreases s.len(),
{
    if s.len() > 0 && s.last() == c {
        lemma_ascii_without_trailing(s.drop_last(), c);
    }
}

/// The last piece of a text of ASCII is of ASCII.
proof fn lemma_ascii_last_piece(s: Seq<char>, sep: Seq<char>)
    requires
        ascii(s),
    ensures
        ascii(last_piece(s, sep)),
    decreases s.len(),
{
    lemma_index_from(s, sep, 0);
    if sep.len() > 0 {
        if let Some((before, after)) = split_at_first(s, sep) {
            lemma_ascii_last_piece(after, sep);
        }
    }
}

/// A character that can be part of a name.
pub open spec fn nameable(c: char) -> bool {
    alphabetic(c) && !white_space(c)
}

/// A run of characters that can be part of a name, from index `i` up to index `j`, is the first in `s`
/// and does not go on.
pub open spec fn first_name(s: Seq<char>, i: int, j: int) -> bool {
    &&& 0 <= i < j <= s.len()
    &&& forall|k: int| 0 <= k < i ==> !nameable(#[trigger] s[k])
    &&& forall|k: int| i <= k < j ==> nameable(#[trigger] s[k])
    &&& j < s.len() ==> !nameable(s[j])
}

/// The name of a server is the first run of letters in the first label of the host, all of it, with its
/// first letter in upper case.
pub proof fn law_name_is_the_first_run(url: Seq<char>, i: int, j: int)
    requires
        first_name(host_label(url), i, j),
    ensures
        api_name(url) == seq![upper(host_label(url)[i])[0]] + host_label(url).subrange(i + 1, j),
{
    let label = host_label(url);
    let letters = letters_of(label);
    assert forall|k: int| 0 <= k < label.len() implies white_space(#[trigger] letters[k])
        == !nameable(label[k]) by {}
    let at = lemma_word_start(letters);
    assert(nameable(label[i]) && !white_space(letters[i]));
    if at < i {
        assert(!nameable(label[at]));
    }
    if at > i {
        assert(white_space(letters[i]));
    }
    let rest = letters.skip(i);
    let n = lemma_word_end(rest);
    assert(rest[0] == letters[i]);
    if i + n < j {
        assert(nameable(label[i + n]));
        assert(rest[n] == letters[i + n]);
    }
    if i + n > j {
        assert(!white_space(rest[j - i]));
        assert(rest[j - i] == letters[j]);
        assert(!nameable(label[j]));
    }
    assert forall|k: int| i <= k < j implies #[trigger] letters[k] == label[k] by {
        assert(nameable(label[k]));
    }
    assert(rest.take(n) =~= label.subrange(i, j));
    assert(api_name(url) =~= seq![upper(label[i])[0]] + label.subrange(i + 1, j));
}

/// The first label of the host is what stands behind the scheme and before the first dot.
pub proof fn law_host_label(scheme: Seq<char>, label: Seq<char>, rest: Seq<char>)
    requires
        !label.contains('.'),
    ensures
        !has_substring(label + seq!['.'] + rest, "://"@) && (rest.len() == 0 || rest.last() != '/')
            ==> {
            &&& host_label(scheme + "://"@ + (label + seq!['.'] + rest)) == label
            &&& host_label(label + seq!['.'] + rest) == label
        },
        !has_substring(label, "://"@) && (label.len() > 0 && label.last() != '/') ==> {
            &&& host_label(scheme + "://"@ + label) == label
            &&& host_label(label) == label
        },
{
    reveal_strlit(".");
    reveal_strlit("://");
    assert("."@ =~= seq!['.']);
    law_cut_at_char(label, '.', rest);
    law_not_cut_at_char(label, '.');
    let whole = label + seq!['.'] + rest;
    if !has_substring(whole, "://"@) && (rest.len() == 0 || rest.last() != '/') {
        assert(whole.last() == if rest.len() == 0 {
            '.'
        } else {
            rest.last()
        });
        assert((scheme + "://"@ + whole).last() == whole.last());
        law_behind_scheme(scheme, whole);
    }
    if !has_substring(label, "://"@) && (label.len() > 0 && label.last() != '/') {
        assert((scheme + "://"@ + label).last() == label.last());
        law_behind_scheme(scheme, label);
    }
}

} // verus!

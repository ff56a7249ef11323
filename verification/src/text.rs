//! Strings, read as sequences of characters.
//!
//! Every function here is stated over the view of a string, `Seq<char>`.
use vstd::prelude::*;
use vstd::string::*;

verus! {

/// `p` stands in `s` at index `i`.
pub open spec fn occurs_at(s: Seq<char>, p: Seq<char>, i: int) -> bool {
    0 <= i && i + p.len() <= s.len() && s.subrange(i, i + p.len()) == p
}

/// `p` stands somewhere in `s`.
pub open spec fn has_substring(s: Seq<char>, p: Seq<char>) -> bool {
    exists|i: int| occurs_at(s, p, i)
}

/// The least index from `i` on at which `p` stands in `s`.
pub open spec fn index_from(s: Seq<char>, p: Seq<char>, i: int) -> Option<int>
    decreases s.len() - i + 1,
{
    if i < 0 || i + p.len() > s.len() {
        None
    } else if occurs_at(s, p, i) {
        Some(i)
    } else {
        index_from(s, p, i + 1)
    }
}

/// The least index at which `p` stands in `s`.
pub open spec fn first_index(s: Seq<char>, p: Seq<char>) -> Option<int> {
    index_from(s, p, 0)
}

/// What stands before and after the first `sep` in `s`.
pub open spec fn split_at_first(s: Seq<char>, sep: Seq<char>) -> Option<(Seq<char>, Seq<char>)> {
    match first_index(s, sep) {
        Some(i) => Some((s.take(i), s.skip(i + sep.len()))),
        None => None,
    }
}

/// The last of the pieces into which `sep` cuts `s`, cutting from the left.
pub open spec fn last_piece(s: Seq<char>, sep: Seq<char>) -> Seq<char>
    decreases s.len(),
{
    if sep.len() == 0 {
        s
    } else {
        match split_at_first(s, sep) {
            Some((before, after)) => {
                if after.len() < s.len() {
                    last_piece(after, sep)
                } else {
                    s
                }
            },
            None => s,
        }
    }
}

/// The first of the pieces into which `sep` cuts `s`.
pub open spec fn first_piece(s: Seq<char>, sep: Seq<char>) -> Seq<char> {
    match split_at_first(s, sep) {
        Some((before, after)) => before,
        None => s,
    }
}

/// The characters with the Unicode property White_Space.
pub open spec fn white_space(c: char) -> bool {
    ||| '\u{9}' <= c <= '\u{d}'
    ||| c == ' '
    ||| c == '\u{85}'
    ||| c == '\u{a0}'
    ||| c == '\u{1680}'
    ||| '\u{2000}' <= c <= '\u{200a}'
    ||| c == '\u{2028}'
    ||| c == '\u{2029}'
    ||| c == '\u{202f}'
    ||| c == '\u{205f}'
    ||| c == '\u{3000}'
}

/// `s` without the white space that it starts with.
pub open spec fn trimmed_start(s: Seq<char>) -> Seq<char>
    decreases s.len(),
{
    if s.len() > 0 && white_space(s.first()) {
        trimmed_start(s.drop_first())
    } else {
        s
    }
}

/// `s` without the white space that it ends with.
pub open spec fn trimmed_end(s: Seq<char>) -> Seq<char>
    decreases s.len(),
{
    if s.len() > 0 && white_space(s.last()) {
        trimmed_end(s.drop_last())
    } else {
        s
    }
}

/// `s` without white space at either end.
pub open spec fn trimmed(s: Seq<char>) -> Seq<char> {
    trimmed_end(trimmed_start(s))
}

/// `s` without the characters `c` that it ends with.
pub open spec fn without_trailing(s: Seq<char>, c: char) -> Seq<char>
    decreases s.len(),
{
    if s.len() > 0 && s.last() == c {
        without_trailing(s.drop_last(), c)
    } else {
        s
    }
}

/// `s` up to its first white space.
pub open spec fn before_white_space(s: Seq<char>) -> Seq<char>
    decreases s.len(),
{
    if s.len() == 0 || white_space(s.first()) {
        Seq::empty()
    } else {
        seq![s.first()] + before_white_space(s.drop_first())
    }
}

/// The first run of characters in `s` that are not white space.
pub open spec fn leading_word(s: Seq<char>) -> Option<Seq<char>> {
    let t = trimmed_start(s);
    if t.len() == 0 {
        None
    } else {
        Some(before_white_space(t))
    }
}

/// `s` without a carriage return at its end.
pub open spec fn without_return(s: Seq<char>) -> Seq<char> {
    if s.len() > 0 && s.last() == '\r' {
        s.drop_last()
    } else {
        s
    }
}

/// The lines of `s`. A line ends at a line feed, or at a carriage return with a line feed behind
/// it; the last one may do without.
pub open spec fn lines_of(s: Seq<char>) -> Seq<Seq<char>>
    decreases s.len(),
{
    if s.len() == 0 {
        Seq::empty()
    } else {
        match split_at_first(s, seq!['\n']) {
            Some((before, after)) => {
                if after.len() < s.len() {
                    seq![without_return(before)] + lines_of(after)
                } else {
                    seq![s]
                }
            },
            None => seq![s],
        }
    }
}

/// `parts` one after the other, with `sep` between them.
pub open spec fn joined(parts: Seq<Seq<char>>, sep: Seq<char>) -> Seq<char>
    decreases parts.len(),
{
    if parts.len() == 0 {
        Seq::empty()
    } else if parts.len() == 1 {
        parts[0]
    } else {
        joined(parts.drop_last(), sep) + sep + parts.last()
    }
}

/// The digit of `d`, for `d` below ten.
pub open spec fn digit(d: nat) -> char {
    (48 + d) as char
}

/// `n` in decimal.
pub open spec fn digits(n: nat) -> Seq<char>
    decreases n,
{
    if n < 10 {
        seq![digit(n)]
    } else {
        digits(n / 10).push(digit(n % 10))
    }
}

/// Every character of `s` is of ASCII.
pub open spec fn ascii(s: Seq<char>) -> bool {
    forall|i: int| 0 <= i < s.len() ==> (#[trigger] s[i]) < '\u{80}'
}

/// The letters of ASCII.
pub open spec fn ascii_letter(c: char) -> bool {
    'A' <= c <= 'Z' || 'a' <= c <= 'z'
}

/// The upper case of a character of ASCII.
pub open spec fn ascii_upper(c: char) -> char {
    if 'a' <= c <= 'z' {
        (c as u32 - 32) as char
    } else {
        c
    }
}

/// The lower case of a character of ASCII.
pub open spec fn ascii_lower(c: char) -> char {
    if 'A' <= c <= 'Z' {
        (c as u32 + 32) as char
    } else {
        c
    }
}

/// The lower case of a text of ASCII.
pub open spec fn ascii_lowered(s: Seq<char>) -> Seq<char> {
    s.map_values(|c: char| ascii_lower(c))
}

/// The upper case of a text of ASCII.
pub open spec fn ascii_uppered(s: Seq<char>) -> Seq<char> {
    s.map_values(|c: char| ascii_upper(c))
}

/// The views of a list of strings.
pub open spec fn views(parts: Seq<String>) -> Seq<Seq<char>> {
    parts.map_values(|p: String| p@)
}

/// A found index is the first; where none is found, there is none.
pub proof fn lemma_index_from(s: Seq<char>, p: Seq<char>, i: int)
    requires
        0 <= i,
    ensures
        match index_from(s, p, i) {
            Some(k) => {
                &&& i <= k
                &&& occurs_at(s, p, k)
                &&& forall|j: int| i <= j < k ==> !occurs_at(s, p, j)
            },
            None => forall|j: int| i <= j ==> !occurs_at(s, p, j),
        },
    decreases s.len() - i + 1,
{
    if i + p.len() > s.len() || occurs_at(s, p, i) {
    } else {
        lemma_index_from(s, p, i + 1);
    }
}

/// An index at which `p` stands, with none before it, is the one that the search gives.
pub proof fn lemma_first_index_is(s: Seq<char>, p: Seq<char>, k: int)
    requires
        occurs_at(s, p, k),
        forall|j: int| 0 <= j < k ==> !occurs_at(s, p, j),
    ensures
        first_index(s, p) == Some(k),
{
    lemma_index_from(s, p, 0);
}

/// The characters of `s`.
pub fn chars_of(s: &str) -> (r: Vec<char>)
    ensures
        r@ == s@,
{
    let mut r: Vec<char> = Vec::new();
    for c in it: s.chars()
        invariant
            r@ == it.seq().take(it.index() as int),
            it.seq() == s@,
    {
        r.push(c);
    }
    r
}

/// The characters of `s` from index `i` up to index `j`.
pub fn slice(s: &str, i: usize, j: usize) -> (r: String)
    requires
        i <= j <= s@.len(),
    ensures
        r@ == s@.subrange(i as int, j as int),
{
    s.substring_char(i, j).to_string()
}

/// Whether two strings hold the same characters.
pub fn same(a: &str, b: &str) -> (r: bool)
    ensures
        r == (a@ == b@),
{
    a.to_string() == b.to_string()
}

/// Whether `p` stands in `s` at index `i`.
fn stands_at(s: &Vec<char>, p: &Vec<char>, i: usize) -> (r: bool)
    requires
        i + p@.len() <= s@.len(),
    ensures
        r == occurs_at(s@, p@, i as int),
{
    let mut k: usize = 0;
    while k < p.len()
        invariant
            k <= p@.len(),
            i + p@.len() <= s.len(),
            forall|j: int| 0 <= j < k ==> s@[i + j] == p@[j],
        decreases p@.len() - k,
    {
        if s[i + k] != p[k] {
            assert(s@.subrange(i as int, i + p@.len())[k as int] != p@[k as int]);
            return false;
        }
        k += 1;
    }
    assert(s@.subrange(i as int, i + p@.len()) =~= p@);
    true
}

/// The first index at which `p` stands in `s`.
fn search(s: &Vec<char>, p: &Vec<char>) -> (r: Option<usize>)
    ensures
        match r {
            Some(i) => first_index(s@, p@) == Some(i as int),
            None => first_index(s@, p@) is None,
        },
{
    if p.len() > s.len() {
        return None;
    }
    let last: usize = s.len() - p.len();
    let mut i: usize = 0;
    loop
        invariant
            p@.len() <= s@.len(),
            last == s@.len() - p@.len(),
            i <= last,
            first_index(s@, p@) == index_from(s@, p@, i as int),
        decreases last - i,
    {
        if stands_at(s, p, i) {
            return Some(i);
        }
        if i == last {
            assert(index_from(s@, p@, i + 1) is None);
            return None;
        }
        i += 1;
    }
}

/// The first index, counted in characters, at which `p` stands in `s`.
pub fn find(s: &str, p: &str) -> (r: Option<usize>)
    ensures
        match r {
            Some(i) => first_index(s@, p@) == Some(i as int),
            None => first_index(s@, p@) is None,
        },
{
    let v = chars_of(s);
    let w = chars_of(p);
    search(&v, &w)
}

/// Whether `p` stands somewhere in `s`.
pub fn contains(s: &str, p: &str) -> (r: bool)
    ensures
        r == has_substring(s@, p@),
{
    proof {
        lemma_index_from(s@, p@, 0);
    }
    match find(s, p) {
        Some(i) => {
            assert(occurs_at(s@, p@, i as int));
            true
        },
        None => false,
    }
}

/// Whether `s` holds the character `c`.
pub fn contains_char(s: &str, c: char) -> (r: bool)
    ensures
        r == s@.contains(c),
{
    let v = chars_of(s);
    let mut i: usize = 0;
    while i < v.len()
        invariant
            v@ == s@,
            i <= v@.len(),
            forall|j: int| 0 <= j < i ==> v@[j] != c,
        decreases v@.len() - i,
    {
        if v[i] == c {
            assert(s@[i as int] == c);
            return true;
        }
        i += 1;
    }
    false
}

/// Whether `s` starts with `p`.
pub fn starts_with(s: &str, p: &str) -> (r: bool)
    ensures
        r == p@.is_prefix_of(s@),
{
    let v = chars_of(s);
    let w = chars_of(p);
    if w.len() > v.len() {
        false
    } else {
        stands_at(&v, &w, 0)
    }
}

/// Whether the first character of `s` is `c`.
pub fn starts_with_char(s: &str, c: char) -> (r: bool)
    ensures
        r == (s@.len() > 0 && s@.first() == c),
{
    let v = chars_of(s);
    v.len() > 0 && v[0] == c
}

/// Whether the last character of `s` is `c`.
pub fn ends_with_char(s: &str, c: char) -> (r: bool)
    ensures
        r == (s@.len() > 0 && s@.last() == c),
{
    let v = chars_of(s);
    v.len() > 0 && v[v.len() - 1] == c
}

/// What stands before and after the first `sep` in `s`.
pub fn split_once(s: &str, sep: &str) -> (r: Option<(String, String)>)
    ensures
        match r {
            Some(p) => split_at_first(s@, sep@) == Some((p.0@, p.1@)),
            None => split_at_first(s@, sep@) is None,
        },
{
    proof {
        lemma_index_from(s@, sep@, 0);
    }
    match find(s, sep) {
        Some(i) => {
            let n = s.unicode_len();
            let k = sep.unicode_len();
            let before = slice(s, 0, i);
            let after = slice(s, i + k, n);
            assert(before@ =~= s@.take(i as int));
            assert(after@ =~= s@.skip(i + sep@.len()));
            Some((before, after))
        },
        None => None,
    }
}

/// The last of the pieces into which `sep` cuts `s`, cutting from the left.
pub fn after_last(s: &str, sep: &str) -> (r: String)
    requires
        sep@.len() > 0,
    ensures
        r@ == last_piece(s@, sep@),
{
    let mut rest = s.to_string();
    loop
        invariant
            sep@.len() > 0,
            last_piece(rest@, sep@) == last_piece(s@, sep@),
        decreases rest@.len(),
    {
        proof {
            lemma_index_from(rest@, sep@, 0);
        }
        match split_once(rest.as_str(), sep) {
            Some((_before, after)) => {
                rest = after;
            },
            None => {
                return rest;
            },
        }
    }
}

/// The first of the pieces into which `sep` cuts `s`.
pub fn before_first(s: &str, sep: &str) -> (r: String)
    ensures
        r@ == first_piece(s@, sep@),
{
    match split_once(s, sep) {
        Some((before, _after)) => before,
        None => s.to_string(),
    }
}

/// Whether `c` has the Unicode property White_Space.
pub fn is_white_space(c: char) -> (r: bool)
    ensures
        r == white_space(c),
{
    ('\u{9}' <= c && c <= '\u{d}') || c == ' ' || c == '\u{85}' || c == '\u{a0}' || c == '\u{1680}'
        || ('\u{2000}' <= c && c <= '\u{200a}') || c == '\u{2028}' || c == '\u{2029}' || c
        == '\u{202f}' || c == '\u{205f}' || c == '\u{3000}'
}

/// The index at which `s` starts once white space is skipped.
fn skip_white_space(v: &Vec<char>) -> (i: usize)
    ensures
        i <= v@.len(),
        trimmed_start(v@) == v@.skip(i as int),
        i < v@.len() ==> !white_space(v@[i as int]),
{
    let mut i: usize = 0;
    assert(v@.skip(0) =~= v@);
    while i < v.len() && is_white_space(v[i])
        invariant
            i <= v@.len(),
            trimmed_start(v@) == trimmed_start(v@.skip(i as int)),
        decreases v@.len() - i,
    {
        assert(v@.skip(i as int).drop_first() =~= v@.skip(i + 1));
        i += 1;
    }
    i
}

/// `s` without white space at either end.
pub fn trim(s: &str) -> (r: String)
    ensures
        r@ == trimmed(s@),
{
    let v = chars_of(s);
    let i = skip_white_space(&v);
    let mut j: usize = v.len();
    assert(v@.subrange(i as int, j as int) =~= v@.skip(i as int));
    while i < j && is_white_space(v[j - 1])
        invariant
            i <= j <= v@.len(),
            trimmed(v@) == trimmed_end(v@.subrange(i as int, j as int)),
        decreases j,
    {
        assert(v@.subrange(i as int, j as int).drop_last() =~= v@.subrange(i as int, j - 1));
        assert(v@.subrange(i as int, j as int).last() == v@[j - 1]);
        j -= 1;
    }
    proof {
        if i < j {
            assert(v@.subrange(i as int, j as int).last() == v@[j - 1]);
        }
    }
    slice(s, i, j)
}

/// Whether `s` holds nothing but white space.
pub fn is_blank(s: &str) -> (r: bool)
    ensures
        r == (trimmed(s@).len() == 0),
{
    trim(s).as_str().is_empty()
}

/// `s` without the characters `c` that it ends with.
pub fn trim_end_char(s: &str, c: char) -> (r: String)
    ensures
        r@ == without_trailing(s@, c),
{
    let v = chars_of(s);
    let mut j: usize = v.len();
    assert(v@.subrange(0, j as int) =~= v@);
    while 0 < j && v[j - 1] == c
        invariant
            j <= v@.len(),
            without_trailing(v@, c) == without_trailing(v@.subrange(0, j as int), c),
        decreases j,
    {
        assert(v@.subrange(0, j as int).drop_last() =~= v@.subrange(0, j - 1));
        assert(v@.subrange(0, j as int).last() == v@[j - 1]);
        j -= 1;
    }
    proof {
        if 0 < j {
            assert(v@.subrange(0, j as int).last() == v@[j - 1]);
        }
    }
    slice(s, 0, j)
}

/// What stands before the first white space is a prefix of `s` up to some index.
proof fn lemma_before_white_space(s: Seq<char>, k: int)
    requires
        0 <= k <= s.len(),
        forall|j: int| 0 <= j < k ==> !white_space(s[j]),
        k < s.len() ==> white_space(s[k]),
    ensures
        before_white_space(s) == s.take(k),
    decreases k,
{
    if k == 0 {
        assert(s.take(0) =~= Seq::<char>::empty());
    } else {
        lemma_before_white_space(s.drop_first(), k - 1);
        assert(s.take(k) =~= seq![s.first()] + s.drop_first().take(k - 1));
    }
}

/// The first run of characters in `s` that are not white space.
pub fn first_word(s: &str) -> (r: Option<String>)
    ensures
        match r {
            Some(w) => leading_word(s@) == Some(w@),
            None => leading_word(s@) is None,
        },
{
    let v = chars_of(s);
    let i = skip_white_space(&v);
    if i == v.len() {
        return None;
    }
    let mut j: usize = i;
    while j < v.len() && !is_white_space(v[j])
        invariant
            i <= j <= v@.len(),
            forall|k: int| i <= k < j ==> !white_space(v@[k]),
        decreases v@.len() - j,
    {
        j += 1;
    }
    proof {
        lemma_before_white_space(v@.skip(i as int), j - i);
        assert(v@.skip(i as int).take(j - i) =~= v@.subrange(i as int, j as int));
    }
    Some(slice(s, i, j))
}

/// The lines of `s`.
pub fn lines(s: &str) -> (r: Vec<String>)
    ensures
        views(r@) == lines_of(s@),
{
    let mut out: Vec<String> = Vec::new();
    let mut rest = s.to_string();
    assert(views(out@) + lines_of(rest@) =~= lines_of(s@));
    loop
        invariant
            views(out@) + lines_of(rest@) == lines_of(s@),
        decreases rest@.len(),
    {
        let ghost had = out@;
        let ghost was = rest@;
        if rest.as_str().is_empty() {
            assert(views(out@) + lines_of(rest@) =~= views(out@));
            return out;
        }
        proof {
            reveal_strlit("\n");
            assert("\n"@ =~= seq!['\n']);
            lemma_index_from(rest@, seq!['\n'], 0);
        }
        match split_once(rest.as_str(), "\n") {
            Some((before, after)) => {
                let line = if ends_with_char(before.as_str(), '\r') {
                    let n = before.as_str().unicode_len();
                    slice(before.as_str(), 0, n - 1)
                } else {
                    before
                };
                assert(line@ =~= without_return(before@));
                out.push(line);
                rest = after;
                assert(views(out@) =~= views(had).push(line@));
                assert(views(out@) + lines_of(rest@) =~= views(had) + (seq![line@] + lines_of(rest@)));
            },
            None => {
                out.push(rest);
                assert(views(out@) =~= views(had) + seq![was]);
                return out;
            },
        }
    }
}

/// `parts` one after the other, with `sep` between them.
pub fn join(parts: &Vec<String>, sep: &str) -> (r: String)
    ensures
        r@ == joined(views(parts@), sep@),
{
    let mut out = String::new();
    let mut i: usize = 0;
    while i < parts.len()
        invariant
            i <= parts@.len(),
            out@ == joined(views(parts@).take(i as int), sep@),
        decreases parts@.len() - i,
    {
        let ghost done = views(parts@).take(i as int);
        let ghost next = views(parts@).take(i + 1);
        assert(next.drop_last() =~= done);
        assert(next.last() == parts@[i as int]@);
        if i > 0 {
            out.append(sep);
        }
        out.append(parts[i].as_str());
        i += 1;
    }
    assert(views(parts@).take(i as int) =~= views(parts@));
    out
}

/// `n` in decimal.
pub fn decimal(n: u64) -> (r: String)
    ensures
        r@ == digits(n as nat),
    decreases n,
{
    let d: u8 = (n % 10) as u8;
    let c = (48u8 + d) as char;
    let mut r = if n < 10 {
        String::new()
    } else {
        decimal(n / 10)
    };
    r.push(c);
    r
}

/// Whether a character is alphabetic, as `char::is_alphabetic` has it.
pub uninterp spec fn alphabetic(c: char) -> bool;

/// The upper case of a character, as `char::to_uppercase` has it.
pub uninterp spec fn upper(c: char) -> Seq<char>;

/// The lower case of a string, as `str::to_lowercase` has it.
pub uninterp spec fn lower(s: Seq<char>) -> Seq<char>;

/// `String::push` appends the character.
pub assume_specification[ String::push ](s: &mut String, c: char)
    ensures
        final(s)@ == old(s)@.push(c),
;

/// `String::pop` takes the last character off and returns it; an empty string stays as it is.
pub assume_specification[ String::pop ](s: &mut String) -> (r: Option<char>)
    ensures
        old(s)@.len() > 0 ==> r == Some(old(s)@.last()) && final(s)@ == old(s)@.drop_last(),
        old(s)@.len() == 0 ==> r is None && final(s)@ == old(s)@,
;

/// `char::is_alphabetic` tells whether the character has the Unicode property Alphabetic, which
/// rests on the character alone. In ASCII these are the letters from A to Z and from a to z.
pub assume_specification[ char::is_alphabetic ](c: char) -> (r: bool)
    ensures
        r == alphabetic(c),
        c < '\u{80}' ==> r == ascii_letter(c),
;

/// `str::to_lowercase` gives the lower case of the string, which rests on the string alone; an
/// empty string has an empty one. Of a string of ASCII it has a letter from a to z for each from A to
/// Z, and every other character as it is.
pub assume_specification[ str::to_lowercase ](s: &str) -> (r: String)
    ensures
        r@ == lower(s@),
        s@.len() == 0 ==> r@.len() == 0,
        ascii(s@) ==> r@ == ascii_lowered(s@),
;

/// `char::to_uppercase` yields the upper case of the character, which rests on the character
/// alone, as one or more characters. Of a character of ASCII it is one: a letter from A to Z for one
/// from a to z, and the character itself for any other.
#[verifier::external_body]
pub(crate) fn to_upper(c: char) -> (r: Vec<char>)
    ensures
        r@ == upper(c),
        r@.len() > 0,
        c < '\u{80}' ==> r@ == seq![ascii_upper(c)],
{
    c.to_uppercase().collect()
}

} // verus!

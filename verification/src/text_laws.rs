//! What holds of the parts of texts.
use vstd::prelude::*;

#[allow(unused_imports)]
use crate::text::{
    before_white_space, digits, first_index, first_piece, has_substring, joined, last_piece,
    leading_word, lemma_first_index_is, lemma_index_from, lines_of, occurs_at, split_at_first,
    trimmed, trimmed_end, trimmed_start, white_space, without_return, without_trailing,
};

verus! {

/// A text holds another where it is made of something, the other, and something more.
pub proof fn law_substring(s: Seq<char>, p: Seq<char>)
    ensures
        has_substring(s, p) <==> exists|a: Seq<char>, b: Seq<char>| s == #[trigger] (a + p + b),
{
    if has_substring(s, p) {
        let i = choose|i: int| occurs_at(s, p, i);
        assert(s =~= s.take(i) + p + s.skip(i + p.len()));
    }
    if exists|a: Seq<char>, b: Seq<char>| s == #[trigger] (a + p + b) {
        let (a, b) = choose|a: Seq<char>, b: Seq<char>| s == #[trigger] (a + p + b);
        assert(s.subrange(a.len() as int, a.len() as int + p.len()) =~= p);
        assert(occurs_at(s, p, a.len() as int));
    }
}

/// Cutting a text at a separator gives two parts that make the text again with the separator between
/// them, and the separator stands nowhere before. A text that is not cut does not hold it.
pub proof fn law_cut(s: Seq<char>, sep: Seq<char>)
    ensures
        match split_at_first(s, sep) {
            Some((a, b)) => {
                &&& s == a + sep + b
                &&& forall|k: int|
                    0 <= k < a.len() ==> #[trigger] s.subrange(k, k + sep.len()) != sep
            },
            None => forall|a: Seq<char>, b: Seq<char>| s != #[trigger] (a + sep + b),
        },
{
    lemma_index_from(s, sep, 0);
    match split_at_first(s, sep) {
        Some((a, b)) => {
            assert(s =~= a + sep + b);
            assert forall|k: int| 0 <= k < a.len() implies #[trigger] s.subrange(k, k + sep.len())
                != sep by {
                assert(!occurs_at(s, sep, k));
            }
        },
        None => {
            assert forall|a: Seq<char>, b: Seq<char>| s != #[trigger] (a + sep + b) by {
                if s == a + sep + b {
                    assert(s.subrange(a.len() as int, a.len() as int + sep.len()) =~= sep);
                    assert(occurs_at(s, sep, a.len() as int));
                }
            }
        },
    }
}

/// A text cut at a character that its first part does not hold is cut there.
pub proof fn law_cut_at_char(a: Seq<char>, c: char, b: Seq<char>)
    requires
        !a.contains(c),
    ensures
        split_at_first(a + seq![c] + b, seq![c]) == Some((a, b)),
{
    let s = a + seq![c] + b;
    let n = a.len() as int;
    assert(s.subrange(n, n + 1) =~= seq![c]);
    assert forall|j: int| 0 <= j < n implies !occurs_at(s, seq![c], j) by {
        assert(s.subrange(j, j + 1)[0] == a[j]);
        assert(seq![c][0] == c);
    }
    lemma_first_index_is(s, seq![c], n);
    assert(s.take(n) =~= a);
    assert(s.skip(n + 1) =~= b);
}

/// A text without a character is not cut at it.
pub proof fn law_not_cut_at_char(a: Seq<char>, c: char)
    requires
        !a.contains(c),
    ensures
        split_at_first(a, seq![c]) is None,
{
    lemma_index_from(a, seq![c], 0);
    if let Some(k) = first_index(a, seq![c]) {
        assert(a.subrange(k, k + 1)[0] == c) by {
            assert(seq![c][0] == c);
        }
        assert(a[k] == c);
    }
}

/// Trimming takes off the white space at either end, all of it and nothing else.
pub proof fn law_trimmed(s: Seq<char>)
    ensures
        exists|i: int, j: int|
            {
                &&& 0 <= i <= j <= s.len()
                &&& trimmed(s) == #[trigger] s.subrange(i, j)
                &&& forall|k: int| 0 <= k < i ==> white_space(#[trigger] s[k])
                &&& forall|k: int| j <= k < s.len() ==> white_space(#[trigger] s[k])
                &&& i < j ==> !white_space(s[i]) && !white_space(s[j - 1])
            },
{
    let i = lemma_start(s);
    let t = s.skip(i);
    let n = lemma_end(t);
    let j = i + n;
    assert(t.take(n) =~= s.subrange(i, j));
    assert forall|k: int| j <= k < s.len() implies white_space(#[trigger] s[k]) by {
        assert(t[k - i] == s[k]);
    }
    if i < j {
        assert(t[n - 1] == s[j - 1]);
    }
    assert(trimmed(s) == s.subrange(i, j));
}

/// Where the white space at the start ends.
proof fn lemma_start(s: Seq<char>) -> (i: int)
    ensures
        0 <= i <= s.len(),
        trimmed_start(s) == s.skip(i),
        forall|k: int| 0 <= k < i ==> white_space(#[trigger] s[k]),
        i < s.len() ==> !white_space(s[i]),
    decreases s.len(),
{
    if s.len() > 0 && white_space(s.first()) {
        let i = lemma_start(s.drop_first());
        assert forall|k: int| 0 <= k < i + 1 implies white_space(#[trigger] s[k]) by {
            if k > 0 {
                assert(s[k] == s.drop_first()[k - 1]);
            }
        }
        assert(s.skip(i + 1) =~= s.drop_first().skip(i));
        i + 1
    } else {
        assert(s.skip(0) =~= s);
        0
    }
}

/// Where the white space at the end starts.
proof fn lemma_end(s: Seq<char>) -> (n: int)
    ensures
        0 <= n <= s.len(),
        trimmed_end(s) == s.take(n),
        forall|k: int| n <= k < s.len() ==> white_space(#[trigger] s[k]),
        n > 0 ==> !white_space(s[n - 1]),
    decreases s.len(),
{
    if s.len() > 0 && white_space(s.last()) {
        let n = lemma_end(s.drop_last());
        assert forall|k: int| n <= k < s.len() implies white_space(#[trigger] s[k]) by {
            if k < s.len() - 1 {
                assert(s[k] == s.drop_last()[k]);
            }
        }
        assert(s.take(n) =~= s.drop_last().take(n));
        if n > 0 {
            assert(s.drop_last()[n - 1] == s[n - 1]);
        }
        n
    } else {
        assert(s.take(s.len() as int) =~= s);
        s.len() as int
    }
}

/// A text with no white space at either end is not changed by trimming.
pub proof fn law_trimmed_keeps(s: Seq<char>)
    requires
        s.len() > 0,
        !white_space(s.first()),
        !white_space(s.last()),
    ensures
        trimmed(s) == s,
{
    assert(trimmed_start(s) == s);
}

/// The lines of a text: each is what stands before a line feed, without a carriage return right
/// before the feed, and the last may do without a feed.
pub proof fn law_lines(a: Seq<char>, rest: Seq<char>)
    requires
        !a.contains('\n'),
    ensures
        lines_of(Seq::empty()) == Seq::<Seq<char>>::empty(),
        a.len() > 0 ==> lines_of(a) == seq![a],
        a.len() == 0 || a.last() != '\r' ==> lines_of(a + seq!['\n'] + rest) == seq![a] + lines_of(
            rest,
        ),
        lines_of(a + seq!['\r', '\n'] + rest) == seq![a] + lines_of(rest),
{
    law_not_cut_at_char(a, '\n');
    law_cut_at_char(a, '\n', rest);
    let b = a.push('\r');
    assert forall|k: int| 0 <= k < b.len() implies b[k] != '\n' by {
        if k < a.len() {
            assert(a.contains(a[k]));
        }
    }
    law_cut_at_char(b, '\n', rest);
    assert(a + seq!['\r', '\n'] + rest =~= b + seq!['\n'] + rest);
    assert(without_return(b) =~= a);
}

/// A line behind a text that ends with a line feed, or behind nothing, is one line more.
pub proof fn law_line_behind(text: Seq<char>, line: Seq<char>)
    requires
        text.len() == 0 || text.last() == '\n',
        !line.contains('\n'),
        line.len() == 0 || line.last() != '\r',
    ensures
        lines_of(text + line + seq!['\n']) == lines_of(text).push(line),
    decreases text.len(),
{
    if text.len() == 0 {
        law_lines(line, Seq::empty());
        assert(text + line + seq!['\n'] =~= line + seq!['\n'] + Seq::empty());
        assert(seq![line] + lines_of(Seq::empty()) =~= lines_of(text).push(line));
    } else {
        lemma_index_from(text, seq!['\n'], 0);
        let n = text.len() - 1;
        assert(text.subrange(n, n + 1) =~= seq!['\n']);
        assert(occurs_at(text, seq!['\n'], n));
        let (a, b) = split_at_first(text, seq!['\n'])->0;
        let k = first_index(text, seq!['\n'])->0;
        assert(!a.contains('\n')) by {
            if a.contains('\n') {
                let j = choose|j: int| 0 <= j < a.len() && a[j] == '\n';
                assert(text.subrange(j, j + 1) =~= seq!['\n']);
                assert(occurs_at(text, seq!['\n'], j));
            }
        }
        assert(text.subrange(k, k + 1)[0] == '\n');
        assert(text =~= a + seq!['\n'] + b);
        let whole = text + line + seq!['\n'];
        let after = b + line + seq!['\n'];
        assert(whole =~= a + seq!['\n'] + after);
        law_line_behind(b, line);
        if a.len() > 0 && a.last() == '\r' {
            let c = a.drop_last();
            assert(forall|j: int| 0 <= j < c.len() ==> a[j] == c[j]);
            assert(whole =~= c + seq!['\r', '\n'] + after);
            assert(text =~= c + seq!['\r', '\n'] + b);
            law_lines(c, after);
            law_lines(c, b);
            assert(seq![c] + lines_of(b).push(line) =~= (seq![c] + lines_of(b)).push(line));
        } else {
            law_lines(a, after);
            law_lines(a, b);
            assert(seq![a] + lines_of(b).push(line) =~= (seq![a] + lines_of(b)).push(line));
        }
    }
}

/// The number that decimal digits stand for.
pub open spec fn number_of(s: Seq<char>) -> int
    decreases s.len(),
{
    if s.len() == 0 {
        0
    } else {
        number_of(s.drop_last()) * 10 + (s.last() as int - '0' as int)
    }
}

/// A number in decimal is made of digits, stands for the number, and starts with no needless zero.
pub proof fn law_digits(n: nat)
    ensures
        digits(n).len() > 0,
        forall|k: int| 0 <= k < digits(n).len() ==> '0' <= #[trigger] digits(n)[k] <= '9',
        number_of(digits(n)) == n,
        n > 0 ==> digits(n)[0] != '0',
        n == 0 ==> digits(n).len() == 1,
    decreases n,
{
    if n >= 10 {
        law_digits(n / 10);
        assert(digits(n).drop_last() =~= digits(n / 10));
    } else {
        assert(digits(n).drop_last() =~= Seq::empty());
        reveal_with_fuel(number_of, 2);
    }
}

/// Texts joined stand one behind the other with the separator between them.
pub proof fn law_joined(parts: Seq<Seq<char>>, part: Seq<char>, sep: Seq<char>)
    ensures
        joined(seq![part], sep) == part,
        parts.len() > 0 ==> joined(parts.push(part), sep) == joined(parts, sep) + sep + part,
{
    assert(parts.push(part).drop_last() =~= parts);
}

/// Taking a character off the end takes all of it off, and nothing else.
pub proof fn law_without_trailing(s: Seq<char>, c: char)
    ensures
        without_trailing(s, c).is_prefix_of(s),
        forall|k: int| without_trailing(s, c).len() <= k < s.len() ==> #[trigger] s[k] == c,
        without_trailing(s, c).len() > 0 ==> without_trailing(s, c).last() != c,
    decreases s.len(),
{
    if s.len() > 0 && s.last() == c {
        let t = s.drop_last();
        law_without_trailing(t, c);
        let r = without_trailing(s, c);
        assert(r =~= s.subrange(0, r.len() as int)) by {
            assert(r == t.subrange(0, r.len() as int));
        }
        assert forall|k: int| r.len() <= k < s.len() implies #[trigger] s[k] == c by {
            if k < t.len() {
                assert(t[k] == s[k]);
            }
        }
    } else {
        assert(s =~= s.subrange(0, s.len() as int));
    }
}

/// What stands behind the last `://` is the last piece, and a text without it is one piece.
pub proof fn law_behind_scheme(before: Seq<char>, rest: Seq<char>)
    requires
        !has_substring(rest, "://"@),
    ensures
        last_piece(rest, "://"@) == rest,
        last_piece(before + "://"@ + rest, "://"@) == rest,
    decreases before.len(),
{
    reveal_strlit("://");
    let sep = "://"@;
    lemma_index_from(rest, sep, 0);
    if first_index(rest, sep) is Some {
        assert(occurs_at(rest, sep, first_index(rest, sep)->0));
    }
    let s = before + sep + rest;
    let n = before.len() as int;
    assert(s.subrange(n, n + 3) =~= sep);
    assert(occurs_at(s, sep, n));
    lemma_index_from(s, sep, 0);
    let k = first_index(s, sep)->0;
    assert(k <= n);
    assert(s.subrange(k, k + 3)[0] == ':' && s.subrange(k, k + 3)[1] == '/' && s.subrange(
        k,
        k + 3,
    )[2] == '/');
    assert(s[k] == ':' && s[k + 1] == '/' && s[k + 2] == '/');
    assert(s[n] == ':');
    assert(last_piece(rest, sep) == rest);
    assert(last_piece(s, sep) == last_piece(s.skip(k + 3), sep));
    if k == n {
        assert(s.skip(k + 3) =~= rest);
    } else {
        assert(k + 3 <= n);
        let shorter = before.skip(k + 3);
        assert(s.skip(k + 3) =~= shorter + sep + rest);
        law_behind_scheme(shorter, rest);
    }
}

/// The first piece of a text is what stands before the separator, or all of it.
pub proof fn law_first_piece(s: Seq<char>, sep: Seq<char>)
    ensures
        match split_at_first(s, sep) {
            Some((a, _)) => first_piece(s, sep) == a,
            None => first_piece(s, sep) == s,
        },
{
}

/// The last piece of a text does not hold the separator, and is all of the text or stands behind a
/// separator at its end.
pub proof fn law_last_piece(s: Seq<char>, sep: Seq<char>)
    requires
        sep.len() > 0,
    ensures
        !has_substring(last_piece(s, sep), sep),
        last_piece(s, sep) == s || exists|a: Seq<char>|
            s == #[trigger] (a + sep) + last_piece(s, sep),
    decreases s.len(),
{
    lemma_index_from(s, sep, 0);
    match split_at_first(s, sep) {
        Some((before, after)) => {
            law_last_piece(after, sep);
            let last = last_piece(s, sep);
            assert(s =~= (before + sep) + after);
            if last != after {
                let a = choose|a: Seq<char>| after == #[trigger] (a + sep) + last;
                assert(s =~= ((before + sep + a) + sep) + last);
            }
        },
        None => {},
    }
}

/// The first word of a text is the first run of characters that are not white space, all of it.
pub proof fn law_first_word(s: Seq<char>, i: int, j: int)
    ensures
        0 <= i < j <= s.len() && (forall|k: int| 0 <= k < i ==> white_space(#[trigger] s[k])) && (
        forall|k: int| i <= k < j ==> !white_space(#[trigger] s[k])) && (j < s.len() ==> white_space(
            s[j],
        )) ==> leading_word(s) == Some(s.subrange(i, j)),
        (forall|k: int| 0 <= k < s.len() ==> white_space(#[trigger] s[k])) ==> leading_word(s)
            is None,
{
    let at = lemma_start(s);
    if at < s.len() {
        let t = s.skip(at);
        let n = lemma_word(t);
        if 0 <= i < j <= s.len() && (forall|k: int| 0 <= k < i ==> white_space(#[trigger] s[k])) && (
        forall|k: int| i <= k < j ==> !white_space(#[trigger] s[k])) && (j < s.len()
            ==> white_space(s[j])) {
            if at < i {
                assert(white_space(s[at]));
            }
            if at > i {
                assert(white_space(s[i]));
            }
            if at + n < j {
                assert(t[n] == s[at + n]);
            }
            if at + n > j {
                assert(t[j - at] == s[j]);
            }
            assert(t.take(n) =~= s.subrange(i, j));
        }
    } else if 0 <= i < s.len() {
        assert(white_space(s[i]));
    }
}

/// Where the first word of a text that starts with one ends.
proof fn lemma_word(s: Seq<char>) -> (n: int)
    ensures
        0 <= n <= s.len(),
        before_white_space(s) == s.take(n),
        forall|k: int| 0 <= k < n ==> !white_space(#[trigger] s[k]),
        n < s.len() ==> white_space(s[n]),
    decreases s.len(),
{
    if s.len() == 0 || white_space(s.first()) {
        assert(s.take(0) =~= Seq::<char>::empty());
        0
    } else {
        let n = lemma_word(s.drop_first());
        assert forall|k: int| 0 <= k < n + 1 implies !white_space(#[trigger] s[k]) by {
            if k > 0 {
                assert(s[k] == s.drop_first()[k - 1]);
            }
        }
        assert(s.take(n + 1) =~= seq![s.first()] + s.drop_first().take(n));
        n + 1
    }
}

/// The white space is that of Unicode: the controls from tab to carriage return, the space, the next
/// line, and the spaces and separators beyond ASCII.
pub proof fn law_white_space(c: char)
    ensures
        white_space(c) <==> {
            let n = c as int;
            ||| 9 <= n <= 13
            ||| n == 32
            ||| n == 133
            ||| n == 160
            ||| n == 5760
            ||| 8192 <= n <= 8202
            ||| n == 8232
            ||| n == 8233
            ||| n == 8239
            ||| n == 8287
            ||| n == 12288
        },
{
}

} // verus!

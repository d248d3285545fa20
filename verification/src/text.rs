//! Text: the string operations every parser and renderer in this crate is built from.
//!
//! A string is modelled as its sequence of characters. Each operation has a spec function that
//! says what it yields on such sequences, and an executable function proved to yield just that.

use vstd::prelude::*;
use vstd::string::*;

verus! {

/// The characters with the Unicode `White_Space` property.
pub open spec fn is_whitespace(c: char) -> bool {
    ||| '\u{9}' <= c <= '\u{d}'
    ||| c == '\u{20}'
    ||| c == '\u{85}'
    ||| c == '\u{a0}'
    ||| c == '\u{1680}'
    ||| '\u{2000}' <= c <= '\u{200a}'
    ||| c == '\u{2028}'
    ||| c == '\u{2029}'
    ||| c == '\u{202f}'
    ||| c == '\u{205f}'
    ||| c == '\u{3000}'
}

/// Whether `c` is whitespace.
pub fn whitespace(c: char) -> (r: bool)
    ensures
        r == is_whitespace(c),
{
    ('\u{9}' <= c && c <= '\u{d}') || c == '\u{20}' || c == '\u{85}' || c == '\u{a0}' || c
        == '\u{1680}' || ('\u{2000}' <= c && c <= '\u{200a}') || c == '\u{2028}' || c == '\u{2029}'
        || c == '\u{202f}' || c == '\u{205f}' || c == '\u{3000}'
}

/// The control characters: Unicode's general category `Cc`.
pub open spec fn is_control(c: char) -> bool {
    c <= '\u{1f}' || '\u{7f}' <= c <= '\u{9f}'
}

/// Whether any character of `s` is a control character.
pub open spec fn has_control(s: Seq<char>) -> bool {
    exists|i: int| 0 <= i < s.len() && is_control(#[trigger] s[i])
}

pub open spec fn is_digit(c: char) -> bool {
    '0' <= c <= '9'
}

pub open spec fn is_lowercase(c: char) -> bool {
    'a' <= c <= 'z'
}

pub open spec fn is_uppercase(c: char) -> bool {
    'A' <= c <= 'Z'
}

/// An ASCII letter or digit.
pub open spec fn is_alphanumeric(c: char) -> bool {
    is_lowercase(c) || is_uppercase(c) || is_digit(c)
}

pub fn digit(c: char) -> (r: bool)
    ensures
        r == is_digit(c),
{
    '0' <= c && c <= '9'
}

pub fn lowercase(c: char) -> (r: bool)
    ensures
        r == is_lowercase(c),
{
    'a' <= c && c <= 'z'
}

pub fn uppercase(c: char) -> (r: bool)
    ensures
        r == is_uppercase(c),
{
    'A' <= c && c <= 'Z'
}

pub fn alphanumeric(c: char) -> (r: bool)
    ensures
        r == is_alphanumeric(c),
{
    lowercase(c) || uppercase(c) || digit(c)
}

/// `String::push` appends the character to the end of the string.
pub assume_specification[ String::push ](s: &mut String, c: char)
    ensures
        final(s)@ == old(s)@.push(c),
;

/// The string of one character.
pub fn char_str(c: char) -> (r: String)
    ensures
        r@ == seq![c],
{
    let mut out: String = String::new();
    out.push(c);
    assert(out@ =~= seq![c]);
    out
}

/// The 2 strings one after the other.
pub fn cat2(a: &str, b: &str) -> (r: String)
    ensures
        r@ == a@ + b@,
{
    let mut out: String = a.to_owned();
    out.append(b);
    out
}

/// The 3 strings one after the other.
pub fn cat3(a: &str, b: &str, c: &str) -> (r: String)
    ensures
        r@ == a@ + b@ + c@,
{
    let mut out: String = a.to_owned();
    out.append(b);
    out.append(c);
    out
}

/// The 4 strings one after the other.
pub fn cat4(a: &str, b: &str, c: &str, d: &str) -> (r: String)
    ensures
        r@ == a@ + b@ + c@ + d@,
{
    let mut out: String = a.to_owned();
    out.append(b);
    out.append(c);
    out.append(d);
    out
}

/// The 5 strings one after the other.
pub fn cat5(a: &str, b: &str, c: &str, d: &str, e: &str) -> (r: String)
    ensures
        r@ == a@ + b@ + c@ + d@ + e@,
{
    let mut out: String = a.to_owned();
    out.append(b);
    out.append(c);
    out.append(d);
    out.append(e);
    out
}

/// The 6 strings one after the other.
pub fn cat6(a: &str, b: &str, c: &str, d: &str, e: &str, f: &str) -> (r: String)
    ensures
        r@ == a@ + b@ + c@ + d@ + e@ + f@,
{
    let mut out: String = a.to_owned();
    out.append(b);
    out.append(c);
    out.append(d);
    out.append(e);
    out.append(f);
    out
}

/// The 7 strings one after the other.
pub fn cat7(a: &str, b: &str, c: &str, d: &str, e: &str, f: &str, g: &str) -> (r: String)
    ensures
        r@ == a@ + b@ + c@ + d@ + e@ + f@ + g@,
{
    let mut out: String = a.to_owned();
    out.append(b);
    out.append(c);
    out.append(d);
    out.append(e);
    out.append(f);
    out.append(g);
    out
}

/// The contents of each string of a list.
pub open spec fn views(list: Seq<String>) -> Seq<Seq<char>> {
    list.map_values(|s: String| s@)
}

/// The contents of an optional string.
pub open spec fn opt_view(s: Option<String>) -> Option<Seq<char>> {
    match s {
        Some(s) => Some(s@),
        None => None,
    }
}

pub broadcast proof fn lemma_views_push(list: Seq<String>, s: String)
    ensures
        #[trigger] views(list.push(s)) == views(list).push(s@),
{
    assert(views(list.push(s)) =~= views(list).push(s@));
}

/// The characters of `s`, in order.
pub fn to_chars(s: &str) -> (r: Vec<char>)
    ensures
        r@ == s@,
{
    let mut out: Vec<char> = Vec::new();
    for c in it: s.chars()
        invariant
            out@ == it.seq().take(it.index()),
            it.seq() == s@,
    {
        out.push(c);
    }
    assert(out@ =~= s@);
    out
}

/// The characters of `s` from `from` up to `to`, as a string of their own.
pub fn slice(s: &str, from: usize, to: usize) -> (r: String)
    requires
        from <= to <= s@.len(),
    ensures
        r@ == s@.subrange(from as int, to as int),
{
    s.substring_char(from, to).to_owned()
}

/// Whether the two strings hold the same characters.
pub fn same(a: &str, b: &str) -> (r: bool)
    ensures
        r == (a@ == b@),
{
    let x: Vec<char> = to_chars(a);
    let y: Vec<char> = to_chars(b);
    if x.len() != y.len() {
        return false;
    }
    let mut i: usize = 0;
    while i < x.len()
        invariant
            x@ == a@,
            y@ == b@,
            x@.len() == y@.len(),
            i <= x@.len(),
            forall|j: int| 0 <= j < i ==> x@[j] == y@[j],
        decreases x@.len() - i,
    {
        if x[i] != y[i] {
            return false;
        }
        i = i + 1;
    }
    assert(a@ =~= b@);
    true
}

/// `s` without its leading whitespace.
pub open spec fn trim_start_of(s: Seq<char>) -> Seq<char>
    decreases s.len(),
{
    if s.len() > 0 && is_whitespace(s[0]) {
        trim_start_of(s.drop_first())
    } else {
        s
    }
}

/// `s` without its trailing whitespace.
pub open spec fn trim_end_of(s: Seq<char>) -> Seq<char>
    decreases s.len(),
{
    if s.len() > 0 && is_whitespace(s.last()) {
        trim_end_of(s.drop_last())
    } else {
        s
    }
}

/// `s` without the whitespace around it.
pub open spec fn trimmed(s: Seq<char>) -> Seq<char> {
    trim_end_of(trim_start_of(s))
}

/// `s` without the whitespace around it.
pub fn trim(s: &str) -> (r: String)
    ensures
        r@ == trimmed(s@),
{
    let chars: Vec<char> = to_chars(s);
    let mut from: usize = 0;
    assert(s@.skip(0) =~= s@);
    while from < chars.len() && whitespace(chars[from])
        invariant
            chars@ == s@,
            from <= chars@.len(),
            trim_start_of(s@.skip(from as int)) == trim_start_of(s@),
        decreases chars@.len() - from,
    {
        assert(s@.skip(from as int).drop_first() =~= s@.skip(from + 1));
        from = from + 1;
    }
    assert(trim_start_of(s@) == s@.skip(from as int));
    let mut to: usize = chars.len();
    assert(s@.subrange(from as int, to as int) =~= s@.skip(from as int));
    while to > from && whitespace(chars[to - 1])
        invariant
            chars@ == s@,
            from <= to <= chars@.len(),
            trim_end_of(s@.subrange(from as int, to as int)) == trimmed(s@),
        decreases to,
    {
        assert(s@.subrange(from as int, to as int).drop_last() =~= s@.subrange(
            from as int,
            to - 1,
        ));
        to = to - 1;
    }
    slice(s, from, to)
}

/// Whether `s` starts with `prefix`.
pub open spec fn has_prefix(s: Seq<char>, prefix: Seq<char>) -> bool {
    prefix.is_prefix_of(s)
}

/// What follows `prefix` in `s`, if `s` starts with it.
pub open spec fn after_prefix(s: Seq<char>, prefix: Seq<char>) -> Option<Seq<char>> {
    if has_prefix(s, prefix) {
        Some(s.skip(prefix.len() as int))
    } else {
        None
    }
}

/// Whether `s` starts with `prefix`.
pub fn starts_with(s: &str, prefix: &str) -> (r: bool)
    ensures
        r == has_prefix(s@, prefix@),
{
    let x: Vec<char> = to_chars(s);
    let y: Vec<char> = to_chars(prefix);
    if x.len() < y.len() {
        return false;
    }
    let mut i: usize = 0;
    while i < y.len()
        invariant
            x@ == s@,
            y@ == prefix@,
            y@.len() <= x@.len(),
            i <= y@.len(),
            forall|j: int| 0 <= j < i ==> x@[j] == y@[j],
        decreases y@.len() - i,
    {
        if x[i] != y[i] {
            assert(s@.subrange(0, prefix@.len() as int)[i as int] != prefix@[i as int]);
            return false;
        }
        i = i + 1;
    }
    assert(s@.subrange(0, prefix@.len() as int) =~= prefix@);
    true
}

/// What follows `prefix` in `s`, if `s` starts with it.
pub fn strip_prefix(s: &str, prefix: &str) -> (r: Option<String>)
    ensures
        r is Some <==> after_prefix(s@, prefix@) is Some,
        r matches Some(rest) ==> after_prefix(s@, prefix@) == Some(rest@),
{
    if starts_with(s, prefix) {
        let n: usize = prefix.unicode_len();
        let len: usize = s.unicode_len();
        assert(s@.subrange(n as int, len as int) =~= s@.skip(n as int));
        Some(slice(s, n, len))
    } else {
        None
    }
}

/// The index of the first `c` in `s`, or the length of `s` if it holds none.
pub open spec fn position(s: Seq<char>, c: char) -> int
    decreases s.len(),
{
    if s.len() == 0 || s[0] == c {
        0
    } else {
        1 + position(s.drop_first(), c)
    }
}

/// `position` lies within the sequence, finds `c`, and passes over none.
pub proof fn lemma_position(s: Seq<char>, c: char)
    ensures
        0 <= position(s, c) <= s.len(),
        position(s, c) < s.len() ==> s[position(s, c)] == c,
        forall|i: int| 0 <= i < position(s, c) ==> s[i] != c,
    decreases s.len(),
{
    if s.len() == 0 || s[0] == c {
    } else {
        let t = s.drop_first();
        lemma_position(t, c);
        assert forall|i: int| 0 <= i < position(s, c) implies s[i] != c by {
            if i > 0 {
                assert(s[i] == t[i - 1]);
            }
        }
    }
}

/// Whatever is free of `c` up to an occurrence, or to the end, has its `position` there.
pub proof fn lemma_position_is(s: Seq<char>, c: char, at: int)
    requires
        0 <= at <= s.len(),
        at < s.len() ==> s[at] == c,
        forall|i: int| 0 <= i < at ==> s[i] != c,
    ensures
        position(s, c) == at,
{
    lemma_position(s, c);
    let p = position(s, c);
    if p < at {
        assert(s[p] != c);
    } else if at < p {
        assert(s[at] != c);
    }
}

/// The index of the first `c` at or after `from`, or the length.
pub fn find_from(chars: &Vec<char>, from: usize, c: char) -> (r: usize)
    requires
        from <= chars@.len(),
    ensures
        r == from + position(chars@.skip(from as int), c),
        from <= r <= chars@.len(),
{
    let mut i: usize = from;
    while i < chars.len() && chars[i] != c
        invariant
            from <= i <= chars@.len(),
            forall|j: int| from <= j < i ==> chars@[j] != c,
        decreases chars@.len() - i,
    {
        i = i + 1;
    }
    proof {
        lemma_position_is(chars@.skip(from as int), c, i - from);
    }
    i
}

/// Whether `s` holds the character `c`.
pub fn contains_char(s: &str, c: char) -> (r: bool)
    ensures
        r == s@.contains(c),
{
    let chars: Vec<char> = to_chars(s);
    let at: usize = find_from(&chars, 0, c);
    proof {
        assert(s@.skip(0) =~= s@);
        lemma_position(s@, c);
        if at < s@.len() {
            assert(s@[at as int] == c);
        }
    }
    at < chars.len()
}

/// What stands before and after the first `c` of `s`, if it holds one.
pub open spec fn split_once_of(s: Seq<char>, c: char) -> Option<(Seq<char>, Seq<char>)> {
    let p = position(s, c);
    if p < s.len() {
        Some((s.take(p), s.skip(p + 1)))
    } else {
        None
    }
}

/// What stands before and after the first `c` of `s`, if it holds one.
pub fn split_once(s: &str, c: char) -> (r: Option<(String, String)>)
    ensures
        r is Some <==> split_once_of(s@, c) is Some,
        r matches Some(parts) ==> split_once_of(s@, c) == Some((parts.0@, parts.1@)),
{
    let chars: Vec<char> = to_chars(s);
    let at: usize = find_from(&chars, 0, c);
    assert(s@.skip(0) =~= s@);
    if at < chars.len() {
        assert(s@.subrange(0, at as int) =~= s@.take(at as int));
        assert(s@.subrange(at + 1, s@.len() as int) =~= s@.skip(at + 1));
        Some((slice(s, 0, at), slice(s, at + 1, chars.len())))
    } else {
        None
    }
}

/// The pieces of `s` between the occurrences of `c`: one more than there are occurrences.
pub open spec fn split_of(s: Seq<char>, c: char) -> Seq<Seq<char>>
    decreases s.len(),
{
    proof {
        lemma_position(s, c);
    }
    let p = position(s, c);
    if p < s.len() {
        seq![s.take(p)] + split_of(s.skip(p + 1), c)
    } else {
        seq![s]
    }
}

/// The pieces of `s` between the occurrences of `c`.
pub fn split(s: &str, c: char) -> (r: Vec<String>)
    ensures
        views(r@) == split_of(s@, c),
{
    broadcast use lemma_views_push;

    let chars: Vec<char> = to_chars(s);
    let mut out: Vec<String> = Vec::new();
    let mut from: usize = 0;
    assert(s@.skip(0) =~= s@);
    assert(views(out@) + split_of(s@, c) =~= split_of(s@, c));
    loop
        invariant_except_break
            chars@ == s@,
            from <= chars@.len(),
            views(out@) + split_of(s@.skip(from as int), c) == split_of(s@, c),
        ensures
            views(out@) == split_of(s@, c),
        decreases chars@.len() - from,
    {
        let ghost rest = s@.skip(from as int);
        proof {
            lemma_position(rest, c);
        }
        let at: usize = find_from(&chars, from, c);
        let piece: String = slice(s, from, at);
        let ghost before = views(out@);
        out.push(piece);
        assert(piece@ =~= rest.take(at - from));
        if at < chars.len() {
            assert(s@.skip(at + 1) =~= rest.skip(at - from + 1));
            assert(before.push(piece@) + split_of(s@.skip(at + 1), c) =~= before + (seq![piece@]
                + split_of(s@.skip(at + 1), c)));
            from = at + 1;
        } else {
            assert(piece@ =~= rest);
            assert(before.push(piece@) =~= before + seq![piece@]);
            break;
        }
    }
    out
}

/// `s` without a carriage return at its end.
pub open spec fn without_cr(s: Seq<char>) -> Seq<char> {
    if s.len() > 0 && s.last() == '\r' {
        s.drop_last()
    } else {
        s
    }
}

/// The lines of `s`. A line ends in a line feed, with or without a carriage return before it,
/// neither of which is part of it. What follows the last line feed is a line if it is not empty.
pub open spec fn lines_of(s: Seq<char>) -> Seq<Seq<char>>
    decreases s.len(),
{
    proof {
        lemma_position(s, '\n');
    }
    let p = position(s, '\n');
    if s.len() == 0 {
        Seq::empty()
    } else if p < s.len() {
        seq![without_cr(s.take(p))] + lines_of(s.skip(p + 1))
    } else {
        seq![s]
    }
}

/// The lines of `s`.
pub fn lines(s: &str) -> (r: Vec<String>)
    ensures
        views(r@) == lines_of(s@),
{
    broadcast use lemma_views_push;

    let chars: Vec<char> = to_chars(s);
    let mut out: Vec<String> = Vec::new();
    let mut from: usize = 0;
    assert(s@.skip(0) =~= s@);
    assert(views(out@) + lines_of(s@) =~= lines_of(s@));
    while from < chars.len()
        invariant
            chars@ == s@,
            from <= chars@.len(),
            views(out@) + lines_of(s@.skip(from as int)) == lines_of(s@),
        decreases chars@.len() - from,
    {
        let ghost rest = s@.skip(from as int);
        proof {
            lemma_position(rest, '\n');
        }
        let at: usize = find_from(&chars, from, '\n');
        let ghost before = views(out@);
        if at < chars.len() {
            let end: usize = if at > from && chars[at - 1] == '\r' {
                at - 1
            } else {
                at
            };
            let line: String = slice(s, from, end);
            assert(rest.take(at - from) =~= s@.subrange(from as int, at as int));
            assert(line@ =~= without_cr(rest.take(at - from)));
            out.push(line);
            assert(s@.skip(at + 1) =~= rest.skip(at - from + 1));
            assert(before.push(line@) + lines_of(s@.skip(at + 1)) =~= before + (seq![line@]
                + lines_of(s@.skip(at + 1))));
            from = at + 1;
        } else {
            let line: String = slice(s, from, at);
            assert(line@ =~= rest);
            out.push(line);
            assert(s@.skip(at as int) =~= Seq::<char>::empty());
            assert(before.push(line@) + lines_of(s@.skip(at as int)) =~= before + seq![line@]);
            from = at;
        }
    }
    assert(s@.skip(from as int) =~= Seq::<char>::empty());
    assert(views(out@) + Seq::<Seq<char>>::empty() =~= views(out@));
    out
}

/// The number of characters of `s` before its first whitespace.
pub open spec fn word_len(s: Seq<char>) -> int
    decreases s.len(),
{
    if s.len() == 0 || is_whitespace(s[0]) {
        0
    } else {
        1 + word_len(s.drop_first())
    }
}

pub proof fn lemma_word_len(s: Seq<char>)
    ensures
        0 <= word_len(s) <= s.len(),
        s.len() > 0 && !is_whitespace(s[0]) ==> word_len(s) > 0,
    decreases s.len(),
{
    if s.len() == 0 || is_whitespace(s[0]) {
    } else {
        lemma_word_len(s.drop_first());
    }
}

pub proof fn lemma_trim_start(s: Seq<char>)
    ensures
        trim_start_of(s).len() <= s.len(),
        trim_start_of(s).len() > 0 ==> !is_whitespace(trim_start_of(s)[0]),
    decreases s.len(),
{
    if s.len() > 0 && is_whitespace(s[0]) {
        lemma_trim_start(s.drop_first());
    }
}

/// The maximal runs of `s` that hold no whitespace.
pub open spec fn words_of(s: Seq<char>) -> Seq<Seq<char>>
    decreases s.len(),
    via words_of_decreases
{
    let t = trim_start_of(s);
    if t.len() == 0 {
        Seq::empty()
    } else {
        seq![t.take(word_len(t))] + words_of(t.skip(word_len(t)))
    }
}

#[via_fn]
proof fn words_of_decreases(s: Seq<char>) {
    let t = trim_start_of(s);
    lemma_trim_start(s);
    lemma_word_len(t);
}

/// The maximal runs of `s` that hold no whitespace.
pub fn split_whitespace(s: &str) -> (r: Vec<String>)
    ensures
        views(r@) == words_of(s@),
{
    broadcast use lemma_views_push;

    let chars: Vec<char> = to_chars(s);
    let mut out: Vec<String> = Vec::new();
    let mut from: usize = 0;
    assert(s@.skip(0) =~= s@);
    assert(views(out@) + words_of(s@) =~= words_of(s@));
    while from < chars.len()
        invariant
            chars@ == s@,
            from <= chars@.len(),
            views(out@) + words_of(s@.skip(from as int)) == words_of(s@),
        decreases chars@.len() - from,
    {
        let ghost rest = s@.skip(from as int);
        if whitespace(chars[from]) {
            assert(rest.drop_first() =~= s@.skip(from + 1));
            from = from + 1;
        } else {
            let mut to: usize = from;
            while to < chars.len() && !whitespace(chars[to])
                invariant
                    chars@ == s@,
                    from <= to <= chars@.len(),
                    rest == s@.skip(from as int),
                    word_len(rest) == to - from + word_len(s@.skip(to as int)),
                decreases chars@.len() - to,
            {
                assert(s@.skip(to as int).drop_first() =~= s@.skip(to + 1));
                to = to + 1;
            }
            assert(trim_start_of(rest) == rest);
            proof {
                lemma_word_len(rest);
            }
            let word: String = slice(s, from, to);
            assert(word@ =~= rest.take(to - from));
            assert(s@.skip(to as int) =~= rest.skip(to - from));
            let ghost before = views(out@);
            out.push(word);
            assert(before.push(word@) + words_of(s@.skip(to as int)) =~= before + (seq![word@]
                + words_of(s@.skip(to as int))));
            from = to;
        }
    }
    assert(s@.skip(from as int) =~= Seq::<char>::empty());
    assert(views(out@) + Seq::<Seq<char>>::empty() =~= views(out@));
    out
}

/// `parts` one after the other, with `sep` between each two.
pub open spec fn joined(parts: Seq<Seq<char>>, sep: Seq<char>) -> Seq<char>
    decreases parts.len(),
{
    if parts.len() == 0 {
        Seq::empty()
    } else if parts.len() == 1 {
        parts[0]
    } else {
        joined(parts.drop_last(), sep) + sep + parts.last()
    }
}

/// `parts` one after the other, with `sep` between each two.
pub fn join(parts: &Vec<String>, sep: &str) -> (r: String)
    ensures
        r@ == joined(views(parts@), sep@),
{
    let mut out: String = String::new();
    let mut i: usize = 0;
    while i < parts.len()
        invariant
            i <= parts@.len(),
            out@ == joined(views(parts@).take(i as int), sep@),
        decreases parts@.len() - i,
    {
        assert(views(parts@).take(i + 1).drop_last() =~= views(parts@).take(i as int));
        if i > 0 {
            out.append(sep);
        } else {
            assert(out@ + parts@[0]@ =~= parts@[0]@);
        }
        out.append(parts[i].as_str());
        i = i + 1;
    }
    assert(views(parts@).take(i as int) =~= views(parts@));
    out
}

/// `s` filled up with spaces on its right to `width` characters.
pub open spec fn padded(s: Seq<char>, width: nat) -> Seq<char> {
    if s.len() >= width {
        s
    } else {
        s + Seq::new((width - s.len()) as nat, |i: int| ' ')
    }
}

/// `s` filled up with spaces on its right to `width` characters.
pub fn pad(s: &str, width: usize) -> (r: String)
    ensures
        r@ == padded(s@, width as nat),
{
    let mut out: String = s.to_owned();
    let mut len: usize = s.unicode_len();
    assert(out@ =~= s@ + Seq::new((len - s@.len()) as nat, |i: int| ' '));
    while len < width
        invariant
            s@.len() <= len,
            len <= width || len == s@.len(),
            out@ == s@ + Seq::new((len - s@.len()) as nat, |i: int| ' '),
        decreases width - len,
    {
        out.push(' ');
        assert(out@ =~= s@ + Seq::new((len + 1 - s@.len()) as nat, |i: int| ' '));
        len = len + 1;
    }
    assert(s@.len() >= width ==> out@ =~= s@);
    out
}

/// The character that stands for the digit `d`.
pub open spec fn digit_char(d: nat) -> char {
    (48 + d) as char
}

/// `n` in decimal, without leading zeros.
pub open spec fn decimal(n: nat) -> Seq<char>
    decreases n,
{
    if n < 10 {
        seq![digit_char(n)]
    } else {
        decimal(n / 10).push(digit_char(n % 10))
    }
}

/// `n` in decimal, without leading zeros.
pub fn to_decimal(n: u64) -> (r: String)
    ensures
        r@ == decimal(n as nat),
    decreases n,
{
    let mut out: String = if n < 10 {
        String::new()
    } else {
        to_decimal(n / 10)
    };
    let ghost before = out@;
    out.push((48 + (n % 10) as u8) as char);
    assert(before.push(digit_char((n % 10) as nat)) =~= decimal(n as nat));
    out
}

/// The value of the digit that `c` stands for.
pub open spec fn digit_value(c: char) -> nat
    recommends
        is_digit(c),
{
    (c as int - 48) as nat
}

pub open spec fn all_digits(s: Seq<char>) -> bool {
    forall|i: int| 0 <= i < s.len() ==> is_digit(#[trigger] s[i])
}

/// The number that the digits of `s` write in decimal.
pub open spec fn digits_value(s: Seq<char>) -> nat
    decreases s.len(),
{
    if s.len() == 0 {
        0
    } else {
        10 * digits_value(s.drop_last()) + digit_value(s.last())
    }
}

/// The number that `s` writes: digits, at least one, with or without a plus sign before them.
/// A number above `max` is none.
pub open spec fn number_of(s: Seq<char>, max: nat) -> Option<nat> {
    let digits = if s.len() > 0 && s[0] == '+' {
        s.skip(1)
    } else {
        s
    };
    if digits.len() > 0 && all_digits(digits) && digits_value(digits) <= max {
        Some(digits_value(digits))
    } else {
        None
    }
}

/// A number grows with every digit that is written behind it.
pub proof fn lemma_digits_value_monotone(s: Seq<char>, n: int)
    requires
        0 <= n <= s.len(),
    ensures
        digits_value(s.take(n)) <= digits_value(s),
    decreases s.len(),
{
    if n == s.len() {
        assert(s.take(n) =~= s);
    } else {
        lemma_digits_value_monotone(s.drop_last(), n);
        assert(s.drop_last().take(n) =~= s.take(n));
    }
}

/// The number that `s` writes, if it writes one of at most `max`.
pub fn parse_number(s: &str, max: u64) -> (r: Option<u64>)
    ensures
        r is Some <==> number_of(s@, max as nat) is Some,
        r matches Some(n) ==> number_of(s@, max as nat) == Some(n as nat),
{
    let chars: Vec<char> = to_chars(s);
    let from: usize = if chars.len() > 0 && chars[0] == '+' {
        1
    } else {
        0
    };
    let ghost digits = s@.skip(from as int);
    assert(s@.skip(0) =~= s@);
    if from == chars.len() {
        return None;
    }
    let mut value: u64 = 0;
    let mut i: usize = from;
    while i < chars.len()
        invariant
            chars@ == s@,
            from <= i <= chars@.len(),
            digits == s@.skip(from as int),
            forall|j: int| 0 <= j < i - from ==> is_digit(#[trigger] digits[j]),
            value == digits_value(digits.take(i - from)),
            value <= max,
            digits.len() > 0,
            number_of(s@, max as nat) == (if all_digits(digits) && digits_value(digits) <= max {
                Some(digits_value(digits))
            } else {
                None
            }),
        decreases chars@.len() - i,
    {
        let c: char = chars[i];
        assert(c == digits[i - from]);
        if !digit(c) {
            return None;
        }
        let d: u64 = c as u64 - 48;
        proof {
            let upto = digits.take(i - from + 1);
            assert(upto.drop_last() =~= digits.take(i - from));
            lemma_digits_value_monotone(digits, i - from + 1);
        }
        if value > max / 10 || (value == max / 10 && d > max % 10) {
            assert(10 * value + d > max);
            return None;
        }
        value = value * 10 + d;
        i = i + 1;
    }
    assert(digits.take(i - from) =~= digits);
    Some(value)
}

/// Writing a number in decimal and reading it back gives the number.
pub proof fn lemma_decimal_reads_back(n: nat)
    ensures
        decimal(n).len() > 0,
        all_digits(decimal(n)),
        digits_value(decimal(n)) == n,
    decreases n,
{
    reveal_with_fuel(digits_value, 2);
    if n < 10 {
        assert(decimal(n).drop_last() =~= Seq::<char>::empty());
    } else {
        lemma_decimal_reads_back(n / 10);
        assert(decimal(n).drop_last() =~= decimal(n / 10));
    }
}

/// What a number's decimal form parses to, under any bound that admits it, is the number.
pub proof fn lemma_number_round_trip(n: nat, max: nat)
    requires
        n <= max,
    ensures
        number_of(decimal(n), max) == Some(n),
{
    lemma_decimal_reads_back(n);
    assert(is_digit(decimal(n)[0]));
}

/// Whitespace written behind a string is trimmed off again.
pub proof fn lemma_trim_start_push(s: Seq<char>, w: char)
    requires
        is_whitespace(w),
    ensures
        trim_start_of(s.push(w)) == (if trim_start_of(s).len() == 0 {
            Seq::<char>::empty()
        } else {
            trim_start_of(s).push(w)
        }),
    decreases s.len(),
{
    reveal_with_fuel(trim_start_of, 2);
    if s.len() == 0 {
        assert(s.push(w).drop_first() =~= Seq::<char>::empty());
    } else if is_whitespace(s[0]) {
        lemma_trim_start_push(s.drop_first(), w);
        assert(s.push(w).drop_first() =~= s.drop_first().push(w));
    }
}

/// Whitespace written behind a string is trimmed off again.
pub proof fn lemma_trimmed_push(s: Seq<char>, w: char)
    requires
        is_whitespace(w),
    ensures
        trimmed(s.push(w)) == trimmed(s),
{
    lemma_trim_start_push(s, w);
    let t = trim_start_of(s);
    if t.len() > 0 {
        assert(t.push(w).drop_last() =~= t);
    } else {
        assert(t =~= Seq::<char>::empty());
    }
}

/// Trimming the end first changes nothing about trimming both.
pub proof fn lemma_trimmed_trim_end(s: Seq<char>)
    ensures
        trimmed(trim_end_of(s)) == trimmed(s),
    decreases s.len(),
{
    if s.len() > 0 && is_whitespace(s.last()) {
        lemma_trimmed_trim_end(s.drop_last());
        lemma_trimmed_push(s.drop_last(), s.last());
        assert(s.drop_last().push(s.last()) =~= s);
    }
}

/// A line with or without its carriage return trims to the same.
pub proof fn lemma_trimmed_without_cr(s: Seq<char>)
    ensures
        trimmed(without_cr(s)) == trimmed(s),
{
    if s.len() > 0 && s.last() == '\r' {
        lemma_trimmed_push(s.drop_last(), '\r');
        assert(s.drop_last().push('\r') =~= s);
    }
}

/// What ends in a character that is no whitespace keeps it, whatever is trimmed off behind it.
pub proof fn lemma_trim_end_append(p: Seq<char>, s: Seq<char>)
    requires
        p.len() > 0,
        !is_whitespace(p.last()),
    ensures
        trim_end_of(p + s) == p + trim_end_of(s),
    decreases s.len(),
{
    if s.len() == 0 {
        assert(p + s =~= p);
        assert(p + trim_end_of(s) =~= p);
    } else {
        assert((p + s).last() == s.last());
        if is_whitespace(s.last()) {
            assert((p + s).drop_last() =~= p + s.drop_last());
            lemma_trim_end_append(p, s.drop_last());
        }
    }
}

/// `lines`, each ended by a line feed.
pub open spec fn unlines(lines: Seq<Seq<char>>) -> Seq<char>
    decreases lines.len(),
{
    if lines.len() == 0 {
        Seq::empty()
    } else {
        unlines(lines.drop_last()) + lines.last() + seq!['\n']
    }
}

pub proof fn lemma_unlines_first(lines: Seq<Seq<char>>)
    requires
        lines.len() > 0,
    ensures
        unlines(lines) == lines[0] + seq!['\n'] + unlines(lines.drop_first()),
    decreases lines.len(),
{
    if lines.len() == 1 {
        assert(lines.drop_last() =~= Seq::<Seq<char>>::empty());
        assert(lines.drop_first() =~= Seq::<Seq<char>>::empty());
        assert(unlines(lines) =~= lines[0] + seq!['\n'] + unlines(lines.drop_first()));
    } else {
        lemma_unlines_first(lines.drop_last());
        let inner = lines.drop_last().drop_first();
        assert(lines.drop_first().drop_last() =~= inner);
        assert(lines.drop_first().last() == lines.last());
        assert(unlines(lines) =~= lines[0] + seq!['\n'] + (unlines(inner) + lines.last()
            + seq!['\n']));
    }
}

/// Splitting what was put together from lines gives the lines back, less a carriage return at
/// the end of any of them.
pub proof fn lemma_lines_of_unlines(lines: Seq<Seq<char>>)
    requires
        forall|i: int| 0 <= i < lines.len() ==> !(#[trigger] lines[i]).contains('\n'),
    ensures
        lines_of(unlines(lines)) == lines.map_values(|l: Seq<char>| without_cr(l)),
    decreases lines.len(),
{
    let text = unlines(lines);
    if lines.len() > 0 {
        lemma_unlines_first(lines);
        let n = lines[0].len() as int;
        assert forall|i: int| 0 <= i < n implies text[i] != '\n' by {
            assert(lines[0].contains(lines[0][i]));
        }
        lemma_position_is(text, '\n', n);
        assert(text.take(n) =~= lines[0]);
        assert(text.skip(n + 1) =~= unlines(lines.drop_first()));
        assert forall|i: int| 0 <= i < lines.drop_first().len() implies !(
        #[trigger] lines.drop_first()[i]).contains('\n') by {
            assert(lines.drop_first()[i] == lines[i + 1]);
        }
        lemma_lines_of_unlines(lines.drop_first());
    }
    assert(lines_of(text) =~= lines.map_values(|l: Seq<char>| without_cr(l)));
}

/// No line holds a line feed.
pub proof fn lemma_lines_hold_no_line_feed(s: Seq<char>)
    ensures
        forall|i: int| 0 <= i < lines_of(s).len() ==> !(#[trigger] lines_of(s)[i]).contains('\n'),
    decreases s.len(),
{
    lemma_position(s, '\n');
    let p = position(s, '\n');
    if s.len() == 0 {
    } else if p < s.len() {
        lemma_lines_hold_no_line_feed(s.skip(p + 1));
        let rest = lines_of(s.skip(p + 1));
        assert forall|i: int| 0 <= i < lines_of(s).len() implies !(
        #[trigger] lines_of(s)[i]).contains('\n') by {
            if i > 0 {
                assert(lines_of(s)[i] == rest[i - 1]);
            } else {
                let l = without_cr(s.take(p));
                assert(forall|j: int| 0 <= j < l.len() ==> l[j] == s[j]);
            }
        }
    }
}

/// The index of the first character of `s` that `f` holds of, or the length of `s`.
pub open spec fn position_where(s: Seq<char>, f: spec_fn(char) -> bool) -> int
    decreases s.len(),
{
    if s.len() == 0 || f(s[0]) {
        0
    } else {
        1 + position_where(s.drop_first(), f)
    }
}

pub proof fn lemma_position_where(s: Seq<char>, f: spec_fn(char) -> bool)
    ensures
        0 <= position_where(s, f) <= s.len(),
        position_where(s, f) < s.len() ==> f(s[position_where(s, f)]),
        forall|i: int| 0 <= i < position_where(s, f) ==> !f(#[trigger] s[i]),
    decreases s.len(),
{
    if s.len() == 0 || f(s[0]) {
    } else {
        let t = s.drop_first();
        lemma_position_where(t, f);
        assert forall|i: int| 0 <= i < position_where(s, f) implies !f(#[trigger] s[i]) by {
            if i > 0 {
                assert(s[i] == t[i - 1]);
            }
        }
    }
}

/// The first index that `f` holds at, or the end, is the `position_where`.
pub proof fn lemma_position_where_is(s: Seq<char>, f: spec_fn(char) -> bool, at: int)
    requires
        0 <= at <= s.len(),
        at < s.len() ==> f(s[at]),
        forall|i: int| 0 <= i < at ==> !f(#[trigger] s[i]),
    ensures
        position_where(s, f) == at,
{
    lemma_position_where(s, f);
    let p = position_where(s, f);
    if p < at {
        assert(!f(s[p]));
    } else if at < p {
        assert(!f(s[at]));
    }
}

/// `c` in lower case, if it is an ASCII letter.
pub open spec fn lower_char(c: char) -> char {
    if is_uppercase(c) {
        ((c as u32 + 32) as u8) as char
    } else {
        c
    }
}

/// `s` with its ASCII letters in lower case.
pub open spec fn lowered(s: Seq<char>) -> Seq<char> {
    s.map_values(|c: char| lower_char(c))
}

pub fn to_lowercase(s: &str) -> (r: String)
    ensures
        r@ == lowered(s@),
{
    let chars: Vec<char> = to_chars(s);
    let mut out: String = String::new();
    let mut i: usize = 0;
    while i < chars.len()
        invariant
            i <= chars@.len(),
            chars@ == s@,
            out@ == lowered(s@).take(i as int),
        decreases chars@.len() - i,
    {
        let c: char = chars[i];
        if uppercase(c) {
            out.push(((c as u32 + 32) as u8) as char);
        } else {
            out.push(c);
        }
        assert(lowered(s@).take(i + 1) =~= lowered(s@).take(i as int).push(lowered(s@)[i as int]));
        i = i + 1;
    }
    assert(lowered(s@).take(i as int) =~= lowered(s@));
    out
}

/// `s` without its trailing whitespace.
pub fn trim_end(s: &str) -> (r: String)
    ensures
        r@ == trim_end_of(s@),
{
    let chars: Vec<char> = to_chars(s);
    let mut to: usize = chars.len();
    assert(s@.subrange(0, to as int) =~= s@);
    while to > 0 && whitespace(chars[to - 1])
        invariant
            chars@ == s@,
            to <= chars@.len(),
            trim_end_of(s@.subrange(0, to as int)) == trim_end_of(s@),
        decreases to,
    {
        assert(s@.subrange(0, to as int).drop_last() =~= s@.subrange(0, to - 1));
        to = to - 1;
    }
    slice(s, 0, to)
}

/// `lines`, each ended by a line feed.
pub fn join_lines(lines: &Vec<String>) -> (r: String)
    ensures
        r@ == unlines(views(lines@)),
{
    let mut out: String = String::new();
    let mut i: usize = 0;
    assert(views(lines@).take(0) =~= Seq::<Seq<char>>::empty());
    while i < lines.len()
        invariant
            i <= lines@.len(),
            out@ == unlines(views(lines@).take(i as int)),
        decreases lines@.len() - i,
    {
        let ghost before = out@;
        out.append(lines[i].as_str());
        out.push('\n');
        assert(views(lines@).take(i + 1).drop_last() =~= views(lines@).take(i as int));
        assert(out@ =~= before + lines@[i as int]@ + seq!['\n']);
        i = i + 1;
    }
    assert(views(lines@).take(i as int) =~= views(lines@));
    out
}

/// Whether any character of `s` is a control character.
pub fn contains_control(s: &str) -> (r: bool)
    ensures
        r == has_control(s@),
{
    let chars: Vec<char> = to_chars(s);
    let mut i: usize = 0;
    while i < chars.len()
        invariant
            i <= chars@.len(),
            chars@ == s@,
            forall|j: int| 0 <= j < i ==> !is_control(#[trigger] s@[j]),
        decreases chars@.len() - i,
    {
        let c: char = chars[i];
        if c <= '\u{1f}' || ('\u{7f}' <= c && c <= '\u{9f}') {
            assert(is_control(s@[i as int]));
            return true;
        }
        i = i + 1;
    }
    false
}

/// Trimming takes whitespace off both ends and nothing else: what is left starts and ends with
/// something, and what is gone is whitespace.
pub proof fn trimming_takes_whitespace_off_the_ends(s: Seq<char>) -> (at: (int, int))
    ensures
        0 <= at.0 <= at.1 <= s.len(),
        trimmed(s) == s.subrange(at.0, at.1),
        forall|i: int| 0 <= i < at.0 || at.1 <= i < s.len() ==> is_whitespace(#[trigger] s[i]),
        at.0 < at.1 ==> !is_whitespace(s[at.0]) && !is_whitespace(s[at.1 - 1]),
{
    let from = lemma_trim_start_at(s);
    let rest = s.skip(from);
    let to = from + lemma_trim_end_at(rest);
    assert(rest.take(to - from) =~= s.subrange(from, to));
    assert forall|i: int| 0 <= i < from || to <= i < s.len() implies is_whitespace(
        #[trigger] s[i],
    ) by {
        if i >= to {
            assert(rest[i - from] == s[i]);
        }
    }
    if from < to {
        assert(rest[0] == s[from]);
        assert(rest[to - from - 1] == s[to - 1]);
    }
    (from, to)
}

proof fn lemma_trim_start_at(s: Seq<char>) -> (at: int)
    ensures
        0 <= at <= s.len(),
        trim_start_of(s) == s.skip(at),
        forall|i: int| 0 <= i < at ==> is_whitespace(#[trigger] s[i]),
        at < s.len() ==> !is_whitespace(s[at]),
    decreases s.len(),
{
    if s.len() > 0 && is_whitespace(s[0]) {
        let rest = s.drop_first();
        let at = 1 + lemma_trim_start_at(rest);
        assert(rest.skip(at - 1) =~= s.skip(at));
        assert forall|i: int| 0 <= i < at implies is_whitespace(#[trigger] s[i]) by {
            if i > 0 {
                assert(rest[i - 1] == s[i]);
            }
        }
        at
    } else {
        assert(s.skip(0) =~= s);
        0
    }
}

proof fn lemma_trim_end_at(s: Seq<char>) -> (at: int)
    ensures
        0 <= at <= s.len(),
        trim_end_of(s) == s.take(at),
        forall|i: int| at <= i < s.len() ==> is_whitespace(#[trigger] s[i]),
        at > 0 ==> !is_whitespace(s[at - 1]),
    decreases s.len(),
{
    if s.len() > 0 && is_whitespace(s.last()) {
        let rest = s.drop_last();
        let at = lemma_trim_end_at(rest);
        assert(rest.take(at) =~= s.take(at));
        assert forall|i: int| at <= i < s.len() implies is_whitespace(#[trigger] s[i]) by {
            if i < rest.len() {
                assert(rest[i] == s[i]);
            }
        }
        at
    } else {
        assert(s.take(s.len() as int) =~= s);
        s.len() as int
    }
}

/// Padding keeps what is padded, and adds spaces up to the width and no further.
pub proof fn padding_fills_up_with_spaces(s: Seq<char>, width: nat)
    ensures
        padded(s, width).len() == if s.len() < width {
            width
        } else {
            s.len()
        },
        padded(s, width).take(s.len() as int) == s,
        forall|i: int| s.len() <= i < padded(s, width).len() ==> #[trigger] padded(s, width)[i] == ' ',
{
    assert(padded(s, width).take(s.len() as int) =~= s);
}

/// What is joined starts with the first part, and goes on with the others behind the separator.
pub proof fn joining_puts_the_separator_between(parts: Seq<Seq<char>>, sep: Seq<char>)
    ensures
        parts.len() == 0 ==> joined(parts, sep) == Seq::<char>::empty(),
        parts.len() == 1 ==> joined(parts, sep) == parts[0],
        parts.len() >= 2 ==> joined(parts, sep) == parts[0] + sep + joined(
            parts.drop_first(),
            sep,
        ),
    decreases parts.len(),
{
    if parts.len() == 2 {
        reveal_with_fuel(joined, 3);
        assert(parts.drop_last() =~= seq![parts[0]]);
        assert(parts.drop_first() =~= seq![parts[1]]);
        joining_puts_the_separator_between(seq![parts[0]], sep);
        joining_puts_the_separator_between(seq![parts[1]], sep);
    } else if parts.len() > 2 {
        let init = parts.drop_last();
        joining_puts_the_separator_between(init, sep);
        assert(init.drop_first() =~= parts.drop_first().drop_last());
        assert(parts.drop_first().last() == parts.last());
        assert(joined(parts, sep) =~= parts[0] + sep + joined(parts.drop_first(), sep));
    }
}

/// Splitting what was joined gives the parts back, if none of them holds the separator.
pub proof fn splitting_undoes_joining(parts: Seq<Seq<char>>, sep: Seq<char>, c: char)
    requires
        parts.len() > 0,
        sep == seq![c],
        forall|i: int| 0 <= i < parts.len() ==> !(#[trigger] parts[i]).contains(c),
    ensures
        split_of(joined(parts, sep), c) == parts,
    decreases parts.len(),
{
    joining_puts_the_separator_between(parts, sep);
    let first = parts[0];
    let whole = joined(parts, sep);
    if parts.len() == 1 {
        lemma_position_is(first, c, first.len() as int);
        assert(seq![first] =~= parts);
    } else {
        let rest = parts.drop_first();
        assert forall|i: int| 0 <= i < rest.len() implies !(#[trigger] rest[i]).contains(c) by {
            assert(rest[i] == parts[i + 1]);
        }
        splitting_undoes_joining(rest, sep, c);
        assert(whole[first.len() as int] == c);
        assert forall|i: int| 0 <= i < first.len() implies whole[i] != c by {
            assert(whole[i] == first[i]);
        }
        lemma_position_is(whole, c, first.len() as int);
        assert(whole.take(first.len() as int) =~= first);
        assert(whole.skip(first.len() as int + 1) =~= joined(rest, sep));
        assert(seq![first] + rest =~= parts);
    }
}

/// A word is not empty and holds no whitespace.
pub proof fn words_hold_no_whitespace(s: Seq<char>)
    ensures
        forall|i: int, j: int|
            0 <= i < words_of(s).len() && 0 <= j < words_of(s)[i].len() ==> !is_whitespace(
                #[trigger] words_of(s)[i][j],
            ),
        forall|i: int| 0 <= i < words_of(s).len() ==> (#[trigger] words_of(s)[i]).len() > 0,
    decreases s.len(),
{
    lemma_trim_start(s);
    let t = trim_start_of(s);
    if t.len() > 0 {
        lemma_word_len(t);
        lemma_word_holds_no_whitespace(t);
        let n = word_len(t);
        let rest = t.skip(n);
        words_hold_no_whitespace(rest);
        let words = words_of(s);
        assert(words =~= seq![t.take(n)] + words_of(rest));
        assert forall|i: int, j: int| 0 <= i < words.len() && 0 <= j < words[i].len() implies
            !is_whitespace(#[trigger] words[i][j]) by {
            if i == 0 {
                assert(words[0][j] == t[j]);
            } else {
                assert(words[i] == words_of(rest)[i - 1]);
                assert(!is_whitespace(words_of(rest)[i - 1][j]));
            }
        }
        assert forall|i: int| 0 <= i < words.len() implies (#[trigger] words[i]).len() > 0 by {
            if i > 0 {
                assert(words[i] == words_of(rest)[i - 1]);
            }
        }
    }
}

proof fn lemma_word_holds_no_whitespace(s: Seq<char>)
    ensures
        forall|j: int| 0 <= j < word_len(s) && j < s.len() ==> !is_whitespace(#[trigger] s[j]),
    decreases s.len(),
{
    if s.len() > 0 && !is_whitespace(s[0]) {
        let rest = s.drop_first();
        lemma_word_holds_no_whitespace(rest);
        assert forall|j: int| 0 <= j < word_len(s) && j < s.len() implies !is_whitespace(
            #[trigger] s[j],
        ) by {
            if j > 0 {
                assert(rest[j - 1] == s[j]);
            }
        }
    }
}

/// Lowering a text changes its capital letters and nothing else.
pub proof fn lowering_changes_capitals_alone(s: Seq<char>, i: int)
    requires
        0 <= i < s.len(),
    ensures
        lowered(s).len() == s.len(),
        'A' <= s[i] && s[i] <= 'Z' ==> lowered(s)[i] as int == s[i] as int + 32,
        !('A' <= s[i] && s[i] <= 'Z') ==> lowered(s)[i] == s[i],
{
    let c = s[i];
    if is_uppercase(c) {
        assert(((c as u32 + 32) as u8) as int == c as int + 32);
    }
}

/// A text starts with its own beginning, and what follows that is the rest.
pub proof fn a_beginning_is_taken_off(prefix: Seq<char>, rest: Seq<char>, s: Seq<char>)
    ensures
        has_prefix(prefix + rest, prefix),
        after_prefix(prefix + rest, prefix) == Some(rest),
        after_prefix(s, prefix) matches Some(tail) ==> s == prefix + tail,
        after_prefix(s, prefix) is None ==> s.len() < prefix.len() || s.take(prefix.len() as int)
            != prefix,
{
    let whole = prefix + rest;
    assert(whole.subrange(0, prefix.len() as int) =~= prefix);
    assert(whole.skip(prefix.len() as int) =~= rest);
    if has_prefix(s, prefix) {
        assert(s =~= prefix + s.skip(prefix.len() as int));
    } else if s.len() >= prefix.len() {
        assert(s.subrange(0, prefix.len() as int) =~= s.take(prefix.len() as int));
    }
}

/// A number is read from its digits, with or without a plus sign, if it is in bounds; what holds
/// anything else is no number.
pub proof fn a_number_is_read_from_its_digits(n: nat, max: nat, s: Seq<char>, i: int)
    ensures
        number_of(decimal(n), max) == if n <= max {
            Some(n)
        } else {
            None
        },
        number_of(seq!['+'] + decimal(n), max) == number_of(decimal(n), max),
        0 <= i < s.len() && !('0' <= s[i] && s[i] <= '9') && !(i == 0 && s[i] == '+') ==> number_of(
            s,
            max,
        ) is None,
        s.len() == 0 ==> number_of(s, max) is None,
{
    let digits = decimal(n);
    lemma_decimal_reads_back(n);
    assert(is_digit(digits[0]));
    let signed = seq!['+'] + digits;
    assert(signed.skip(1) =~= digits);
    assert(signed[0] == '+');
    if 0 <= i < s.len() && !is_digit(s[i]) && !(i == 0 && s[i] == '+') {
        if s[0] == '+' {
            assert(s.skip(1)[i - 1] == s[i]);
            assert(!all_digits(s.skip(1)));
        } else {
            assert(!all_digits(s));
        }
    }
}

/// A text has a control character if one of its characters is below the space, or lies from the
/// delete character up to the last of the second block of controls.
pub proof fn controls_are_found_anywhere(s: Seq<char>)
    ensures
        has_control(s) <==> exists|i: int|
            0 <= i < s.len() && (#[trigger] s[i] < ' ' || ('\u{7f}' <= s[i] && s[i] <= '\u{9f}')),
{
    if has_control(s) {
        let i = choose|i: int| 0 <= i < s.len() && is_control(#[trigger] s[i]);
        assert(s[i] < ' ' || ('\u{7f}' <= s[i] && s[i] <= '\u{9f}'));
    }
    if exists|i: int|
        0 <= i < s.len() && (#[trigger] s[i] < ' ' || ('\u{7f}' <= s[i] && s[i] <= '\u{9f}')) {
        let i = choose|i: int|
            0 <= i < s.len() && (#[trigger] s[i] < ' ' || ('\u{7f}' <= s[i] && s[i] <= '\u{9f}'));
        assert(is_control(s[i]));
    }
}

/// A text is parted at the first occurrence of a character, which goes to neither side, and not at
/// all if it does not occur.
pub proof fn a_text_is_parted_at_the_first_occurrence(
    before: Seq<char>,
    c: char,
    after: Seq<char>,
    s: Seq<char>,
)
    requires
        !before.contains(c),
    ensures
        split_once_of(before + seq![c] + after, c) == Some((before, after)),
        split_once_of(s, c) is None <==> !s.contains(c),
{
    let whole = before + seq![c] + after;
    assert forall|i: int| 0 <= i < before.len() implies whole[i] != c by {
        assert(whole[i] == before[i]);
        assert(before.contains(before[i]));
    }
    assert(whole[before.len() as int] == c);
    lemma_position_is(whole, c, before.len() as int);
    assert(whole.take(before.len() as int) =~= before);
    assert(whole.skip(before.len() as int + 1) =~= after);
    lemma_position(s, c);
    if position(s, c) < s.len() {
        assert(s[position(s, c)] == c);
    } else {
        lemma_absent(s, c);
    }
}

proof fn lemma_absent(s: Seq<char>, c: char)
    requires
        position(s, c) >= s.len(),
    ensures
        !s.contains(c),
{
    lemma_position(s, c);
    if s.contains(c) {
        let i = choose|i: int| 0 <= i < s.len() && s[i] == c;
        assert(s[i] != c);
    }
}

} // verus!

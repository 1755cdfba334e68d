//! Text as a sequence of characters: lines, fields and decimal numbers.

use vstd::prelude::*;

verus! {

/// The characters of a string, in order.
pub fn chars_of(s: &str) -> (chars: Vec<char>)
    ensures
        chars@ == s@,
{
    let mut chars: Vec<char> = Vec::new();
    for c in it: s.chars()
        invariant
            it.seq() == s@,
            chars@ == s@.take(it.index()),
    {
        chars.push(c);
    }
    chars
}

/// The texts that a list of character vectors holds.
pub open spec fn texts_of(pieces: Seq<Vec<char>>) -> Seq<Seq<char>> {
    Seq::new(pieces.len(), |i: int| pieces[i]@)
}

/// The pieces of `s` between the occurrences of `sep`. There is one piece
/// more than there are separators: an empty text has one empty piece.
pub open spec fn split_on(s: Seq<char>, sep: char) -> Seq<Seq<char>>
    decreases s.len(),
{
    if s.len() == 0 {
        seq![Seq::<char>::empty()]
    } else {
        let before = split_on(s.drop_last(), sep);
        if s.last() == sep {
            before.push(Seq::<char>::empty())
        } else {
            before.drop_last().push(before.last().push(s.last()))
        }
    }
}

/// Splits `text` at every occurrence of `sep`.
pub fn split(text: &[char], sep: char) -> (pieces: Vec<Vec<char>>)
    ensures
        texts_of(pieces@) == split_on(text@, sep),
        pieces@.len() >= 1,
{
    let mut pieces: Vec<Vec<char>> = Vec::new();
    let mut current: Vec<char> = Vec::new();
    let mut i: usize = 0;
    while i < text.len()
        invariant
            i <= text@.len(),
            texts_of(pieces@).push(current@) == split_on(text@.take(i as int), sep),
        decreases text@.len() - i,
    {
        let c = text[i];
        let ghost before = text@.take(i as int);
        assert(text@.take(i + 1).drop_last() =~= before);
        if c == sep {
            pieces.push(current);
            current = Vec::new();
        } else {
            current.push(c);
        }
        i += 1;
    }
    assert(text@.take(text@.len() as int) =~= text@);
    pieces.push(current);
    pieces
}

/// A line without the carriage return that ends it, if one does.
pub open spec fn without_carriage_return(s: Seq<char>) -> Seq<char> {
    if s.len() > 0 && s.last() == '\r' {
        s.drop_last()
    } else {
        s
    }
}

/// The lines of a text. A line ends with a line feed, or with a carriage
/// return and a line feed; neither belongs to the line. What follows the
/// last line feed is a line too, unless it is empty.
pub open spec fn lines_of(s: Seq<char>) -> Seq<Seq<char>> {
    let parts = split_on(s, '\n');
    let ended = parts.drop_last().map_values(|p: Seq<char>| without_carriage_return(p));
    if parts.last().len() == 0 {
        ended
    } else {
        ended.push(parts.last())
    }
}

/// Splits `text` into its lines.
pub fn lines(text: &[char]) -> (result: Vec<Vec<char>>)
    ensures
        texts_of(result@) == lines_of(text@),
{
    let mut parts = split(text, '\n');
    let ghost all = texts_of(parts@);
    let last = parts.pop().unwrap();
    assert(texts_of(parts@) =~= all.drop_last());
    let mut result: Vec<Vec<char>> = Vec::new();
    let mut i: usize = 0;
    while i < parts.len()
        invariant
            i <= parts@.len(),
            texts_of(result@) == texts_of(parts@).take(i as int).map_values(
                |p: Seq<char>| without_carriage_return(p),
            ),
        decreases parts@.len() - i,
    {
        let ghost before = texts_of(result@);
        let part = &parts[i];
        let mut line: Vec<char> = part.clone();
        if line.len() > 0 && line[line.len() - 1] == '\r' {
            line.pop();
        }
        let ghost stripped = line@;
        result.push(line);
        assert(texts_of(result@) =~= before.push(stripped));
        i += 1;
    }
    assert(texts_of(parts@).take(parts@.len() as int) =~= texts_of(parts@));
    if last.len() > 0 {
        result.push(last);
    }
    result
}

/// Whether a character is white space: a character with the Unicode property
/// `White_Space`.
pub open spec fn is_white_space(c: char) -> bool {
    let n = c as u32;
    0x09 <= n <= 0x0d || n == 0x20 || n == 0x85 || n == 0xa0 || n == 0x1680 || 0x2000 <= n
        <= 0x200a || n == 0x2028 || n == 0x2029 || n == 0x202f || n == 0x205f || n == 0x3000
}

/// Whether `c` is white space.
pub fn white_space(c: char) -> (r: bool)
    ensures
        r == is_white_space(c),
{
    let n = c as u32;
    (0x09 <= n && n <= 0x0d) || n == 0x20 || n == 0x85 || n == 0xa0 || n == 0x1680 || (0x2000 <= n
        && n <= 0x200a) || n == 0x2028 || n == 0x2029 || n == 0x202f || n == 0x205f || n
        == 0x3000
}

/// `s` without the white space that it begins with.
pub open spec fn trimmed_start(s: Seq<char>) -> Seq<char>
    decreases s.len(),
{
    if s.len() > 0 && is_white_space(s[0]) {
        trimmed_start(s.drop_first())
    } else {
        s
    }
}

/// `s` without the white space that it ends with.
pub open spec fn trimmed_end(s: Seq<char>) -> Seq<char>
    decreases s.len(),
{
    if s.len() > 0 && is_white_space(s.last()) {
        trimmed_end(s.drop_last())
    } else {
        s
    }
}

/// `s` without the white space at either end.
pub open spec fn trimmed(s: Seq<char>) -> Seq<char> {
    trimmed_end(trimmed_start(s))
}

proof fn lemma_trimmed_start_skips(s: Seq<char>, i: int)
    requires
        0 <= i <= s.len(),
        forall|j: int| 0 <= j < i ==> is_white_space(s[j]),
    ensures
        trimmed_start(s) == trimmed_start(s.subrange(i, s.len() as int)),
    decreases i,
{
    if i == 0 {
        assert(s.subrange(0, s.len() as int) =~= s);
    } else {
        lemma_trimmed_start_skips(s.drop_first(), i - 1);
        assert(s.drop_first().subrange(i - 1, s.len() - 1) =~= s.subrange(i, s.len() as int));
    }
}

proof fn lemma_trimmed_end_skips(s: Seq<char>, i: int)
    requires
        0 <= i <= s.len(),
        forall|j: int| i <= j < s.len() ==> is_white_space(s[j]),
    ensures
        trimmed_end(s) == trimmed_end(s.subrange(0, i)),
    decreases s.len() - i,
{
    if i == s.len() {
        assert(s.subrange(0, i) =~= s);
    } else {
        lemma_trimmed_end_skips(s.drop_last(), i);
        assert(s.drop_last().subrange(0, i) =~= s.subrange(0, i));
    }
}

/// A copy of the characters of `text` from `from` up to `to`.
pub fn slice_of(text: &[char], from: usize, to: usize) -> (piece: Vec<char>)
    requires
        from <= to <= text@.len(),
    ensures
        piece@ == text@.subrange(from as int, to as int),
{
    let mut piece: Vec<char> = Vec::new();
    let mut i: usize = from;
    while i < to
        invariant
            from <= i <= to <= text@.len(),
            piece@ == text@.subrange(from as int, i as int),
        decreases to - i,
    {
        piece.push(text[i]);
        i += 1;
    }
    piece
}

/// Removes the white space at both ends of `text`.
pub fn trim(text: &[char]) -> (result: Vec<char>)
    ensures
        result@ == trimmed(text@),
{
    let mut start: usize = 0;
    while start < text.len() && white_space(text[start])
        invariant
            start <= text@.len(),
            forall|j: int| 0 <= j < start ==> is_white_space(text@[j]),
        decreases text@.len() - start,
    {
        start += 1;
    }
    let mut end: usize = text.len();
    while end > start && white_space(text[end - 1])
        invariant
            start <= end <= text@.len(),
            forall|j: int| end <= j < text@.len() ==> is_white_space(text@[j]),
        decreases end,
    {
        end -= 1;
    }
    proof {
        let rest = text@.subrange(start as int, text@.len() as int);
        lemma_trimmed_start_skips(text@, start as int);
        lemma_trimmed_end_skips(rest, end - start);
        let kept = text@.subrange(start as int, end as int);
    }
    slice_of(text, start, end)
}

/// `s` without every `c` that it begins with.
pub open spec fn without_leading(s: Seq<char>, c: char) -> Seq<char>
    decreases s.len(),
{
    if s.len() > 0 && s[0] == c {
        without_leading(s.drop_first(), c)
    } else {
        s
    }
}

/// `s` without every `c` that it ends with.
pub open spec fn without_trailing(s: Seq<char>, c: char) -> Seq<char>
    decreases s.len(),
{
    if s.len() > 0 && s.last() == c {
        without_trailing(s.drop_last(), c)
    } else {
        s
    }
}

proof fn lemma_without_leading_skips(s: Seq<char>, c: char, i: int)
    requires
        0 <= i <= s.len(),
        forall|j: int| 0 <= j < i ==> s[j] == c,
    ensures
        without_leading(s, c) == without_leading(s.subrange(i, s.len() as int), c),
    decreases i,
{
    if i == 0 {
        assert(s.subrange(0, s.len() as int) =~= s);
    } else {
        lemma_without_leading_skips(s.drop_first(), c, i - 1);
        assert(s.drop_first().subrange(i - 1, s.len() - 1) =~= s.subrange(i, s.len() as int));
    }
}

proof fn lemma_without_trailing_skips(s: Seq<char>, c: char, i: int)
    requires
        0 <= i <= s.len(),
        forall|j: int| i <= j < s.len() ==> s[j] == c,
    ensures
        without_trailing(s, c) == without_trailing(s.subrange(0, i), c),
    decreases s.len() - i,
{
    if i == s.len() {
        assert(s.subrange(0, i) =~= s);
    } else {
        lemma_without_trailing_skips(s.drop_last(), c, i);
        assert(s.drop_last().subrange(0, i) =~= s.subrange(0, i));
    }
}

/// Removes every `c` at the beginning of `text`.
pub fn trim_start_matches(text: &[char], c: char) -> (result: Vec<char>)
    ensures
        result@ == without_leading(text@, c),
{
    let mut start: usize = 0;
    while start < text.len() && text[start] == c
        invariant
            start <= text@.len(),
            forall|j: int| 0 <= j < start ==> text@[j] == c,
        decreases text@.len() - start,
    {
        start += 1;
    }
    proof {
        lemma_without_leading_skips(text@, c, start as int);
    }
    slice_of(text, start, text.len())
}

/// Removes every `c` at the end of `text`.
pub fn trim_end_matches(text: &[char], c: char) -> (result: Vec<char>)
    ensures
        result@ == without_trailing(text@, c),
{
    let mut end: usize = text.len();
    while end > 0 && text[end - 1] == c
        invariant
            end <= text@.len(),
            forall|j: int| end <= j < text@.len() ==> text@[j] == c,
        decreases end,
    {
        end -= 1;
    }
    proof {
        lemma_without_trailing_skips(text@, c, end as int);
        let kept = text@.subrange(0, end as int);
    }
    slice_of(text, 0, end)
}

/// Whether `s` begins with `prefix`.
pub open spec fn begins_with(s: Seq<char>, prefix: Seq<char>) -> bool {
    prefix.len() <= s.len() && s.subrange(0, prefix.len() as int) == prefix
}

/// What follows `prefix` in `text`, where `text` begins with it.
pub fn strip_prefix(text: &[char], prefix: &[char]) -> (rest: Option<Vec<char>>)
    ensures
        rest is Some <==> begins_with(text@, prefix@),
        rest matches Some(r) ==> r@ == text@.subrange(prefix@.len() as int, text@.len() as int),
{
    if prefix.len() > text.len() {
        return None;
    }
    let mut i: usize = 0;
    while i < prefix.len()
        invariant
            i <= prefix@.len() <= text@.len(),
            forall|j: int| 0 <= j < i ==> text@[j] == prefix@[j],
        decreases prefix@.len() - i,
    {
        if text[i] != prefix[i] {
            return None;
        }
        i += 1;
    }
    assert(text@.subrange(0, prefix@.len() as int) =~= prefix@);
    Some(slice_of(text, prefix.len(), text.len()))
}

/// The place of the first `sep` in `s`, or the length of `s` where there is
/// none.
pub open spec fn first_index_of(s: Seq<char>, sep: char) -> int
    decreases s.len(),
{
    if s.len() == 0 || s[0] == sep {
        0
    } else {
        1 + first_index_of(s.drop_first(), sep)
    }
}

/// The first index is a place in `s` or its length, no `sep` stands before
/// it, and one stands at it where it is a place.
pub proof fn lemma_first_index_of(s: Seq<char>, sep: char)
    ensures
        0 <= first_index_of(s, sep) <= s.len(),
        forall|j: int| 0 <= j < first_index_of(s, sep) ==> s[j] != sep,
        first_index_of(s, sep) < s.len() ==> s[first_index_of(s, sep)] == sep,
    decreases s.len(),
{
    if s.len() > 0 && s[0] != sep {
        lemma_first_index_of(s.drop_first(), sep);
        assert forall|j: int| 0 <= j < first_index_of(s, sep) implies s[j] != sep by {
            if j > 0 {
                assert(s[j] == s.drop_first()[j - 1]);
            }
        }
    }
}

/// A place before which no `sep` stands, and which holds one or is the
/// length of `s`, is the first index.
pub proof fn lemma_first_index_of_is(s: Seq<char>, sep: char, i: int)
    requires
        0 <= i <= s.len(),
        forall|j: int| 0 <= j < i ==> s[j] != sep,
        i < s.len() ==> s[i] == sep,
    ensures
        first_index_of(s, sep) == i,
{
    lemma_first_index_of(s, sep);
    let f = first_index_of(s, sep);
}

/// The place of the first `sep` in `text`, or its length where there is none.
pub fn find(text: &[char], sep: char) -> (i: usize)
    ensures
        i == first_index_of(text@, sep),
        i <= text@.len(),
{
    let mut i: usize = 0;
    while i < text.len() && text[i] != sep
        invariant
            i <= text@.len(),
            forall|j: int| 0 <= j < i ==> text@[j] != sep,
        decreases text@.len() - i,
    {
        i += 1;
    }
    proof {
        lemma_first_index_of_is(text@, sep, i as int);
    }
    i
}

/// The parts of `text` before and after the first `sep`, where there is one.
pub fn split_once(text: &[char], sep: char) -> (parts: Option<(Vec<char>, Vec<char>)>)
    ensures
        parts is Some <==> text@.contains(sep),
        parts matches Some((left, right)) ==> {
            &&& left@ == text@.subrange(0, first_index_of(text@, sep))
            &&& right@ == text@.subrange(first_index_of(text@, sep) + 1, text@.len() as int)
        },
{
    let i = find(text, sep);
    proof {
        lemma_first_index_of(text@, sep);
    }
    if i < text.len() {
        Some((slice_of(text, 0, i), slice_of(text, i + 1, text.len())))
    } else {
        assert(!text@.contains(sep));
        None
    }
}

/// `String::push`: the string with one more character at its end.
#[verifier::external_body]
pub(crate) fn push_char(s: &mut String, c: char)
    ensures
        final(s)@ == old(s)@.push(c),
{
    s.push(c)
}

} // verus!

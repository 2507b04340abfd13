//! Work on text, character by character.

use vstd::prelude::*;

verus! {

/// Appends one character to a string: `String::push` of the standard
/// library.
#[verifier::external_body]
pub(crate) fn push_char(text: &mut String, c: char)
    ensures
        final(text)@ == old(text)@.push(c),
{
    text.push(c)
}

/// The string of the characters from `from` up to `to`.
pub fn string_of(chars: &Vec<char>, from: usize, to: usize) -> (text: String)
    requires
        from <= to <= chars@.len(),
    ensures
        text@ == chars@.subrange(from as int, to as int),
{
    let mut text = String::new();
    let mut at: usize = from;
    assert(chars@.subrange(from as int, at as int) =~= text@);
    while at < to
        invariant
            from <= at <= to <= chars@.len(),
            text@ == chars@.subrange(from as int, at as int),
        decreases to - at,
    {
        push_char(&mut text, chars[at]);
        at = at + 1;
        assert(chars@.subrange(from as int, at as int) =~= chars@.subrange(
            from as int,
            at - 1,
        ).push(chars@[at - 1]));
    }
    text
}

/// Whether the characters spell the word.
pub fn spells(chars: &Vec<char>, word: &str) -> (same: bool)
    ensures
        same == (chars@ == word@),
{
    if word.unicode_len() != chars.len() {
        return false;
    }
    let mut at: usize = 0;
    while at < chars.len()
        invariant
            at <= chars@.len(),
            word@.len() == chars@.len(),
            forall|i: int| 0 <= i < at ==> chars@[i] == word@[i],
        decreases chars@.len() - at,
    {
        if chars[at] != word.get_char(at) {
            return false;
        }
        at = at + 1;
    }
    assert(chars@ =~= word@);
    true
}

/// The parts of a text between the separators: one more than there are
/// separators in it.
pub open spec fn fields(text: Seq<char>, separator: char) -> Seq<Seq<char>>
    decreases text.len(),
{
    if text.len() == 0 {
        seq![Seq::empty()]
    } else {
        let before = fields(text.drop_last(), separator);
        if text.last() == separator {
            before.push(Seq::empty())
        } else {
            before.drop_last().push(before.last().push(text.last()))
        }
    }
}

/// The texts that some vectors hold.
pub open spec fn texts(parts: Seq<Vec<char>>) -> Seq<Seq<char>> {
    Seq::new(parts.len(), |i: int| parts[i]@)
}

pub proof fn lemma_fields_not_empty(text: Seq<char>, separator: char)
    ensures
        fields(text, separator).len() >= 1,
    decreases text.len(),
{
    if text.len() > 0 {
        lemma_fields_not_empty(text.drop_last(), separator);
    }
}

/// The parts of a text between the separators.
pub fn split(text: &Vec<char>, separator: char) -> (parts: Vec<Vec<char>>)
    ensures
        texts(parts@) == fields(text@, separator),
{
    let mut parts: Vec<Vec<char>> = Vec::new();
    let mut current: Vec<char> = Vec::new();
    let mut at: usize = 0;
    assert(texts(parts@).push(current@) =~= fields(text@.take(0), separator));
    while at < text.len()
        invariant
            at <= text@.len(),
            texts(parts@).push(current@) == fields(text@.take(at as int), separator),
        decreases text@.len() - at,
    {
        let ghost before = fields(text@.take(at as int), separator);
        proof {
            assert(text@.take(at + 1).drop_last() =~= text@.take(at as int));
            assert(text@.take(at + 1).last() == text@[at as int]);
        }
        if text[at] == separator {
            let ghost done = texts(parts@);
            parts.push(current);
            current = Vec::new();
            assert(texts(parts@) =~= before);
            assert(texts(parts@).push(current@) =~= before.push(Seq::empty()));
        } else {
            current.push(text[at]);
            assert(texts(parts@).push(current@) =~= before.drop_last().push(
                before.last().push(text@[at as int]),
            ));
        }
        at = at + 1;
    }
    assert(text@.take(at as int) =~= text@);
    let ghost done = texts(parts@);
    parts.push(current);
    assert(texts(parts@) =~= done.push(current@));
    parts
}

/// How many characters at the start of a text are the given one.
pub open spec fn leading(text: Seq<char>, c: char) -> nat
    decreases text.len(),
{
    if text.len() == 0 || text[0] != c {
        0
    } else {
        1 + leading(text.drop_first(), c)
    }
}

/// How many characters at the end of a text are the given one.
pub open spec fn trailing(text: Seq<char>, c: char) -> nat
    decreases text.len(),
{
    if text.len() == 0 || text.last() != c {
        0
    } else {
        1 + trailing(text.drop_last(), c)
    }
}

/// A text without the given character at its start and at its end, however
/// often it stands there.
pub open spec fn stripped(text: Seq<char>, c: char) -> Seq<char> {
    let rest = text.skip(leading(text, c) as int);
    rest.take(rest.len() - trailing(rest, c))
}

proof fn lemma_leading(text: Seq<char>, c: char, count: nat)
    requires
        count <= text.len(),
        forall|i: int| 0 <= i < count ==> text[i] == c,
        count == text.len() || text[count as int] != c,
    ensures
        leading(text, c) == count,
    decreases count,
{
    if count > 0 {
        let rest = text.drop_first();
        assert forall|i: int| 0 <= i < count - 1 implies rest[i] == c by {
            assert(rest[i] == text[i + 1]);
        }
        if count < text.len() {
            assert(rest[count - 1] == text[count as int]);
        }
        lemma_leading(rest, c, (count - 1) as nat);
    }
}

proof fn lemma_trailing(text: Seq<char>, c: char, count: nat)
    requires
        count <= text.len(),
        forall|i: int| text.len() - count <= i < text.len() ==> text[i] == c,
        count == text.len() || text[text.len() - count - 1] != c,
    ensures
        trailing(text, c) == count,
    decreases count,
{
    if count > 0 {
        let rest = text.drop_last();
        assert forall|i: int| rest.len() - (count - 1) <= i < rest.len() implies rest[i] == c by {
            assert(rest[i] == text[i]);
        }
        if count < text.len() {
            assert(rest[rest.len() - (count - 1) - 1] == text[text.len() - count - 1]);
        }
        lemma_trailing(rest, c, (count - 1) as nat);
    }
}

/// The text from `from` up to `to` without the given character at its start
/// and at its end.
pub fn strip(text: &Vec<char>, c: char) -> (inner: String)
    ensures
        inner@ == stripped(text@, c),
{
    let mut from: usize = 0;
    while from < text.len() && text[from] == c
        invariant
            from <= text@.len(),
            forall|i: int| 0 <= i < from ==> text@[i] == c,
        decreases text@.len() - from,
    {
        from = from + 1;
    }
    proof {
        lemma_leading(text@, c, from as nat);
    }
    let ghost rest = text@.skip(from as int);
    let mut to: usize = text.len();
    while to > from && text[to - 1] == c
        invariant
            from <= to <= text@.len(),
            forall|i: int| to <= i < text@.len() ==> text@[i] == c,
        decreases to,
    {
        to = to - 1;
    }
    proof {
        assert forall|i: int| rest.len() - (text@.len() - to) <= i < rest.len() implies rest[i]
            == c by {
            assert(rest[i] == text@[i + from]);
        }
        if to > from {
            assert(rest[rest.len() - (text@.len() - to) - 1] == text@[to - 1]);
        }
        lemma_trailing(rest, c, (text@.len() - to) as nat);
        assert(rest.take(rest.len() - (text@.len() - to)) =~= text@.subrange(
            from as int,
            to as int,
        ));
    }
    string_of(text, from, to)
}

/// Whether a character is white space.
pub open spec fn is_space(c: char) -> bool {
    let code = c as u32;
    0x09 <= code <= 0x0d || code == 0x20 || code == 0x85 || code == 0xa0 || code == 0x1680
        || 0x2000 <= code <= 0x200a || code == 0x2028 || code == 0x2029 || code == 0x202f
        || code == 0x205f || code == 0x3000
}

fn space(c: char) -> (space: bool)
    ensures
        space == is_space(c),
{
    let code = c as u32;
    0x09 <= code && code <= 0x0d || code == 0x20 || code == 0x85 || code == 0xa0 || code == 0x1680
        || 0x2000 <= code && code <= 0x200a || code == 0x2028 || code == 0x2029 || code == 0x202f
        || code == 0x205f || code == 0x3000
}

/// How many characters at the end of a text are white space.
pub open spec fn trailing_space(text: Seq<char>) -> nat
    decreases text.len(),
{
    if text.len() == 0 || !is_space(text.last()) {
        0
    } else {
        1 + trailing_space(text.drop_last())
    }
}

/// A text without the white space at its end.
pub open spec fn trimmed_end(text: Seq<char>) -> Seq<char> {
    text.take(text.len() - trailing_space(text))
}

proof fn lemma_trailing_space(text: Seq<char>, count: nat)
    requires
        count <= text.len(),
        forall|i: int| text.len() - count <= i < text.len() ==> is_space(text[i]),
        count == text.len() || !is_space(text[text.len() - count - 1]),
    ensures
        trailing_space(text) == count,
    decreases count,
{
    if count > 0 {
        let rest = text.drop_last();
        assert forall|i: int| rest.len() - (count - 1) <= i < rest.len() implies is_space(
            rest[i],
        ) by {
            assert(rest[i] == text[i]);
        }
        if count < text.len() {
            assert(rest[rest.len() - (count - 1) - 1] == text[text.len() - count - 1]);
        }
        lemma_trailing_space(rest, (count - 1) as nat);
    }
}

/// The text from `from` on, without the white space at its end.
pub fn trim_end(text: &Vec<char>, from: usize) -> (trimmed: Vec<char>)
    requires
        from <= text@.len(),
    ensures
        trimmed@ == trimmed_end(text@.skip(from as int)),
{
    let ghost rest = text@.skip(from as int);
    let mut to: usize = text.len();
    while to > from && space(text[to - 1])
        invariant
            from <= to <= text@.len(),
            forall|i: int| to <= i < text@.len() ==> is_space(text@[i]),
        decreases to,
    {
        to = to - 1;
    }
    proof {
        assert forall|i: int| rest.len() - (text@.len() - to) <= i < rest.len() implies is_space(
            rest[i],
        ) by {
            assert(rest[i] == text@[i + from]);
        }
        if to > from {
            assert(rest[rest.len() - (text@.len() - to) - 1] == text@[to - 1]);
        }
        lemma_trailing_space(rest, (text@.len() - to) as nat);
    }
    let mut trimmed: Vec<char> = Vec::new();
    let mut at: usize = from;
    while at < to
        invariant
            from <= at <= to <= text@.len(),
            trimmed@ == text@.subrange(from as int, at as int),
        decreases to - at,
    {
        trimmed.push(text[at]);
        at = at + 1;
        assert(trimmed@ =~= text@.subrange(from as int, at as int));
    }
    assert(trimmed@ =~= rest.take(rest.len() - (text@.len() - to)));
    trimmed
}

/// Some texts in a row, with a separator between each two.
pub open spec fn joined(parts: Seq<Seq<char>>, separator: char, count: nat) -> Seq<char>
    decreases count,
{
    if count == 0 {
        Seq::empty()
    } else if count == 1 {
        parts[0]
    } else {
        joined(parts, separator, (count - 1) as nat).push(separator) + parts[count - 1]
    }
}

/// Some texts in a row, with a separator between each two.
pub fn join(parts: &Vec<Vec<char>>, separator: char) -> (whole: Vec<char>)
    ensures
        whole@ == joined(texts(parts@), separator, parts@.len()),
{
    let mut whole: Vec<char> = Vec::new();
    let mut at: usize = 0;
    while at < parts.len()
        invariant
            at <= parts@.len(),
            whole@ == joined(texts(parts@), separator, at as nat),
        decreases parts@.len() - at,
    {
        if at > 0 {
            whole.push(separator);
        }
        let ghost start = whole@;
        let part = &parts[at];
        let mut i: usize = 0;
        while i < part.len()
            invariant
                i <= part@.len(),
                whole@ == start + part@.take(i as int),
            decreases part@.len() - i,
        {
            whole.push(part[i]);
            i = i + 1;
            assert(whole@ =~= start + part@.take(i as int));
        }
        assert(part@.take(part@.len() as int) =~= part@);
        assert(texts(parts@)[at as int] == part@);
        assert(at == 0 ==> start + part@ =~= part@);
        at = at + 1;
    }
    whole
}

} // verus!

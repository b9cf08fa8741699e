//! Character-level helpers: reading a string as characters, ASCII
//! lower-casing and substring search.

use vstd::prelude::*;

verus! {

/// The ASCII lower-case form of `c`: `'A'..='Z'` map to `'a'..='z'`, every
/// other character is kept.
pub open spec fn lower_char(c: char) -> char {
    if 'A' <= c && c <= 'Z' {
        ((c as u8) + 32) as char
    } else {
        c
    }
}

/// `s` with every character replaced by its ASCII lower-case form.
pub open spec fn lowercase(s: Seq<char>) -> Seq<char> {
    s.map_values(|c: char| lower_char(c))
}

/// `needle` stands in `hay` at offset `at`.
pub open spec fn occurs_at(hay: Seq<char>, needle: Seq<char>, at: int) -> bool {
    &&& 0 <= at
    &&& at + needle.len() <= hay.len()
    &&& hay.subrange(at, at + needle.len()) == needle
}

/// `needle` is a contiguous part of `hay`. The empty sequence is part of
/// every sequence.
pub open spec fn occurs_in(hay: Seq<char>, needle: Seq<char>) -> bool {
    exists|at: int| occurs_at(hay, needle, at)
}

/// The characters of `s`, in order.
pub fn chars_of(s: &str) -> (chars: Vec<char>)
    ensures
        chars@ == s@,
{
    broadcast use vstd::string::group_string_axioms;

    let mut chars: Vec<char> = Vec::new();
    let source = s.chars();
    for c in it: source
        invariant
            it.seq() == s@,
            chars@ == s@.take(it.index()),
    {
        chars.push(c);
        assert(s@.take(it.index() + 1) == s@.take(it.index()).push(c));
    }
    assert(s@.take(s@.len() as int) == s@);
    chars
}

/// The ASCII lower-case form of one character.
pub fn to_lower(c: char) -> (lowered: char)
    ensures
        lowered == lower_char(c),
{
    if 'A' <= c && c <= 'Z' {
        let code: u8 = c as u8;
        (code + 32) as char
    } else {
        c
    }
}

/// The characters of `s`, each in its ASCII lower-case form.
pub fn lowercase_chars(s: &str) -> (lowered: Vec<char>)
    ensures
        lowered@ == lowercase(s@),
{
    broadcast use vstd::string::group_string_axioms;

    let mut lowered: Vec<char> = Vec::new();
    let source = s.chars();
    for c in it: source
        invariant
            it.seq() == s@,
            lowered@ == lowercase(s@.take(it.index())),
    {
        lowered.push(to_lower(c));
        assert(lowercase(s@.take(it.index() + 1)) == lowercase(s@.take(it.index())).push(
            lower_char(c),
        ));
    }
    assert(s@.take(s@.len() as int) == s@);
    lowered
}

/// Whether `needle` stands in `hay` at offset `at`.
pub fn starts_at(hay: &Vec<char>, needle: &Vec<char>, at: usize) -> (found: bool)
    ensures
        found == occurs_at(hay@, needle@, at as int),
{
    let size: usize = hay.len();
    if at > size || needle.len() > size - at {
        return false;
    }
    let mut k: usize = 0;
    while k < needle.len()
        invariant
            k <= needle@.len(),
            at + needle@.len() <= hay@.len(),
            size == hay@.len(),
            forall|j: int| 0 <= j < k ==> hay@[at + j] == needle@[j],
        decreases needle@.len() - k,
    {
        if hay[at + k] != needle[k] {
            assert(hay@.subrange(at as int, at + needle@.len())[k as int] != needle@[k as int]);
            return false;
        }
        k += 1;
    }
    assert(hay@.subrange(at as int, at + needle@.len()) =~= needle@);
    true
}

/// Whether `needle` is a contiguous part of `hay`.
pub fn contains(hay: &Vec<char>, needle: &Vec<char>) -> (found: bool)
    ensures
        found == occurs_in(hay@, needle@),
{
    if needle.len() > hay.len() {
        return false;
    }
    let last: usize = hay.len() - needle.len();
    let mut at: usize = 0;
    loop
        invariant
            at <= last,
            last == hay@.len() - needle@.len(),
            forall|j: int| 0 <= j < at ==> !occurs_at(hay@, needle@, j),
        decreases last - at,
    {
        if starts_at(hay, needle, at) {
            return true;
        }
        if at == last {
            return false;
        }
        at += 1;
    }
}

/// Whether `chars` spells `text`.
pub fn spells(chars: &Vec<char>, text: &str) -> (same: bool)
    ensures
        same == (chars@ == text@),
{
    let wanted = chars_of(text);
    if chars.len() != wanted.len() {
        return false;
    }
    let same = starts_at(chars, &wanted, 0);
    assert(chars@.subrange(0, chars@.len() as int) == chars@);
    same
}

/// A text stands in whatever is put together around it.
pub proof fn lemma_occurs_between(before: Seq<char>, part: Seq<char>, after: Seq<char>)
    ensures
        occurs_at(before + part + after, part, before.len() as int),
        occurs_in(before + part + after, part),
{
    let whole = before + part + after;
    assert(whole.subrange(before.len() as int, (before.len() + part.len()) as int) =~= part);
}

/// What stands in a text stands in whatever is put together around that
/// text.
pub proof fn lemma_occurs_in_wrapped(
    before: Seq<char>,
    inner: Seq<char>,
    after: Seq<char>,
    part: Seq<char>,
)
    requires
        occurs_in(inner, part),
    ensures
        occurs_in(before + inner + after, part),
{
    let at = choose|at: int| occurs_at(inner, part, at);
    let whole = before + inner + after;
    assert(whole.subrange(before.len() + at, before.len() + at + part.len()) =~= inner.subrange(
        at,
        at + part.len(),
    ));
    assert(occurs_at(whole, part, before.len() + at));
}

} // verus!

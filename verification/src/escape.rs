//! HTML escaping of text that is put into a page.

use crate::text::occurs_at;
use vstd::prelude::*;
use vstd::string::StringExecFns;

verus! {

/// What stands for `c` in escaped text: its entity for `&`, `<`, `>`, `"`
/// and `'`, the character itself otherwise.
pub open spec fn entity(c: char) -> Seq<char> {
    if c == '&' {
        "&amp;"@
    } else if c == '<' {
        "&lt;"@
    } else if c == '>' {
        "&gt;"@
    } else if c == '"' {
        "&quot;"@
    } else if c == '\'' {
        "&#39;"@
    } else {
        seq![c]
    }
}

/// `s` with each character replaced by what stands for it.
pub open spec fn escaped(s: Seq<char>) -> Seq<char>
    decreases s.len(),
{
    if s.len() == 0 {
        Seq::empty()
    } else {
        escaped(s.drop_last()) + entity(s.last())
    }
}

/// `String::push` of the standard library: the string afterwards is the
/// string before with `c` at its end.
pub assume_specification[ String::push ](s: &mut String, c: char)
    ensures
        final(s)@ == old(s)@.push(c),
;

/// Escapes `s` for use in HTML text and in quoted attribute values.
pub fn html_escape(s: &str) -> (out: String)
    ensures
        out@ == escaped(s@),
        is_safe(out@),
{
    broadcast use vstd::string::group_string_axioms;

    let mut out = String::new();
    let source = s.chars();
    for c in it: source
        invariant
            it.seq() == s@,
            out@ == escaped(s@.take(it.index())),
    {
        assert(s@.take(it.index() + 1).drop_last() == s@.take(it.index()));
        if c == '&' {
            out.append("&amp;");
        } else if c == '<' {
            out.append("&lt;");
        } else if c == '>' {
            out.append("&gt;");
        } else if c == '"' {
            out.append("&quot;");
        } else if c == '\'' {
            out.append("&#39;");
        } else {
            out.push(c);
        }
    }
    proof {
        assert(s@.take(s@.len() as int) == s@);
        lemma_escaped_is_safe(s@);
    }
    out
}

/// `c` is one of the five characters that escaping replaces.
pub open spec fn is_special(c: char) -> bool {
    c == '&' || c == '<' || c == '>' || c == '"' || c == '\''
}

/// One of the five entities stands in `text` at offset `at`.
pub open spec fn entity_at(text: Seq<char>, at: int) -> bool {
    occurs_at(text, "&amp;"@, at) || occurs_at(text, "&lt;"@, at) || occurs_at(text, "&gt;"@, at)
        || occurs_at(text, "&quot;"@, at) || occurs_at(text, "&#39;"@, at)
}

/// `text` is safe to put into a page: it holds no `<`, `>`, `"` or `'`, and
/// each `&` in it begins an entity.
pub open spec fn is_safe(text: Seq<char>) -> bool {
    forall|i: int|
        0 <= i < text.len() ==> if #[trigger] text[i] == '&' {
            entity_at(text, i)
        } else {
            !is_special(text[i])
        }
}

/// `s` with each `from` replaced by `to`, and nothing else changed.
pub open spec fn replaced(s: Seq<char>, from: char, to: Seq<char>) -> Seq<char>
    decreases s.len(),
{
    if s.len() == 0 {
        Seq::empty()
    } else if s.last() == from {
        replaced(s.drop_last(), from, to) + to
    } else {
        replaced(s.drop_last(), from, to).push(s.last())
    }
}

/// `s` after the five replacements one after the other, `&` first.
pub open spec fn replaced_in_turn(s: Seq<char>) -> Seq<char> {
    replaced(
        replaced(
            replaced(replaced(replaced(s, '&', "&amp;"@), '<', "&lt;"@), '>', "&gt;"@),
            '"',
            "&quot;"@,
        ),
        '\'',
        "&#39;"@,
    )
}

/// What the five entities and an ordinary character are made of.
proof fn lemma_entity_chars(c: char)
    ensures
        entity('&') == seq!['&', 'a', 'm', 'p', ';'],
        entity('<') == seq!['&', 'l', 't', ';'],
        entity('>') == seq!['&', 'g', 't', ';'],
        entity('"') == seq!['&', 'q', 'u', 'o', 't', ';'],
        entity('\'') == seq!['&', '#', '3', '9', ';'],
        !is_special(c) ==> entity(c) == seq![c],
{
    reveal_strlit("&amp;");
    reveal_strlit("&lt;");
    reveal_strlit("&gt;");
    reveal_strlit("&quot;");
    reveal_strlit("&#39;");
    assert("&amp;"@ =~= seq!['&', 'a', 'm', 'p', ';']);
    assert("&lt;"@ =~= seq!['&', 'l', 't', ';']);
    assert("&gt;"@ =~= seq!['&', 'g', 't', ';']);
    assert("&quot;"@ =~= seq!['&', 'q', 'u', 'o', 't', ';']);
    assert("&#39;"@ =~= seq!['&', '#', '3', '9', ';']);
}

/// Escaping goes part by part: the escaped form of two texts put together
/// is their escaped forms put together.
pub proof fn lemma_escaped_concat(a: Seq<char>, b: Seq<char>)
    ensures
        escaped(a + b) == escaped(a) + escaped(b),
    decreases b.len(),
{
    if b.len() == 0 {
        assert(a + b =~= a);
        assert(escaped(a) + escaped(b) =~= escaped(a));
    } else {
        assert((a + b).drop_last() =~= a + b.drop_last());
        lemma_escaped_concat(a, b.drop_last());
        assert(escaped(a + b) =~= escaped(a) + escaped(b));
    }
}

/// Text without any of the five characters is its own escaped form.
pub proof fn lemma_escaped_plain(s: Seq<char>)
    requires
        forall|i: int| 0 <= i < s.len() ==> !is_special(#[trigger] s[i]),
    ensures
        escaped(s) == s,
    decreases s.len(),
{
    if s.len() > 0 {
        lemma_escaped_plain(s.drop_last());
        assert(escaped(s) =~= s);
    }
}

/// Escaped text holds none of `<`, `>`, `"` and `'`, and each `&` in it
/// begins an entity. It is not its own escaped form: escaping it again
/// replaces those `&`.
pub proof fn lemma_escaped_is_safe(s: Seq<char>)
    ensures
        is_safe(escaped(s)),
    decreases s.len(),
{
    if s.len() > 0 {
        let head = escaped(s.drop_last());
        let tail = entity(s.last());
        let whole = escaped(s);
        lemma_escaped_is_safe(s.drop_last());
        lemma_entity_chars(s.last());
        assert forall|i: int| 0 <= i < whole.len() implies if #[trigger] whole[i] == '&' {
            entity_at(whole, i)
        } else {
            !is_special(whole[i])
        } by {
            if i < head.len() {
                assert(whole[i] == head[i]);
                if head[i] == '&' {
                    assert(entity_at(head, i));
                    if occurs_at(head, "&amp;"@, i) {
                        lemma_occurs_at_front(head, tail, "&amp;"@, i);
                    } else if occurs_at(head, "&lt;"@, i) {
                        lemma_occurs_at_front(head, tail, "&lt;"@, i);
                    } else if occurs_at(head, "&gt;"@, i) {
                        lemma_occurs_at_front(head, tail, "&gt;"@, i);
                    } else if occurs_at(head, "&quot;"@, i) {
                        lemma_occurs_at_front(head, tail, "&quot;"@, i);
                    } else {
                        lemma_occurs_at_front(head, tail, "&#39;"@, i);
                    }
                }
            } else {
                assert(whole[i] == tail[i - head.len()]);
                if whole[i] == '&' {
                    assert(i == head.len());
                    assert(whole.subrange(i, i + tail.len()) =~= tail);
                }
            }
        }
    }
}

/// What stands in the front part of a text stands in the whole text.
proof fn lemma_occurs_at_front(head: Seq<char>, tail: Seq<char>, part: Seq<char>, at: int)
    requires
        occurs_at(head, part, at),
    ensures
        occurs_at(head + tail, part, at),
{
    assert((head + tail).subrange(at, at + part.len()) =~= head.subrange(at, at + part.len()));
}

/// Replacing goes part by part.
proof fn lemma_replaced_concat(a: Seq<char>, b: Seq<char>, from: char, to: Seq<char>)
    ensures
        replaced(a + b, from, to) == replaced(a, from, to) + replaced(b, from, to),
    decreases b.len(),
{
    if b.len() == 0 {
        assert(a + b =~= a);
        assert(replaced(a, from, to) + replaced(b, from, to) =~= replaced(a, from, to));
    } else {
        assert((a + b).drop_last() =~= a + b.drop_last());
        lemma_replaced_concat(a, b.drop_last(), from, to);
        assert(replaced(a + b, from, to) =~= replaced(a, from, to) + replaced(b, from, to));
    }
}

/// Replacing a character that a text does not hold leaves the text as it is.
proof fn lemma_replaced_absent(s: Seq<char>, from: char, to: Seq<char>)
    requires
        forall|i: int| 0 <= i < s.len() ==> #[trigger] s[i] != from,
    ensures
        replaced(s, from, to) == s,
    decreases s.len(),
{
    if s.len() > 0 {
        lemma_replaced_absent(s.drop_last(), from, to);
        assert(replaced(s, from, to) =~= s);
    }
}

/// The five replacements in turn go part by part.
proof fn lemma_replaced_in_turn_concat(a: Seq<char>, b: Seq<char>)
    ensures
        replaced_in_turn(a + b) == replaced_in_turn(a) + replaced_in_turn(b),
{
    let a1 = replaced(a, '&', "&amp;"@);
    let b1 = replaced(b, '&', "&amp;"@);
    lemma_replaced_concat(a, b, '&', "&amp;"@);
    let a2 = replaced(a1, '<', "&lt;"@);
    let b2 = replaced(b1, '<', "&lt;"@);
    lemma_replaced_concat(a1, b1, '<', "&lt;"@);
    let a3 = replaced(a2, '>', "&gt;"@);
    let b3 = replaced(b2, '>', "&gt;"@);
    lemma_replaced_concat(a2, b2, '>', "&gt;"@);
    let a4 = replaced(a3, '"', "&quot;"@);
    let b4 = replaced(b3, '"', "&quot;"@);
    lemma_replaced_concat(a3, b3, '"', "&quot;"@);
    lemma_replaced_concat(a4, b4, '\'', "&#39;"@);
}

/// Replacing in a text of one character gives `to` where the character is
/// `from`, and the text itself otherwise.
proof fn lemma_replaced_one(c: char, from: char, to: Seq<char>)
    ensures
        replaced(seq![c], from, to) == if c == from {
            to
        } else {
            seq![c]
        },
{
    let one = seq![c];
    assert(one.drop_last() =~= Seq::<char>::empty());
    assert(replaced(one.drop_last(), from, to) =~= Seq::<char>::empty());
    if c == from {
        assert(replaced(one, from, to) =~= to);
    } else {
        assert(replaced(one, from, to) =~= one);
    }
}

/// The five replacements in turn, on one character, give what stands for
/// it.
proof fn lemma_replaced_in_turn_one(c: char)
    ensures
        replaced_in_turn(seq![c]) == entity(c),
{
    lemma_entity_chars(c);
    let one = seq![c];
    let s1 = replaced(one, '&', "&amp;"@);
    lemma_replaced_one(c, '&', "&amp;"@);
    let s2 = replaced(s1, '<', "&lt;"@);
    if c == '<' {
        lemma_replaced_one(c, '<', "&lt;"@);
    } else {
        lemma_replaced_absent(s1, '<', "&lt;"@);
    }
    let s3 = replaced(s2, '>', "&gt;"@);
    if c == '>' {
        lemma_replaced_one(c, '>', "&gt;"@);
    } else {
        lemma_replaced_absent(s2, '>', "&gt;"@);
    }
    let s4 = replaced(s3, '"', "&quot;"@);
    if c == '"' {
        lemma_replaced_one(c, '"', "&quot;"@);
    } else {
        lemma_replaced_absent(s3, '"', "&quot;"@);
    }
    if c == '\'' {
        lemma_replaced_one(c, '\'', "&#39;"@);
    } else {
        lemma_replaced_absent(s4, '\'', "&#39;"@);
    }
}

/// Escaping is the five replacements made one after the other, `&` first:
/// no entity that an earlier replacement wrote is touched by a later one.
pub proof fn lemma_escaped_is_replaced_in_turn(s: Seq<char>)
    ensures
        escaped(s) == replaced_in_turn(s),
    decreases s.len(),
{
    if s.len() == 0 {
        assert(replaced_in_turn(s) =~= Seq::<char>::empty());
    } else {
        lemma_escaped_is_replaced_in_turn(s.drop_last());
        lemma_replaced_in_turn_one(s.last());
        lemma_replaced_in_turn_concat(s.drop_last(), seq![s.last()]);
        assert(s =~= s.drop_last() + seq![s.last()]);
    }
}

} // verus!

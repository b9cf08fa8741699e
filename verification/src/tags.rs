//! The classifier: a tag for an image, by the keywords in its name.

use crate::site::{every_tag_has_a_filter, has_filter, RuleText, Site, SiteText};
use crate::text::{chars_of, contains, lowercase, lowercase_chars, occurs_in};
use vstd::prelude::*;

verus! {

/// The label of the first of `rules` whose keyword is part of `lowered`,
/// and `fallback` where there is none.
pub open spec fn first_label(rules: Seq<RuleText>, fallback: Seq<char>, lowered: Seq<char>) -> Seq<
    char,
>
    decreases rules.len(),
{
    if rules.len() == 0 {
        fallback
    } else if occurs_in(lowered, rules[0].keyword) {
        rules[0].label
    } else {
        first_label(rules.drop_first(), fallback, lowered)
    }
}

/// The tag of the image `name` in the gallery `site`: the rules are held
/// against the name in ASCII lower case; the keywords are taken as they are.
pub open spec fn tag_of(site: SiteText, name: Seq<char>) -> Seq<char> {
    first_label(site.rules, site.default_tag, lowercase(name))
}

/// The tag of the image `name`.
pub fn classify<'a>(site: &'a Site, name: &str) -> (tag: &'a str)
    ensures
        tag@ == tag_of(site@, name@),
{
    let lowered = lowercase_chars(name);
    let mut i: usize = 0;
    assert(site@.rules.skip(0) == site@.rules);
    while i < site.rules.len()
        invariant
            i <= site.rules@.len(),
            lowered@ == lowercase(name@),
            tag_of(site@, name@) == first_label(
                site@.rules.skip(i as int),
                site@.default_tag,
                lowered@,
            ),
        decreases site.rules@.len() - i,
    {
        let rule = &site.rules[i];
        let keyword = chars_of(rule.keyword.as_str());
        if contains(&lowered, &keyword) {
            return rule.label.as_str();
        }
        assert(site@.rules.skip(i as int).drop_first() == site@.rules.skip(i + 1));
        i += 1;
    }
    site.default_tag.as_str()
}

/// The first rule that applies decides, whatever rules follow it.
pub proof fn lemma_first_rule_wins(
    rules: Seq<RuleText>,
    fallback: Seq<char>,
    lowered: Seq<char>,
    i: int,
)
    requires
        0 <= i < rules.len(),
        occurs_in(lowered, rules[i].keyword),
        forall|j: int| 0 <= j < i ==> !occurs_in(lowered, rules[j].keyword),
    ensures
        first_label(rules, fallback, lowered) == rules[i].label,
    decreases i,
{
    if i > 0 {
        let rest = rules.drop_first();
        assert forall|j: int| 0 <= j < i - 1 implies !occurs_in(lowered, rest[j].keyword) by {
            assert(rest[j] == rules[j + 1]);
        }
        lemma_first_rule_wins(rest, fallback, lowered, i - 1);
    }
}

/// Where no rule applies the tag is the default one.
pub proof fn lemma_default_without_match(
    rules: Seq<RuleText>,
    fallback: Seq<char>,
    lowered: Seq<char>,
)
    requires
        forall|j: int| 0 <= j < rules.len() ==> !occurs_in(lowered, rules[j].keyword),
    ensures
        first_label(rules, fallback, lowered) == fallback,
    decreases rules.len(),
{
    if rules.len() > 0 {
        let rest = rules.drop_first();
        assert forall|j: int| 0 <= j < rest.len() implies !occurs_in(lowered, rest[j].keyword) by {
            assert(rest[j] == rules[j + 1]);
        }
        lemma_default_without_match(rest, fallback, lowered);
    }
}

/// The tag that the rules give is the label of one of them, or the default
/// one.
pub proof fn lemma_first_label_is_a_label(
    rules: Seq<RuleText>,
    fallback: Seq<char>,
    lowered: Seq<char>,
)
    ensures
        first_label(rules, fallback, lowered) == fallback || exists|i: int|
            0 <= i < rules.len() && first_label(rules, fallback, lowered)
                == #[trigger] rules[i].label,
    decreases rules.len(),
{
    if rules.len() > 0 && !occurs_in(lowered, rules[0].keyword) {
        let rest = rules.drop_first();
        lemma_first_label_is_a_label(rest, fallback, lowered);
        if first_label(rest, fallback, lowered) != fallback {
            let i = choose|i: int|
                0 <= i < rest.len() && first_label(rest, fallback, lowered)
                    == #[trigger] rest[i].label;
            assert(rules[i + 1].label == rest[i].label);
        }
    }
}

/// In a gallery where every tag has its filter button, the tag of every
/// image is the tag of one of the buttons: each card can be shown by a
/// click.
pub proof fn lemma_tag_has_a_filter(site: SiteText, name: Seq<char>)
    requires
        every_tag_has_a_filter(site),
    ensures
        has_filter(site.filters, tag_of(site, name)),
{
    lemma_first_label_is_a_label(site.rules, site.default_tag, lowercase(name));
}

} // verus!

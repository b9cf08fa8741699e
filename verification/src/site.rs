//! What one gallery is made of: where its images are, what its pages say,
//! how its images are tagged.

use crate::text::chars_of;
use vstd::prelude::*;
use vstd::string::StringExecFns;

verus! {

/// One rule of the classifier: an image whose lower-cased name holds
/// `keyword` gets the tag `label`.
#[derive(Debug)]
pub struct TagRule {
    pub keyword: String,
    pub label: String,
}

/// A rule as text.
pub struct RuleText {
    pub keyword: Seq<char>,
    pub label: Seq<char>,
}

impl View for TagRule {
    type V = RuleText;

    open spec fn view(&self) -> RuleText {
        RuleText { keyword: self.keyword@, label: self.label@ }
    }
}

/// One filter button: a click shows the images tagged `tag`.
#[derive(Debug)]
pub struct Filter {
    pub tag: String,
    pub caption: String,
}

/// A filter button as text.
pub struct FilterText {
    pub tag: Seq<char>,
    pub caption: Seq<char>,
}

impl TagRule {
    /// The rule that gives the tag `label` to names that hold `keyword`.
    pub fn new(keyword: &str, label: &str) -> (rule: TagRule)
        ensures
            rule@ == (RuleText { keyword: keyword@, label: label@ }),
    {
        TagRule { keyword: String::from_str(keyword), label: String::from_str(label) }
    }
}

impl View for Filter {
    type V = FilterText;

    open spec fn view(&self) -> FilterText {
        FilterText { tag: self.tag@, caption: self.caption@ }
    }
}

impl Filter {
    /// The button with the text `caption` that shows the images tagged `tag`.
    pub fn new(tag: &str, caption: &str) -> (filter: Filter)
        ensures
            filter@ == (FilterText { tag: tag@, caption: caption@ }),
    {
        Filter { tag: String::from_str(tag), caption: String::from_str(caption) }
    }
}

/// A gallery. Only image names and page titles are escaped when a page is
/// made; every other text goes into the page as it stands here, so it must
/// be fit for the place it goes to. A gallery is well made where each tag
/// that its rules can give has one filter button ([`every_tag_has_a_filter`],
/// [`filters_are_distinct`]) and its images are served under a proper path
/// ([`is_url_prefix`]).
#[derive(Debug)]
pub struct Site {
    /// The directory that holds the images, as shown in the notice.
    pub image_dir: String,
    /// The path under which the images are served, without a slash at its
    /// end.
    pub url_prefix: String,
    /// The title of the gallery page.
    pub gallery_title: String,
    /// The heading of the gallery page.
    pub gallery_heading: String,
    /// The title and heading of the random page.
    pub random_title: String,
    /// The text of the gallery's link to the random page.
    pub random_link: String,
    /// The alternative text of an image.
    pub image_alt: String,
    /// The alternative text of the full-size view.
    pub full_view_alt: String,
    /// The classifier's rules; the first that applies decides.
    pub rules: Vec<TagRule>,
    /// The tag of an image to which no rule applies.
    pub default_tag: String,
    /// The filter buttons, after the one that shows every image: one for
    /// the label of each rule and one for the default tag.
    pub filters: Vec<Filter>,
    /// The quotes of the random page.
    pub quotes: Vec<String>,
}

/// A gallery as text, field by field.
pub struct SiteText {
    pub image_dir: Seq<char>,
    pub url_prefix: Seq<char>,
    pub gallery_title: Seq<char>,
    pub gallery_heading: Seq<char>,
    pub random_title: Seq<char>,
    pub random_link: Seq<char>,
    pub image_alt: Seq<char>,
    pub full_view_alt: Seq<char>,
    pub rules: Seq<RuleText>,
    pub default_tag: Seq<char>,
    pub filters: Seq<FilterText>,
    pub quotes: Seq<Seq<char>>,
}

impl View for Site {
    type V = SiteText;

    open spec fn view(&self) -> SiteText {
        SiteText {
            image_dir: self.image_dir@,
            url_prefix: self.url_prefix@,
            gallery_title: self.gallery_title@,
            gallery_heading: self.gallery_heading@,
            random_title: self.random_title@,
            random_link: self.random_link@,
            image_alt: self.image_alt@,
            full_view_alt: self.full_view_alt@,
            rules: self.rules@.map_values(|rule: TagRule| rule@),
            default_tag: self.default_tag@,
            filters: self.filters@.map_values(|filter: Filter| filter@),
            quotes: self.quotes@.map_values(|quote: String| quote@),
        }
    }
}

/// One of `filters` shows the images tagged `tag`.
pub open spec fn has_filter(filters: Seq<FilterText>, tag: Seq<char>) -> bool {
    exists|k: int| 0 <= k < filters.len() && #[trigger] filters[k].tag == tag
}

/// Every tag that an image of `site` can get has its filter button: the
/// label of each rule, and the default tag.
pub open spec fn every_tag_has_a_filter(site: SiteText) -> bool {
    &&& has_filter(site.filters, site.default_tag)
    &&& forall|i: int|
        0 <= i < site.rules.len() ==> has_filter(site.filters, #[trigger] site.rules[i].label)
}

/// No two filter buttons of `site` show the same tag, and none takes the
/// place of the button that shows every image.
pub open spec fn filters_are_distinct(site: SiteText) -> bool {
    &&& forall|j: int, k: int|
        0 <= j < k < site.filters.len() ==> #[trigger] site.filters[j].tag
            != #[trigger] site.filters[k].tag
    &&& !has_filter(site.filters, "all"@)
}

/// `prefix` is a path under which images can be served: it begins with a
/// slash, names something after it, and does not end with a slash.
pub open spec fn is_url_prefix(prefix: Seq<char>) -> bool {
    prefix.len() > 1 && prefix[0] == '/' && prefix.last() != '/'
}

/// Whether `prefix` is a path under which images can be served.
pub fn usable_prefix(prefix: &str) -> (usable: bool)
    ensures
        usable == is_url_prefix(prefix@),
{
    let chars = chars_of(prefix);
    chars.len() > 1 && chars[0] == '/' && chars[chars.len() - 1] != '/'
}

/// The gallery of wallpapers, as text.
pub open spec fn wallpapers_text() -> SiteText {
    SiteText {
        image_dir: "static/wallpapers"@,
        url_prefix: "/wallpapers"@,
        gallery_title: "Wallpapers Gallery"@,
        gallery_heading: "Wallpaper Gallery"@,
        random_title: "Random Wallpaper"@,
        random_link: "\u{1F3B2} Random Wallpaper"@,
        image_alt: "Wallpaper"@,
        full_view_alt: "Wallpaper full view"@,
        rules: seq![
            RuleText { keyword: "bocchi"@, label: "Bocchi The Rock"@ },
            RuleText { keyword: "rentagirlfriend"@, label: "Rent-a-Girlfriend"@ },
            RuleText { keyword: "kon"@, label: "K-ON"@ },
            RuleText { keyword: "lovelive"@, label: "Love Live"@ },
            RuleText { keyword: "madoka"@, label: "Madoka Magica"@ },
            RuleText { keyword: "frieren"@, label: "Frieren"@ },
            RuleText { keyword: "kobayashi"@, label: "Kobayashi's Dragon Maid"@ },
            RuleText { keyword: "lycoris"@, label: "Lycoris Recoil"@ },
            RuleText { keyword: "overlord"@, label: "Overlord"@ },
        ],
        default_tag: "Various"@,
        filters: seq![
            FilterText { tag: "Bocchi The Rock"@, caption: "Bocchi The Rock!!!"@ },
            FilterText { tag: "K-ON"@, caption: "K-ON"@ },
            FilterText { tag: "Rent-a-Girlfriend"@, caption: "Rent-a-Girlfriend"@ },
            FilterText { tag: "Love Live"@, caption: "Love Live"@ },
            FilterText { tag: "Frieren"@, caption: "Frieren"@ },
            FilterText { tag: "Kobayashi's Dragon Maid"@, caption: "Kobayashi's Dragon Maid"@ },
            FilterText { tag: "Madoka Magica"@, caption: "Madoka Magica"@ },
            FilterText { tag: "Lycoris Recoil"@, caption: "Lycoris Recoil"@ },
            FilterText { tag: "Overlord"@, caption: "Overlord"@ },
            FilterText { tag: "Various"@, caption: "Various"@ },
        ],
        quotes: seq!["Love is the Law, Love under Will."@],
    }
}

/// The gallery of wallpapers.
pub fn wallpapers() -> (site: Site)
    ensures
        site@ == wallpapers_text(),
        every_tag_has_a_filter(site@),
        filters_are_distinct(site@),
        is_url_prefix(site@.url_prefix),
{
    let mut rules: Vec<TagRule> = Vec::new();
    rules.push(TagRule::new("bocchi", "Bocchi The Rock"));
    rules.push(TagRule::new("rentagirlfriend", "Rent-a-Girlfriend"));
    rules.push(TagRule::new("kon", "K-ON"));
    rules.push(TagRule::new("lovelive", "Love Live"));
    rules.push(TagRule::new("madoka", "Madoka Magica"));
    rules.push(TagRule::new("frieren", "Frieren"));
    rules.push(TagRule::new("kobayashi", "Kobayashi's Dragon Maid"));
    rules.push(TagRule::new("lycoris", "Lycoris Recoil"));
    rules.push(TagRule::new("overlord", "Overlord"));
    let mut filters: Vec<Filter> = Vec::new();
    filters.push(Filter::new("Bocchi The Rock", "Bocchi The Rock!!!"));
    filters.push(Filter::new("K-ON", "K-ON"));
    filters.push(Filter::new("Rent-a-Girlfriend", "Rent-a-Girlfriend"));
    filters.push(Filter::new("Love Live", "Love Live"));
    filters.push(Filter::new("Frieren", "Frieren"));
    filters.push(Filter::new("Kobayashi's Dragon Maid", "Kobayashi's Dragon Maid"));
    filters.push(Filter::new("Madoka Magica", "Madoka Magica"));
    filters.push(Filter::new("Lycoris Recoil", "Lycoris Recoil"));
    filters.push(Filter::new("Overlord", "Overlord"));
    filters.push(Filter::new("Various", "Various"));
    let mut quotes: Vec<String> = Vec::new();
    quotes.push(String::from_str("Love is the Law, Love under Will."));
    let site = Site {
        image_dir: String::from_str("static/wallpapers"),
        url_prefix: String::from_str("/wallpapers"),
        gallery_title: String::from_str("Wallpapers Gallery"),
        gallery_heading: String::from_str("Wallpaper Gallery"),
        random_title: String::from_str("Random Wallpaper"),
        random_link: String::from_str("\u{1F3B2} Random Wallpaper"),
        image_alt: String::from_str("Wallpaper"),
        full_view_alt: String::from_str("Wallpaper full view"),
        rules,
        default_tag: String::from_str("Various"),
        filters,
        quotes,
    };
    proof {
        assert(site@.rules =~= wallpapers_text().rules);
        assert(site@.filters =~= wallpapers_text().filters);
        assert(site@.quotes =~= wallpapers_text().quotes);
        lemma_wallpapers_are_well_made();
    }
    site
}

/// In the gallery of wallpapers every tag has its filter button, and the
/// images are served under a proper path.
pub proof fn lemma_wallpapers_are_well_made()
    ensures
        every_tag_has_a_filter(wallpapers_text()),
        filters_are_distinct(wallpapers_text()),
        is_url_prefix(wallpapers_text().url_prefix),
{
    let site = wallpapers_text();
    reveal_strlit("all");
    reveal_strlit("Bocchi The Rock");
    reveal_strlit("K-ON");
    reveal_strlit("Rent-a-Girlfriend");
    reveal_strlit("Love Live");
    reveal_strlit("Frieren");
    reveal_strlit("Kobayashi's Dragon Maid");
    reveal_strlit("Madoka Magica");
    reveal_strlit("Lycoris Recoil");
    reveal_strlit("Overlord");
    reveal_strlit("Various");
    assert("Frieren"@[0] != "Various"@[0]);
    assert forall|j: int, k: int| 0 <= j < k < site.filters.len() implies #[trigger] site.filters[j]
        .tag != #[trigger] site.filters[k].tag by {
        // Only "Frieren" and "Various" are of one length.
        if !(j == 4 && k == 9) {
            assert(site.filters[j].tag.len() != site.filters[k].tag.len());
        }
    }
    assert forall|k: int| 0 <= k < site.filters.len() implies #[trigger] site.filters[k].tag.len()
        != "all"@.len() by {}
    assert(site.filters[0].tag == site.rules[0].label);
    assert(site.filters[2].tag == site.rules[1].label);
    assert(site.filters[1].tag == site.rules[2].label);
    assert(site.filters[3].tag == site.rules[3].label);
    assert(site.filters[6].tag == site.rules[4].label);
    assert(site.filters[4].tag == site.rules[5].label);
    assert(site.filters[5].tag == site.rules[6].label);
    assert(site.filters[7].tag == site.rules[7].label);
    assert(site.filters[8].tag == site.rules[8].label);
    assert(site.filters[9].tag == site.default_tag);
    reveal_strlit("/wallpapers");
}

/// The gallery of pictures of Rin Hoshizora, as text.
pub open spec fn rin_text() -> SiteText {
    SiteText {
        image_dir: "static/rin_images"@,
        url_prefix: "/rin_images"@,
        gallery_title: "Rin Hoshizora Gallery"@,
        gallery_heading: "Rin Hoshizora Gallery"@,
        random_title: "Random Rin"@,
        random_link: "\u{1F3B2} Random Rin"@,
        image_alt: "Rin image"@,
        full_view_alt: "Rin full view"@,
        rules: seq![
            RuleText { keyword: "school"@, label: "School Uniform"@ },
            RuleText { keyword: "idol"@, label: "Idol Outfit"@ },
        ],
        default_tag: "Casual"@,
        filters: seq![
            FilterText { tag: "School Uniform"@, caption: "School"@ },
            FilterText { tag: "Idol Outfit"@, caption: "Idol"@ },
            FilterText { tag: "Casual"@, caption: "Casual"@ },
        ],
        quotes: seq![
            "Nya~! Let's do our best today!"@,
            "Rin believes in you!"@,
            "Ramen makes everything better!"@,
            "Smile, smile, smile!"@,
        ],
    }
}

/// The gallery of pictures of Rin Hoshizora.
pub fn rin() -> (site: Site)
    ensures
        site@ == rin_text(),
        every_tag_has_a_filter(site@),
        filters_are_distinct(site@),
        is_url_prefix(site@.url_prefix),
{
    let mut rules: Vec<TagRule> = Vec::new();
    rules.push(TagRule::new("school", "School Uniform"));
    rules.push(TagRule::new("idol", "Idol Outfit"));
    let mut filters: Vec<Filter> = Vec::new();
    filters.push(Filter::new("School Uniform", "School"));
    filters.push(Filter::new("Idol Outfit", "Idol"));
    filters.push(Filter::new("Casual", "Casual"));
    let mut quotes: Vec<String> = Vec::new();
    quotes.push(String::from_str("Nya~! Let's do our best today!"));
    quotes.push(String::from_str("Rin believes in you!"));
    quotes.push(String::from_str("Ramen makes everything better!"));
    quotes.push(String::from_str("Smile, smile, smile!"));
    let site = Site {
        image_dir: String::from_str("static/rin_images"),
        url_prefix: String::from_str("/rin_images"),
        gallery_title: String::from_str("Rin Hoshizora Gallery"),
        gallery_heading: String::from_str("Rin Hoshizora Gallery"),
        random_title: String::from_str("Random Rin"),
        random_link: String::from_str("\u{1F3B2} Random Rin"),
        image_alt: String::from_str("Rin image"),
        full_view_alt: String::from_str("Rin full view"),
        rules,
        default_tag: String::from_str("Casual"),
        filters,
        quotes,
    };
    proof {
        assert(site@.rules =~= rin_text().rules);
        assert(site@.filters =~= rin_text().filters);
        assert(site@.quotes =~= rin_text().quotes);
        lemma_rin_is_well_made();
    }
    site
}

/// In the gallery of pictures of Rin Hoshizora every tag has its filter
/// button, and the images are served under a proper path.
pub proof fn lemma_rin_is_well_made()
    ensures
        every_tag_has_a_filter(rin_text()),
        filters_are_distinct(rin_text()),
        is_url_prefix(rin_text().url_prefix),
{
    let site = rin_text();
    reveal_strlit("all");
    reveal_strlit("School Uniform");
    reveal_strlit("Idol Outfit");
    reveal_strlit("Casual");
    assert(site.filters[0].tag == site.rules[0].label);
    assert(site.filters[1].tag == site.rules[1].label);
    assert(site.filters[2].tag == site.default_tag);
    reveal_strlit("/rin_images");
}

} // verus!

use image_gallery::{rin, usable_prefix, wallpapers, Filter, Site, TagRule};

fn tags_without_filter(site: &Site) -> Vec<String> {
    let mut tags: Vec<String> = site.rules.iter().map(|rule| rule.label.clone()).collect();
    tags.push(site.default_tag.clone());
    tags.retain(|tag| !site.filters.iter().any(|filter| &filter.tag == tag));
    tags
}

fn filter_tags_given_twice(site: &Site) -> Vec<String> {
    let mut twice = Vec::new();
    for (k, filter) in site.filters.iter().enumerate() {
        if filter.tag == "all" || site.filters[..k].iter().any(|other| other.tag == filter.tag) {
            twice.push(filter.tag.clone());
        }
    }
    twice
}

#[test]
fn every_tag_has_one_filter() {
    assert_eq!(tags_without_filter(&wallpapers()), Vec::<String>::new());
    assert_eq!(tags_without_filter(&rin()), Vec::<String>::new());
    assert_eq!(filter_tags_given_twice(&wallpapers()), Vec::<String>::new());
    assert_eq!(filter_tags_given_twice(&rin()), Vec::<String>::new());
    assert_eq!(wallpapers().filters.len(), 10);
    assert_eq!(rin().filters.len(), 3);
}

#[test]
fn a_prefix_begins_with_a_slash_and_does_not_end_with_one() {
    assert!(usable_prefix("/wallpapers"));
    assert!(usable_prefix("/rin_images"));
    assert!(usable_prefix("/a"));
    assert!(usable_prefix("/a/b"));
    assert!(usable_prefix(&wallpapers().url_prefix));
    assert!(usable_prefix(&rin().url_prefix));
    assert!(!usable_prefix(""));
    assert!(!usable_prefix("/"));
    assert!(!usable_prefix("//"));
    assert!(!usable_prefix("wallpapers"));
    assert!(!usable_prefix("wallpapers/"));
    assert!(!usable_prefix("/wallpapers/"));
    assert!(!usable_prefix("a/b"));
}

#[test]
fn the_gallery_of_wallpapers() {
    let site = wallpapers();
    assert_eq!(site.image_dir, "static/wallpapers");
    assert_eq!(site.url_prefix, "/wallpapers");
    assert_eq!(site.gallery_title, "Wallpapers Gallery");
    assert_eq!(site.gallery_heading, "Wallpaper Gallery");
    assert_eq!(site.random_title, "Random Wallpaper");
    assert_eq!(site.random_link, "\u{1F3B2} Random Wallpaper");
    assert_eq!(site.image_alt, "Wallpaper");
    assert_eq!(site.full_view_alt, "Wallpaper full view");
    assert_eq!(site.default_tag, "Various");
    let rules: Vec<(&str, &str)> =
        site.rules.iter().map(|rule| (rule.keyword.as_str(), rule.label.as_str())).collect();
    assert_eq!(
        rules,
        vec![
            ("bocchi", "Bocchi The Rock"),
            ("rentagirlfriend", "Rent-a-Girlfriend"),
            ("kon", "K-ON"),
            ("lovelive", "Love Live"),
            ("madoka", "Madoka Magica"),
            ("frieren", "Frieren"),
            ("kobayashi", "Kobayashi's Dragon Maid"),
            ("lycoris", "Lycoris Recoil"),
            ("overlord", "Overlord"),
        ]
    );
    let filters: Vec<(&str, &str)> = site
        .filters
        .iter()
        .map(|filter| (filter.tag.as_str(), filter.caption.as_str()))
        .collect();
    assert_eq!(
        filters,
        vec![
            ("Bocchi The Rock", "Bocchi The Rock!!!"),
            ("K-ON", "K-ON"),
            ("Rent-a-Girlfriend", "Rent-a-Girlfriend"),
            ("Love Live", "Love Live"),
            ("Frieren", "Frieren"),
            ("Kobayashi's Dragon Maid", "Kobayashi's Dragon Maid"),
            ("Madoka Magica", "Madoka Magica"),
            ("Lycoris Recoil", "Lycoris Recoil"),
            ("Overlord", "Overlord"),
            ("Various", "Various"),
        ]
    );
    assert_eq!(site.quotes, vec!["Love is the Law, Love under Will.".to_string()]);
}

#[test]
fn the_gallery_of_rin() {
    let site = rin();
    assert_eq!(site.image_dir, "static/rin_images");
    assert_eq!(site.url_prefix, "/rin_images");
    assert_eq!(site.gallery_title, "Rin Hoshizora Gallery");
    assert_eq!(site.gallery_heading, "Rin Hoshizora Gallery");
    assert_eq!(site.random_title, "Random Rin");
    assert_eq!(site.random_link, "\u{1F3B2} Random Rin");
    assert_eq!(site.image_alt, "Rin image");
    assert_eq!(site.full_view_alt, "Rin full view");
    assert_eq!(site.default_tag, "Casual");
    assert_eq!(site.rules.len(), 2);
    assert_eq!(site.rules[0].keyword, "school");
    assert_eq!(site.rules[0].label, "School Uniform");
    assert_eq!(site.rules[1].keyword, "idol");
    assert_eq!(site.rules[1].label, "Idol Outfit");
    assert_eq!(site.filters.len(), 3);
    assert_eq!(site.filters[0].caption, "School");
    assert_eq!(site.filters[2].tag, "Casual");
    assert_eq!(
        site.quotes,
        vec![
            "Nya~! Let's do our best today!".to_string(),
            "Rin believes in you!".to_string(),
            "Ramen makes everything better!".to_string(),
            "Smile, smile, smile!".to_string(),
        ]
    );
}

#[test]
fn rules_and_filters_hold_what_they_are_made_of() {
    let rule = TagRule::new("kon", "K-ON");
    assert_eq!(rule.keyword, "kon");
    assert_eq!(rule.label, "K-ON");
    let filter = Filter::new("K-ON", "K-ON!");
    assert_eq!(filter.tag, "K-ON");
    assert_eq!(filter.caption, "K-ON!");
}

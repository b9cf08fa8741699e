use image_gallery::gallery::{buttons_of, fallback_page, grid_of, lightbox_of};
use image_gallery::{gallery, list_images, rin, styled_page, wallpapers, Entry, ScanError};

fn file(name: &str) -> Entry {
    Entry { name: Some(name.to_string()), is_file: true }
}

fn place(page: &str, part: &str) -> usize {
    match page.find(part) {
        Some(at) => at,
        None => panic!("{:?} is not in the page", part),
    }
}

#[test]
fn the_gallery_lists_the_images_in_sorted_order() {
    let scan = Ok(vec![file("b.png"), file("a.jpg"), file("c.gif")]);
    let page = gallery(&wallpapers(), &scan);
    let a = place(&page, "href=\"/wallpapers/a.jpg\"");
    let b = place(&page, "href=\"/wallpapers/b.png\"");
    let c = place(&page, "href=\"/wallpapers/c.gif\"");
    assert!(a < b && b < c);
    assert_eq!(page.matches("<a class=\"card\"").count(), 3);
    let grid = place(&page, "<section class=\"grid\">");
    assert!(grid < a);
    assert!(c < place(&page, "</section>"));
}

#[test]
fn an_empty_directory_gives_the_fallback_page() {
    let scan: Result<Vec<Entry>, ScanError> = Ok(Vec::new());
    let page = gallery(&wallpapers(), &scan);
    assert!(page.contains("No images found"));
    assert!(!page.contains("class=\"grid\""));
    assert!(!page.contains("<style>"));
    assert_eq!(
        page,
        "<!doctype html>\n<html lang=\"en\">\n<head><meta charset=\"utf-8\"><title>Wallpapers Gallery</title></head>\n<body><p>No images found. Add files to <code>static/wallpapers</code>.</p></body></html>"
    );
}

#[test]
fn a_directory_without_images_gives_the_fallback_page() {
    let scan = Ok(vec![
        file("notes.txt"),
        Entry { name: Some("a.png".to_string()), is_file: false },
        Entry { name: None, is_file: true },
    ]);
    let site = rin();
    assert_eq!(gallery(&site, &scan), fallback_page(&site, "Rin Hoshizora Gallery"));
}

#[test]
fn an_unreadable_directory_gives_the_fallback_page() {
    let site = wallpapers();
    let expected = fallback_page(&site, "Wallpapers Gallery");
    assert_eq!(gallery(&site, &Err(ScanError::Open)), expected);
    assert_eq!(gallery(&site, &Err(ScanError::Read)), expected);
    assert!(expected.contains("No images found"));
}

#[test]
fn the_gallery_page_is_the_styled_page_of_its_parts() {
    let site = rin();
    let scan = Ok(vec![file("rin_school.png"), file("notes.txt"), file("rin_idol.jpg")]);
    let names = list_images(&scan).unwrap();
    let mut body = String::new();
    body.push_str("\n        <header>\n            <h1>Rin Hoshizora Gallery</h1>\n            <nav>\n                <a class=\"btn\" href=\"/\">Gallery</a>\n                <a class=\"btn\" href=\"/random\">\u{1F3B2} Random Rin</a>\n            </nav>\n        </header>\n\n        <div class=\"filters\">\n            <button class=\"filter-btn\" data-filter=\"all\">All</button>\n");
    body.push_str(&buttons_of(&site));
    body.push_str("        </div>\n\n        <section class=\"grid\">");
    body.push_str(&grid_of(&site, &names));
    body.push_str("</section>\n\n");
    body.push_str(&lightbox_of(&site));
    let page = gallery(&site, &scan);
    let expected_start = styled_page("Rin Hoshizora Gallery", &body);
    let cut = expected_start.len() - "\n</body>\n</html>\n".len();
    assert!(page.starts_with(&expected_start[..cut]));
    let script = &page[cut..];
    assert!(script.starts_with("        <script>\n        document.addEventListener('DOMContentLoaded', () => {\n"));
    assert!(script.ends_with("        });\n        </script>\n        \n</body>\n</html>\n"));
    assert!(script.contains("document.querySelectorAll('.card img').forEach(img => {"));
    assert!(script.contains("if (filter === 'all' || el.dataset.tag === filter) {"));
    assert!(script.contains("if (e.key === 'Escape' && lightbox) lightbox.style.display = 'none';"));
    assert!(!script.contains("{{"));
}

#[test]
fn the_cards_carry_the_tags() {
    let scan = Ok(vec![file("bocchi_lovelive.png"), file("sunset.jpg"), file("KON.gif")]);
    let page = gallery(&wallpapers(), &scan);
    assert!(page.contains("href=\"/wallpapers/bocchi_lovelive.png\" data-tag=\"Bocchi The Rock\">"));
    assert!(page.contains("href=\"/wallpapers/sunset.jpg\" data-tag=\"Various\">"));
    assert!(page.contains("href=\"/wallpapers/KON.gif\" data-tag=\"K-ON\">"));
}

#[test]
fn the_gallery_page_of_the_wallpapers() {
    let scan = Ok(vec![file("a.jpg")]);
    let page = gallery(&wallpapers(), &scan);
    assert!(page.contains("<title>Wallpapers Gallery</title>"));
    assert!(page.contains("<h1>Wallpaper Gallery</h1>"));
    assert!(page.contains("<a class=\"btn\" href=\"/random\">\u{1F3B2} Random Wallpaper</a>"));
    assert!(page.contains("<button class=\"filter-btn\" data-filter=\"all\">All</button>"));
    assert_eq!(page.matches("class=\"filter-btn\"").count(), 11);
    assert!(page.contains("<img src=\"/wallpapers/a.jpg\" alt=\"Wallpaper\">"));
    assert!(page.contains("alt=\"Wallpaper full view\">"));
    assert!(!page.contains("No images found"));
}

#[test]
fn every_card_has_the_tag_of_one_button() {
    let names = [
        "bocchi.png", "rentagirlfriend.png", "kon.png", "lovelive.png", "madoka.png",
        "frieren.png", "kobayashi.png", "lycoris.png", "overlord.png", "sunset.png",
    ];
    let scan = Ok(names.iter().map(|name| file(name)).collect::<Vec<Entry>>());
    let page = gallery(&wallpapers(), &scan);
    let tags = [
        "Bocchi The Rock", "Rent-a-Girlfriend", "K-ON", "Love Live", "Madoka Magica", "Frieren",
        "Kobayashi's Dragon Maid", "Lycoris Recoil", "Overlord", "Various",
    ];
    for tag in tags {
        assert_eq!(page.matches(&format!("data-tag=\"{}\"", tag)).count(), 1, "{}", tag);
        assert_eq!(
            page.matches(&format!("class=\"filter-btn\" data-filter=\"{}\"", tag)).count(),
            1,
            "{}",
            tag
        );
    }
    assert_eq!(page.matches("class=\"filter-btn\" data-filter=\"all\"").count(), 1);
    assert_eq!(page.matches("data-filter=").count(), 11);
}

#[test]
fn names_are_escaped_in_the_gallery() {
    let scan = Ok(vec![file("<b>&'x'.png")]);
    let page = gallery(&rin(), &scan);
    assert!(page.contains("href=\"/rin_images/&lt;b&gt;&amp;&#39;x&#39;.png\""));
    assert!(page.contains("<img src=\"/rin_images/&lt;b&gt;&amp;&#39;x&#39;.png\" alt=\"Rin image\">"));
    assert!(!page.contains("<b>&'x'.png"));
}

#[test]
fn the_same_directory_gives_the_same_page() {
    let one = Ok(vec![file("b.png"), file("a.jpg")]);
    let other = Ok(vec![file("a.jpg"), file("b.png")]);
    assert_eq!(gallery(&rin(), &one), gallery(&rin(), &other));
    assert_eq!(gallery(&rin(), &one), gallery(&rin(), &one));
}

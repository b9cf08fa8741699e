use image_gallery::order::comes_no_later;
use image_gallery::text::{chars_of, contains, lowercase_chars, spells, starts_at, to_lower};

fn chars(s: &str) -> Vec<char> {
    s.chars().collect()
}

#[test]
fn chars_of_gives_the_characters() {
    assert_eq!(chars_of(""), chars(""));
    assert_eq!(chars_of("a.b"), vec!['a', '.', 'b']);
    assert_eq!(chars_of("\u{e9}\u{1F3B2}"), vec!['\u{e9}', '\u{1F3B2}']);
}

#[test]
fn to_lower_changes_ascii_capitals_only() {
    assert_eq!(to_lower('A'), 'a');
    assert_eq!(to_lower('Z'), 'z');
    assert_eq!(to_lower('M'), 'm');
    assert_eq!(to_lower('a'), 'a');
    assert_eq!(to_lower('@'), '@');
    assert_eq!(to_lower('['), '[');
    assert_eq!(to_lower('1'), '1');
    assert_eq!(to_lower('\u{c9}'), '\u{c9}');
}

#[test]
fn lowercase_chars_agrees_with_std() {
    for text in ["", "Bocchi_LoveLive.PNG", "already lower", "\u{c9}COLE.Jpg", "A-Z[]@`"] {
        assert_eq!(lowercase_chars(text), chars(&text.to_ascii_lowercase()));
    }
}

#[test]
fn contains_finds_a_part_anywhere() {
    let hay = chars("bocchi_lovelive.png");
    assert!(contains(&hay, &chars("bocchi")));
    assert!(contains(&hay, &chars("lovelive")));
    assert!(contains(&hay, &chars(".png")));
    assert!(contains(&hay, &chars("i_l")));
    assert!(contains(&hay, &hay));
    assert!(!contains(&hay, &chars("kon")));
    assert!(!contains(&hay, &chars("bocchi_lovelive.pngx")));
    assert!(!contains(&hay, &chars("Bocchi")));
}

#[test]
fn contains_takes_the_empty_part_as_found() {
    assert!(contains(&chars("abc"), &chars("")));
    assert!(contains(&chars(""), &chars("")));
    assert!(!contains(&chars(""), &chars("a")));
}

#[test]
fn contains_agrees_with_std() {
    let hays = ["", "a", "aaab", "abcabd", "kkon", "lovelivelove"];
    let needles = ["", "a", "ab", "aab", "abd", "kon", "velo", "love", "x"];
    for hay in hays {
        for needle in needles {
            assert_eq!(contains(&chars(hay), &chars(needle)), hay.contains(needle));
        }
    }
}

#[test]
fn starts_at_looks_at_one_place() {
    let hay = chars("abcabc");
    assert!(starts_at(&hay, &chars("abc"), 0));
    assert!(starts_at(&hay, &chars("abc"), 3));
    assert!(!starts_at(&hay, &chars("abc"), 1));
    assert!(starts_at(&hay, &chars(""), 6));
    assert!(!starts_at(&hay, &chars(""), 7));
    assert!(!starts_at(&hay, &chars("bc"), 5));
    assert!(!starts_at(&hay, &chars("abcabca"), 0));
}

#[test]
fn spells_compares_whole_texts() {
    assert!(spells(&chars("jpg"), "jpg"));
    assert!(!spells(&chars("jpg"), "jpeg"));
    assert!(!spells(&chars("jpeg"), "jpg"));
    assert!(!spells(&chars("JPG"), "jpg"));
    assert!(spells(&chars(""), ""));
}

#[test]
fn names_are_ordered_as_std_orders_strings() {
    let names = [
        "", "a", "A", "a.jpg", "a.jpg.png", "b.png", "B.png", "ab", "abc", "b", "\u{e9}.png",
        "z.png", "\u{1F3B2}.gif", "10.png", "9.png", "_x.png",
    ];
    for a in names {
        for b in names {
            assert_eq!(comes_no_later(a, b), a <= b);
        }
    }
}

#[test]
fn a_name_comes_before_the_names_it_begins() {
    assert!(comes_no_later("a.png", "a.png.jpg"));
    assert!(!comes_no_later("a.png.jpg", "a.png"));
    assert!(comes_no_later("same", "same"));
}

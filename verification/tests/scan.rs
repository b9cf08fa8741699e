use image_gallery::{has_image_extension, list_images, Entry, ScanError};

fn file(name: &str) -> Entry {
    Entry { name: Some(name.to_string()), is_file: true }
}

fn directory(name: &str) -> Entry {
    Entry { name: Some(name.to_string()), is_file: false }
}

fn names(list: &[&str]) -> Vec<String> {
    list.iter().map(|name| name.to_string()).collect()
}

#[test]
fn the_five_extensions_are_images() {
    assert!(has_image_extension("a.jpg"));
    assert!(has_image_extension("a.jpeg"));
    assert!(has_image_extension("a.png"));
    assert!(has_image_extension("a.gif"));
    assert!(has_image_extension("a.webp"));
}

#[test]
fn the_extension_is_taken_without_regard_to_case() {
    assert!(has_image_extension("a.JPG"));
    assert!(has_image_extension("a.Jpeg"));
    assert!(has_image_extension("a.pNg"));
    assert!(has_image_extension("a.GIF"));
    assert!(has_image_extension("a.WebP"));
}

#[test]
fn other_extensions_are_no_images() {
    assert!(!has_image_extension("notes.txt"));
    assert!(!has_image_extension("old.bmp"));
    assert!(!has_image_extension("a.jpgx"));
    assert!(!has_image_extension("a.jp"));
    assert!(!has_image_extension("a.png.bak"));
    assert!(!has_image_extension("a.svg"));
}

#[test]
fn only_what_follows_the_last_dot_counts() {
    assert!(has_image_extension("a.txt.png"));
    assert!(has_image_extension("archive.tar.gif"));
    assert!(has_image_extension("a..png"));
    assert!(has_image_extension("with space.and.dots.webp"));
    assert!(!has_image_extension("png"));
    assert!(!has_image_extension("jpg"));
    assert!(!has_image_extension(""));
    assert!(!has_image_extension("a."));
    assert!(!has_image_extension("a.png."));
    assert!(!has_image_extension("."));
    assert!(!has_image_extension(".."));
}

#[test]
fn a_name_that_is_only_dot_and_extension_has_no_extension() {
    assert!(!has_image_extension(".png"));
    assert!(!has_image_extension(".jpg"));
    assert!(has_image_extension("..png"));
    assert!(has_image_extension(".hidden.png"));
}

#[test]
fn has_image_extension_agrees_with_path_extension() {
    let allowed = ["jpg", "jpeg", "png", "gif", "webp"];
    let samples = [
        "a.jpg", "a.JPEG", ".png", "..png", "a.", ".", "..", "", "x", "x.y.z", "x.webp.", "a.b.GIF",
        "\u{e9}.png", "a.pn\u{e9}", "...", "a..", "a.jpg ", " .jpg",
    ];
    for name in samples {
        let expected = std::path::Path::new(name)
            .extension()
            .and_then(|ext| ext.to_str())
            .map(|ext| allowed.contains(&ext.to_ascii_lowercase().as_str()))
            .unwrap_or(false);
        assert_eq!(has_image_extension(name), expected, "{:?}", name);
    }
}

#[test]
fn images_are_listed_sorted() {
    let scan = Ok(vec![file("b.png"), file("a.jpg"), file("c.gif")]);
    assert_eq!(list_images(&scan), Ok(names(&["a.jpg", "b.png", "c.gif"])));
}

#[test]
fn a_directory_of_images_is_listed_whole() {
    let scan = Ok(vec![
        file("z.webp"),
        file("m.JPEG"),
        file("a.gif"),
        file("b.jpg"),
        file("B.png"),
        file("10.png"),
        file("9.png"),
    ]);
    assert_eq!(
        list_images(&scan),
        Ok(names(&["10.png", "9.png", "B.png", "a.gif", "b.jpg", "m.JPEG", "z.webp"]))
    );
}

#[test]
fn other_files_and_directories_are_left_out() {
    let scan = Ok(vec![
        file("notes.txt"),
        file("b.png"),
        directory("albums"),
        directory("folder.png"),
        file("old.bmp"),
        file("a.jpg"),
        file("README"),
        file(".gif"),
    ]);
    assert_eq!(list_images(&scan), Ok(names(&["a.jpg", "b.png"])));
}

#[test]
fn entries_without_a_readable_name_are_left_out() {
    let scan = Ok(vec![
        Entry { name: None, is_file: true },
        file("a.jpg"),
        Entry { name: None, is_file: false },
    ]);
    assert_eq!(list_images(&scan), Ok(names(&["a.jpg"])));
}

#[test]
fn an_empty_directory_gives_an_empty_list() {
    let scan: Result<Vec<Entry>, ScanError> = Ok(Vec::new());
    assert_eq!(list_images(&scan), Ok(Vec::new()));
    let scan = Ok(vec![file("notes.txt"), directory("a.png")]);
    assert_eq!(list_images(&scan), Ok(Vec::new()));
}

#[test]
fn a_name_given_twice_is_listed_twice() {
    let scan = Ok(vec![file("b.png"), file("a.jpg"), file("b.png")]);
    assert_eq!(list_images(&scan), Ok(names(&["a.jpg", "b.png", "b.png"])));
}

#[test]
fn the_error_of_the_reading_is_handed_on() {
    assert_eq!(list_images(&Err(ScanError::Open)), Err(ScanError::Open));
    assert_eq!(list_images(&Err(ScanError::Read)), Err(ScanError::Read));
}

#[test]
fn the_list_is_sorted_as_std_sorts() {
    let given = [
        "q.png", "Q.png", "a.png.jpg", "a.png", "\u{e9}.gif", "z.gif", "0.webp", "_.jpg", "a b.jpg",
        "ab.jpg", "a.jpg", "A.JPG", "\u{1F3B2}.png", "~.png",
    ];
    let scan = Ok(given.iter().map(|name| file(name)).collect::<Vec<Entry>>());
    let mut expected = names(&given);
    expected.sort();
    assert_eq!(list_images(&scan), Ok(expected));
}

#[test]
fn the_list_does_not_depend_on_the_order_of_the_entries() {
    let one = Ok(vec![file("c.gif"), file("a.jpg"), file("x.txt"), file("b.png")]);
    let other = Ok(vec![file("b.png"), file("x.txt"), file("c.gif"), file("a.jpg")]);
    assert_eq!(list_images(&one), list_images(&other));
}

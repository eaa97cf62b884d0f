use hyprwall::text::{display_name_of, precedes_text, same_text};
use hyprwall::{has_image_extension, scan_folder, DirEntry};

fn file(path: &str) -> DirEntry {
    DirEntry { path: path.to_string(), is_file: true }
}

fn dir(path: &str) -> DirEntry {
    DirEntry { path: path.to_string(), is_file: false }
}

#[test]
fn scan_keeps_png_and_jpg_and_drops_the_rest() {
    let listing = vec![
        file("/w/a.png"),
        file("/w/b.jpg"),
        file("/w/c.txt"),
        file("/w/d.JPEG"),
        dir("/w/sub"),
    ];
    assert_eq!(scan_folder(&listing), vec!["/w/a.png".to_string(), "/w/b.jpg".to_string()]);
}

#[test]
fn scan_sorts_lexicographically() {
    let listing = vec![file("/w/b.jpeg"), file("/w/c.png"), file("/w/a.jpg"), file("/w/B.png")];
    assert_eq!(
        scan_folder(&listing),
        vec![
            "/w/B.png".to_string(),
            "/w/a.jpg".to_string(),
            "/w/b.jpeg".to_string(),
            "/w/c.png".to_string()
        ]
    );
}

#[test]
fn scan_of_an_empty_listing_is_empty() {
    assert_eq!(scan_folder(&Vec::new()), Vec::<String>::new());
}

#[test]
fn scan_drops_directories_with_image_names() {
    let listing = vec![dir("/w/album.png"), file("/w/x.png")];
    assert_eq!(scan_folder(&listing), vec!["/w/x.png".to_string()]);
}

#[test]
fn scan_keeps_repeated_paths() {
    let listing = vec![file("/w/x.png"), file("/w/x.png")];
    assert_eq!(scan_folder(&listing), vec!["/w/x.png".to_string(), "/w/x.png".to_string()]);
}

#[test]
fn scan_orders_a_prefix_first() {
    let listing = vec![file("/w/ab.png"), file("/w/a.png"), file("/w/a.jpg")];
    assert_eq!(
        scan_folder(&listing),
        vec!["/w/a.jpg".to_string(), "/w/a.png".to_string(), "/w/ab.png".to_string()]
    );
}

#[test]
fn image_extensions() {
    assert!(has_image_extension("a.png"));
    assert!(has_image_extension("a.jpg"));
    assert!(has_image_extension("a.jpeg"));
    assert!(has_image_extension("/x/y/z.tar.png"));
    assert!(has_image_extension("/x/..png"));
    assert!(has_image_extension("é.png"));
}

#[test]
fn not_image_extensions() {
    assert!(!has_image_extension(""));
    assert!(!has_image_extension("png"));
    assert!(!has_image_extension(".png"));
    assert!(!has_image_extension("/x/.png"));
    assert!(!has_image_extension("a.PNG"));
    assert!(!has_image_extension("a.JPEG"));
    assert!(!has_image_extension("a.txt"));
    assert!(!has_image_extension("a.png.txt"));
    assert!(!has_image_extension("apng"));
    assert!(!has_image_extension("a.pngx"));
    assert!(!has_image_extension("a.gif"));
    assert!(!has_image_extension("a.jpe"));
    assert!(!has_image_extension("a.png/"));
}

#[test]
fn display_names() {
    assert_eq!(display_name_of("/home/me/wall/sunset.png"), "sunset.png");
    assert_eq!(display_name_of("sunset.png"), "sunset.png");
    assert_eq!(display_name_of("/a/b/ü.jpg"), "ü.jpg");
    assert_eq!(display_name_of(""), "Unknown");
    assert_eq!(display_name_of("/a/b/"), "Unknown");
    assert_eq!(display_name_of("/"), "Unknown");
}

#[test]
fn text_equality() {
    assert!(same_text("", ""));
    assert!(same_text("abc", "abc"));
    assert!(!same_text("abc", "abd"));
    assert!(!same_text("abc", "ab"));
    assert!(!same_text("ab", "abc"));
    assert!(same_text("ü", "ü"));
}

#[test]
fn text_order() {
    assert!(precedes_text("a", "b"));
    assert!(!precedes_text("b", "a"));
    assert!(!precedes_text("a", "a"));
    assert!(precedes_text("", "a"));
    assert!(!precedes_text("a", ""));
    assert!(!precedes_text("", ""));
    assert!(precedes_text("ab", "abc"));
    assert!(precedes_text("abc", "abd"));
    assert!(precedes_text("Z", "a"));
    assert!(precedes_text("z", "é"));
}

#[test]
fn text_order_agrees_with_the_order_of_strings() {
    let words = ["", "a", "ab", "b", "B", "é", "z", "a/b", "a.b", "日本"];
    for x in words {
        for y in words {
            assert_eq!(precedes_text(x, y), x < y);
            assert_eq!(same_text(x, y), x == y);
        }
    }
}

#[test]
fn dir_entry_clone_is_equal() {
    let e = file("/w/a.png");
    assert_eq!(e.clone(), e);
}

#[test]
fn scan_of_a_large_listing_agrees_with_sorting() {
    let mut listing: Vec<DirEntry> = Vec::new();
    let mut expected: Vec<String> = Vec::new();
    for i in 0..300u32 {
        let scrambled = (i * 7919) % 1000;
        let ext = ["png", "jpg", "jpeg", "txt", "PNG"][(i % 5) as usize];
        let path = format!("/w/{}-{}.{}", scrambled, "x".repeat((i % 4) as usize), ext);
        if i % 5 < 3 {
            expected.push(path.clone());
        }
        listing.push(file(&path));
        if i % 17 == 0 {
            listing.push(dir(&format!("/w/dir{}.png", i)));
        }
    }
    expected.sort();
    assert_eq!(scan_folder(&listing), expected);
    assert_eq!(expected.len(), 180);
}

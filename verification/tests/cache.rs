use hyprwall::{ImageCache, Thumbnail, CACHE_SIZE};

fn thumb(tag: u8) -> Thumbnail {
    Thumbnail {
        width: 2,
        height: 1,
        rowstride: 8,
        has_alpha: true,
        pixels: vec![tag, tag, tag, 255, tag, tag, tag, 255],
    }
}

fn path(i: usize) -> String {
    format!("/pictures/{}.png", i)
}

#[test]
fn capacity_is_one_hundred() {
    assert_eq!(CACHE_SIZE, 100);
}

#[test]
fn new_cache_is_empty() {
    let cache = ImageCache::new();
    assert_eq!(cache.len(), 0);
    assert!(!cache.contains("/a.png"));
}

#[test]
fn get_on_miss_returns_nothing_and_changes_nothing() {
    let mut cache = ImageCache::new();
    cache.insert("/a.png".to_string(), thumb(1));
    assert_eq!(cache.get("/b.png"), None);
    assert_eq!(cache.len(), 1);
    assert!(cache.contains("/a.png"));
}

#[test]
fn get_on_hit_returns_the_thumbnail() {
    let mut cache = ImageCache::new();
    cache.insert("/a.png".to_string(), thumb(1));
    cache.insert("/b.png".to_string(), thumb(2));
    assert_eq!(cache.get("/a.png"), Some(thumb(1)));
    assert_eq!(cache.get("/b.png"), Some(thumb(2)));
    assert_eq!(cache.len(), 2);
}

#[test]
fn insert_overwrites_the_same_path() {
    let mut cache = ImageCache::new();
    cache.insert("/a.png".to_string(), thumb(1));
    cache.insert("/a.png".to_string(), thumb(9));
    assert_eq!(cache.len(), 1);
    assert_eq!(cache.get("/a.png"), Some(thumb(9)));
}

#[test]
fn cache_never_exceeds_capacity() {
    let mut cache = ImageCache::new();
    for i in 0..(3 * CACHE_SIZE) {
        cache.insert(path(i), thumb((i % 200) as u8));
        assert!(cache.len() <= CACHE_SIZE);
    }
    assert_eq!(cache.len(), CACHE_SIZE);
}

#[test]
fn insert_beyond_capacity_evicts_the_oldest() {
    let mut cache = ImageCache::new();
    for i in 0..CACHE_SIZE {
        cache.insert(path(i), thumb(i as u8));
    }
    assert_eq!(cache.len(), CACHE_SIZE);
    cache.insert(path(CACHE_SIZE), thumb(7));
    assert_eq!(cache.len(), CACHE_SIZE);
    assert!(!cache.contains(&path(0)));
    for i in 1..=CACHE_SIZE {
        assert!(cache.contains(&path(i)));
    }
}

#[test]
fn get_protects_an_entry_from_eviction() {
    let mut cache = ImageCache::new();
    for i in 0..CACHE_SIZE {
        cache.insert(path(i), thumb(i as u8));
    }
    assert_eq!(cache.get(&path(0)), Some(thumb(0)));
    cache.insert(path(CACHE_SIZE), thumb(7));
    assert!(cache.contains(&path(0)));
    assert!(!cache.contains(&path(1)));
    cache.insert(path(CACHE_SIZE + 1), thumb(8));
    assert!(cache.contains(&path(0)));
    assert!(!cache.contains(&path(2)));
    assert!(cache.contains(&path(3)));
}

#[test]
fn contains_does_not_touch_the_order() {
    let mut cache = ImageCache::new();
    for i in 0..CACHE_SIZE {
        cache.insert(path(i), thumb(i as u8));
    }
    assert!(cache.contains(&path(0)));
    cache.insert(path(CACHE_SIZE), thumb(7));
    assert!(!cache.contains(&path(0)));
}

#[test]
fn full_cache_evicts_before_it_overwrites() {
    let mut cache = ImageCache::new();
    for i in 0..CACHE_SIZE {
        cache.insert(path(i), thumb(i as u8));
    }
    cache.insert(path(50), thumb(200));
    assert_eq!(cache.len(), CACHE_SIZE - 1);
    assert!(!cache.contains(&path(0)));
    assert_eq!(cache.get(&path(50)), Some(thumb(200)));
}

#[test]
fn store_decoded_keeps_a_thumbnail_and_forgets_a_failure() {
    let mut cache = ImageCache::new();
    assert_eq!(cache.store_decoded("/a.png", None), None);
    assert_eq!(cache.len(), 0);
    assert!(!cache.contains("/a.png"));
    assert_eq!(cache.store_decoded("/a.png", Some(thumb(4))), Some(thumb(4)));
    assert_eq!(cache.len(), 1);
    assert_eq!(cache.get("/a.png"), Some(thumb(4)));
}

#[test]
fn get_or_insert_asks_the_decoder_again_after_a_failure() {
    let mut cache = ImageCache::new();
    let mut calls = 0;
    let first = cache.get_or_insert("/a.png", 250, |_, _| {
        calls += 1;
        None
    });
    assert_eq!(first, None);
    assert_eq!(cache.len(), 0);
    let second = cache.get_or_insert("/a.png", 250, |_, _| {
        calls += 1;
        Some(thumb(5))
    });
    assert_eq!(second, Some(thumb(5)));
    assert_eq!(calls, 2);
    assert_eq!(cache.len(), 1);
}

#[test]
fn get_or_insert_does_not_decode_on_a_hit() {
    let mut cache = ImageCache::new();
    cache.insert("/a.png".to_string(), thumb(1));
    let mut calls = 0;
    let found = cache.get_or_insert("/a.png", 250, |_, _| {
        calls += 1;
        Some(thumb(2))
    });
    assert_eq!(found, Some(thumb(1)));
    assert_eq!(calls, 0);
}

#[test]
fn get_or_insert_hands_path_and_size_to_the_decoder() {
    let mut cache = ImageCache::new();
    let mut seen = (String::new(), 0);
    let found = cache.get_or_insert("/x/y.jpg", 250, |p, size| {
        seen = (p.to_string(), size);
        Some(thumb(3))
    });
    assert_eq!(found, Some(thumb(3)));
    assert_eq!(seen, ("/x/y.jpg".to_string(), 250));
}

#[test]
fn get_or_insert_promotes_on_a_hit() {
    let mut cache = ImageCache::new();
    for i in 0..CACHE_SIZE {
        cache.insert(path(i), thumb(i as u8));
    }
    let found = cache.get_or_insert(&path(0), 250, |_, _| None);
    assert_eq!(found, Some(thumb(0)));
    cache.insert(path(CACHE_SIZE), thumb(7));
    assert!(cache.contains(&path(0)));
    assert!(!cache.contains(&path(1)));
}

#[test]
fn thumbnail_clone_is_equal() {
    let t = thumb(42);
    assert_eq!(t.clone(), t);
    let opaque = Thumbnail { width: 1, height: 2, rowstride: 4, has_alpha: false, pixels: vec![1, 2, 3, 0, 4, 5, 6, 0] };
    let copy = opaque.clone();
    assert_eq!(copy.width, 1);
    assert_eq!(copy.height, 2);
    assert_eq!(copy.rowstride, 4);
    assert!(!copy.has_alpha);
    assert_eq!(copy.pixels, vec![1, 2, 3, 0, 4, 5, 6, 0]);
}

use timewall::actions::clear;
use timewall::cache::{CacheEntry, ExtractionCache, LastWallpaper};

fn name(text: &str) -> String {
    text.to_string()
}

fn entry(package: &str, frames: &[&str]) -> CacheEntry {
    CacheEntry { package: name(package), frames: frames.iter().map(|f| name(f)).collect() }
}

fn filled() -> ExtractionCache {
    let mut cache = ExtractionCache::new();
    cache.record(name("/w/a.heic"), vec![name("a0"), name("a1")]);
    cache.record(name("/w/b.heic"), vec![name("b0")]);
    cache.record(name("/w/c.heic"), vec![name("c0"), name("c1"), name("c2")]);
    cache
}

#[test]
fn saved_path_comes_back() {
    let mut pointer = LastWallpaper::new();
    assert_eq!(pointer.get(true), None);
    pointer.save(name("/w/a.heic"));
    assert_eq!(pointer.get(true), Some(name("/w/a.heic")));
    assert_eq!(pointer.get(true), Some(name("/w/a.heic")));
}

#[test]
fn save_overwrites() {
    let mut pointer = LastWallpaper::new();
    pointer.save(name("/w/a.heic"));
    pointer.save(name("/w/b.heic"));
    assert_eq!(pointer.get(true), Some(name("/w/b.heic")));
}

#[test]
fn path_that_no_longer_resolves_is_missing() {
    let mut pointer = LastWallpaper::new();
    pointer.save(name("/w/a.heic"));
    assert_eq!(pointer.get(false), None);
    assert_eq!(pointer.get(true), Some(name("/w/a.heic")));
}

#[test]
fn pointer_clear_is_idempotent() {
    let mut pointer = LastWallpaper::new();
    pointer.clear();
    assert_eq!(pointer, LastWallpaper::new());
    pointer.save(name("/w/a.heic"));
    pointer.clear();
    assert_eq!(pointer.get(true), None);
    pointer.clear();
    assert_eq!(pointer.get(true), None);
}

#[test]
fn record_adds_and_replaces() {
    let mut cache = filled();
    assert_eq!(cache.entries.len(), 3);
    assert!(cache.contains(&name("/w/b.heic")));
    assert!(!cache.contains(&name("/w/d.heic")));
    cache.record(name("/w/a.heic"), vec![name("fresh")]);
    assert_eq!(
        cache.entries,
        vec![
            entry("/w/b.heic", &["b0"]),
            entry("/w/c.heic", &["c0", "c1", "c2"]),
            entry("/w/a.heic", &["fresh"]),
        ]
    );
}

#[test]
fn clear_keeps_only_the_named_package() {
    let mut cache = filled();
    let evicted = cache.clear(Some(&name("/w/b.heic")));
    assert_eq!(cache.entries, vec![entry("/w/b.heic", &["b0"])]);
    assert_eq!(
        evicted,
        vec![entry("/w/a.heic", &["a0", "a1"]), entry("/w/c.heic", &["c0", "c1", "c2"])]
    );
}

#[test]
fn clear_with_unknown_package_leaves_nothing() {
    let mut cache = filled();
    let evicted = cache.clear(Some(&name("/w/zzz.heic")));
    assert!(cache.entries.is_empty());
    assert_eq!(evicted.len(), 3);
}

#[test]
fn clear_without_package_leaves_nothing() {
    let mut cache = filled();
    let evicted = cache.clear(None);
    assert!(cache.entries.is_empty());
    assert_eq!(evicted, filled().entries);
}

#[test]
fn clear_all_leaves_nothing() {
    let mut cache = filled();
    let evicted = cache.clear_all();
    assert!(cache.entries.is_empty());
    assert_eq!(evicted, filled().entries);
    assert!(cache.clear_all().is_empty());
}

#[test]
fn clearing_but_the_last_wallpaper_keeps_pointer_and_frames() {
    let mut cache = filled();
    let mut pointer = LastWallpaper::new();
    pointer.save(name("/w/c.heic"));
    let evicted = clear(false, &mut pointer, true, &mut cache);
    assert_eq!(cache.entries, vec![entry("/w/c.heic", &["c0", "c1", "c2"])]);
    assert_eq!(evicted.len(), 2);
    assert_eq!(pointer.get(true), Some(name("/w/c.heic")));
}

#[test]
fn clearing_when_the_last_wallpaper_is_gone_removes_all_frames() {
    let mut cache = filled();
    let mut pointer = LastWallpaper::new();
    pointer.save(name("/w/c.heic"));
    let evicted = clear(false, &mut pointer, false, &mut cache);
    assert!(cache.entries.is_empty());
    assert_eq!(evicted.len(), 3);
    assert_eq!(pointer.path, Some(name("/w/c.heic")));
}

#[test]
fn clearing_all_forgets_the_last_wallpaper() {
    let mut cache = filled();
    let mut pointer = LastWallpaper::new();
    pointer.save(name("/w/c.heic"));
    let evicted = clear(true, &mut pointer, true, &mut cache);
    assert!(cache.entries.is_empty());
    assert_eq!(evicted.len(), 3);
    assert_eq!(pointer.get(true), None);
}

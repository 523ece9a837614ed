use bento::fonts::{FontId, Fonts, MeasureCache};

#[test]
fn a_new_registry_is_empty() {
    let fonts = Fonts::new();
    assert_eq!(fonts.default_id(), None);
    assert_eq!(fonts.get_by_name("default"), None);
    assert_eq!(fonts.resolve(None), None);
    assert_eq!(fonts.resolve(Some("default")), None);
}

#[test]
fn add_hands_out_ids_in_order() {
    let mut fonts = Fonts::new();
    let a = fonts.add("body", "Arial", 14).id;
    let b = fonts.add("mono", "JetBrains Mono", 12).id;
    assert_eq!(a, FontId(0));
    assert_eq!(b, FontId(1));
    assert_eq!(fonts.get(a).family, "Arial");
    assert_eq!(fonts.get(a).size, 14);
    assert_eq!(fonts.get(b).family, "JetBrains Mono");
    assert_eq!(fonts.get(b).size, 12);
}

#[test]
fn add_of_a_taken_name_changes_nothing() {
    let mut fonts = Fonts::new();
    let a = fonts.add("body", "Arial", 14).id;
    let again = fonts.add("body", "Helvetica", 20).id;
    assert_eq!(again, a);
    assert_eq!(fonts.get(a).family, "Arial");
    assert_eq!(fonts.get(a).size, 14);
    assert_eq!(fonts.add("other", "Helvetica", 20).id, FontId(1));
}

#[test]
fn get_by_name_finds_what_was_added() {
    let mut fonts = Fonts::new();
    fonts.add("body", "Arial", 14);
    fonts.add("mono", "JetBrains Mono", 12);
    assert_eq!(fonts.get_by_name("body"), Some(FontId(0)));
    assert_eq!(fonts.get_by_name("mono"), Some(FontId(1)));
    assert_eq!(fonts.get_by_name("Body"), None);
    assert_eq!(fonts.get_by_name(""), None);
}

#[test]
fn the_builder_sets_the_default() {
    let mut fonts = Fonts::new();
    fonts.add("body", "Arial", 14);
    let id = fonts.add("mono", "JetBrains Mono", 12).default();
    assert_eq!(id, FontId(1));
    assert_eq!(fonts.default_id(), Some(FontId(1)));
    let id = fonts.add("body", "Arial", 14).default();
    assert_eq!(id, FontId(0));
    assert_eq!(fonts.default_id(), Some(FontId(0)));
}

#[test]
fn resolve_falls_back_to_the_default() {
    let mut fonts = Fonts::new();
    fonts.add("body", "Arial", 14).default();
    fonts.add("mono", "JetBrains Mono", 12);
    assert_eq!(fonts.resolve(Some("mono")), Some(FontId(1)));
    assert_eq!(fonts.resolve(Some("missing")), Some(FontId(0)));
    assert_eq!(fonts.resolve(None), Some(FontId(0)));
}

#[test]
fn resolve_without_a_default_finds_only_names() {
    let mut fonts = Fonts::new();
    fonts.add("body", "Arial", 14);
    assert_eq!(fonts.resolve(Some("body")), Some(FontId(0)));
    assert_eq!(fonts.resolve(Some("missing")), None);
    assert_eq!(fonts.resolve(None), None);
}

#[test]
fn len_counts_the_fonts() {
    let mut fonts = Fonts::new();
    assert_eq!(fonts.len(), 0);
    fonts.add("body", "Arial", 14);
    fonts.add("body", "Arial", 14);
    fonts.add("mono", "JetBrains Mono", 12);
    assert_eq!(fonts.len(), 2);
}

#[test]
fn a_new_cache_remembers_nothing() {
    let cache = MeasureCache::new();
    assert_eq!(cache.get(FontId(0), "hello", 14), None);
}

#[test]
fn the_cache_remembers_by_font_text_and_size() {
    let mut cache = MeasureCache::new();
    cache.insert(FontId(0), "hello", 14, 40, 20);
    cache.insert(FontId(1), "hello", 14, 44, 21);
    cache.insert(FontId(0), "hello", 16, 48, 23);
    cache.insert(FontId(0), "hullo", 14, 41, 20);
    assert_eq!(cache.get(FontId(0), "hello", 14), Some((40, 20)));
    assert_eq!(cache.get(FontId(1), "hello", 14), Some((44, 21)));
    assert_eq!(cache.get(FontId(0), "hello", 16), Some((48, 23)));
    assert_eq!(cache.get(FontId(0), "hullo", 14), Some((41, 20)));
    assert_eq!(cache.get(FontId(2), "hello", 14), None);
    assert_eq!(cache.get(FontId(0), "hello", 15), None);
    assert_eq!(cache.get(FontId(0), "", 14), None);
}

#[test]
fn a_second_insert_replaces_the_first() {
    let mut cache = MeasureCache::new();
    cache.insert(FontId(0), "hello", 14, 40, 20);
    cache.insert(FontId(0), "other", 14, 1, 2);
    cache.insert(FontId(0), "hello", 14, 50, 25);
    assert_eq!(cache.get(FontId(0), "hello", 14), Some((50, 25)));
    assert_eq!(cache.get(FontId(0), "other", 14), Some((1, 2)));
    cache.clear();
    assert_eq!(cache.get(FontId(0), "hello", 14), None);
    assert_eq!(cache.get(FontId(0), "other", 14), None);
}

#[test]
fn resolve_id_keeps_a_registered_id() {
    let mut fonts = Fonts::new();
    fonts.add("body", "Arial", 14).default();
    fonts.add("mono", "JetBrains Mono", 12);
    assert_eq!(fonts.resolve_id(Some(FontId(1))), Some(FontId(1)));
    assert_eq!(fonts.resolve_id(Some(FontId(0))), Some(FontId(0)));
}

#[test]
fn resolve_id_falls_back_to_the_default() {
    let mut fonts = Fonts::new();
    fonts.add("body", "Arial", 14);
    fonts.add("mono", "JetBrains Mono", 12).default();
    assert_eq!(fonts.resolve_id(Some(FontId(2))), Some(FontId(1)));
    assert_eq!(fonts.resolve_id(Some(FontId(usize::MAX))), Some(FontId(1)));
    assert_eq!(fonts.resolve_id(None), Some(FontId(1)));
}

#[test]
fn resolve_id_without_a_default_finds_only_registered_ids() {
    let mut fonts = Fonts::new();
    assert_eq!(fonts.resolve_id(None), None);
    assert_eq!(fonts.resolve_id(Some(FontId(0))), None);
    fonts.add("body", "Arial", 14);
    assert_eq!(fonts.resolve_id(Some(FontId(0))), Some(FontId(0)));
    assert_eq!(fonts.resolve_id(Some(FontId(1))), None);
    assert_eq!(fonts.resolve_id(None), None);
}

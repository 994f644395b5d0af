use accepted::core_text::TextCore;
use accepted::draw_cache::{DrawCache, StyleKind};
use std::time::Duration;

fn core_of(texts: &[&str]) -> TextCore {
    let mut core = TextCore::new();
    let mut first = true;
    for t in texts {
        if !first {
            core.insert_char('\n');
        }
        for c in t.chars() {
            core.insert_char(c);
        }
        first = false;
    }
    core
}

#[test]
fn get_line_is_empty_before_cache_line_and_filled_after() {
    let core = core_of(&["ab", "cd"]);
    let mut cache = DrawCache::new();
    // every row is at or after the watermark: nothing is handed out
    assert!(cache.get_line(0).is_none());
    assert!(cache.get_line(1).is_none());
    cache.cache_line(&core, 1);
    // caching row 1 validates rows 0 and 1
    assert!(cache.get_line(0).is_some());
    let cells = cache.get_line(1).unwrap();
    let text: String = cells.iter().map(|c| c.0).collect();
    assert_eq!(text, "cd");
}

#[test]
fn dirty_from_invalidates_exactly_the_tail() {
    let core = core_of(&["a", "b", "c"]);
    let mut cache = DrawCache::new();
    cache.cache_line(&core, 2);
    cache.dirty_from(1);
    // rows below the watermark keep their entries, rows at or after lose them
    assert!(cache.get_line(0).is_some());
    assert!(cache.get_line(1).is_none());
    assert!(cache.get_line(2).is_none());
    // re-lowering to the same or a higher row is a no-op
    cache.dirty_from(1);
    cache.dirty_from(2);
    assert!(cache.get_line(0).is_some());
    assert!(cache.get_line(1).is_none());
}

#[test]
fn extend_cache_duration_fills_and_is_idempotent_when_full() {
    let core = core_of(&["a", "b", "c"]);
    let mut cache = DrawCache::new();
    cache.extend_cache_duration(&core, Duration::from_secs(1));
    assert!(cache.get_line(0).is_some());
    assert!(cache.get_line(1).is_some());
    assert!(cache.get_line(2).is_some());
    // already fully valid: returns immediately, entries untouched
    cache.extend_cache_duration(&core, Duration::from_secs(0));
    cache.extend_cache_duration(&core, Duration::from_secs(0));
    assert!(cache.get_line(2).is_some());
}

#[test]
fn tokenizer_styles_thread_across_lines() {
    // the string literal opened on row 0 stays open into row 1
    let core = core_of(&["\"abc", "de\" (7)"]);
    let mut cache = DrawCache::new();
    cache.cache_line(&core, 1);
    let row0 = cache.get_line(0).unwrap();
    assert!(row0.iter().all(|c| c.1.kind == StyleKind::StringLit));
    let row1 = cache.get_line(1).unwrap();
    // "de\"" is still string-styled, the bracket and digit get their own
    assert_eq!(row1[0].1.kind, StyleKind::StringLit);
    assert_eq!(row1[2].1.kind, StyleKind::StringLit);
    assert_eq!(row1[4].1.kind, StyleKind::Bracket);
    assert_eq!(row1[5].1.kind, StyleKind::Digit);
    assert_eq!(row1[6].1.kind, StyleKind::Bracket);
}

use std::sync::Arc;

use hakutaku_core::chunk_cache::{chunk_reservation_bytes, containment_offset};
use hakutaku_core::{ChunkCacheHit, ChunkItemSpan, DecodedChunkCache, MAX_CACHED_CHUNKS};

fn span(raw_offset: u64, raw_byte_len: u32) -> ChunkItemSpan {
    ChunkItemSpan {
        raw_offset,
        raw_byte_len,
    }
}

fn texts(values: &[&str]) -> Arc<Vec<String>> {
    Arc::new(values.iter().map(|value| value.to_string()).collect())
}

fn hit_texts(hit: &ChunkCacheHit, count: usize) -> Vec<&str> {
    hit.items[hit.offset..hit.offset + count]
        .iter()
        .map(|item| item.as_str())
        .collect()
}

fn cache_with_three_items() -> DecodedChunkCache {
    let mut cache = DecodedChunkCache::new();
    cache.insert(
        1,
        vec![span(0, 10), span(10, 10), span(20, 10)],
        texts(&["a", "b", "c"]),
    );
    cache
}

#[test]
fn insert_then_get_with_identical_range_returns_shared_items() {
    let mut cache = cache_with_three_items();

    let wanted = [span(0, 10), span(10, 10), span(20, 10)];
    let hit = cache.get(1, &wanted).expect("ヒットするはず");

    assert_eq!(hit.offset, 0);
    assert_eq!(hit_texts(&hit, wanted.len()), vec!["a", "b", "c"]);
}

#[test]
fn get_hits_when_wanted_is_contained_at_the_front() {
    let mut cache = cache_with_three_items();

    let wanted = [span(0, 10), span(10, 10)];
    let hit = cache.get(1, &wanted).expect("前方の包含はヒットするはず");

    assert_eq!(hit.offset, 0);
    assert_eq!(hit_texts(&hit, wanted.len()), vec!["a", "b"]);
}

#[test]
fn get_hits_when_wanted_is_contained_at_the_back() {
    let mut cache = cache_with_three_items();

    let wanted = [span(10, 10), span(20, 10)];
    let hit = cache.get(1, &wanted).expect("後方の包含はヒットするはず");

    assert_eq!(hit.offset, 1);
    assert_eq!(hit_texts(&hit, wanted.len()), vec!["b", "c"]);
}

#[test]
fn get_hits_at_entry_boundaries_for_single_item_requests() {
    let mut cache = cache_with_three_items();

    let first = cache.get(1, &[span(0, 10)]).expect("先頭1件はヒットする");
    assert_eq!(first.offset, 0);
    assert_eq!(hit_texts(&first, 1), vec!["a"]);

    let last = cache.get(1, &[span(20, 10)]).expect("末尾1件はヒットする");
    assert_eq!(last.offset, 2);
    assert_eq!(hit_texts(&last, 1), vec!["c"]);
}

#[test]
fn get_misses_when_wanted_is_not_fully_contained() {
    let mut cache = cache_with_three_items();

    assert!(
        cache.get(1, &[span(20, 10), span(30, 10)]).is_none(),
        "末尾からはみ出す部分的な重なりはミス"
    );
    assert!(
        cache.get(1, &[span(100, 10)]).is_none(),
        "エントリの範囲外はミス"
    );
    assert!(
        cache
            .get(1, &[span(0, 10), span(10, 10), span(20, 10), span(30, 10)])
            .is_none(),
        "要求のほうが長ければ包含され得ない"
    );
    assert!(
        cache.get(1, &[span(0, 10), span(20, 10)]).is_none(),
        "連続部分列でない（間を飛ばした）要求はミス"
    );
}

#[test]
fn get_misses_when_raw_byte_len_differs_at_the_same_offset() {
    let mut cache = cache_with_three_items();

    assert!(
        cache.get(1, &[span(10, 12)]).is_none(),
        "長さが違えば別の項目とみなしてミスにする"
    );
}

#[test]
fn get_misses_when_source_id_does_not_match() {
    let mut cache = cache_with_three_items();

    assert!(cache.get(2, &[span(0, 10)]).is_none());
}

#[test]
fn get_with_empty_request_misses() {
    let mut cache = cache_with_three_items();

    assert!(cache.get(1, &[]).is_none());
}

#[test]
fn insert_evicts_least_recently_used_entry_beyond_capacity() {
    let mut cache = DecodedChunkCache::new();
    for i in 0..MAX_CACHED_CHUNKS as u64 {
        cache.insert(1, vec![span(i * 10, 10)], texts(&[&format!("chunk{i}")]));
    }
    assert!(cache.get(1, &[span(0, 10)]).is_some());

    cache.insert(1, vec![span(9990, 10)], texts(&["new"]));

    assert!(
        cache.get(1, &[span(0, 10)]).is_some(),
        "直近アクセスしたエントリは残るはず"
    );
    assert!(
        cache.get(1, &[span(9990, 10)]).is_some(),
        "新規追加したエントリは残るはず"
    );
    assert!(
        cache.get(1, &[span(10, 10)]).is_none(),
        "最も古いエントリが追い出されるはず"
    );
}

#[test]
fn insert_with_identical_spans_replaces_the_existing_entry() {
    let mut cache = DecodedChunkCache::new();
    let spans = || vec![span(0, 10)];
    cache.insert(1, spans(), texts(&["old"]));
    cache.insert(1, spans(), texts(&["new"]));

    let hit = cache.get(1, &[span(0, 10)]).expect("ヒットするはず");
    assert_eq!(hit_texts(&hit, 1), vec!["new"]);
    assert_eq!(cache.len(), 1, "同じ範囲のエントリは1件だけ");
}

#[test]
fn invalidate_source_removes_only_that_source_entries() {
    let mut cache = DecodedChunkCache::new();
    cache.insert(1, vec![span(0, 1)], texts(&["a"]));
    cache.insert(2, vec![span(0, 1)], texts(&["b"]));

    cache.invalidate_source(1);

    assert!(cache.get(1, &[span(0, 1)]).is_none());
    let hit = cache.get(2, &[span(0, 1)]).expect("ヒットするはず");
    assert_eq!(hit_texts(&hit, 1), vec!["b"]);
}

#[test]
fn insert_with_empty_items_does_nothing() {
    let mut cache = DecodedChunkCache::new();
    cache.insert(1, Vec::new(), texts(&[]));
    assert!(cache.is_empty());
}

#[test]
fn insert_with_mismatched_span_count_does_nothing() {
    let mut cache = DecodedChunkCache::new();
    cache.insert(1, vec![span(0, 10)], texts(&["a", "b"]));
    assert!(cache.is_empty());
}

#[test]
fn a_hit_shares_the_stored_texts_without_copying() {
    let mut cache = DecodedChunkCache::new();
    let stored = texts(&["x", "y"]);
    cache.insert(5, vec![span(0, 1), span(2, 1)], Arc::clone(&stored));
    let hit = cache.get(5, &[span(2, 1)]).expect("ヒットするはず");
    assert!(Arc::ptr_eq(&hit.items, &stored));
    assert_eq!(hit.offset, 1);
}

#[test]
fn cache_never_holds_more_than_the_limit() {
    let mut cache = DecodedChunkCache::new();
    for i in 0..(MAX_CACHED_CHUNKS as u64 * 3) {
        cache.insert(1, vec![span(i, 1)], texts(&["t"]));
        assert!(cache.len() <= MAX_CACHED_CHUNKS);
    }
    assert_eq!(cache.len(), MAX_CACHED_CHUNKS);
}

#[test]
fn containment_offset_finds_the_first_occurrence() {
    let cached = [span(0, 1), span(1, 1), span(0, 1), span(1, 1)];
    assert_eq!(containment_offset(&cached, &[span(0, 1), span(1, 1)]), Some(0));
    assert_eq!(containment_offset(&cached, &[span(1, 1), span(0, 1)]), Some(1));
    assert_eq!(containment_offset(&cached, &[span(1, 2)]), None);
    assert_eq!(containment_offset(&cached[..1], &cached), None);
}

#[test]
fn chunk_reservation_counts_utf8_bytes_and_sixteen_per_span() {
    let items = vec!["ab".to_string(), "é".to_string()];
    assert_eq!(chunk_reservation_bytes(&[span(0, 2), span(3, 2)], &items), 2 + 2 + 2 * 16);
    assert_eq!(chunk_reservation_bytes(&[], &[]), 0);
}

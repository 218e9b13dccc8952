use hakutaku_core::{IndexedText, LineIndexEntry, FLAG_HAS_TIMESTAMP, FLAG_UNCONFIRMED, INDEX_BYTES_PER_ENTRY};

#[test]
fn line_index_entry_size_is_at_most_24_bytes() {
    assert!(std::mem::size_of::<LineIndexEntry>() <= 24);
    assert_eq!(std::mem::size_of::<LineIndexEntry>(), 24);
}

#[test]
fn measured_index_bytes_per_line_is_at_most_24() {
    let mut indexed = IndexedText::new();
    let mut offset = 0u64;
    for i in 0..20_000u32 {
        let len = 40u32;
        indexed.push_entry(
            offset,
            len,
            Some(1_753_679_543_000 + i64::from(i)),
            false,
            0,
            u64::from(i) + 1,
        );
        offset += u64::from(len) + 1;
    }
    assert_eq!(indexed.len(), 20_000);
    let bytes_per_line = indexed.index_bytes() / indexed.len();
    assert!(
        bytes_per_line <= 24,
        "索引バイト数/行数が24を超えている: {bytes_per_line}"
    );
    assert_eq!(indexed.index_bytes(), 20_000 * 24);
    assert_eq!(indexed.auxiliary_bytes(), 20_000 * 8);
}

#[test]
fn push_entry_round_trips_offset_len_key_and_flags() {
    let mut indexed = IndexedText::new();
    let idx0 = indexed.push_entry(0, 6, Some(1000), false, 0, 1);
    let idx1 = indexed.push_entry(7, 9, None, false, 0, 2);
    let idx2 = indexed.push_entry(17, 21, None, true, 0, 3);

    assert_eq!(indexed.entries()[idx0].raw_range(), (0, 6));
    assert_eq!(indexed.entries()[idx1].raw_range(), (7, 9));
    assert_eq!(indexed.entries()[idx2].raw_range(), (17, 21));

    assert_eq!(indexed.comparison_key_millis(idx0), Some(1000));
    assert_eq!(indexed.comparison_key_millis(idx1), None);
    assert!(!indexed.entries()[idx0].is_unconfirmed());
    assert!(indexed.entries()[idx2].is_unconfirmed());

    assert_eq!(indexed.source_line_number(idx0), Some(1));
    assert_eq!(indexed.source_line_number(idx1), Some(2));
    assert_eq!(indexed.source_line_number(idx2), Some(3));
}

#[test]
fn push_entry_stores_continuation_count_for_merged_items() {
    let mut indexed = IndexedText::new();
    let idx = indexed.push_entry(0, 80, Some(1), false, 2, 1);

    assert_eq!(indexed.len(), 1);
    assert_eq!(indexed.entries()[idx].raw_range(), (0, 80));
    assert_eq!(indexed.entries()[idx].continuation_count, 2);
    assert_eq!(indexed.source_line_number(idx), Some(1));
}

#[test]
fn accessors_for_out_of_range_index_return_none() {
    let indexed = IndexedText::new();
    assert_eq!(indexed.comparison_key_millis(0), None);
    assert_eq!(indexed.source_line_number(0), None);
    assert!(indexed.entries().is_empty());
}

#[test]
fn clear_releases_index_and_leaves_indexed_text_empty() {
    let mut indexed = IndexedText::new();
    indexed.push_entry(0, 6, Some(1), false, 0, 1);
    indexed.push_entry(7, 6, None, false, 0, 2);
    assert_eq!(indexed.len(), 2);

    indexed.clear();

    assert_eq!(indexed.len(), 0);
    assert!(indexed.is_empty());
    assert_eq!(indexed.index_bytes(), 0);
    assert_eq!(indexed.auxiliary_bytes(), 0);
}

#[test]
fn grow_capacity_to_sets_capacity_and_spare_capacity_for_appends() {
    let mut indexed = IndexedText::new();
    assert_eq!(indexed.capacity(), 0);
    assert_eq!(indexed.spare_capacity(), 0);

    let allocated = indexed.grow_capacity_to(100);

    assert_eq!(indexed.capacity(), 100);
    assert_eq!(indexed.spare_capacity(), 100);
    assert_eq!(allocated, 100 * INDEX_BYTES_PER_ENTRY);

    for i in 0..100u32 {
        indexed.push_entry(u64::from(i) * 10, 8, None, false, 0, u64::from(i) + 1);
    }
    assert_eq!(indexed.len(), 100);
    assert_eq!(
        indexed.capacity(),
        100,
        "事前確保した容量に収まる追記では再確保が起きないはず"
    );
    assert_eq!(indexed.spare_capacity(), 0);
}

#[test]
fn grow_capacity_to_is_a_no_op_when_capacity_already_suffices() {
    let mut indexed = IndexedText::new();
    indexed.grow_capacity_to(100);

    let allocated = indexed.grow_capacity_to(50);

    assert_eq!(allocated, 0);
    assert_eq!(indexed.capacity(), 100, "縮小しないはず");
}

#[test]
fn with_capacity_starts_empty_with_room_for_the_hint() {
    let indexed = IndexedText::with_capacity(10);
    assert!(indexed.is_empty());
    assert!(indexed.capacity() >= 10);
    assert_eq!(indexed.spare_capacity(), indexed.capacity());
}

#[test]
fn entry_flags_follow_timestamp_and_unconfirmed_marks() {
    let mut indexed = IndexedText::new();
    let both = indexed.push_entry(0, 1, Some(-5), true, 0, 1);
    let neither = indexed.push_entry(2, 1, None, false, 0, 2);
    let entry = indexed.entries()[both];
    assert_eq!(entry.flags, FLAG_HAS_TIMESTAMP | FLAG_UNCONFIRMED);
    assert!(entry.has_timestamp());
    assert_eq!(entry.comparison_key_millis(), Some(-5));
    let entry = indexed.entries()[neither];
    assert_eq!(entry.flags, 0);
    assert!(!entry.has_timestamp());
    assert_eq!(entry.comparison_key_millis, 0, "日時なしは0で記録される");
    assert_eq!(entry.comparison_key_millis(), None);
}

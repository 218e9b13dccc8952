use hakutaku_core::item::CapacityEstimate;
use hakutaku_core::loading::{
    change_kind_from_verdict, change_kind_from_verdict_for_restore, estimate_total_items,
    last_newline_end, pair_line_spans, record_invalid_positions,
    resolve_datetime_format_and_route, ChangeKind, DecodedLine, LineSpan, SnapshotChange,
    StageAccumulator, MIN_PROJECTION_SAMPLE_BYTES,
};
use hakutaku_core::loading::{
    datetime_format_from_setting, encoding_route_label, ChunkCarry, DateTimeFormat,
    DateTimeFormatSetting, EarlyFailure, EncodingRoute, LoadEnd,
};
use hakutaku_core::loading::{
    build_load_summary, early_failure, load_end, reload_failure, reload_step, restore_step,
    DecidedEncodingReport, LoadFailure, ReloadFailure, ReloadStep, RestoreStep,
};
use hakutaku_core::{DatetimeFormatRoute, LoadStageTimings, LoadSummary};

#[test]
fn partial_read_projects_total_items_from_measured_average_with_headroom() {
    assert_eq!(
        estimate_total_items(20_000, 2_000_000, 20_000_000),
        CapacityEstimate::Projected(210_000)
    );
}

#[test]
fn small_sample_is_not_projected_until_the_minimum_is_read() {
    assert_eq!(
        estimate_total_items(10, MIN_PROJECTION_SAMPLE_BYTES - 1, 20_000_000),
        CapacityEstimate::Exact(10)
    );
    assert!(matches!(
        estimate_total_items(10, MIN_PROJECTION_SAMPLE_BYTES, 20_000_000),
        CapacityEstimate::Projected(_)
    ));
}

#[test]
fn fully_read_file_yields_exact_estimate_without_headroom() {
    assert_eq!(
        estimate_total_items(1_000, 1_000_000, 1_000_000),
        CapacityEstimate::Exact(1_000)
    );
    assert_eq!(
        estimate_total_items(1_000, 1_200_000, 1_000_000),
        CapacityEstimate::Exact(1_000)
    );
}

#[test]
fn missing_sample_yields_zero_estimate() {
    assert_eq!(
        estimate_total_items(0, 2_000_000, 20_000_000),
        CapacityEstimate::Exact(0)
    );
}

#[test]
fn zero_length_file_does_not_divide_by_zero() {
    assert_eq!(estimate_total_items(0, 0, 0), CapacityEstimate::Exact(0));
}

#[test]
fn projection_does_not_overflow_at_scale() {
    let total_bytes = 2 * 1024 * 1024 * 1024u64;
    let bytes_done = 8 * 1024 * 1024u64;
    let items_so_far = 68_000u64;
    match estimate_total_items(items_so_far, bytes_done, total_bytes) {
        CapacityEstimate::Projected(estimated) => {
            assert!(
                (17_000_000..19_000_000).contains(&estimated),
                "外挿値が想定の桁に収まっていない: {estimated}"
            );
        }
        CapacityEstimate::Exact(estimated) => {
            panic!("読み込み途中なので Projected のはず: {estimated}")
        }
    }
}

#[test]
fn projection_never_falls_below_items_already_read() {
    let projected = estimate_total_items(500_000, 2_000_000, 2_000_001);
    assert!(matches!(projected, CapacityEstimate::Projected(n) if n >= 500_000));
    assert_eq!(
        estimate_total_items(u64::MAX, MIN_PROJECTION_SAMPLE_BYTES, u64::MAX),
        CapacityEstimate::Projected(usize::MAX)
    );
}

#[test]
fn other_is_the_total_minus_the_four_stages() {
    let timings = LoadStageTimings {
        total: 100,
        io_read: 10,
        decode: 20,
        parse: 30,
        deliver: 15,
    };
    assert_eq!(timings.other(), 25);
    assert_eq!(
        timings.other() + timings.io_read + timings.decode + timings.parse + timings.deliver,
        timings.total
    );
    let overlapping = LoadStageTimings {
        total: 10,
        io_read: 8,
        decode: 8,
        parse: 0,
        deliver: 0,
    };
    assert_eq!(overlapping.other(), 0);
    assert_eq!(LoadStageTimings::default().other(), 0);
}

#[test]
fn snapshot_moves_line_splitting_out_of_decoding_into_parsing() {
    let accumulator = StageAccumulator {
        io_read: 5,
        feed: 40,
        parse: 7,
        deliver: 3,
    };
    assert_eq!(
        accumulator.snapshot(100, 25),
        LoadStageTimings {
            total: 100,
            io_read: 5,
            decode: 25,
            parse: 22,
            deliver: 3,
        }
    );
    assert_eq!(accumulator.snapshot(100, 50).parse, 7);
}

#[test]
fn datetime_route_labels_are_japanese() {
    assert_eq!(DatetimeFormatRoute::Manual.route_label(), "UI での手動選択");
    assert_eq!(
        DatetimeFormatRoute::Profile.route_label(),
        "プロファイル指定（datetime_format）"
    );
    assert_eq!(DatetimeFormatRoute::Auto.route_label(), "内容からの自動判定");
    assert_eq!(
        DatetimeFormatRoute::RawDisplayFallback.route_label(),
        "判定なし（生表示退避）"
    );
}

#[test]
fn manual_format_wins_over_profile_format() {
    assert_eq!(
        resolve_datetime_format_and_route(Some(4u8), Some(5u8), false),
        (Some(4u8), DatetimeFormatRoute::Manual)
    );
    assert_eq!(
        resolve_datetime_format_and_route(None, Some(5u8), false),
        (Some(5u8), DatetimeFormatRoute::Profile)
    );
    assert_eq!(
        resolve_datetime_format_and_route::<u8>(None, None, false),
        (None, DatetimeFormatRoute::Auto)
    );
}

#[test]
fn raw_display_fallback_route_keeps_the_format_but_reports_no_choice() {
    assert_eq!(
        resolve_datetime_format_and_route(Some(4u8), None, true),
        (Some(4u8), DatetimeFormatRoute::RawDisplayFallback)
    );
}

#[test]
fn detected_changes_are_reported_by_kind() {
    assert_eq!(change_kind_from_verdict(SnapshotChange::Shrunk), ChangeKind::Shrunk);
    assert_eq!(change_kind_from_verdict(SnapshotChange::Deleted), ChangeKind::Deleted);
    assert_eq!(change_kind_from_verdict(SnapshotChange::Replaced), ChangeKind::Replaced);
    assert_eq!(change_kind_from_verdict(SnapshotChange::Appended), ChangeKind::Replaced);
    assert_eq!(
        change_kind_from_verdict_for_restore(SnapshotChange::Appended),
        ChangeKind::Replaced
    );
    assert_eq!(
        change_kind_from_verdict_for_restore(SnapshotChange::Unchanged),
        ChangeKind::Replaced
    );
    assert_eq!(
        change_kind_from_verdict_for_restore(SnapshotChange::Shrunk),
        ChangeKind::Shrunk
    );
}

#[test]
fn paired_lines_take_text_from_decoded_and_raw_range_from_raw_split() {
    let raw = [
        LineSpan {
            content_start: 0,
            content_end: 6,
            confirmed: true,
        },
        LineSpan {
            content_start: 7,
            content_end: 9,
            confirmed: false,
        },
    ];
    let decoded = [
        LineSpan {
            content_start: 0,
            content_end: 2,
            confirmed: true,
        },
        LineSpan {
            content_start: 3,
            content_end: 5,
            confirmed: false,
        },
    ];
    let lines = pair_line_spans(&raw, &decoded, 3, 100);
    assert_eq!(
        lines,
        vec![
            DecodedLine {
                text_start: 0,
                text_end: 2,
                raw_offset: 103,
                raw_content_len: 3,
                confirmed: true,
            },
            DecodedLine {
                text_start: 3,
                text_end: 5,
                raw_offset: 107,
                raw_content_len: 2,
                confirmed: false,
            },
        ]
    );
    assert!(pair_line_spans(&raw, &decoded[..1], 0, 0).is_empty());
}

#[test]
fn invalid_positions_are_made_absolute_and_capped() {
    let mut recorded = vec![1usize];
    let mut truncated = false;
    record_invalid_positions(&[2, 4, 6], 10, &mut recorded, &mut truncated, 3, false);
    assert_eq!(recorded, vec![1, 12, 14]);
    assert!(truncated, "3件目は上限で記録できない");

    let mut recorded = Vec::new();
    let mut truncated = false;
    record_invalid_positions(&[0], 5, &mut recorded, &mut truncated, 8, false);
    assert_eq!(recorded, vec![5]);
    assert!(!truncated);
    record_invalid_positions(&[], 5, &mut recorded, &mut truncated, 8, true);
    assert!(truncated, "デコーダ側の打ち切りも伝わる");
}

#[test]
fn last_newline_end_finds_the_end_of_the_last_complete_line() {
    assert_eq!(last_newline_end(b"ab\ncd\nef"), Some(6));
    assert_eq!(last_newline_end(b"ab\n"), Some(3));
    assert_eq!(last_newline_end(b"abc"), None);
    assert_eq!(last_newline_end(b""), None);
}

#[test]
fn chunk_carry_decodes_only_complete_lines_and_keeps_the_rest() {
    let mut carry = ChunkCarry::new();
    assert_eq!(carry.feed(b"ab"), None, "改行がなければまだ確定しない");
    let end = carry.feed(b"c\nde").expect("1行確定");
    assert_eq!(end, 4);
    let taken = carry.take(end);
    assert_eq!(taken.bytes, b"abc\n".to_vec());
    assert_eq!(taken.base, 0);
    assert!(taken.first, "ファイル先頭なので BOM があり得る");

    assert_eq!(carry.feed(b"f\ng"), Some(4));
    let taken = carry.take(4);
    assert_eq!(taken.bytes, b"def\n".to_vec());
    assert_eq!(taken.base, 4);
    assert!(!taken.first);

    assert_eq!(carry.remaining_end(), Some(1));
    let taken = carry.take(1);
    assert_eq!(taken.bytes, b"g".to_vec());
    assert_eq!(taken.base, 8);
    assert_eq!(carry.remaining_end(), None);
}

#[test]
fn encoding_route_labels_are_japanese() {
    assert_eq!(encoding_route_label(EncodingRoute::Utf8Bom), "UTF-8 BOM");
    assert_eq!(
        encoding_route_label(EncodingRoute::ProfileNamedEncoding),
        "プロファイル指定（encoding 名前指定）"
    );
    assert_eq!(
        encoding_route_label(EncodingRoute::EnvironmentAnsi),
        "実行環境の Windows ANSI コードページ"
    );
}

#[test]
fn datetime_setting_maps_to_the_same_format_and_auto_to_none() {
    assert_eq!(datetime_format_from_setting(DateTimeFormatSetting::Auto), None);
    assert_eq!(
        datetime_format_from_setting(DateTimeFormatSetting::LogDt004),
        Some(DateTimeFormat::LogDt004)
    );
    assert_eq!(
        datetime_format_from_setting(DateTimeFormatSetting::LogDt006),
        Some(DateTimeFormat::LogDt006)
    );
}

#[test]
fn early_failure_keeps_what_was_registered() {
    assert_eq!(early_failure(false, Some(ChangeKind::Deleted)), EarlyFailure::ReleaseAndFail);
    assert_eq!(early_failure(false, None), EarlyFailure::ReleaseAndFail);
    assert_eq!(
        early_failure(true, Some(ChangeKind::Shrunk)),
        EarlyFailure::MarkChanged(ChangeKind::Shrunk)
    );
    assert_eq!(early_failure(true, None), EarlyFailure::MarkFailedKeepingItems);
}

#[test]
fn cancelled_or_paused_loads_end_as_partial() {
    assert_eq!(load_end(false, false), LoadEnd::Completed);
    assert_eq!(load_end(true, false), LoadEnd::CancelledPartial);
    assert_eq!(load_end(false, true), LoadEnd::CancelledPartial);
}

#[test]
fn summary_labels_the_decided_encoding_or_says_it_was_never_decided() {
    let timings = LoadStageTimings::default();
    let decided = build_load_summary(
        100,
        3,
        168,
        Some(DecidedEncodingReport {
            route: EncodingRoute::Utf8Bom,
            encoding: "utf-8".to_string(),
            warnings: vec!["警告".to_string()],
        }),
        "該当なし",
        Some("format-1"),
        DatetimeFormatRoute::Auto,
        vec![7],
        false,
        false,
        true,
        timings,
    );
    assert_eq!(
        decided,
        LoadSummary {
            file_size_bytes: 100,
            line_count: 3,
            reserved_bytes: 168,
            encoding_route: "UTF-8 BOM",
            selected_encoding: "utf-8".to_string(),
            profile_resolution_route: "該当なし",
            detected_datetime_format: Some("format-1"),
            datetime_format_route: DatetimeFormatRoute::Auto,
            decode_invalid_positions: vec![7],
            decode_invalid_positions_truncated: false,
            encoding_warnings: vec!["警告".to_string()],
            fell_back_to_raw_display: false,
            has_unconfirmed_trailing_line: true,
            stage_timings: timings,
        }
    );
    let undecided = build_load_summary(
        0,
        0,
        0,
        None,
        "該当なし",
        None,
        DatetimeFormatRoute::Auto,
        Vec::new(),
        false,
        false,
        false,
        timings,
    );
    assert_eq!(undecided.encoding_route, "未判定（打ち切り）");
    assert!(undecided.selected_encoding.is_empty());
    assert!(undecided.encoding_warnings.is_empty());
}

#[test]
fn reload_keeps_unchanged_files_applies_appends_and_invalidates_the_rest() {
    assert_eq!(reload_step(SnapshotChange::Unchanged), ReloadStep::KeepCurrent);
    assert_eq!(reload_step(SnapshotChange::Appended), ReloadStep::ApplyAppend);
    assert_eq!(
        reload_step(SnapshotChange::Shrunk),
        ReloadStep::Invalidate(ChangeKind::Shrunk)
    );
    assert_eq!(
        reload_step(SnapshotChange::Replaced),
        ReloadStep::Invalidate(ChangeKind::Replaced)
    );
    assert_eq!(
        reload_step(SnapshotChange::Deleted),
        ReloadStep::Invalidate(ChangeKind::Deleted)
    );
}

#[test]
fn restore_rebuilds_unchanged_files_and_invalidates_everything_else() {
    assert_eq!(restore_step(SnapshotChange::Unchanged), RestoreStep::Restore);
    assert_eq!(
        restore_step(SnapshotChange::Appended),
        RestoreStep::Invalidate(ChangeKind::Replaced)
    );
    assert_eq!(
        restore_step(SnapshotChange::Deleted),
        RestoreStep::Invalidate(ChangeKind::Deleted)
    );
}

#[test]
fn failed_reload_reports_a_change_first_then_a_sharing_violation() {
    assert_eq!(
        reload_failure(LoadFailure::ChangedDuringLoad(SnapshotChange::Shrunk)),
        ReloadFailure::Changed(ChangeKind::Shrunk)
    );
    assert_eq!(
        reload_failure(LoadFailure::ChangedDuringLoad(SnapshotChange::Appended)),
        ReloadFailure::Changed(ChangeKind::Replaced)
    );
    assert_eq!(reload_failure(LoadFailure::SharingViolation), ReloadFailure::SharingViolation);
    assert_eq!(reload_failure(LoadFailure::Other), ReloadFailure::Failed);
}

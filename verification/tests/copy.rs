use hakutaku_core::copy::{
    copy_fetch_request, copy_preflight, copy_walk_step, validate_selection, CopyAccumulator,
    CopyPreflight, CopyWalkStep,
};
use hakutaku_core::{
    CopyBuffer, CopyError, CopyLimits, CopyRange, CopyRejection, CopySelection, FetchRangeError,
    InvalidSelectionReason, RangeRequest,
};

fn selection(ranges: &[(u64, u64)]) -> CopySelection {
    CopySelection {
        ranges: ranges
            .iter()
            .map(|&(start, count)| CopyRange { start, count })
            .collect(),
    }
}

fn generous_limits() -> CopyLimits {
    CopyLimits {
        max_bytes: 10_000_000,
        max_lines: 1_000_000,
    }
}

fn expect_invalid_selection(ranges: &[(u64, u64)], expected: InvalidSelectionReason) {
    let outcome = copy_preflight(Some((1, 2)), 1, &selection(ranges), generous_limits());
    assert_eq!(outcome, Err(CopyError::InvalidSelection(expected)));
    assert_eq!(validate_selection(&selection(ranges), 2), Err(expected));
}

fn collect(bodies: &[&str], limits: CopyLimits, total_lines: u64) -> Result<CopyBuffer, CopyRejection> {
    let mut accumulator = CopyAccumulator::new(limits, total_lines);
    for body in bodies {
        if let Some(rejection) = accumulator.push_body(body.to_string()) {
            return Err(rejection);
        }
    }
    Ok(accumulator.finish())
}

#[test]
fn selection_without_any_range_is_rejected() {
    expect_invalid_selection(&[], InvalidSelectionReason::NoRanges);
}

#[test]
fn zero_count_range_is_rejected() {
    expect_invalid_selection(&[(0, 0)], InvalidSelectionReason::EmptyRange);
}

#[test]
fn descending_ranges_are_rejected() {
    expect_invalid_selection(&[(1, 1), (0, 1)], InvalidSelectionReason::OverlappingOrUnordered);
}

#[test]
fn overlapping_ranges_are_rejected() {
    expect_invalid_selection(&[(0, 2), (1, 1)], InvalidSelectionReason::OverlappingOrUnordered);
}

#[test]
fn range_beyond_total_items_is_rejected() {
    expect_invalid_selection(&[(0, 100)], InvalidSelectionReason::OutOfBounds);
}

#[test]
fn range_starting_beyond_total_items_is_rejected() {
    expect_invalid_selection(&[(5, 1)], InvalidSelectionReason::OutOfBounds);
}

#[test]
fn unknown_display_set_is_reported_before_selection_validation() {
    assert_eq!(
        copy_preflight(None, 1, &selection(&[]), generous_limits()),
        Err(CopyError::Fetch(FetchRangeError::UnknownDisplaySet))
    );
}

#[test]
fn generation_mismatch_is_reported_before_selection_validation() {
    assert_eq!(
        copy_preflight(Some((2, 5)), 1, &selection(&[(0, 0)]), generous_limits()),
        Err(CopyError::Fetch(FetchRangeError::GenerationMismatch {
            expected: 1,
            current: 2
        }))
    );
}

#[test]
fn adjacent_ranges_are_accepted_and_counted_together() {
    assert_eq!(validate_selection(&selection(&[(0, 1), (1, 2)]), 3), Ok(3));
    assert_eq!(validate_selection(&selection(&[(0, 1), (3, 2)]), 5), Ok(3));
}

#[test]
fn range_ending_exactly_at_total_items_is_accepted() {
    assert_eq!(validate_selection(&selection(&[(1, 1)]), 2), Ok(1));
}

#[test]
fn first_faulty_range_decides_the_reason() {
    assert_eq!(
        validate_selection(&selection(&[(0, 100), (0, 0)]), 2),
        Err(InvalidSelectionReason::OutOfBounds)
    );
    assert_eq!(
        validate_selection(&selection(&[(0, 0), (0, 100)]), 2),
        Err(InvalidSelectionReason::EmptyRange)
    );
}

#[test]
fn line_limit_met_exactly_proceeds() {
    let limits = CopyLimits {
        max_bytes: 1_000_000,
        max_lines: 3,
    };
    assert_eq!(
        copy_preflight(Some((1, 4)), 1, &selection(&[(0, 3)]), limits),
        Ok(CopyPreflight::Proceed { total_lines: 3 })
    );
}

#[test]
fn line_limit_exceeded_over_all_ranges_is_rejected_without_bytes() {
    let limits = CopyLimits {
        max_bytes: 1_000_000,
        max_lines: 3,
    };
    assert_eq!(
        copy_preflight(Some((1, 5)), 1, &selection(&[(0, 2), (3, 2)]), limits),
        Ok(CopyPreflight::Rejected(CopyRejection {
            limit_bytes: 1_000_000,
            limit_lines: 3,
            selected_lines: 4,
            selected_bytes: None,
        }))
    );
}

#[test]
fn texts_are_joined_with_newlines_and_inner_newlines_stay() {
    let buffer = collect(&["first", "second\n  continued"], generous_limits(), 2).expect("上限内");
    assert_eq!(buffer.text, "first\nsecond\n  continued");
    assert_eq!(buffer.bytes, buffer.text.len() as u64);
    assert_eq!(buffer.lines, 2);
}

#[test]
fn byte_limit_met_exactly_is_copied() {
    let content = "x".repeat(10);
    let limits = CopyLimits {
        max_bytes: 10,
        max_lines: 1_000_000,
    };
    let buffer = collect(&[&content], limits, 1).expect("ちょうどは許可");
    assert_eq!(buffer.bytes, 10);
    assert_eq!(buffer.text, content);
}

#[test]
fn byte_limit_exceeded_by_one_is_rejected_with_the_count() {
    let content = "x".repeat(11);
    let limits = CopyLimits {
        max_bytes: 10,
        max_lines: 1_000_000,
    };
    assert_eq!(
        collect(&[&content], limits, 1),
        Err(CopyRejection {
            limit_bytes: 10,
            limit_lines: 1_000_000,
            selected_lines: 1,
            selected_bytes: Some(11),
        })
    );
}

#[test]
fn separators_count_toward_the_byte_limit() {
    let limits = CopyLimits {
        max_bytes: 5,
        max_lines: 10,
    };
    assert_eq!(collect(&["ab", "cd"], limits, 2).expect("5バイト").text, "ab\ncd");
    let rejection = collect(&["ab", "cde"], limits, 2).expect_err("6バイトは超過");
    assert_eq!(rejection.selected_bytes, Some(6));
}

#[test]
fn byte_accounting_uses_utf8_length() {
    let limits = CopyLimits {
        max_bytes: 4,
        max_lines: 10,
    };
    let rejection = collect(&["café"], limits, 1).expect_err("UTF-8 で5バイト");
    assert_eq!(rejection.selected_bytes, Some(5));
    let buffer = collect(&["café"], generous_limits(), 1).expect("上限内");
    assert_eq!(buffer.bytes, 5);
}

#[test]
fn empty_accumulator_finishes_with_empty_text() {
    let accumulator = CopyAccumulator::new(generous_limits(), 0);
    assert_eq!(accumulator.accumulated_bytes(), 0);
    let buffer = accumulator.finish();
    assert_eq!(buffer.text, "");
    assert_eq!(buffer.bytes, 0);
    assert_eq!(buffer.lines, 0);
}

#[test]
fn fetch_request_asks_for_the_rest_of_the_range() {
    assert_eq!(
        copy_fetch_request(3, 10, 4),
        RangeRequest {
            start: 3,
            max_items: 7,
            expected_generation: 4
        }
    );
    assert_eq!(copy_fetch_request(0, u64::MAX, 1).max_items, u32::MAX);
}

#[test]
fn invalid_selection_messages_are_japanese() {
    assert_eq!(
        InvalidSelectionReason::NoRanges.message(),
        "選択範囲が1つも指定されていません"
    );
    assert_eq!(
        InvalidSelectionReason::OutOfBounds.message(),
        "選択範囲が表示中のログの範囲を超えています"
    );
}

#[test]
fn copy_walk_fails_on_a_replaced_text_and_stops_at_the_range_end() {
    assert_eq!(copy_walk_step(10, 0, 4, true), CopyWalkStep::SourceUnavailable);
    assert_eq!(copy_walk_step(10, 0, 0, false), CopyWalkStep::RangeDone);
    assert_eq!(copy_walk_step(10, 0, 4, false), CopyWalkStep::Continue(4));
    assert_eq!(copy_walk_step(10, 4, 6, false), CopyWalkStep::RangeDone);
}

//! Clipboard copy: the contents and the limits.
//!
//! The copied text is always the raw text of the selected items: the
//! ranges are walked in ascending order and the items' texts are joined with
//! `\n` (no newline at the end). Inner newlines of items with continuation
//! lines stay.
//!
//! A selection must hold at least one range; every range must have a count
//! of at least one; the ranges must ascend and must not overlap (adjacent
//! ranges are fine, their result is that of one merged range); and every
//! range must lie within the display set. Otherwise it is refused with
//! [`CopyError::InvalidSelection`].
//!
//! The limits apply to all ranges together. The number of lines is known
//! from the index at once; when it exceeds the line limit the copy is
//! refused before any text is read. Otherwise the texts are read and their
//! UTF-8 bytes counted, and the copy is refused as soon as the count exceeds
//! the byte limit. A limit that is met exactly is allowed. A refusal builds
//! and reserves nothing (no partial copy).

use vstd::prelude::*;

use crate::display_set::RangeRequest;
use crate::item::ReservationRejected;
use crate::text::{decimal, push_decimal};

verus! {

/// A contiguous range to copy: `count` items from index `start` of the
/// display set.
#[derive(Debug, Clone, Copy, PartialEq, Eq, Structural)]
pub struct CopyRange {
    pub start: u64,
    pub count: u64,
}

/// A selection: disjoint ranges (a selection with gaps is several ranges).
#[derive(Debug, Clone, PartialEq, Eq)]
pub struct CopySelection {
    pub ranges: Vec<CopyRange>,
}

/// Why a selection was refused.
#[derive(Debug, Clone, Copy, PartialEq, Eq, Structural)]
pub enum InvalidSelectionReason {
    /// No range at all.
    NoRanges,
    /// A range with a count of zero.
    EmptyRange,
    /// The ranges do not ascend, or two of them overlap.
    OverlappingOrUnordered,
    /// A range reaches outside the display set.
    OutOfBounds,
}

impl InvalidSelectionReason {
    pub open spec fn message_view(self) -> Seq<char> {
        match self {
            InvalidSelectionReason::NoRanges => "選択範囲が1つも指定されていません"@,
            InvalidSelectionReason::EmptyRange => "行数が0の選択範囲が含まれています"@,
            InvalidSelectionReason::OverlappingOrUnordered => "選択範囲が昇順に並んでいないか、重なっています"@,
            InvalidSelectionReason::OutOfBounds => "選択範囲が表示中のログの範囲を超えています"@,
        }
    }

    /// The user-facing message (in Japanese).
    pub fn message(&self) -> (text: String)
        ensures
            text@ == self.message_view(),
    {
        let mut text = String::new();
        match self {
            InvalidSelectionReason::NoRanges => text.append("選択範囲が1つも指定されていません"),
            InvalidSelectionReason::EmptyRange => text.append("行数が0の選択範囲が含まれています"),
            InvalidSelectionReason::OverlappingOrUnordered => text.append("選択範囲が昇順に並んでいないか、重なっています"),
            InvalidSelectionReason::OutOfBounds => text.append("選択範囲が表示中のログの範囲を超えています"),
        }
        text
    }
}

/// The copy limits in bytes and in lines.
#[derive(Debug, Clone, Copy, PartialEq, Eq, Structural)]
pub struct CopyLimits {
    pub max_bytes: u64,
    pub max_lines: u64,
}

/// A copy that succeeded.
#[derive(Debug, Clone, PartialEq, Eq)]
pub struct CopyBuffer {
    /// The plain text to place on the clipboard.
    pub text: String,
    /// The UTF-8 bytes of `text`.
    pub bytes: u64,
    /// The number of lines (logical items) over all ranges.
    pub lines: u64,
}

/// A copy refused for exceeding a limit.
#[derive(Debug, Clone, Copy, PartialEq, Eq, Structural)]
pub struct CopyRejection {
    pub limit_bytes: u64,
    pub limit_lines: u64,
    /// The selection's total number of lines (always known from the index).
    pub selected_lines: u64,
    /// The bytes counted so far; `None` when the line limit refused the copy
    /// before any byte was counted.
    pub selected_bytes: Option<u64>,
}

/// The regular answers of a copy (a refusal for a limit is one of them).
#[derive(Debug, Clone, PartialEq, Eq)]
pub enum CopyOutcome {
    Copied(CopyBuffer),
    Rejected(CopyRejection),
}

/// Why a range of a display set could not be fetched.
#[derive(Debug, Clone, Copy, PartialEq, Eq, Structural)]
pub enum FetchRangeError {
    /// No display set has this identifier.
    UnknownDisplaySet,
    /// The requested generation is not the current one.
    GenerationMismatch { expected: u64, current: u64 },
}

/// Why a copy failed.
#[derive(Debug, Clone, PartialEq, Eq)]
pub enum CopyError {
    /// Unknown display set or generation mismatch (the range fetch errors).
    Fetch(FetchRangeError),
    /// The selection does not meet the conditions.
    InvalidSelection(InvalidSelectionReason),
    /// The memory reservation for the buffer was refused.
    MemoryReservationRejected(ReservationRejected),
    /// The text of a selected item could not be read.
    SourceUnavailable,
}

/// The selection check from range `i` on, with the previous range ending at
/// `previous_end` and `lines` lines counted so far: the total number of
/// lines, or the reason the first faulty range fails.
pub open spec fn check_ranges_from(
    ranges: Seq<CopyRange>,
    i: int,
    previous_end: int,
    lines: int,
    total_items: u64,
) -> Result<int, InvalidSelectionReason>
    decreases ranges.len() - i,
{
    if i >= ranges.len() {
        Ok(lines)
    } else {
        let range = ranges[i];
        if range.count == 0 {
            Err(InvalidSelectionReason::EmptyRange)
        } else if range.start < previous_end {
            Err(InvalidSelectionReason::OverlappingOrUnordered)
        } else if range.start > total_items || range.count > total_items - range.start {
            Err(InvalidSelectionReason::OutOfBounds)
        } else {
            check_ranges_from(ranges, i + 1, range.start + range.count, lines + range.count, total_items)
        }
    }
}

/// The selection check: no range at all is refused; otherwise the ranges are
/// checked in order and the first faulty one decides the reason.
pub open spec fn check_selection(ranges: Seq<CopyRange>, total_items: u64) -> Result<int, InvalidSelectionReason> {
    if ranges.len() == 0 {
        Err(InvalidSelectionReason::NoRanges)
    } else {
        check_ranges_from(ranges, 0, 0, 0, total_items)
    }
}

/// Checks a selection against a display set of `total_items` items and, when
/// it is valid, returns its total number of lines.
pub fn validate_selection(selection: &CopySelection, total_items: u64) -> (result: Result<u64, InvalidSelectionReason>)
    ensures
        match check_selection(selection.ranges@, total_items) {
            Ok(lines) => result == Ok::<u64, InvalidSelectionReason>(lines as u64),
            Err(reason) => result == Err::<u64, InvalidSelectionReason>(reason),
        },
{
    if selection.ranges.len() == 0 {
        return Err(InvalidSelectionReason::NoRanges);
    }
    let ghost ranges = selection.ranges@;
    let mut total_lines: u64 = 0;
    let mut previous_end: u64 = 0;
    let mut i: usize = 0;
    while i < selection.ranges.len()
        invariant
            ranges == selection.ranges@,
            ranges.len() > 0,
            i <= ranges.len(),
            total_lines <= previous_end <= total_items,
            check_selection(ranges, total_items) == check_ranges_from(ranges, i as int, previous_end as int, total_lines as int, total_items),
        decreases ranges.len() - i,
    {
        let range = selection.ranges[i];
        if range.count == 0 {
            return Err(InvalidSelectionReason::EmptyRange);
        }
        if range.start < previous_end {
            return Err(InvalidSelectionReason::OverlappingOrUnordered);
        }
        if range.start > total_items || range.count > total_items - range.start {
            return Err(InvalidSelectionReason::OutOfBounds);
        }
        previous_end = range.start + range.count;
        total_lines = total_lines + range.count;
        i = i + 1;
    }
    Ok(total_lines)
}

/// The sum of the counts of ranges `i..n`.
pub open spec fn counts_between(ranges: Seq<CopyRange>, i: int, n: int) -> int
    decreases n - i,
{
    if i >= n {
        0
    } else {
        ranges[i].count + counts_between(ranges, i + 1, n)
    }
}

proof fn lemma_check_ranges_from(ranges: Seq<CopyRange>, i: int, previous_end: int, lines: int, total_items: u64)
    requires
        0 <= i <= ranges.len(),
        0 <= lines <= previous_end,
        check_ranges_from(ranges, i, previous_end, lines, total_items) is Ok,
    ensures
        ({
            let result = check_ranges_from(ranges, i, previous_end, lines, total_items)->Ok_0;
            &&& result == lines + counts_between(ranges, i, ranges.len() as int)
            &&& result >= lines
            &&& (i < ranges.len() ==> ranges[i].start >= previous_end)
            &&& (i == ranges.len() ==> result <= previous_end)
            &&& (i < ranges.len() ==> result <= total_items)
        }),
        forall|j: int| i <= j < ranges.len() ==> {
            &&& (#[trigger] ranges[j]).count > 0
            &&& ranges[j].start + ranges[j].count <= total_items
        },
        forall|j: int| i < j < ranges.len() ==> ranges[j - 1].start + ranges[j - 1].count <= (#[trigger] ranges[j]).start,
    decreases ranges.len() - i,
{
    if i < ranges.len() {
        let range = ranges[i];
        lemma_check_ranges_from(ranges, i + 1, range.start + range.count, lines + range.count, total_items);
    }
}

/// What a valid selection is: when the check accepts it, it has at least one
/// range, every range has at least one item and lies within the display set,
/// each range ends no later than the next one starts (ascending and
/// disjoint, adjacent allowed), and the returned line count is the sum of
/// the counts, which never exceeds the number of items.
pub proof fn lemma_valid_selection(ranges: Seq<CopyRange>, total_items: u64)
    requires
        check_selection(ranges, total_items) is Ok,
    ensures
        ranges.len() > 0,
        forall|j: int| 0 <= j < ranges.len() ==> {
            &&& (#[trigger] ranges[j]).count > 0
            &&& ranges[j].start + ranges[j].count <= total_items
        },
        forall|j: int| 0 < j < ranges.len() ==> ranges[j - 1].start + ranges[j - 1].count <= (#[trigger] ranges[j]).start,
        check_selection(ranges, total_items)->Ok_0 == counts_between(ranges, 0, ranges.len() as int),
        0 <= check_selection(ranges, total_items)->Ok_0 <= total_items,
{
    lemma_check_ranges_from(ranges, 0, 0, 0, total_items);
}

proof fn lemma_ranges_accepted_from(ranges: Seq<CopyRange>, i: int, previous_end: int, lines: int, total_items: u64)
    requires
        0 <= i <= ranges.len(),
        i < ranges.len() ==> previous_end <= ranges[i].start,
        forall|j: int| 0 <= j < ranges.len() ==> {
            &&& (#[trigger] ranges[j]).count > 0
            &&& ranges[j].start + ranges[j].count <= total_items
        },
        forall|j: int| 0 < j < ranges.len() ==> ranges[j - 1].start + ranges[j - 1].count <= (#[trigger] ranges[j]).start,
    ensures
        check_ranges_from(ranges, i, previous_end, lines, total_items) == Ok::<int, InvalidSelectionReason>(
            lines + counts_between(ranges, i, ranges.len() as int),
        ),
    decreases ranges.len() - i,
{
    if i < ranges.len() {
        let range = ranges[i];
        if i + 1 < ranges.len() {
            assert(ranges[i + 1 - 1] == range);
        }
        lemma_ranges_accepted_from(ranges, i + 1, range.start + range.count, lines + range.count, total_items);
    }
}

/// The selection check accepts every selection that meets the conditions:
/// when there is at least one range, every range has at least one item and
/// lies within the display set, and each range ends no later than the next
/// one starts, the check accepts it with the sum of the counts as its number
/// of lines (however many lines that is).
pub proof fn lemma_valid_selections_are_accepted(ranges: Seq<CopyRange>, total_items: u64)
    requires
        ranges.len() > 0,
        forall|j: int| 0 <= j < ranges.len() ==> {
            &&& (#[trigger] ranges[j]).count > 0
            &&& ranges[j].start + ranges[j].count <= total_items
        },
        forall|j: int| 0 < j < ranges.len() ==> ranges[j - 1].start + ranges[j - 1].count <= (#[trigger] ranges[j]).start,
    ensures
        check_selection(ranges, total_items) == Ok::<int, InvalidSelectionReason>(
            counts_between(ranges, 0, ranges.len() as int),
        ),
{
    lemma_ranges_accepted_from(ranges, 0, 0, 0, total_items);
}

/// Splitting a range into two adjacent ones changes nothing: the check
/// accepts or refuses both selections alike and counts the same lines.
pub proof fn lemma_adjacent_ranges_count_as_one(first: CopyRange, second: CopyRange, total_items: u64)
    requires
        first.count > 0,
        second.count > 0,
        second.start == first.start + first.count,
        first.count + second.count <= u64::MAX,
    ensures
        check_selection(seq![first, second], total_items) == check_selection(
            seq![CopyRange { start: first.start, count: (first.count + second.count) as u64 }],
            total_items,
        ),
{
    let merged = CopyRange { start: first.start, count: (first.count + second.count) as u64 };
    let split = seq![first, second];
    let whole = seq![merged];
    assert(split[0] == first && split[1] == second && whole[0] == merged);
    assert(check_ranges_from(split, 2, second.start + second.count, first.count + second.count, total_items)
        == Ok::<int, InvalidSelectionReason>(first.count + second.count));
    assert(check_ranges_from(whole, 1, merged.start + merged.count, merged.count as int, total_items)
        == Ok::<int, InvalidSelectionReason>(first.count + second.count));
    let after_first = check_ranges_from(split, 1, first.start + first.count, first.count as int, total_items);
    if first.start > total_items || first.count > total_items - first.start {
        assert(check_ranges_from(split, 0, 0, 0, total_items) == Err::<int, InvalidSelectionReason>(
            InvalidSelectionReason::OutOfBounds));
        assert(check_ranges_from(whole, 0, 0, 0, total_items) == Err::<int, InvalidSelectionReason>(
            InvalidSelectionReason::OutOfBounds));
    } else {
        assert(check_ranges_from(split, 0, 0, 0, total_items) == after_first);
        if second.start > total_items || second.count > total_items - second.start {
            assert(after_first == Err::<int, InvalidSelectionReason>(InvalidSelectionReason::OutOfBounds));
            assert(check_ranges_from(whole, 0, 0, 0, total_items) == Err::<int, InvalidSelectionReason>(
                InvalidSelectionReason::OutOfBounds));
        } else {
            assert(after_first == Ok::<int, InvalidSelectionReason>(first.count + second.count));
            assert(check_ranges_from(whole, 0, 0, 0, total_items) == Ok::<int, InvalidSelectionReason>(
                first.count + second.count));
        }
    }
}

/// How a copy goes on after the checks that need no text.
#[derive(Debug, Clone, Copy, PartialEq, Eq, Structural)]
pub enum CopyPreflight {
    /// The texts are to be read; the selection has `total_lines` lines.
    Proceed { total_lines: u64 },
    /// The line limit refuses the copy before any text is read.
    Rejected(CopyRejection),
}

/// The checks of a copy before any text is read, in this order: the display
/// set must exist (`display_set` is its generation and number of items), the
/// generation must be the expected one, the selection must be valid, and its
/// number of lines must not exceed the line limit.
pub fn copy_preflight(
    display_set: Option<(u64, u64)>,
    expected_generation: u64,
    selection: &CopySelection,
    limits: CopyLimits,
) -> (result: Result<CopyPreflight, CopyError>)
    ensures
        match display_set {
            None => result == Err::<CopyPreflight, CopyError>(CopyError::Fetch(FetchRangeError::UnknownDisplaySet)),
            Some((generation, total_items)) => if generation != expected_generation {
                result == Err::<CopyPreflight, CopyError>(
                    CopyError::Fetch(FetchRangeError::GenerationMismatch { expected: expected_generation, current: generation }),
                )
            } else {
                match check_selection(selection.ranges@, total_items) {
                    Err(reason) => result == Err::<CopyPreflight, CopyError>(CopyError::InvalidSelection(reason)),
                    Ok(lines) => if lines > limits.max_lines {
                        result == Ok::<CopyPreflight, CopyError>(
                            CopyPreflight::Rejected(
                                CopyRejection {
                                    limit_bytes: limits.max_bytes,
                                    limit_lines: limits.max_lines,
                                    selected_lines: lines as u64,
                                    selected_bytes: None,
                                },
                            ),
                        )
                    } else {
                        result == Ok::<CopyPreflight, CopyError>(CopyPreflight::Proceed { total_lines: lines as u64 })
                    },
                }
            },
        },
{
    let (generation, total_items) = match display_set {
        None => return Err(CopyError::Fetch(FetchRangeError::UnknownDisplaySet)),
        Some(state) => state,
    };
    if generation != expected_generation {
        return Err(
            CopyError::Fetch(FetchRangeError::GenerationMismatch { expected: expected_generation, current: generation }),
        );
    }
    proof {
        if check_selection(selection.ranges@, total_items) is Ok {
            lemma_valid_selection(selection.ranges@, total_items);
        }
    }
    let total_lines = match validate_selection(selection, total_items) {
        Ok(lines) => lines,
        Err(reason) => return Err(CopyError::InvalidSelection(reason)),
    };
    assert(check_selection(selection.ranges@, total_items) == Ok::<int, InvalidSelectionReason>(total_lines as int));
    if total_lines > limits.max_lines {
        return Ok(
            CopyPreflight::Rejected(
                CopyRejection {
                    limit_bytes: limits.max_bytes,
                    limit_lines: limits.max_lines,
                    selected_lines: total_lines,
                    selected_bytes: None,
                },
            ),
        );
    }
    Ok(CopyPreflight::Proceed { total_lines })
}

/// The next range request while copying: from `cursor` on, as many items as
/// remain before `target_end` (at most `u32::MAX`), for the expected
/// generation.
pub fn copy_fetch_request(cursor: u64, target_end: u64, expected_generation: u64) -> (request: RangeRequest)
    requires
        cursor < target_end,
    ensures
        request.start == cursor,
        request.max_items as int == (if target_end - cursor > u32::MAX { u32::MAX as int } else { target_end - cursor }),
        request.expected_generation == expected_generation,
{
    let remaining = target_end - cursor;
    let max_items: u32 = if remaining > 0xffff_ffffu64 { 0xffff_ffffu32 } else { remaining as u32 };
    RangeRequest { start: cursor, max_items, expected_generation }
}

/// What the copy does after one fetch while walking a range.
#[derive(Debug, Clone, Copy, PartialEq, Eq, Structural)]
pub enum CopyWalkStep {
    /// A text of the fetched items could not be read from its file (it was
    /// replaced by a stand-in): the whole copy fails, nothing partial is
    /// copied.
    SourceUnavailable,
    /// The range is done: the fetch returned nothing, or its items reach the
    /// end of the range.
    RangeDone,
    /// The range goes on: fetch again from this index.
    Continue(u64),
}

/// The step after a fetch for a range ending at `target_end` that returned
/// `returned` items from `response_start` on; `texts_replaced` says whether a
/// text had to be replaced because its file could not be read. The returned
/// items (if any) are taken into the copy before the walk goes on.
pub fn copy_walk_step(target_end: u64, response_start: u64, returned: usize, texts_replaced: bool) -> (step:
    CopyWalkStep)
    requires
        response_start + returned <= u64::MAX,
    ensures
        step == (if texts_replaced {
            CopyWalkStep::SourceUnavailable
        } else if returned == 0 || response_start + returned >= target_end {
            CopyWalkStep::RangeDone
        } else {
            CopyWalkStep::Continue((response_start + returned) as u64)
        }),
        step matches CopyWalkStep::Continue(next) ==> response_start < next < target_end,
{
    if texts_replaced {
        return CopyWalkStep::SourceUnavailable;
    }
    if returned == 0 {
        return CopyWalkStep::RangeDone;
    }
    let next = response_start + returned as u64;
    if next >= target_end {
        CopyWalkStep::RangeDone
    } else {
        CopyWalkStep::Continue(next)
    }
}

/// The texts joined with `\n` between them.
pub open spec fn joined(texts: Seq<Seq<char>>) -> Seq<char>
    decreases texts.len(),
{
    if texts.len() == 0 {
        Seq::empty()
    } else if texts.len() == 1 {
        texts[0]
    } else {
        joined(texts.drop_last()) + seq!['\n'] + texts.last()
    }
}

/// The UTF-8 length of a text, as `str::len` reports it.
pub open spec fn utf8_len(text: Seq<char>) -> int {
    vstd::utf8::encode_utf8(text).len() as usize as int
}

/// The UTF-8 bytes of the texts joined with `\n`: their own bytes plus one
/// per separator.
pub open spec fn copy_bytes(texts: Seq<Seq<char>>) -> int
    decreases texts.len(),
{
    if texts.len() == 0 {
        0
    } else if texts.len() == 1 {
        utf8_len(texts[0])
    } else {
        copy_bytes(texts.drop_last()) + 1 + utf8_len(texts.last())
    }
}

proof fn lemma_copy_bytes_nonnegative(texts: Seq<Seq<char>>)
    ensures
        copy_bytes(texts) >= 0,
    decreases texts.len(),
{
    if texts.len() > 1 {
        lemma_copy_bytes_nonnegative(texts.drop_last());
    }
}

/// Collects the texts of a copy one by one, counting their bytes, until the
/// byte limit is exceeded or every text has been read.
#[derive(Debug)]
pub struct CopyAccumulator {
    limits: CopyLimits,
    total_lines: u64,
    bodies: Vec<String>,
    accumulated_bytes: u64,
}

/// `value`, capped at `u64::MAX`.
pub open spec fn cap_u64(value: int) -> u64 {
    if value > u64::MAX { u64::MAX } else { value as u64 }
}

impl CopyAccumulator {
    /// The texts collected so far.
    pub closed spec fn spec_bodies(&self) -> Seq<Seq<char>> {
        self.bodies@.map_values(|body: String| body@)
    }

    pub closed spec fn spec_limits(&self) -> CopyLimits {
        self.limits
    }

    pub closed spec fn spec_total_lines(&self) -> u64 {
        self.total_lines
    }

    /// The bytes counted so far (capped at `u64::MAX`).
    pub closed spec fn spec_accumulated(&self) -> u64 {
        self.accumulated_bytes
    }

    pub open spec fn wf(&self) -> bool {
        self.spec_accumulated() == cap_u64(copy_bytes(self.spec_bodies()))
    }

    /// Starts collecting for a selection of `total_lines` lines.
    pub fn new(limits: CopyLimits, total_lines: u64) -> (accumulator: Self)
        ensures
            accumulator.spec_bodies() == Seq::<Seq<char>>::empty(),
            accumulator.spec_limits() == limits,
            accumulator.spec_total_lines() == total_lines,
            accumulator.wf(),
    {
        let accumulator = CopyAccumulator { limits, total_lines, bodies: Vec::new(), accumulated_bytes: 0 };
        assert(accumulator.spec_bodies() =~= Seq::<Seq<char>>::empty());
        accumulator
    }

    /// The bytes counted so far: the texts' UTF-8 bytes and one per separator
    /// (capped at `u64::MAX`). This is what to reserve before
    /// [`Self::finish`].
    pub fn accumulated_bytes(&self) -> (bytes: u64)
        ensures
            bytes == self.spec_accumulated(),
    {
        self.accumulated_bytes
    }

    /// Adds the next text. When the count then exceeds the byte limit the
    /// copy is refused, with the count so far.
    pub fn push_body(&mut self, body: String) -> (rejection: Option<CopyRejection>)
        requires
            old(self).wf(),
        ensures
            final(self).spec_bodies() == old(self).spec_bodies().push(body@),
            final(self).spec_limits() == old(self).spec_limits(),
            final(self).spec_total_lines() == old(self).spec_total_lines(),
            final(self).wf(),
            rejection == (if final(self).spec_accumulated() > old(self).spec_limits().max_bytes {
                Some(
                    CopyRejection {
                        limit_bytes: old(self).spec_limits().max_bytes,
                        limit_lines: old(self).spec_limits().max_lines,
                        selected_lines: old(self).spec_total_lines(),
                        selected_bytes: Some(final(self).spec_accumulated()),
                    },
                )
            } else {
                None
            }),
    {
        let separator_bytes: u64 = if self.bodies.len() > 0 { 1 } else { 0 };
        let body_bytes = body.as_str().len() as u64;
        let ghost before = self.spec_bodies();
        self.accumulated_bytes = self.accumulated_bytes.saturating_add(separator_bytes).saturating_add(body_bytes);
        self.bodies.push(body);
        proof {
            assert(self.spec_bodies() =~= before.push(body@));
            assert(self.spec_bodies().drop_last() =~= before);
            assert(body_bytes == utf8_len(body@));
            let after = self.spec_bodies();
            lemma_copy_bytes_nonnegative(before);
            if before.len() == 0 {
                assert(copy_bytes(after) == utf8_len(body@));
            } else {
                assert(copy_bytes(after) == copy_bytes(before) + 1 + utf8_len(body@));
            }
        }
        if self.accumulated_bytes > self.limits.max_bytes {
            return Some(
                CopyRejection {
                    limit_bytes: self.limits.max_bytes,
                    limit_lines: self.limits.max_lines,
                    selected_lines: self.total_lines,
                    selected_bytes: Some(self.accumulated_bytes),
                },
            );
        }
        None
    }

    /// Builds the copy: the texts joined with `\n`, its UTF-8 bytes and the
    /// number of lines.
    pub fn finish(self) -> (buffer: CopyBuffer)
        ensures
            buffer.text@ == joined(self.spec_bodies()),
            buffer.bytes as int == utf8_len(buffer.text@),
            buffer.lines == self.spec_bodies().len(),
    {
        let mut text = String::new();
        let mut i: usize = 0;
        while i < self.bodies.len()
            invariant
                i <= self.bodies@.len(),
                text@ == joined(self.bodies@.map_values(|body: String| body@).take(i as int)),
            decreases self.bodies@.len() - i,
        {
            let ghost views = self.bodies@.map_values(|body: String| body@);
            proof {
                reveal_strlit("\n");
            }
            if i > 0 {
                text.append("\n");
            }
            text.append(self.bodies[i].as_str());
            proof {
                let next = views.take(i + 1);
                assert(next.drop_last() =~= views.take(i as int));
                if i == 0 {
                    assert(text@ =~= next[0]);
                } else {
                    assert(text@ =~= joined(views.take(i as int)) + seq!['\n'] + next.last());
                }
            }
            i = i + 1;
        }
        proof {
            assert(self.bodies@.map_values(|body: String| body@).take(self.bodies@.len() as int) =~= self.spec_bodies());
        }
        let bytes = text.as_str().len() as u64;
        CopyBuffer { text, bytes, lines: self.bodies.len() as u64 }
    }
}

proof fn lemma_encode_utf8_concat(a: Seq<char>, b: Seq<char>)
    ensures
        vstd::utf8::encode_utf8(a + b) == vstd::utf8::encode_utf8(a) + vstd::utf8::encode_utf8(b),
    decreases a.len(),
{
    if a.len() > 0 {
        assert((a + b).drop_first() =~= a.drop_first() + b);
        assert((a + b)[0] == a[0]);
        lemma_encode_utf8_concat(a.drop_first(), b);
        assert(vstd::utf8::encode_utf8(a + b) =~= vstd::utf8::encode_utf8(a) + vstd::utf8::encode_utf8(b));
    } else {
        assert(a + b =~= b);
        assert(vstd::utf8::encode_utf8(a) =~= Seq::<u8>::empty());
        assert(vstd::utf8::encode_utf8(a) + vstd::utf8::encode_utf8(b) =~= vstd::utf8::encode_utf8(b));
    }
}

proof fn lemma_encode_newline()
    ensures
        vstd::utf8::encode_utf8(seq!['\n']).len() == 1,
{
    assert(seq!['\n'].drop_first() =~= Seq::<char>::empty());
    assert(vstd::utf8::encode_utf8(Seq::<char>::empty()) =~= Seq::<u8>::empty());
    assert(vstd::utf8::has_width_1_encoding('\n' as u32));
}

/// The bytes counted while collecting are the bytes of the text that
/// [`CopyAccumulator::finish`] builds: joining with `\n` adds exactly one byte
/// per separator (as long as the text's length fits in `usize`).
pub proof fn lemma_counted_bytes_match_copied_text(texts: Seq<Seq<char>>)
    requires
        vstd::utf8::encode_utf8(joined(texts)).len() <= usize::MAX,
    ensures
        copy_bytes(texts) == utf8_len(joined(texts)),
    decreases texts.len(),
{
    if texts.len() > 1 {
        let init = texts.drop_last();
        lemma_encode_utf8_concat(joined(init), seq!['\n']);
        lemma_encode_utf8_concat(joined(init) + seq!['\n'], texts.last());
        lemma_encode_newline();
        lemma_counted_bytes_match_copied_text(init);
    }
}

} // verus!

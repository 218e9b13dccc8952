//! The decisions of the loading pipeline that need no file, no decoder and
//! no registry: projecting the number of items while a file is still being
//! read, pairing the raw and the decoded line splits of a chunk, recording
//! undecodable positions, the order in which the date and time format is
//! chosen, the stage timings, and how a detected change of the file is
//! reported.

use vstd::prelude::*;

use crate::item::CapacityEstimate;

verus! {

/// The bytes that must have been read before the number of items is
/// projected (1 MiB): a smaller sample would turn the spread of line lengths
/// into an error of the projection's factor.
pub const MIN_PROJECTION_SAMPLE_BYTES: u64 = 1024 * 1024;

/// `value` as a `usize`, capped at `usize::MAX`.
pub open spec fn cap_usize(value: int) -> usize {
    if value > usize::MAX { usize::MAX } else { value as usize }
}

/// The projection of [`estimate_total_items`].
pub open spec fn estimate_spec(items_so_far: u64, bytes_done: u64, total_bytes: u64) -> CapacityEstimate {
    if items_so_far == 0 || bytes_done == 0 || bytes_done >= total_bytes || bytes_done < MIN_PROJECTION_SAMPLE_BYTES {
        CapacityEstimate::Exact(cap_usize(items_so_far as int))
    } else {
        let projected = (items_so_far * total_bytes) / (bytes_done as int);
        CapacityEstimate::Projected(cap_usize(projected + projected / 20))
    }
}

/// Projects the total number of logical items of a source from what has been
/// read: total bytes divided by the average bytes per item measured so far,
/// plus 5% headroom. Once the whole file has been read the count so far is
/// exact and is returned as such; without a sample (no item or no byte yet),
/// or with a sample under [`MIN_PROJECTION_SAMPLE_BYTES`], nothing is
/// projected either.
pub fn estimate_total_items(items_so_far: u64, bytes_done: u64, total_bytes: u64) -> (estimate: CapacityEstimate)
    ensures
        estimate == estimate_spec(items_so_far, bytes_done, total_bytes),
{
    let items_so_far_usize: usize = if items_so_far as u128 <= usize::MAX as u128 {
        items_so_far as usize
    } else {
        usize::MAX
    };
    if items_so_far == 0 || bytes_done == 0 || bytes_done >= total_bytes {
        return CapacityEstimate::Exact(items_so_far_usize);
    }
    if bytes_done < MIN_PROJECTION_SAMPLE_BYTES {
        return CapacityEstimate::Exact(items_so_far_usize);
    }
    proof {
        let items = items_so_far as int;
        let total = total_bytes as int;
        assert(items * total <= u64::MAX * u64::MAX) by (nonlinear_arith)
            requires
                0 <= items <= u64::MAX,
                0 <= total <= u64::MAX,
        ;
        assert((items * total) / (bytes_done as int) <= items * total) by (nonlinear_arith)
            requires
                0 <= items * total,
                bytes_done >= 1,
        ;
    }
    let projected = (items_so_far as u128) * (total_bytes as u128) / (bytes_done as u128);
    proof {
        let product = (items_so_far as int) * (total_bytes as int);
        let d = bytes_done as int;
        let p = projected as int;
        assert(p == product / d);
        assert(p * d <= product) by (nonlinear_arith)
            requires
                p == product / d,
                d > 0,
                product >= 0,
        ;
        assert(p * 1048576 <= p * d) by (nonlinear_arith)
            requires
                d >= 1048576,
                p >= 0,
        ;
        assert(product <= 0xffff_ffff_ffff_ffff * 0xffff_ffff_ffff_ffff) by (nonlinear_arith)
            requires
                product == (items_so_far as int) * (total_bytes as int),
                0 <= items_so_far <= 0xffff_ffff_ffff_ffffu64,
                0 <= total_bytes <= 0xffff_ffff_ffff_ffffu64,
        ;
    }
    let with_headroom = projected + projected / 20;
    if with_headroom <= usize::MAX as u128 {
        CapacityEstimate::Projected(with_headroom as usize)
    } else {
        CapacityEstimate::Projected(usize::MAX)
    }
}

/// A projection never falls below the items already read, and the final
/// batch (the whole file read) is never projected: it is the exact count.
pub proof fn lemma_projection_covers_items_read(items_so_far: u64, bytes_done: u64, total_bytes: u64)
    ensures
        bytes_done >= total_bytes ==> estimate_spec(items_so_far, bytes_done, total_bytes) == CapacityEstimate::Exact(
            cap_usize(items_so_far as int),
        ),
        estimate_spec(items_so_far, bytes_done, total_bytes).estimated() >= cap_usize(items_so_far as int),
{
    if !(items_so_far == 0 || bytes_done == 0 || bytes_done >= total_bytes || bytes_done < MIN_PROJECTION_SAMPLE_BYTES) {
        let items = items_so_far as int;
        let total = total_bytes as int;
        let d = bytes_done as int;
        assert((items * total) / d >= items) by (nonlinear_arith)
            requires
                items >= 0,
                total > d,
                d > 0,
        {
            assert(items * total >= items * d);
            assert((items * d) / d == items);
        }
    }
}

/// The time spent in one load, split into the stages that different
/// optimisations address, in nanoseconds.
#[derive(Debug, Clone, Copy, Default, PartialEq, Eq, Structural)]
pub struct LoadStageTimings {
    /// From entry to exit of the registration (wall time, not the stages'
    /// sum).
    pub total: u128,
    /// Reading the chunks (0 when the load was cut short).
    pub io_read: u128,
    /// Encoding detection and decoding.
    pub decode: u128,
    /// Line splitting, date parsing and joining continuation lines.
    pub parse: u128,
    /// Every span during which the registry was borrowed.
    pub deliver: u128,
}

/// `a - b`, saturated at zero.
pub open spec fn sat_sub_u128(a: u128, b: u128) -> u128 {
    if a < b { 0 } else { (a - b) as u128 }
}

impl LoadStageTimings {
    /// What the four stages do not account for: the total minus each stage,
    /// saturating at zero (opening, limits, profile resolution, change checks,
    /// throttling, progress, the summary).
    pub fn other(&self) -> (rest: u128)
        ensures
            rest == sat_sub_u128(
                sat_sub_u128(sat_sub_u128(sat_sub_u128(self.total, self.io_read), self.decode), self.parse),
                self.deliver,
            ),
    {
        self.total.saturating_sub(self.io_read).saturating_sub(self.decode).saturating_sub(self.parse).saturating_sub(
            self.deliver,
        )
    }
}

/// When the stages do not overlap (their sum is within the total), the other
/// time and the four stages add up to the total exactly.
pub proof fn lemma_stages_partition_the_total(timings: LoadStageTimings)
    requires
        timings.io_read + timings.decode + timings.parse + timings.deliver <= timings.total,
    ensures
        sat_sub_u128(
            sat_sub_u128(sat_sub_u128(sat_sub_u128(timings.total, timings.io_read), timings.decode), timings.parse),
            timings.deliver,
        ) + timings.io_read + timings.decode + timings.parse + timings.deliver == timings.total,
{
}

/// The stage times accumulated during a load, in nanoseconds. `feed` covers
/// decoding together with line splitting, since decoding happens inside it.
#[derive(Debug, Clone, Copy, Default, PartialEq, Eq, Structural)]
pub struct StageAccumulator {
    pub io_read: u128,
    pub feed: u128,
    pub parse: u128,
    pub deliver: u128,
}

impl StageAccumulator {
    /// The public timings at this point: `total_elapsed` since the load began
    /// and `decode_elapsed` spent decoding; line splitting is `feed` minus the
    /// decoding (saturating) and counts as parsing.
    pub fn snapshot(&self, total_elapsed: u128, decode_elapsed: u128) -> (timings: LoadStageTimings)
        requires
            self.parse + sat_sub_u128(self.feed, decode_elapsed) <= u128::MAX,
        ensures
            timings == (LoadStageTimings {
                total: total_elapsed,
                io_read: self.io_read,
                decode: decode_elapsed,
                parse: (self.parse + sat_sub_u128(self.feed, decode_elapsed)) as u128,
                deliver: self.deliver,
            }),
    {
        LoadStageTimings {
            total: total_elapsed,
            io_read: self.io_read,
            decode: decode_elapsed,
            parse: self.parse + self.feed.saturating_sub(decode_elapsed),
            deliver: self.deliver,
        }
    }
}

/// Which input decided the date and time format.
#[derive(Debug, Clone, Copy, PartialEq, Eq, Structural)]
pub enum DatetimeFormatRoute {
    /// Chosen by hand in the UI (first priority; only on the first
    /// registration).
    Manual,
    /// The explicit format of the uniquely resolved profile (second
    /// priority).
    Profile,
    /// Detected from the content (no explicit format).
    Auto,
    /// The profile could not be resolved uniquely, so the items fall back to
    /// raw display and no format is chosen at all.
    RawDisplayFallback,
}

impl DatetimeFormatRoute {
    pub open spec fn label_view(self) -> Seq<char> {
        match self {
            DatetimeFormatRoute::Manual => "UI での手動選択"@,
            DatetimeFormatRoute::Profile => "プロファイル指定（datetime_format）"@,
            DatetimeFormatRoute::Auto => "内容からの自動判定"@,
            DatetimeFormatRoute::RawDisplayFallback => "判定なし（生表示退避）"@,
        }
    }

    /// A short label (in Japanese) for the diagnostic log.
    pub fn route_label(&self) -> (label: &'static str)
        ensures
            label@ == self.label_view(),
    {
        match self {
            DatetimeFormatRoute::Manual => "UI での手動選択",
            DatetimeFormatRoute::Profile => "プロファイル指定（datetime_format）",
            DatetimeFormatRoute::Auto => "内容からの自動判定",
            DatetimeFormatRoute::RawDisplayFallback => "判定なし（生表示退避）",
        }
    }
}

/// Chooses the explicit date and time format and, at the same place, the
/// route that chose it: a manual choice wins over the profile's format, and
/// without either the format is detected from the content (`None`). The
/// format is returned unchanged when the profile could not be resolved
/// uniquely (the raw display fallback still overrides it downstream); only
/// the route then says that no format was chosen.
pub fn resolve_datetime_format_and_route<F>(
    manual_datetime_format: Option<F>,
    profile_datetime_format: Option<F>,
    raw_display_due_to_profile: bool,
) -> (resolved: (Option<F>, DatetimeFormatRoute))
    ensures
        resolved.0 == (if manual_datetime_format is Some { manual_datetime_format } else { profile_datetime_format }),
        resolved.1 == (if raw_display_due_to_profile {
            DatetimeFormatRoute::RawDisplayFallback
        } else if manual_datetime_format is Some {
            DatetimeFormatRoute::Manual
        } else if profile_datetime_format is Some {
            DatetimeFormatRoute::Profile
        } else {
            DatetimeFormatRoute::Auto
        }),
{
    let manual_given = manual_datetime_format.is_some();
    let explicit = match manual_datetime_format {
        Some(format) => Some(format),
        None => profile_datetime_format,
    };
    let route = if raw_display_due_to_profile {
        DatetimeFormatRoute::RawDisplayFallback
    } else if manual_given {
        DatetimeFormatRoute::Manual
    } else if explicit.is_some() {
        DatetimeFormatRoute::Profile
    } else {
        DatetimeFormatRoute::Auto
    };
    (explicit, route)
}

/// How a source changed, as reported to the user.
#[derive(Debug, Clone, Copy, PartialEq, Eq, Structural)]
pub enum ChangeKind {
    Shrunk,
    Replaced,
    Deleted,
}

/// What comparing two snapshots of a file found.
#[derive(Debug, Clone, Copy, PartialEq, Eq, Structural)]
pub enum SnapshotChange {
    Unchanged,
    Appended,
    Shrunk,
    Replaced,
    Deleted,
}

/// The change reported when a load stops on a detected change. A read never
/// stops on no change or on an append; should one arrive anyway, the safe
/// side (the index is invalidated as for a replacement) is taken.
pub fn change_kind_from_verdict(verdict: SnapshotChange) -> (kind: ChangeKind)
    ensures
        kind == (match verdict {
            SnapshotChange::Shrunk => ChangeKind::Shrunk,
            SnapshotChange::Deleted => ChangeKind::Deleted,
            _ => ChangeKind::Replaced,
        }),
{
    match verdict {
        SnapshotChange::Shrunk => ChangeKind::Shrunk,
        SnapshotChange::Replaced => ChangeKind::Replaced,
        SnapshotChange::Deleted => ChangeKind::Deleted,
        SnapshotChange::Unchanged | SnapshotChange::Appended => ChangeKind::Replaced,
    }
}

/// The change reported when restoring a released source finds the file not
/// unchanged. An append is not taken in silently (it would bypass the size
/// limits), so it is reported as a replacement, like anything else unknown.
pub fn change_kind_from_verdict_for_restore(verdict: SnapshotChange) -> (kind: ChangeKind)
    ensures
        kind == (match verdict {
            SnapshotChange::Shrunk => ChangeKind::Shrunk,
            SnapshotChange::Deleted => ChangeKind::Deleted,
            _ => ChangeKind::Replaced,
        }),
{
    match verdict {
        SnapshotChange::Shrunk => ChangeKind::Shrunk,
        SnapshotChange::Replaced => ChangeKind::Replaced,
        SnapshotChange::Deleted => ChangeKind::Deleted,
        SnapshotChange::Appended => ChangeKind::Replaced,
        SnapshotChange::Unchanged => ChangeKind::Replaced,
    }
}

/// One line of a line split: where its content starts and ends (line
/// terminator excluded) and whether it ended with a newline.
#[derive(Debug, Clone, Copy, PartialEq, Eq, Structural)]
pub struct LineSpan {
    pub content_start: usize,
    pub content_end: usize,
    pub confirmed: bool,
}

/// One decoded line of a chunk: its content in the decoded text, and its raw
/// offset (in the file, after any BOM) and raw length.
#[derive(Debug, Clone, Copy, PartialEq, Eq, Structural)]
pub struct DecodedLine {
    pub text_start: usize,
    pub text_end: usize,
    pub raw_offset: u64,
    pub raw_content_len: u32,
    pub confirmed: bool,
}

/// Where the raw content of line `index` starts: the BOM is skipped on the
/// first line only.
pub open spec fn raw_content_start(raw: LineSpan, index: int, bom_len: usize) -> int {
    if index == 0 { raw.content_start + bom_len } else { raw.content_start as int }
}

/// The decoded line made of the raw split's line `index` and the decoded
/// split's line `index`.
pub open spec fn paired_line(raw: LineSpan, decoded: LineSpan, index: int, bom_len: usize, base: u64) -> DecodedLine {
    let start = raw_content_start(raw, index, bom_len);
    let len = if raw.content_end >= start { raw.content_end - start } else { 0 };
    DecodedLine {
        text_start: decoded.content_start,
        text_end: decoded.content_end,
        raw_offset: (base + start) as u64,
        raw_content_len: if len > u32::MAX { u32::MAX } else { len as u32 },
        confirmed: decoded.confirmed,
    }
}

/// Pairs the raw split and the decoded split of one chunk line by line
/// (a newline byte never occurs inside a multi-byte character in the
/// supported encodings, so both splits have as many lines). Each line takes
/// its text range from the decoded split and its raw offset (`base` plus its
/// start, the BOM skipped on the first line) and raw length (capped at
/// `u32::MAX`) from the raw split. Should the counts differ, no line is
/// produced.
pub fn pair_line_spans(raw: &[LineSpan], decoded: &[LineSpan], bom_len: usize, base: u64) -> (lines: Vec<DecodedLine>)
    requires
        forall|i: int| 0 <= i < raw@.len() ==> raw_content_start(#[trigger] raw@[i], i, bom_len) <= usize::MAX
            && base + raw_content_start(raw@[i], i, bom_len) <= u64::MAX,
    ensures
        raw@.len() != decoded@.len() ==> lines@.len() == 0,
        raw@.len() == decoded@.len() ==> lines@.len() == raw@.len() && forall|i: int|
            0 <= i < raw@.len() ==> #[trigger] lines@[i] == paired_line(raw@[i], decoded@[i], i, bom_len, base),
{
    let mut lines: Vec<DecodedLine> = Vec::new();
    if raw.len() != decoded.len() {
        return lines;
    }
    let mut index: usize = 0;
    while index < raw.len()
        invariant
            raw@.len() == decoded@.len(),
            index <= raw@.len(),
            lines@.len() == index,
            forall|i: int| 0 <= i < raw@.len() ==> raw_content_start(#[trigger] raw@[i], i, bom_len) <= usize::MAX
                && base + raw_content_start(raw@[i], i, bom_len) <= u64::MAX,
            forall|i: int| 0 <= i < index ==> #[trigger] lines@[i] == paired_line(raw@[i], decoded@[i], i, bom_len, base),
        decreases raw@.len() - index,
    {
        let span = raw[index];
        let decoded_span = decoded[index];
        proof {
            assert(raw_content_start(raw@[index as int], index as int, bom_len) <= usize::MAX);
        }
        let start = if index == 0 { span.content_start + bom_len } else { span.content_start };
        let content_len = span.content_end.saturating_sub(start);
        let raw_content_len: u32 = if content_len > 0xffff_ffffusize { 0xffff_ffffu32 } else { content_len as u32 };
        lines.push(
            DecodedLine {
                text_start: decoded_span.content_start,
                text_end: decoded_span.content_end,
                raw_offset: base + start as u64,
                raw_content_len,
                confirmed: decoded_span.confirmed,
            },
        );
        index = index + 1;
    }
    lines
}

/// The absolute position of an undecodable byte: its position in the chunk
/// plus the bytes consumed before the chunk, capped at `usize::MAX`.
pub open spec fn absolute_position(position: usize, consumed_before: u64) -> usize {
    cap_usize(position + consumed_before)
}

/// Records the undecodable positions of one chunk as absolute positions,
/// keeping at most `max_positions` in all; `truncated` is set when a
/// position had to be dropped, or when the decoder itself had cut its list
/// short (`outcome_truncated`).
pub fn record_invalid_positions(
    positions: &[usize],
    consumed_before: u64,
    recorded: &mut Vec<usize>,
    truncated: &mut bool,
    max_positions: usize,
    outcome_truncated: bool,
)
    requires
        forall|i: int| 0 <= i < positions@.len() ==> #[trigger] positions@[i] + consumed_before <= u64::MAX,
    ensures
        ({
            let room = if old(recorded)@.len() < max_positions { max_positions - old(recorded)@.len() } else { 0 };
            let kept = if positions@.len() < room { positions@.len() as int } else { room };
            &&& final(recorded)@ == old(recorded)@ + Seq::new(
                kept as nat,
                |i: int| absolute_position(positions@[i], consumed_before),
            )
            &&& *final(truncated) == (*old(truncated) || positions@.len() > kept || outcome_truncated)
        }),
{
    let ghost start = recorded@;
    let ghost room = if start.len() < max_positions { max_positions - start.len() } else { 0 };
    let mut i: usize = 0;
    while i < positions.len()
        invariant
            i <= positions@.len(),
            forall|j: int| 0 <= j < positions@.len() ==> #[trigger] positions@[j] + consumed_before <= u64::MAX,
            room == (if start.len() < max_positions { max_positions - start.len() } else { 0 }),
            recorded@ == start + Seq::new(
                (if i < room { i as int } else { room }) as nat,
                |k: int| absolute_position(positions@[k], consumed_before),
            ),
            *truncated == (*old(truncated) || i > room),
        decreases positions@.len() - i,
    {
        let absolute_wide = positions[i] as u64 + consumed_before;
        let absolute: usize = if absolute_wide as u128 <= usize::MAX as u128 { absolute_wide as usize } else { usize::MAX };
        if recorded.len() < max_positions {
            recorded.push(absolute);
        } else {
            *truncated = true;
        }
        proof {
            let n = if i < room { i as int } else { room };
            let n1 = if i + 1 < room { i + 1 } else { room };
            assert(recorded@ =~= start + Seq::new(n1 as nat, |k: int| absolute_position(positions@[k], consumed_before)));
        }
        i = i + 1;
    }
    if outcome_truncated {
        *truncated = true;
    }
}

/// The end of the last complete line of `bytes`: one past its last newline,
/// or `None` when it holds no newline.
pub fn last_newline_end(bytes: &[u8]) -> (end: Option<usize>)
    ensures
        match end {
            Some(k) => 1 <= k <= bytes@.len() && bytes@[k - 1] == 10u8 && forall|j: int| k <= j < bytes@.len() ==> bytes@[j] != 10u8,
            None => forall|j: int| 0 <= j < bytes@.len() ==> bytes@[j] != 10u8,
        },
{
    let mut k = bytes.len();
    while k > 0
        invariant
            k <= bytes@.len(),
            forall|j: int| k <= j < bytes@.len() ==> bytes@[j] != 10u8,
        decreases k,
    {
        if bytes[k - 1] == 10u8 {
            return Some(k);
        }
        k = k - 1;
    }
    None
}

/// The bytes of a file that have been read but not decoded yet, and how many
/// bytes before them have been decoded already. Chunks are appended as they
/// arrive; only complete lines (up to the last newline) are taken out for
/// decoding, so a line split across two chunks is decoded once, whole. What
/// remains at the end of the file is taken out last (a final line without a
/// newline).
pub struct ChunkCarry {
    carry: Vec<u8>,
    consumed_before: u64,
    fed: Ghost<Seq<u8>>,
}

/// A run of bytes taken out of a [`ChunkCarry`] for decoding: the bytes,
/// their offset in the file, and whether they start the file (only then can
/// they begin with a byte order mark).
pub struct TakenBytes {
    pub bytes: Vec<u8>,
    pub base: u64,
    pub first: bool,
}

impl ChunkCarry {
    /// The bytes waiting to be decoded.
    pub closed spec fn spec_carry(&self) -> Seq<u8> {
        self.carry@
    }

    /// The number of bytes taken out so far.
    pub closed spec fn spec_consumed(&self) -> u64 {
        self.consumed_before
    }

    /// Every byte fed so far, in order.
    pub closed spec fn spec_fed(&self) -> Seq<u8> {
        self.fed@
    }

    /// The carried bytes are exactly the fed bytes that were not taken out.
    pub open spec fn wf(&self) -> bool {
        &&& self.spec_fed().len() == self.spec_consumed() + self.spec_carry().len()
        &&& self.spec_fed().subrange(self.spec_consumed() as int, self.spec_fed().len() as int) == self.spec_carry()
    }

    /// An empty carry at the start of a file.
    pub fn new() -> (carry: Self)
        ensures
            carry.spec_carry() == Seq::<u8>::empty(),
            carry.spec_consumed() == 0,
            carry.spec_fed() == Seq::<u8>::empty(),
            carry.wf(),
    {
        let carry = ChunkCarry { carry: Vec::new(), consumed_before: 0, fed: Ghost(Seq::empty()) };
        assert(carry.spec_fed().subrange(0, 0) =~= carry.spec_carry());
        carry
    }

    /// Appends a chunk that has arrived and returns how far the carried bytes
    /// can be decoded now: one past their last newline, or `None` when they
    /// hold no complete line yet.
    pub fn feed(&mut self, chunk: &[u8]) -> (end: Option<usize>)
        requires
            old(self).wf(),
            old(self).spec_carry().len() + chunk@.len() <= usize::MAX,
        ensures
            final(self).wf(),
            final(self).spec_fed() == old(self).spec_fed() + chunk@,
            final(self).spec_carry() == old(self).spec_carry() + chunk@,
            final(self).spec_consumed() == old(self).spec_consumed(),
            match end {
                Some(k) => 1 <= k <= final(self).spec_carry().len() && final(self).spec_carry()[k - 1] == 10u8
                    && forall|j: int| k <= j < final(self).spec_carry().len() ==> final(self).spec_carry()[j] != 10u8,
                None => forall|j: int| 0 <= j < final(self).spec_carry().len() ==> final(self).spec_carry()[j] != 10u8,
            },
    {
        let ghost carry0 = self.carry@;
        let ghost fed0 = self.fed@;
        let ghost consumed0 = self.consumed_before;
        let mut i: usize = 0;
        while i < chunk.len()
            invariant
                i <= chunk@.len(),
                self.carry@ == carry0 + chunk@.subrange(0, i as int),
                self.fed@ == fed0,
                self.consumed_before == consumed0,
                fed0.len() == consumed0 + carry0.len(),
                fed0.subrange(consumed0 as int, fed0.len() as int) == carry0,
            decreases chunk@.len() - i,
        {
            self.carry.push(chunk[i]);
            proof {
                assert(chunk@.subrange(0, i + 1) =~= chunk@.subrange(0, i as int).push(chunk@[i as int]));
            }
            i = i + 1;
        }
        proof {
            assert(chunk@.subrange(0, chunk@.len() as int) =~= chunk@);
            self.fed = Ghost(fed0 + chunk@);
            assert(self.fed@.subrange(self.consumed_before as int, self.fed@.len() as int) =~= self.carry@);
        }
        last_newline_end(self.carry.as_slice())
    }

    /// The bytes waiting to be decoded.
    pub fn carried(&self) -> (bytes: &[u8])
        ensures
            bytes@ == self.spec_carry(),
    {
        self.carry.as_slice()
    }

    /// How far the carried bytes reach at the end of the file, when
    /// everything left is decoded: `None` when nothing is left.
    pub fn remaining_end(&self) -> (end: Option<usize>)
        ensures
            end == (if self.spec_carry().len() == 0 { None } else { Some(self.spec_carry().len() as usize) }),
    {
        if self.carry.len() == 0 {
            None
        } else {
            Some(self.carry.len())
        }
    }

    /// Takes the first `end` carried bytes out for decoding; they are
    /// counted as consumed, and the rest stays carried.
    pub fn take(&mut self, end: usize) -> (taken: TakenBytes)
        requires
            old(self).wf(),
            end <= old(self).spec_carry().len(),
            old(self).spec_consumed() + end <= u64::MAX,
        ensures
            final(self).wf(),
            taken.bytes@ == old(self).spec_carry().subrange(0, end as int),
            taken.base == old(self).spec_consumed(),
            taken.first == (old(self).spec_consumed() == 0),
            final(self).spec_carry() == old(self).spec_carry().subrange(end as int, old(self).spec_carry().len() as int),
            final(self).spec_consumed() == old(self).spec_consumed() + end,
            final(self).spec_fed() == old(self).spec_fed(),
            taken.bytes@ == old(self).spec_fed().subrange(
                old(self).spec_consumed() as int,
                old(self).spec_consumed() + end,
            ),
    {
        let base = self.consumed_before;
        let mut bytes = self.carry.split_off(end);
        std::mem::swap(&mut bytes, &mut self.carry);
        self.consumed_before = self.consumed_before + end as u64;
        proof {
            let fed = self.fed@;
            let old_carry = old(self).carry@;
            assert(fed.subrange(base as int, base + end) =~= old_carry.subrange(0, end as int));
            assert(fed.subrange(self.consumed_before as int, fed.len() as int) =~= self.carry@);
        }
        TakenBytes { bytes, base, first: base == 0 }
    }
}

/// Taking bytes out never loses or repeats a byte: the bytes taken out so far
/// followed by the carried ones are everything that was fed.
pub proof fn lemma_carry_partitions_the_fed_bytes(carry: &ChunkCarry)
    requires
        carry.wf(),
    ensures
        carry.spec_fed() == carry.spec_fed().subrange(0, carry.spec_consumed() as int) + carry.spec_carry(),
{
    assert(carry.spec_fed() =~= carry.spec_fed().subrange(0, carry.spec_consumed() as int) + carry.spec_carry());
}

/// How the encoding of a file was decided.
#[derive(Debug, Clone, Copy, PartialEq, Eq, Structural)]
pub enum EncodingRoute {
    /// A UTF-8 byte order mark.
    Utf8Bom,
    /// No byte order mark, and the content is valid UTF-8.
    Utf8ValidatedNoBom,
    /// The profile names the encoding.
    ProfileNamedEncoding,
    /// The profile gives an ANSI code page.
    ProfileAnsiCodepage,
    /// The Windows ANSI code page of the running environment.
    EnvironmentAnsi,
}

impl EncodingRoute {
    pub open spec fn label_view(self) -> Seq<char> {
        match self {
            EncodingRoute::Utf8Bom => "UTF-8 BOM"@,
            EncodingRoute::Utf8ValidatedNoBom => "UTF-8（BOM無し・妥当性確認）"@,
            EncodingRoute::ProfileNamedEncoding => "プロファイル指定（encoding 名前指定）"@,
            EncodingRoute::ProfileAnsiCodepage => "プロファイル指定（ansi_codepage）"@,
            EncodingRoute::EnvironmentAnsi => "実行環境の Windows ANSI コードページ"@,
        }
    }
}

/// A short label (in Japanese) of how the encoding was decided, for the
/// diagnostic log.
pub fn encoding_route_label(route: EncodingRoute) -> (label: &'static str)
    ensures
        label@ == route.label_view(),
{
    match route {
        EncodingRoute::Utf8Bom => "UTF-8 BOM",
        EncodingRoute::Utf8ValidatedNoBom => "UTF-8（BOM無し・妥当性確認）",
        EncodingRoute::ProfileNamedEncoding => "プロファイル指定（encoding 名前指定）",
        EncodingRoute::ProfileAnsiCodepage => "プロファイル指定（ansi_codepage）",
        EncodingRoute::EnvironmentAnsi => "実行環境の Windows ANSI コードページ",
    }
}

/// A date and time format the parser knows.
#[derive(Debug, Clone, Copy, PartialEq, Eq, Structural)]
pub enum DateTimeFormat {
    LogDt001,
    LogDt002,
    LogDt003,
    LogDt004,
    LogDt005,
    LogDt006,
}

/// A profile's date and time format setting: detected from the content, or
/// one format given explicitly.
#[derive(Debug, Clone, Copy, PartialEq, Eq, Structural)]
pub enum DateTimeFormatSetting {
    Auto,
    LogDt001,
    LogDt002,
    LogDt003,
    LogDt004,
    LogDt005,
    LogDt006,
}

/// The explicit format of a setting: the same format, or `None` for `Auto`.
pub fn datetime_format_from_setting(setting: DateTimeFormatSetting) -> (format: Option<DateTimeFormat>)
    ensures
        format == (match setting {
            DateTimeFormatSetting::Auto => None,
            DateTimeFormatSetting::LogDt001 => Some(DateTimeFormat::LogDt001),
            DateTimeFormatSetting::LogDt002 => Some(DateTimeFormat::LogDt002),
            DateTimeFormatSetting::LogDt003 => Some(DateTimeFormat::LogDt003),
            DateTimeFormatSetting::LogDt004 => Some(DateTimeFormat::LogDt004),
            DateTimeFormatSetting::LogDt005 => Some(DateTimeFormat::LogDt005),
            DateTimeFormatSetting::LogDt006 => Some(DateTimeFormat::LogDt006),
        }),
{
    match setting {
        DateTimeFormatSetting::Auto => None,
        DateTimeFormatSetting::LogDt001 => Some(DateTimeFormat::LogDt001),
        DateTimeFormatSetting::LogDt002 => Some(DateTimeFormat::LogDt002),
        DateTimeFormatSetting::LogDt003 => Some(DateTimeFormat::LogDt003),
        DateTimeFormatSetting::LogDt004 => Some(DateTimeFormat::LogDt004),
        DateTimeFormatSetting::LogDt005 => Some(DateTimeFormat::LogDt005),
        DateTimeFormatSetting::LogDt006 => Some(DateTimeFormat::LogDt006),
    }
}

/// What a load that stops early does with what it registered.
#[derive(Debug, Clone, Copy, PartialEq, Eq, Structural)]
pub enum EarlyFailure {
    /// Nothing was registered yet: the source reservation is handed back and
    /// the load fails.
    ReleaseAndFail,
    /// Part of the file was registered and the file changed: the source is
    /// marked changed (its index is invalidated) and the load is reported
    /// failed.
    MarkChanged(ChangeKind),
    /// Part of the file was registered and reading failed: the source is
    /// marked failed, what was registered stays shown, and the merged view
    /// takes it in.
    MarkFailedKeepingItems,
}

/// Decides how a load that stops early ends: whether anything was
/// `registered` yet, and the change that stopped it, if it was a change.
pub fn early_failure(registered: bool, change_kind: Option<ChangeKind>) -> (action: EarlyFailure)
    ensures
        action == (if !registered {
            EarlyFailure::ReleaseAndFail
        } else {
            match change_kind {
                Some(kind) => EarlyFailure::MarkChanged(kind),
                None => EarlyFailure::MarkFailedKeepingItems,
            }
        }),
{
    if !registered {
        return EarlyFailure::ReleaseAndFail;
    }
    match change_kind {
        Some(kind) => EarlyFailure::MarkChanged(kind),
        None => EarlyFailure::MarkFailedKeepingItems,
    }
}

/// How a load that read without error ends.
#[derive(Debug, Clone, Copy, PartialEq, Eq, Structural)]
pub enum LoadEnd {
    /// The whole file was read: the trailing fragment is decoded (a last
    /// line without a newline is unconfirmed) and the load completes.
    Completed,
    /// Reading stopped on a cancellation or because prefetching was paused:
    /// the trailing fragment is dropped (a range not read to its end is not
    /// kept) and the registered part is marked as a cancelled partial load.
    CancelledPartial,
}

/// Decides how a load ends from how reading stopped.
pub fn load_end(cancelled: bool, prefetch_stopped: bool) -> (end: LoadEnd)
    ensures
        end == (if cancelled || prefetch_stopped { LoadEnd::CancelledPartial } else { LoadEnd::Completed }),
{
    if cancelled || prefetch_stopped {
        LoadEnd::CancelledPartial
    } else {
        LoadEnd::Completed
    }
}

/// What a load reports about itself, for the diagnostic log.
#[derive(Debug, Clone, PartialEq, Eq)]
pub struct LoadSummary {
    pub file_size_bytes: u64,
    pub line_count: u64,
    /// The bytes recorded as allocated for the structures that stay resident
    /// in proportion to the lines (index, line numbers, items), including
    /// capacity allocated ahead of use.
    pub reserved_bytes: usize,
    /// A short label of how the encoding was decided.
    pub encoding_route: &'static str,
    /// The encoding used (such as `"utf-8"` or `"windows-932"`).
    pub selected_encoding: String,
    /// A short label of how the profile was resolved.
    pub profile_resolution_route: &'static str,
    /// The identifier of the date and time format used, if any.
    pub detected_datetime_format: Option<&'static str>,
    /// Which input decided the date and time format.
    pub datetime_format_route: DatetimeFormatRoute,
    /// Absolute offsets of bytes that could not be decoded (empty when none).
    pub decode_invalid_positions: Vec<usize>,
    /// Whether offsets beyond the recorded ones were dropped.
    pub decode_invalid_positions_truncated: bool,
    /// Warnings met while deciding the encoding.
    pub encoding_warnings: Vec<String>,
    /// Whether the items fell back to raw display without parsed timestamps.
    pub fell_back_to_raw_display: bool,
    /// Whether the last line read does not end with a newline.
    pub has_unconfirmed_trailing_line: bool,
    pub stage_timings: LoadStageTimings,
}

/// The decided encoding as a summary reports it: how it was decided, its
/// name and the warnings met.
#[derive(Debug, Clone, PartialEq, Eq)]
pub struct DecidedEncodingReport {
    pub route: EncodingRoute,
    pub encoding: String,
    pub warnings: Vec<String>,
}

/// The label reported when reading stopped before enough bytes arrived to
/// decide the encoding.
pub open spec fn undecided_label() -> Seq<char> {
    "未判定（打ち切り）"@
}

/// Assembles the summary of a load. When the encoding was never decided (the
/// load stopped before any byte could be looked at), the summary says so and
/// names no encoding and no warning.
pub fn build_load_summary(
    file_size_bytes: u64,
    line_count: u64,
    reserved_bytes: usize,
    decided: Option<DecidedEncodingReport>,
    profile_resolution_route: &'static str,
    detected_datetime_format: Option<&'static str>,
    datetime_format_route: DatetimeFormatRoute,
    decode_invalid_positions: Vec<usize>,
    decode_invalid_positions_truncated: bool,
    fell_back_to_raw_display: bool,
    has_unconfirmed_trailing_line: bool,
    stage_timings: LoadStageTimings,
) -> (summary: LoadSummary)
    ensures
        summary.file_size_bytes == file_size_bytes,
        summary.line_count == line_count,
        summary.reserved_bytes == reserved_bytes,
        summary.profile_resolution_route == profile_resolution_route,
        summary.detected_datetime_format == detected_datetime_format,
        summary.datetime_format_route == datetime_format_route,
        summary.decode_invalid_positions@ == decode_invalid_positions@,
        summary.decode_invalid_positions_truncated == decode_invalid_positions_truncated,
        summary.fell_back_to_raw_display == fell_back_to_raw_display,
        summary.has_unconfirmed_trailing_line == has_unconfirmed_trailing_line,
        summary.stage_timings == stage_timings,
        match decided {
            Some(report) => {
                &&& summary.encoding_route@ == report.route.label_view()
                &&& summary.selected_encoding@ == report.encoding@
                &&& summary.encoding_warnings@ == report.warnings@
            },
            None => {
                &&& summary.encoding_route@ == undecided_label()
                &&& summary.selected_encoding@ == Seq::<char>::empty()
                &&& summary.encoding_warnings@ == Seq::<String>::empty()
            },
        },
{
    let (encoding_route, selected_encoding, encoding_warnings) = match decided {
        Some(report) => (encoding_route_label(report.route), report.encoding, report.warnings),
        None => {
            proof {
                reveal_strlit("未判定（打ち切り）");
            }
            ("未判定（打ち切り）", String::new(), Vec::new())
        },
    };
    LoadSummary {
        file_size_bytes,
        line_count,
        reserved_bytes,
        encoding_route,
        selected_encoding,
        profile_resolution_route,
        detected_datetime_format,
        datetime_format_route,
        decode_invalid_positions,
        decode_invalid_positions_truncated,
        encoding_warnings,
        fell_back_to_raw_display,
        has_unconfirmed_trailing_line,
        stage_timings,
    }
}

/// What an explicit reload does after comparing the file with the snapshot
/// the display set was built from.
#[derive(Debug, Clone, Copy, PartialEq, Eq, Structural)]
pub enum ReloadStep {
    /// The file shrank, was replaced or was deleted: the index is
    /// invalidated (never kept as if still valid) and the change reported.
    Invalidate(ChangeKind),
    /// Nothing changed: the display set stays at its generation.
    KeepCurrent,
    /// Only appended: the new size is judged against the budget without the
    /// old reservation and, when accepted, the display set is rebuilt.
    ApplyAppend,
}

/// Decides the reload step for a comparison result.
pub fn reload_step(verdict: SnapshotChange) -> (step: ReloadStep)
    ensures
        step == (match verdict {
            SnapshotChange::Unchanged => ReloadStep::KeepCurrent,
            SnapshotChange::Appended => ReloadStep::ApplyAppend,
            SnapshotChange::Shrunk => ReloadStep::Invalidate(ChangeKind::Shrunk),
            SnapshotChange::Replaced => ReloadStep::Invalidate(ChangeKind::Replaced),
            SnapshotChange::Deleted => ReloadStep::Invalidate(ChangeKind::Deleted),
        }),
{
    match verdict {
        SnapshotChange::Unchanged => ReloadStep::KeepCurrent,
        SnapshotChange::Appended => ReloadStep::ApplyAppend,
        SnapshotChange::Shrunk => ReloadStep::Invalidate(ChangeKind::Shrunk),
        SnapshotChange::Replaced => ReloadStep::Invalidate(ChangeKind::Replaced),
        SnapshotChange::Deleted => ReloadStep::Invalidate(ChangeKind::Deleted),
    }
}

/// What a restore of a released source does after comparing the file with
/// the snapshot it was built from.
#[derive(Debug, Clone, Copy, PartialEq, Eq, Structural)]
pub enum RestoreStep {
    /// The file is unchanged: the index is built again from it.
    Restore,
    /// Anything else, an append included (restoring must not take in new
    /// content past the size limits): the index is invalidated and the
    /// change reported.
    Invalidate(ChangeKind),
}

/// Decides the restore step for a comparison result.
pub fn restore_step(verdict: SnapshotChange) -> (step: RestoreStep)
    ensures
        step == (match verdict {
            SnapshotChange::Unchanged => RestoreStep::Restore,
            SnapshotChange::Shrunk => RestoreStep::Invalidate(ChangeKind::Shrunk),
            SnapshotChange::Deleted => RestoreStep::Invalidate(ChangeKind::Deleted),
            _ => RestoreStep::Invalidate(ChangeKind::Replaced),
        }),
{
    match verdict {
        SnapshotChange::Unchanged => RestoreStep::Restore,
        _ => RestoreStep::Invalidate(change_kind_from_verdict_for_restore(verdict)),
    }
}

/// How reopening or reading a file for a reload or a restore failed.
#[derive(Debug, Clone, Copy, PartialEq, Eq, Structural)]
pub enum LoadFailure {
    /// The file changed while it was read (a deleted file counts as one).
    ChangedDuringLoad(SnapshotChange),
    /// The file is open elsewhere without sharing.
    SharingViolation,
    /// Any other read, decoding or memory failure.
    Other,
}

/// How a failed reload or restore is reported.
#[derive(Debug, Clone, Copy, PartialEq, Eq, Structural)]
pub enum ReloadFailure {
    /// The index is invalidated and the change reported.
    Changed(ChangeKind),
    /// The display stays as it was; the reload can be tried again.
    SharingViolation,
    /// The display stays as it was and the source is marked failed.
    Failed,
}

/// Decides how a failed reload or restore is reported: a change found while
/// reading wins, then a sharing violation; anything else is a failure.
pub fn reload_failure(failure: LoadFailure) -> (report: ReloadFailure)
    ensures
        report == (match failure {
            LoadFailure::ChangedDuringLoad(verdict) => ReloadFailure::Changed(match verdict {
                SnapshotChange::Shrunk => ChangeKind::Shrunk,
                SnapshotChange::Deleted => ChangeKind::Deleted,
                _ => ChangeKind::Replaced,
            }),
            LoadFailure::SharingViolation => ReloadFailure::SharingViolation,
            LoadFailure::Other => ReloadFailure::Failed,
        }),
{
    match failure {
        LoadFailure::ChangedDuringLoad(verdict) => ReloadFailure::Changed(change_kind_from_verdict(verdict)),
        LoadFailure::SharingViolation => ReloadFailure::SharingViolation,
        LoadFailure::Other => ReloadFailure::Failed,
    }
}

} // verus!

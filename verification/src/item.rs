//! The items a display set holds, the logical items waiting to be indexed,
//! and the bookkeeping of how much memory the index and the item list need
//! before they grow.

use vstd::prelude::*;

use vstd::string::StringSliceAdditionalSpecFns;

use crate::capacity::vec_capacity;
use crate::line_index::{pushed_entry, IndexedText, INDEX_BYTES_PER_ENTRY};

verus! {

/// Stable identifier of an item: the source it belongs to and its sequence
/// number within that source. The pair does not change when the display
/// order does.
#[derive(Debug, Clone, Copy, PartialEq, Eq, Hash, PartialOrd, Ord, Structural)]
pub struct ItemId {
    pub source_id: u32,
    pub seq: u64,
}

/// One item of a display set: its identifier and the index of its entry in
/// the line index of its source.
#[derive(Debug, Clone, Copy, PartialEq, Eq, Structural)]
pub struct Item {
    pub id: ItemId,
    pub entry_index: usize,
}

/// Bytes reserved for one resident logical item: 24 for the index entry, 8
/// for its line number and 24 for the [`Item`].
pub const RESIDENT_BYTES_PER_ITEM: usize = 56;

/// Bytes reserved per [`Item`] of the item list.
pub const ITEM_BYTES: usize = 24;

/// Provenance of a source in a display set: its identifier and the label
/// shown to the user (a file name, never an absolute path).
#[derive(Debug, Clone, PartialEq, Eq)]
pub struct SourceInfo {
    pub source_id: u32,
    pub label: String,
}

/// One logical item (continuation lines already joined) before it receives
/// an identifier: its raw byte range in the file, its comparison key, its
/// source line number, its continuation count and whether it is an
/// unconfirmed trailing line.
#[derive(Debug, Clone, Copy, PartialEq, Eq, Structural)]
pub struct PendingItem {
    pub raw_offset: u64,
    pub raw_byte_len: u32,
    pub comparison_key_millis: Option<i64>,
    pub source_line_number: u64,
    pub continuation_count: u16,
    pub unconfirmed: bool,
}

impl PendingItem {
    /// A pending item for a single physical line: offset 0, the text's byte
    /// length (capped at `u32::MAX`), no timestamp, no continuation lines,
    /// confirmed.
    pub fn simple(line_number: u64, text: &str) -> (item: Self)
        ensures
            item.raw_offset == 0,
            item.raw_byte_len as int == (if text.spec_bytes().len() as usize > u32::MAX { u32::MAX as int } else { text.spec_bytes().len() as usize as int }),
            item.comparison_key_millis is None,
            item.source_line_number == line_number,
            item.continuation_count == 0,
            !item.unconfirmed,
    {
        let len = text.len();
        let raw_byte_len: u32 = if len > 0xffff_ffffusize { 0xffff_ffffu32 } else { len as u32 };
        PendingItem {
            raw_offset: 0,
            raw_byte_len,
            comparison_key_millis: None,
            source_line_number: line_number,
            continuation_count: 0,
            unconfirmed: false,
        }
    }
}

/// A refused memory reservation: how much was asked for and the budget.
#[derive(Debug, Clone, Copy, PartialEq, Eq, Structural)]
pub struct ReservationRejected {
    pub requested_bytes: usize,
    pub budget_bytes: usize,
}

/// The index entry recorded for a pending item.
pub open spec fn pending_entry(p: PendingItem) -> crate::line_index::LineIndexEntry {
    pushed_entry(p.raw_offset, p.raw_byte_len, p.comparison_key_millis, p.unconfirmed, p.continuation_count)
}

/// The items created for `pending`, numbered from `start_seq` and pointing at
/// index entries from `first_entry` on.
pub open spec fn numbered_items(source_id: u32, start_seq: u64, first_entry: int, count: nat) -> Seq<Item> {
    Seq::new(
        count,
        |i: int| Item { id: ItemId { source_id, seq: (start_seq + i) as u64 }, entry_index: (first_entry + i) as usize },
    )
}

/// Appends `pending` to the index `text` and the matching items to `items`,
/// numbering them from `start_seq` on.
pub fn append_pending_items(
    source_id: u32,
    start_seq: u64,
    pending: &[PendingItem],
    text: &mut IndexedText,
    items: &mut Vec<Item>,
)
    requires
        start_seq + pending@.len() <= u64::MAX,
        old(text).spec_entries().len() + pending@.len() <= usize::MAX,
    ensures
        final(text).spec_entries() == old(text).spec_entries() + pending@.map_values(|p: PendingItem| pending_entry(p)),
        final(text).spec_line_numbers() == old(text).spec_line_numbers() + pending@.map_values(|p: PendingItem| p.source_line_number),
        final(items)@ == old(items)@ + numbered_items(source_id, start_seq, old(text).spec_entries().len() as int, pending@.len()),
        old(text).wf() ==> final(text).wf(),
{
    let ghost first_entry = text.spec_entries().len() as int;
    let ghost entries0 = text.spec_entries();
    let ghost numbers0 = text.spec_line_numbers();
    let ghost items0 = items@;
    let mut offset: usize = 0;
    while offset < pending.len()
        invariant
            offset <= pending@.len(),
            start_seq + pending@.len() <= u64::MAX,
            first_entry + pending@.len() <= usize::MAX,
            first_entry == entries0.len(),
            text.spec_entries() == entries0 + pending@.subrange(0, offset as int).map_values(|p: PendingItem| pending_entry(p)),
            text.spec_line_numbers() == numbers0 + pending@.subrange(0, offset as int).map_values(|p: PendingItem| p.source_line_number),
            items@ == items0 + numbered_items(source_id, start_seq, first_entry, offset as nat),
            entries0.len() == numbers0.len() ==> text.wf(),
        decreases pending@.len() - offset,
    {
        let pending_item = pending[offset];
        let entry_index = text.push_entry(
            pending_item.raw_offset,
            pending_item.raw_byte_len,
            pending_item.comparison_key_millis,
            pending_item.unconfirmed,
            pending_item.continuation_count,
            pending_item.source_line_number,
        );
        items.push(Item { id: ItemId { source_id, seq: start_seq + offset as u64 }, entry_index });
        proof {
            let s = pending@.subrange(0, offset as int);
            let s1 = pending@.subrange(0, offset + 1);
            assert(s1 == s.push(pending_item));
            assert(s1.map_values(|p: PendingItem| pending_entry(p)) == s.map_values(|p: PendingItem| pending_entry(p)).push(pending_entry(pending_item)));
            assert(s1.map_values(|p: PendingItem| p.source_line_number) == s.map_values(|p: PendingItem| p.source_line_number).push(pending_item.source_line_number));
            assert(numbered_items(source_id, start_seq, first_entry, (offset + 1) as nat) == numbered_items(source_id, start_seq, first_entry, offset as nat).push(
                Item { id: ItemId { source_id, seq: (start_seq + offset) as u64 }, entry_index: (first_entry + offset) as usize }));
        }
        offset = offset + 1;
    }
    proof {
        assert(pending@.subrange(0, pending@.len() as int) == pending@);
    }
}

/// How much of a batch of `additional` new entries the index and the item
/// list cannot take without growing: the part of the batch beyond each one's
/// spare capacity. Only that part needs memory reserved, since appending into
/// capacity allocated earlier allocates nothing new.
#[derive(Debug, Clone, Copy, PartialEq, Eq, Structural)]
pub struct GrowthPlan {
    pub index_uncovered: usize,
    pub items_uncovered: usize,
}

impl GrowthPlan {
    /// Bytes to reserve for the index part (32 per entry, saturating).
    pub fn index_bytes(&self) -> (bytes: usize)
        ensures
            bytes == saturating_product(self.index_uncovered, INDEX_BYTES_PER_ENTRY),
    {
        crate::line_index::index_growth_bytes(self.index_uncovered)
    }

    /// Bytes to reserve for the item list part (24 per item, saturating).
    pub fn items_bytes(&self) -> (bytes: usize)
        ensures
            bytes == saturating_product(self.items_uncovered, ITEM_BYTES),
    {
        items_growth_bytes(self.items_uncovered)
    }
}

/// `a * b`, saturated at `usize::MAX`.
pub open spec fn saturating_product(a: usize, b: usize) -> usize {
    if a * b > usize::MAX { usize::MAX } else { (a * b) as usize }
}

/// Bytes to reserve before the item list grows by `additional_items` items
/// (24 per item, saturating).
pub fn items_growth_bytes(additional_items: usize) -> (bytes: usize)
    ensures
        bytes == saturating_product(additional_items, ITEM_BYTES),
{
    match additional_items.checked_mul(ITEM_BYTES) {
        Some(bytes) => bytes,
        None => usize::MAX,
    }
}

/// The plan for a batch of `additional_entries` when the index has room for
/// `index_spare` more entries and the item list for `items_spare` more items:
/// the part of the batch beyond each one's room (none when it fits).
pub fn plan_growth(additional_entries: usize, index_spare: usize, items_spare: usize) -> (plan: GrowthPlan)
    ensures
        plan.index_uncovered == (if additional_entries > index_spare { additional_entries - index_spare } else { 0 }),
        plan.items_uncovered == (if additional_entries > items_spare { additional_entries - items_spare } else { 0 }),
{
    GrowthPlan {
        index_uncovered: additional_entries.saturating_sub(index_spare),
        items_uncovered: additional_entries.saturating_sub(items_spare),
    }
}

/// Splits a batch of `additional_entries` into the parts that the spare
/// capacity of `text` and of `items` do not cover (see [`plan_growth`]; the
/// spare capacities are what the allocator gave, so only bounds are stated
/// here).
pub fn growth_plan(additional_entries: usize, text: &IndexedText, items: &Vec<Item>) -> (plan: GrowthPlan)
    ensures
        plan.index_uncovered <= additional_entries,
        plan.items_uncovered <= additional_entries,
        (text.spec_entries().len() + (additional_entries - plan.index_uncovered)) * vstd::layout::size_of::<
            crate::line_index::LineIndexEntry,
        >() <= isize::MAX,
        (items@.len() + (additional_entries - plan.items_uncovered)) * vstd::layout::size_of::<Item>() <= isize::MAX,
{
    let index_spare = text.spare_capacity();
    let items_capacity = vec_capacity(items);
    let items_spare = items_capacity - items.len();
    let plan = plan_growth(additional_entries, index_spare, items_spare);
    proof {
        let es = vstd::layout::size_of::<crate::line_index::LineIndexEntry>();
        let is = vstd::layout::size_of::<Item>();
        let tl = text.spec_entries().len() as int;
        let il = items@.len() as int;
        let index_covered = additional_entries - plan.index_uncovered;
        let items_covered = additional_entries - plan.items_uncovered;
        assert(index_covered <= index_spare);
        assert(items_covered <= items_spare);
        assert((tl + index_covered) * es <= (tl + index_spare) * es) by (nonlinear_arith)
            requires
                index_covered <= index_spare,
                es >= 0,
        ;
        assert((il + items_covered) * is <= items_capacity * is) by (nonlinear_arith)
            requires
                il + items_covered <= items_capacity,
                is >= 0,
        ;
    }
    plan
}

/// Appends a batch of pending items once the memory for `plan` has been asked
/// for: when the reservation was refused nothing changes and the refusal is
/// returned; otherwise the batch is appended (see [`append_pending_items`])
/// and the bytes of the plan, which the caller then records as allocated, are
/// returned.
pub fn build_items_from_pending_into(
    source_id: u32,
    start_seq: u64,
    pending_items: &[PendingItem],
    text: &mut IndexedText,
    items: &mut Vec<Item>,
    plan: GrowthPlan,
    reservation: Result<(), ReservationRejected>,
) -> (result: Result<usize, ReservationRejected>)
    requires
        start_seq + pending_items@.len() <= u64::MAX,
        old(text).spec_entries().len() + pending_items@.len() <= usize::MAX,
        plan.index_uncovered * INDEX_BYTES_PER_ENTRY + plan.items_uncovered * ITEM_BYTES <= usize::MAX,
    ensures
        match reservation {
            Err(rejected) => {
                &&& result == Err::<usize, ReservationRejected>(rejected)
                &&& final(text).spec_entries() == old(text).spec_entries()
                &&& final(text).spec_line_numbers() == old(text).spec_line_numbers()
                &&& final(items)@ == old(items)@
            },
            Ok(_) => {
                &&& result == Ok::<usize, ReservationRejected>(
                    (plan.index_uncovered * INDEX_BYTES_PER_ENTRY + plan.items_uncovered * ITEM_BYTES) as usize,
                )
                &&& final(text).spec_entries() == old(text).spec_entries() + pending_items@.map_values(
                    |p: PendingItem| pending_entry(p),
                )
                &&& final(text).spec_line_numbers() == old(text).spec_line_numbers()
                    + pending_items@.map_values(|p: PendingItem| p.source_line_number)
                &&& final(items)@ == old(items)@ + numbered_items(
                    source_id,
                    start_seq,
                    old(text).spec_entries().len() as int,
                    pending_items@.len(),
                )
            },
        },
        old(text).wf() ==> final(text).wf(),
{
    match reservation {
        Err(rejected) => Err(rejected),
        Ok(()) => {
            append_pending_items(source_id, start_seq, pending_items, text, items);
            Ok(plan.index_uncovered * INDEX_BYTES_PER_ENTRY + plan.items_uncovered * ITEM_BYTES)
        },
    }
}

/// Builds the items of `pending_items` for source `source_id`, numbered from
/// 0, and appends their entries to `text`. The memory for them is reserved
/// by the caller beforehand, so this always succeeds.
pub fn build_items_from_pending(
    source_id: u32,
    pending_items: &[PendingItem],
    text: &mut IndexedText,
) -> (result: Result<Vec<Item>, ReservationRejected>)
    requires
        old(text).spec_entries().len() + pending_items@.len() <= usize::MAX,
    ensures
        result matches Ok(items) && items@ == numbered_items(
            source_id,
            0,
            old(text).spec_entries().len() as int,
            pending_items@.len(),
        ),
        final(text).spec_entries() == old(text).spec_entries() + pending_items@.map_values(
            |p: PendingItem| pending_entry(p),
        ),
        final(text).spec_line_numbers() == old(text).spec_line_numbers() + pending_items@.map_values(
            |p: PendingItem| p.source_line_number,
        ),
        old(text).wf() ==> final(text).wf(),
{
    let mut items: Vec<Item> = Vec::new();
    append_pending_items(source_id, 0, pending_items, text, &mut items);
    proof {
        assert(items@ == Seq::<Item>::empty() + numbered_items(source_id, 0, old(text).spec_entries().len() as int, pending_items@.len()));
    }
    Ok(items)
}

/// How far the target capacity should reach. While a file is still being
/// read the total is only projected; once it is known it is exact.
#[derive(Debug, Clone, Copy, PartialEq, Eq, Structural)]
pub enum CapacityEstimate {
    /// Projected from what was read so far; growing to it uses a floor of
    /// 1.25 times the current capacity, so that a slightly low projection
    /// does not reallocate again and again.
    Projected(usize),
    /// The exact count; no floor, so that no unused capacity stays resident.
    Exact(usize),
}

impl CapacityEstimate {
    pub open spec fn estimated(self) -> usize {
        match self {
            CapacityEstimate::Projected(estimated) => estimated,
            CapacityEstimate::Exact(estimated) => estimated,
        }
    }

    /// The capacity to grow to from `current_capacity`, or `None` when no
    /// growth is needed.
    pub open spec fn target_spec(self, current_capacity: usize) -> Option<usize> {
        if self.estimated() <= current_capacity {
            None
        } else {
            match self {
                CapacityEstimate::Projected(estimated) => {
                    let floor = saturating_sum(current_capacity, current_capacity / 4);
                    Some(if estimated >= floor { estimated } else { floor })
                },
                CapacityEstimate::Exact(estimated) => Some(estimated),
            }
        }
    }

    /// The capacity to grow to from `current_capacity`: `None` when the
    /// estimate does not exceed it (nothing is reserved or allocated then);
    /// otherwise the estimate, raised for a projection to at least 1.25
    /// times the current capacity.
    pub fn target(self, current_capacity: usize) -> (target: Option<usize>)
        ensures
            target == self.target_spec(current_capacity),
    {
        let estimated = match self {
            CapacityEstimate::Projected(estimated) => estimated,
            CapacityEstimate::Exact(estimated) => estimated,
        };
        if estimated <= current_capacity {
            return None;
        }
        match self {
            CapacityEstimate::Projected(_) => {
                let floor = current_capacity.saturating_add(current_capacity / 4);
                Some(if estimated >= floor { estimated } else { floor })
            },
            CapacityEstimate::Exact(_) => Some(estimated),
        }
    }
}

/// Growing never shrinks and always covers the estimate: a target exists
/// exactly when the estimate exceeds the current capacity, and then it
/// exceeds the capacity and reaches the estimate; an exact estimate is met
/// exactly, and a projection is raised to at least 1.25 times the capacity
/// (saturating).
pub proof fn lemma_target_never_shrinks(estimate: CapacityEstimate, current_capacity: usize)
    ensures
        (estimate.target_spec(current_capacity) is Some) <==> estimate.estimated() > current_capacity,
        estimate.target_spec(current_capacity) matches Some(target) ==> {
            &&& target > current_capacity
            &&& target >= estimate.estimated()
            &&& (estimate is Exact ==> target == estimate.estimated())
            &&& (estimate is Projected ==> target >= saturating_sum(current_capacity, current_capacity / 4))
        },
{
}

/// `a + b`, saturated at `usize::MAX`.
pub open spec fn saturating_sum(a: usize, b: usize) -> usize {
    if a + b > usize::MAX { usize::MAX } else { (a + b) as usize }
}

/// What to ask for before growing a container of `current_capacity` towards
/// `estimate`: the target capacity, the number of additional elements, and
/// the bytes to reserve for them at `bytes_per_element` each (saturating).
#[derive(Debug, Clone, Copy, PartialEq, Eq, Structural)]
pub struct GrowthRequest {
    pub target: usize,
    pub additional: usize,
    pub reserve_bytes: usize,
}

/// The growth request for a container of `current_capacity`, or `None` when
/// the estimate needs no growth.
pub fn growth_request(
    estimate: CapacityEstimate,
    current_capacity: usize,
    bytes_per_element: usize,
) -> (request: Option<GrowthRequest>)
    ensures
        match estimate.target_spec(current_capacity) {
            None => request is None,
            Some(target) => request == Some(
                GrowthRequest {
                    target,
                    additional: (target - current_capacity) as usize,
                    reserve_bytes: saturating_product((target - current_capacity) as usize, bytes_per_element),
                },
            ),
        },
{
    match estimate.target(current_capacity) {
        None => None,
        Some(target) => {
            let additional = target - current_capacity;
            let reserve_bytes = match additional.checked_mul(bytes_per_element) {
                Some(bytes) => bytes,
                None => usize::MAX,
            };
            Some(GrowthRequest { target, additional, reserve_bytes })
        },
    }
}

} // verus!

//! The display set and its range contract.
//!
//! 1. A range request holds only `start`, an index into the display set,
//!    never a physical offset into a file.
//! 2. Every returned item carries its stable identifier and the label of the
//!    source it came from.
//! 3. Repeating a request returns the same items in the same order, since a
//!    display set never reorders its items once built.
//! 4. Rebuilding a display set advances its generation; a request made for
//!    another generation is refused with [`RangeFetchError::GenerationMismatch`].
//!
//! The display set holds no text: a range is answered at the level of the
//! index ([`IndexRangeResponse`]), and the text is read on demand by the layer
//! that owns the files.

use std::collections::HashMap;

use vstd::prelude::*;

use crate::item::{
    build_items_from_pending_into, numbered_items, pending_entry, GrowthPlan, Item, ItemId, PendingItem,
    ReservationRejected, SourceInfo, ITEM_BYTES,
};
use crate::line_index::{
    lemma_pushed_entry_round_trips, pushed_entry, IndexedText, LineIndexEntry, FLAG_UNCONFIRMED,
    INDEX_BYTES_PER_ENTRY,
};
use crate::text::{decimal, push_decimal};

verus! {

broadcast use vstd::std_specs::hash::group_hash_axioms;

/// Provisional cap on the number of items in one range response.
pub const MAX_ITEMS_PER_RESPONSE: u32 = 512;

/// Provisional cap on the raw bytes of the items in one range response
/// (2 MiB, judged on the index's raw byte lengths).
pub const MAX_RESPONSE_RAW_BYTES: usize = 2 * 1024 * 1024;

/// A range request on a display set.
#[derive(Debug, Clone, Copy, PartialEq, Eq, Structural)]
pub struct RangeRequest {
    /// Index of the first item wanted (0-based) within the display set.
    pub start: u64,
    pub max_items: u32,
    /// The generation the caller last observed.
    pub expected_generation: u64,
}

/// One item of a range response, with its text.
#[derive(Debug, Clone, PartialEq, Eq)]
pub struct ItemDto {
    pub item_id: ItemId,
    /// Display form of the timestamp, `None` when none could be parsed.
    pub timestamp_display: Option<String>,
    /// The raw text of the item (continuation lines keep their inner newlines).
    pub raw_text: String,
    /// Label of the source the item came from.
    pub source_label: String,
    pub source_line_number: u64,
    /// Whether the item is not an unconfirmed trailing line.
    pub confirmed: bool,
    /// Number of continuation lines joined into the item.
    pub continuation_count: u32,
    /// Whether the item is raw data without a parsed timestamp.
    pub raw_display: bool,
}

/// A range response with texts.
#[derive(Debug, Clone, PartialEq, Eq)]
pub struct RangeResponse {
    pub generation: u64,
    pub total_items: u64,
    /// Index of the first returned item (the request's `start`, clamped to
    /// `total_items`).
    pub start: u64,
    pub items: Vec<ItemDto>,
    /// Whether a cap cut the response short of `total_items`.
    pub truncated: bool,
}

/// Why a range request failed.
#[derive(Debug, Clone, Copy, PartialEq, Eq, Structural)]
pub enum RangeFetchError {
    /// The requested generation is not the current one.
    GenerationMismatch { expected: u64, current: u64 },
}

impl RangeFetchError {
    pub open spec fn message_view(self) -> Seq<char> {
        match self {
            RangeFetchError::GenerationMismatch { expected, current } => "表示集合の世代が一致しません（要求 "@
                + decimal(expected as nat) + "、現在 "@ + decimal(current as nat)
                + "）。表示集合が再構築されています。最新の世代で範囲を取得し直してください。"@,
        }
    }

    /// The user-facing message (in Japanese).
    pub fn message(&self) -> (text: String)
        ensures
            text@ == self.message_view(),
    {
        let mut text = String::new();
        match self {
            RangeFetchError::GenerationMismatch { expected, current } => {
                text.append("表示集合の世代が一致しません（要求 ");
                push_decimal(&mut text, *expected);
                text.append("、現在 ");
                push_decimal(&mut text, *current);
                text.append("）。表示集合が再構築されています。最新の世代で範囲を取得し直してください。");
            },
        }
        text
    }
}

/// A range response at the level of the index: no text yet, only what is
/// needed to read it and the display metadata the index already knows.
#[derive(Debug, Clone, PartialEq, Eq)]
pub struct IndexRangeResponse {
    pub generation: u64,
    pub total_items: u64,
    pub start: u64,
    pub items: Vec<IndexItemRef>,
    pub truncated: bool,
}

/// One item of an index-level range response.
#[derive(Debug, Clone, PartialEq, Eq)]
pub struct IndexItemRef {
    pub item_id: ItemId,
    pub source_id: u32,
    pub source_label: String,
    pub source_line_number: u64,
    pub confirmed: bool,
    pub continuation_count: u32,
    pub has_timestamp: bool,
    /// Raw byte offset of the item in its source file.
    pub raw_offset: u64,
    /// Raw byte length of the item.
    pub raw_byte_len: u32,
}

/// A display set: an ordered list of items, the provenance of each source,
/// and the line index of each source. How the order was made (file order or
/// a merge) does not matter to it.
#[derive(Debug)]
pub struct DisplaySet {
    generation: u64,
    items: Vec<Item>,
    sources: HashMap<u32, SourceInfo>,
    texts: HashMap<u32, IndexedText>,
}

/// The provenance map built from a list of sources: each source under its
/// identifier, a later source replacing an earlier one with the same
/// identifier.
pub open spec fn source_map(sources: Seq<SourceInfo>) -> Map<u32, SourceInfo>
    decreases sources.len(),
{
    if sources.len() == 0 {
        Map::empty()
    } else {
        source_map(sources.drop_last()).insert(sources.last().source_id, sources.last())
    }
}

impl DisplaySet {
    pub closed spec fn spec_generation(&self) -> u64 {
        self.generation
    }

    pub closed spec fn spec_items(&self) -> Seq<Item> {
        self.items@
    }

    pub closed spec fn spec_sources(&self) -> Map<u32, SourceInfo> {
        self.sources@
    }

    pub closed spec fn spec_texts(&self) -> Map<u32, IndexedText> {
        self.texts@
    }

    /// The index entry an item points at, if its source and entry exist.
    pub open spec fn entry_of(&self, item: Item) -> Option<LineIndexEntry> {
        if self.spec_texts().contains_key(item.id.source_id) && item.entry_index
            < self.spec_texts()[item.id.source_id].spec_entries().len() {
            Some(self.spec_texts()[item.id.source_id].spec_entries()[item.entry_index as int])
        } else {
            None
        }
    }

    /// The raw byte length counted for an item against the byte cap (0 when
    /// its entry is missing).
    pub open spec fn item_raw_bytes(&self, item: Item) -> int {
        match self.entry_of(item) {
            Some(entry) => entry.byte_len as int,
            None => 0,
        }
    }

    /// Whether `r` is what an item converts to: its identifier and source,
    /// its source's label (empty for an unknown source), and the line number
    /// and metadata of its entry (0, confirmed, no continuation, no timestamp
    /// and an empty range when the entry is missing).
    pub open spec fn is_index_ref_of(&self, item: Item, r: IndexItemRef) -> bool {
        let source_id = item.id.source_id;
        &&& r.item_id == item.id
        &&& r.source_id == source_id
        &&& r.source_label@ == (if self.spec_sources().contains_key(source_id) {
            self.spec_sources()[source_id].label@
        } else {
            Seq::<char>::empty()
        })
        &&& r.source_line_number == (if self.spec_texts().contains_key(source_id) && item.entry_index
            < self.spec_texts()[source_id].spec_line_numbers().len() {
            self.spec_texts()[source_id].spec_line_numbers()[item.entry_index as int]
        } else {
            0
        })
        &&& match self.entry_of(item) {
            Some(entry) => {
                &&& r.confirmed == !entry.spec_is_unconfirmed()
                &&& r.continuation_count == entry.continuation_count as u32
                &&& r.has_timestamp == entry.spec_has_timestamp()
                &&& r.raw_offset == entry.offset
                &&& r.raw_byte_len == entry.byte_len
            },
            None => {
                &&& r.confirmed
                &&& r.continuation_count == 0
                &&& !r.has_timestamp
                &&& r.raw_offset == 0
                &&& r.raw_byte_len == 0
            },
        }
    }

    /// Creates a display set; its generation starts at 1.
    pub fn new(sources: Vec<SourceInfo>, items: Vec<Item>, texts: HashMap<u32, IndexedText>) -> (set: Self)
        ensures
            set.spec_generation() == 1,
            set.spec_items() == items@,
            set.spec_sources() == source_map(sources@),
            set.spec_texts() == texts@,
    {
        Self::at_generation(1, sources, items, texts)
    }

    /// Builds the next display set, one generation later; `self` (the old
    /// generation) is not changed.
    pub fn rebuild(&self, sources: Vec<SourceInfo>, items: Vec<Item>, texts: HashMap<u32, IndexedText>) -> (set: Self)
        requires
            self.spec_generation() < u64::MAX,
        ensures
            set.spec_generation() == self.spec_generation() + 1,
            set.spec_items() == items@,
            set.spec_sources() == source_map(sources@),
            set.spec_texts() == texts@,
    {
        Self::at_generation(self.generation + 1, sources, items, texts)
    }

    fn at_generation(
        generation: u64,
        sources: Vec<SourceInfo>,
        items: Vec<Item>,
        texts: HashMap<u32, IndexedText>,
    ) -> (set: Self)
        ensures
            set.spec_generation() == generation,
            set.spec_items() == items@,
            set.spec_sources() == source_map(sources@),
            set.spec_texts() == texts@,
    {
        let ghost all = sources@;
        let mut by_id: HashMap<u32, SourceInfo> = HashMap::new();
        for source in it: sources
            invariant
                it.seq() == all,
                by_id@ == source_map(all.take(it.index() as int)),
        {
            proof {
                assert(all.take(it.index() + 1).drop_last() == all.take(it.index() as int));
            }
            by_id.insert(source.source_id, source);
        }
        proof {
            assert(all.take(all.len() as int) == all);
        }
        DisplaySet { generation, items, sources: by_id, texts }
    }

    /// The current generation.
    pub fn generation(&self) -> (generation: u64)
        ensures
            generation == self.spec_generation(),
    {
        self.generation
    }

    /// The number of items.
    pub fn total_items(&self) -> (total: u64)
        ensures
            total == self.spec_items().len(),
    {
        self.items.len() as u64
    }

    /// The line index of source `source_id`, if the display set has one.
    pub fn text(&self, source_id: u32) -> (text: Option<&IndexedText>)
        ensures
            match text {
                Some(t) => self.spec_texts().contains_key(source_id) && *t == self.spec_texts()[source_id],
                None => !self.spec_texts().contains_key(source_id),
            },
    {
        self.texts.get(&source_id)
    }

    /// Grows the display set in place while its source `source_id` is still
    /// being read: the batch `pending` is appended to that source's index and
    /// its items to the item list, numbered from `start_seq` on (see
    /// [`build_items_from_pending_into`], which also says what a refused
    /// `reservation` does). Unlike [`Self::rebuild`] the generation stays, so
    /// requests made before the growth remain valid. `None` when the display
    /// set has no index for `source_id`; nothing changes then.
    pub fn grow_source(
        &mut self,
        source_id: u32,
        start_seq: u64,
        pending: &[PendingItem],
        plan: GrowthPlan,
        reservation: Result<(), ReservationRejected>,
    ) -> (result: Option<Result<usize, ReservationRejected>>)
        requires
            start_seq + pending@.len() <= u64::MAX,
            old(self).spec_texts().contains_key(source_id) ==> old(self).spec_texts()[source_id].spec_entries().len()
                + pending@.len() <= usize::MAX,
            plan.index_uncovered * INDEX_BYTES_PER_ENTRY + plan.items_uncovered * ITEM_BYTES <= usize::MAX,
        ensures
            final(self).spec_generation() == old(self).spec_generation(),
            final(self).spec_sources() == old(self).spec_sources(),
            final(self).spec_texts().dom() == old(self).spec_texts().dom(),
            !old(self).spec_texts().contains_key(source_id) ==> {
                &&& result is None
                &&& final(self).spec_items() == old(self).spec_items()
                &&& final(self).spec_texts() == old(self).spec_texts()
            },
            old(self).spec_texts().contains_key(source_id) ==> {
                let text = old(self).spec_texts()[source_id];
                let grown = final(self).spec_texts()[source_id];
                &&& forall|other: u32| other != source_id && #[trigger] old(self).spec_texts().contains_key(other)
                    ==> final(self).spec_texts()[other] == old(self).spec_texts()[other]
                &&& match reservation {
                    Err(rejected) => {
                        &&& result == Some(Err::<usize, ReservationRejected>(rejected))
                        &&& final(self).spec_items() == old(self).spec_items()
                        &&& grown.spec_entries() == text.spec_entries()
                        &&& grown.spec_line_numbers() == text.spec_line_numbers()
                    },
                    Ok(_) => {
                        &&& result == Some(Ok::<usize, ReservationRejected>(
                            (plan.index_uncovered * INDEX_BYTES_PER_ENTRY + plan.items_uncovered * ITEM_BYTES) as usize,
                        ))
                        &&& final(self).spec_items() == old(self).spec_items() + numbered_items(
                            source_id,
                            start_seq,
                            text.spec_entries().len() as int,
                            pending@.len(),
                        )
                        &&& grown.spec_entries() == text.spec_entries() + pending@.map_values(
                            |p: PendingItem| pending_entry(p),
                        )
                        &&& grown.spec_line_numbers() == text.spec_line_numbers() + pending@.map_values(
                            |p: PendingItem| p.source_line_number,
                        )
                    },
                }
                &&& text.wf() ==> grown.wf()
            },
    {
        let removed = self.texts.remove(&source_id);
        match removed {
            None => {
                assert(self.texts@ =~= old(self).texts@);
                None
            },
            Some(mut text) => {
                let result = build_items_from_pending_into(
                    source_id,
                    start_seq,
                    pending,
                    &mut text,
                    &mut self.items,
                    plan,
                    reservation,
                );
                self.texts.insert(source_id, text);
                assert(self.texts@.dom() =~= old(self).texts@.dom());
                Some(result)
            },
        }
    }
}

/// How many of the candidate items (whose raw byte lengths are `sizes`) one
/// response returns, scanning from position `i` with `acc` bytes already
/// taken: an item is added unless at least one is already taken and it would
/// push the bytes past `cap`.
pub open spec fn fetched_count(sizes: Seq<int>, i: int, acc: int, cap: int) -> int
    decreases sizes.len() - i,
{
    if i >= sizes.len() {
        sizes.len() as int
    } else if i > 0 && acc + sizes[i] > cap {
        i
    } else {
        fetched_count(sizes, i + 1, acc + sizes[i], cap)
    }
}

/// The sum of the first `n` elements.
pub open spec fn prefix_sum(sizes: Seq<int>, n: int) -> int
    decreases n,
{
    if n <= 0 {
        0
    } else {
        prefix_sum(sizes, n - 1) + sizes[n - 1]
    }
}

impl DisplaySet {
    /// The raw byte lengths of the items a request considers: from `start`
    /// on, at most `limit` of them.
    pub open spec fn candidate_sizes(&self, start: int, limit: int) -> Seq<int> {
        let end = if start + limit < self.spec_items().len() { start + limit } else { self.spec_items().len() as int };
        Seq::new((end - start) as nat, |j: int| self.item_raw_bytes(self.spec_items()[start + j]))
    }

    /// The response to `request`, at the level of the index.
    pub open spec fn index_response_matches(&self, request: RangeRequest, response: IndexRangeResponse) -> bool {
        let total = self.spec_items().len();
        let start = if request.start < total { request.start as int } else { total as int };
        let limit = if request.max_items < MAX_ITEMS_PER_RESPONSE { request.max_items as int } else { MAX_ITEMS_PER_RESPONSE as int };
        let count = fetched_count(self.candidate_sizes(start, limit), 0, 0, MAX_RESPONSE_RAW_BYTES as int);
        &&& response.generation == self.spec_generation()
        &&& response.total_items == total
        &&& response.start == start
        &&& response.items@.len() == count
        &&& forall|j: int| 0 <= j < count ==> self.is_index_ref_of(self.spec_items()[start + j], #[trigger] response.items@[j])
        &&& response.truncated == (start + count < total)
    }

    /// Converts `item` to its index-level form. A missing source or entry
    /// does not panic: the label is empty and the metadata take their
    /// defaults.
    pub fn to_index_ref(&self, item: &Item) -> (r: IndexItemRef)
        ensures
            self.is_index_ref_of(*item, r),
    {
        let source_id = item.id.source_id;
        let source_label = match self.sources.get(&source_id) {
            Some(source) => source.label.clone(),
            None => String::new(),
        };
        let text = self.texts.get(&source_id);
        let source_line_number = match text {
            Some(text) => match text.source_line_number(item.entry_index) {
                Some(number) => number,
                None => 0,
            },
            None => 0,
        };
        let mut confirmed = true;
        let mut continuation_count: u32 = 0;
        let mut has_timestamp = false;
        let mut raw_offset: u64 = 0;
        let mut raw_byte_len: u32 = 0;
        match text {
            Some(text) => {
                let entries = text.entries();
                if item.entry_index < entries.len() {
                    let entry = &entries[item.entry_index];
                    confirmed = !entry.is_unconfirmed();
                    continuation_count = entry.continuation_count as u32;
                    has_timestamp = entry.has_timestamp();
                    let (offset, len) = entry.raw_range();
                    raw_offset = offset;
                    raw_byte_len = len;
                }
            },
            None => {},
        }
        IndexItemRef {
            item_id: item.id,
            source_id,
            source_label,
            source_line_number,
            confirmed,
            continuation_count,
            has_timestamp,
            raw_offset,
            raw_byte_len,
        }
    }

    /// The raw byte length of `item` (0 when its entry is missing).
    fn raw_bytes_of(&self, item: &Item) -> (bytes: u32)
        ensures
            bytes == self.item_raw_bytes(*item),
    {
        match self.texts.get(&item.id.source_id) {
            Some(text) => {
                let entries = text.entries();
                if item.entry_index < entries.len() {
                    entries[item.entry_index].byte_len
                } else {
                    0
                }
            },
            None => 0,
        }
    }

    /// Answers a range request at the level of the index (the four points of
    /// the range contract).
    ///
    /// The number of items is capped by the smaller of the request's
    /// `max_items` and [`MAX_ITEMS_PER_RESPONSE`]; items are added until one
    /// would take the raw bytes past [`MAX_RESPONSE_RAW_BYTES`], except that at
    /// least one item is always returned so that a caller can always make
    /// progress. `truncated` says whether the response stops short of the end.
    pub fn fetch_range_index(&self, request: RangeRequest) -> (result: Result<IndexRangeResponse, RangeFetchError>)
        ensures
            request.expected_generation != self.spec_generation() ==> result == Err::<IndexRangeResponse, RangeFetchError>(
                RangeFetchError::GenerationMismatch { expected: request.expected_generation, current: self.spec_generation() },
            ),
            request.expected_generation == self.spec_generation() ==> (result matches Ok(response)
                && self.index_response_matches(request, response)),
    {
        if request.expected_generation != self.generation {
            return Err(RangeFetchError::GenerationMismatch {
                expected: request.expected_generation,
                current: self.generation,
            });
        }
        let item_count = self.items.len();
        let total_items = item_count as u64;
        let start = if request.start <= total_items { request.start } else { total_items };
        let effective_max_items = if request.max_items <= MAX_ITEMS_PER_RESPONSE { request.max_items } else { MAX_ITEMS_PER_RESPONSE };
        let first = start as usize;
        let available = item_count - first;
        let take = if (effective_max_items as usize) < available { effective_max_items as usize } else { available };
        let ghost sizes = self.candidate_sizes(start as int, effective_max_items as int);
        let ghost cap = MAX_RESPONSE_RAW_BYTES as int;

        let mut items: Vec<IndexItemRef> = Vec::new();
        let mut raw_bytes_total: usize = 0;
        let mut i: usize = 0;
        while i < take
            invariant
                first + take <= item_count,
                item_count == self.items@.len(),
                cap == MAX_RESPONSE_RAW_BYTES as int,
                sizes.len() == take,
                forall|j: int| 0 <= j < take ==> sizes[j] == self.item_raw_bytes(self.items@[first + j]),
                i <= take,
                items@.len() == i,
                forall|j: int| 0 <= j < i ==> self.is_index_ref_of(self.items@[first + j], #[trigger] items@[j]),
                raw_bytes_total as int == (if prefix_sum(sizes, i as int) > usize::MAX { usize::MAX as int } else { prefix_sum(sizes, i as int) }),
                fetched_count(sizes, 0, 0, cap) == fetched_count(sizes, i as int, prefix_sum(sizes, i as int), cap),
            ensures
                fetched_count(sizes, 0, 0, cap) == i as int,
                items@.len() == i,
                forall|j: int| 0 <= j < i ==> self.is_index_ref_of(self.items@[first + j], #[trigger] items@[j]),
            decreases take - i,
        {
            assert(first + i < self.items@.len());
            let item = &self.items[first + i];
            let item_bytes = self.raw_bytes_of(item) as usize;
            proof {
                assert(sizes[i as int] == item_bytes);
                assert(prefix_sum(sizes, i + 1) == prefix_sum(sizes, i as int) + sizes[i as int]);
            }
            if i > 0 && raw_bytes_total.saturating_add(item_bytes) > MAX_RESPONSE_RAW_BYTES {
                proof {
                    assert(prefix_sum(sizes, i as int) + sizes[i as int] > cap);
                    assert(fetched_count(sizes, i as int, prefix_sum(sizes, i as int), cap) == i);
                }
                break;
            }
            proof {
                assert(!(i > 0 && prefix_sum(sizes, i as int) + sizes[i as int] > cap));
                assert(fetched_count(sizes, i as int, prefix_sum(sizes, i as int), cap) == fetched_count(
                    sizes,
                    i + 1,
                    prefix_sum(sizes, i as int) + sizes[i as int],
                    cap,
                ));
            }
            items.push(self.to_index_ref(item));
            raw_bytes_total = raw_bytes_total.saturating_add(item_bytes);
            i = i + 1;
        }
        let returned = items.len() as u64;
        let truncated = start + returned < total_items;
        Ok(IndexRangeResponse { generation: self.generation, total_items, start, items, truncated })
    }
}

proof fn lemma_fetched_count_from(sizes: Seq<int>, i: int, cap: int)
    requires
        0 <= i <= sizes.len(),
        i >= 2 ==> prefix_sum(sizes, i) <= cap,
    ensures
        i <= fetched_count(sizes, i, prefix_sum(sizes, i), cap) <= sizes.len(),
        ({
            let count = fetched_count(sizes, i, prefix_sum(sizes, i), cap);
            &&& (sizes.len() > 0 && i == 0 ==> count >= 1)
            &&& (count >= 2 ==> prefix_sum(sizes, count) <= cap)
            &&& (count < sizes.len() ==> count >= 1 && prefix_sum(sizes, count) + sizes[count] > cap)
        }),
    decreases sizes.len() - i,
{
    if i < sizes.len() {
        if i > 0 && prefix_sum(sizes, i) + sizes[i] > cap {
        } else {
            assert(prefix_sum(sizes, i + 1) == prefix_sum(sizes, i) + sizes[i]);
            lemma_fetched_count_from(sizes, i + 1, cap);
        }
    }
}

/// The caps of a range response: it never returns more items than were
/// considered, it returns at least one item when there is one (so a caller
/// always makes progress), the raw bytes of what it returns stay within the
/// byte cap unless a single item alone exceeds it, and it stops early only
/// when the next item would have crossed the byte cap.
pub proof fn lemma_response_respects_caps(sizes: Seq<int>, cap: int)
    ensures
        ({
            let count = fetched_count(sizes, 0, 0, cap);
            &&& 0 <= count <= sizes.len()
            &&& (sizes.len() > 0 ==> count >= 1)
            &&& (count >= 2 ==> prefix_sum(sizes, count) <= cap)
            &&& (count < sizes.len() ==> prefix_sum(sizes, count) + sizes[count] > cap)
        }),
{
    lemma_fetched_count_from(sizes, 0, cap);
}

/// Repeating a request on the same display set gives the same response:
/// any two responses that meet the contract of
/// [`DisplaySet::fetch_range_index`] for one request agree on the generation,
/// the total, the start, the truncation flag and, item by item, on the
/// identifiers, the labels and the metadata.
pub proof fn lemma_repeated_fetch_agrees(
    set: DisplaySet,
    request: RangeRequest,
    first: IndexRangeResponse,
    second: IndexRangeResponse,
)
    requires
        set.index_response_matches(request, first),
        set.index_response_matches(request, second),
    ensures
        first.generation == second.generation,
        first.total_items == second.total_items,
        first.start == second.start,
        first.truncated == second.truncated,
        first.items@.len() == second.items@.len(),
        forall|j: int| 0 <= j < first.items@.len() ==> {
            &&& (#[trigger] first.items@[j]).item_id == second.items@[j].item_id
            &&& first.items@[j].source_id == second.items@[j].source_id
            &&& first.items@[j].source_label@ == second.items@[j].source_label@
            &&& first.items@[j].source_line_number == second.items@[j].source_line_number
            &&& first.items@[j].confirmed == second.items@[j].confirmed
            &&& first.items@[j].continuation_count == second.items@[j].continuation_count
            &&& first.items@[j].has_timestamp == second.items@[j].has_timestamp
            &&& first.items@[j].raw_offset == second.items@[j].raw_offset
            &&& first.items@[j].raw_byte_len == second.items@[j].raw_byte_len
        },
{
    let total = set.spec_items().len();
    let start = if request.start < total { request.start as int } else { total as int };
    assert forall|j: int| 0 <= j < first.items@.len() implies {
        &&& (#[trigger] first.items@[j]).item_id == second.items@[j].item_id
        &&& first.items@[j].source_id == second.items@[j].source_id
        &&& first.items@[j].source_label@ == second.items@[j].source_label@
        &&& first.items@[j].source_line_number == second.items@[j].source_line_number
        &&& first.items@[j].confirmed == second.items@[j].confirmed
        &&& first.items@[j].continuation_count == second.items@[j].continuation_count
        &&& first.items@[j].has_timestamp == second.items@[j].has_timestamp
        &&& first.items@[j].raw_offset == second.items@[j].raw_offset
        &&& first.items@[j].raw_byte_len == second.items@[j].raw_byte_len
    } by {
        assert(set.is_index_ref_of(set.spec_items()[start + j], first.items@[j]));
        assert(set.is_index_ref_of(set.spec_items()[start + j], second.items@[j]));
    }
}

/// A rebuilt display set has a generation other than the one it replaced, so
/// (by the contract of [`DisplaySet::fetch_range_index`]) every request made
/// for the replaced generation is refused with a generation mismatch.
pub proof fn lemma_rebuild_refuses_stale_generation(old_set: DisplaySet, new_set: DisplaySet, request: RangeRequest)
    requires
        new_set.spec_generation() == old_set.spec_generation() + 1,
        request.expected_generation == old_set.spec_generation(),
    ensures
        request.expected_generation != new_set.spec_generation(),
{
}

/// A fetched item is reported confirmed exactly when its index entry does not
/// carry the unconfirmed mark, whatever its timestamp mark: an item pushed
/// with `unconfirmed` is reported with `confirmed == !unconfirmed`, and an
/// item whose entry is missing is reported confirmed.
pub proof fn lemma_fetch_reports_confirmation(
    set: DisplaySet,
    request: RangeRequest,
    response: IndexRangeResponse,
    j: int,
    raw_offset: u64,
    raw_byte_len: u32,
    comparison_key_millis: Option<i64>,
    unconfirmed: bool,
    continuation_count: u16,
)
    requires
        set.index_response_matches(request, response),
        0 <= j < response.items@.len(),
    ensures
        ({
            let item = set.spec_items()[response.start + j];
            &&& match set.entry_of(item) {
                Some(entry) => response.items@[j].confirmed == (entry.flags & FLAG_UNCONFIRMED == 0),
                None => response.items@[j].confirmed,
            }
            &&& set.entry_of(item) == Some(
                pushed_entry(raw_offset, raw_byte_len, comparison_key_millis, unconfirmed, continuation_count),
            ) ==> response.items@[j].confirmed == !unconfirmed
        }),
{
    let item = set.spec_items()[response.start + j];
    assert(set.is_index_ref_of(item, response.items@[j]));
    lemma_pushed_entry_round_trips(raw_offset, raw_byte_len, comparison_key_millis, unconfirmed, continuation_count);
}

} // verus!

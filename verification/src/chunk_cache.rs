//! A bounded cache of decoded chunks (least recently used entries leave
//! first, at most [`MAX_CACHED_CHUNKS`] entries).
//!
//! An entry holds, for one source, the raw byte spans of a run of items and
//! their decoded texts in the same order. A request hits when the spans it
//! asks for occur in an entry as a contiguous run, matched span by span on
//! both offset and length; the hit tells where the run starts, so a text is
//! never taken from the wrong position. A partial overlap is a miss.
//!
//! Texts are shared with the responses through `Arc`; storing and hitting
//! copy no text.

use std::sync::Arc;

use vstd::prelude::*;

verus! {

/// Provisional limit on the number of cached chunks.
pub const MAX_CACHED_CHUNKS: usize = 8;

/// The raw byte range of one cached item in its source file.
#[derive(Debug, Clone, Copy, PartialEq, Eq, Structural)]
pub struct ChunkItemSpan {
    pub raw_offset: u64,
    pub raw_byte_len: u32,
}

/// A cache hit: the whole entry's shared texts, and where the requested run
/// starts in them (`items[offset..offset + requested]`).
#[derive(Debug)]
pub struct ChunkCacheHit {
    pub items: Arc<Vec<String>>,
    pub offset: usize,
}

/// One cached chunk: its source, the spans of its items and their texts.
#[derive(Debug)]
pub struct CachedChunk {
    source_id: u32,
    spans: Vec<ChunkItemSpan>,
    items: Arc<Vec<String>>,
}

/// The abstract form of a cached chunk.
pub struct ChunkView {
    pub source_id: u32,
    pub spans: Seq<ChunkItemSpan>,
    pub items: Arc<Vec<String>>,
}

impl CachedChunk {
    pub closed spec fn view(&self) -> ChunkView {
        ChunkView { source_id: self.source_id, spans: self.spans@, items: self.items }
    }
}

/// Calls `Arc::clone`, which makes another pointer to the same allocation:
/// the clone points to the same value.
#[verifier::external_body]
fn share<T>(value: &Arc<T>) -> (shared: Arc<T>)
    ensures
        shared == *value,
{
    Arc::clone(value)
}

/// Whether `wanted` occurs in `cached` as a contiguous run starting at `k`.
pub open spec fn occurs_at(cached: Seq<ChunkItemSpan>, wanted: Seq<ChunkItemSpan>, k: int) -> bool {
    &&& 0 <= k
    &&& k + wanted.len() <= cached.len()
    &&& cached.subrange(k, k + wanted.len()) == wanted
}

/// Returns the first position at which `wanted` occurs in `cached` as a
/// contiguous run, or `None` when it occurs nowhere (in particular when it is
/// longer than `cached`).
pub fn containment_offset(cached: &[ChunkItemSpan], wanted: &[ChunkItemSpan]) -> (offset: Option<usize>)
    ensures
        match offset {
            Some(k) => occurs_at(cached@, wanted@, k as int) && forall|j: int|
                0 <= j < k ==> !occurs_at(cached@, wanted@, j),
            None => forall|k: int| !occurs_at(cached@, wanted@, k),
        },
{
    if wanted.len() > cached.len() {
        return None;
    }
    let last_start = cached.len() - wanted.len();
    let mut start: usize = 0;
    while start <= last_start
        invariant
            last_start + wanted@.len() == cached@.len(),
            cached@.len() <= usize::MAX,
            start <= last_start + 1,
            forall|j: int| 0 <= j < start ==> !occurs_at(cached@, wanted@, j),
        decreases last_start + 1 - start,
    {
        let mut i: usize = 0;
        let mut matched = true;
        while i < wanted.len()
            invariant_except_break
                matched,
            invariant
                start <= last_start,
                last_start + wanted@.len() == cached@.len(),
                i <= wanted@.len(),
                cached@.len() <= usize::MAX,
                forall|m: int| 0 <= m < i ==> cached@[start + m] == wanted@[m],
            ensures
                matched ==> i == wanted@.len() && forall|m: int| 0 <= m < wanted@.len() ==> cached@[start + m] == wanted@[m],
                !matched ==> i < wanted@.len() && cached@[start + i] != wanted@[i as int],
            decreases wanted@.len() - i,
        {
            if cached[start + i] != wanted[i] {
                matched = false;
                break;
            }
            i = i + 1;
        }
        if matched {
            proof {
                assert(cached@.subrange(start as int, start + wanted@.len()) =~= wanted@);
            }
            return Some(start);
        }
        proof {
            assert(cached@.subrange(start as int, start + wanted@.len())[i as int] == cached@[start + i]);
        }
        start = start + 1;
    }
    proof {
        assert forall|k: int| !occurs_at(cached@, wanted@, k) by {
            if 0 <= k && k + wanted@.len() <= cached@.len() {
                assert(k < start);
            }
        }
    }
    None
}

/// The entries of `entries` that `matches` does not hold of, in order.
pub open spec fn remove_matching(entries: Seq<ChunkView>, matches: spec_fn(ChunkView) -> bool) -> Seq<ChunkView>
    decreases entries.len(),
{
    if entries.len() == 0 {
        Seq::empty()
    } else {
        let rest = remove_matching(entries.drop_last(), matches);
        if matches(entries.last()) { rest } else { rest.push(entries.last()) }
    }
}

/// Whether a chunk belongs to `source_id` and has exactly the spans `spans`.
pub open spec fn same_chunk(source_id: u32, spans: Seq<ChunkItemSpan>) -> spec_fn(ChunkView) -> bool {
    |entry: ChunkView| entry.source_id == source_id && entry.spans == spans
}

/// Whether a chunk belongs to `source_id`.
pub open spec fn of_source(source_id: u32) -> spec_fn(ChunkView) -> bool {
    |entry: ChunkView| entry.source_id == source_id
}

/// Whether `entry` can answer a request for `wanted` of `source_id`.
pub open spec fn entry_contains(entry: ChunkView, source_id: u32, wanted: Seq<ChunkItemSpan>) -> bool {
    entry.source_id == source_id && exists|k: int| occurs_at(entry.spans, wanted, k)
}

/// Every entry has as many texts as spans, and at least one, and no two
/// entries of one source have the same spans.
pub open spec fn entries_wf(entries: Seq<ChunkView>) -> bool {
    &&& forall|i: int| 0 <= i < entries.len() ==> {
        &&& (#[trigger] entries[i]).spans.len() == entries[i].items@.len()
        &&& entries[i].spans.len() > 0
    }
    &&& forall|i: int, j: int|
        0 <= i < entries.len() && 0 <= j < entries.len() && i != j ==> !(#[trigger] entries[i].source_id
            == #[trigger] entries[j].source_id && entries[i].spans == entries[j].spans)
}

/// A bounded LRU cache of decoded chunks.
#[derive(Debug)]
pub struct DecodedChunkCache {
    /// The most recently used entry first, the least recently used last.
    entries: Vec<CachedChunk>,
}

impl DecodedChunkCache {
    /// The entries, most recently used first.
    pub closed spec fn spec_entries(&self) -> Seq<ChunkView> {
        self.entries@.map_values(|entry: CachedChunk| entry.view())
    }

    /// At most [`MAX_CACHED_CHUNKS`] entries, each well formed (see
    /// [`entries_wf`]).
    pub open spec fn wf(&self) -> bool {
        &&& self.spec_entries().len() <= MAX_CACHED_CHUNKS
        &&& entries_wf(self.spec_entries())
    }

    /// Creates an empty cache.
    pub fn new() -> (cache: Self)
        ensures
            cache.spec_entries() == Seq::<ChunkView>::empty(),
            cache.wf(),
    {
        DecodedChunkCache { entries: Vec::new() }
    }

    /// The number of cached chunks.
    pub fn len(&self) -> (len: usize)
        ensures
            len == self.spec_entries().len(),
    {
        self.entries.len()
    }

    /// Whether the cache holds no chunk.
    pub fn is_empty(&self) -> (empty: bool)
        ensures
            empty == (self.spec_entries().len() == 0),
    {
        self.entries.len() == 0
    }

    /// Looks for a chunk of `source_id` that contains `wanted` as a
    /// contiguous run, the most recently used first; on a hit that entry
    /// becomes the most recently used and the hit shares its texts. An empty
    /// request always misses.
    pub fn get(&mut self, source_id: u32, wanted: &[ChunkItemSpan]) -> (hit: Option<ChunkCacheHit>)
        ensures
            match hit {
                None => {
                    &&& final(self).spec_entries() == old(self).spec_entries()
                    &&& (wanted@.len() > 0 ==> forall|i: int|
                        0 <= i < old(self).spec_entries().len() ==> !entry_contains(
                            #[trigger] old(self).spec_entries()[i],
                            source_id,
                            wanted@,
                        ))
                },
                Some(hit) => exists|p: int| {
                    &&& 0 <= p < old(self).spec_entries().len()
                    &&& entry_contains(old(self).spec_entries()[p], source_id, wanted@)
                    &&& forall|i: int| 0 <= i < p ==> !entry_contains(
                        #[trigger] old(self).spec_entries()[i],
                        source_id,
                        wanted@,
                    )
                    &&& hit.items == old(self).spec_entries()[p].items
                    &&& occurs_at(old(self).spec_entries()[p].spans, wanted@, hit.offset as int)
                    &&& forall|j: int| 0 <= j < hit.offset ==> !occurs_at(
                        old(self).spec_entries()[p].spans,
                        wanted@,
                        j,
                    )
                    &&& final(self).spec_entries() == old(self).spec_entries().remove(p).insert(
                        0,
                        old(self).spec_entries()[p],
                    )
                },
            },
            wanted@.len() == 0 ==> hit is None,
            old(self).wf() ==> final(self).wf(),
    {
        if wanted.len() == 0 {
            return None;
        }
        let ghost entries0 = self.spec_entries();
        let mut position: usize = 0;
        while position < self.entries.len()
            invariant
                self.spec_entries() == entries0,
                entries0 == old(self).spec_entries(),
                self.entries@.len() == entries0.len(),
                position <= entries0.len(),
                wanted@.len() > 0,
                forall|i: int| 0 <= i < position ==> !entry_contains(#[trigger] entries0[i], source_id, wanted@),
            decreases entries0.len() - position,
        {
            let entry = &self.entries[position];
            if entry.source_id == source_id {
                match containment_offset(entry.spans.as_slice(), wanted) {
                    Some(offset) => {
                        let ghost p = position as int;
                        assert(entries0[p] == entry.view());
                        let moved = self.entries.remove(position);
                        let items = share(&moved.items);
                        self.entries.insert(0, moved);
                        proof {
                            assert(self.spec_entries() =~= entries0.remove(p).insert(0, entries0[p]));
                            assert(occurs_at(entries0[p].spans, wanted@, offset as int));
                            assert(entry_contains(entries0[p], source_id, wanted@));
                            if entries_wf(entries0) {
                                lemma_move_to_front_keeps_wf(entries0, p);
                            }
                        }
                        return Some(ChunkCacheHit { items, offset });
                    },
                    None => {},
                }
            }
            position = position + 1;
        }
        None
    }
}

/// Which entries a filter drops: those of `source_id` with exactly the spans
/// `spans` when given, otherwise all those of `source_id`.
pub open spec fn drop_filter(source_id: u32, spans: Option<Seq<ChunkItemSpan>>) -> spec_fn(ChunkView) -> bool {
    match spans {
        Some(spans) => same_chunk(source_id, spans),
        None => of_source(source_id),
    }
}

/// Keeps, in order, the entries that the filter of `source_id` and `spans`
/// does not drop.
fn keep_unmatched(entries: Vec<CachedChunk>, source_id: u32, spans: Option<&[ChunkItemSpan]>) -> (kept: Vec<
    CachedChunk,
>)
    ensures
        kept@.map_values(|entry: CachedChunk| entry.view()) == remove_matching(
            entries@.map_values(|entry: CachedChunk| entry.view()),
            drop_filter(source_id, match spans { Some(s) => Some(s@), None => None }),
        ),
{
    let ghost all = entries@.map_values(|entry: CachedChunk| entry.view());
    let ghost matches = drop_filter(source_id, match spans { Some(s) => Some(s@), None => None });
    let mut kept: Vec<CachedChunk> = Vec::new();
    for entry in it: entries
        invariant
            all == it.seq().map_values(|entry: CachedChunk| entry.view()),
            matches == drop_filter(source_id, match spans { Some(s) => Some(s@), None => None }),
            kept@.map_values(|entry: CachedChunk| entry.view()) == remove_matching(all.take(it.index() as int), matches),
    {
        let dropped = entry.source_id == source_id && match spans {
            Some(spans) => same_spans(entry.spans.as_slice(), spans),
            None => true,
        };
        proof {
            let taken = all.take(it.index() + 1);
            assert(taken.drop_last() == all.take(it.index() as int));
            assert(taken.last() == entry.view());
            assert(dropped == matches(entry.view()));
        }
        if !dropped {
            kept.push(entry);
        }
        proof {
            assert(kept@.map_values(|entry: CachedChunk| entry.view()) =~= remove_matching(all.take(it.index() + 1), matches));
        }
    }
    proof {
        assert(all.take(all.len() as int) == all);
    }
    kept
}

impl DecodedChunkCache {
    /// The entries after storing a chunk: the new chunk first, then the
    /// previous entries in order without any of the same source and spans,
    /// and the least recently used ones beyond [`MAX_CACHED_CHUNKS`] dropped.
    pub open spec fn after_insert(entries: Seq<ChunkView>, chunk: ChunkView) -> Seq<ChunkView> {
        let all = seq![chunk] + remove_matching(entries, same_chunk(chunk.source_id, chunk.spans));
        if all.len() > MAX_CACHED_CHUNKS { all.take(MAX_CACHED_CHUNKS as int) } else { all }
    }

    /// Stores the decoded texts `items` of the spans `spans` of `source_id`
    /// as the most recently used chunk. A chunk with the same source and spans
    /// is replaced rather than kept twice, and the least recently used chunk
    /// leaves when the cache is full. An empty chunk, or one whose spans and
    /// texts differ in number, is not stored (a hit on it could give the text
    /// of another item). The memory for the chunk
    /// ([`chunk_reservation_bytes`]) is reserved by the caller first.
    pub fn insert(&mut self, source_id: u32, spans: Vec<ChunkItemSpan>, items: Arc<Vec<String>>)
        ensures
            (items@.len() == 0 || spans@.len() != items@.len()) ==> final(self).spec_entries() == old(self).spec_entries(),
            (items@.len() > 0 && spans@.len() == items@.len()) ==> final(self).spec_entries() == Self::after_insert(
                old(self).spec_entries(),
                ChunkView { source_id, spans: spans@, items },
            ),
            old(self).wf() ==> final(self).wf(),
    {
        if items.len() == 0 || spans.len() != items.len() {
            return;
        }
        let ghost chunk = ChunkView { source_id, spans: spans@, items };
        let ghost before = self.spec_entries();
        let mut previous: Vec<CachedChunk> = Vec::new();
        std::mem::swap(&mut previous, &mut self.entries);
        let mut kept = keep_unmatched(previous, source_id, Some(spans.as_slice()));
        let ghost rest = kept@.map_values(|entry: CachedChunk| entry.view());
        assert(rest == remove_matching(before, same_chunk(source_id, spans@)));
        kept.insert(0, CachedChunk { source_id, spans, items });
        assert(kept@.map_values(|entry: CachedChunk| entry.view()) =~= seq![chunk] + rest);
        while kept.len() > MAX_CACHED_CHUNKS
            invariant
                kept@.len() >= MAX_CACHED_CHUNKS ==> kept@.map_values(|entry: CachedChunk| entry.view())
                    == (seq![chunk] + rest).take(kept@.len() as int),
                kept@.len() < MAX_CACHED_CHUNKS ==> kept@.map_values(|entry: CachedChunk| entry.view())
                    == seq![chunk] + rest,
                kept@.len() <= (seq![chunk] + rest).len(),
            decreases kept@.len(),
        {
            let _evicted = kept.pop();
            proof {
                assert(kept@.map_values(|entry: CachedChunk| entry.view()) =~= (seq![chunk] + rest).take(kept@.len() as int));
            }
        }
        self.entries = kept;
        proof {
            assert(self.spec_entries() =~= Self::after_insert(before, chunk));
            if entries_wf(before) {
                lemma_remove_matching(before, same_chunk(source_id, spans@));
                let all = seq![chunk] + rest;
                assert(entries_wf(all)) by {
                    assert forall|i: int, j: int|
                        0 <= i < all.len() && 0 <= j < all.len() && i != j implies !(#[trigger] all[i].source_id
                            == #[trigger] all[j].source_id && all[i].spans == all[j].spans) by {
                        if i > 0 && j > 0 {
                            assert(all[i] == rest[i - 1]);
                            assert(all[j] == rest[j - 1]);
                        } else if i == 0 {
                            assert(all[j] == rest[j - 1]);
                            assert(!same_chunk(source_id, spans@)(rest[j - 1]));
                        } else {
                            assert(all[i] == rest[i - 1]);
                            assert(!same_chunk(source_id, spans@)(rest[i - 1]));
                        }
                    }
                    assert forall|i: int| 0 <= i < all.len() implies {
                        &&& (#[trigger] all[i]).spans.len() == all[i].items@.len()
                        &&& all[i].spans.len() > 0
                    } by {
                        if i > 0 {
                            assert(all[i] == rest[i - 1]);
                        }
                    }
                }
            }
        }
    }

    /// Removes every chunk of `source_id` (on close, change detection,
    /// reload, rebuild or a release request); the others keep their order.
    pub fn invalidate_source(&mut self, source_id: u32)
        ensures
            final(self).spec_entries() == remove_matching(old(self).spec_entries(), of_source(source_id)),
            old(self).wf() ==> final(self).wf(),
    {
        let ghost before = self.spec_entries();
        let mut previous: Vec<CachedChunk> = Vec::new();
        std::mem::swap(&mut previous, &mut self.entries);
        self.entries = keep_unmatched(previous, source_id, None);
        proof {
            if entries_wf(before) {
                lemma_remove_matching(before, of_source(source_id));
            }
        }
    }
}

/// Bytes to reserve before storing a chunk: the UTF-8 length of its texts
/// plus 16 bytes per span (saturating).
pub fn chunk_reservation_bytes(spans: &[ChunkItemSpan], items: &[String]) -> (bytes: usize)
    ensures
        bytes == (if text_bytes(items@, items@.len() as int) + spans@.len() * 16 > usize::MAX {
            usize::MAX as int
        } else {
            text_bytes(items@, items@.len() as int) + spans@.len() * 16
        }),
{
    let mut total: usize = 0;
    let mut saturated = false;
    let mut i: usize = 0;
    while i < items.len()
        invariant
            i <= items@.len(),
            saturated ==> text_bytes(items@, i as int) > usize::MAX,
            !saturated ==> total == text_bytes(items@, i as int),
        decreases items@.len() - i,
    {
        let len = items[i].as_str().len();
        proof {
            assert(text_bytes(items@, i + 1) == text_bytes(items@, i as int) + len);
        }
        if !saturated {
            match total.checked_add(len) {
                Some(sum) => total = sum,
                None => saturated = true,
            }
        }
        i = i + 1;
    }
    if saturated {
        return usize::MAX;
    }
    match spans.len().checked_mul(16) {
        Some(span_bytes) => match total.checked_add(span_bytes) {
            Some(sum) => sum,
            None => usize::MAX,
        },
        None => usize::MAX,
    }
}

/// The total UTF-8 length of the first `n` texts.
pub open spec fn text_bytes(items: Seq<String>, n: int) -> int
    decreases n,
{
    if n <= 0 {
        0
    } else {
        text_bytes(items, n - 1) + (vstd::utf8::encode_utf8(items[n - 1]@).len() as usize)
    }
}

proof fn lemma_move_to_front_keeps_wf(entries: Seq<ChunkView>, p: int)
    requires
        0 <= p < entries.len(),
        entries_wf(entries),
    ensures
        entries_wf(entries.remove(p).insert(0, entries[p])),
        entries.remove(p).insert(0, entries[p]).len() == entries.len(),
{
    let moved = entries.remove(p).insert(0, entries[p]);
    assert forall|i: int| 0 <= i < moved.len() implies moved[i] == entries[
        if i == 0 { p } else if i <= p { i - 1 } else { i }
    ] by {}
    assert forall|i: int, j: int|
        0 <= i < moved.len() && 0 <= j < moved.len() && i != j implies !(#[trigger] moved[i].source_id
            == #[trigger] moved[j].source_id && moved[i].spans == moved[j].spans) by {
        let fi = if i == 0 { p } else if i <= p { i - 1 } else { i };
        let fj = if j == 0 { p } else if j <= p { j - 1 } else { j };
        assert(moved[i] == entries[fi]);
        assert(moved[j] == entries[fj]);
    }
    assert forall|i: int| 0 <= i < moved.len() implies {
        &&& (#[trigger] moved[i]).spans.len() == moved[i].items@.len()
        &&& moved[i].spans.len() > 0
    } by {
        let fi = if i == 0 { p } else if i <= p { i - 1 } else { i };
        assert(moved[i] == entries[fi]);
    }
}

/// Whether two runs of spans are the same, span by span.
fn same_spans(a: &[ChunkItemSpan], b: &[ChunkItemSpan]) -> (same: bool)
    ensures
        same == (a@ == b@),
{
    if a.len() != b.len() {
        return false;
    }
    let mut i: usize = 0;
    while i < a.len()
        invariant
            a@.len() == b@.len(),
            i <= a@.len(),
            forall|m: int| 0 <= m < i ==> a@[m] == b@[m],
        decreases a@.len() - i,
    {
        if a[i] != b[i] {
            return false;
        }
        i = i + 1;
    }
    proof {
        assert(a@ =~= b@);
    }
    true
}

/// What filtering with [`remove_matching`] keeps: entries of the input
/// sequence that do not match, still well formed.
proof fn lemma_remove_matching(entries: Seq<ChunkView>, matches: spec_fn(ChunkView) -> bool)
    requires
        entries_wf(entries),
    ensures
        entries_wf(remove_matching(entries, matches)),
        remove_matching(entries, matches).len() <= entries.len(),
        forall|i: int|
            #![trigger remove_matching(entries, matches)[i]]
            0 <= i < remove_matching(entries, matches).len() ==> {
                &&& !matches(remove_matching(entries, matches)[i])
                &&& exists|j: int| 0 <= j < entries.len() && remove_matching(entries, matches)[i] == #[trigger] entries[j]
            },
    decreases entries.len(),
{
    if entries.len() > 0 {
        let init = entries.drop_last();
        assert(entries_wf(init)) by {
            assert forall|i: int| 0 <= i < init.len() implies {
                &&& (#[trigger] init[i]).spans.len() == init[i].items@.len()
                &&& init[i].spans.len() > 0
            } by {
                assert(init[i] == entries[i]);
            }
            assert forall|i: int, j: int|
                0 <= i < init.len() && 0 <= j < init.len() && i != j implies !(#[trigger] init[i].source_id
                    == #[trigger] init[j].source_id && init[i].spans == init[j].spans) by {
                assert(init[i] == entries[i]);
                assert(init[j] == entries[j]);
            }
        }
        lemma_remove_matching(init, matches);
        let rest = remove_matching(init, matches);
        let last = entries.last();
        if !matches(last) {
            let result = rest.push(last);
            assert forall|i: int| 0 <= i < result.len() implies {
                &&& !matches(#[trigger] result[i])
                &&& exists|j: int| 0 <= j < entries.len() && result[i] == #[trigger] entries[j]
            } by {
                if i < rest.len() {
                    assert(result[i] == rest[i]);
                    let j = choose|j: int| 0 <= j < init.len() && rest[i] == init[j];
                    assert(entries[j] == init[j]);
                } else {
                    assert(result[i] == entries[entries.len() - 1]);
                }
            }
            assert forall|i: int, j: int|
                0 <= i < result.len() && 0 <= j < result.len() && i != j implies !(#[trigger] result[i].source_id
                    == #[trigger] result[j].source_id && result[i].spans == result[j].spans) by {
                if i < rest.len() && j < rest.len() {
                    assert(result[i] == rest[i]);
                    assert(result[j] == rest[j]);
                } else if i < rest.len() {
                    assert(result[i] == rest[i]);
                    let k = choose|k: int| 0 <= k < init.len() && rest[i] == init[k];
                    assert(init[k] == entries[k]);
                    assert(result[j] == entries[entries.len() - 1]);
                } else {
                    assert(result[j] == rest[j]);
                    let k = choose|k: int| 0 <= k < init.len() && rest[j] == init[k];
                    assert(init[k] == entries[k]);
                    assert(result[i] == entries[entries.len() - 1]);
                }
            }
            assert forall|i: int| 0 <= i < result.len() implies {
                &&& (#[trigger] result[i]).spans.len() == result[i].items@.len()
                &&& result[i].spans.len() > 0
            } by {
                if i < rest.len() {
                    assert(result[i] == rest[i]);
                } else {
                    assert(result[i] == entries[entries.len() - 1]);
                }
            }
        } else {
            assert forall|i: int| 0 <= i < rest.len() implies exists|j: int|
                0 <= j < entries.len() && #[trigger] rest[i] == #[trigger] entries[j] by {
                let j = choose|j: int| 0 <= j < init.len() && rest[i] == init[j];
                assert(entries[j] == init[j]);
            }
        }
    }
}

/// A hit gives the texts of exactly the requested spans: in a well-formed
/// entry, the run found at `offset` lies within the texts, and the text at
/// `offset + m` is the one stored for the `m`-th requested span.
pub proof fn lemma_hit_is_aligned(entry: ChunkView, wanted: Seq<ChunkItemSpan>, offset: int)
    requires
        entry.spans.len() == entry.items@.len(),
        occurs_at(entry.spans, wanted, offset),
    ensures
        0 <= offset,
        offset + wanted.len() <= entry.items@.len(),
        forall|m: int| 0 <= m < wanted.len() ==> entry.spans[offset + m] == #[trigger] wanted[m],
{
    assert forall|m: int| 0 <= m < wanted.len() implies entry.spans[offset + m] == #[trigger] wanted[m] by {
        assert(entry.spans.subrange(offset, offset + wanted.len())[m] == entry.spans[offset + m]);
    }
}

/// Filtering keeps exactly the entries that do not match, in their order:
/// nothing that matches remains, and every entry that does not match is
/// still there.
pub proof fn lemma_remove_matching_keeps_the_rest(entries: Seq<ChunkView>, matches: spec_fn(ChunkView) -> bool)
    ensures
        forall|i: int| 0 <= i < remove_matching(entries, matches).len() ==> !matches(
            #[trigger] remove_matching(entries, matches)[i],
        ),
        forall|i: int| 0 <= i < entries.len() && !matches(#[trigger] entries[i]) ==> remove_matching(
            entries,
            matches,
        ).contains(entries[i]),
        (forall|i: int| 0 <= i < entries.len() ==> !matches(#[trigger] entries[i])) ==> remove_matching(
            entries,
            matches,
        ) == entries,
    decreases entries.len(),
{
    if entries.len() > 0 {
        let init = entries.drop_last();
        lemma_remove_matching_keeps_the_rest(init, matches);
        let rest = remove_matching(init, matches);
        let result = remove_matching(entries, matches);
        assert forall|i: int| 0 <= i < result.len() implies !matches(#[trigger] result[i]) by {
            if i < rest.len() {
                assert(result[i] == rest[i]);
            }
        }
        assert forall|i: int| 0 <= i < entries.len() && !matches(#[trigger] entries[i]) implies result.contains(entries[i]) by {
            if i < init.len() {
                assert(init[i] == entries[i]);
                let k = choose|k: int| 0 <= k < rest.len() && rest[k] == init[i];
                assert(result[k] == rest[k]);
            } else {
                assert(result[result.len() - 1] == entries[i]);
            }
        }
        if forall|i: int| 0 <= i < entries.len() ==> !matches(#[trigger] entries[i]) {
            assert forall|i: int| 0 <= i < init.len() implies !matches(#[trigger] init[i]) by {
                assert(init[i] == entries[i]);
            }
            assert(result =~= entries);
        }
    }
}

/// When a full cache stores a new chunk that replaces none of its entries,
/// the least recently used entry leaves and the others stay in their order
/// behind the new one.
pub proof fn lemma_insert_evicts_least_recently_used(entries: Seq<ChunkView>, chunk: ChunkView)
    requires
        entries.len() == MAX_CACHED_CHUNKS,
        forall|i: int| 0 <= i < entries.len() ==> !same_chunk(chunk.source_id, chunk.spans)(#[trigger] entries[i]),
    ensures
        DecodedChunkCache::after_insert(entries, chunk) == seq![chunk] + entries.take(MAX_CACHED_CHUNKS - 1),
{
    lemma_remove_matching_keeps_the_rest(entries, same_chunk(chunk.source_id, chunk.spans));
    assert(DecodedChunkCache::after_insert(entries, chunk) =~= seq![chunk] + entries.take(MAX_CACHED_CHUNKS - 1));
}

/// What is stored can be read back at once: right after a chunk is stored it
/// is the most recently used entry and contains its own spans, first at
/// position 0, so a request for exactly those spans of that source hits it
/// (the first entry that contains the request) and gets its texts from the
/// start.
pub proof fn lemma_stored_chunk_is_read_back(entries: Seq<ChunkView>, chunk: ChunkView)
    ensures
        DecodedChunkCache::after_insert(entries, chunk)[0] == chunk,
        DecodedChunkCache::after_insert(entries, chunk).len() > 0,
        entry_contains(chunk, chunk.source_id, chunk.spans),
        occurs_at(chunk.spans, chunk.spans, 0),
        forall|offset: int|
            occurs_at(chunk.spans, chunk.spans, offset) && (forall|j: int|
                0 <= j < offset ==> !occurs_at(chunk.spans, chunk.spans, j)) ==> offset == 0,
{
    let all = seq![chunk] + remove_matching(entries, same_chunk(chunk.source_id, chunk.spans));
    assert(all[0] == chunk);
    if all.len() > MAX_CACHED_CHUNKS {
        assert(all.take(MAX_CACHED_CHUNKS as int)[0] == chunk);
    }
    assert(chunk.spans.subrange(0, chunk.spans.len() as int) =~= chunk.spans);
    assert(occurs_at(chunk.spans, chunk.spans, 0));
}

/// Storing a chunk drops only an entry of the same source with exactly the
/// same spans: when no entry has both, the new chunk goes in front of all
/// the previous entries, which keep their order, and only the least
/// recently used ones beyond the capacity leave.
pub proof fn lemma_insert_keeps_other_chunks(entries: Seq<ChunkView>, chunk: ChunkView)
    requires
        forall|i: int|
            0 <= i < entries.len() ==> !((#[trigger] entries[i]).source_id == chunk.source_id && entries[i].spans
                == chunk.spans),
    ensures
        entries.len() < MAX_CACHED_CHUNKS ==> DecodedChunkCache::after_insert(entries, chunk) == seq![chunk]
            + entries,
        entries.len() >= MAX_CACHED_CHUNKS ==> DecodedChunkCache::after_insert(entries, chunk) == (seq![chunk]
            + entries).take(MAX_CACHED_CHUNKS as int),
{
    assert forall|i: int| 0 <= i < entries.len() implies !same_chunk(chunk.source_id, chunk.spans)(
        #[trigger] entries[i],
    ) by {}
    lemma_remove_matching_keeps_the_rest(entries, same_chunk(chunk.source_id, chunk.spans));
}

} // verus!

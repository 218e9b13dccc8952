//! The line index: one 24-byte entry per logical item (a log line with its
//! continuation lines), plus a parallel array of source line numbers. The
//! index holds no text: an entry records where the item's raw bytes lie in
//! the source file (`offset`, `byte_len`), its comparison key, two flags and
//! its continuation count, and the text is read back on demand.

use vstd::prelude::*;

use crate::capacity::{vec_capacity, vec_reserve_exact};

verus! {

/// Flag: the item's date and time could be parsed.
pub const FLAG_HAS_TIMESTAMP: u16 = 0b0000_0001;

/// Flag: the item is an unconfirmed trailing line (it did not end with a
/// newline when it was read). This is display information, not an error.
pub const FLAG_UNCONFIRMED: u16 = 0b0000_0010;

/// One entry of the line index (at most 24 bytes by design).
#[derive(Debug, Clone, Copy, PartialEq, Eq, Structural)]
pub struct LineIndexEntry {
    /// Raw byte offset of the item in the source file (after any BOM).
    pub offset: u64,
    /// Comparison key in milliseconds; meaningful only with
    /// [`FLAG_HAS_TIMESTAMP`].
    pub comparison_key_millis: i64,
    /// Raw byte length of the whole item (continuation lines included, the
    /// final line terminator excluded).
    pub byte_len: u32,
    /// Bitwise or of [`FLAG_HAS_TIMESTAMP`] and [`FLAG_UNCONFIRMED`].
    pub flags: u16,
    /// Number of continuation lines joined into this item (0 for none).
    pub continuation_count: u16,
}

/// The flags of an entry built from an optional key and the unconfirmed mark.
pub open spec fn entry_flags(has_key: bool, unconfirmed: bool) -> u16 {
    ((if has_key { FLAG_HAS_TIMESTAMP } else { 0u16 }) | (if unconfirmed { FLAG_UNCONFIRMED } else { 0u16 })) as u16
}

impl LineIndexEntry {
    pub open spec fn spec_has_timestamp(&self) -> bool {
        self.flags & FLAG_HAS_TIMESTAMP != 0
    }

    pub open spec fn spec_is_unconfirmed(&self) -> bool {
        self.flags & FLAG_UNCONFIRMED != 0
    }

    pub open spec fn spec_comparison_key_millis(&self) -> Option<i64> {
        if self.spec_has_timestamp() { Some(self.comparison_key_millis) } else { None }
    }

    /// Whether the item's date and time could be parsed.
    pub fn has_timestamp(&self) -> (result: bool)
        ensures
            result == self.spec_has_timestamp(),
    {
        self.flags & FLAG_HAS_TIMESTAMP != 0
    }

    /// Whether the item is an unconfirmed trailing line (the display's
    /// `confirmed` is its negation).
    pub fn is_unconfirmed(&self) -> (result: bool)
        ensures
            result == self.spec_is_unconfirmed(),
    {
        self.flags & FLAG_UNCONFIRMED != 0
    }

    /// The comparison key, only when the item has a timestamp.
    pub fn comparison_key_millis(&self) -> (result: Option<i64>)
        ensures
            result == self.spec_comparison_key_millis(),
    {
        if self.has_timestamp() {
            Some(self.comparison_key_millis)
        } else {
            None
        }
    }

    /// The item's raw byte range as `(offset, byte_len)`.
    pub fn raw_range(&self) -> (result: (u64, u32))
        ensures
            result == (self.offset, self.byte_len),
    {
        (self.offset, self.byte_len)
    }
}

/// Bytes that [`IndexedText`] holds per entry: the 24-byte entry and the
/// 8-byte line number.
pub const INDEX_BYTES_PER_ENTRY: usize = 32;

/// The line index of one source: the entries and, in parallel, the 1-based
/// source line number of each entry's first physical line.
#[derive(Debug)]
pub struct IndexedText {
    entries: Vec<LineIndexEntry>,
    source_line_numbers: Vec<u64>,
}

/// The entry that [`IndexedText::push_entry`] records.
pub open spec fn pushed_entry(
    raw_offset: u64,
    raw_byte_len: u32,
    comparison_key_millis: Option<i64>,
    unconfirmed: bool,
    continuation_count: u16,
) -> LineIndexEntry {
    LineIndexEntry {
        offset: raw_offset,
        comparison_key_millis: match comparison_key_millis {
            Some(key) => key,
            None => 0,
        },
        byte_len: raw_byte_len,
        flags: entry_flags(comparison_key_millis is Some, unconfirmed),
        continuation_count,
    }
}

impl IndexedText {
    /// The entries, in the order they were pushed.
    pub closed spec fn spec_entries(&self) -> Seq<LineIndexEntry> {
        self.entries@
    }

    /// The line numbers, in the order they were pushed.
    pub closed spec fn spec_line_numbers(&self) -> Seq<u64> {
        self.source_line_numbers@
    }

    /// The two arrays have the same length.
    pub open spec fn wf(&self) -> bool {
        self.spec_entries().len() == self.spec_line_numbers().len()
    }

    /// Creates an empty index.
    pub fn new() -> (text: Self)
        ensures
            text.spec_entries() == Seq::<LineIndexEntry>::empty(),
            text.spec_line_numbers() == Seq::<u64>::empty(),
            text.wf(),
    {
        IndexedText { entries: Vec::new(), source_line_numbers: Vec::new() }
    }

    /// Creates an empty index with room for `entry_count` entries (a hint;
    /// the caller reserves the memory first).
    pub fn with_capacity(entry_count: usize) -> (text: Self)
        ensures
            text.spec_entries() == Seq::<LineIndexEntry>::empty(),
            text.spec_line_numbers() == Seq::<u64>::empty(),
            text.wf(),
    {
        IndexedText {
            entries: Vec::with_capacity(entry_count),
            source_line_numbers: Vec::with_capacity(entry_count),
        }
    }

    /// The number of entries that fit without reallocating: the smaller of
    /// the two arrays' capacities, since an append that fits one but not the
    /// other still reallocates.
    pub fn capacity(&self) -> (capacity: usize)
        ensures
            capacity >= self.spec_entries().len() || capacity >= self.spec_line_numbers().len(),
            self.wf() ==> capacity >= self.spec_entries().len(),
            capacity * vstd::layout::size_of::<LineIndexEntry>() <= isize::MAX,
            self.spec_entries().len() * vstd::layout::size_of::<LineIndexEntry>() <= isize::MAX,
    {
        let entries_capacity = vec_capacity(&self.entries);
        let numbers_capacity = vec_capacity(&self.source_line_numbers);
        proof {
            let es = vstd::layout::size_of::<LineIndexEntry>();
            let el = self.entries@.len();
            let m = if entries_capacity <= numbers_capacity { entries_capacity } else { numbers_capacity };
            assert(m * es <= entries_capacity * es) by (nonlinear_arith)
                requires
                    m <= entries_capacity,
            ;
            assert(el * es <= entries_capacity * es) by (nonlinear_arith)
                requires
                    el <= entries_capacity,
            ;
        }
        if entries_capacity <= numbers_capacity {
            entries_capacity
        } else {
            numbers_capacity
        }
    }

    /// How many more entries fit without reallocating.
    pub fn spare_capacity(&self) -> (spare: usize)
        ensures
            spare as int <= usize::MAX - self.spec_entries().len(),
            (self.spec_entries().len() + spare) * vstd::layout::size_of::<LineIndexEntry>() <= isize::MAX,
    {
        let capacity = self.capacity();
        let len = self.len();
        if capacity >= len {
            capacity - len
        } else {
            0
        }
    }

    /// Widens the capacity to `target_entries` entries (exactly, so that the
    /// allocation matches what the caller reserved); does nothing when the
    /// capacity already suffices and never shrinks. Returns how many bytes the
    /// two arrays' allocations grew by.
    pub fn grow_capacity_to(&mut self, target_entries: usize) -> (grown_bytes: usize)
        requires
            target_entries * vstd::layout::size_of::<LineIndexEntry>() <= isize::MAX,
            target_entries * vstd::layout::size_of::<u64>() <= isize::MAX,
        ensures
            final(self).spec_entries() == old(self).spec_entries(),
            final(self).spec_line_numbers() == old(self).spec_line_numbers(),
    {
        let entries_len = self.entries.len();
        let numbers_len = self.source_line_numbers.len();
        let before = self.allocated_capacity_bytes();
        let entries_additional = if target_entries > entries_len { target_entries - entries_len } else { 0 };
        let numbers_additional = if target_entries > numbers_len { target_entries - numbers_len } else { 0 };
        vec_reserve_exact(&mut self.entries, entries_additional);
        vec_reserve_exact(&mut self.source_line_numbers, numbers_additional);
        let after = self.allocated_capacity_bytes();
        if after >= before {
            after - before
        } else {
            0
        }
    }

    /// Bytes allocated by the two arrays (capacity, not length). How much is
    /// allocated is up to the allocator; it always covers the bytes that the
    /// entries and the line numbers take.
    fn allocated_capacity_bytes(&self) -> (bytes: usize)
        ensures
            bytes >= self.spec_entries().len() * vstd::layout::size_of::<LineIndexEntry>()
                + self.spec_line_numbers().len() * vstd::layout::size_of::<u64>(),
    {
        let entries_capacity = vec_capacity(&self.entries);
        let numbers_capacity = vec_capacity(&self.source_line_numbers);
        proof {
            let es = vstd::layout::size_of::<LineIndexEntry>();
            let ns = vstd::layout::size_of::<u64>();
            let el = self.entries@.len();
            let nl = self.source_line_numbers@.len();
            assert(el * es <= entries_capacity * es) by (nonlinear_arith)
                requires
                    el <= entries_capacity,
            ;
            assert(nl * ns <= numbers_capacity * ns) by (nonlinear_arith)
                requires
                    nl <= numbers_capacity,
            ;
        }
        entries_capacity * core::mem::size_of::<LineIndexEntry>() + numbers_capacity
            * core::mem::size_of::<u64>()
    }

    /// Appends one entry for one logical item and returns its index.
    /// `comparison_key_millis` sets [`FLAG_HAS_TIMESTAMP`] (the stored key is
    /// 0 without one) and `unconfirmed` sets [`FLAG_UNCONFIRMED`].
    pub fn push_entry(
        &mut self,
        raw_offset: u64,
        raw_byte_len: u32,
        comparison_key_millis: Option<i64>,
        unconfirmed: bool,
        continuation_count: u16,
        source_line_number: u64,
    ) -> (index: usize)
        ensures
            final(self).spec_entries() == old(self).spec_entries().push(
                pushed_entry(raw_offset, raw_byte_len, comparison_key_millis, unconfirmed, continuation_count),
            ),
            final(self).spec_line_numbers() == old(self).spec_line_numbers().push(source_line_number),
            index == old(self).spec_entries().len(),
            old(self).wf() ==> final(self).wf(),
    {
        let mut flags = 0u16;
        let key = match comparison_key_millis {
            Some(key) => {
                flags = flags | FLAG_HAS_TIMESTAMP;
                key
            },
            None => 0,
        };
        if unconfirmed {
            flags = flags | FLAG_UNCONFIRMED;
        }
        proof {
            let f1: u16 = if comparison_key_millis is Some { FLAG_HAS_TIMESTAMP } else { 0u16 };
            let f2: u16 = if unconfirmed { FLAG_UNCONFIRMED } else { 0u16 };
            assert((0u16 | f1) == f1) by (bit_vector);
            assert((f1 | 0u16) == f1) by (bit_vector);
        }
        self.entries.push(
            LineIndexEntry {
                offset: raw_offset,
                comparison_key_millis: key,
                byte_len: raw_byte_len,
                flags,
                continuation_count,
            },
        );
        self.source_line_numbers.push(source_line_number);
        self.entries.len() - 1
    }

    /// The number of entries (logical items).
    pub fn len(&self) -> (len: usize)
        ensures
            len == self.spec_entries().len(),
    {
        self.entries.len()
    }

    pub fn is_empty(&self) -> (empty: bool)
        ensures
            empty == (self.spec_entries().len() == 0),
    {
        self.entries.len() == 0
    }

    /// The entries themselves.
    pub fn entries(&self) -> (entries: &[LineIndexEntry])
        ensures
            entries@ == self.spec_entries(),
    {
        self.entries.as_slice()
    }

    /// Bytes taken by the entries (their size each); the line numbers are
    /// counted separately by [`Self::auxiliary_bytes`].
    pub fn index_bytes(&self) -> (bytes: usize)
        ensures
            bytes == self.spec_entries().len() * vstd::layout::size_of::<LineIndexEntry>(),
    {
        let capacity = vec_capacity(&self.entries);
        proof {
            let size = vstd::layout::size_of::<LineIndexEntry>();
            let len = self.entries@.len();
            assert(len * size <= capacity * size) by (nonlinear_arith)
                requires
                    len <= capacity,
            ;
        }
        self.entries.len() * core::mem::size_of::<LineIndexEntry>()
    }

    /// Bytes taken by the parallel line numbers (8 each).
    pub fn auxiliary_bytes(&self) -> (bytes: usize)
        ensures
            bytes == self.spec_line_numbers().len() * vstd::layout::size_of::<u64>(),
    {
        let capacity = vec_capacity(&self.source_line_numbers);
        proof {
            let size = vstd::layout::size_of::<u64>();
            let len = self.source_line_numbers@.len();
            assert(len * size <= capacity * size) by (nonlinear_arith)
                requires
                    len <= capacity,
            ;
        }
        self.source_line_numbers.len() * core::mem::size_of::<u64>()
    }

    /// The comparison key of entry `index`; `None` when the entry has no
    /// timestamp or does not exist.
    pub fn comparison_key_millis(&self, index: usize) -> (key: Option<i64>)
        ensures
            key == (if index < self.spec_entries().len() {
                self.spec_entries()[index as int].spec_comparison_key_millis()
            } else {
                None
            }),
    {
        if index < self.entries.len() {
            self.entries[index].comparison_key_millis()
        } else {
            None
        }
    }

    /// The 1-based source line number of entry `index`, if it exists.
    pub fn source_line_number(&self, index: usize) -> (number: Option<u64>)
        ensures
            number == (if index < self.spec_line_numbers().len() {
                Some(self.spec_line_numbers()[index as int])
            } else {
                None
            }),
    {
        if index < self.source_line_numbers.len() {
            Some(self.source_line_numbers[index])
        } else {
            None
        }
    }

    /// Releases the index: both arrays are replaced by new empty ones (their
    /// memory is returned, unlike `Vec::clear`).
    pub fn clear(&mut self)
        ensures
            final(self).spec_entries() == Seq::<LineIndexEntry>::empty(),
            final(self).spec_line_numbers() == Seq::<u64>::empty(),
            final(self).wf(),
    {
        self.entries = Vec::new();
        self.source_line_numbers = Vec::new();
    }
}

/// What [`IndexedText::push_entry`] records reads back unchanged: the raw
/// range, the comparison key (present exactly when one was given), the
/// unconfirmed mark and the continuation count.
pub proof fn lemma_pushed_entry_round_trips(
    raw_offset: u64,
    raw_byte_len: u32,
    comparison_key_millis: Option<i64>,
    unconfirmed: bool,
    continuation_count: u16,
)
    ensures
        ({
            let entry = pushed_entry(raw_offset, raw_byte_len, comparison_key_millis, unconfirmed, continuation_count);
            &&& entry.offset == raw_offset
            &&& entry.byte_len == raw_byte_len
            &&& entry.spec_has_timestamp() == (comparison_key_millis is Some)
            &&& entry.spec_comparison_key_millis() == comparison_key_millis
            &&& entry.spec_is_unconfirmed() == unconfirmed
            &&& entry.continuation_count == continuation_count
        }),
{
    let f1: u16 = if comparison_key_millis is Some { FLAG_HAS_TIMESTAMP } else { 0u16 };
    let f2: u16 = if unconfirmed { FLAG_UNCONFIRMED } else { 0u16 };
    assert((f1 == 0u16 || f1 == 1u16) && (f2 == 0u16 || f2 == 2u16) ==> (((f1 | f2) & 1u16 != 0u16) == (f1 == 1u16)
        && ((f1 | f2) & 2u16 != 0u16) == (f2 == 2u16))) by (bit_vector);
}

/// Bytes to reserve before the index grows by `additional_entries` entries
/// (32 per entry, saturating).
pub fn index_growth_bytes(additional_entries: usize) -> (bytes: usize)
    ensures
        bytes == (if additional_entries * 32 > usize::MAX { usize::MAX as int } else { additional_entries * 32 }),
{
    match additional_entries.checked_mul(INDEX_BYTES_PER_ENTRY) {
        Some(bytes) => bytes,
        None => usize::MAX,
    }
}

} // verus!

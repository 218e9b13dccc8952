//! Common services of the log viewer that do not depend on the GUI: the
//! source budget, the line index, the display set and its range contract,
//! the decoded chunk cache, clipboard copy assembly and the pure decisions
//! of the loading pipeline.

pub mod budget;
mod capacity;
pub mod chunk_cache;
pub mod copy;
pub mod display_set;
pub mod item;
pub mod line_index;
pub mod loading;
pub mod text;

pub use budget::{
    BudgetRejection, SourceBudget, SourceReservation, MAX_SINGLE_FILE_BYTES, MAX_SOURCE_COUNT,
    MAX_TOTAL_BYTES,
};
pub use chunk_cache::{ChunkCacheHit, ChunkItemSpan, DecodedChunkCache, MAX_CACHED_CHUNKS};
pub use copy::{
    CopyBuffer, CopyError, CopyLimits, CopyOutcome, CopyRange, CopyRejection, CopySelection,
    FetchRangeError, InvalidSelectionReason,
};
pub use display_set::{
    DisplaySet, IndexItemRef, IndexRangeResponse, ItemDto, RangeFetchError, RangeRequest,
    RangeResponse, MAX_ITEMS_PER_RESPONSE, MAX_RESPONSE_RAW_BYTES,
};
pub use item::{
    build_items_from_pending, build_items_from_pending_into, Item, ItemId, PendingItem,
    ReservationRejected, SourceInfo, RESIDENT_BYTES_PER_ITEM,
};
pub use line_index::{
    IndexedText, LineIndexEntry, FLAG_HAS_TIMESTAMP, FLAG_UNCONFIRMED, INDEX_BYTES_PER_ENTRY,
};
pub use loading::{DatetimeFormatRoute, LoadStageTimings, LoadSummary};

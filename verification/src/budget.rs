//! Limits on the total size and the number of open sources (compare and
//! reserve): a single file may not exceed its limit, the number of sources may
//! not exceed its limit, and the total size may not exceed its limit. The total
//! is the overriding constraint: a request that meets the other two is still
//! refused when the total would grow past its limit.
//!
//! A refused request never changes the budget.

use vstd::prelude::*;

use crate::text::{decimal, push_decimal};

verus! {

/// Limit on the total size of all open sources (2 GiB).
pub const MAX_TOTAL_BYTES: u64 = 2 * 1024 * 1024 * 1024;

/// Limit on the size of a single source (1 GiB).
pub const MAX_SINGLE_FILE_BYTES: u64 = 1024 * 1024 * 1024;

/// Limit on the number of sources open at the same time.
pub const MAX_SOURCE_COUNT: usize = 10;

/// Why an addition (or a reload) was refused.
#[derive(Debug, Clone, Copy, PartialEq, Eq, Structural)]
pub enum BudgetRejection {
    /// The single file exceeds its limit.
    SingleFileTooLarge { requested_bytes: u64, limit_bytes: u64 },
    /// The number of sources has reached its limit.
    TooManySources { current_count: usize, limit_count: usize },
    /// The total size would exceed its limit.
    TotalTooLarge {
        current_total_bytes: u64,
        requested_bytes: u64,
        limit_bytes: u64,
        /// How far the projected total exceeds the limit.
        excess_bytes: u64,
    },
}

impl BudgetRejection {
    /// The user-facing message (in Japanese) with the key numbers.
    pub open spec fn message_view(self) -> Seq<char> {
        match self {
            BudgetRejection::SingleFileTooLarge { requested_bytes, limit_bytes } => "単一ファイルの上限を超えています（要求 "@
                + decimal(requested_bytes as nat) + " バイト、上限 "@ + decimal(limit_bytes as nat)
                + " バイト）。"@,
            BudgetRejection::TooManySources { current_count, limit_count } => "同時に開けるファイル数の上限に達しています（現在 "@
                + decimal(current_count as nat) + " 件、上限 "@ + decimal(limit_count as nat)
                + " 件）。"@,
            BudgetRejection::TotalTooLarge {
                current_total_bytes,
                requested_bytes,
                limit_bytes,
                excess_bytes,
            } => "開いているファイルの合計サイズの上限を超えます（現在 "@ + decimal(
                current_total_bytes as nat,
            ) + " バイト、追加要求 "@ + decimal(requested_bytes as nat) + " バイト、上限 "@
                + decimal(limit_bytes as nat) + " バイト、超過量 "@ + decimal(excess_bytes as nat)
                + " バイト）。"@,
        }
    }

    /// Renders the user-facing message (in Japanese) with the key numbers.
    pub fn message(&self) -> (text: String)
        ensures
            text@ == self.message_view(),
    {
        let mut text = String::new();
        match self {
            BudgetRejection::SingleFileTooLarge { requested_bytes, limit_bytes } => {
                text.append("単一ファイルの上限を超えています（要求 ");
                push_decimal(&mut text, *requested_bytes);
                text.append(" バイト、上限 ");
                push_decimal(&mut text, *limit_bytes);
                text.append(" バイト）。");
            },
            BudgetRejection::TooManySources { current_count, limit_count } => {
                text.append("同時に開けるファイル数の上限に達しています（現在 ");
                push_decimal(&mut text, *current_count as u64);
                text.append(" 件、上限 ");
                push_decimal(&mut text, *limit_count as u64);
                text.append(" 件）。");
            },
            BudgetRejection::TotalTooLarge {
                current_total_bytes,
                requested_bytes,
                limit_bytes,
                excess_bytes,
            } => {
                text.append("開いているファイルの合計サイズの上限を超えます（現在 ");
                push_decimal(&mut text, *current_total_bytes);
                text.append(" バイト、追加要求 ");
                push_decimal(&mut text, *requested_bytes);
                text.append(" バイト、上限 ");
                push_decimal(&mut text, *limit_bytes);
                text.append(" バイト、超過量 ");
                push_decimal(&mut text, *excess_bytes);
                text.append(" バイト）。");
            },
        }
        text
    }
}

/// Handle returned by a successful reservation; hand it back to
/// [`SourceBudget::release`] to take its size out of the total.
#[derive(Debug, Clone, Copy, PartialEq, Eq, Structural)]
pub struct SourceReservation {
    pub reserved_bytes: u64,
}

/// The budget of open sources: the current total size and count, and the
/// three limits.
#[derive(Debug)]
pub struct SourceBudget {
    total_bytes: u64,
    count: usize,
    max_total_bytes: u64,
    max_single_file_bytes: u64,
    max_source_count: usize,
}

/// `a + b`, saturated at `u64::MAX`.
pub open spec fn sat_add_u64(a: u64, b: u64) -> u64 {
    if a + b > u64::MAX { u64::MAX } else { (a + b) as u64 }
}

/// `a - b`, saturated at zero.
pub open spec fn sat_sub_u64(a: u64, b: u64) -> u64 {
    if a < b { 0 } else { (a - b) as u64 }
}

/// The abstract state of a [`SourceBudget`]: the current total and count and
/// the three limits.
pub struct BudgetView {
    pub total: u64,
    pub count: usize,
    pub max_total: u64,
    pub max_single: u64,
    pub max_count: usize,
}

impl BudgetView {
    /// The budget stays within its limits.
    pub open spec fn within_limits(self) -> bool {
        &&& self.total <= self.max_total
        &&& self.count <= self.max_count
    }

    /// The state after a successful reservation of `size`.
    pub open spec fn with_reserved(self, size: u64) -> BudgetView {
        BudgetView { total: sat_add_u64(self.total, size), count: (self.count + 1) as usize, ..self }
    }

    /// What a reservation of `size` answers.
    pub open spec fn reserve_outcome(self, size: u64) -> Result<SourceReservation, BudgetRejection> {
        if size > self.max_single {
            Err(BudgetRejection::SingleFileTooLarge { requested_bytes: size, limit_bytes: self.max_single })
        } else if self.count >= self.max_count {
            Err(BudgetRejection::TooManySources { current_count: self.count, limit_count: self.max_count })
        } else if sat_add_u64(self.total, size) > self.max_total {
            Err(BudgetRejection::TotalTooLarge {
                current_total_bytes: self.total,
                requested_bytes: size,
                limit_bytes: self.max_total,
                excess_bytes: (sat_add_u64(self.total, size) - self.max_total) as u64,
            })
        } else {
            Ok(SourceReservation { reserved_bytes: size })
        }
    }

    /// The state after a reservation attempt of `size`: changed only when the
    /// attempt succeeds.
    pub open spec fn after_reserve(self, size: u64) -> BudgetView {
        if self.reserve_outcome(size) is Ok { self.with_reserved(size) } else { self }
    }

    /// The state after handing `reservation` back.
    pub open spec fn after_release(self, reservation: SourceReservation) -> BudgetView {
        BudgetView {
            total: sat_sub_u64(self.total, reservation.reserved_bytes),
            count: if self.count == 0 { 0 } else { (self.count - 1) as usize },
            ..self
        }
    }

    /// The total judged when `previous` is replaced by `new_size`: the current
    /// total without `previous`, plus `new_size` (each step saturating).
    pub open spec fn replaced_total(self, previous: SourceReservation, new_size: u64) -> u64 {
        sat_add_u64(sat_sub_u64(self.total, previous.reserved_bytes), new_size)
    }

    /// What replacing `previous` by a reservation of `new_size` answers.
    pub open spec fn replace_outcome(self, previous: SourceReservation, new_size: u64) -> Result<
        SourceReservation,
        BudgetRejection,
    > {
        if new_size > self.max_single {
            Err(BudgetRejection::SingleFileTooLarge { requested_bytes: new_size, limit_bytes: self.max_single })
        } else if self.replaced_total(previous, new_size) > self.max_total {
            Err(BudgetRejection::TotalTooLarge {
                current_total_bytes: self.total,
                requested_bytes: new_size,
                limit_bytes: self.max_total,
                excess_bytes: (self.replaced_total(previous, new_size) - self.max_total) as u64,
            })
        } else {
            Ok(SourceReservation { reserved_bytes: new_size })
        }
    }

    /// The state after a replacement attempt: changed only when it succeeds.
    pub open spec fn after_replace(self, previous: SourceReservation, new_size: u64) -> BudgetView {
        if self.replace_outcome(previous, new_size) is Ok {
            BudgetView { total: self.replaced_total(previous, new_size), ..self }
        } else {
            self
        }
    }
}

impl View for SourceBudget {
    type V = BudgetView;

    closed spec fn view(&self) -> BudgetView {
        BudgetView {
            total: self.total_bytes,
            count: self.count,
            max_total: self.max_total_bytes,
            max_single: self.max_single_file_bytes,
            max_count: self.max_source_count,
        }
    }
}

impl SourceBudget {
    /// Creates a budget with the default limits (2 GiB total, 1 GiB per file,
    /// 10 sources).
    pub fn new() -> (budget: Self)
        ensures
            budget@ == (BudgetView {
                total: 0,
                count: 0,
                max_total: MAX_TOTAL_BYTES,
                max_single: MAX_SINGLE_FILE_BYTES,
                max_count: MAX_SOURCE_COUNT,
            }),
            budget@.within_limits(),
    {
        Self::with_limits(MAX_TOTAL_BYTES, MAX_SINGLE_FILE_BYTES, MAX_SOURCE_COUNT)
    }

    /// Creates an empty budget with the given limits.
    pub fn with_limits(
        max_total_bytes: u64,
        max_single_file_bytes: u64,
        max_source_count: usize,
    ) -> (budget: Self)
        ensures
            budget@ == (BudgetView {
                total: 0,
                count: 0,
                max_total: max_total_bytes,
                max_single: max_single_file_bytes,
                max_count: max_source_count,
            }),
            budget@.within_limits(),
    {
        SourceBudget {
            total_bytes: 0,
            count: 0,
            max_total_bytes,
            max_single_file_bytes,
            max_source_count,
        }
    }

    /// The current total size in bytes.
    pub fn total_bytes(&self) -> (total: u64)
        ensures
            total == self@.total,
    {
        self.total_bytes
    }

    /// The number of sources currently reserved.
    pub fn count(&self) -> (count: usize)
        ensures
            count == self@.count,
    {
        self.count
    }

    /// Tries to add a source of `size_bytes` (compare and reserve). The single
    /// file limit is checked first, then the count, then the total; only a
    /// request that passes all three changes the budget.
    pub fn reserve(&mut self, size_bytes: u64) -> (result: Result<SourceReservation, BudgetRejection>)
        ensures
            result == old(self)@.reserve_outcome(size_bytes),
            final(self)@ == old(self)@.after_reserve(size_bytes),
            old(self)@.within_limits() ==> final(self)@.within_limits(),
    {
        if size_bytes > self.max_single_file_bytes {
            return Err(BudgetRejection::SingleFileTooLarge {
                requested_bytes: size_bytes,
                limit_bytes: self.max_single_file_bytes,
            });
        }
        if self.count >= self.max_source_count {
            return Err(BudgetRejection::TooManySources {
                current_count: self.count,
                limit_count: self.max_source_count,
            });
        }
        let new_total = self.total_bytes.saturating_add(size_bytes);
        if new_total > self.max_total_bytes {
            return Err(BudgetRejection::TotalTooLarge {
                current_total_bytes: self.total_bytes,
                requested_bytes: size_bytes,
                limit_bytes: self.max_total_bytes,
                excess_bytes: new_total - self.max_total_bytes,
            });
        }
        self.total_bytes = new_total;
        self.count = self.count + 1;
        Ok(SourceReservation { reserved_bytes: size_bytes })
    }

    /// Hands `reservation` back: its size leaves the total and the count drops
    /// by one (both saturating at zero).
    pub fn release(&mut self, reservation: SourceReservation)
        ensures
            final(self)@ == old(self)@.after_release(reservation),
            old(self)@.within_limits() ==> final(self)@.within_limits(),
    {
        self.total_bytes = self.total_bytes.saturating_sub(reservation.reserved_bytes);
        self.count = self.count.saturating_sub(1);
    }

    /// Replaces the reservation `previous` by one of `new_size_bytes` (an explicit
    /// reload). The total is judged without `previous`, so the same file is not
    /// counted twice; the count does not change. A refusal leaves the budget,
    /// and so `previous`, as it was.
    pub fn try_replace(
        &mut self,
        previous: SourceReservation,
        new_size_bytes: u64,
    ) -> (result: Result<SourceReservation, BudgetRejection>)
        ensures
            result == old(self)@.replace_outcome(previous, new_size_bytes),
            final(self)@ == old(self)@.after_replace(previous, new_size_bytes),
            old(self)@.within_limits() ==> final(self)@.within_limits(),
    {
        if new_size_bytes > self.max_single_file_bytes {
            return Err(BudgetRejection::SingleFileTooLarge {
                requested_bytes: new_size_bytes,
                limit_bytes: self.max_single_file_bytes,
            });
        }
        let total_without_old = self.total_bytes.saturating_sub(previous.reserved_bytes);
        let new_total = total_without_old.saturating_add(new_size_bytes);
        if new_total > self.max_total_bytes {
            return Err(BudgetRejection::TotalTooLarge {
                current_total_bytes: self.total_bytes,
                requested_bytes: new_size_bytes,
                limit_bytes: self.max_total_bytes,
                excess_bytes: new_total - self.max_total_bytes,
            });
        }
        self.total_bytes = new_total;
        Ok(SourceReservation { reserved_bytes: new_size_bytes })
    }
}


impl Default for SourceBudget {
    /// A budget with the default limits, as [`SourceBudget::new`].
    fn default() -> (budget: Self)
        ensures
            budget@ == (BudgetView {
                total: 0,
                count: 0,
                max_total: MAX_TOTAL_BYTES,
                max_single: MAX_SINGLE_FILE_BYTES,
                max_count: MAX_SOURCE_COUNT,
            }),
    {
        Self::new()
    }
}
/// A refused reservation leaves the budget exactly as it was, and an accepted
/// one adds its size to the total (unless the total saturates at `u64::MAX`)
/// and one to the count.
pub proof fn lemma_reserve_changes_only_on_success(budget: BudgetView, size: u64)
    ensures
        budget.reserve_outcome(size) is Err ==> budget.after_reserve(size) == budget,
        budget.reserve_outcome(size) is Ok && budget.total + size <= u64::MAX ==> {
            &&& budget.after_reserve(size).total == budget.total + size
            &&& budget.after_reserve(size).count == budget.count + 1
        },
{
}

/// Handing back a reservation right after it was granted restores the budget
/// (as long as the total did not saturate at `u64::MAX`).
pub proof fn lemma_release_undoes_reserve(budget: BudgetView, size: u64)
    requires
        budget.total + size <= u64::MAX,
        budget.reserve_outcome(size) is Ok,
    ensures
        budget.after_reserve(size).after_release(budget.reserve_outcome(size)->Ok_0) == budget,
{
}

/// Whatever is reserved, released or replaced, a budget within its limits
/// stays within them: the total never exceeds the total limit and the count
/// never exceeds the count limit.
pub proof fn lemma_limits_are_invariant(
    budget: BudgetView,
    size: u64,
    reservation: SourceReservation,
    new_size: u64,
)
    requires
        budget.within_limits(),
    ensures
        budget.after_reserve(size).within_limits(),
        budget.after_release(reservation).within_limits(),
        budget.after_replace(reservation, new_size).within_limits(),
{
}

/// Replacing a reservation that is part of the total and then replacing the
/// new one back by the old size is accepted and restores the total: a reload
/// is judged without counting the same file twice (as long as the total does
/// not saturate at `u64::MAX`).
pub proof fn lemma_replace_back_restores(budget: BudgetView, previous: SourceReservation, new_size: u64)
    requires
        budget.within_limits(),
        previous.reserved_bytes <= budget.total,
        previous.reserved_bytes <= budget.max_single,
        budget.total - previous.reserved_bytes + new_size <= u64::MAX,
        budget.replace_outcome(previous, new_size) is Ok,
    ensures
        budget.after_replace(previous, new_size).replace_outcome(
            budget.replace_outcome(previous, new_size)->Ok_0,
            previous.reserved_bytes,
        ) == Ok::<SourceReservation, BudgetRejection>(previous),
        budget.after_replace(previous, new_size).after_replace(
            budget.replace_outcome(previous, new_size)->Ok_0,
            previous.reserved_bytes,
        ) == budget,
{
    let first = budget.replace_outcome(previous, new_size)->Ok_0;
    let middle = budget.after_replace(previous, new_size);
    assert(first.reserved_bytes == new_size);
    assert(middle.total == budget.total - previous.reserved_bytes + new_size);
    assert(middle.replaced_total(first, previous.reserved_bytes) == budget.total);
}

} // verus!

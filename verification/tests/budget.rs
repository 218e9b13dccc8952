use hakutaku_core::{
    BudgetRejection, SourceBudget, MAX_SINGLE_FILE_BYTES, MAX_SOURCE_COUNT, MAX_TOTAL_BYTES,
};

#[test]
fn reserve_accepts_exactly_default_total_limit_and_rejects_one_byte_over() {
    let mut budget = SourceBudget::new();
    assert_eq!(budget.total_bytes(), 0);

    let first = budget
        .reserve(MAX_SINGLE_FILE_BYTES)
        .expect("単一上限ちょうどは許可されるはず");
    let second = budget
        .reserve(MAX_SINGLE_FILE_BYTES)
        .expect("合計上限ちょうどまでは許可されるはず");
    assert_eq!(budget.total_bytes(), MAX_TOTAL_BYTES);

    let rejected = budget
        .reserve(1)
        .expect_err("合計上限を1バイト超えるので拒否されるはず");
    assert!(matches!(rejected, BudgetRejection::TotalTooLarge { .. }));

    budget.release(first);
    budget.release(second);
    assert_eq!(budget.total_bytes(), 0);
}

#[test]
fn reserve_boundary_with_injected_small_limits() {
    let mut budget = SourceBudget::with_limits(1000, 1000, 10);

    let first = budget.reserve(600).expect("上限内なので許可されるはず");
    let second = budget
        .reserve(400)
        .expect("合計ちょうど1000なので許可されるはず");
    assert_eq!(budget.total_bytes(), 1000);

    let rejected = budget
        .reserve(1)
        .expect_err("合計1001は上限超過で拒否されるはず");
    match rejected {
        BudgetRejection::TotalTooLarge {
            current_total_bytes,
            requested_bytes,
            limit_bytes,
            excess_bytes,
        } => {
            assert_eq!(current_total_bytes, 1000);
            assert_eq!(requested_bytes, 1);
            assert_eq!(limit_bytes, 1000);
            assert_eq!(excess_bytes, 1);
        }
        other => panic!("TotalTooLarge を期待したが {other:?} だった"),
    }

    assert_eq!(budget.total_bytes(), 1000);
    assert_eq!(budget.count(), 2);

    budget.release(first);
    budget.release(second);
    assert_eq!(budget.total_bytes(), 0);
    assert_eq!(budget.count(), 0);
}

#[test]
fn reserve_rejects_single_file_over_default_limit() {
    let mut budget = SourceBudget::new();
    let rejected = budget
        .reserve(MAX_SINGLE_FILE_BYTES + 1)
        .expect_err("単一ファイル上限を1バイト超えるので拒否されるはず");
    assert_eq!(
        rejected,
        BudgetRejection::SingleFileTooLarge {
            requested_bytes: MAX_SINGLE_FILE_BYTES + 1,
            limit_bytes: MAX_SINGLE_FILE_BYTES,
        }
    );
    assert_eq!(budget.total_bytes(), 0);
    assert_eq!(budget.count(), 0);
}

#[test]
fn reserve_rejects_the_eleventh_file() {
    let mut budget = SourceBudget::with_limits(u64::MAX, u64::MAX, 10);

    let mut reservations = Vec::new();
    for _ in 0..10 {
        reservations.push(budget.reserve(1).expect("10件目までは許可されるはず"));
    }
    assert_eq!(budget.count(), 10);

    let rejected = budget
        .reserve(1)
        .expect_err("11件目はファイル数上限で拒否されるはず");
    assert_eq!(
        rejected,
        BudgetRejection::TooManySources {
            current_count: 10,
            limit_count: 10,
        }
    );
    assert_eq!(budget.count(), 10);

    for reservation in reservations {
        budget.release(reservation);
    }
    assert_eq!(budget.count(), 0);
}

#[test]
fn release_excludes_reservation_and_allows_re_adding() {
    let mut budget = SourceBudget::with_limits(1000, 1000, 1);

    let first = budget
        .reserve(1000)
        .expect("上限ちょうどなので許可されるはず");
    assert!(
        budget.reserve(1).is_err(),
        "件数上限（1件）に達しているので拒否されるはず"
    );

    budget.release(first);
    assert_eq!(budget.total_bytes(), 0);
    assert_eq!(budget.count(), 0);

    let second = budget
        .reserve(1000)
        .expect("close 後は合計から除外されているので許可されるはず");
    assert_eq!(budget.total_bytes(), 1000);
    budget.release(second);
}

#[test]
fn try_replace_judges_without_double_counting_the_old_reservation() {
    let mut budget = SourceBudget::with_limits(1000, 2000, 10);
    let reservation = budget.reserve(600).expect("許可されるはず");
    assert_eq!(budget.total_bytes(), 600);

    let replaced = budget
        .try_replace(reservation, 900)
        .expect("合計1000以内なので許可されるはず");
    assert_eq!(budget.total_bytes(), 900);

    let rejected = budget
        .try_replace(replaced, 1100)
        .expect_err("合計上限を超えるので拒否されるはず");
    assert!(matches!(rejected, BudgetRejection::TotalTooLarge { .. }));
    assert_eq!(
        budget.total_bytes(),
        900,
        "拒否時は置き換え前の予約がそのまま有効なはず"
    );
}

#[test]
fn budget_rejection_messages_are_japanese_and_include_key_numbers() {
    let single = BudgetRejection::SingleFileTooLarge {
        requested_bytes: 2000,
        limit_bytes: 1000,
    };
    let message = single.message();
    assert!(message.contains("2000"));
    assert!(message.contains("1000"));

    let total = BudgetRejection::TotalTooLarge {
        current_total_bytes: 900,
        requested_bytes: 200,
        limit_bytes: 1000,
        excess_bytes: 100,
    };
    let message = total.message();
    assert!(message.contains("900"));
    assert!(message.contains("200"));
    assert!(message.contains("1000"));
    assert!(message.contains("100"));
}

#[test]
fn budget_rejection_messages_render_exact_text() {
    assert_eq!(
        BudgetRejection::SingleFileTooLarge {
            requested_bytes: 2000,
            limit_bytes: 1000,
        }
        .message(),
        "単一ファイルの上限を超えています（要求 2000 バイト、上限 1000 バイト）。"
    );
    assert_eq!(
        BudgetRejection::TooManySources {
            current_count: 10,
            limit_count: 10,
        }
        .message(),
        "同時に開けるファイル数の上限に達しています（現在 10 件、上限 10 件）。"
    );
    assert_eq!(
        BudgetRejection::TotalTooLarge {
            current_total_bytes: 0,
            requested_bytes: 18446744073709551615,
            limit_bytes: 7,
            excess_bytes: 18446744073709551608,
        }
        .message(),
        "開いているファイルの合計サイズの上限を超えます（現在 0 バイト、追加要求 18446744073709551615 バイト、上限 7 バイト、超過量 18446744073709551608 バイト）。"
    );
}

#[test]
fn default_limits_are_two_gib_one_gib_and_ten_sources() {
    assert_eq!(MAX_TOTAL_BYTES, 2 * 1024 * 1024 * 1024);
    assert_eq!(MAX_SINGLE_FILE_BYTES, 1024 * 1024 * 1024);
    assert_eq!(MAX_SOURCE_COUNT, 10);
    let mut budget = SourceBudget::new();
    for _ in 0..MAX_SOURCE_COUNT {
        budget.reserve(0).expect("空のファイルでも1件として数える");
    }
    assert!(matches!(
        budget.reserve(0),
        Err(BudgetRejection::TooManySources { current_count: 10, limit_count: 10 })
    ));
}

#[test]
fn release_then_reserve_restores_the_same_total() {
    let mut budget = SourceBudget::with_limits(1000, 1000, 3);
    budget.reserve(300).expect("許可されるはず");
    let before_total = budget.total_bytes();
    let before_count = budget.count();
    let reservation = budget.reserve(500).expect("許可されるはず");
    budget.release(reservation);
    assert_eq!(budget.total_bytes(), before_total);
    assert_eq!(budget.count(), before_count);
}

#[test]
fn try_replace_back_restores_the_previous_total() {
    let mut budget = SourceBudget::with_limits(1000, 1000, 3);
    let reservation = budget.reserve(400).expect("許可されるはず");
    let replaced = budget.try_replace(reservation, 700).expect("許可されるはず");
    assert_eq!(budget.total_bytes(), 700);
    budget.try_replace(replaced, 400).expect("元のサイズへ戻せるはず");
    assert_eq!(budget.total_bytes(), 400);
    assert_eq!(budget.count(), 1);
}

#[test]
fn try_replace_rejects_single_file_over_limit_and_keeps_state() {
    let mut budget = SourceBudget::with_limits(1000, 500, 3);
    let reservation = budget.reserve(400).expect("許可されるはず");
    assert_eq!(
        budget.try_replace(reservation, 501),
        Err(BudgetRejection::SingleFileTooLarge {
            requested_bytes: 501,
            limit_bytes: 500,
        })
    );
    assert_eq!(budget.total_bytes(), 400);
    assert_eq!(budget.count(), 1);
}

#[test]
fn default_budget_has_the_default_limits() {
    let mut budget = SourceBudget::default();
    assert_eq!(budget.total_bytes(), 0);
    assert_eq!(budget.count(), 0);
    assert!(budget.reserve(MAX_SINGLE_FILE_BYTES + 1).is_err());
}

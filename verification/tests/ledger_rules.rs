use token_ledger::account::AccountId;
use token_ledger::ledger::{Ledger, LedgerError};
use token_ledger::operations::{
    get_balance, get_total_supply, get_transaction_history, mint_tokens,
    reward_course_completion, tip_peer, transfer_tokens,
};
use token_ledger::record::{TokenTransaction, TransactionType};
use token_ledger::table::encode;

fn who(tag: u8) -> AccountId {
    AccountId::new(vec![0xAB, tag]).unwrap()
}

fn funded(owner: u8, amount: u64) -> Ledger {
    let mut ledger = Ledger::new();
    mint_tokens(&mut ledger, &who(0), 1, who(owner), amount, String::from("seed")).unwrap();
    ledger
}

fn record(id: &str, kind: TransactionType, from: u8, to: u8, amount: u64, memo: &str) -> TokenTransaction {
    TokenTransaction {
        id: String::from(id),
        from: who(from),
        to: who(to),
        amount,
        transaction_type: kind,
        timestamp: 77,
        memo: String::from(memo),
    }
}

#[test]
fn new_ledger_is_empty() {
    let ledger = Ledger::new();
    assert_eq!(get_total_supply(&ledger), 0);
    assert_eq!(get_balance(&ledger, &who(1), None), 0);
    assert!(get_transaction_history(&ledger, &who(1), None).is_empty());
    assert!(!ledger.has_balance(&who(1)));
}

#[test]
fn unknown_account_has_zero_balance() {
    let ledger = funded(1, 10);
    assert_eq!(get_balance(&ledger, &who(2), None), 0);
    assert_eq!(get_balance(&ledger, &who(1), Some(who(3))), 0);
    assert_eq!(ledger.balance_of(&who(1)), 10);
}

#[test]
fn mint_record_names_the_caller_and_the_time() {
    let mut ledger = Ledger::new();
    let caller = who(8);
    let tx = mint_tokens(&mut ledger, &caller, 1234, who(1), 5, String::from("hello")).unwrap();
    assert_eq!(tx.id, format!("1234_{}", caller.to_text()));
    assert!(tx.from.same_as(&caller));
    assert!(tx.to.same_as(&who(1)));
    assert_eq!(tx.amount, 5);
    assert_eq!(tx.transaction_type, TransactionType::Mint);
    assert_eq!(tx.timestamp, 1234);
    assert_eq!(tx.memo, "hello");
}

#[test]
fn mints_add_up() {
    let mut ledger = funded(1, 10);
    mint_tokens(&mut ledger, &who(0), 2, who(1), 15, String::new()).unwrap();
    mint_tokens(&mut ledger, &who(0), 3, who(2), 7, String::new()).unwrap();
    assert_eq!(get_balance(&ledger, &who(1), None), 25);
    assert_eq!(get_balance(&ledger, &who(2), None), 7);
    assert_eq!(get_total_supply(&ledger), 32);
}

#[test]
fn transfer_conserves_the_sum_of_balances() {
    let mut ledger = funded(1, 100);
    transfer_tokens(&mut ledger, &who(1), 5, who(2), 33, String::new()).unwrap();
    let a = get_balance(&ledger, &who(1), None);
    let b = get_balance(&ledger, &who(2), None);
    assert_eq!((a, b), (67, 33));
    assert_eq!(a + b, 100);
    assert_eq!(get_balance(&ledger, &who(3), None), 0);
    assert_eq!(get_total_supply(&ledger), 100);
}

#[test]
fn transfer_of_the_whole_balance_is_accepted() {
    let mut ledger = funded(1, 100);
    transfer_tokens(&mut ledger, &who(1), 5, who(2), 100, String::new()).unwrap();
    assert_eq!(get_balance(&ledger, &who(1), None), 0);
    assert_eq!(get_balance(&ledger, &who(2), None), 100);
}

#[test]
fn transfer_of_one_more_than_the_balance_is_refused() {
    let mut ledger = funded(1, 100);
    let refused = transfer_tokens(&mut ledger, &who(1), 5, who(2), 101, String::new());
    assert_eq!(refused.err(), Some(LedgerError::InsufficientBalance));
    assert_eq!(get_balance(&ledger, &who(1), None), 100);
    assert_eq!(get_balance(&ledger, &who(2), None), 0);
    assert!(!ledger.has_balance(&who(2)));
    assert_eq!(get_transaction_history(&ledger, &who(1), None).len(), 1);
}

#[test]
fn tip_from_an_empty_account_is_refused() {
    let mut ledger = Ledger::new();
    let refused = tip_peer(&mut ledger, &who(1), 5, who(2), 1, String::from("tip"));
    assert_eq!(refused.err(), Some(LedgerError::InsufficientBalance));
    assert!(get_transaction_history(&ledger, &who(1), None).is_empty());
    assert_eq!(get_balance(&ledger, &who(2), None), 0);
}

#[test]
fn transfer_of_nothing_from_an_account_without_a_record() {
    let mut ledger = Ledger::new();
    let tx = transfer_tokens(&mut ledger, &who(1), 5, who(2), 0, String::from("zero")).unwrap();
    assert_eq!(tx.amount, 0);
    assert!(!ledger.has_balance(&who(1)));
    assert!(ledger.has_balance(&who(2)));
    assert_eq!(get_balance(&ledger, &who(1), None), 0);
    assert_eq!(get_balance(&ledger, &who(2), None), 0);
    assert_eq!(get_transaction_history(&ledger, &who(2), None).len(), 1);
}

#[test]
fn transfer_to_oneself_keeps_the_balance_and_is_logged() {
    let mut ledger = funded(1, 100);
    let tx = transfer_tokens(&mut ledger, &who(1), 5, who(1), 60, String::from("self")).unwrap();
    assert_eq!(tx.transaction_type, TransactionType::Transfer);
    assert_eq!(get_balance(&ledger, &who(1), None), 100);
    assert_eq!(get_total_supply(&ledger), 100);
    assert_eq!(get_transaction_history(&ledger, &who(1), None).len(), 2);
}

#[test]
fn transfer_to_oneself_near_the_largest_balance() {
    let mut ledger = funded(1, u64::MAX);
    transfer_tokens(&mut ledger, &who(1), 5, who(1), u64::MAX, String::new()).unwrap();
    assert_eq!(get_balance(&ledger, &who(1), None), u64::MAX);
}

#[test]
fn mint_past_the_largest_balance_is_refused() {
    let mut ledger = Ledger::new();
    reward_course_completion(&mut ledger, &who(0), 1, who(1), u64::MAX, String::from("c")).unwrap();
    let refused = mint_tokens(&mut ledger, &who(0), 2, who(1), 1, String::new());
    assert_eq!(refused.err(), Some(LedgerError::ValidationError));
    assert_eq!(get_balance(&ledger, &who(1), None), u64::MAX);
    assert_eq!(get_total_supply(&ledger), 0);
    assert_eq!(get_transaction_history(&ledger, &who(1), None).len(), 1);
}

#[test]
fn mint_past_the_largest_supply_is_refused() {
    let mut ledger = funded(1, u64::MAX);
    let refused = mint_tokens(&mut ledger, &who(0), 2, who(2), 1, String::new());
    assert_eq!(refused.err(), Some(LedgerError::ValidationError));
    assert_eq!(get_balance(&ledger, &who(2), None), 0);
    assert_eq!(get_total_supply(&ledger), u64::MAX);
}

#[test]
fn transfer_past_the_largest_balance_is_refused() {
    let mut ledger = Ledger::new();
    reward_course_completion(&mut ledger, &who(0), 1, who(1), u64::MAX, String::from("c")).unwrap();
    reward_course_completion(&mut ledger, &who(0), 2, who(2), 10, String::from("c")).unwrap();
    let refused = transfer_tokens(&mut ledger, &who(2), 3, who(1), 1, String::new());
    assert_eq!(refused.err(), Some(LedgerError::ValidationError));
    assert_eq!(get_balance(&ledger, &who(1), None), u64::MAX);
    assert_eq!(get_balance(&ledger, &who(2), None), 10);
}

#[test]
fn insufficient_balance_is_reported_before_an_oversized_memo() {
    let mut ledger = funded(1, 5);
    let refused = transfer_tokens(&mut ledger, &who(1), 2, who(2), 6, "m".repeat(600));
    assert_eq!(refused.err(), Some(LedgerError::InsufficientBalance));
}

#[test]
fn oversized_memo_is_refused_and_changes_nothing() {
    let mut ledger = funded(1, 5);
    let refused = mint_tokens(&mut ledger, &who(0), 2, who(1), 6, "m".repeat(600));
    assert_eq!(refused.err(), Some(LedgerError::ValidationError));
    assert_eq!(get_balance(&ledger, &who(1), None), 5);
    assert_eq!(get_total_supply(&ledger), 5);
    assert_eq!(get_transaction_history(&ledger, &who(1), None).len(), 1);
}

#[test]
fn record_of_exactly_the_largest_size_is_accepted() {
    let mut ledger = Ledger::new();
    let fixed = 7 * 4 + 8 + 1 + 8 + 2 + 2 + 2;
    let fits = record("id", TransactionType::Mint, 0, 1, 1, &"m".repeat(512 - fixed));
    assert_eq!(encode(&fits).unwrap().len(), 512);
    assert!(ledger.post(fits).is_ok());
    let too_long = record("i2", TransactionType::Mint, 0, 1, 1, &"m".repeat(513 - fixed));
    assert!(encode(&too_long).is_none());
    assert_eq!(ledger.post(too_long).err(), Some(LedgerError::ValidationError));
    assert_eq!(get_balance(&ledger, &who(1), None), 1);
}

#[test]
fn memo_size_counts_bytes_not_characters() {
    let mut ledger = Ledger::new();
    let fixed = 7 * 4 + 8 + 1 + 8 + 2 + 2 + 2;
    let fits = record("id", TransactionType::Mint, 0, 1, 1, &"é".repeat((512 - fixed) / 2));
    assert!(ledger.post(fits).is_ok());
    let too_long = record("i2", TransactionType::Mint, 0, 1, 1, &"é".repeat((512 - fixed) / 2 + 1));
    assert_eq!(ledger.post(too_long).err(), Some(LedgerError::ValidationError));
}

#[test]
fn reward_memo_names_the_course() {
    let mut ledger = Ledger::new();
    let tx = reward_course_completion(&mut ledger, &who(5), 9, who(1), 3, String::from("rust-101"))
        .unwrap();
    assert_eq!(tx.memo, "Course completion reward: rust-101");
    assert!(tx.from.same_as(&who(5)));
    let history = get_transaction_history(&ledger, &who(1), None);
    assert_eq!(history.len(), 1);
    assert_eq!(history[0].memo, "Course completion reward: rust-101");
    assert_eq!(history[0].transaction_type, TransactionType::CourseReward);
}

#[test]
fn every_accepted_operation_adds_one_record() {
    let mut ledger = Ledger::new();
    let mut expected = 0;
    for now in 1..=4u64 {
        mint_tokens(&mut ledger, &who(1), now, who(1), 10, String::new()).unwrap();
        expected += 1;
        assert_eq!(get_transaction_history(&ledger, &who(1), None).len(), expected);
    }
    tip_peer(&mut ledger, &who(1), 5, who(2), 1, String::new()).unwrap();
    transfer_tokens(&mut ledger, &who(1), 6, who(2), 1, String::new()).unwrap();
    reward_course_completion(&mut ledger, &who(1), 7, who(2), 1, String::new()).unwrap();
    assert_eq!(get_transaction_history(&ledger, &who(1), None).len(), 7);
    assert_eq!(get_transaction_history(&ledger, &who(2), None).len(), 3);
}

#[test]
fn earlier_records_stay_as_they_were() {
    let mut ledger = Ledger::new();
    let first = mint_tokens(&mut ledger, &who(1), 1, who(1), 10, String::from("one")).unwrap();
    transfer_tokens(&mut ledger, &who(1), 2, who(2), 4, String::from("two")).unwrap();
    tip_peer(&mut ledger, &who(1), 3, who(2), 4, String::from("three")).unwrap();
    let history = get_transaction_history(&ledger, &who(1), None);
    let kept = history.iter().find(|t| t.id == first.id).unwrap();
    assert_eq!(kept.memo, "one");
    assert_eq!(kept.amount, 10);
    assert_eq!(kept.timestamp, 1);
    assert_eq!(kept.transaction_type, TransactionType::Mint);
    assert!(kept.to.same_as(&who(1)));
}

#[test]
fn second_operation_of_one_caller_at_one_time_is_refused() {
    let mut ledger = Ledger::new();
    let first = mint_tokens(&mut ledger, &who(0), 50, who(1), 10, String::from("first")).unwrap();
    let second = mint_tokens(&mut ledger, &who(0), 50, who(1), 20, String::from("second"));
    assert_eq!(second.err(), Some(LedgerError::ValidationError));
    assert_eq!(get_balance(&ledger, &who(1), None), 10);
    assert_eq!(get_total_supply(&ledger), 10);
    let history = get_transaction_history(&ledger, &who(1), None);
    assert_eq!(history.len(), 1);
    assert_eq!(history[0].id, first.id);
    assert_eq!(history[0].memo, "first");
    assert_eq!(history[0].amount, 10);
    assert!(mint_tokens(&mut ledger, &who(0), 51, who(1), 20, String::new()).is_ok());
    assert!(mint_tokens(&mut ledger, &who(2), 50, who(1), 20, String::new()).is_ok());
    assert_eq!(get_balance(&ledger, &who(1), None), 50);
}

#[test]
fn record_with_an_id_of_the_log_is_refused_whatever_its_kind() {
    let mut ledger = Ledger::new();
    ledger.post(record("id", TransactionType::Mint, 0, 1, 10, "kept")).unwrap();
    for kind in [
        TransactionType::Mint,
        TransactionType::Transfer,
        TransactionType::CourseReward,
        TransactionType::PeerTip,
    ] {
        let refused = ledger.post(record("id", kind, 1, 2, 1, "again"));
        assert_eq!(refused.err(), Some(LedgerError::ValidationError));
    }
    assert_eq!(get_balance(&ledger, &who(1), None), 10);
    assert_eq!(get_balance(&ledger, &who(2), None), 0);
    let history = ledger.history_of(&who(1));
    assert_eq!(history.len(), 1);
    assert_eq!(history[0].memo, "kept");
}

#[test]
fn insufficient_balance_is_reported_before_a_repeated_id() {
    let mut ledger = Ledger::new();
    ledger.post(record("id", TransactionType::Mint, 0, 1, 10, "")).unwrap();
    let refused = ledger.post(record("id", TransactionType::Transfer, 1, 2, 11, ""));
    assert_eq!(refused.err(), Some(LedgerError::InsufficientBalance));
}

#[test]
fn history_holds_what_the_account_sent_and_received_only() {
    let mut ledger = funded(1, 100);
    transfer_tokens(&mut ledger, &who(1), 2, who(2), 10, String::from("to two")).unwrap();
    transfer_tokens(&mut ledger, &who(2), 3, who(3), 5, String::from("to three")).unwrap();
    let of_one = get_transaction_history(&ledger, &who(1), None);
    let of_two = get_transaction_history(&ledger, &who(9), Some(who(2)));
    let of_three = get_transaction_history(&ledger, &who(3), None);
    let of_four = get_transaction_history(&ledger, &who(4), None);
    assert_eq!(of_one.iter().map(|t| t.memo.as_str()).collect::<Vec<_>>(), vec!["seed", "to two"]);
    assert_eq!(of_two.iter().map(|t| t.memo.as_str()).collect::<Vec<_>>(), vec!["to two", "to three"]);
    assert_eq!(of_three.iter().map(|t| t.memo.as_str()).collect::<Vec<_>>(), vec!["to three"]);
    assert!(of_four.is_empty());
}

#[test]
fn history_is_ordered_by_id_not_by_time() {
    let mut ledger = Ledger::new();
    mint_tokens(&mut ledger, &who(1), 9, who(1), 1, String::from("at nine")).unwrap();
    mint_tokens(&mut ledger, &who(1), 10, who(1), 1, String::from("at ten")).unwrap();
    mint_tokens(&mut ledger, &who(1), 100, who(1), 1, String::from("at hundred")).unwrap();
    let memos: Vec<String> =
        get_transaction_history(&ledger, &who(1), None).into_iter().map(|t| t.memo).collect();
    assert_eq!(memos, vec!["at hundred", "at ten", "at nine"]);
}

#[test]
fn history_order_on_ids_of_different_lengths() {
    let mut ledger = Ledger::new();
    for id in ["b", "a", "ab", "", "aa", "é", "z"] {
        ledger.post(record(id, TransactionType::Mint, 0, 1, 1, "")).unwrap();
    }
    let ids: Vec<String> = ledger.history_of(&who(1)).into_iter().map(|t| t.id).collect();
    assert_eq!(ids, vec!["", "a", "aa", "ab", "b", "z", "é"]);
}

#[test]
fn queries_do_not_change_the_ledger() {
    let mut ledger = funded(1, 100);
    transfer_tokens(&mut ledger, &who(1), 2, who(2), 10, String::new()).unwrap();
    let first = (
        get_balance(&ledger, &who(1), None),
        get_total_supply(&ledger),
        get_transaction_history(&ledger, &who(1), None),
    );
    let second = (
        get_balance(&ledger, &who(1), None),
        get_total_supply(&ledger),
        get_transaction_history(&ledger, &who(1), None),
    );
    assert_eq!(first.0, second.0);
    assert_eq!(first.1, second.1);
    assert_eq!(first.2.len(), second.2.len());
    for (a, b) in first.2.iter().zip(second.2.iter()) {
        assert_eq!(encode(a), encode(b));
    }
}

#[test]
fn posted_record_is_returned_as_given() {
    let mut ledger = Ledger::new();
    let posted = ledger.post(record("custom-id", TransactionType::CourseReward, 3, 4, 12, "note")).unwrap();
    assert_eq!(posted.id, "custom-id");
    assert_eq!(posted.amount, 12);
    assert_eq!(posted.timestamp, 77);
    assert_eq!(posted.memo, "note");
    assert_eq!(ledger.balance_of(&who(4)), 12);
    assert_eq!(ledger.balance_of(&who(3)), 0);
    assert_eq!(ledger.total_supply(), 0);
}

#[test]
fn many_accounts_and_records_are_kept_apart() {
    let mut ledger = Ledger::new();
    for i in 0..60u8 {
        mint_tokens(&mut ledger, &who(200), i as u64, who(i), i as u64 + 1, String::new()).unwrap();
    }
    for i in 0..60u8 {
        assert_eq!(get_balance(&ledger, &who(i), None), i as u64 + 1);
        assert_eq!(get_transaction_history(&ledger, &who(i), None).len(), 1);
    }
    assert_eq!(get_transaction_history(&ledger, &who(200), None).len(), 60);
    assert_eq!(get_total_supply(&ledger), (1..=60).sum::<u64>());
}

#[test]
fn error_messages() {
    assert_eq!(LedgerError::InsufficientBalance.message(), "Insufficient balance");
    assert_eq!(LedgerError::RecordNotFound.message(), "Record not found");
    assert_eq!(LedgerError::ValidationError.message(), "Invalid or oversized input");
}

#[test]
fn opened_ledger_on_an_empty_memory_is_empty() {
    let mut ledger = Ledger::open().unwrap();
    assert!(ledger.audit());
    assert_eq!(get_total_supply(&ledger), 0);
    assert!(get_transaction_history(&ledger, &who(1), None).is_empty());
    mint_tokens(&mut ledger, &who(0), 1, who(1), 8, String::new()).unwrap();
    assert_eq!(get_balance(&ledger, &who(1), None), 8);
    assert_eq!(get_total_supply(&ledger), 8);
}

#[test]
fn audit_reads_every_record_back() {
    let mut ledger = funded(1, 100);
    transfer_tokens(&mut ledger, &who(1), 2, who(2), 10, String::from("é")).unwrap();
    tip_peer(&mut ledger, &who(2), 3, who(3), 1, String::new()).unwrap();
    assert!(ledger.audit());
    assert!(Ledger::new().audit());
}

#[test]
fn long_log_is_listed_whole_and_in_byte_order() {
    let mut ledger = Ledger::new();
    let mut ids: Vec<String> = Vec::new();
    let mut seed: u64 = 7;
    for n in 0..400u64 {
        seed = seed.wrapping_mul(6364136223846793005).wrapping_add(1442695040888963407);
        let id = format!("{}-{}", seed % 1000, n);
        ledger.post(record(&id, TransactionType::Mint, 0, 1, 1, "")).unwrap();
        ids.push(id);
    }
    ids.sort_by(|a, b| a.as_bytes().cmp(b.as_bytes()));
    let listed: Vec<String> = ledger.history_of(&who(1)).into_iter().map(|t| t.id).collect();
    assert_eq!(listed, ids);
    assert_eq!(ledger.balance_of(&who(1)), 400);
    assert_eq!(ledger.total_supply(), 400);
    assert!(ledger.audit());
}

use token_ledger::account::AccountId;
use token_ledger::ledger::{Ledger, LedgerError};
use token_ledger::operations::{
    get_balance, get_total_supply, get_transaction_history, mint_tokens,
    reward_course_completion, tip_peer, transfer_tokens,
};
use token_ledger::record::TransactionType;

fn account(tag: u8) -> AccountId {
    AccountId::new(vec![tag, 7, 7]).unwrap()
}

fn minted_ledger() -> Ledger {
    let mut ledger = Ledger::new();
    let issuer = account(9);
    mint_tokens(&mut ledger, &issuer, 1_000, account(1), 100, String::from("grant")).unwrap();
    ledger
}

#[test]
fn mint_credits_the_recipient_and_raises_the_supply() {
    let ledger = minted_ledger();
    let a = account(1);
    assert_eq!(get_balance(&ledger, &a, None), 100);
    assert_eq!(get_balance(&ledger, &account(9), Some(account(1))), 100);
    assert_eq!(get_total_supply(&ledger), 100);
}

#[test]
fn transfer_moves_the_amount_and_keeps_the_supply() {
    let mut ledger = minted_ledger();
    let a = account(1);
    let tx = transfer_tokens(&mut ledger, &a, 2_000, account(2), 40, String::from("rent")).unwrap();
    assert_eq!(tx.amount, 40);
    assert_eq!(tx.transaction_type, TransactionType::Transfer);
    assert_eq!(tx.timestamp, 2_000);
    assert_eq!(tx.memo, "rent");
    assert!(tx.from.same_as(&a));
    assert!(tx.to.same_as(&account(2)));
    assert_eq!(get_balance(&ledger, &a, None), 60);
    assert_eq!(get_balance(&ledger, &account(2), None), 40);
    assert_eq!(get_total_supply(&ledger), 100);
}

#[test]
fn overdrawn_transfer_is_refused_and_changes_nothing() {
    let mut ledger = minted_ledger();
    let a = account(1);
    transfer_tokens(&mut ledger, &a, 2_000, account(2), 40, String::from("rent")).unwrap();
    let refused = transfer_tokens(&mut ledger, &a, 3_000, account(2), 1000, String::from("more"));
    assert_eq!(refused.err(), Some(LedgerError::InsufficientBalance));
    assert_eq!(get_balance(&ledger, &a, None), 60);
    assert_eq!(get_balance(&ledger, &account(2), None), 40);
    assert_eq!(get_total_supply(&ledger), 100);
    assert_eq!(get_transaction_history(&ledger, &a, None).len(), 2);
}

#[test]
fn reward_credits_the_student_without_raising_the_supply() {
    let mut ledger = minted_ledger();
    let educator = account(5);
    let tx = reward_course_completion(&mut ledger, &educator, 4_000, account(3), 50, String::from("x"))
        .unwrap();
    assert_eq!(tx.transaction_type, TransactionType::CourseReward);
    assert_eq!(tx.memo, "Course completion reward: x");
    assert_eq!(get_balance(&ledger, &account(3), None), 50);
    assert_eq!(get_total_supply(&ledger), 100);
}

#[test]
fn two_tips_leave_two_records() {
    let mut ledger = Ledger::new();
    let d = account(4);
    let e = account(6);
    mint_tokens(&mut ledger, &account(9), 1, account(4), 25, String::new()).unwrap();
    let first = tip_peer(&mut ledger, &d, 10, account(6), 10, String::from("thanks")).unwrap();
    let second = tip_peer(&mut ledger, &d, 11, account(6), 10, String::from("again")).unwrap();
    assert_ne!(first.id, second.id);
    let history = get_transaction_history(&ledger, &e, None);
    assert_eq!(history.len(), 2);
    assert_eq!(history[0].id, first.id);
    assert_eq!(history[1].id, second.id);
    assert_eq!(history[0].transaction_type, TransactionType::PeerTip);
    assert_eq!(history[1].transaction_type, TransactionType::PeerTip);
    assert_eq!(history[0].memo, "thanks");
    assert_eq!(history[1].memo, "again");
    assert_eq!(get_balance(&ledger, &d, None), 5);
    assert_eq!(get_balance(&ledger, &e, None), 20);
}

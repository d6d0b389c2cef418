//! The operations of the token service.
//!
//! Each operation is attributed to its caller and stamped with the time it
//! was made at; both are given by whoever runs the service. The id of the
//! record is made of the two, so a second operation of one caller at one
//! time would have the id of the first, and is refused.

use crate::account::{account_text, query_target, AccountId};
use crate::ident::{transaction_id, transaction_id_text};
use crate::ledger::{balance_of, history_of, posted, Ledger, LedgerError};
use crate::table::views_of;
use crate::record::{TokenTransaction, TransactionType, TransactionView};
use vstd::prelude::*;
use vstd::string::*;

verus! {

/// The record of an operation of the given kind that `caller` makes at time
/// `now`.
pub open spec fn issued_record(
    kind: TransactionType,
    caller: Seq<u8>,
    now: u64,
    to: Seq<u8>,
    amount: u64,
    memo: Seq<char>,
) -> TransactionView {
    TransactionView {
        id: transaction_id_text(now, account_text(caller)),
        from: caller,
        to,
        amount,
        transaction_type: kind,
        timestamp: now,
        memo,
    }
}

/// The memo of the reward for completing the course `course_id`.
pub open spec fn reward_memo(course_id: Seq<char>) -> Seq<char> {
    "Course completion reward: "@ + course_id
}

/// Makes the record of an operation and posts it.
fn issue(
    ledger: &mut Ledger,
    kind: TransactionType,
    caller: &AccountId,
    now: u64,
    to: AccountId,
    amount: u64,
    memo: String,
) -> (result: Result<TokenTransaction, LedgerError>)
    requires
        old(ledger).well_formed(),
    ensures
        final(ledger).well_formed(),
        posted(
            old(ledger)@,
            issued_record(kind, caller@, now, to@, amount, memo@),
            result,
            final(ledger)@,
        ),
{
    let text = caller.to_text();
    let id = transaction_id(now, text.as_str());
    let tx = TokenTransaction {
        id,
        from: caller.clone(),
        to,
        amount,
        transaction_type: kind,
        timestamp: now,
        memo,
    };
    ledger.post(tx)
}

/// Mints `amount` to `to`: credits the account, raises the issuance counter
/// by `amount`, and logs a record of kind `Mint` from `caller`. Any caller
/// may mint any amount.
pub fn mint_tokens(
    ledger: &mut Ledger,
    caller: &AccountId,
    now: u64,
    to: AccountId,
    amount: u64,
    memo: String,
) -> (result: Result<TokenTransaction, LedgerError>)
    requires
        old(ledger).well_formed(),
    ensures
        final(ledger).well_formed(),
        posted(
            old(ledger)@,
            issued_record(TransactionType::Mint, caller@, now, to@, amount, memo@),
            result,
            final(ledger)@,
        ),
{
    issue(ledger, TransactionType::Mint, caller, now, to, amount, memo)
}

/// Transfers `amount` from `caller` to `to`, and logs a record of kind
/// `Transfer`. Refused with `InsufficientBalance` if `caller` holds less. A
/// transfer to oneself is accepted: it is logged and leaves the balance as
/// it was.
pub fn transfer_tokens(
    ledger: &mut Ledger,
    caller: &AccountId,
    now: u64,
    to: AccountId,
    amount: u64,
    memo: String,
) -> (result: Result<TokenTransaction, LedgerError>)
    requires
        old(ledger).well_formed(),
    ensures
        final(ledger).well_formed(),
        posted(
            old(ledger)@,
            issued_record(TransactionType::Transfer, caller@, now, to@, amount, memo@),
            result,
            final(ledger)@,
        ),
{
    issue(ledger, TransactionType::Transfer, caller, now, to, amount, memo)
}

/// Rewards `student` with `amount` for completing the course `course_id`:
/// credits the account and logs a record of kind `CourseReward` from
/// `caller`. The issuance counter stays as it is, so rewards are not part of
/// what it counts. Any caller may reward; whether the course was completed
/// is for the caller to know.
pub fn reward_course_completion(
    ledger: &mut Ledger,
    caller: &AccountId,
    now: u64,
    student: AccountId,
    amount: u64,
    course_id: String,
) -> (result: Result<TokenTransaction, LedgerError>)
    requires
        old(ledger).well_formed(),
    ensures
        final(ledger).well_formed(),
        posted(
            old(ledger)@,
            issued_record(
                TransactionType::CourseReward,
                caller@,
                now,
                student@,
                amount,
                reward_memo(course_id@),
            ),
            result,
            final(ledger)@,
        ),
{
    let memo = String::from_str("Course completion reward: ").concat(course_id.as_str());
    issue(ledger, TransactionType::CourseReward, caller, now, student, amount, memo)
}

/// Tips `to` with `amount` from `caller`: a transfer logged with the kind
/// `PeerTip`.
pub fn tip_peer(
    ledger: &mut Ledger,
    caller: &AccountId,
    now: u64,
    to: AccountId,
    amount: u64,
    memo: String,
) -> (result: Result<TokenTransaction, LedgerError>)
    requires
        old(ledger).well_formed(),
    ensures
        final(ledger).well_formed(),
        posted(
            old(ledger)@,
            issued_record(TransactionType::PeerTip, caller@, now, to@, amount, memo@),
            result,
            final(ledger)@,
        ),
{
    issue(ledger, TransactionType::PeerTip, caller, now, to, amount, memo)
}

/// The balance of `principal`, or of `caller` if no account is named; zero
/// for an account without a record.
pub fn get_balance(ledger: &Ledger, caller: &AccountId, principal: Option<AccountId>) -> (balance:
    u64)
    requires
        ledger.well_formed(),
    ensures
        balance == balance_of(ledger@, query_target(caller@, principal)),
{
    match principal {
        Some(account) => ledger.balance_of(&account),
        None => ledger.balance_of(caller),
    }
}

/// The records that involve `principal`, or `caller` if no account is named,
/// in the ascending order of their ids' UTF-8 bytes.
pub fn get_transaction_history(
    ledger: &Ledger,
    caller: &AccountId,
    principal: Option<AccountId>,
) -> (history: Vec<TokenTransaction>)
    requires
        ledger.well_formed(),
    ensures
        views_of(history@) == history_of(ledger@, query_target(caller@, principal)),
{
    match principal {
        Some(account) => ledger.history_of(&account),
        None => ledger.history_of(caller),
    }
}

/// The sum of all amounts minted.
pub fn get_total_supply(ledger: &Ledger) -> (total: u64)
    requires
        ledger.well_formed(),
    ensures
        total == ledger@.total_supply,
{
    ledger.total_supply()
}

} // verus!

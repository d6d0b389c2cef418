//! What holds of every ledger, stated over the ledger's mathematical state.
//!
//! The operations are specified by [`rejection`] and [`applied`]; the
//! theorems here are consequences of those two definitions.

use crate::ledger::{
    applied, balance_of, history_of, involves, moves_funds, rejection, LedgerError, LedgerView,
};
use crate::record::{TransactionType, TransactionView};
use crate::table::{lemma_ordered_keys_unique, lists_keys_of, ordered_values};
use vstd::prelude::*;
use vstd::utf8::*;

verus! {

/// What posting `t` gives to `account`.
pub open spec fn received(t: TransactionView, account: Seq<u8>) -> int {
    if t.to == account {
        t.amount as int
    } else {
        0
    }
}

/// What posting `t` takes from `account`.
pub open spec fn paid(t: TransactionView, account: Seq<u8>) -> int {
    if moves_funds(t.transaction_type) && t.from == account {
        t.amount as int
    } else {
        0
    }
}

/// The ledger after `t` is offered to `s`: changed if the record is
/// accepted, and as it was if not.
pub open spec fn step(s: LedgerView, t: TransactionView) -> LedgerView {
    if rejection(s, t) is None {
        applied(s, t)
    } else {
        s
    }
}

/// The ledger after the records of `ts` are offered to `s` one after another.
pub open spec fn run(s: LedgerView, ts: Seq<TransactionView>) -> LedgerView
    decreases ts.len(),
{
    if ts.len() == 0 {
        s
    } else {
        step(run(s, ts.drop_last()), ts.last())
    }
}

/// An accepted record changes each balance by exactly what the account
/// receives less what it pays, with no wrap-around, and the sender of a
/// transfer or tip held at least the amount.
pub proof fn law_balance_change(s: LedgerView, t: TransactionView, account: Seq<u8>)
    requires
        rejection(s, t) is None,
    ensures
        balance_of(applied(s, t), account) == balance_of(s, account) + received(t, account) - paid(
            t,
            account,
        ),
        balance_of(s, account) - paid(t, account) >= 0,
{
}

/// A transfer or tip of more than the sender holds is refused for
/// insufficient balance, and offering it leaves the whole ledger, so every
/// balance, as it was.
pub proof fn law_overdraft_is_refused(s: LedgerView, t: TransactionView)
    requires
        moves_funds(t.transaction_type),
        balance_of(s, t.from) < t.amount,
    ensures
        rejection(s, t) == Some(LedgerError::InsufficientBalance),
        step(s, t) == s,
{
}

/// Whatever records are offered to a ledger, in whatever order, no balance
/// is ever below zero, at any point on the way.
pub proof fn law_balances_never_negative(s: LedgerView, ts: Seq<TransactionView>, account: Seq<u8>)
    ensures
        forall|n: int| 0 <= n <= ts.len() ==> balance_of(#[trigger] run(s, ts.take(n)), account) >= 0,
{
}

/// Offering a record to a ledger either changes each balance by what the
/// account receives less what it pays, or, if the record is refused, leaves
/// the whole ledger as it was; and a record that would take more than its
/// sender holds is among those refused.
pub proof fn law_each_step_keeps_the_books(s: LedgerView, t: TransactionView, account: Seq<u8>)
    ensures
        rejection(s, t) is None ==> balance_of(step(s, t), account) == balance_of(s, account)
            + received(t, account) - paid(t, account),
        rejection(s, t) is Some ==> step(s, t) == s,
        balance_of(s, account) < paid(t, account) ==> rejection(s, t) == Some(
            LedgerError::InsufficientBalance,
        ),
{
    if rejection(s, t) is None {
        law_balance_change(s, t, account);
    }
}

/// An accepted transfer or tip between two different accounts lowers the
/// sender's balance by exactly the amount, raises the recipient's by exactly
/// the amount, and leaves every other balance and the issuance counter as
/// they were.
pub proof fn law_transfer_conserves(s: LedgerView, t: TransactionView)
    requires
        moves_funds(t.transaction_type),
        rejection(s, t) is None,
        t.from != t.to,
    ensures
        balance_of(applied(s, t), t.from) == balance_of(s, t.from) - t.amount,
        balance_of(applied(s, t), t.to) == balance_of(s, t.to) + t.amount,
        forall|other: Seq<u8>|
            other != t.from && other != t.to ==> #[trigger] balance_of(applied(s, t), other)
                == balance_of(s, other),
        applied(s, t).total_supply == s.total_supply,
{
}

/// An accepted transfer or tip from an account to itself leaves every
/// balance and the issuance counter as they were.
pub proof fn law_self_transfer_keeps_balances(s: LedgerView, t: TransactionView)
    requires
        moves_funds(t.transaction_type),
        rejection(s, t) is None,
        t.from == t.to,
    ensures
        forall|account: Seq<u8>| #[trigger]
            balance_of(applied(s, t), account) == balance_of(s, account),
        applied(s, t).total_supply == s.total_supply,
{
}

/// An accepted mint raises the issuance counter and the recipient's balance
/// by exactly the amount, and leaves every other balance as it was.
pub proof fn law_mint_raises_issuance(s: LedgerView, t: TransactionView)
    requires
        t.transaction_type == TransactionType::Mint,
        rejection(s, t) is None,
    ensures
        applied(s, t).total_supply == s.total_supply + t.amount,
        balance_of(applied(s, t), t.to) == balance_of(s, t.to) + t.amount,
        forall|other: Seq<u8>|
            other != t.to ==> #[trigger] balance_of(applied(s, t), other) == balance_of(s, other),
{
}

/// Only a mint changes the issuance counter: an accepted reward credits the
/// student by exactly the amount and leaves the counter as it was.
pub proof fn law_reward_leaves_issuance(s: LedgerView, t: TransactionView)
    requires
        t.transaction_type == TransactionType::CourseReward,
        rejection(s, t) is None,
    ensures
        applied(s, t).total_supply == s.total_supply,
        balance_of(applied(s, t), t.to) == balance_of(s, t.to) + t.amount,
{
}

/// An accepted record adds exactly one record to the log, under an id that
/// the log did not hold, and leaves every record already there as it was.
pub proof fn law_log_is_append_only(s: LedgerView, t: TransactionView)
    requires
        rejection(s, t) is None,
    ensures
        !s.transactions.contains_key(encode_utf8(t.id)),
        applied(s, t).transactions.dom() == s.transactions.dom().insert(encode_utf8(t.id)),
        applied(s, t).transactions[encode_utf8(t.id)] == t,
        forall|key: Seq<u8>| #[trigger]
            s.transactions.contains_key(key) ==> applied(s, t).transactions.contains_key(key)
                && applied(s, t).transactions[key] == s.transactions[key],
{
    assert(applied(s, t).transactions.dom() =~= s.transactions.dom().insert(encode_utf8(t.id)));
}

/// Whatever records are offered to a ledger, every record that its log ever
/// held is still there, unchanged.
pub proof fn law_records_are_never_lost(s: LedgerView, ts: Seq<TransactionView>, key: Seq<u8>)
    requires
        s.transactions.contains_key(key),
    ensures
        run(s, ts).transactions.contains_key(key),
        run(s, ts).transactions[key] == s.transactions[key],
    decreases ts.len(),
{
    if ts.len() > 0 {
        law_records_are_never_lost(s, ts.drop_last(), key);
        let before = run(s, ts.drop_last());
        if rejection(before, ts.last()) is None {
            law_log_is_append_only(before, ts.last());
        }
    }
}

/// What the accepted mints among `ts`, offered to `s` one after another,
/// add up to.
pub open spec fn minted(s: LedgerView, ts: Seq<TransactionView>) -> int
    decreases ts.len(),
{
    if ts.len() == 0 {
        0
    } else {
        minted(s, ts.drop_last()) + if rejection(run(s, ts.drop_last()), ts.last()) is None
            && ts.last().transaction_type == TransactionType::Mint {
            ts.last().amount as int
        } else {
            0
        }
    }
}

/// The issuance counter is the sum of the amounts minted: whatever records
/// are offered to a ledger, the counter grows by what the accepted mints
/// among them add up to, and by nothing else.
pub proof fn law_issuance_is_the_sum_of_mints(s: LedgerView, ts: Seq<TransactionView>)
    ensures
        run(s, ts).total_supply == s.total_supply + minted(s, ts),
    decreases ts.len(),
{
    if ts.len() > 0 {
        law_issuance_is_the_sum_of_mints(s, ts.drop_last());
    }
}

/// The history of an account holds the records that involve it, in the
/// ascending order of the keys of the log: whoever lists the keys of the log
/// in that order finds the history by reading the records off the list and
/// keeping those that involve the account.
pub proof fn law_history_follows_the_keys(s: LedgerView, account: Seq<u8>, keys: Seq<Seq<u8>>)
    requires
        lists_keys_of(keys, s.transactions),
    ensures
        history_of(s, account) == Seq::new(keys.len(), |i: int| s.transactions[keys[i]]).filter(
            |t: TransactionView| involves(t, account),
        ),
{
    lemma_ordered_keys_unique(keys, s.transactions);
    assert(ordered_values(s.transactions) =~= Seq::new(
        keys.len(),
        |i: int| s.transactions[keys[i]],
    ));
}

/// A posting that is refused leaves the history of every account as it was.
pub proof fn law_refused_posting_keeps_histories(s: LedgerView, t: TransactionView, account: Seq<u8>)
    requires
        rejection(s, t) is Some,
    ensures
        history_of(step(s, t), account) == history_of(s, account),
{
}

} // verus!

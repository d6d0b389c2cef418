//! The ledger: balances, the transaction log and the issuance counter.
//!
//! Every change of a balance is the posting of one transaction record. A
//! posting is checked in full before anything is written, so a rejected
//! record leaves the ledger as it was. A record is entered in the log once,
//! under an id that no other record has, and stays there unchanged.

use crate::account::{AccountId, MAX_ACCOUNT_BYTES};
use crate::fields::{field_u64, lemma_fields_read_back, read_u64, u64_field};
use crate::record::{BalanceView, TokenBalance, TokenTransaction, TransactionType, TransactionView};
use crate::store::{store_triple, store_triple_opened, RecordStore};
use crate::table::{
    chosen, encode, lemma_key_within_record, ordered_values, storable, table_check,
    table_get, table_has, table_list, table_ok, table_put, table_view, views_of, Choice,
    Record,
};
use crate::wire::{copy_bytes, field_views, packed, string_bytes};
use vstd::bytes::*;
use vstd::prelude::*;
use vstd::string::*;
use vstd::utf8::*;

verus! {

/// Why an operation was refused. The ledger refuses with these three; the
/// errors of the other services each fall in one of them.
#[derive(Clone, Copy, Debug, PartialEq, Eq, Structural)]
pub enum LedgerError {
    /// The sender holds less than the amount to be moved.
    InsufficientBalance,
    /// The entity asked for does not exist.
    RecordNotFound,
    /// The input is malformed or too large to be recorded.
    ValidationError,
}

/// What an error says to the caller.
pub open spec fn error_text(error: LedgerError) -> Seq<char> {
    match error {
        LedgerError::InsufficientBalance => "Insufficient balance"@,
        LedgerError::RecordNotFound => "Record not found"@,
        LedgerError::ValidationError => "Invalid or oversized input"@,
    }
}

impl LedgerError {
    /// What the error says to the caller.
    pub fn message(&self) -> (text: String)
        ensures
            text@ == error_text(*self),
    {
        match self {
            LedgerError::InsufficientBalance => String::from_str("Insufficient balance"),
            LedgerError::RecordNotFound => String::from_str("Record not found"),
            LedgerError::ValidationError => String::from_str("Invalid or oversized input"),
        }
    }
}

/// The state of a ledger as a mathematical value.
pub struct LedgerView {
    /// The balance record of every account that has one, by the account's bytes.
    pub balances: Map<Seq<u8>, BalanceView>,
    /// The transaction log, by the UTF-8 bytes of the transaction id.
    pub transactions: Map<Seq<u8>, TransactionView>,
    /// The sum of all amounts minted.
    pub total_supply: u64,
}

/// The ledger before any operation.
pub open spec fn empty_ledger() -> LedgerView {
    LedgerView { balances: Map::empty(), transactions: Map::empty(), total_supply: 0 }
}

/// The balance of an account; zero for an account without a record.
pub open spec fn balance_of(s: LedgerView, account: Seq<u8>) -> u64 {
    if s.balances.contains_key(account) {
        s.balances[account].balance
    } else {
        0
    }
}

/// Whether a kind of transaction takes its amount from the sender.
pub open spec fn moves_funds(kind: TransactionType) -> bool {
    kind == TransactionType::Transfer || kind == TransactionType::PeerTip
}

/// The balances after `amount` is taken from `account` at time `now`. An
/// account without a record has nothing to take from and gets no record.
pub open spec fn debited(
    balances: Map<Seq<u8>, BalanceView>,
    account: Seq<u8>,
    amount: u64,
    now: u64,
) -> Map<Seq<u8>, BalanceView> {
    if balances.contains_key(account) {
        balances.insert(
            account,
            BalanceView {
                owner: account,
                balance: (balances[account].balance - amount) as u64,
                updated_at: now,
            },
        )
    } else {
        balances
    }
}

/// The balances after `amount` is given to `account` at time `now`. An
/// account without a record gets one, starting from zero.
pub open spec fn credited(
    balances: Map<Seq<u8>, BalanceView>,
    account: Seq<u8>,
    amount: u64,
    now: u64,
) -> Map<Seq<u8>, BalanceView> {
    let before: int = if balances.contains_key(account) {
        balances[account].balance as int
    } else {
        0
    };
    balances.insert(
        account,
        BalanceView { owner: account, balance: (before + amount) as u64, updated_at: now },
    )
}

/// The balances after the record `t` is posted.
pub open spec fn balances_after(
    balances: Map<Seq<u8>, BalanceView>,
    t: TransactionView,
) -> Map<Seq<u8>, BalanceView> {
    if moves_funds(t.transaction_type) {
        credited(debited(balances, t.from, t.amount, t.timestamp), t.to, t.amount, t.timestamp)
    } else {
        credited(balances, t.to, t.amount, t.timestamp)
    }
}

/// What the recipient of `t` holds once the sender has paid and before the
/// recipient is credited.
pub open spec fn recipient_holds(s: LedgerView, t: TransactionView) -> int {
    if moves_funds(t.transaction_type) && t.from == t.to {
        balance_of(s, t.to) - t.amount
    } else {
        balance_of(s, t.to) as int
    }
}

/// Why the record `t` cannot be posted to `s`, if it cannot.
///
/// A transfer or a tip of more than the sender holds is refused for
/// insufficient balance. Otherwise a record is refused as invalid if its
/// stored form would take more than the bytes allowed, if the log holds a
/// record with its id already, or if the recipient's balance or, for a mint,
/// the issuance counter would pass the largest 64-bit number.
pub open spec fn rejection(s: LedgerView, t: TransactionView) -> Option<LedgerError> {
    if moves_funds(t.transaction_type) && balance_of(s, t.from) < t.amount {
        Some(LedgerError::InsufficientBalance)
    } else if !storable::<TokenTransaction>(t) {
        Some(LedgerError::ValidationError)
    } else if s.transactions.contains_key(encode_utf8(t.id)) {
        Some(LedgerError::ValidationError)
    } else if recipient_holds(s, t) + t.amount > u64::MAX {
        Some(LedgerError::ValidationError)
    } else if t.transaction_type == TransactionType::Mint && s.total_supply + t.amount
        > u64::MAX {
        Some(LedgerError::ValidationError)
    } else {
        None
    }
}

/// The ledger after the record `t` is posted to `s`.
///
/// A mint credits the recipient and raises the issuance counter. A reward
/// credits the recipient and leaves the counter alone. A transfer or a tip
/// debits the sender and credits the recipient. In each case the record is
/// entered in the log under the UTF-8 bytes of its id.
pub open spec fn applied(s: LedgerView, t: TransactionView) -> LedgerView {
    LedgerView {
        balances: balances_after(s.balances, t),
        transactions: s.transactions.insert(encode_utf8(t.id), t),
        total_supply: if t.transaction_type == TransactionType::Mint {
            (s.total_supply + t.amount) as u64
        } else {
            s.total_supply
        },
    }
}

/// What posting the record `t` to `before` gives: either the record and the
/// ledger after it, or the reason for refusing it and the ledger unchanged.
pub open spec fn posted(
    before: LedgerView,
    t: TransactionView,
    result: Result<TokenTransaction, LedgerError>,
    after: LedgerView,
) -> bool {
    match result {
        Ok(record) => {
            &&& rejection(before, t) is None
            &&& record@ == t
            &&& after == applied(before, t)
        },
        Err(error) => {
            &&& rejection(before, t) == Some(error)
            &&& after == before
        },
    }
}

/// Whether `account` is the sender or the recipient of `t`.
pub open spec fn involves(t: TransactionView, account: Seq<u8>) -> bool {
    t.from == account || t.to == account
}

/// The records of `s` that involve `account`, in the ascending order of
/// their ids' UTF-8 bytes.
pub open spec fn history_of(s: LedgerView, account: Seq<u8>) -> Seq<TransactionView> {
    ordered_values(s.transactions).filter(|t: TransactionView| involves(t, account))
}

/// The most bytes the stored issuance counter may take.
pub const MAX_COUNTER_BYTES: usize = 16;

/// The issuance counter as it is stored.
#[derive(Debug)]
pub struct Counter {
    pub total: u64,
}

impl View for Counter {
    type V = u64;

    open spec fn view(&self) -> u64 {
        self.total
    }
}

impl Record for Counter {
    open spec fn limit() -> nat {
        MAX_COUNTER_BYTES as nat
    }

    open spec fn valid(value: u64) -> bool {
        true
    }

    open spec fn fields_of(value: u64) -> Seq<Seq<u8>> {
        seq![u64_field(value)]
    }

    open spec fn of_fields(fields: Seq<Seq<u8>>) -> Option<u64> {
        if fields.len() == 1 {
            field_u64(fields[0])
        } else {
            None
        }
    }

    proof fn lemma_fields_read_back(value: u64) {
        lemma_fields_read_back();
    }

    fn size_limit() -> (limit: usize) {
        MAX_COUNTER_BYTES
    }

    fn to_fields(&self) -> (fields: Option<Vec<Vec<u8>>>) {
        let mut fields: Vec<Vec<u8>> = Vec::new();
        fields.push(u64_to_le_bytes(self.total));
        proof {
            assert(field_views(fields@) =~= Self::fields_of(self@));
        }
        Some(fields)
    }

    fn from_fields(fields: &Vec<Vec<u8>>) -> (value: Option<Counter>) {
        if fields.len() != 1 {
            return None;
        }
        match read_u64(&fields[0]) {
            Some(total) => Some(Counter { total }),
            None => None,
        }
    }
}

/// The key under which the issuance counter is stored.
pub open spec fn counter_key() -> Seq<u8> {
    seq![0u8]
}

/// The counter that a counter store holds; zero if it holds none.
pub open spec fn stored_total(counters: Map<Seq<u8>, u64>) -> u64 {
    if counters.contains_key(counter_key()) {
        counters[counter_key()]
    } else {
        0
    }
}

/// A counter always fits its stored form.
proof fn lemma_counter_fits(total: u64)
    ensures
        storable::<Counter>(total),
{
    lemma_auto_spec_u64_to_from_le_bytes();
    lemma_auto_spec_u32_to_from_le_bytes();
    let fields = <Counter as Record>::fields_of(total);
    reveal_with_fuel(packed, 2);
    assert(fields.drop_last() =~= Seq::<Seq<u8>>::empty());
}

/// A ledger held in three durable stores: the balances, the transaction
/// log, and the issuance counter.
pub struct Ledger {
    balances: RecordStore,
    transactions: RecordStore,
    counters: RecordStore,
}

impl View for Ledger {
    type V = LedgerView;

    closed spec fn view(&self) -> LedgerView {
        LedgerView {
            balances: table_view::<TokenBalance>(self.balances),
            transactions: table_view::<TokenTransaction>(self.transactions),
            total_supply: stored_total(table_view::<Counter>(self.counters)),
        }
    }
}

impl Ledger {
    /// Every stored record reads back. This holds of a new ledger and of one
    /// that was opened, and every operation keeps it.
    pub closed spec fn well_formed(&self) -> bool {
        &&& table_ok::<TokenBalance>(self.balances)
        &&& table_ok::<TokenTransaction>(self.transactions)
        &&& table_ok::<Counter>(self.counters)
    }

    /// An empty ledger, in place of whatever the memory held.
    pub fn new() -> (ledger: Ledger)
        ensures
            ledger.well_formed(),
            ledger@ == empty_ledger(),
    {
        let (balances, transactions, counters) = store_triple();
        let ledger = Ledger { balances, transactions, counters };
        proof {
            assert(ledger@.balances =~= Map::<Seq<u8>, BalanceView>::empty());
            assert(ledger@.transactions =~= Map::<Seq<u8>, TransactionView>::empty());
        }
        ledger
    }

    /// The ledger that the memory holds, after a restart: empty if the
    /// memory holds none, and `None` if a record in it does not read back.
    pub fn open() -> (ledger: Option<Ledger>)
        ensures
            ledger is Some ==> ledger->0.well_formed(),
    {
        let (balances, transactions, counters) = store_triple_opened();
        Ledger::from_stores(balances, transactions, counters)
    }

    /// Reads every stored record and tells whether each reads back.
    pub fn audit(&self) -> (sound: bool)
        ensures
            sound == self.well_formed(),
    {
        table_check::<TokenBalance>(&self.balances) && table_check::<TokenTransaction>(
            &self.transactions,
        ) && table_check::<Counter>(&self.counters)
    }

    /// The ledger that three stores hold: its balances, its log and its
    /// counter are what the stores' records read back as. `None` if a record
    /// of one of them does not read back as what that store is for.
    pub fn from_stores(
        balances: RecordStore,
        transactions: RecordStore,
        counters: RecordStore,
    ) -> (ledger: Option<Ledger>)
        ensures
            ledger is Some == (table_ok::<TokenBalance>(balances) && table_ok::<TokenTransaction>(
                transactions,
            ) && table_ok::<Counter>(counters)),
            ledger is Some ==> ledger->0.well_formed(),
            ledger is Some ==> ledger->0@ == (LedgerView {
                balances: table_view::<TokenBalance>(balances),
                transactions: table_view::<TokenTransaction>(transactions),
                total_supply: stored_total(table_view::<Counter>(counters)),
            }),
    {
        let ledger = Ledger { balances, transactions, counters };
        if ledger.audit() {
            Some(ledger)
        } else {
            None
        }
    }

    /// The sum of all amounts minted.
    pub fn total_supply(&self) -> (total: u64)
        requires
            self.well_formed(),
        ensures
            total == self@.total_supply,
    {
        let mut key: Vec<u8> = Vec::new();
        key.push(0u8);
        assert(key@ =~= counter_key());
        match table_get::<Counter>(&self.counters, &key) {
            Some(counter) => counter.total,
            None => 0,
        }
    }

    /// Sets the issuance counter.
    fn write_total(&mut self, total: u64)
        requires
            old(self).well_formed(),
        ensures
            final(self).well_formed(),
            final(self)@.total_supply == total,
            final(self)@.balances == old(self)@.balances,
            final(self)@.transactions == old(self)@.transactions,
    {
        let mut key: Vec<u8> = Vec::new();
        key.push(0u8);
        assert(key@ =~= counter_key());
        proof {
            lemma_counter_fits(total);
        }
        let stored = table_put::<Counter>(&mut self.counters, key, &Counter { total });
        assert(stored);
    }

    /// The balance of `account`; zero if it has no record.
    pub fn balance_of(&self, account: &AccountId) -> (balance: u64)
        requires
            self.well_formed(),
        ensures
            balance == balance_of(self@, account@),
    {
        match table_get::<TokenBalance>(&self.balances, account.as_bytes()) {
            Some(record) => record.balance,
            None => 0,
        }
    }

    /// Whether `account` has a balance record.
    pub fn has_balance(&self, account: &AccountId) -> (found: bool)
        ensures
            found == self@.balances.contains_key(account@),
    {
        table_has(&self.balances, account.as_bytes())
    }

    /// Writes the balance record of `account`.
    fn write_balance(&mut self, account: &AccountId, balance: u64, now: u64)
        requires
            old(self).well_formed(),
        ensures
            final(self).well_formed(),
            final(self)@.balances == old(self)@.balances.insert(
                account@,
                BalanceView { owner: account@, balance, updated_at: now },
            ),
            final(self)@.transactions == old(self)@.transactions,
            final(self)@.total_supply == old(self)@.total_supply,
    {
        let key = copy_bytes(account.as_bytes());
        let record = TokenBalance { owner: account.clone(), balance, updated_at: now };
        proof {
            lemma_balance_fits(record@);
        }
        let stored = table_put::<TokenBalance>(&mut self.balances, key, &record);
        assert(stored);
    }

    /// Posts a transaction record: checks it against the ledger, and if it
    /// can be posted, changes the balances as its kind says and enters it in
    /// the log under its id.
    ///
    /// A record that cannot be posted is refused with the reason that
    /// [`rejection`] gives, and nothing is written. The record is taken as it
    /// is given; the operations of the token service make it from the caller
    /// and the time.
    pub fn post(&mut self, tx: TokenTransaction) -> (result: Result<TokenTransaction, LedgerError>)
        requires
            old(self).well_formed(),
        ensures
            final(self).well_formed(),
            posted(old(self)@, tx@, result, final(self)@),
    {
        let moves = match tx.transaction_type {
            TransactionType::Transfer => true,
            TransactionType::PeerTip => true,
            _ => false,
        };
        let mints = match tx.transaction_type {
            TransactionType::Mint => true,
            _ => false,
        };
        let amount = tx.amount;
        let now = tx.timestamp;
        let sender_holds = self.balance_of(&tx.from);
        if moves && sender_holds < amount {
            return Err(LedgerError::InsufficientBalance);
        }
        if encode::<TokenTransaction>(&tx).is_none() {
            return Err(LedgerError::ValidationError);
        }
        let key = string_bytes(&tx.id);
        if table_has(&self.transactions, &key) {
            return Err(LedgerError::ValidationError);
        }
        let same_party = tx.from.same_as(&tx.to);
        let recipient_holds = if moves && same_party {
            sender_holds - amount
        } else {
            self.balance_of(&tx.to)
        };
        if recipient_holds > u64::MAX - amount {
            return Err(LedgerError::ValidationError);
        }
        let total = self.total_supply();
        if mints && total > u64::MAX - amount {
            return Err(LedgerError::ValidationError);
        }
        if moves && self.has_balance(&tx.from) {
            self.write_balance(&tx.from, sender_holds - amount, now);
        }
        self.write_balance(&tx.to, recipient_holds + amount, now);
        if mints {
            self.write_total(total + amount);
        }
        proof {
            lemma_key_within_record::<TokenTransaction>(tx@, 0);
        }
        let stored = table_put::<TokenTransaction>(&mut self.transactions, key, &tx);
        assert(stored);
        proof {
            assert(final(self)@.balances =~= applied(old(self)@, tx@).balances);
        }
        Ok(tx)
    }

    /// The records that involve `account`, in the ascending order of their
    /// ids' UTF-8 bytes.
    pub fn history_of(&self, account: &AccountId) -> (history: Vec<TokenTransaction>)
        requires
            self.well_formed(),
        ensures
            views_of(history@) == history_of(self@, account@),
    {
        let all = table_list::<TokenTransaction>(&self.transactions);
        let choice = Involving { account };
        let history = chosen(all, &choice);
        proof {
            let wanted = |t: TransactionView| choice.wants(t);
            let stated = |t: TransactionView| involves(t, account@);
            assert(wanted =~= stated);
        }
        history
    }
}

/// The choice of the records that involve one account.
struct Involving<'a> {
    account: &'a AccountId,
}

impl<'a> Choice<TokenTransaction> for Involving<'a> {
    closed spec fn wants(&self, t: TransactionView) -> bool {
        involves(t, self.account@)
    }

    fn picks(&self, t: &TokenTransaction) -> (wanted: bool) {
        t.from.same_as(self.account) || t.to.same_as(self.account)
    }
}

/// A balance record of a well-formed owner always fits its stored form.
pub proof fn lemma_balance_fits(b: BalanceView)
    requires
        b.owner.len() <= MAX_ACCOUNT_BYTES,
    ensures
        storable::<TokenBalance>(b),
{
    lemma_auto_spec_u64_to_from_le_bytes();
    lemma_auto_spec_u32_to_from_le_bytes();
    let fields = <TokenBalance as Record>::fields_of(b);
    reveal_with_fuel(packed, 4);
    assert(fields.drop_last().drop_last().drop_last() =~= Seq::<Seq<u8>>::empty());
}

} // verus!

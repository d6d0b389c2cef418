//! The ledger's records: balances and transactions.

use crate::account::{AccountId, MAX_ACCOUNT_BYTES};
use crate::fields::{
    field_account, field_text, field_u64, lemma_fields_read_back, read_account, read_text,
    read_u64, u64_field,
};
use crate::table::Record;
use crate::wire::{copy_bytes, field_views, string_bytes};
use vstd::bytes::*;
use vstd::prelude::*;
use vstd::utf8::*;

verus! {

/// The most bytes a stored balance record may take.
pub const MAX_BALANCE_RECORD_BYTES: usize = 256;

/// The most bytes a stored transaction record may take.
pub const MAX_TRANSACTION_RECORD_BYTES: usize = 512;

/// What a balance change means.
#[derive(Clone, Copy, Debug, PartialEq, Eq, Structural)]
pub enum TransactionType {
    Mint,
    Transfer,
    CourseReward,
    PeerTip,
}

/// The balance of one account.
#[derive(Debug)]
pub struct TokenBalance {
    pub owner: AccountId,
    pub balance: u64,
    pub updated_at: u64,
}

/// One entry of the transaction log.
#[derive(Debug)]
pub struct TokenTransaction {
    pub id: String,
    pub from: AccountId,
    pub to: AccountId,
    pub amount: u64,
    pub transaction_type: TransactionType,
    pub timestamp: u64,
    pub memo: String,
}

/// A balance record as a mathematical value.
pub struct BalanceView {
    pub owner: Seq<u8>,
    pub balance: u64,
    pub updated_at: u64,
}

/// A transaction record as a mathematical value.
pub struct TransactionView {
    pub id: Seq<char>,
    pub from: Seq<u8>,
    pub to: Seq<u8>,
    pub amount: u64,
    pub transaction_type: TransactionType,
    pub timestamp: u64,
    pub memo: Seq<char>,
}

impl View for TokenBalance {
    type V = BalanceView;

    open spec fn view(&self) -> BalanceView {
        BalanceView { owner: self.owner@, balance: self.balance, updated_at: self.updated_at }
    }
}

impl View for TokenTransaction {
    type V = TransactionView;

    open spec fn view(&self) -> TransactionView {
        TransactionView {
            id: self.id@,
            from: self.from@,
            to: self.to@,
            amount: self.amount,
            transaction_type: self.transaction_type,
            timestamp: self.timestamp,
            memo: self.memo@,
        }
    }
}

/// The byte that stands for a kind in a stored record.
pub open spec fn kind_code(kind: TransactionType) -> u8 {
    match kind {
        TransactionType::Mint => 0,
        TransactionType::Transfer => 1,
        TransactionType::CourseReward => 2,
        TransactionType::PeerTip => 3,
    }
}

/// The kind a byte stands for, if any.
pub open spec fn kind_of_code(code: u8) -> Option<TransactionType> {
    if code == 0 {
        Some(TransactionType::Mint)
    } else if code == 1 {
        Some(TransactionType::Transfer)
    } else if code == 2 {
        Some(TransactionType::CourseReward)
    } else if code == 3 {
        Some(TransactionType::PeerTip)
    } else {
        None
    }
}

/// The kind that a field stands for, if it stands for one.
pub open spec fn field_kind(field: Seq<u8>) -> Option<TransactionType> {
    if field.len() == 1 {
        kind_of_code(field[0])
    } else {
        None
    }
}

impl TransactionType {
    /// The byte that stands for this kind in a stored record.
    pub fn code(self) -> (code: u8)
        ensures
            code == kind_code(self),
    {
        match self {
            TransactionType::Mint => 0,
            TransactionType::Transfer => 1,
            TransactionType::CourseReward => 2,
            TransactionType::PeerTip => 3,
        }
    }

    /// The kind that `code` stands for, if any.
    pub fn from_code(code: u8) -> (kind: Option<TransactionType>)
        ensures
            kind == kind_of_code(code),
    {
        if code == 0 {
            Some(TransactionType::Mint)
        } else if code == 1 {
            Some(TransactionType::Transfer)
        } else if code == 2 {
            Some(TransactionType::CourseReward)
        } else if code == 3 {
            Some(TransactionType::PeerTip)
        } else {
            None
        }
    }
}

impl Record for TokenBalance {
    open spec fn limit() -> nat {
        MAX_BALANCE_RECORD_BYTES as nat
    }

    open spec fn valid(value: BalanceView) -> bool {
        value.owner.len() <= MAX_ACCOUNT_BYTES
    }

    open spec fn fields_of(value: BalanceView) -> Seq<Seq<u8>> {
        seq![value.owner, u64_field(value.balance), u64_field(value.updated_at)]
    }

    open spec fn of_fields(fields: Seq<Seq<u8>>) -> Option<BalanceView> {
        if fields.len() == 3 && field_account(fields[0]) is Some && field_u64(fields[1]) is Some
            && field_u64(fields[2]) is Some {
            Some(
                BalanceView {
                    owner: field_account(fields[0])->0,
                    balance: field_u64(fields[1])->0,
                    updated_at: field_u64(fields[2])->0,
                },
            )
        } else {
            None
        }
    }

    proof fn lemma_fields_read_back(value: BalanceView) {
        lemma_fields_read_back();
    }

    fn size_limit() -> (limit: usize) {
        MAX_BALANCE_RECORD_BYTES
    }

    fn to_fields(&self) -> (fields: Option<Vec<Vec<u8>>>) {
        let mut fields: Vec<Vec<u8>> = Vec::new();
        fields.push(copy_bytes(self.owner.as_bytes()));
        fields.push(u64_to_le_bytes(self.balance));
        fields.push(u64_to_le_bytes(self.updated_at));
        proof {
            assert(field_views(fields@) =~= Self::fields_of(self@));
        }
        Some(fields)
    }

    fn from_fields(fields: &Vec<Vec<u8>>) -> (value: Option<TokenBalance>) {
        if fields.len() != 3 {
            return None;
        }
        let owner = read_account(&fields[0]);
        let balance = read_u64(&fields[1]);
        let updated_at = read_u64(&fields[2]);
        match (owner, balance, updated_at) {
            (Some(owner), Some(balance), Some(updated_at)) => Some(
                TokenBalance { owner, balance, updated_at },
            ),
            _ => None,
        }
    }
}

impl Record for TokenTransaction {
    open spec fn limit() -> nat {
        MAX_TRANSACTION_RECORD_BYTES as nat
    }

    open spec fn valid(value: TransactionView) -> bool {
        value.from.len() <= MAX_ACCOUNT_BYTES && value.to.len() <= MAX_ACCOUNT_BYTES
    }

    open spec fn fields_of(value: TransactionView) -> Seq<Seq<u8>> {
        seq![
            encode_utf8(value.id),
            value.from,
            value.to,
            u64_field(value.amount),
            seq![kind_code(value.transaction_type)],
            u64_field(value.timestamp),
            encode_utf8(value.memo),
        ]
    }

    open spec fn of_fields(fields: Seq<Seq<u8>>) -> Option<TransactionView> {
        if fields.len() == 7 && field_text(fields[0]) is Some && field_account(fields[1]) is Some
            && field_account(fields[2]) is Some && field_u64(fields[3]) is Some && field_kind(
            fields[4],
        ) is Some && field_u64(fields[5]) is Some && field_text(fields[6]) is Some {
            Some(
                TransactionView {
                    id: field_text(fields[0])->0,
                    from: field_account(fields[1])->0,
                    to: field_account(fields[2])->0,
                    amount: field_u64(fields[3])->0,
                    transaction_type: field_kind(fields[4])->0,
                    timestamp: field_u64(fields[5])->0,
                    memo: field_text(fields[6])->0,
                },
            )
        } else {
            None
        }
    }

    proof fn lemma_fields_read_back(value: TransactionView) {
        lemma_fields_read_back();
    }

    fn size_limit() -> (limit: usize) {
        MAX_TRANSACTION_RECORD_BYTES
    }

    fn to_fields(&self) -> (fields: Option<Vec<Vec<u8>>>) {
        let mut kind: Vec<u8> = Vec::new();
        kind.push(self.transaction_type.code());
        let mut fields: Vec<Vec<u8>> = Vec::new();
        fields.push(string_bytes(&self.id));
        fields.push(copy_bytes(self.from.as_bytes()));
        fields.push(copy_bytes(self.to.as_bytes()));
        fields.push(u64_to_le_bytes(self.amount));
        fields.push(kind);
        fields.push(u64_to_le_bytes(self.timestamp));
        fields.push(string_bytes(&self.memo));
        proof {
            assert(field_views(fields@) =~= Self::fields_of(self@));
        }
        Some(fields)
    }

    fn from_fields(fields: &Vec<Vec<u8>>) -> (value: Option<TokenTransaction>) {
        if fields.len() != 7 {
            return None;
        }
        let id = read_text(&fields[0]);
        let from = read_account(&fields[1]);
        let to = read_account(&fields[2]);
        let amount = read_u64(&fields[3]);
        let kind = if fields[4].len() == 1 {
            TransactionType::from_code(fields[4][0])
        } else {
            None
        };
        let timestamp = read_u64(&fields[5]);
        let memo = read_text(&fields[6]);
        match (id, from, to, amount, kind, timestamp, memo) {
            (
                Some(id),
                Some(from),
                Some(to),
                Some(amount),
                Some(transaction_type),
                Some(timestamp),
                Some(memo),
            ) => Some(TokenTransaction { id, from, to, amount, transaction_type, timestamp, memo }),
            _ => None,
        }
    }
}

} // verus!

use token_ledger::account::AccountId;
use token_ledger::ident::{decimal_string, transaction_id};
use token_ledger::record::{TokenBalance, TokenTransaction, TransactionType};
use token_ledger::table::{decode, encode};
use token_ledger::wire::{append_bytes, copy_bytes, same_bytes, string_bytes, sub_bytes};

fn sample() -> TokenTransaction {
    TokenTransaction {
        id: String::from("17_ab"),
        from: AccountId::new(vec![1, 2, 3]).unwrap(),
        to: AccountId::new(vec![]).unwrap(),
        amount: 0x0102_0304_0506_0708,
        transaction_type: TransactionType::PeerTip,
        timestamp: 258,
        memo: String::from("žé"),
    }
}

#[test]
fn account_takes_up_to_twenty_nine_bytes() {
    assert!(AccountId::new(vec![]).is_some());
    assert!(AccountId::new(vec![7; 29]).is_some());
    assert!(AccountId::new(vec![7; 30]).is_none());
    let id = AccountId::new(vec![5, 6]).unwrap();
    assert_eq!(id.as_bytes(), &vec![5, 6]);
    assert_eq!(id.clone().as_bytes(), &vec![5, 6]);
}

#[test]
fn accounts_compare_by_their_bytes() {
    let a = AccountId::new(vec![1, 2]).unwrap();
    assert!(a.same_as(&AccountId::new(vec![1, 2]).unwrap()));
    assert!(!a.same_as(&AccountId::new(vec![1, 3]).unwrap()));
    assert!(!a.same_as(&AccountId::new(vec![1]).unwrap()));
    assert!(!a.same_as(&AccountId::new(vec![1, 2, 0]).unwrap()));
}

#[test]
fn account_text_is_the_textual_principal() {
    assert_eq!(AccountId::new(vec![]).unwrap().to_text(), "aaaaa-aa");
    assert_eq!(AccountId::new(vec![4]).unwrap().to_text(), "2vxsx-fae");
    let id = AccountId::new(vec![0xef, 0xcd, 0xab, 0, 0, 0, 0, 0, 1]).unwrap();
    assert_eq!(id.to_text(), "2chl6-4hpzw-vqaaa-aaaaa-c");
}

#[test]
fn decimal_strings() {
    assert_eq!(decimal_string(0), "0");
    assert_eq!(decimal_string(7), "7");
    assert_eq!(decimal_string(10), "10");
    assert_eq!(decimal_string(1234567890), "1234567890");
    assert_eq!(decimal_string(1_000_000), "1000000");
    assert_eq!(decimal_string(u64::MAX), "18446744073709551615");
}

#[test]
fn transaction_id_joins_time_and_caller() {
    assert_eq!(transaction_id(0, ""), "0_");
    assert_eq!(transaction_id(42, "2vxsx-fae"), "42_2vxsx-fae");
    assert_eq!(transaction_id(u64::MAX, "x"), "18446744073709551615_x");
}

#[test]
fn kind_codes() {
    assert_eq!(TransactionType::Mint.code(), 0);
    assert_eq!(TransactionType::Transfer.code(), 1);
    assert_eq!(TransactionType::CourseReward.code(), 2);
    assert_eq!(TransactionType::PeerTip.code(), 3);
    assert_eq!(TransactionType::from_code(0), Some(TransactionType::Mint));
    assert_eq!(TransactionType::from_code(1), Some(TransactionType::Transfer));
    assert_eq!(TransactionType::from_code(2), Some(TransactionType::CourseReward));
    assert_eq!(TransactionType::from_code(3), Some(TransactionType::PeerTip));
    assert_eq!(TransactionType::from_code(4), None);
    assert_eq!(TransactionType::from_code(255), None);
}

#[test]
fn balance_record_bytes() {
    let record = TokenBalance {
        owner: AccountId::new(vec![9, 8]).unwrap(),
        balance: 0x0102,
        updated_at: 3,
    };
    let bytes = encode(&record).unwrap();
    let mut expected = vec![2u8, 0, 0, 0, 9, 8];
    expected.extend_from_slice(&[8, 0, 0, 0, 2, 1, 0, 0, 0, 0, 0, 0]);
    expected.extend_from_slice(&[8, 0, 0, 0, 3, 0, 0, 0, 0, 0, 0, 0]);
    assert_eq!(bytes, expected);
    let back: TokenBalance = decode(&bytes).unwrap();
    assert_eq!(back.balance, 0x0102);
    assert_eq!(back.updated_at, 3);
    assert!(back.owner.same_as(&record.owner));
}

#[test]
fn largest_balance_record_fits() {
    let record = TokenBalance {
        owner: AccountId::new(vec![0xff; 29]).unwrap(),
        balance: u64::MAX,
        updated_at: u64::MAX,
    };
    let bytes = encode(&record).unwrap();
    assert_eq!(bytes.len(), 3 * 4 + 29 + 8 + 8);
    assert!(bytes.len() <= 256);
    assert_eq!(decode::<TokenBalance>(&bytes).unwrap().balance, u64::MAX);
}

#[test]
fn malformed_balance_records_are_refused() {
    let good = encode(&TokenBalance {
        owner: AccountId::new(vec![1]).unwrap(),
        balance: 1,
        updated_at: 1,
    })
    .unwrap();
    assert!(decode::<TokenBalance>(&good).is_some());
    assert!(decode::<TokenBalance>(&vec![]).is_none());
    assert!(decode::<TokenBalance>(&good[..good.len() - 1].to_vec()).is_none());
    let mut extra = good.clone();
    extra.extend_from_slice(&[0, 0, 0, 0]);
    assert!(decode::<TokenBalance>(&extra).is_none());
    let mut short_number = vec![1u8, 0, 0, 0, 1];
    short_number.extend_from_slice(&[7, 0, 0, 0, 1, 0, 0, 0, 0, 0, 0]);
    short_number.extend_from_slice(&[8, 0, 0, 0, 1, 0, 0, 0, 0, 0, 0, 0]);
    assert!(decode::<TokenBalance>(&short_number).is_none());
    let mut long_owner = vec![30u8, 0, 0, 0];
    long_owner.extend_from_slice(&[0; 30]);
    long_owner.extend_from_slice(&[8, 0, 0, 0, 1, 0, 0, 0, 0, 0, 0, 0]);
    long_owner.extend_from_slice(&[8, 0, 0, 0, 1, 0, 0, 0, 0, 0, 0, 0]);
    assert!(decode::<TokenBalance>(&long_owner).is_none());
}

#[test]
fn transaction_record_bytes() {
    let bytes = encode(&sample()).unwrap();
    let mut expected = vec![5u8, 0, 0, 0];
    expected.extend_from_slice(b"17_ab");
    expected.extend_from_slice(&[3, 0, 0, 0, 1, 2, 3]);
    expected.extend_from_slice(&[0, 0, 0, 0]);
    expected.extend_from_slice(&[8, 0, 0, 0, 8, 7, 6, 5, 4, 3, 2, 1]);
    expected.extend_from_slice(&[1, 0, 0, 0, 3]);
    expected.extend_from_slice(&[8, 0, 0, 0, 2, 1, 0, 0, 0, 0, 0, 0]);
    expected.extend_from_slice(&[4, 0, 0, 0]);
    expected.extend_from_slice("žé".as_bytes());
    assert_eq!(bytes, expected);
    assert_eq!(bytes.len(), 7 * 4 + 5 + 3 + 0 + 8 + 1 + 8 + 4);
}

#[test]
fn transaction_record_reads_back() {
    let tx = sample();
    let back: TokenTransaction = decode(&encode(&tx).unwrap()).unwrap();
    assert_eq!(back.id, tx.id);
    assert!(back.from.same_as(&tx.from));
    assert!(back.to.same_as(&tx.to));
    assert_eq!(back.amount, tx.amount);
    assert_eq!(back.transaction_type, tx.transaction_type);
    assert_eq!(back.timestamp, tx.timestamp);
    assert_eq!(back.memo, tx.memo);
}

#[test]
fn malformed_transaction_records_are_refused() {
    let good = encode(&sample()).unwrap();
    assert!(decode::<TokenTransaction>(&good).is_some());
    assert!(decode::<TokenTransaction>(&vec![]).is_none());
    assert!(decode::<TokenTransaction>(&good[..20].to_vec()).is_none());
    let kind_at = 4 + 5 + 4 + 3 + 4 + 0 + 4 + 8 + 4;
    assert_eq!(good[kind_at], 3);
    let mut bad_kind = good.clone();
    bad_kind[kind_at] = 4;
    assert!(decode::<TokenTransaction>(&bad_kind).is_none());
    let mut broken_memo = good.clone();
    let last = broken_memo.len() - 1;
    broken_memo[last] = 0xff;
    assert!(decode::<TokenTransaction>(&broken_memo).is_none());
    let mut broken_id = good.clone();
    broken_id[4] = 0xff;
    assert!(decode::<TokenTransaction>(&broken_id).is_none());
    let mut one_field_more = good.clone();
    one_field_more.extend_from_slice(&[0, 0, 0, 0]);
    assert!(decode::<TokenTransaction>(&one_field_more).is_none());
    let mut long_sender = vec![0u8, 0, 0, 0, 30, 0, 0, 0];
    long_sender.extend_from_slice(&[1; 30]);
    long_sender.extend_from_slice(&good[4 + 5 + 4 + 3..]);
    assert!(decode::<TokenTransaction>(&long_sender).is_none());
}

#[test]
fn oversized_transaction_has_no_stored_form() {
    let mut tx = sample();
    tx.memo = "m".repeat(512);
    assert!(encode(&tx).is_none());
    tx.memo = String::new();
    tx.id = "i".repeat(512);
    assert!(encode(&tx).is_none());
}

#[test]
fn byte_helpers() {
    let mut buf = vec![1u8, 2];
    append_bytes(&mut buf, &vec![3, 4, 5]);
    assert_eq!(buf, vec![1, 2, 3, 4, 5]);
    append_bytes(&mut buf, &vec![]);
    assert_eq!(buf, vec![1, 2, 3, 4, 5]);
    assert_eq!(sub_bytes(&buf, 1, 4), vec![2, 3, 4]);
    assert_eq!(sub_bytes(&buf, 2, 2), Vec::<u8>::new());
    assert_eq!(sub_bytes(&buf, 0, 5), buf);
    assert_eq!(copy_bytes(&buf), buf);
    assert!(same_bytes(&buf, &vec![1, 2, 3, 4, 5]));
    assert!(!same_bytes(&buf, &vec![1, 2, 3, 4]));
    assert!(!same_bytes(&buf, &vec![1, 2, 3, 4, 6]));
    assert_eq!(string_bytes(&String::from("aé")), vec![0x61, 0xc3, 0xa9]);
}

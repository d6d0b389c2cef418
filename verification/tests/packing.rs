use token_ledger::fields::{
    read_account, read_bool, read_optional_u64, read_text, read_texts, read_u32,
    read_u64, write_bool, write_optional_u64, write_texts,
};
use token_ledger::ident::{joined, record_id};
use token_ledger::wire::{pack, unpack};

#[test]
fn packed_fields_carry_their_lengths() {
    let fields = vec![vec![7u8, 8], vec![], vec![9]];
    let bytes = pack(&fields).unwrap();
    assert_eq!(bytes, vec![2, 0, 0, 0, 7, 8, 0, 0, 0, 0, 1, 0, 0, 0, 9]);
    assert_eq!(unpack(&bytes), Some(fields));
}

#[test]
fn nothing_packs_to_nothing() {
    assert_eq!(pack(&vec![]), Some(vec![]));
    assert_eq!(unpack(&vec![]), Some(vec![]));
    assert_eq!(pack(&vec![vec![]]), Some(vec![0, 0, 0, 0]));
    assert_eq!(unpack(&vec![0, 0, 0, 0]), Some(vec![vec![]]));
}

#[test]
fn cut_off_fields_do_not_unpack() {
    assert_eq!(unpack(&vec![1]), None);
    assert_eq!(unpack(&vec![1, 0, 0]), None);
    assert_eq!(unpack(&vec![1, 0, 0, 0]), None);
    assert_eq!(unpack(&vec![2, 0, 0, 0, 5]), None);
    assert_eq!(unpack(&vec![1, 0, 0, 0, 5, 9]), None);
    assert_eq!(unpack(&vec![255, 255, 255, 255, 5]), None);
    assert_eq!(unpack(&vec![1, 0, 0, 0, 5]), Some(vec![vec![5]]));
}

#[test]
fn long_field_uses_all_length_bytes() {
    let fields = vec![vec![1u8; 300]];
    let bytes = pack(&fields).unwrap();
    assert_eq!(&bytes[..4], &[44, 1, 0, 0]);
    assert_eq!(bytes.len(), 304);
    assert_eq!(unpack(&bytes), Some(fields));
}

#[test]
fn number_fields() {
    assert_eq!(read_u64(&vec![1, 2, 0, 0, 0, 0, 0, 0]), Some(0x0201));
    assert_eq!(read_u64(&vec![0xff; 8]), Some(u64::MAX));
    assert_eq!(read_u64(&vec![1; 7]), None);
    assert_eq!(read_u64(&vec![1; 9]), None);
    assert_eq!(read_u32(&vec![1, 2, 0, 0]), Some(0x0201));
    assert_eq!(read_u32(&vec![1, 2, 0]), None);
    assert_eq!(write_optional_u64(None), Vec::<u8>::new());
    assert_eq!(write_optional_u64(Some(3)), vec![3, 0, 0, 0, 0, 0, 0, 0]);
    assert_eq!(read_optional_u64(&vec![]), Some(None));
    assert_eq!(read_optional_u64(&vec![3, 0, 0, 0, 0, 0, 0, 0]), Some(Some(3)));
    assert_eq!(read_optional_u64(&vec![3]), None);
}

#[test]
fn flag_fields() {
    assert_eq!(write_bool(true), vec![1]);
    assert_eq!(write_bool(false), vec![0]);
    assert_eq!(read_bool(&vec![1]), Some(true));
    assert_eq!(read_bool(&vec![0]), Some(false));
    assert_eq!(read_bool(&vec![2]), None);
    assert_eq!(read_bool(&vec![]), None);
    assert_eq!(read_bool(&vec![1, 1]), None);
}

#[test]
fn text_and_identity_fields() {
    assert_eq!(read_text(&vec![0x61, 0xc3, 0xa9]), Some(String::from("aé")));
    assert_eq!(read_text(&vec![]), Some(String::new()));
    assert_eq!(read_text(&vec![0xc3]), None);
    assert_eq!(read_text(&vec![0xff]), None);
    assert_eq!(read_account(&vec![1, 2]).unwrap().as_bytes(), &vec![1, 2]);
    assert!(read_account(&vec![0; 29]).is_some());
    assert!(read_account(&vec![0; 30]).is_none());
}

#[test]
fn lists_of_texts() {
    let texts = vec![String::from("ab"), String::new(), String::from("é")];
    let field = write_texts(&texts).unwrap();
    assert_eq!(field, vec![2, 0, 0, 0, 0x61, 0x62, 0, 0, 0, 0, 2, 0, 0, 0, 0xc3, 0xa9]);
    assert_eq!(read_texts(&field), Some(texts.clone()));
    assert_eq!(read_texts(&vec![]), Some(vec![]));
    assert_eq!(read_texts(&vec![1, 0, 0, 0, 0xff]), None);
    assert_eq!(read_texts(&vec![1, 0, 0]), None);
}

#[test]
fn joined_ids() {
    assert_eq!(joined("a", "b"), "a_b");
    assert_eq!(joined("", ""), "_");
    assert_eq!(record_id("2vxsx-fae", 0), "2vxsx-fae_0");
    assert_eq!(record_id("x", 1234), "x_1234");
}

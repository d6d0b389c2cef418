//! The fields that packed records are made of: numbers, flags, texts,
//! identities and lists of texts, each with the byte string that stands for
//! it and the way back.

use crate::account::{AccountId, MAX_ACCOUNT_BYTES};
use crate::wire::{
    copy_bytes, field_views, pack, packable, packed, string_bytes, unpack, unpacked,
    utf8_string,
};
use vstd::bytes::*;
use vstd::prelude::*;
use vstd::utf8::*;

verus! {

/// The field of a 64-bit number: eight bytes in little-endian order.
pub open spec fn u64_field(value: u64) -> Seq<u8> {
    spec_u64_to_le_bytes(value)
}

/// The number a field stands for, if it stands for one.
pub open spec fn field_u64(field: Seq<u8>) -> Option<u64> {
    if field.len() == 8 {
        Some(spec_u64_from_le_bytes(field))
    } else {
        None
    }
}

/// The field of a 32-bit number: four bytes in little-endian order.
pub open spec fn u32_field(value: u32) -> Seq<u8> {
    spec_u32_to_le_bytes(value)
}

/// The 32-bit number a field stands for, if it stands for one.
pub open spec fn field_u32(field: Seq<u8>) -> Option<u32> {
    if field.len() == 4 {
        Some(spec_u32_from_le_bytes(field))
    } else {
        None
    }
}

/// The field of a flag: one byte, 1 for true and 0 for false.
pub open spec fn bool_field(value: bool) -> Seq<u8> {
    if value {
        seq![1u8]
    } else {
        seq![0u8]
    }
}

/// The flag a field stands for, if it stands for one.
pub open spec fn field_bool(field: Seq<u8>) -> Option<bool> {
    if field.len() == 1 && field[0] == 1 {
        Some(true)
    } else if field.len() == 1 && field[0] == 0 {
        Some(false)
    } else {
        None
    }
}

/// The field of a number that may be missing: empty if it is.
pub open spec fn optional_u64_field(value: Option<u64>) -> Seq<u8> {
    match value {
        Some(number) => u64_field(number),
        None => Seq::empty(),
    }
}

/// The optional number a field stands for, if it stands for one.
pub open spec fn field_optional_u64(field: Seq<u8>) -> Option<Option<u64>> {
    if field.len() == 0 {
        Some(None)
    } else if field.len() == 8 {
        Some(Some(spec_u64_from_le_bytes(field)))
    } else {
        None
    }
}

/// The text a field stands for, if it is UTF-8.
pub open spec fn field_text(field: Seq<u8>) -> Option<Seq<char>> {
    if valid_utf8(field) {
        Some(decode_utf8(field))
    } else {
        None
    }
}

/// The identity a field stands for, if it is short enough.
pub open spec fn field_account(field: Seq<u8>) -> Option<Seq<u8>> {
    if field.len() <= MAX_ACCOUNT_BYTES {
        Some(field)
    } else {
        None
    }
}

/// The UTF-8 bytes of each text of a list.
pub open spec fn texts_bytes(texts: Seq<Seq<char>>) -> Seq<Seq<u8>> {
    Seq::new(texts.len(), |i: int| encode_utf8(texts[i]))
}

/// Whether a list of texts can be made a field.
pub open spec fn texts_fit(texts: Seq<Seq<char>>) -> bool {
    packable(texts_bytes(texts))
}

/// The field of a list of texts: their UTF-8 bytes, packed.
pub open spec fn texts_field(texts: Seq<Seq<char>>) -> Seq<u8> {
    packed(texts_bytes(texts))
}

/// Whether every byte string of a list is UTF-8.
pub open spec fn all_utf8(parts: Seq<Seq<u8>>) -> bool {
    forall|i: int| 0 <= i < parts.len() ==> valid_utf8(#[trigger] parts[i])
}

/// The list of texts a field stands for, if it stands for one.
pub open spec fn field_texts(field: Seq<u8>) -> Option<Seq<Seq<char>>> {
    match unpacked(field) {
        Some(parts) => if all_utf8(parts) {
            Some(Seq::new(parts.len(), |i: int| decode_utf8(parts[i])))
        } else {
            None
        },
        None => None,
    }
}

/// The texts of a list of strings.
pub open spec fn text_views(list: Seq<String>) -> Seq<Seq<char>> {
    Seq::new(list.len(), |i: int| list[i]@)
}

/// Every field reads back as the value it was made from.
pub proof fn lemma_fields_read_back()
    ensures
        forall|v: u64| #[trigger] field_u64(u64_field(v)) == Some(v),
        forall|v: u32| #[trigger] field_u32(u32_field(v)) == Some(v),
        forall|v: bool| #[trigger] field_bool(bool_field(v)) == Some(v),
        forall|v: Option<u64>| #[trigger] field_optional_u64(optional_u64_field(v)) == Some(v),
        forall|t: Seq<char>| #[trigger] field_text(encode_utf8(t)) == Some(t),
{
    broadcast use {encode_utf8_valid_utf8, encode_utf8_decode_utf8};

    lemma_auto_spec_u64_to_from_le_bytes();
    lemma_auto_spec_u32_to_from_le_bytes();
    assert forall|v: Option<u64>| #[trigger]
        field_optional_u64(optional_u64_field(v)) == Some(v) by {
        match v {
            Some(number) => {
                assert(spec_u64_to_le_bytes(number).len() == 8);
            },
            None => {},
        }
    }
}

/// The field of a list of texts reads back as the list.
pub proof fn lemma_texts_read_back(texts: Seq<Seq<char>>)
    requires
        texts_fit(texts),
    ensures
        field_texts(texts_field(texts)) == Some(texts),
{
    broadcast use {encode_utf8_valid_utf8, encode_utf8_decode_utf8};

    let parts = texts_bytes(texts);
    crate::wire::lemma_pack_round_trip(parts);
    assert(all_utf8(parts));
    assert(Seq::new(parts.len(), |i: int| decode_utf8(parts[i])) =~= texts);
}

/// Reads a field as a 64-bit number.
pub fn read_u64(field: &Vec<u8>) -> (value: Option<u64>)
    ensures
        value == field_u64(field@),
{
    if field.len() == 8 {
        Some(u64_from_le_bytes(field.as_slice()))
    } else {
        None
    }
}

/// Reads a field as a 32-bit number.
pub fn read_u32(field: &Vec<u8>) -> (value: Option<u32>)
    ensures
        value == field_u32(field@),
{
    if field.len() == 4 {
        Some(u32_from_le_bytes(field.as_slice()))
    } else {
        None
    }
}

/// Makes the field of a flag.
pub fn write_bool(value: bool) -> (field: Vec<u8>)
    ensures
        field@ == bool_field(value),
{
    let mut field: Vec<u8> = Vec::new();
    field.push(if value { 1 } else { 0 });
    assert(field@ =~= bool_field(value));
    field
}

/// Reads a field as a flag.
pub fn read_bool(field: &Vec<u8>) -> (value: Option<bool>)
    ensures
        value == field_bool(field@),
{
    if field.len() == 1 && field[0] == 1 {
        Some(true)
    } else if field.len() == 1 && field[0] == 0 {
        Some(false)
    } else {
        None
    }
}

/// Makes the field of a number that may be missing.
pub fn write_optional_u64(value: Option<u64>) -> (field: Vec<u8>)
    ensures
        field@ == optional_u64_field(value),
{
    match value {
        Some(number) => u64_to_le_bytes(number),
        None => Vec::new(),
    }
}

/// Reads a field as a number that may be missing.
pub fn read_optional_u64(field: &Vec<u8>) -> (value: Option<Option<u64>>)
    ensures
        value == field_optional_u64(field@),
{
    if field.len() == 0 {
        Some(None)
    } else if field.len() == 8 {
        Some(Some(u64_from_le_bytes(field.as_slice())))
    } else {
        None
    }
}

/// Reads a field as a text.
pub fn read_text(field: &Vec<u8>) -> (text: Option<String>)
    ensures
        text is Some == field_text(field@) is Some,
        text is Some ==> text->0@ == field_text(field@)->0,
{
    utf8_string(copy_bytes(field))
}

/// Reads a field as an identity.
pub fn read_account(field: &Vec<u8>) -> (account: Option<AccountId>)
    ensures
        account is Some == field_account(field@) is Some,
        account is Some ==> account->0@ == field_account(field@)->0,
{
    AccountId::new(copy_bytes(field))
}

/// Makes the field of a list of texts; `None` if a text is too long.
pub fn write_texts(texts: &Vec<String>) -> (field: Option<Vec<u8>>)
    ensures
        field is Some == texts_fit(text_views(texts@)),
        field is Some ==> field->0@ == texts_field(text_views(texts@)),
{
    let mut parts: Vec<Vec<u8>> = Vec::new();
    let mut i: usize = 0;
    while i < texts.len()
        invariant
            i <= texts.len(),
            parts.len() == i,
            forall|j: int| 0 <= j < i ==> (#[trigger] parts@[j])@ == encode_utf8(texts@[j]@),
        decreases texts.len() - i,
    {
        parts.push(string_bytes(&texts[i]));
        i += 1;
    }
    proof {
        assert(field_views(parts@) =~= texts_bytes(text_views(texts@)));
    }
    pack(&parts)
}

/// Reads a field as a list of texts.
pub fn read_texts(field: &Vec<u8>) -> (texts: Option<Vec<String>>)
    ensures
        texts is Some == field_texts(field@) is Some,
        texts is Some ==> text_views(texts->0@) == field_texts(field@)->0,
{
    let parts = match unpack(field) {
        Some(parts) => parts,
        None => {
            return None;
        },
    };
    let ghost views = field_views(parts@);
    let mut texts: Vec<String> = Vec::new();
    let mut i: usize = 0;
    while i < parts.len()
        invariant
            views == field_views(parts@),
            unpacked(field@) == Some(views),
            i <= parts.len(),
            texts.len() == i,
            forall|j: int| 0 <= j < i ==> valid_utf8(#[trigger] views[j]),
            forall|j: int| 0 <= j < i ==> (#[trigger] texts@[j])@ == decode_utf8(views[j]),
        decreases parts.len() - i,
    {
        match read_text(&parts[i]) {
            Some(text) => {
                texts.push(text);
            },
            None => {
                proof {
                    assert(!valid_utf8(views[i as int]));
                }
                return None;
            },
        }
        i += 1;
    }
    proof {
        assert(all_utf8(views));
        assert(text_views(texts@) =~= field_texts(field@)->0);
    }
    Some(texts)
}

} // verus!

//! Byte-level helpers that the record encodings are built from.

use vstd::bytes::*;
use vstd::prelude::*;
use vstd::utf8::*;

verus! {

/// Copies a byte vector.
pub fn copy_bytes(bytes: &Vec<u8>) -> (copy: Vec<u8>)
    ensures
        copy@ == bytes@,
{
    let mut copy: Vec<u8> = Vec::new();
    let mut i: usize = 0;
    while i < bytes.len()
        invariant
            i <= bytes.len(),
            copy@ == bytes@.subrange(0, i as int),
        decreases bytes.len() - i,
    {
        copy.push(bytes[i]);
        i += 1;
    }
    copy
}

/// Whether two byte vectors hold the same bytes.
pub fn same_bytes(a: &Vec<u8>, b: &Vec<u8>) -> (same: bool)
    ensures
        same == (a@ == b@),
{
    if a.len() != b.len() {
        return false;
    }
    let mut i: usize = 0;
    while i < a.len()
        invariant
            i <= a.len(),
            a.len() == b.len(),
            a@.subrange(0, i as int) == b@.subrange(0, i as int),
        decreases a.len() - i,
    {
        if a[i] != b[i] {
            return false;
        }
        proof {
            assert(a@.subrange(0, i + 1) == a@.subrange(0, i as int).push(a@[i as int]));
            assert(b@.subrange(0, i + 1) == b@.subrange(0, i as int).push(b@[i as int]));
        }
        i += 1;
    }
    proof {
        assert(a@ == a@.subrange(0, a.len() as int));
        assert(b@ == b@.subrange(0, b.len() as int));
    }
    true
}

/// Appends `src` to `buf`.
pub fn append_bytes(buf: &mut Vec<u8>, src: &Vec<u8>)
    ensures
        final(buf)@ == old(buf)@ + src@,
{
    let mut i: usize = 0;
    while i < src.len()
        invariant
            i <= src.len(),
            buf@ == old(buf)@ + src@.subrange(0, i as int),
        decreases src.len() - i,
    {
        buf.push(src[i]);
        i += 1;
    }
    proof {
        assert(src@.subrange(0, src.len() as int) == src@);
    }
}

/// Copies the bytes of `src` from `start` up to `end`.
pub fn sub_bytes(src: &Vec<u8>, start: usize, end: usize) -> (part: Vec<u8>)
    requires
        start <= end <= src.len(),
    ensures
        part@ == src@.subrange(start as int, end as int),
{
    let mut part: Vec<u8> = Vec::new();
    let mut i: usize = start;
    while i < end
        invariant
            start <= i <= end <= src.len(),
            part@ == src@.subrange(start as int, i as int),
        decreases end - i,
    {
        part.push(src[i]);
        i += 1;
    }
    part
}

/// Decodes UTF-8 with `String::from_utf8`.
///
/// The contract claims what the standard library documents: the call
/// succeeds exactly on valid UTF-8 and then yields the encoded characters.
#[verifier::external_body]
pub(crate) fn utf8_string(bytes: Vec<u8>) -> (text: Option<String>)
    ensures
        text is Some == valid_utf8(bytes@),
        text is Some ==> text->0@ == decode_utf8(bytes@),
{
    String::from_utf8(bytes).ok()
}

/// The UTF-8 bytes of a string.
pub fn string_bytes(text: &String) -> (bytes: Vec<u8>)
    ensures
        bytes@ == encode_utf8(text@),
{
    text.as_str().as_bytes_vec()
}

/// The most bytes a field of a packed record may take.
pub const MAX_FIELD_BYTES: usize = 0xffff_ffff;

/// Whether every field is short enough to be packed.
pub open spec fn packable(fields: Seq<Seq<u8>>) -> bool {
    forall|i: int| 0 <= i < fields.len() ==> (#[trigger] fields[i]).len() <= MAX_FIELD_BYTES
}

/// A list of fields packed into one byte string: each field is preceded by
/// its length, four bytes in little-endian order.
pub open spec fn packed(fields: Seq<Seq<u8>>) -> Seq<u8>
    decreases fields.len(),
{
    if fields.len() == 0 {
        Seq::empty()
    } else {
        packed(fields.drop_last()) + spec_u32_to_le_bytes(fields.last().len() as u32)
            + fields.last()
    }
}

/// The fields that `bytes` packs, read from the front; `None` if `bytes`
/// ends in the middle of a field.
pub open spec fn unpacked(bytes: Seq<u8>) -> Option<Seq<Seq<u8>>>
    decreases bytes.len(),
{
    if bytes.len() == 0 {
        Some(Seq::empty())
    } else if bytes.len() < 4 {
        None
    } else {
        let n = spec_u32_from_le_bytes(bytes.subrange(0, 4)) as int;
        if 4 + n > bytes.len() {
            None
        } else {
            match unpacked(bytes.subrange(4 + n, bytes.len() as int)) {
                Some(rest) => Some(seq![bytes.subrange(4, 4 + n)] + rest),
                None => None,
            }
        }
    }
}

/// One field as it stands in a packed record.
pub open spec fn framed(field: Seq<u8>) -> Seq<u8> {
    spec_u32_to_le_bytes(field.len() as u32) + field
}

/// Unpacking reads a framed field off the front.
pub proof fn lemma_unpack_front(field: Seq<u8>, rest: Seq<u8>)
    requires
        field.len() <= MAX_FIELD_BYTES,
    ensures
        unpacked(framed(field) + rest) == match unpacked(rest) {
            Some(fields) => Some(seq![field] + fields),
            None => None,
        },
{
    lemma_auto_spec_u32_to_from_le_bytes();
    let bytes = framed(field) + rest;
    let n = field.len() as int;
    assert(bytes.subrange(0, 4) == spec_u32_to_le_bytes(field.len() as u32));
    assert(bytes.subrange(4, 4 + n) == field);
    assert(bytes.subrange(4 + n, bytes.len() as int) == rest);
}

/// Packing puts the first field in front of the others.
pub proof fn lemma_pack_front(fields: Seq<Seq<u8>>)
    requires
        fields.len() > 0,
    ensures
        packed(fields) == framed(fields[0]) + packed(fields.drop_first()),
    decreases fields.len(),
{
    if fields.len() == 1 {
        assert(fields.drop_last() =~= Seq::<Seq<u8>>::empty());
        assert(fields.drop_first() =~= Seq::<Seq<u8>>::empty());
        assert(packed(fields) =~= framed(fields[0]) + packed(fields.drop_first()));
    } else {
        lemma_pack_front(fields.drop_last());
        assert(fields.drop_last().drop_first() =~= fields.drop_first().drop_last());
        assert(fields.drop_first().last() == fields.last());
        assert(fields.drop_last()[0] == fields[0]);
        assert(packed(fields) =~= framed(fields[0]) + packed(fields.drop_first()));
    }
}

/// A packed list of fields unpacks to the same fields.
pub proof fn lemma_pack_round_trip(fields: Seq<Seq<u8>>)
    requires
        packable(fields),
    ensures
        unpacked(packed(fields)) == Some(fields),
    decreases fields.len(),
{
    if fields.len() > 0 {
        lemma_pack_front(fields);
        lemma_pack_round_trip(fields.drop_first());
        lemma_unpack_front(fields[0], packed(fields.drop_first()));
        assert(seq![fields[0]] + fields.drop_first() =~= fields);
    }
}

/// A packed record is at least as long as each of its fields.
pub proof fn lemma_field_within_packed(fields: Seq<Seq<u8>>, index: int)
    requires
        0 <= index < fields.len(),
    ensures
        fields[index].len() <= packed(fields).len(),
    decreases fields.len(),
{
    if index < fields.len() - 1 {
        lemma_field_within_packed(fields.drop_last(), index);
    }
}

/// The byte strings of a list of byte vectors.
pub open spec fn field_views(fields: Seq<Vec<u8>>) -> Seq<Seq<u8>> {
    Seq::new(fields.len(), |i: int| fields[i]@)
}

/// Packs a list of fields; `None` if a field is too long.
pub fn pack(fields: &Vec<Vec<u8>>) -> (bytes: Option<Vec<u8>>)
    ensures
        bytes is Some == packable(field_views(fields@)),
        bytes is Some ==> bytes->0@ == packed(field_views(fields@)),
{
    let mut bytes: Vec<u8> = Vec::new();
    let ghost views = field_views(fields@);
    let mut i: usize = 0;
    while i < fields.len()
        invariant
            views == field_views(fields@),
            i <= fields.len(),
            packable(views.take(i as int)),
            bytes@ == packed(views.take(i as int)),
        decreases fields.len() - i,
    {
        let field = &fields[i];
        if field.len() > MAX_FIELD_BYTES {
            proof {
                assert(views[i as int].len() > MAX_FIELD_BYTES);
            }
            return None;
        }
        proof {
            assert(views.take(i + 1).drop_last() =~= views.take(i as int));
            assert(views.take(i + 1).last() == field@);
        }
        append_bytes(&mut bytes, &u32_to_le_bytes(field.len() as u32));
        append_bytes(&mut bytes, field);
        i += 1;
    }
    proof {
        assert(views.take(fields.len() as int) =~= views);
    }
    Some(bytes)
}

/// Unpacks a packed list of fields; `None` if `bytes` ends in the middle of
/// a field.
pub fn unpack(bytes: &Vec<u8>) -> (fields: Option<Vec<Vec<u8>>>)
    ensures
        fields is Some == unpacked(bytes@) is Some,
        fields is Some ==> field_views(fields->0@) == unpacked(bytes@)->0,
{
    let mut fields: Vec<Vec<u8>> = Vec::new();
    let total = bytes.len();
    let mut at: usize = 0;
    proof {
        assert(bytes@.subrange(0, total as int) =~= bytes@);
        match unpacked(bytes@) {
            Some(rest) => {
                assert(field_views(fields@) + rest =~= rest);
            },
            None => {},
        }
    }
    while at < total
        invariant
            total == bytes.len(),
            at <= total,
            unpacked(bytes@) == match unpacked(bytes@.subrange(at as int, total as int)) {
                Some(rest) => Some(field_views(fields@) + rest),
                None => None,
            },
        decreases total - at,
    {
        let ghost tail = bytes@.subrange(at as int, total as int);
        if total - at < 4 {
            return None;
        }
        let n = u32_from_le_bytes(sub_bytes(bytes, at, at + 4).as_slice()) as usize;
        proof {
            assert(tail.subrange(0, 4) == bytes@.subrange(at as int, at + 4));
        }
        if n > total - at - 4 {
            return None;
        }
        let field = sub_bytes(bytes, at + 4, at + 4 + n);
        proof {
            assert(tail.subrange(4, 4 + n) == field@);
            assert(tail.subrange(4 + n, tail.len() as int) == bytes@.subrange(
                at + 4 + n,
                total as int,
            ));
            let before = field_views(fields@);
            let after = before.push(field@);
            match unpacked(bytes@.subrange(at + 4 + n, total as int)) {
                Some(rest) => {
                    assert(before + (seq![field@] + rest) =~= after + rest);
                },
                None => {},
            }
            assert(field_views(fields@.push(field)) =~= after);
        }
        fields.push(field);
        at = at + 4 + n;
    }
    proof {
        assert(bytes@.subrange(at as int, total as int) =~= Seq::<u8>::empty());
        assert(field_views(fields@) + Seq::<Seq<u8>>::empty() =~= field_views(fields@));
    }
    Some(fields)
}

} // verus!

//! Typed access to a record store: each record is stored in an encoded form
//! and read back as a value.

use crate::store::{
    bytes_lt, lists_in_key_order, store_entries, store_get, store_insert, store_records,
    RecordStore,
};
use crate::wire::{
    field_views, lemma_field_within_packed, lemma_pack_round_trip, pack, packable, packed,
    unpack, unpacked, MAX_FIELD_BYTES,
};
use vstd::prelude::*;

verus! {

/// A value that can be stored: it has a list of fields, which is packed
/// into one byte string of limited length.
pub trait Record: Sized + View {
    /// The most bytes the stored form may take.
    spec fn limit() -> nat;

    /// Whether the value can be made a list of fields.
    spec fn valid(value: Self::V) -> bool;

    /// The fields of a value.
    spec fn fields_of(value: Self::V) -> Seq<Seq<u8>>;

    /// The value that a list of fields stands for, if any.
    spec fn of_fields(fields: Seq<Seq<u8>>) -> Option<Self::V>;

    /// The fields of a value read back as the value.
    proof fn lemma_fields_read_back(value: Self::V)
        requires
            Self::valid(value),
        ensures
            Self::of_fields(Self::fields_of(value)) == Some(value),
    ;

    /// The most bytes the stored form may take.
    fn size_limit() -> (limit: usize)
        ensures
            limit == Self::limit(),
            limit <= MAX_FIELD_BYTES,
    ;

    /// The fields of this value, if it can be made a list of fields.
    fn to_fields(&self) -> (fields: Option<Vec<Vec<u8>>>)
        ensures
            fields is Some == Self::valid(self@),
            fields is Some ==> field_views(fields->0@) == Self::fields_of(self@),
    ;

    /// The value that a list of fields stands for, if any.
    fn from_fields(fields: &Vec<Vec<u8>>) -> (value: Option<Self>)
        ensures
            value is Some == Self::of_fields(field_views(fields@)) is Some,
            value is Some ==> value->0@ == Self::of_fields(field_views(fields@))->0,
    ;
}

/// Whether a value has a stored form: it can be made a list of fields, and
/// the packed fields stay within the limit of its type.
pub open spec fn storable<R: Record>(value: R::V) -> bool {
    &&& R::valid(value)
    &&& packable(R::fields_of(value))
    &&& packed(R::fields_of(value)).len() <= R::limit()
}

/// The stored form of a value: its fields, packed.
pub open spec fn encoded<R: Record>(value: R::V) -> Seq<u8> {
    packed(R::fields_of(value))
}

/// The value that `bytes` is the stored form of, if any.
pub open spec fn decoded<R: Record>(bytes: Seq<u8>) -> Option<R::V> {
    match unpacked(bytes) {
        Some(fields) => R::of_fields(fields),
        None => None,
    }
}

/// A stored value reads back as it was.
pub proof fn lemma_round_trip<R: Record>(value: R::V)
    requires
        storable::<R>(value),
    ensures
        decoded::<R>(encoded::<R>(value)) == Some(value),
{
    lemma_pack_round_trip(R::fields_of(value));
    R::lemma_fields_read_back(value);
}

/// No field of a value takes more room than the whole stored form.
pub proof fn lemma_key_within_record<R: Record>(value: R::V, index: int)
    requires
        0 <= index < R::fields_of(value).len(),
    ensures
        R::fields_of(value)[index].len() <= packed(R::fields_of(value)).len(),
{
    lemma_field_within_packed(R::fields_of(value), index);
}

/// The stored form of a value, if it has one.
pub fn encode<R: Record>(value: &R) -> (bytes: Option<Vec<u8>>)
    ensures
        bytes is Some == storable::<R>(value@),
        bytes is Some ==> bytes->0@ == encoded::<R>(value@),
        bytes is Some ==> bytes->0@.len() <= MAX_FIELD_BYTES,
{
    let fields = match value.to_fields() {
        Some(fields) => fields,
        None => {
            return None;
        },
    };
    let bytes = match pack(&fields) {
        Some(bytes) => bytes,
        None => {
            return None;
        },
    };
    if bytes.len() > R::size_limit() {
        return None;
    }
    Some(bytes)
}

/// Reads a stored form back; `None` if `bytes` is the stored form of no value.
pub fn decode<R: Record>(bytes: &Vec<u8>) -> (value: Option<R>)
    ensures
        value is Some == decoded::<R>(bytes@) is Some,
        value is Some ==> value->0@ == decoded::<R>(bytes@)->0,
{
    match unpack(bytes) {
        Some(fields) => R::from_fields(&fields),
        None => None,
    }
}

/// Whether every record of the store reads back as a value of type `R`,
/// under a key of a length that fits in 32 bits.
pub open spec fn table_ok<R: Record>(store: RecordStore) -> bool {
    forall|k: Seq<u8>| #[trigger]
        store_records(store).contains_key(k) ==> k.len() <= MAX_FIELD_BYTES && decoded::<R>(
            store_records(store)[k],
        ) is Some
}

/// The values that a store holds, by key.
pub open spec fn table_view<R: Record>(store: RecordStore) -> Map<Seq<u8>, R::V> {
    Map::new(
        |k: Seq<u8>| store_records(store).contains_key(k),
        |k: Seq<u8>| decoded::<R>(store_records(store)[k])->0,
    )
}

/// The value stored under `key`, if there is one.
pub fn table_get<R: Record>(store: &RecordStore, key: &Vec<u8>) -> (found: Option<R>)
    requires
        table_ok::<R>(*store),
    ensures
        found is Some == table_view::<R>(*store).contains_key(key@),
        found is Some ==> found->0@ == table_view::<R>(*store)[key@],
{
    match store_get(store, key) {
        Some(bytes) => decode::<R>(&bytes),
        None => None,
    }
}

/// Stores `value` under `key`, in place of what was there; refused, with
/// nothing written, if the value has no stored form or the length of the
/// key does not fit in 32 bits.
pub fn table_put<R: Record>(store: &mut RecordStore, key: Vec<u8>, value: &R) -> (stored: bool)
    requires
        table_ok::<R>(*old(store)),
    ensures
        table_ok::<R>(*final(store)),
        stored == (storable::<R>(value@) && key@.len() <= MAX_FIELD_BYTES),
        stored ==> table_view::<R>(*final(store)) == table_view::<R>(*old(store)).insert(
            key@,
            value@,
        ),
        !stored ==> *final(store) == *old(store),
{
    if key.len() > MAX_FIELD_BYTES {
        return false;
    }
    match encode::<R>(value) {
        Some(bytes) => {
            proof {
                lemma_round_trip::<R>(value@);
            }
            store_insert(store, key, bytes);
            proof {
                assert(table_view::<R>(*final(store)) =~= table_view::<R>(*old(store)).insert(
                    key@,
                    value@,
                ));
            }
            true
        },
        None => false,
    }
}

/// Whether `keys` holds exactly the keys of `map`, each once, in ascending
/// order.
pub open spec fn lists_keys_of<V>(keys: Seq<Seq<u8>>, map: Map<Seq<u8>, V>) -> bool {
    &&& forall|i: int, j: int|
        0 <= i < j < keys.len() ==> bytes_lt(#[trigger] keys[i], #[trigger] keys[j])
    &&& forall|i: int| 0 <= i < keys.len() ==> map.contains_key(#[trigger] keys[i])
    &&& forall|k: Seq<u8>| #[trigger] map.contains_key(k) ==> keys.contains(k)
}

/// The keys of a map in ascending order.
pub open spec fn ordered_keys<V>(map: Map<Seq<u8>, V>) -> Seq<Seq<u8>> {
    choose|keys: Seq<Seq<u8>>| lists_keys_of(keys, map)
}

/// The values of a map in the ascending order of their keys.
pub open spec fn ordered_values<V>(map: Map<Seq<u8>, V>) -> Seq<V> {
    Seq::new(ordered_keys(map).len(), |i: int| map[ordered_keys(map)[i]])
}

/// No byte string is both before and after another, nor before itself.
pub proof fn lemma_bytes_lt_asymmetric(a: Seq<u8>, b: Seq<u8>)
    requires
        bytes_lt(a, b),
    ensures
        !bytes_lt(b, a),
        a != b,
    decreases a.len(),
{
    if a.len() > 0 && b.len() > 0 && a[0] == b[0] {
        lemma_bytes_lt_asymmetric(a.drop_first(), b.drop_first());
        if a == b {
            assert(a.drop_first() == b.drop_first());
        }
    }
}

/// Whether the byte strings of `keys` stand in ascending order.
pub open spec fn ascending_keys(keys: Seq<Seq<u8>>) -> bool {
    forall|i: int, j: int|
        0 <= i < j < keys.len() ==> bytes_lt(#[trigger] keys[i], #[trigger] keys[j])
}

/// Whether every byte string of `keys` is one of `others`.
pub open spec fn keys_within(keys: Seq<Seq<u8>>, others: Seq<Seq<u8>>) -> bool {
    forall|i: int| 0 <= i < keys.len() ==> others.contains(#[trigger] keys[i])
}

proof fn lemma_first_keys_agree(a: Seq<Seq<u8>>, b: Seq<Seq<u8>>)
    requires
        ascending_keys(a),
        ascending_keys(b),
        keys_within(a, b),
        keys_within(b, a),
        a.len() > 0,
    ensures
        b.len() > 0,
        a[0] == b[0],
{
    assert(b.contains(a[0]));
    let j = choose|j: int| 0 <= j < b.len() && b[j] == a[0];
    assert(a.contains(b[0]));
    let i = choose|i: int| 0 <= i < a.len() && a[i] == b[0];
    if j > 0 {
        assert(bytes_lt(b[0], b[j]));
        lemma_bytes_lt_asymmetric(b[0], b[j]);
        if i > 0 {
            assert(bytes_lt(a[0], a[i]));
        }
    }
}

proof fn lemma_rest_keys_within(a: Seq<Seq<u8>>, b: Seq<Seq<u8>>)
    requires
        ascending_keys(a),
        keys_within(a, b),
        a.len() > 0,
        b.len() > 0,
        a[0] == b[0],
    ensures
        keys_within(a.drop_first(), b.drop_first()),
{
    let ta = a.drop_first();
    let tb = b.drop_first();
    assert forall|x: int| 0 <= x < ta.len() implies tb.contains(#[trigger] ta[x]) by {
        assert(ta[x] == a[x + 1]);
        assert(b.contains(a[x + 1]));
        let y = choose|y: int| 0 <= y < b.len() && b[y] == a[x + 1];
        assert(bytes_lt(a[0], a[x + 1]));
        lemma_bytes_lt_asymmetric(a[0], a[x + 1]);
        assert(y > 0);
        assert(tb[y - 1] == ta[x]);
    }
}

proof fn lemma_rest_keys_ascending(a: Seq<Seq<u8>>)
    requires
        ascending_keys(a),
        a.len() > 0,
    ensures
        ascending_keys(a.drop_first()),
{
    let ta = a.drop_first();
    assert forall|x: int, y: int| 0 <= x < y < ta.len() implies bytes_lt(
        #[trigger] ta[x],
        #[trigger] ta[y],
    ) by {
        assert(ta[x] == a[x + 1]);
        assert(ta[y] == a[y + 1]);
        assert(bytes_lt(a[x + 1], a[y + 1]));
    }
}

/// Two ascending lists of the same byte strings are the same list.
pub proof fn lemma_ascending_keys_agree(a: Seq<Seq<u8>>, b: Seq<Seq<u8>>)
    requires
        ascending_keys(a),
        ascending_keys(b),
        keys_within(a, b),
        keys_within(b, a),
    ensures
        a == b,
    decreases a.len(),
{
    if a.len() == 0 {
        if b.len() > 0 {
            assert(a.contains(b[0]));
        }
        assert(a =~= b);
    } else {
        lemma_first_keys_agree(a, b);
        lemma_rest_keys_within(a, b);
        lemma_rest_keys_within(b, a);
        lemma_rest_keys_ascending(a);
        lemma_rest_keys_ascending(b);
        lemma_ascending_keys_agree(a.drop_first(), b.drop_first());
        assert(a =~= seq![a[0]] + a.drop_first());
        assert(b =~= seq![b[0]] + b.drop_first());
    }
}

/// A map has one list of its keys in ascending order.
pub proof fn lemma_ordered_keys_unique<V>(keys: Seq<Seq<u8>>, map: Map<Seq<u8>, V>)
    requires
        lists_keys_of(keys, map),
    ensures
        keys == ordered_keys(map),
{
    let other = ordered_keys(map);
    assert(lists_keys_of(other, map));
    assert forall|i: int| 0 <= i < keys.len() implies other.contains(#[trigger] keys[i]) by {
        assert(map.contains_key(keys[i]));
    }
    assert forall|i: int| 0 <= i < other.len() implies keys.contains(#[trigger] other[i]) by {
        assert(map.contains_key(other[i]));
    }
    lemma_ascending_keys_agree(keys, other);
}

/// The views of a list of values.
pub open spec fn views_of<R: View>(list: Seq<R>) -> Seq<R::V> {
    Seq::new(list.len(), |i: int| list[i]@)
}

/// All values of the store, in the ascending order of their keys.
pub fn table_list<R: Record>(store: &RecordStore) -> (values: Vec<R>)
    requires
        table_ok::<R>(*store),
    ensures
        views_of(values@) == ordered_values(table_view::<R>(*store)),
{
    let entries = store_entries(store);
    let mut values: Vec<R> = Vec::new();
    let ghost table = table_view::<R>(*store);
    let ghost keys = Seq::new(entries@.len(), |i: int| entries@[i].0@);
    proof {
        assert forall|k: Seq<u8>| #[trigger] table.contains_key(k) implies keys.contains(k) by {
            let i = choose|i: int| 0 <= i < entries@.len() && (#[trigger] entries@[i]).0@ == k;
            assert(keys[i] == k);
        }
        lemma_ordered_keys_unique(keys, table);
    }
    let mut i: usize = 0;
    while i < entries.len()
        invariant
            table_ok::<R>(*store),
            lists_in_key_order(entries@, store_records(*store)),
            table == table_view::<R>(*store),
            keys == Seq::new(entries@.len(), |i: int| entries@[i].0@),
            i <= entries.len(),
            values.len() == i,
            forall|j: int| 0 <= j < i ==> (#[trigger] values@[j])@ == table[keys[j]],
        decreases entries.len() - i,
    {
        assert(store_records(*store).contains_key(entries@[i as int].0@));
        match decode::<R>(&entries[i].1) {
            Some(value) => {
                values.push(value);
            },
            None => {
                proof {
                    assert(false);
                }
            },
        }
        i += 1;
    }
    proof {
        assert(views_of(values@) =~= ordered_values(table));
    }
    values
}

/// Whether every record of the store reads back as a value of type `R`,
/// found by reading them all.
pub fn table_check<R: Record>(store: &RecordStore) -> (sound: bool)
    ensures
        sound == table_ok::<R>(*store),
{
    let entries = store_entries(store);
    let mut i: usize = 0;
    while i < entries.len()
        invariant
            lists_in_key_order(entries@, store_records(*store)),
            i <= entries.len(),
            forall|j: int|
                0 <= j < i ==> (#[trigger] entries@[j]).0@.len() <= MAX_FIELD_BYTES
                    && decoded::<R>(entries@[j].1@) is Some,
        decreases entries.len() - i,
    {
        assert(store_records(*store).contains_key(entries@[i as int].0@));
        if entries[i].0.len() > MAX_FIELD_BYTES {
            return false;
        }
        if decode::<R>(&entries[i].1).is_none() {
            return false;
        }
        i += 1;
    }
    proof {
        assert forall|k: Seq<u8>| #[trigger] store_records(*store).contains_key(k) implies k.len()
            <= MAX_FIELD_BYTES && decoded::<R>(store_records(*store)[k]) is Some by {
            let j = choose|j: int| 0 <= j < entries@.len() && (#[trigger] entries@[j]).0@ == k;
            assert(entries@[j].0@ == k);
        }
    }
    true
}

/// Whether a value is stored under `key`.
pub fn table_has(store: &RecordStore, key: &Vec<u8>) -> (found: bool)
    ensures
        found == store_records(*store).contains_key(key@),
{
    store_get(store, key).is_some()
}

/// A way of choosing among values.
pub trait Choice<R: View> {
    /// Whether a value is wanted.
    spec fn wants(&self, value: R::V) -> bool;

    /// Whether a value is wanted.
    fn picks(&self, value: &R) -> (wanted: bool)
        ensures
            wanted == self.wants(value@),
    ;
}

/// The values of a list that a choice wants, in the order of the list.
pub open spec fn chosen_of<R: View, C: Choice<R>>(all: Seq<R::V>, choice: C) -> Seq<R::V> {
    all.filter(|value: R::V| choice.wants(value))
}

/// The values of `all` that `choice` wants, in their order.
pub fn chosen<R: View, C: Choice<R>>(all: Vec<R>, choice: &C) -> (kept: Vec<R>)
    ensures
        views_of(kept@) == chosen_of::<R, C>(views_of(all@), *choice),
{
    let ghost wanted = |value: R::V| choice.wants(value);
    let mut kept: Vec<R> = Vec::new();
    proof {
        reveal(Seq::filter);
        assert(views_of(all@).take(0) =~= Seq::<R::V>::empty());
        assert(views_of(kept@) =~= Seq::<R::V>::empty());
    }
    for value in iter: all
        invariant
            wanted == |value: R::V| choice.wants(value),
            views_of(kept@) == views_of(all@).take(iter.index() as int).filter(wanted),
    {
        proof {
            reveal(Seq::filter);
            let i = iter.index() as int;
            assert(views_of(all@).take(i + 1).drop_last() =~= views_of(all@).take(i));
            assert(views_of(all@).take(i + 1).last() == value@);
        }
        let ghost before = kept@;
        if choice.picks(&value) {
            kept.push(value);
            proof {
                assert(views_of(kept@) =~= views_of(before).push(value@));
            }
        }
    }
    proof {
        assert(views_of(all@).take(all@.len() as int) =~= views_of(all@));
    }
    kept
}

} // verus!

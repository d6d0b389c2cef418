//! The durable ordered map that holds a service's records.
//!
//! Keys and records are byte strings. The map itself is the stable B-tree of
//! `ic_stable_structures`; this module states what the services rely on from
//! it and proves nothing about the tree.
//!
//! The stores of a service share the default memory of the process, divided
//! by a memory manager. A service makes its stores once, either empty or as
//! they were left there, and nothing else may use that memory meanwhile.

use ic_stable_structures::memory_manager::{MemoryId, MemoryManager, VirtualMemory};
use ic_stable_structures::{DefaultMemoryImpl, StableBTreeMap};
use vstd::prelude::*;

verus! {

/// A stable B-tree map from byte-string keys to byte-string records.
///
/// The tree type is generic over traits that the verifier does not know, so
/// the map is held opaquely and described through [`store_records`].
#[verifier::external_body]
pub struct RecordStore {
    inner: StableBTreeMap<Vec<u8>, Vec<u8>, VirtualMemory<DefaultMemoryImpl>>,
}

/// The records a store holds, by key.
pub uninterp spec fn store_records(store: RecordStore) -> Map<Seq<u8>, Seq<u8>>;

/// Lexicographic order on byte strings: the order in which `Vec<u8>` keys are
/// compared, and so the order in which a store is walked.
pub open spec fn bytes_lt(a: Seq<u8>, b: Seq<u8>) -> bool
    decreases a.len(),
{
    if b.len() == 0 {
        false
    } else if a.len() == 0 {
        true
    } else if a[0] != b[0] {
        a[0] < b[0]
    } else {
        bytes_lt(a.drop_first(), b.drop_first())
    }
}

/// `entries` lists exactly the records of `records`, each once, by ascending key.
pub open spec fn lists_in_key_order(
    entries: Seq<(Vec<u8>, Vec<u8>)>,
    records: Map<Seq<u8>, Seq<u8>>,
) -> bool {
    &&& forall|i: int, j: int|
        0 <= i < j < entries.len() ==> bytes_lt(#[trigger] entries[i].0@, #[trigger] entries[j].0@)
    &&& forall|i: int|
        0 <= i < entries.len() ==> records.contains_key(#[trigger] entries[i].0@)
            && records[entries[i].0@] == entries[i].1@
    &&& forall|k: Seq<u8>| #[trigger]
        records.contains_key(k) ==> exists|i: int|
            0 <= i < entries.len() && (#[trigger] entries[i]).0@ == k
}

/// Creates the two empty stores of a service.
///
/// Calls `MemoryManager::init` on `DefaultMemoryImpl::default()`, takes the
/// virtual memories 0 and 1 with `MemoryManager::get`, and makes a map in each
/// with `StableBTreeMap::new`, which writes an empty tree whatever the memory
/// held before. The contract claims that both maps come out empty. The call
/// takes no argument; it panics only if the memory of the process holds a
/// memory manager of a layout that the crate does not know, or cannot grow.
#[verifier::external_body]
pub(crate) fn store_pair() -> (pair: (RecordStore, RecordStore))
    ensures
        (store_records(pair.0) == Map::<Seq<u8>, Seq<u8>>::empty()),
        (store_records(pair.1) == Map::<Seq<u8>, Seq<u8>>::empty()),
{
    let manager = MemoryManager::init(DefaultMemoryImpl::default());
    let first = StableBTreeMap::new(manager.get(MemoryId::new(0)));
    let second = StableBTreeMap::new(manager.get(MemoryId::new(1)));
    (RecordStore { inner: first }, RecordStore { inner: second })
}

/// Creates the three empty stores of a service.
///
/// As [`store_pair`], with a third map in the virtual memory 2. The contract
/// claims that the three maps come out empty.
#[verifier::external_body]
pub(crate) fn store_triple() -> (triple: (RecordStore, RecordStore, RecordStore))
    ensures
        (store_records(triple.0) == Map::<Seq<u8>, Seq<u8>>::empty()),
        (store_records(triple.1) == Map::<Seq<u8>, Seq<u8>>::empty()),
        (store_records(triple.2) == Map::<Seq<u8>, Seq<u8>>::empty()),
{
    let manager = MemoryManager::init(DefaultMemoryImpl::default());
    let first = StableBTreeMap::new(manager.get(MemoryId::new(0)));
    let second = StableBTreeMap::new(manager.get(MemoryId::new(1)));
    let third = StableBTreeMap::new(manager.get(MemoryId::new(2)));
    (RecordStore { inner: first }, RecordStore { inner: second }, RecordStore { inner: third })
}

/// Opens the two stores of a service as they were left in the memory.
///
/// As [`store_pair`], but with `StableBTreeMap::init`, which loads the tree
/// that the memory holds and makes an empty one if it holds none. What the
/// maps hold depends on the memory, so the contract claims nothing. The call
/// panics only if the memory holds a memory manager or a tree of a layout
/// that the crate does not know.
#[verifier::external_body]
pub(crate) fn store_pair_opened() -> (pair: (RecordStore, RecordStore)) {
    let manager = MemoryManager::init(DefaultMemoryImpl::default());
    let first = StableBTreeMap::init(manager.get(MemoryId::new(0)));
    let second = StableBTreeMap::init(manager.get(MemoryId::new(1)));
    (RecordStore { inner: first }, RecordStore { inner: second })
}

/// Opens the three stores of a service as they were left in the memory.
///
/// As [`store_pair_opened`], with a third map in the virtual memory 2. The
/// contract claims nothing.
#[verifier::external_body]
pub(crate) fn store_triple_opened() -> (triple: (RecordStore, RecordStore, RecordStore)) {
    let manager = MemoryManager::init(DefaultMemoryImpl::default());
    let first = StableBTreeMap::init(manager.get(MemoryId::new(0)));
    let second = StableBTreeMap::init(manager.get(MemoryId::new(1)));
    let third = StableBTreeMap::init(manager.get(MemoryId::new(2)));
    (RecordStore { inner: first }, RecordStore { inner: second }, RecordStore { inner: third })
}

/// Looks a key up with `StableBTreeMap::get`.
///
/// The contract claims that the call returns the record stored under `key`,
/// and `None` exactly when there is none.
#[verifier::external_body]
pub(crate) fn store_get(store: &RecordStore, key: &Vec<u8>) -> (found: Option<Vec<u8>>)
    ensures
        found is Some == store_records(*store).contains_key(key@),
        found is Some ==> found->0@ == store_records(*store)[key@],
{
    store.inner.get(key)
}

/// Stores a record with `StableBTreeMap::insert`, which replaces the record
/// already under `key` if there is one.
///
/// The contract claims that afterwards the store maps `key` to `record` and is
/// otherwise unchanged. The tree writes lengths as 32-bit numbers, hence the
/// bounds. The call panics only if the memory cannot grow any further.
#[verifier::external_body]
pub(crate) fn store_insert(store: &mut RecordStore, key: Vec<u8>, record: Vec<u8>)
    requires
        key@.len() <= u32::MAX,
        record@.len() <= u32::MAX,
    ensures
        store_records(*final(store)) == store_records(*old(store)).insert(key@, record@),
{
    store.inner.insert(key, record);
}

/// Walks the store with `StableBTreeMap::iter`, which yields the entries
/// sorted by key, and collects them.
///
/// The contract claims that the result holds every record of the store once,
/// by ascending key in the order of `Vec<u8>`.
#[verifier::external_body]
pub(crate) fn store_entries(store: &RecordStore) -> (entries: Vec<(Vec<u8>, Vec<u8>)>)
    ensures
        lists_in_key_order(entries@, store_records(*store)),
{
    store.inner.iter().collect()
}

} // verus!

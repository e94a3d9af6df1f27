//! The deduplication index: a capacity-aware hash table that maps content to
//! symbol without storing a second copy of the content.
//!
//! The table holds only the entry indices already minted; every probe works
//! from an explicitly supplied hash, and equality during collision resolution
//! is delegated to resolving the candidate index back into content through
//! the arena. When the table grows it re-derives the hash of a key by asking
//! the arena for that entry's cached hash, so no content is ever rehashed.
//!
//! The table itself is `hashbrown`'s; its behaviour enters the proofs only
//! through the contracts of the wrapper functions below, stated over
//! [`index_entries`], the abstract map from stored key to the hash it is
//! stored under.

use crate::backend::StringBackend;
use crate::intern::Intern;
use crate::symbol::Symbol;
use hashbrown::hash_map::RawEntryMut;
use vstd::prelude::*;

verus! {

/// The set of entry indices known to the deduplication index, stored in a
/// hash table probed by cached hashes.
#[verifier::external_body]
pub struct DedupIndex {
    map: hashbrown::HashMap<usize, (), ()>,
}

/// What the index holds: each stored entry index, mapped to the hash it is
/// currently stored under.
pub uninterp spec fn index_entries(d: DedupIndex) -> Map<usize, u64>;

/// Whether index `i` names an entry of `backend` whose content equals
/// `value`'s content.
pub open spec fn entry_matches<I: Intern + ?Sized, S: Symbol>(
    backend: &StringBackend<I, S>,
    i: usize,
    value: &I,
) -> bool {
    (i as int) < backend@.len() && backend@[i as int] == value.elems()
}

/// Relies on `hashbrown::HashMap::with_hasher`: a fresh map is empty.
#[verifier::external_body]
pub(crate) fn dedup_new() -> (r: DedupIndex)
    ensures
        index_entries(r) =~= Map::empty(),
{
    DedupIndex { map: hashbrown::HashMap::with_hasher(()) }
}

/// Relies on `hashbrown::HashMap::with_capacity_and_hasher`: a fresh map is
/// empty whatever capacity it reserves.
#[verifier::external_body]
pub(crate) fn dedup_with_capacity(cap: usize) -> (r: DedupIndex)
    ensures
        index_entries(r) =~= Map::empty(),
{
    DedupIndex { map: hashbrown::HashMap::with_capacity_and_hasher(cap, ()) }
}

/// Relies on `hashbrown::HashMap::len`: the number of stored keys.
#[verifier::external_body]
pub(crate) fn dedup_len(d: &DedupIndex) -> (r: usize)
    ensures
        r == index_entries(*d).dom().len(),
{
    d.map.len()
}

/// Relies on `hashbrown::HashMap::clone`: the clone holds the same keys,
/// stored under the same hashes.
#[verifier::external_body]
pub(crate) fn dedup_clone(d: &DedupIndex) -> (r: DedupIndex)
    ensures
        index_entries(r) == index_entries(*d),
{
    DedupIndex { map: d.map.clone() }
}

/// Relies on `HashMap::raw_entry().from_hash`: a hit is a stored key accepted
/// by the probe; a miss means no key stored under `hash` is accepted. The
/// probe accepts a key exactly when the arena resolves it to content equal to
/// `value`'s.
#[verifier::external_body]
pub(crate) fn dedup_find<I: Intern + ?Sized, S: Symbol>(
    d: &DedupIndex,
    backend: &StringBackend<I, S>,
    hash: u64,
    value: &I,
) -> (r: Option<usize>)
    requires
        backend.wf(),
    ensures
        match r {
            Some(i) => index_entries(*d).dom().contains(i) && entry_matches(backend, i, value),
            None => forall|i: usize|
                index_entries(*d).dom().contains(i) && index_entries(*d)[i] == hash
                    ==> !entry_matches(backend, i, value),
        },
{
    d.map.raw_entry().from_hash(hash, |sym| backend.content_eq(*sym, value)).map(|(s, _v)| *s)
}

/// Relies on `HashMap::raw_entry_mut().from_hash(..).insert_with_hasher`:
/// when no stored key is accepted by the probe, `key` is inserted and stored
/// under `hash`; the insertion may grow the table, in which case the hashes
/// of the other keys are re-derived by the given callback, which returns the
/// arena's cached hash for that key. The raw insert never checks for a
/// duplicate key, so `key` must not be stored already.
#[verifier::external_body]
pub(crate) fn dedup_insert<I: Intern + ?Sized, S: Symbol>(
    d: &mut DedupIndex,
    backend: &StringBackend<I, S>,
    hash: u64,
    value: &I,
    key: usize,
)
    requires
        backend.wf(),
        !index_entries(*old(d)).dom().contains(key),
        forall|i: usize|
            index_entries(*old(d)).dom().contains(i) ==> !entry_matches(backend, i, value),
    ensures
        index_entries(*final(d)).dom() == index_entries(*old(d)).dom().insert(key),
        index_entries(*final(d))[key] == hash,
        forall|i: usize|
            i != key && index_entries(*old(d)).dom().contains(i) ==> {
                ||| #[trigger] index_entries(*final(d))[i] == index_entries(*old(d))[i]
                ||| index_entries(*final(d))[i] == if (i as int) < backend.hashes().len() {
                    backend.hashes()[i as int]
                } else {
                    0u64
                }
            },
{
    let entry = d.map.raw_entry_mut().from_hash(hash, |sym| backend.content_eq(*sym, value));
    match entry {
        RawEntryMut::Occupied(_) => {}
        RawEntryMut::Vacant(vacant) => {
            vacant.insert_with_hasher(hash, key, (), |sym| backend.hash_or_zero(*sym));
        }
    }
}

} // verus!

//! The concurrent maps of the `dashmap` crate that hold the cache's entries
//! and the eviction policies' per-key scores.
//!
//! Each map is seen through a name for what it holds; the functions below
//! state what each `dashmap` operation does to that content. They take the
//! map by `&mut` wherever the operation changes it, so that every change is
//! visible to the caller's contract.
use dashmap::DashMap;
use vstd::prelude::*;

verus! {

/// `dashmap::DashMap`, opaque to proofs: its content is seen only through
/// `store_contents` and `score_contents`.
#[verifier::external_type_specification]
#[verifier::external_body]
#[verifier::reject_recursive_types(K)]
#[verifier::reject_recursive_types(V)]
#[verifier::reject_recursive_types(S)]
pub struct ExDashMap<K, V, S>(DashMap<K, V, S>);

/// A cache entry as the store holds it: the value's bytes and, when it
/// expires, the clock reading (in nanoseconds) from which it counts as gone.
pub type StoredEntry = (Vec<u8>, Option<u64>);

/// The store's content: each key's text mapped to its entry.
pub uninterp spec fn store_contents(m: DashMap<String, StoredEntry>) -> Map<Seq<char>, (Seq<u8>, Option<u64>)>;

/// A score map's content: each key's text mapped to its score.
pub uninterp spec fn score_contents(m: DashMap<String, u64>) -> Map<Seq<char>, u64>;

/// `r` lists each key of `c` exactly once, with its expiry.
pub open spec fn lists_expiries(
    r: Seq<(String, Option<u64>)>,
    c: Map<Seq<char>, (Seq<u8>, Option<u64>)>,
) -> bool {
    &&& c.dom().finite()
    &&& r.len() == c.len()
    &&& forall|i: int| 0 <= i < r.len() ==> #[trigger] c.contains_key(r[i].0@) && c[r[i].0@].1 == r[i].1
    &&& forall|i: int, j: int| 0 <= i < j < r.len() ==> r[i].0@ != r[j].0@
    &&& forall|k: Seq<char>| #[trigger] c.contains_key(k) ==> exists|i: int| 0 <= i < r.len() && r[i].0@ == k
}

/// `r` lists each key of `c` exactly once, with its score.
pub open spec fn lists_scores(r: Seq<(String, u64)>, c: Map<Seq<char>, u64>) -> bool {
    &&& c.dom().finite()
    &&& r.len() == c.len()
    &&& forall|i: int| 0 <= i < r.len() ==> #[trigger] c.contains_key(r[i].0@) && c[r[i].0@] == r[i].1
    &&& forall|i: int, j: int| 0 <= i < j < r.len() ==> r[i].0@ != r[j].0@
    &&& forall|k: Seq<char>| #[trigger] c.contains_key(k) ==> exists|i: int| 0 <= i < r.len() && r[i].0@ == k
}

/// Relies on `DashMap::new`: the new map is empty.
#[verifier::external_body]
pub(crate) fn store_new() -> (r: DashMap<String, StoredEntry>)
    ensures
        store_contents(r).dom().is_empty(),
{
    DashMap::new()
}

/// Relies on `DashMap::len`: the number of keys in the map.
#[verifier::external_body]
pub(crate) fn store_len(m: &DashMap<String, StoredEntry>) -> (r: usize)
    ensures
        r == store_contents(*m).len(),
{
    m.len()
}

/// Relies on `DashMap::contains_key`: whether the key is in the map.
#[verifier::external_body]
pub(crate) fn store_contains(m: &DashMap<String, StoredEntry>, k: &String) -> (r: bool)
    ensures
        r == store_contents(*m).contains_key(k@),
{
    m.contains_key(k)
}

/// Relies on `DashMap::get`: a copy of the key's entry, if the key is there.
#[verifier::external_body]
pub(crate) fn store_get(m: &DashMap<String, StoredEntry>, k: &String) -> (r: Option<StoredEntry>)
    ensures
        r.is_some() == store_contents(*m).contains_key(k@),
        r matches Some(e) ==> e@ == store_contents(*m)[k@],
{
    m.get(k).map(|e| e.value().clone())
}

/// Relies on `DashMap::insert`: the key now maps to the entry, replacing any
/// earlier one; other keys are untouched.
#[verifier::external_body]
pub(crate) fn store_insert(m: &mut DashMap<String, StoredEntry>, k: String, e: StoredEntry)
    ensures
        store_contents(*final(m)) == store_contents(*old(m)).insert(k@, e@),
{
    m.insert(k, e);
}

/// Relies on `DashMap::remove`: the key is gone, and its entry, if it had
/// one, is handed back.
#[verifier::external_body]
pub(crate) fn store_remove(m: &mut DashMap<String, StoredEntry>, k: &String) -> (r: Option<StoredEntry>)
    ensures
        store_contents(*final(m)) == store_contents(*old(m)).remove(k@),
        r.is_some() == store_contents(*old(m)).contains_key(k@),
        r matches Some(e) ==> e@ == store_contents(*old(m))[k@],
{
    m.remove(k).map(|(_, e)| e)
}

/// Relies on `DashMap::iter`: every key with its expiry, each key once, in
/// an order that the map chooses.
#[verifier::external_body]
pub(crate) fn store_expiries(m: &DashMap<String, StoredEntry>) -> (r: Vec<(String, Option<u64>)>)
    ensures
        lists_expiries(r@, store_contents(*m)),
{
    m.iter().map(|e| (e.key().clone(), e.value().1)).collect()
}

/// Relies on `DashMap::clear`: the map is empty.
#[verifier::external_body]
pub(crate) fn store_clear(m: &mut DashMap<String, StoredEntry>)
    ensures
        store_contents(*final(m)).dom().is_empty(),
{
    m.clear();
}

/// Relies on `DashMap::new`: the new map is empty.
#[verifier::external_body]
pub(crate) fn scores_new() -> (r: DashMap<String, u64>)
    ensures
        score_contents(r).dom().is_empty(),
{
    DashMap::new()
}

/// Relies on `DashMap::get`: the key's score, if the key is there.
#[verifier::external_body]
pub(crate) fn scores_get(m: &DashMap<String, u64>, k: &String) -> (r: Option<u64>)
    ensures
        r.is_some() == score_contents(*m).contains_key(k@),
        r matches Some(s) ==> s == score_contents(*m)[k@],
{
    m.get(k).map(|e| *e.value())
}

/// Relies on `DashMap::insert`: the key now has the score; other keys are untouched.
#[verifier::external_body]
pub(crate) fn scores_insert(m: &mut DashMap<String, u64>, k: String, s: u64)
    ensures
        score_contents(*final(m)) == score_contents(*old(m)).insert(k@, s),
{
    m.insert(k, s);
}

/// Relies on `DashMap::remove`: the key is gone; other keys are untouched.
#[verifier::external_body]
pub(crate) fn scores_remove(m: &mut DashMap<String, u64>, k: &String)
    ensures
        score_contents(*final(m)) == score_contents(*old(m)).remove(k@),
{
    m.remove(k);
}

/// Relies on `DashMap::iter`: every key with its score, each key once, in an
/// order that the map chooses.
#[verifier::external_body]
pub(crate) fn scores_entries(m: &DashMap<String, u64>) -> (r: Vec<(String, u64)>)
    ensures
        lists_scores(r@, score_contents(*m)),
{
    m.iter().map(|e| (e.key().clone(), *e.value())).collect()
}

/// Relies on `DashMap::clear`: the map is empty.
#[verifier::external_body]
pub(crate) fn scores_clear(m: &mut DashMap<String, u64>)
    ensures
        score_contents(*final(m)).dom().is_empty(),
{
    m.clear();
}

} // verus!

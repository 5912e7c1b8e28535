//! Trusted interface to `dashmap::DashMap`, the concurrent map the engine's
//! bookkeeping tables are built on.
//!
//! Each table type the engine uses gets a name for what it holds (a `Map` of
//! plain values) and one wrapper per `DashMap` method the logic calls. The
//! wrappers take `&mut` so that contracts can say how the contents change;
//! `DashMap` itself only needs `&self`. Iteration order is whatever the map's
//! shards give, so the listing wrappers promise only a duplicate-free listing
//! of exactly the contents. Inserting and removing never unwind: `DashMap`'s
//! shard locks do not poison, and hashing a `String` cannot panic.

use vstd::prelude::*;
use dashmap::DashMap;

use crate::catalog::Capability;
use crate::kernel::{ModelInfo, ModelInfoView, ModelType};
use crate::metrics::ProviderUsage;

verus! {

#[verifier::external_type_specification]
#[verifier::external_body]
#[verifier::reject_recursive_types(K)]
#[verifier::reject_recursive_types(V)]
#[verifier::reject_recursive_types(S)]
pub struct ExDashMap<K, V, S>(DashMap<K, V, S>);

/// Model id to a byte count or a recency stamp.
pub type ByteTable = DashMap<String, u64>;

/// Model id to a flag.
pub type FlagTable = DashMap<String, bool>;

/// Model type to the types observed to follow it.
pub type FollowerTable = DashMap<ModelType, Vec<ModelType>>;

/// Application id to the model types it subscribed to.
pub type SubscriptionTable = DashMap<String, Vec<ModelType>>;

/// Model type to transition counts towards each next type.
pub type TransitionTable = DashMap<ModelType, Vec<(ModelType, usize)>>;

/// Provider name to its token and cost totals.
pub type UsageTable = DashMap<String, ProviderUsage>;

/// Scope to the capability predicted for its next request.
pub type PendingTable = DashMap<String, Capability>;

/// What a [`PendingTable`] holds.
pub uninterp spec fn pending_table(m: PendingTable) -> Map<Seq<char>, Capability>;

/// The empty prediction map.
pub open spec fn no_pending() -> Map<Seq<char>, Capability> {
    Map::empty()
}

/// Model id to the backend's record of the model.
pub type ModelTable = DashMap<String, ModelInfo>;

/// What a [`ModelTable`] holds, each record by its view.
pub uninterp spec fn model_table(m: ModelTable) -> Map<Seq<char>, ModelInfoView>;

/// The empty record map.
pub open spec fn no_models() -> Map<Seq<char>, ModelInfoView> {
    Map::empty()
}

/// What a [`UsageTable`] holds.
pub uninterp spec fn usage_table(m: UsageTable) -> Map<Seq<char>, ProviderUsage>;

/// Whether `pairs` lists exactly the entries of `m`, each key once.
pub open spec fn lists_usage(pairs: Seq<(String, ProviderUsage)>, m: Map<Seq<char>, ProviderUsage>) -> bool {
    &&& forall|i: int, j: int| 0 <= i < j < pairs.len() ==> pairs[i].0@ != pairs[j].0@
    &&& forall|i: int|
        0 <= i < pairs.len() ==> #[trigger] m.contains_key(pairs[i].0@) && m[pairs[i].0@]
            == pairs[i].1
    &&& forall|k: Seq<char>|
        #[trigger] m.contains_key(k) ==> exists|i: int| 0 <= i < pairs.len() && pairs[i].0@ == k
}

/// The empty usage map.
pub open spec fn no_usage() -> Map<Seq<char>, ProviderUsage> {
    Map::empty()
}

/// What a [`ByteTable`] holds.
pub uninterp spec fn byte_table(m: ByteTable) -> Map<Seq<char>, u64>;

/// What a [`FlagTable`] holds.
pub uninterp spec fn flag_table(m: FlagTable) -> Map<Seq<char>, bool>;

/// What a [`FollowerTable`] holds.
pub uninterp spec fn follower_table(m: FollowerTable) -> Map<ModelType, Seq<ModelType>>;

/// What a [`SubscriptionTable`] holds.
pub uninterp spec fn subscription_table(m: SubscriptionTable) -> Map<Seq<char>, Seq<ModelType>>;

/// What a [`TransitionTable`] holds.
pub uninterp spec fn transition_table(m: TransitionTable) -> Map<ModelType, Seq<(ModelType, usize)>>;

/// Whether `pairs` lists exactly the entries of `m`, each key once.
pub open spec fn lists_bytes(pairs: Seq<(String, u64)>, m: Map<Seq<char>, u64>) -> bool {
    &&& forall|i: int, j: int| 0 <= i < j < pairs.len() ==> pairs[i].0@ != pairs[j].0@
    &&& forall|i: int|
        0 <= i < pairs.len() ==> #[trigger] m.contains_key(pairs[i].0@) && m[pairs[i].0@]
            == pairs[i].1
    &&& forall|k: Seq<char>|
        #[trigger] m.contains_key(k) ==> exists|i: int| 0 <= i < pairs.len() && pairs[i].0@ == k
    &&& m.dom().finite()
}

/// The empty byte map.
pub open spec fn no_bytes() -> Map<Seq<char>, u64> {
    Map::empty()
}

/// The empty flag map.
pub open spec fn no_flags() -> Map<Seq<char>, bool> {
    Map::empty()
}

/// The empty follower map.
pub open spec fn no_followers() -> Map<ModelType, Seq<ModelType>> {
    Map::empty()
}

/// The empty subscription map.
pub open spec fn no_subscriptions() -> Map<Seq<char>, Seq<ModelType>> {
    Map::empty()
}

/// The empty transition map.
pub open spec fn no_transitions() -> Map<ModelType, Seq<(ModelType, usize)>> {
    Map::empty()
}

// ----- ByteTable ----------------------------------------------------------------

/// `DashMap::new` for a [`ByteTable`]: an empty table.
#[verifier::external_body]
pub(crate) fn byte_table_new() -> (m: ByteTable)
    ensures
        byte_table(m) == no_bytes(),
{
    DashMap::new()
}

/// `DashMap::insert`: `key` now maps to `value`; the previous value is returned.
#[verifier::external_body]
pub(crate) fn byte_table_insert(m: &mut ByteTable, key: String, value: u64) -> (r: Option<u64>)
    ensures
        byte_table(*final(m)) == byte_table(*old(m)).insert(key@, value),
        r == byte_table(*old(m)).get(key@),
    no_unwind
{
    m.insert(key, value)
}

/// `DashMap::remove`: `key` no longer maps to anything; its value is returned.
#[verifier::external_body]
pub(crate) fn byte_table_remove(m: &mut ByteTable, key: &str) -> (r: Option<u64>)
    ensures
        byte_table(*final(m)) == byte_table(*old(m)).remove(key@),
        r == byte_table(*old(m)).get(key@),
    no_unwind
{
    m.remove(key).map(|(_, v)| v)
}

/// `DashMap::get`: the value `key` maps to, if any.
#[verifier::external_body]
pub(crate) fn byte_table_get(m: &ByteTable, key: &str) -> (r: Option<u64>)
    ensures
        r == byte_table(*m).get(key@),
{
    m.get(key).map(|v| *v)
}

/// `DashMap::iter`: every entry, each key once, in the map's own order.
#[verifier::external_body]
pub(crate) fn byte_table_entries(m: &ByteTable) -> (r: Vec<(String, u64)>)
    ensures
        lists_bytes(r@, byte_table(*m)),
{
    m.iter().map(|e| (e.key().clone(), *e.value())).collect()
}

// ----- FlagTable ----------------------------------------------------------------

/// `DashMap::new` for a [`FlagTable`]: an empty table.
#[verifier::external_body]
pub(crate) fn flag_table_new() -> (m: FlagTable)
    ensures
        flag_table(m) == no_flags(),
{
    DashMap::new()
}

/// `DashMap::insert`: `key` now maps to `value`.
#[verifier::external_body]
pub(crate) fn flag_table_insert(m: &mut FlagTable, key: String, value: bool) -> (r: Option<bool>)
    ensures
        flag_table(*final(m)) == flag_table(*old(m)).insert(key@, value),
        r == flag_table(*old(m)).get(key@),
    no_unwind
{
    m.insert(key, value)
}

/// `DashMap::remove`: `key` no longer maps to anything.
#[verifier::external_body]
pub(crate) fn flag_table_remove(m: &mut FlagTable, key: &str) -> (r: Option<bool>)
    ensures
        flag_table(*final(m)) == flag_table(*old(m)).remove(key@),
        r == flag_table(*old(m)).get(key@),
    no_unwind
{
    m.remove(key).map(|(_, v)| v)
}

/// `DashMap::get`: the flag of `key`, if any.
#[verifier::external_body]
pub(crate) fn flag_table_get(m: &FlagTable, key: &str) -> (r: Option<bool>)
    ensures
        r == flag_table(*m).get(key@),
{
    m.get(key).map(|v| *v)
}

// ----- FollowerTable ------------------------------------------------------------

/// `DashMap::new` for a [`FollowerTable`]: an empty table.
#[verifier::external_body]
pub(crate) fn follower_table_new() -> (m: FollowerTable)
    ensures
        follower_table(m) == no_followers(),
{
    DashMap::new()
}

/// `DashMap::get`: a copy of the types that followed `key`, if any.
#[verifier::external_body]
pub(crate) fn follower_table_get(m: &FollowerTable, key: ModelType) -> (r: Option<Vec<ModelType>>)
    ensures
        r matches Some(v) ==> follower_table(*m).contains_key(key) && v@ == follower_table(*m)[key],
        r is None ==> !follower_table(*m).contains_key(key),
{
    m.get(&key).map(|v| v.clone())
}

/// `DashMap::insert`: `key` now maps to `value`.
#[verifier::external_body]
pub(crate) fn follower_table_insert(m: &mut FollowerTable, key: ModelType, value: Vec<ModelType>)
    ensures
        follower_table(*final(m)) == follower_table(*old(m)).insert(key, value@),
{
    m.insert(key, value);
}

// ----- SubscriptionTable --------------------------------------------------------

/// `DashMap::new` for a [`SubscriptionTable`]: an empty table.
#[verifier::external_body]
pub(crate) fn subscription_table_new() -> (m: SubscriptionTable)
    ensures
        subscription_table(m) == no_subscriptions(),
{
    DashMap::new()
}

/// `DashMap::insert`: `key` now maps to `value`.
#[verifier::external_body]
pub(crate) fn subscription_table_insert(m: &mut SubscriptionTable, key: String, value: Vec<ModelType>)
    ensures
        subscription_table(*final(m)) == subscription_table(*old(m)).insert(key@, value@),
{
    m.insert(key, value);
}

/// `DashMap::get`: a copy of the types `key` subscribed to, if any.
#[verifier::external_body]
pub(crate) fn subscription_table_get(m: &SubscriptionTable, key: &str) -> (r: Option<Vec<ModelType>>)
    ensures
        r matches Some(v) ==> subscription_table(*m).contains_key(key@) && v@ == subscription_table(
            *m,
        )[key@],
        r is None ==> !subscription_table(*m).contains_key(key@),
{
    m.get(key).map(|v| v.clone())
}

// ----- TransitionTable ----------------------------------------------------------

/// `DashMap::new` for a [`TransitionTable`]: an empty table.
#[verifier::external_body]
pub(crate) fn transition_table_new() -> (m: TransitionTable)
    ensures
        transition_table(m) == no_transitions(),
{
    DashMap::new()
}

/// `DashMap::get`: a copy of the counts out of `key`, if any.
#[verifier::external_body]
pub(crate) fn transition_table_get(m: &TransitionTable, key: ModelType) -> (r: Option<
    Vec<(ModelType, usize)>,
>)
    ensures
        r matches Some(v) ==> transition_table(*m).contains_key(key) && v@ == transition_table(
            *m,
        )[key],
        r is None ==> !transition_table(*m).contains_key(key),
{
    m.get(&key).map(|v| v.clone())
}

/// `DashMap::insert`: `key` now maps to `value`.
#[verifier::external_body]
pub(crate) fn transition_table_insert(m: &mut TransitionTable, key: ModelType, value: Vec<(ModelType, usize)>)
    ensures
        transition_table(*final(m)) == transition_table(*old(m)).insert(key, value@),
    no_unwind
{
    m.insert(key, value);
}

// ----- UsageTable ---------------------------------------------------------------

/// `DashMap::new` for a [`UsageTable`]: an empty table.
#[verifier::external_body]
pub(crate) fn usage_table_new() -> (m: UsageTable)
    ensures
        usage_table(m) == no_usage(),
{
    DashMap::new()
}

/// `DashMap::get`: a copy of the totals of `key`, if any.
#[verifier::external_body]
pub(crate) fn usage_table_get(m: &UsageTable, key: &str) -> (r: Option<ProviderUsage>)
    ensures
        r == usage_table(*m).get(key@),
{
    m.get(key).map(|v| *v)
}

/// `DashMap::insert`: `key` now maps to `value`.
#[verifier::external_body]
pub(crate) fn usage_table_insert(m: &mut UsageTable, key: String, value: ProviderUsage)
    ensures
        usage_table(*final(m)) == usage_table(*old(m)).insert(key@, value),
    no_unwind
{
    m.insert(key, value);
}

/// `DashMap::iter`: every entry, each key once, in the map's own order.
#[verifier::external_body]
pub(crate) fn usage_table_entries(m: &UsageTable) -> (r: Vec<(String, ProviderUsage)>)
    ensures
        lists_usage(r@, usage_table(*m)),
{
    m.iter().map(|e| (e.key().clone(), *e.value())).collect()
}

// ----- PendingTable -------------------------------------------------------------

/// `DashMap::new` for a [`PendingTable`]: an empty table.
#[verifier::external_body]
pub(crate) fn pending_table_new() -> (m: PendingTable)
    ensures
        pending_table(m) == no_pending(),
{
    DashMap::new()
}

/// `DashMap::len`: how many entries the table holds.
#[verifier::external_body]
pub(crate) fn pending_table_len(m: &PendingTable) -> (r: usize)
    ensures
        r == pending_table(*m).dom().len(),
{
    m.len()
}

/// `DashMap::contains_key`.
#[verifier::external_body]
pub(crate) fn pending_table_contains(m: &PendingTable, key: &str) -> (r: bool)
    ensures
        r == pending_table(*m).contains_key(key@),
{
    m.contains_key(key)
}

/// `DashMap::iter().next()`: the key of some entry (in the map's own order),
/// `None` when the table is empty.
#[verifier::external_body]
pub(crate) fn pending_table_some_key(m: &PendingTable) -> (r: Option<String>)
    ensures
        r matches Some(k) ==> pending_table(*m).contains_key(k@),
        r is None ==> pending_table(*m).dom().len() == 0,
{
    m.iter().next().map(|e| e.key().clone())
}

/// `DashMap::remove`: `key` no longer maps to anything; its value is returned.
#[verifier::external_body]
pub(crate) fn pending_table_remove(m: &mut PendingTable, key: &str) -> (r: Option<Capability>)
    ensures
        pending_table(*final(m)) == pending_table(*old(m)).remove(key@),
        r == pending_table(*old(m)).get(key@),
    no_unwind
{
    m.remove(key).map(|(_, v)| v)
}

/// `DashMap::insert`: `key` now maps to `value`.
#[verifier::external_body]
pub(crate) fn pending_table_insert(m: &mut PendingTable, key: String, value: Capability)
    ensures
        pending_table(*final(m)) == pending_table(*old(m)).insert(key@, value),
    no_unwind
{
    m.insert(key, value);
}

// ----- ModelTable ---------------------------------------------------------------

/// `DashMap::new` for a [`ModelTable`]: an empty table.
#[verifier::external_body]
pub(crate) fn model_table_new() -> (m: ModelTable)
    ensures
        model_table(m) == no_models(),
{
    DashMap::new()
}

/// `DashMap::get`: a copy (by the record's derived `Clone`) of the record
/// of `key`, if any.
#[verifier::external_body]
pub(crate) fn model_table_get(m: &ModelTable, key: &str) -> (r: Option<ModelInfo>)
    ensures
        r matches Some(v) ==> model_table(*m).contains_key(key@) && v@ == model_table(*m)[key@],
        r is None ==> !model_table(*m).contains_key(key@),
{
    m.get(key).map(|v| v.clone())
}

/// `DashMap::insert`: `key` now maps to `value`.
#[verifier::external_body]
pub(crate) fn model_table_insert(m: &mut ModelTable, key: String, value: ModelInfo)
    ensures
        model_table(*final(m)) == model_table(*old(m)).insert(key@, value@),
    no_unwind
{
    m.insert(key, value);
}

// ----- sums over byte maps ------------------------------------------------------

/// Sum of the values of a finite byte map.
pub open spec fn map_sum(m: Map<Seq<char>, u64>) -> int
    decreases m.dom().len(),
    when m.dom().finite()
{
    if m.dom().len() == 0 {
        0
    } else {
        let k = m.dom().choose();
        m[k] + map_sum(m.remove(k))
    }
}

/// Sum of the values of a list of pairs.
pub open spec fn pairs_sum(pairs: Seq<(String, u64)>) -> int
    decreases pairs.len(),
{
    if pairs.len() == 0 {
        0
    } else {
        pairs_sum(pairs.drop_last()) + pairs.last().1
    }
}

/// Removing any key takes its value off the sum.
pub proof fn lemma_map_sum_remove(m: Map<Seq<char>, u64>, k: Seq<char>)
    requires
        m.dom().finite(),
        m.contains_key(k),
    ensures
        map_sum(m) == m[k] + map_sum(m.remove(k)),
    decreases m.dom().len(),
{
    let c = m.dom().choose();
    assert(m.dom().len() > 0) by {
        vstd::set_lib::lemma_set_empty_equivalency_len(m.dom());
    }
    if c != k {
        let mc = m.remove(c);
        let mk = m.remove(k);
        assert(mc.dom() =~= m.dom().remove(c));
        assert(mk.dom() =~= m.dom().remove(k));
        lemma_map_sum_remove(mc, k);
        lemma_map_sum_remove(mk, c);
        assert(mc.remove(k) =~= mk.remove(c));
    }
}

/// The sum of a duplicate-free listing equals the sum of the map it lists.
pub proof fn lemma_pairs_sum(pairs: Seq<(String, u64)>, m: Map<Seq<char>, u64>)
    requires
        lists_bytes(pairs, m),
    ensures
        pairs_sum(pairs) == map_sum(m),
    decreases pairs.len(),
{
    if pairs.len() == 0 {
        if m.dom().len() > 0 {
            let k = m.dom().choose();
            assert(m.contains_key(k));
        }
        assert(m.dom().len() == 0);
    } else {
        let last = pairs.last();
        let init = pairs.drop_last();
        let m2 = m.remove(last.0@);
        assert(m.contains_key(pairs[pairs.len() - 1].0@));
        assert(lists_bytes(init, m2)) by {
            assert forall|i: int, j: int| 0 <= i < j < init.len() implies init[i].0@ != init[j].0@ by {
                assert(pairs[i].0@ != pairs[j].0@);
            }
            assert forall|i: int| 0 <= i < init.len() implies #[trigger] m2.contains_key(init[i].0@)
                && m2[init[i].0@] == init[i].1 by {
                assert(pairs[i].0@ != pairs[pairs.len() - 1].0@);
                assert(m.contains_key(pairs[i].0@));
            }
            assert forall|k: Seq<char>| #[trigger] m2.contains_key(k) implies exists|i: int|
                0 <= i < init.len() && init[i].0@ == k by {
                assert(m.contains_key(k));
                let i = choose|i: int| 0 <= i < pairs.len() && pairs[i].0@ == k;
                assert(i != pairs.len() - 1);
                assert(init[i] == pairs[i]);
            }
        }
        lemma_pairs_sum(init, m2);
        lemma_map_sum_remove(m, last.0@);
    }
}

} // verus!

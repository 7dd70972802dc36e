//! The concurrent containers behind the subscription index, with their
//! contents stated as mathematical sets and maps.

use vstd::prelude::*;

verus! {

#[verifier::external_type_specification]
#[verifier::external_body]
#[verifier::reject_recursive_types(K)]
#[verifier::reject_recursive_types(S)]
pub struct ExDashSet<K, S>(dashmap::DashSet<K, S>);

#[verifier::external_type_specification]
#[verifier::external_body]
#[verifier::reject_recursive_types(K)]
#[verifier::reject_recursive_types(V)]
#[verifier::reject_recursive_types(S)]
pub struct ExDashMap<K, V, S>(dashmap::DashMap<K, V, S>);

/// The set of keys a `DashSet<u64>` holds.
pub uninterp spec fn offer_set_contents(s: dashmap::DashSet<u64>) -> Set<u64>;

/// The connection-to-offer-keys association a `DashMap<u64, DashSet<u64>>` holds.
pub uninterp spec fn conn_map_contents(
    m: dashmap::DashMap<u64, dashmap::DashSet<u64>>,
) -> Map<u64, Set<u64>>;

/// Relies on `DashSet::new`: the fresh set is empty.
#[verifier::external_body]
pub(crate) fn offer_set_new() -> (s: dashmap::DashSet<u64>)
    ensures
        offer_set_contents(s) == Set::<u64>::empty(),
{
    dashmap::DashSet::new()
}

/// Relies on `DashSet::insert`: afterwards the set holds `key` besides
/// everything it already held.
#[verifier::external_body]
pub(crate) fn offer_set_insert(s: &mut dashmap::DashSet<u64>, key: u64)
    ensures
        offer_set_contents(*final(s)) == offer_set_contents(*old(s)).insert(key),
{
    s.insert(key);
}

/// Relies on `DashSet::remove`: afterwards the set holds everything it held
/// but `key`.
#[verifier::external_body]
pub(crate) fn offer_set_remove(s: &mut dashmap::DashSet<u64>, key: u64)
    ensures
        offer_set_contents(*final(s)) == offer_set_contents(*old(s)).remove(key),
{
    s.remove(&key);
}

/// Relies on `DashSet::contains`.
#[verifier::external_body]
pub(crate) fn offer_set_contains(s: &dashmap::DashSet<u64>, key: u64) -> (present: bool)
    ensures
        present == offer_set_contents(*s).contains(key),
{
    s.contains(&key)
}

/// The empty association: no connection is known.
pub open spec fn no_connections() -> Map<u64, Set<u64>> {
    Map::<u64, Set<u64>>::empty()
}

/// Relies on `DashMap::new`: the fresh map is empty.
#[verifier::external_body]
pub(crate) fn conn_map_new() -> (fresh: dashmap::DashMap<u64, dashmap::DashSet<u64>>)
    ensures
        conn_map_contents(fresh) == no_connections(),
{
    dashmap::DashMap::new()
}

/// Relies on `DashMap::contains_key`.
#[verifier::external_body]
pub(crate) fn conn_map_contains_key(
    m: &dashmap::DashMap<u64, dashmap::DashSet<u64>>,
    connection_id: u64,
) -> (known: bool)
    ensures
        known == conn_map_contents(*m).dom().contains(connection_id),
{
    m.contains_key(&connection_id)
}

/// Relies on `DashMap::entry` and `Entry::or_default`: a missing entry is
/// created holding an empty set; an existing one is left as it is.
#[verifier::external_body]
pub(crate) fn conn_map_ensure_entry(
    m: &mut dashmap::DashMap<u64, dashmap::DashSet<u64>>,
    connection_id: u64,
)
    ensures
        conn_map_contents(*final(m)) == (if conn_map_contents(*old(m)).dom().contains(
            connection_id,
        ) {
            conn_map_contents(*old(m))
        } else {
            conn_map_contents(*old(m)).insert(connection_id, Set::<u64>::empty())
        }),
{
    m.entry(connection_id).or_default();
}

/// Relies on `DashMap::entry`, `Entry::or_default` and `DashSet::insert`:
/// `key` joins the connection's set and no other entry moves.
#[verifier::external_body]
pub(crate) fn conn_map_add(
    m: &mut dashmap::DashMap<u64, dashmap::DashSet<u64>>,
    connection_id: u64,
    key: u64,
)
    requires
        conn_map_contents(*old(m)).dom().contains(connection_id),
    ensures
        conn_map_contents(*final(m)) == conn_map_contents(*old(m)).insert(
            connection_id,
            conn_map_contents(*old(m))[connection_id].insert(key),
        ),
{
    m.entry(connection_id).or_default().insert(key);
}

/// Relies on `DashMap::remove` and `DashSet`'s owning iterator: the entry
/// leaves the map, and the returned vector holds exactly the keys of the
/// removed set, in no promised order.
#[verifier::external_body]
pub(crate) fn conn_map_remove(
    m: &mut dashmap::DashMap<u64, dashmap::DashSet<u64>>,
    connection_id: u64,
) -> (removed: Option<Vec<u64>>)
    ensures
        conn_map_contents(*final(m)) == conn_map_contents(*old(m)).remove(connection_id),
        (match removed {
            Some(keys) => conn_map_contents(*old(m)).dom().contains(connection_id)
                && keys@.to_set() == conn_map_contents(*old(m))[connection_id],
            None => !conn_map_contents(*old(m)).dom().contains(connection_id),
        }),
{
    m.remove(&connection_id).map(|(_, ids)| ids.into_iter().collect())
}

} // verus!

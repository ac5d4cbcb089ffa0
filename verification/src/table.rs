use vstd::prelude::*;
use crate::handle::StateHandle;
use dashmap::DashMap;

verus! {

/// The shared concurrent map that publishes state handles, as the server
/// keeps it: a `dashmap::DashMap` from id to handle. The type is opaque to
/// the verifier; everything the registry knows about it goes through
/// `table_view` and the wrappers below.
#[verifier::external_type_specification]
#[verifier::external_body]
#[verifier::reject_recursive_types(K)]
#[verifier::reject_recursive_types(V)]
#[verifier::reject_recursive_types(S)]
pub struct ExDashMap<K, V, S>(DashMap<K, V, S>);

/// What the table holds, keyed by the characters of the id. All wrapper
/// contracts are stated over this map; they rely on `String`'s `Eq` and
/// `Hash`, which compare and hash exactly the characters.
pub uninterp spec fn table_view(t: DashMap<String, StateHandle>) -> Map<Seq<char>, StateHandle>;

/// The contents of a table that holds nothing.
pub open spec fn empty_table() -> Map<Seq<char>, StateHandle> {
    Map::empty()
}

/// Relies on dashmap::DashMap::new: a freshly built map holds no entries.
#[verifier::external_body]
pub fn table_new() -> (r: DashMap<String, StateHandle>)
    ensures
        table_view(r) == empty_table(),
{
    DashMap::new()
}

/// Relies on dashmap::DashMap::contains_key: membership under `String` keys.
#[verifier::external_body]
pub fn table_contains(t: &DashMap<String, StateHandle>, id: &String) -> (r: bool)
    ensures
        r == table_view(*t).contains_key(id@),
{
    t.contains_key(id)
}

/// Relies on dashmap::DashMap::insert: the entry under the key is written,
/// every other entry stays as it was.
#[verifier::external_body]
pub fn table_insert(t: &mut DashMap<String, StateHandle>, id: String, h: StateHandle)
    ensures
        table_view(*final(t)) == table_view(*old(t)).insert(id@, h),
{
    t.insert(id, h);
}

/// Relies on dashmap::DashMap::remove: the entry under the key, if any, is
/// taken out and handed back; every other entry stays as it was.
#[verifier::external_body]
pub fn table_remove(t: &mut DashMap<String, StateHandle>, id: &String) -> (r: Option<StateHandle>)
    ensures
        table_view(*final(t)) == table_view(*old(t)).remove(id@),
        table_view(*old(t)).contains_key(id@) ==> r == Some(table_view(*old(t))[id@]),
        !table_view(*old(t)).contains_key(id@) ==> r == None::<StateHandle>,
{
    t.remove(id).map(|kv| kv.1)
}

/// Relies on dashmap::DashMap::get; the stored handle is handed out as a
/// clone, which copies its id, snapshot bytes and validity flag.
#[verifier::external_body]
pub fn table_get(t: &DashMap<String, StateHandle>, id: &String) -> (r: Option<StateHandle>)
    ensures
        table_view(*t).contains_key(id@) ==> r == Some(table_view(*t)[id@]),
        !table_view(*t).contains_key(id@) ==> r == None::<StateHandle>,
{
    t.get(id).map(|entry| entry.value().clone())
}

} // verus!

use crate::event::KeyState;
use vec_map::VecMap;
use vstd::prelude::*;

verus! {

#[verifier::external_type_specification]
#[verifier::external_body]
#[verifier::reject_recursive_types(V)]
pub struct ExVecMap<V>(VecMap<V>);

/// The entries that a `VecMap` of key states holds, as a map from key to
/// state.
pub uninterp spec fn entries(table: VecMap<KeyState>) -> Map<usize, KeyState>;

/// `VecMap::new`: the map it returns holds no entry.
#[verifier::external_body]
pub(crate) fn table_new() -> (table: VecMap<KeyState>)
    ensures
        entries(table).dom() == Set::<usize>::empty(),
{
    VecMap::new()
}

/// `VecMap::get`: the state stored under `key`, or `None` where the map
/// holds nothing under it.
#[verifier::external_body]
pub(crate) fn table_get(table: &VecMap<KeyState>, key: usize) -> (found: Option<KeyState>)
    ensures
        found == if entries(*table).contains_key(key) {
            Some(entries(*table)[key])
        } else {
            None
        },
{
    table.get(key).copied()
}

/// `VecMap::insert`: afterwards the map holds `value` under `key` and is
/// otherwise as before; the result is what `key` held before. For a key that
/// it does not hold yet the map grows its backing vector up to index `key`,
/// so a new key is kept small.
#[verifier::external_body]
pub(crate) fn table_insert(table: &mut VecMap<KeyState>, key: usize, value: KeyState) -> (was: Option<KeyState>)
    requires
        key <= u16::MAX || entries(*old(table)).contains_key(key),
    ensures
        entries(*final(table)) == entries(*old(table)).insert(key, value),
        was == if entries(*old(table)).contains_key(key) {
            Some(entries(*old(table))[key])
        } else {
            None
        },
{
    table.insert(key, value)
}

/// `VecMap::keys`: every key that the map holds, each once, in ascending
/// order.
#[verifier::external_body]
pub(crate) fn table_keys(table: &VecMap<KeyState>) -> (keys: Vec<usize>)
    ensures
        forall|i: int, j: int| 0 <= i < j < keys@.len() ==> keys@[i] < keys@[j],
        forall|k: usize| keys@.contains(k) <==> entries(*table).contains_key(k),
{
    table.keys().collect()
}

} // verus!

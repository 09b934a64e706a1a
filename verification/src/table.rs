//! The hash map of the engine's utility crate, as the roster and the handle
//! mappings use it: keyed and valued by 64-bit identifiers.
//!
//! `bevy_utils::HashMap` is hashbrown's `HashMap` with a fixed hasher. Its
//! code is not verified here: the four functions below state what its
//! `default`, `get`, `insert` and `remove` do to the associations it holds,
//! and everything else in the crate is proved from those statements.

use bevy_utils::HashMap;
use vstd::prelude::*;

verus! {

/// A table from one 64-bit identifier to another, kept in a
/// `bevy_utils::HashMap<u64, u64>`. Its field is not visible to proofs:
/// what a table holds is known through [`entries`] alone.
#[verifier::external_body]
pub struct HandleTable {
    inner: HashMap<u64, u64>,
}

/// The associations that a table holds.
pub uninterp spec fn entries(t: HandleTable) -> Map<u64, u64>;

impl View for HandleTable {
    type V = Map<u64, u64>;

    open spec fn view(&self) -> Map<u64, u64> {
        entries(*self)
    }
}

/// `bevy_utils::HashMap::default` (hashbrown's `HashMap::default`): the new
/// table holds no key.
#[verifier::external_body]
pub(crate) fn table_new() -> (table: HandleTable)
    ensures
        forall|k: u64| !entries(table).contains_key(k),
{
    HandleTable { inner: HashMap::default() }
}

/// `bevy_utils::HashMap::get` (hashbrown's `HashMap::get`): the value stored
/// under `key`, copied out, or `None` where the table holds no such key.
#[verifier::external_body]
pub(crate) fn table_get(table: &HandleTable, key: u64) -> (found: Option<u64>)
    ensures
        found == (if entries(*table).contains_key(key) {
            Some(entries(*table)[key])
        } else {
            None
        }),
{
    table.inner.get(&key).copied()
}

/// `bevy_utils::HashMap::insert` (hashbrown's `HashMap::insert`): afterwards
/// `key` maps to `value` and every other key is as before; the result is the
/// value that `key` had, if any.
#[verifier::external_body]
pub(crate) fn table_insert(table: &mut HandleTable, key: u64, value: u64) -> (prior: Option<u64>)
    ensures
        entries(*final(table)) == entries(*old(table)).insert(key, value),
        prior == (if entries(*old(table)).contains_key(key) {
            Some(entries(*old(table))[key])
        } else {
            None
        }),
{
    table.inner.insert(key, value)
}

/// `bevy_utils::HashMap::remove` (hashbrown's `HashMap::remove`): afterwards
/// the table lacks `key` and every other key is as before; the result is the
/// value that `key` had, if any.
#[verifier::external_body]
pub(crate) fn table_remove(table: &mut HandleTable, key: u64) -> (prior: Option<u64>)
    ensures
        entries(*final(table)) == entries(*old(table)).remove(key),
        prior == (if entries(*old(table)).contains_key(key) {
            Some(entries(*old(table))[key])
        } else {
            None
        }),
{
    table.inner.remove(&key)
}

impl HandleTable {
    /// A table that holds nothing.
    pub fn new() -> (table: HandleTable)
        ensures
            table@ == Map::<u64, u64>::empty(),
    {
        let table = table_new();
        assert(table@ =~= Map::<u64, u64>::empty());
        table
    }

    /// The identifier stored under `key`.
    pub fn get(&self, key: u64) -> (found: Option<u64>)
        ensures
            found == (if self@.contains_key(key) { Some(self@[key]) } else { None::<u64> }),
    {
        table_get(self, key)
    }
}

} // verus!

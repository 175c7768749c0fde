use vstd::prelude::*;
use rustc_hash::FxHashMap;

verus! {

/// The entries that a name table holds: for each name that was registered,
/// as its sequence of characters, the slot stored for it. The table is a
/// `rustc_hash::FxHashMap`, that is std's `HashMap` hashed by `FxHasher`,
/// whose hash depends on nothing but the key; names are equal when their
/// characters are.
pub uninterp spec fn table_entries(table: FxHashMap<&'static str, u32>) -> Map<Seq<char>, u32>;

/// `FxHashMap::default`, which is `HashMap::default`: a fresh table holds
/// no name.
#[verifier::external_body]
pub(crate) fn table_new() -> (table: FxHashMap<&'static str, u32>)
    ensures
        forall|name: Seq<char>| !table_entries(table).contains_key(name),
{
    FxHashMap::default()
}

/// `HashMap::get` on a name table, copied out of the reference: the slot
/// stored under a name with the characters of `name`, if there is one, and
/// `None` if there is none.
#[verifier::external_body]
pub(crate) fn table_get(table: &FxHashMap<&'static str, u32>, name: &str) -> (found: Option<u32>)
    ensures
        found == (if table_entries(*table).contains_key(name@) {
            Some(table_entries(*table)[name@])
        } else {
            None
        }),
{
    table.get(name).copied()
}

/// `HashMap::insert` on a name table: afterwards `name` maps to `slot`,
/// whether or not it was there before, and every other name is as it was.
/// The slot that was replaced is dropped.
#[verifier::external_body]
pub(crate) fn table_insert(table: &mut FxHashMap<&'static str, u32>, name: &'static str, slot: u32)
    ensures
        table_entries(*final(table)) == table_entries(*old(table)).insert(name@, slot),
{
    table.insert(name, slot);
}

/// `entries` holds `count` names, no more.
pub open spec fn has_size(entries: Map<Seq<char>, u32>, count: usize) -> bool {
    entries.dom().finite() && entries.dom().len() == count
}

/// `HashMap::len` on a name table: the number of names it holds. A table
/// holds finitely many.
#[verifier::external_body]
pub(crate) fn table_len(table: &FxHashMap<&'static str, u32>) -> (count: usize)
    ensures
        has_size(table_entries(*table), count),
{
    table.len()
}

} // verus!

use vstd::prelude::*;
use rustc_hash::FxHashMap;

verus! {

/// `rustc_hash::FxHasher`, the hasher of the maps in this crate. It is
/// carried through as an opaque value; nothing is claimed of it.
#[verifier::external_type_specification]
#[verifier::external_body]
pub struct ExFxHasher(rustc_hash::FxHasher);

/// `core::hash::BuildHasherDefault`, which makes each hasher of a map by
/// `Default`. It is carried through as an opaque value; nothing is claimed
/// of it.
#[verifier::external_type_specification]
#[verifier::external_body]
#[verifier::reject_recursive_types(H)]
pub struct ExBuildHasherDefault<H>(core::hash::BuildHasherDefault<H>);

/// The entries that an edge cache holds: for each directed vertex pair that
/// was recorded, the index of the vertex stored for it. The cache is a
/// `rustc_hash::FxHashMap`, that is std's `HashMap` hashed by `FxHasher`,
/// whose hash depends on nothing but the key; pairs are compared by the
/// equality of their two indices.
pub uninterp spec fn cache_entries(cache: FxHashMap<(usize, usize), usize>) -> Map<(usize, usize), usize>;

/// `FxHashMap::default`, which is `HashMap::default`: a fresh map holds no
/// entry.
#[verifier::external_body]
pub(crate) fn cache_new() -> (cache: FxHashMap<(usize, usize), usize>)
    ensures
        forall|pair: (usize, usize)| !cache_entries(cache).contains_key(pair),
{
    FxHashMap::default()
}

/// `HashMap::get` on an edge cache, copied out of the reference: the value
/// stored under `pair`, if there is one, and `None` if there is none.
#[verifier::external_body]
pub(crate) fn cache_get(cache: &FxHashMap<(usize, usize), usize>, pair: (usize, usize)) -> (found: Option<usize>)
    ensures
        found == (if cache_entries(*cache).contains_key(pair) {
            Some(cache_entries(*cache)[pair])
        } else {
            None
        }),
{
    cache.get(&pair).copied()
}

/// `HashMap::insert` on an edge cache: afterwards `pair` maps to `vertex`,
/// whether or not it was there before, and every other entry is as it was.
/// The value that was replaced is dropped.
#[verifier::external_body]
pub(crate) fn cache_insert(cache: &mut FxHashMap<(usize, usize), usize>, pair: (usize, usize), vertex: usize)
    ensures
        cache_entries(*final(cache)) == cache_entries(*old(cache)).insert(pair, vertex),
{
    cache.insert(pair, vertex);
}

} // verus!

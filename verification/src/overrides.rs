//! Height overrides keyed by vertex index.
//!
//! An area pass answers with the heights it wants to change, and nothing
//! else: a vertex that is not a key keeps the height it had. The answers
//! are kept in the hash map of `bevy::utils`.

use vstd::prelude::*;

verus! {

/// The heights that an area pass wants to write, by vertex index.
///
/// The hash map itself is hidden from the verifier; `override_entries`
/// stands for what it holds.
#[verifier::external_body]
pub struct HeightOverrides {
    map: bevy::utils::HashMap<usize, i64>,
}

/// What a set of overrides holds: the new height of each vertex it names.
pub uninterp spec fn override_entries(o: HeightOverrides) -> Map<usize, i64>;

impl View for HeightOverrides {
    type V = Map<usize, i64>;

    open spec fn view(&self) -> Map<usize, i64> {
        override_entries(*self)
    }
}

/// The overrides that change nothing.
pub open spec fn no_entries() -> Map<usize, i64> {
    Map::empty()
}

/// Whether `pairs` lists every entry of `entries` once and nothing else.
pub open spec fn lists_entries(pairs: Seq<(usize, i64)>, entries: Map<usize, i64>) -> bool {
    &&& forall|i: int| 0 <= i < pairs.len() ==> #[trigger] entries.contains_pair(pairs[i].0, pairs[i].1)
    &&& forall|i: int, j: int| 0 <= i < j < pairs.len() ==> pairs[i].0 != pairs[j].0
    &&& forall|k: usize| #[trigger] entries.contains_key(k) ==> exists|i: int| 0 <= i < pairs.len() && pairs[i].0 == k
}

impl HeightOverrides {
    /// `HashMap::default` of `bevy::utils`: a map that holds nothing.
    #[verifier::external_body]
    pub(crate) fn empty() -> (r: HeightOverrides)
        ensures
            override_entries(r) == no_entries(),
    {
        HeightOverrides { map: bevy::utils::HashMap::default() }
    }

    /// `HashMap::insert` of hashbrown: afterwards `index` maps to `height`,
    /// whether or not it was a key before, and every other entry is as it was.
    #[verifier::external_body]
    pub(crate) fn put(&mut self, index: usize, height: i64)
        ensures
            override_entries(*final(self)) == override_entries(*old(self)).insert(index, height),
    {
        self.map.insert(index, height);
    }

    /// `HashMap::get` of hashbrown: the height stored for `index`, if any.
    #[verifier::external_body]
    pub(crate) fn lookup(&self, index: usize) -> (r: Option<i64>)
        ensures
            r == (if override_entries(*self).contains_key(index) {
                Some(override_entries(*self)[index])
            } else {
                None
            }),
    {
        self.map.get(&index).copied()
    }

    /// `HashMap::iter` of hashbrown: every entry once, in an order that
    /// nothing is said about.
    #[verifier::external_body]
    pub(crate) fn pairs(&self) -> (r: Vec<(usize, i64)>)
        ensures
            lists_entries(r@, override_entries(*self)),
    {
        self.map.iter().map(|(k, v)| (*k, *v)).collect()
    }

    /// The height that these overrides hold for vertex `index`, if any.
    pub fn height_at(&self, index: usize) -> (r: Option<i64>)
        ensures
            r == (if self@.contains_key(index) { Some(self@[index]) } else { None }),
    {
        self.lookup(index)
    }
}

} // verus!

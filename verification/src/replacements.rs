//! Maps from text to text: import texts and their replacements, opaque
//! URLs and their files.

use vstd::hash_map::StringHashMap;
use vstd::prelude::*;

verus! {

/// A finite map from strings to strings.
pub struct ReplacementMap {
    entries: StringHashMap<String>,
}

impl View for ReplacementMap {
    type V = Map<Seq<char>, Seq<char>>;

    closed spec fn view(&self) -> Map<Seq<char>, Seq<char>> {
        self.entries@.map_values(|v: String| v@)
    }
}

impl ReplacementMap {
    /// The empty map.
    pub fn new() -> (r: Self)
        ensures
            r@ == Map::<Seq<char>, Seq<char>>::empty(),
    {
        let r = ReplacementMap { entries: StringHashMap::new() };
        assert(r@ =~= Map::<Seq<char>, Seq<char>>::empty());
        r
    }

    /// Maps `key` to `value`, in place of what `key` was mapped to before.
    pub fn insert(&mut self, key: String, value: String)
        ensures
            final(self)@ == old(self)@.insert(key@, value@),
    {
        self.entries.insert(key, value);
        assert(self@ =~= old(self)@.insert(key@, value@));
    }

    /// Whether `key` is mapped.
    pub fn contains_key(&self, key: &str) -> (r: bool)
        ensures
            r == self@.contains_key(key@),
    {
        self.entries.contains_key(key)
    }

    /// What `key` is mapped to.
    pub fn get(&self, key: &str) -> (r: Option<&String>)
        ensures
            match r {
                Some(v) => self@.contains_key(key@) && v@ == self@[key@],
                None => !self@.contains_key(key@),
            },
    {
        self.entries.get(key)
    }

    /// Whether nothing is mapped.
    pub fn is_empty(&self) -> (r: bool)
        ensures
            r == (self@ == Map::<Seq<char>, Seq<char>>::empty()),
    {
        let r = self.entries.is_empty();
        proof {
            if r {
                assert(self@ =~= Map::<Seq<char>, Seq<char>>::empty());
            } else {
                let k = choose|k: Seq<char>| self.entries@.contains_key(k);
                assert(self.entries@.dom().contains(k));
                assert(self@.contains_key(k));
            }
        }
        r
    }
}

} // verus!

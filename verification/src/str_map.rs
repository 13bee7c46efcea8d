//! A map from names to indices, the way the descriptor index uses
//! `HashMap<String, usize>`: inserting a present key replaces its value.

use vstd::prelude::*;

verus! {

/// The map that a sequence of insertions builds, later ones winning.
pub open spec fn entries_map(s: Seq<(String, usize)>) -> Map<Seq<char>, usize>
    decreases s.len(),
{
    if s.len() == 0 {
        Map::empty()
    } else {
        entries_map(s.drop_last()).insert(s.last().0@, s.last().1)
    }
}

/// Insertions after position `j` that do not touch `k` leave its entry as
/// it was after the first `j` insertions.
pub proof fn lemma_entries_map_suffix(s: Seq<(String, usize)>, j: int, k: Seq<char>)
    requires
        0 <= j <= s.len(),
        forall|t: int| j <= t < s.len() ==> s[t].0@ != k,
    ensures
        entries_map(s).contains_key(k) == entries_map(s.take(j)).contains_key(k),
        entries_map(s).contains_key(k) ==> entries_map(s)[k] == entries_map(s.take(j))[k],
    decreases s.len() - j,
{
    if j < s.len() {
        assert(s.drop_last().take(j) =~= s.take(j));
        lemma_entries_map_suffix(s.drop_last(), j, k);
    } else {
        assert(s.take(j) =~= s);
    }
}

/// Map from names to indices.
pub struct StrIndexMap {
    entries: Vec<(String, usize)>,
}

impl View for StrIndexMap {
    type V = Map<Seq<char>, usize>;

    closed spec fn view(&self) -> Map<Seq<char>, usize> {
        entries_map(self.entries@)
    }
}

impl StrIndexMap {
    /// Empty map.
    pub fn new() -> (r: StrIndexMap)
        ensures
            r@ == Map::<Seq<char>, usize>::empty(),
    {
        StrIndexMap { entries: Vec::new() }
    }

    /// Look up the index of a name.
    pub fn get(&self, key: &String) -> (r: Option<usize>)
        ensures
            r == (if self@.contains_key(key@) {
                Some(self@[key@])
            } else {
                None
            }),
    {
        let mut j = self.entries.len();
        while j > 0
            invariant
                j <= self.entries@.len(),
                forall|t: int| j <= t < self.entries@.len() ==> self.entries@[t].0@ != key@,
            decreases j,
        {
            let idx = j - 1;
            if self.entries[idx].0 == *key {
                proof {
                    let s = self.entries@;
                    lemma_entries_map_suffix(s, idx + 1, key@);
                    assert(s.take(idx + 1).drop_last() =~= s.take(idx as int));
                }
                return Some(self.entries[idx].1);
            }
            j = idx;
        }
        proof {
            lemma_entries_map_suffix(self.entries@, 0, key@);
            assert(self.entries@.take(0) =~= Seq::<(String, usize)>::empty());
        }
        None
    }

    /// Insert a name, returning the index it had before, if any.
    pub fn insert(&mut self, key: String, value: usize) -> (r: Option<usize>)
        ensures
            final(self)@ == old(self)@.insert(key@, value),
            r == (if old(self)@.contains_key(key@) {
                Some(old(self)@[key@])
            } else {
                None
            }),
    {
        let previous = self.get(&key);
        let ghost old_entries = self.entries@;
        self.entries.push((key, value));
        assert(self.entries@.drop_last() =~= old_entries);
        previous
    }
}

} // verus!

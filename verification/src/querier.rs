//! A small registry mock: a string-keyed pair table of the kind test
//! harnesses wire into a querier, with the same last-write-wins semantics
//! as a hash map filled by repeated inserts.

use vstd::prelude::*;

verus! {

/// The map a sequence of `(key, value)` entries stands for: a later entry
/// for the same key overrides an earlier one.
pub open spec fn entries_map(s: Seq<(String, String)>) -> Map<Seq<char>, Seq<char>>
    decreases s.len(),
{
    if s.len() == 0 {
        Map::empty()
    } else {
        entries_map(s.drop_last()).insert(s.last().0@, s.last().1@)
    }
}

/// A pair table: an association list read as a map, the last entry per
/// key in force.
#[derive(Clone, Debug)]
pub struct PairsMap {
    pub entries: Vec<(String, String)>,
}

impl PairsMap {
    /// The map this table stands for.
    pub open spec fn as_map(self) -> Map<Seq<char>, Seq<char>> {
        entries_map(self.entries@)
    }

    /// An empty table.
    pub fn new() -> (r: PairsMap)
        ensures
            r.as_map() =~= Map::<Seq<char>, Seq<char>>::empty(),
    {
        PairsMap { entries: Vec::new() }
    }

    /// Stores a pair under a key, overriding any earlier entry.
    pub fn insert(&mut self, key: String, value: String)
        ensures
            final(self).as_map() =~= old(self).as_map().insert(key@, value@),
    {
        self.entries.push((key, value));
        proof {
            assert(self.entries@.drop_last() =~= old(self).entries@);
        }
    }

    /// Looks a key up, yielding the entry in force for it.
    pub fn get(&self, key: &String) -> (r: Option<&String>)
        ensures
            match r {
                Some(v) => self.as_map().contains_key(key@) && v@ == self.as_map()[key@],
                None => !self.as_map().contains_key(key@),
            },
    {
        let n = self.entries.len();
        let mut i: usize = n;
        proof {
            assert(self.entries@.take(n as int) =~= self.entries@);
        }
        while i > 0
            invariant
                0 <= i <= n,
                n == self.entries@.len(),
                entries_map(self.entries@).contains_key(key@) == entries_map(
                    self.entries@.take(i as int),
                ).contains_key(key@),
                entries_map(self.entries@).contains_key(key@) ==> entries_map(self.entries@)[key@]
                    == entries_map(self.entries@.take(i as int))[key@],
            decreases i,
        {
            proof {
                assert(self.entries@.take(i as int).last() == self.entries@[i - 1]);
                assert(self.entries@.take(i as int).drop_last() =~= self.entries@.take(i - 1));
            }
            if self.entries[i - 1].0 == *key {
                return Some(&self.entries[i - 1].1);
            }
            i -= 1;
        }
        None
    }
}

/// Builds the table a list of pairs stands for, later entries overriding
/// earlier ones as repeated hash-map inserts would.
pub fn pairs_to_map(pairs: &Vec<(String, String)>) -> (m: PairsMap)
    ensures
        m.as_map() =~= entries_map(pairs@),
{
    let n = pairs.len();
    let mut m = PairsMap::new();
    let mut i: usize = 0;
    proof {
        assert(pairs@.take(0) =~= Seq::<(String, String)>::empty());
    }
    while i < n
        invariant
            0 <= i <= n,
            n == pairs@.len(),
            m.as_map() =~= entries_map(pairs@.take(i as int)),
        decreases n - i,
    {
        let (k, v) = (pairs[i].0.clone(), pairs[i].1.clone());
        proof {
            assert(pairs@.take(i + 1).last() == pairs@[i as int]);
            assert(pairs@.take(i + 1).drop_last() =~= pairs@.take(i as int));
        }
        m.insert(k, v);
        i += 1;
    }
    proof {
        assert(pairs@.take(n as int) =~= pairs@);
    }
    m
}

/// The factory side of a mock querier: which pair contract serves each
/// concatenated asset-pair key.
#[derive(Clone, Debug)]
pub struct AstroportFactoryQuerier {
    pub pairs: PairsMap,
}

impl AstroportFactoryQuerier {
    /// Builds the mock from a list of key-pair entries.
    pub fn new(pairs: &Vec<(String, String)>) -> (r: AstroportFactoryQuerier)
        ensures
            r.pairs.as_map() =~= entries_map(pairs@),
    {
        AstroportFactoryQuerier { pairs: pairs_to_map(pairs) }
    }
}

/// The one query a mocked price oracle answers.
#[derive(Clone, Copy, Debug)]
pub enum MockQueryMsg {
    Price {},
}

} // verus!

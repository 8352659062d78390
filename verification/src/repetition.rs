//! The repetition table: how often each position, known by its hash, has
//! occurred.

use vstd::prelude::*;
use std::collections::HashMap;

verus! {

/// How often `key` occurs in `keys`.
pub open spec fn occurrences(keys: Seq<u64>, key: u64) -> nat {
    keys.to_multiset().count(key)
}

/// The table of a sequence of hashes: each hash that occurs, with the number
/// of its occurrences.
pub open spec fn tally(keys: Seq<u64>) -> Map<u64, nat> {
    Map::new(|key: u64| keys.contains(key), |key: u64| occurrences(keys, key))
}

/// One more hash raises the number of its own occurrences by one and leaves
/// that of every other hash as it is. A hash occurs in a sequence exactly when
/// the number of its occurrences is not zero.
pub proof fn lemma_occurrences_push(keys: Seq<u64>, key: u64, other: u64)
    ensures
        occurrences(keys.push(key), other) == occurrences(keys, other) + (if other == key {
            1nat
        } else {
            0nat
        }),
        keys.contains(other) <==> occurrences(keys, other) > 0,
{
    broadcast use vstd::multiset::group_multiset_axioms;

    keys.to_multiset_ensures();
    assert(keys.push(key).to_multiset() == keys.to_multiset().insert(key));
}

/// One more hash raises its own count in the tally by one and leaves the
/// other counts as they are.
pub proof fn lemma_tally_push(keys: Seq<u64>, key: u64)
    ensures
        tally(keys.push(key)) == tally(keys).insert(key, occurrences(keys, key) + 1),
{
    let a = tally(keys.push(key));
    let b = tally(keys).insert(key, occurrences(keys, key) + 1);
    assert forall|other: u64| a.dom().contains(other) <==> b.dom().contains(other) by {
        if keys.contains(other) {
            let i = choose|i: int| 0 <= i < keys.len() && keys[i] == other;
            assert(keys.push(key)[i] == other);
        }
        if other == key {
            assert(keys.push(key)[keys.len() as int] == key);
        }
    }
    assert forall|other: u64| a.dom().contains(other) implies a[other] == b[other] by {
        lemma_occurrences_push(keys, key, other);
    }
    assert(a =~= b);
}

/// The tally of a single hash holds that hash once and nothing else.
pub proof fn lemma_tally_one(key: u64)
    ensures
        tally(seq![key]) == map![key => 1nat],
        forall|other: u64|
            occurrences(seq![key], other) == (if other == key {
                1nat
            } else {
                0nat
            }),
{
    let none = Seq::<u64>::empty();
    assert(none.push(key) == seq![key]);
    assert forall|other: u64|
        occurrences(seq![key], other) == (if other == key {
            1nat
        } else {
            0nat
        }) by {
        lemma_occurrences_push(none, key, other);
        assert(!none.contains(other));
    }
    assert(tally(seq![key]) =~= map![key => 1nat]) by {
        assert forall|other: u64| seq![key].contains(other) <==> other == key by {
            if other == key {
                assert(seq![key][0] == key);
            }
        }
    }
}

/// A table from position hash to the number of visits.
pub struct RepetitionTable {
    counts: HashMap<u64, u32>,
}

impl View for RepetitionTable {
    type V = Map<u64, nat>;

    closed spec fn view(&self) -> Map<u64, nat> {
        Map::new(|key: u64| self.counts@.contains_key(key), |key: u64| self.counts@[key] as nat)
    }
}

impl RepetitionTable {
    /// The number of visits that the table holds for `key`: zero where it
    /// holds none.
    pub open spec fn count(&self, key: u64) -> nat {
        if self@.contains_key(key) {
            self@[key]
        } else {
            0
        }
    }

    /// The table of a replay that has seen the starting position only.
    pub fn new(start: u64) -> (r: RepetitionTable)
        ensures
            r@ == map![start => 1nat],
    {
        broadcast use vstd::std_specs::hash::group_hash_axioms;

        let mut counts: HashMap<u64, u32> = HashMap::new();
        counts.insert(start, 1);
        let r = RepetitionTable { counts };
        assert(r@ =~= map![start => 1nat]);
        r
    }

    /// The number of hashes that the table holds.
    pub fn len(&self) -> (n: usize)
        ensures
            n == self@.dom().len(),
    {
        broadcast use vstd::std_specs::hash::group_hash_axioms;

        assert(self@.dom() =~= self.counts@.dom());
        self.counts.len()
    }

    /// The number of visits recorded for `key`.
    pub fn visits(&self, key: u64) -> (n: u32)
        ensures
            n == self.count(key),
    {
        broadcast use vstd::std_specs::hash::group_hash_axioms;

        match self.counts.get(&key) {
            Some(n) => *n,
            None => 0,
        }
    }

    /// Records one more visit of `key` and returns the number of its visits
    /// so far, this one included.
    pub fn record(&mut self, key: u64) -> (n: u32)
        requires
            old(self).count(key) < u32::MAX,
        ensures
            final(self)@ == old(self)@.insert(key, old(self).count(key) + 1),
            n == old(self).count(key) + 1,
    {
        broadcast use vstd::std_specs::hash::group_hash_axioms;

        let n = self.visits(key) + 1;
        self.counts.insert(key, n);
        assert(self@ =~= old(self)@.insert(key, old(self).count(key) + 1));
        n
    }
}

} // verus!

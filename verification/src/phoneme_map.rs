//! The phoneme-to-id table of a voice: a finite map from characters to
//! id sequences, held in a `HashMap` keyed by each character's code.

use std::collections::HashMap;
use vstd::prelude::*;
use vstd::std_specs::iter::IteratorSpec;

verus! {

broadcast use vstd::std_specs::hash::group_hash_axioms;

/// Maps a phoneme character to the ids it encodes to.
#[derive(Debug, PartialEq, Eq)]
pub struct PhonemeIdMap {
    /// Each entry is keyed by the code of its character.
    ids: HashMap<u32, (char, Vec<i64>)>,
}

/// The map that inserting `pairs` one after the other into an empty map
/// gives: a later pair for a character replaces an earlier one.
pub open spec fn pairs_map(pairs: Seq<(char, Vec<i64>)>) -> Map<char, Seq<i64>>
    decreases pairs.len(),
{
    if pairs.len() == 0 {
        Map::empty()
    } else {
        pairs_map(pairs.drop_last()).insert(pairs.last().0, pairs.last().1@)
    }
}

/// Different characters have different codes.
proof fn lemma_code_injective(x: char, y: char)
    ensures
        (x as u32 == y as u32) == (x == y),
{
}

impl PhonemeIdMap {
    /// Every entry sits under the code of its own character.
    #[verifier::type_invariant]
    closed spec fn keyed_by_code(self) -> bool {
        forall|k: u32| #[trigger] self.ids@.contains_key(k) ==> self.ids@[k].0 as u32 == k
    }
}

impl View for PhonemeIdMap {
    type V = Map<char, Seq<i64>>;

    closed spec fn view(&self) -> Map<char, Seq<i64>> {
        Map::new(|c: char| self.ids@.contains_key(c as u32), |c: char| self.ids@[c as u32].1@)
    }
}

impl PhonemeIdMap {
    /// The empty map.
    pub fn new() -> (m: Self)
        ensures
            m@ == Map::<char, Seq<i64>>::empty(),
    {
        let m = PhonemeIdMap { ids: HashMap::new() };
        assert(m@ =~= Map::<char, Seq<i64>>::empty());
        m
    }

    /// Every entry, once each, in no particular order.
    pub fn entries(&self) -> (r: Vec<(char, Vec<i64>)>)
        ensures
            forall|i: int|
                0 <= i < r@.len() ==> self@.contains_key(#[trigger] r@[i].0) && self@[r@[i].0] == r@[i].1@,
            forall|c: char| #[trigger] self@.contains_key(c) ==> exists|i: int| 0 <= i < r@.len() && r@[i].0 == c,
            forall|i: int, j: int| 0 <= i < j < r@.len() ==> r@[i].0 != r@[j].0,
    {
        proof {
            use_type_invariant(self);
        }
        let mut out: Vec<(char, Vec<i64>)> = Vec::new();
        let ghost all = vstd::std_specs::hash::spec_hash_map_iter(&self.ids).remaining();
        for kv in it: self.ids.iter()
            invariant
                it.seq() == all,
                all == vstd::std_specs::hash::spec_hash_map_iter(&self.ids).remaining(),
                out@.len() == it.index(),
                forall|i: int|
                    #![trigger out@[i]]
                    0 <= i < it.index() ==> out@[i].0 == (*all[i].1).0 && out@[i].1@ == (*all[i].1).1@,
        {
            let e = kv.1;
            let ids = copy_ids(&e.1);
            out.push((e.0, ids));
        }
        proof {
            let m = self.ids@;
            assert(all.len() == m.dom().len());
            assert forall|i: int| 0 <= i < out@.len() implies self@.contains_key(#[trigger] out@[i].0)
                && self@[out@[i].0] == out@[i].1@ by {
                let k = *all[i].0;
                assert(m.contains_key(k) && m[k] == *all[i].1);
            }
            assert forall|c: char| #[trigger] self@.contains_key(c) implies exists|i: int|
                0 <= i < out@.len() && out@[i].0 == c by {
                let k = c as u32;
                assert(m.contains_key(k));
                assert(m[k].0 as u32 == k);
                lemma_code_injective(m[k].0, c);
                assert(m[k].0 == c);
                assert(all.contains((&k, &m[k])));
                let i = choose|i: int| 0 <= i < all.len() && all[i] == (&k, &m[k]);
                assert(out@[i].0 == (*all[i].1).0);
                assert(out@[i].0 == c);
            }
            assert forall|i: int, j: int| 0 <= i < j < out@.len() implies out@[i].0 != out@[j].0 by {
                let ki = *all[i].0;
                let kj = *all[j].0;
                assert(m.contains_key(ki) && m[ki] == *all[i].1);
                assert(m.contains_key(kj) && m[kj] == *all[j].1);
                assert(all.no_duplicates());
            }
        }
        out
    }

    /// The ids `c` maps to, if any.
    pub fn get(&self, c: &char) -> (r: Option<&Vec<i64>>)
        ensures
            match r {
                Some(ids) => self@.contains_key(*c) && ids@ == self@[*c],
                None => !self@.contains_key(*c),
            },
    {
        let k = *c as u32;
        match self.ids.get(&k) {
            Some(e) => Some(&e.1),
            None => None,
        }
    }

    /// Whether `c` has an entry.
    pub fn contains_key(&self, c: &char) -> (r: bool)
        ensures
            r == self@.contains_key(*c),
    {
        self.get(c).is_some()
    }

    /// Maps `c` to `ids`, replacing what `c` mapped to before.
    pub fn insert(&mut self, c: char, ids: Vec<i64>)
        ensures
            final(self)@ == old(self)@.insert(c, ids@),
    {
        proof {
            use_type_invariant(&*self);
        }
        let ghost ids_view = ids@;
        let mut map: HashMap<u32, (char, Vec<i64>)> = HashMap::new();
        std::mem::swap(&mut map, &mut self.ids);
        let ghost before = map@;
        map.insert(c as u32, (c, ids));
        assert(map@ == before.insert(c as u32, (c, ids)));
        self.ids = map;
        assert forall|d: char| #[trigger] self@.contains_key(d) == old(self)@.insert(c, ids_view).contains_key(d)
            && (self@.contains_key(d) ==> self@[d] == old(self)@.insert(c, ids_view)[d]) by {
            lemma_code_injective(d, c);
        }
        assert(self@ =~= old(self)@.insert(c, ids_view));
    }

    /// The map built by inserting `pairs` in order.
    pub fn from_pairs(pairs: Vec<(char, Vec<i64>)>) -> (m: Self)
        ensures
            m@ == pairs_map(pairs@),
    {
        let mut m = PhonemeIdMap::new();
        let ghost all = pairs@;
        for p in it: pairs.into_iter()
            invariant
                it.seq() == all,
                m@ == pairs_map(all.take(it.index())),
        {
            proof {
                assert(all.take(it.index() + 1).drop_last() =~= all.take(it.index()));
            }
            let (c, ids) = p;
            m.insert(c, ids);
        }
        assert(all.take(all.len() as int) =~= all);
        m
    }
}

impl Clone for PhonemeIdMap {
    fn clone(&self) -> (r: Self)
        ensures
            r@ == self@,
    {
        proof {
            use_type_invariant(self);
        }
        let r = PhonemeIdMap { ids: self.ids.clone() };
        assert(r@ =~= self@);
        r
    }
}

/// A copy of an id sequence.
pub fn copy_ids(ids: &Vec<i64>) -> (r: Vec<i64>)
    ensures
        r@ == ids@,
{
    let mut r: Vec<i64> = Vec::new();
    for k in 0..ids.len()
        invariant
            r@ == ids@.take(k as int),
    {
        r.push(ids[k]);
        assert(r@ =~= ids@.take(k + 1));
    }
    assert(r@ =~= ids@);
    r
}

} // verus!

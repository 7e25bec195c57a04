//! A mapping from environment-variable name to value, held as the sequence
//! of insertions. A later insertion for the same name wins, which is the
//! last-applied-wins rule that both the filtered environment and the
//! settings list share.

use vstd::prelude::*;
use vstd::slice::slice_to_vec;
use crate::bytes::bytes_equal;
use crate::variable::EnvironmentVariable;

verus! {

/// The mapping that a sequence of (name, value) insertions builds: each
/// insertion overwrites any earlier entry for the same name.
pub open spec fn map_of(entries: Seq<(Seq<u8>, Seq<u8>)>) -> Map<Seq<u8>, Seq<u8>>
    decreases entries.len(),
{
    if entries.len() == 0 {
        Map::empty()
    } else {
        map_of(entries.drop_last()).insert(entries.last().0, entries.last().1)
    }
}

/// A name is in the built mapping exactly when some insertion names it, and
/// its value is the one of the last insertion that does.
#[verifier::rlimit(50)]
pub proof fn lemma_map_of_last_wins(entries: Seq<(Seq<u8>, Seq<u8>)>, n: Seq<u8>)
    ensures
        map_of(entries).dom().contains(n) <==> (exists|i: int|
            0 <= i < entries.len() && (#[trigger] entries[i]).0 == n),
        forall|i: int|
            (0 <= i < entries.len() && (#[trigger] entries[i]).0 == n && (forall|j: int|
                i < j < entries.len() ==> (#[trigger] entries[j]).0 != n)) ==> map_of(
                entries,
            )[n] == entries[i].1,
    decreases entries.len(),
{
    if entries.len() > 0 {
        lemma_map_of_last_wins(entries.drop_last(), n);
        let last = entries.len() - 1;
        if map_of(entries).dom().contains(n) {
            if entries[last].0 != n {
                let i = choose|i: int|
                    0 <= i < entries.drop_last().len() && (#[trigger] entries.drop_last()[i]).0
                        == n;
                assert(entries[i].0 == n);
            }
        }
        if exists|i: int| 0 <= i < entries.len() && (#[trigger] entries[i]).0 == n {
            let i = choose|i: int| 0 <= i < entries.len() && (#[trigger] entries[i]).0 == n;
            if i < last {
                assert(entries.drop_last()[i].0 == n);
            }
        }
        assert forall|i: int|
            (0 <= i < entries.len() && (#[trigger] entries[i]).0 == n && (forall|j: int|
                i < j < entries.len() ==> (#[trigger] entries[j]).0 != n)) implies map_of(
            entries,
        )[n] == entries[i].1 by {
            if i < last {
                assert(entries[last].0 != n);
                assert(entries.drop_last()[i].0 == n);
                assert forall|j: int|
                    i < j < entries.drop_last().len() implies (#[trigger] entries.drop_last()[j]).0
                    != n by {
                    assert(entries[j].0 != n);
                }
            }
        }
    }
}

/// The environment mapping under construction: the filtered inherited
/// environment, or a settings list's entries.
#[derive(Debug)]
pub struct EnvironmentMap {
    entries: Vec<(EnvironmentVariable, Vec<u8>)>,
}

impl View for EnvironmentMap {
    type V = Map<Seq<u8>, Seq<u8>>;

    closed spec fn view(&self) -> Map<Seq<u8>, Seq<u8>> {
        map_of(self.entries.deep_view())
    }
}

impl EnvironmentMap {
    /// The empty mapping.
    pub fn new() -> (r: Self)
        ensures
            r@ == Map::<Seq<u8>, Seq<u8>>::empty(),
    {
        let entries: Vec<(EnvironmentVariable, Vec<u8>)> = Vec::new();
        proof {
            assert(entries.deep_view() =~~= Seq::<(Seq<u8>, Seq<u8>)>::empty());
        }
        EnvironmentMap { entries }
    }

    /// Inserts `value` under `name`, overwriting any earlier entry for the
    /// same name.
    pub fn insert(&mut self, name: EnvironmentVariable, value: Vec<u8>)
        ensures
            final(self)@ == old(self)@.insert(name@, value@),
    {
        let ghost before = self.entries.deep_view();
        let ghost entry = (name@, value@);
        self.entries.push((name, value));
        proof {
            assert(self.entries.deep_view() =~~= before.push(entry));
            assert(self.entries.deep_view().drop_last() =~~= before);
        }
    }

    /// The value under `name`, if any insertion has named it.
    pub fn get(&self, name: &EnvironmentVariable) -> (r: Option<&Vec<u8>>)
        ensures
            match r {
                Some(value) => self@.dom().contains(name@) && value@ == self@[name@],
                None => !self@.dom().contains(name@),
            },
    {
        proof {
            lemma_map_of_last_wins(self.entries.deep_view(), name@);
        }
        let mut i: usize = self.entries.len();
        while i > 0
            invariant
                i <= self.entries@.len(),
                forall|j: int| i <= j < self.entries@.len() ==> (#[trigger] self.entries.deep_view()[j]).0 != name@,
            decreases i,
        {
            i = i - 1;
            if bytes_equal(self.entries[i].0.asRawBytes().as_slice(), name.asRawBytes().as_slice()) {
                proof {
                    lemma_map_of_last_wins(self.entries.deep_view(), name@);
                    assert((self.entries.deep_view()[i as int]).0 == name@);
                }
                return Some(&self.entries[i].1);
            }
            proof {
                assert((self.entries.deep_view()[i as int]).0 != name@);
            }
        }
        None
    }

    /// Every entry as a (name, value) pair, later entries overriding earlier
    /// ones for the same name, for handing to the operating system.
    pub fn intoEntries(self) -> (r: Vec<(EnvironmentVariable, Vec<u8>)>)
        ensures
            map_of(r.deep_view()) == self@,
    {
        self.entries
    }

    /// Inserts every entry of `self` into `base`, overwriting on a shared
    /// name: the overlay prefers `self`.
    pub fn overlayOnto(&self, base: EnvironmentMap) -> (r: EnvironmentMap)
        ensures
            r@ == base@.union_prefer_right(self@),
    {
        let ghost baseMap = base@;
        let ghost additions = self.entries.deep_view();
        let mut result = base;
        let mut k: usize = 0;
        proof {
            assert(additions.take(0) =~~= Seq::<(Seq<u8>, Seq<u8>)>::empty());
            assert(result@ =~= baseMap.union_prefer_right(map_of(additions.take(0))));
        }
        while k < self.entries.len()
            invariant
                k <= self.entries@.len(),
                additions == self.entries.deep_view(),
                result@ == baseMap.union_prefer_right(map_of(additions.take(k as int))),
            decreases self.entries@.len() - k,
        {
            let name = self.entries[k].0.clone();
            let value = slice_to_vec(self.entries[k].1.as_slice());
            result.insert(name, value);
            proof {
                assert(additions.take(k + 1).drop_last() =~~= additions.take(k as int));
                assert(additions.take(k + 1).last() == additions[k as int]);
                assert(name@ == additions[k as int].0);
                assert(value@ =~= additions[k as int].1);
                assert(map_of(additions.take(k + 1)) == map_of(additions.take(k as int)).insert(
                    name@,
                    value@,
                ));
                assert(result@ =~= baseMap.union_prefer_right(map_of(additions.take(k + 1))));
            }
            k = k + 1;
        }
        proof {
            assert(additions.take(additions.len() as int) =~~= additions);
        }
        result
    }
}

} // verus!

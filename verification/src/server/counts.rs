//! How often each path was asked for.
use crate::bytes::{bytes_eq, copy};
use vstd::prelude::*;

verus! {

/// How often each path was asked for. No path stands twice.
#[derive(Debug)]
pub struct RequestCounts {
    entries: Vec<(Vec<u8>, u64)>,
}

/// How often a path was asked for.
pub open spec fn count_of(counts: Map<Seq<u8>, u64>, path: Seq<u8>) -> u64 {
    if counts.contains_key(path) {
        counts[path]
    } else {
        0
    }
}

/// The counts after a path was asked for once more.
pub open spec fn counted(counts: Map<Seq<u8>, u64>, path: Seq<u8>) -> Map<Seq<u8>, u64> {
    counts.insert(path, (count_of(counts, path) + 1) as u64)
}

impl View for RequestCounts {
    type V = Map<Seq<u8>, u64>;

    closed spec fn view(&self) -> Map<Seq<u8>, u64> {
        Map::new(
            |path: Seq<u8>| self.stands(path),
            |path: Seq<u8>|
                self.entries()[choose|i: int|
                    0 <= i < self.entries().len() && (#[trigger] self.entries()[i]).0 == path].1,
        )
    }
}

impl RequestCounts {
    /// The paths and their counts.
    spec fn entries(&self) -> Seq<(Seq<u8>, u64)> {
        self.entries@.map_values(|e: (Vec<u8>, u64)| (e.0@, e.1))
    }

    spec fn stands(&self, path: Seq<u8>) -> bool {
        exists|i: int| 0 <= i < self.entries().len() && (#[trigger] self.entries()[i]).0 == path
    }

    /// No path stands twice.
    pub closed spec fn wf(&self) -> bool {
        forall|i: int, j: int|
            0 <= i < j < self.entries().len() ==> (#[trigger] self.entries()[i]).0 != (
            #[trigger] self.entries()[j]).0
    }

    pub fn new() -> (counts: Self)
        ensures
            counts.wf(),
            counts@ == Map::<Seq<u8>, u64>::empty(),
    {
        let counts = RequestCounts { entries: Vec::new() };
        assert(counts@ =~= Map::<Seq<u8>, u64>::empty());
        counts
    }

    proof fn lemma_entry(&self, i: int)
        requires
            self.wf(),
            0 <= i < self.entries().len(),
        ensures
            self@.contains_key(self.entries()[i].0),
            self@[self.entries()[i].0] == self.entries()[i].1,
    {
        let path = self.entries()[i].0;
        assert(self.stands(path));
        let j = choose|j: int|
            0 <= j < self.entries().len() && (#[trigger] self.entries()[j]).0 == path;
        if j < i {
            assert(self.entries()[j].0 != self.entries()[i].0);
        } else if i < j {
            assert(self.entries()[i].0 != self.entries()[j].0);
        }
    }

    /// Where a path stands.
    fn find(&self, path: &[u8]) -> (at: Option<usize>)
        ensures
            match at {
                Some(i) => i < self.entries().len() && self.entries()[i as int].0 == path@,
                None => !self.stands(path@),
            },
    {
        let mut i: usize = 0;
        while i < self.entries.len()
            invariant
                i <= self.entries@.len(),
                forall|j: int| 0 <= j < i ==> (#[trigger] self.entries()[j]).0 != path@,
            decreases self.entries@.len() - i,
        {
            assert(self.entries()[i as int].0 == self.entries@[i as int].0@);
            if bytes_eq(self.entries[i].0.as_slice(), path) {
                return Some(i);
            }
            i += 1;
        }
        None
    }

    /// How often a path was asked for.
    pub fn get(&self, path: &[u8]) -> (count: u64)
        requires
            self.wf(),
        ensures
            count == count_of(self@, path@),
    {
        match self.find(path) {
            Some(i) => {
                proof {
                    self.lemma_entry(i as int);
                }
                self.entries[i].1
            },
            None => 0,
        }
    }

    /// Counts that a path was asked for.
    pub fn increment(&mut self, path: &[u8])
        requires
            old(self).wf(),
            count_of(old(self)@, path@) < u64::MAX,
        ensures
            final(self).wf(),
            final(self)@ == counted(old(self)@, path@),
    {
        let ghost before = *self;
        match self.find(path) {
            Some(i) => {
                let n: u64 = self.entries[i].1;
                proof {
                    before.lemma_entry(i as int);
                }
                self.entries.set(i, (copy(path), n + 1));
                proof {
                    assert(self.entries() =~= before.entries().update(
                        i as int,
                        (path@, (n + 1) as u64),
                    ));
                    self.lemma_updated(before, path@, i as int);
                }
            },
            None => {
                self.entries.push((copy(path), 1));
                proof {
                    assert(self.entries() =~= before.entries().push((path@, 1)));
                    let i = before.entries().len() as int;
                    self.lemma_updated(before, path@, i);
                }
            },
        }
    }

    proof fn lemma_updated(&self, before: Self, path: Seq<u8>, i: int)
        requires
            before.wf(),
            0 <= i < self.entries().len(),
            self.entries()[i].0 == path,
            self.entries().len() >= before.entries().len(),
            self.entries().len() <= before.entries().len() + 1,
            self.entries().len() > before.entries().len() ==> i == before.entries().len(),
            forall|j: int|
                0 <= j < before.entries().len() && j != i ==> self.entries()[j]
                    == before.entries()[j],
            i < before.entries().len() ==> before.entries()[i].0 == path,
            i == before.entries().len() ==> !before.stands(path),
        ensures
            self.wf(),
            self@ == before@.insert(path, self.entries()[i].1),
    {
        assert forall|j: int| 0 <= j < before.entries().len() && j != i implies (
        #[trigger] before.entries()[j]).0 != path by {
            if i < before.entries().len() {
                if j < i {
                    assert(before.entries()[j].0 != before.entries()[i].0);
                } else {
                    assert(before.entries()[i].0 != before.entries()[j].0);
                }
            }
        }
        assert forall|a: int, b: int| 0 <= a < b < self.entries().len() implies (
        #[trigger] self.entries()[a]).0 != (#[trigger] self.entries()[b]).0 by {
            if a != i && b != i {
                assert(self.entries()[a] == before.entries()[a]);
                assert(self.entries()[b] == before.entries()[b]);
            } else if a != i {
                assert(before.entries()[a].0 != path);
            } else {
                assert(before.entries()[b].0 != path);
            }
        }
        self.lemma_entry(i);
        let after = before@.insert(path, self.entries()[i].1);
        assert forall|other: Seq<u8>| other != path implies #[trigger] self@.contains_key(other)
            == before@.contains_key(other) && (before@.contains_key(other) ==> self@[other]
            == before@[other]) by {
            if before.stands(other) {
                let k = choose|k: int|
                    0 <= k < before.entries().len() && (#[trigger] before.entries()[k]).0 == other;
                before.lemma_entry(k);
                assert(self.entries()[k] == before.entries()[k]);
                self.lemma_entry(k);
            } else if self.stands(other) {
                let k = choose|k: int|
                    0 <= k < self.entries().len() && (#[trigger] self.entries()[k]).0 == other;
                assert(k != i);
                assert(before.entries()[k] == self.entries()[k]);
            }
        }
        assert(self@ =~= after);
    }
}

/// The counts of other paths do not change.
pub proof fn law_counted(counts: Map<Seq<u8>, u64>, path: Seq<u8>, other: Seq<u8>)
    requires
        count_of(counts, path) < u64::MAX,
    ensures
        count_of(counted(counts, path), path) == count_of(counts, path) + 1,
        other != path ==> count_of(counted(counts, path), other) == count_of(counts, other),
{
}

/// Counting starts with nothing counted; a call counts one more for its path and leaves the rest,
/// and what is asked for is what was counted.
pub proof fn law_count_calls(
    fresh: RequestCounts,
    counts: &mut RequestCounts,
    path: &[u8],
    other: RequestCounts,
    asked: &[u8],
    count: u64,
    elsewhere: Seq<u8>,
)
    requires
        call_ensures(RequestCounts::new, (), fresh),
        old(counts).wf(),
        count_of(old(counts)@, path@) < u64::MAX,
        call_ensures(RequestCounts::increment, (counts, path), ()),
        other.wf(),
        call_ensures(RequestCounts::get, (&other, asked), count),
        elsewhere != path@,
    ensures
        fresh.wf() && fresh@.dom() == Set::<Seq<u8>>::empty(),
        final(counts).wf(),
        final(counts)@.contains_key(path@),
        old(counts)@.contains_key(path@) ==> final(counts)@[path@] == old(counts)@[path@] + 1,
        !old(counts)@.contains_key(path@) ==> final(counts)@[path@] == 1,
        final(counts)@.contains_key(elsewhere) <==> old(counts)@.contains_key(elsewhere),
        old(counts)@.contains_key(elsewhere) ==> final(counts)@[elsewhere] == old(
            counts,
        )@[elsewhere],
        other@.contains_key(asked@) ==> count == other@[asked@],
        !other@.contains_key(asked@) ==> count == 0,
{
}

}

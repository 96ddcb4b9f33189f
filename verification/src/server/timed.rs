//! Things that are to be done once their time has come.
use vstd::prelude::*;

verus! {

/// Things that are to be done, each with the moment from which on it is due.
#[derive(Debug)]
pub struct TimedList {
    entries: Vec<(u64, u64)>,
}

/// The things in a list that are due at time `now`.
pub open spec fn due_items(entries: Seq<(u64, u64)>, now: u64) -> Seq<u64>
    decreases entries.len(),
{
    if entries.len() == 0 {
        Seq::empty()
    } else {
        let before = due_items(entries.drop_last(), now);
        if entries.last().0 <= now {
            before.push(entries.last().1)
        } else {
            before
        }
    }
}

/// The entries of a list that are not over at time `now`: those of later, and those of this very
/// moment where `keep_present`.
pub open spec fn kept_entries(
    entries: Seq<(u64, u64)>,
    now: u64,
    keep_present: bool,
) -> Seq<(u64, u64)>
    decreases entries.len(),
{
    if entries.len() == 0 {
        Seq::empty()
    } else {
        let before = kept_entries(entries.drop_last(), now, keep_present);
        if entries.last().0 > now || (keep_present && entries.last().0 == now) {
            before.push(entries.last())
        } else {
            before
        }
    }
}

impl View for TimedList {
    type V = Seq<(u64, u64)>;

    closed spec fn view(&self) -> Seq<(u64, u64)> {
        self.entries@
    }
}

impl TimedList {
    pub fn new() -> (list: Self)
        ensures
            list@ == Seq::<(u64, u64)>::empty(),
    {
        TimedList { entries: Vec::new() }
    }

    pub fn is_empty(&self) -> (empty: bool)
        ensures
            empty == (self@.len() == 0),
    {
        self.entries.len() == 0
    }

    /// Adds a thing that is due from `at` on.
    pub fn schedule(&mut self, at: u64, item: u64)
        ensures
            final(self)@ == old(self)@.push((at, item)),
    {
        self.entries.push((at, item));
    }

    /// The things that are due; the list forgets those that are over.
    pub fn take_due(&mut self, now: u64, keep_present: bool) -> (due: Vec<u64>)
        ensures
            due@ == due_items(old(self)@, now),
            final(self)@ == kept_entries(old(self)@, now, keep_present),
    {
        let mut due: Vec<u64> = Vec::new();
        let mut kept: Vec<(u64, u64)> = Vec::new();
        let ghost all = self.entries@;
        let mut i: usize = 0;
        assert(all.take(0) =~= Seq::<(u64, u64)>::empty());
        while i < self.entries.len()
            invariant
                i <= self.entries@.len(),
                all == self.entries@,
                due@ == due_items(all.take(i as int), now),
                kept@ == kept_entries(all.take(i as int), now, keep_present),
            decreases self.entries@.len() - i,
        {
            let entry = self.entries[i];
            proof {
                assert(all.take(i + 1).drop_last() =~= all.take(i as int));
                assert(all.take(i + 1).last() == entry);
            }
            if entry.0 <= now {
                due.push(entry.1);
            }
            if entry.0 > now || (keep_present && entry.0 == now) {
                kept.push(entry);
            }
            i += 1;
        }
        assert(all.take(i as int) =~= all);
        self.entries = kept;
        due
    }
}

proof fn lemma_none_due(entries: Seq<(u64, u64)>, now: u64)
    requires
        forall|i: int| 0 <= i < entries.len() ==> (#[trigger] entries[i]).0 > now,
    ensures
        due_items(entries, now) == Seq::<u64>::empty(),
    decreases entries.len(),
{
    if entries.len() > 0 {
        assert(entries[entries.len() - 1].0 > now);
        let shorter = entries.drop_last();
        assert forall|i: int| 0 <= i < shorter.len() implies (#[trigger] shorter[i]).0 > now by {
            assert(shorter[i] == entries[i]);
        }
        lemma_none_due(shorter, now);
    }
}

proof fn lemma_kept_later(entries: Seq<(u64, u64)>, now: u64)
    ensures
        forall|i: int|
            0 <= i < kept_entries(entries, now, false).len() ==> (#[trigger] kept_entries(
                entries,
                now,
                false,
            )[i]).0 > now,
    decreases entries.len(),
{
    if entries.len() > 0 {
        lemma_kept_later(entries.drop_last(), now);
        let before = kept_entries(entries.drop_last(), now, false);
        let kept = kept_entries(entries, now, false);
        assert forall|i: int| 0 <= i < kept.len() implies (#[trigger] kept[i]).0 > now by {
            if i < before.len() {
                assert(kept[i] == before[i]);
            }
        }
    }
}

/// Where the present moment is not kept, nothing is done twice: what is due is over once it was
/// taken.
pub proof fn law_done_once(entries: Seq<(u64, u64)>, now: u64)
    ensures
        due_items(kept_entries(entries, now, false), now) == Seq::<u64>::empty(),
{
    lemma_kept_later(entries, now);
    lemma_none_due(kept_entries(entries, now, false), now);
}

/// Every entry is due or kept, so that nothing is forgotten before its time.
pub proof fn law_nothing_forgotten(entries: Seq<(u64, u64)>, now: u64, keep_present: bool)
    ensures
        due_items(entries, now).len() + kept_entries(entries, now, keep_present).len()
            >= entries.len(),
    decreases entries.len(),
{
    if entries.len() > 0 {
        law_nothing_forgotten(entries.drop_last(), now, keep_present);
    }
}

/// What is due is everything whose moment has come, in the order in which it was scheduled; what
/// is kept is everything of later, and of this very moment where that is wanted.
pub proof fn law_due(entries: Seq<(u64, u64)>, now: u64, keep_present: bool)
    ensures
        due_items(entries, now) == entries.filter(|e: (u64, u64)| e.0 <= now).map_values(
            |e: (u64, u64)| e.1,
        ),
        keep_present ==> kept_entries(entries, now, keep_present) == entries.filter(
            |e: (u64, u64)| e.0 >= now,
        ),
        !keep_present ==> kept_entries(entries, now, keep_present) == entries.filter(
            |e: (u64, u64)| e.0 > now,
        ),
    decreases entries.len(),
{
    reveal(Seq::filter);
    if entries.len() > 0 {
        law_due(entries.drop_last(), now, keep_present);
    }
    assert(due_items(entries, now) =~= entries.filter(|e: (u64, u64)| e.0 <= now).map_values(
        |e: (u64, u64)| e.1,
    ));
}

/// A list starts empty, a call adds one thing behind the others, and what is taken is what is due.
pub proof fn law_timed_calls(
    fresh: TimedList,
    list: &mut TimedList,
    at: u64,
    item: u64,
    other: &mut TimedList,
    now: u64,
    keep_present: bool,
    due: Vec<u64>,
    asked: TimedList,
    empty: bool,
)
    requires
        call_ensures(TimedList::new, (), fresh),
        call_ensures(TimedList::schedule, (list, at, item), ()),
        call_ensures(TimedList::take_due, (other, now, keep_present), due),
        call_ensures(TimedList::is_empty, (&asked,), empty),
    ensures
        fresh@.len() == 0,
        final(list)@ == old(list)@ + seq![(at, item)],
        due@ == due_items(old(other)@, now),
        final(other)@ == kept_entries(old(other)@, now, keep_present),
        empty <==> asked@.len() == 0,
{
}

}

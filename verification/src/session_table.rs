//! The sessions that a bridge lists: their numbers, by their identifiers.
use crate::session::Session;
use crate::text::same_text;
use std::collections::HashMap;
use vstd::prelude::*;

verus! {

broadcast use vstd::std_specs::hash::group_hash_axioms;

/// The sessions that are listed.
#[derive(Debug)]
pub struct SessionTable {
    entries: Vec<(String, u64)>,
}

/// An entry is under an identifier.
pub open spec fn listed(entries: Seq<(String, u64)>, id: Seq<char>, i: int) -> bool {
    0 <= i < entries.len() && entries[i].0@ == id
}

/// No identifier occurs twice.
pub open spec fn distinct_ids(entries: Seq<(String, u64)>) -> bool {
    forall|i: int, j: int|
        0 <= i < j < entries.len() ==> #[trigger] entries[i].0@ != #[trigger] entries[j].0@
}

/// The sessions in a list, by their identifiers.
pub open spec fn by_id(entries: Seq<(String, u64)>) -> Map<Seq<char>, u64> {
    Map::new(
        |id: Seq<char>| exists|i: int| listed(entries, id, i),
        |id: Seq<char>| entries[choose|i: int| listed(entries, id, i)].1,
    )
}

/// The session with a number runs.
pub open spec fn runs(states: Map<u64, Session>, number: u64) -> bool {
    states.dom().contains(number) && states[number].running()
}

/// Those of the listed sessions that run, or those that do not.
pub open spec fn with_state(
    listed: Map<Seq<char>, u64>,
    states: Map<u64, Session>,
    running: bool,
) -> Map<Seq<char>, u64> {
    listed.restrict(
        Set::new(
            |id: Seq<char>| listed.dom().contains(id) && runs(states, listed[id]) == running,
        ),
    )
}

impl SessionTable {
    /// The sessions, by their identifiers.
    pub closed spec fn map(self) -> Map<Seq<char>, u64> {
        by_id(self.entries@)
    }

    /// There is one session for an identifier.
    pub closed spec fn wf(self) -> bool {
        distinct_ids(self.entries@)
    }

    /// No sessions.
    pub fn new() -> (r: SessionTable)
        ensures
            r.wf(),
            r.map() == Map::<Seq<char>, u64>::empty(),
    {
        let table = SessionTable { entries: Vec::new() };
        assert(table.map() =~= Map::<Seq<char>, u64>::empty());
        table
    }

    fn position(&self, id: &str) -> (r: Option<usize>)
        ensures
            match r {
                Some(i) => listed(self.entries@, id@, i as int),
                None => forall|i: int| !listed(self.entries@, id@, i),
            },
    {
        let mut i: usize = 0;
        while i < self.entries.len()
            invariant
                i <= self.entries.len(),
                forall|j: int| 0 <= j < i ==> !listed(self.entries@, id@, j),
            decreases self.entries.len() - i,
        {
            if same_text(self.entries[i].0.as_str(), id) {
                return Some(i);
            }
            i = i + 1;
        }
        None
    }

    /// Whether there is a session under an identifier.
    pub fn contains(&self, id: &str) -> (r: bool)
        ensures
            r == self.map().dom().contains(id@),
    {
        self.position(id).is_some()
    }

    /// The session under an identifier.
    pub fn get(&self, id: &str) -> (r: Option<u64>)
        requires
            self.wf(),
        ensures
            match r {
                Some(number) => self.map().dom().contains(id@) && self.map()[id@] == number,
                None => !self.map().dom().contains(id@),
            },
    {
        match self.position(id) {
            Some(i) => {
                proof {
                    lemma_by_id(self.entries@, i as int);
                }
                Some(self.entries[i].1)
            },
            None => None,
        }
    }

    /// Takes out the session under an identifier.
    pub fn remove(&mut self, id: &str) -> (r: Option<u64>)
        requires
            old(self).wf(),
        ensures
            final(self).wf(),
            final(self).map() == old(self).map().remove(id@),
            match r {
                Some(number) => old(self).map().dom().contains(id@) && old(self).map()[id@]
                    == number,
                None => !old(self).map().dom().contains(id@),
            },
    {
        match self.position(id) {
            Some(i) => {
                let entry = self.entries.remove(i);
                proof {
                    lemma_by_id(old(self).entries@, i as int);
                    lemma_removed(old(self).entries@, i as int);
                }
                Some(entry.1)
            },
            None => {
                assert(self.map() =~= old(self).map().remove(id@));
                None
            },
        }
    }

    /// Puts a session under an identifier, and hands back the one that was there.
    pub fn insert(&mut self, id: String, number: u64) -> (r: Option<u64>)
        requires
            old(self).wf(),
        ensures
            final(self).wf(),
            final(self).map() == old(self).map().insert(id@, number),
            match r {
                Some(number) => old(self).map().dom().contains(id@) && old(self).map()[id@]
                    == number,
                None => !old(self).map().dom().contains(id@),
            },
    {
        let replaced = self.remove(id.as_str());
        let ghost before = self.entries@;
        assert(!by_id(before).dom().contains(id@));
        self.entries.push((id, number));
        proof {
            lemma_pushed(before, id, number);
            assert(self.map() =~= old(self).map().insert(id@, number));
        }
        replaced
    }

    /// Whether a number is under some identifier.
    pub fn lists(&self, number: u64) -> (r: bool)
        requires
            self.wf(),
        ensures
            r <==> self.map().values().contains(number),
    {
        let mut i: usize = 0;
        while i < self.entries.len()
            invariant
                i <= self.entries.len(),
                self.wf(),
                forall|j: int| 0 <= j < i ==> (#[trigger] self.entries@[j]).1 != number,
            decreases self.entries.len() - i,
        {
            if self.entries[i].1 == number {
                proof {
                    lemma_by_id(self.entries@, i as int);
                    let id = self.entries@[i as int].0@;
                    assert(self.map().contains_key(id) && self.map()[id] == number);
                }
                return true;
            }
            i = i + 1;
        }
        proof {
            if self.map().values().contains(number) {
                let id = choose|id: Seq<char>|
                    #[trigger] self.map().dom().contains(id) && self.map()[id] == number;
                let j = choose|j: int| listed(self.entries@, id, j);
                lemma_by_id(self.entries@, j);
                assert(self.entries@[j].1 == number);
            }
        }
        false
    }

    /// Takes out the sessions that do not run any more.
    pub fn take_stopped(&mut self, states: &HashMap<u64, Session>) -> (r: Vec<(String, u64)>)
        requires
            old(self).wf(),
        ensures
            final(self).wf(),
            distinct_ids(r@),
            final(self).map() == with_state(old(self).map(), states@, true),
            by_id(r@) == with_state(old(self).map(), states@, false),
    {
        let mut entries: Vec<(String, u64)> = Vec::new();
        std::mem::swap(&mut entries, &mut self.entries);
        let ghost all = entries@;
        let mut kept: Vec<(String, u64)> = Vec::new();
        let mut stopped: Vec<(String, u64)> = Vec::new();
        assert(by_id(all.take(0)) =~= Map::<Seq<char>, u64>::empty());
        assert(by_id(kept@) =~= with_state(by_id(all.take(0)), states@, true));
        assert(by_id(stopped@) =~= with_state(by_id(all.take(0)), states@, false));
        for entry in it: entries
            invariant
                it.seq() == all,
                distinct_ids(all),
                distinct_ids(kept@),
                distinct_ids(stopped@),
                by_id(kept@) == with_state(by_id(all.take(it.index())), states@, true),
                by_id(stopped@) == with_state(by_id(all.take(it.index())), states@, false),
        {
            let ghost n = it.index();
            let ghost old_kept = kept@;
            let ghost old_stopped = stopped@;
            assert(entry == all[n]);
            proof {
                let before = all.take(n);
                assert(all.take(n + 1) =~= before.push(entry));
                assert forall|i: int| !listed(before, entry.0@, i) by {
                    if listed(before, entry.0@, i) {
                        assert(all[i].0@ != all[n].0@);
                    }
                }
                assert(distinct_ids(before)) by {
                    assert forall|i: int, j: int| 0 <= i < j < before.len() implies #[trigger] before[i].0@
                        != #[trigger] before[j].0@ by {
                        assert(all[i].0@ != all[j].0@);
                    }
                }
                lemma_pushed(before, entry.0, entry.1);
                assert(!by_id(kept@).dom().contains(entry.0@));
                assert(!by_id(stopped@).dom().contains(entry.0@));
                lemma_pushed(kept@, entry.0, entry.1);
                lemma_pushed(stopped@, entry.0, entry.1);
            }
            let running: bool = match states.get(&entry.1) {
                Some(session) => session.is_running(),
                None => false,
            };
            if running {
                kept.push(entry);
                assert(kept@ =~= old_kept.push(entry));
            } else {
                stopped.push(entry);
                assert(stopped@ =~= old_stopped.push(entry));
            }
            assert(by_id(kept@) =~= with_state(by_id(all.take(n + 1)), states@, true));
            assert(by_id(stopped@) =~= with_state(by_id(all.take(n + 1)), states@, false));
        }
        assert(all.take(all.len() as int) =~= all);
        self.entries = kept;
        stopped
    }

    /// Takes out all sessions.
    pub fn take_all(&mut self) -> (r: Vec<(String, u64)>)
        requires
            old(self).wf(),
        ensures
            final(self).wf(),
            final(self).map() == Map::<Seq<char>, u64>::empty(),
            distinct_ids(r@),
            by_id(r@) == old(self).map(),
    {
        let mut entries: Vec<(String, u64)> = Vec::new();
        std::mem::swap(&mut entries, &mut self.entries);
        assert(self.map() =~= Map::<Seq<char>, u64>::empty());
        entries
    }
}

/// An entry of a list is the one under its identifier.
pub proof fn lemma_by_id(entries: Seq<(String, u64)>, i: int)
    requires
        distinct_ids(entries),
        0 <= i < entries.len(),
    ensures
        by_id(entries).dom().contains(entries[i].0@),
        by_id(entries)[entries[i].0@] == entries[i].1,
{
    let id = entries[i].0@;
    assert(listed(entries, id, i));
    let j = choose|j: int| listed(entries, id, j);
    if i < j {
        assert(entries[i].0@ != entries[j].0@);
    } else if j < i {
        assert(entries[j].0@ != entries[i].0@);
    }
}

proof fn lemma_removed(entries: Seq<(String, u64)>, i: int)
    requires
        distinct_ids(entries),
        0 <= i < entries.len(),
    ensures
        distinct_ids(entries.remove(i)),
        by_id(entries.remove(i)) == by_id(entries).remove(entries[i].0@),
{
    let rest = entries.remove(i);
    let id = entries[i].0@;
    assert forall|a: int, b: int| 0 <= a < b < rest.len() implies #[trigger] rest[a].0@
        != #[trigger] rest[b].0@ by {
        let a2 = if a < i { a } else { a + 1 };
        let b2 = if b < i { b } else { b + 1 };
        assert(rest[a] == entries[a2] && rest[b] == entries[b2]);
        assert(entries[a2].0@ != entries[b2].0@);
    }
    assert forall|other: Seq<char>|
        by_id(rest).dom().contains(other) <==> by_id(entries).dom().contains(other) && other
            != id by {
        if by_id(rest).dom().contains(other) {
            let k = choose|k: int| listed(rest, other, k);
            let k2 = if k < i { k } else { k + 1 };
            assert(rest[k] == entries[k2]);
            assert(listed(entries, other, k2));
            if k2 < i {
                assert(entries[k2].0@ != entries[i].0@);
            } else {
                assert(entries[i].0@ != entries[k2].0@);
            }
        }
        if by_id(entries).dom().contains(other) && other != id {
            let k = choose|k: int| listed(entries, other, k);
            let k2 = if k < i { k } else { k - 1 };
            assert(rest[k2] == entries[k]);
            assert(listed(rest, other, k2));
        }
    }
    assert forall|other: Seq<char>| #[trigger] by_id(rest).dom().contains(other) implies by_id(
        rest,
    )[other] == by_id(entries)[other] by {
        let k = choose|k: int| listed(rest, other, k);
        let k2 = if k < i { k } else { k + 1 };
        assert(rest[k] == entries[k2]);
        lemma_by_id(rest, k);
        lemma_by_id(entries, k2);
    }
    assert(by_id(rest) =~= by_id(entries).remove(id));
}

proof fn lemma_pushed(entries: Seq<(String, u64)>, id: String, number: u64)
    requires
        distinct_ids(entries),
        !by_id(entries).dom().contains(id@),
    ensures
        distinct_ids(entries.push((id, number))),
        by_id(entries.push((id, number))) == by_id(entries).insert(id@, number),
{
    let more = entries.push((id, number));
    let n = entries.len() as int;
    assert forall|a: int, b: int| 0 <= a < b < more.len() implies #[trigger] more[a].0@
        != #[trigger] more[b].0@ by {
        if b == n {
            assert(!listed(entries, id@, a));
        } else {
            assert(entries[a].0@ != entries[b].0@);
        }
    }
    lemma_by_id(more, n);
    assert forall|other: Seq<char>|
        by_id(more).dom().contains(other) <==> by_id(entries).dom().contains(other) || other
            == id@ by {
        if by_id(entries).dom().contains(other) {
            let k = choose|k: int| listed(entries, other, k);
            assert(listed(more, other, k));
        }
        if by_id(more).dom().contains(other) && other != id@ {
            let k = choose|k: int| listed(more, other, k);
            assert(listed(entries, other, k));
        }
    }
    assert forall|other: Seq<char>| #[trigger] by_id(entries).dom().contains(other) implies by_id(
        more,
    )[other] == by_id(entries)[other] by {
        let k = choose|k: int| listed(entries, other, k);
        lemma_by_id(entries, k);
        lemma_by_id(more, k);
    }
    assert(by_id(more) =~= by_id(entries).insert(id@, number));
}

/// An identifier is listed if and only if an entry has it.
pub proof fn lemma_listed_by_entries(entries: Seq<(String, u64)>, id: Seq<char>)
    ensures
        by_id(entries).dom().contains(id) <==> exists|i: int|
            0 <= i < entries.len() && (#[trigger] entries[i]).0@ == id,
{
    if exists|i: int| 0 <= i < entries.len() && (#[trigger] entries[i]).0@ == id {
        let i = choose|i: int| 0 <= i < entries.len() && (#[trigger] entries[i]).0@ == id;
        assert(listed(entries, id, i));
    }
    if by_id(entries).dom().contains(id) {
        let i = choose|i: int| listed(entries, id, i);
        assert(entries[i].0@ == id);
    }
}

/// The sessions that run are those whose state says so, and each is under the number that it had.
pub proof fn lemma_sorted_by_state(
    listed: Map<Seq<char>, u64>,
    states: Map<u64, Session>,
    id: Seq<char>,
)
    ensures
        ({
            let up = listed.dom().contains(id) && states.dom().contains(listed[id])
                && states[listed[id]].running();
            &&& with_state(listed, states, true).dom().contains(id) <==> up
            &&& with_state(listed, states, false).dom().contains(id) <==> listed.dom().contains(id)
                && !up
            &&& up ==> with_state(listed, states, true)[id] == listed[id]
            &&& listed.dom().contains(id) && !up ==> with_state(listed, states, false)[id]
                == listed[id]
        }),
{
}

} // verus!

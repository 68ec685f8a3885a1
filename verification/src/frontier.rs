//! The crawl frontier: addresses that wait for a visit, oldest first, and
//! addresses that were handed out.

use std::collections::VecDeque;
use vstd::prelude::*;
use crate::text::{same_text, texts, holds};

verus! {

/// Whether the frontier with these two lists has met `url` before.
pub open spec fn is_known(pending: Seq<Seq<char>>, visited: Seq<Seq<char>>, url: Seq<char>) -> bool {
    pending.contains(url) || visited.contains(url)
}

/// The pending list after `url` is offered: unchanged where `url` is known,
/// else with `url` at its end.
pub open spec fn enqueued(pending: Seq<Seq<char>>, visited: Seq<Seq<char>>, url: Seq<char>) -> Seq<
    Seq<char>,
> {
    if is_known(pending, visited, url) {
        pending
    } else {
        pending.push(url)
    }
}

/// The frontier's discipline: no address waits twice, none was handed out
/// twice, and none that was handed out waits again.
pub open spec fn disciplined(pending: Seq<Seq<char>>, visited: Seq<Seq<char>>) -> bool {
    &&& pending.no_duplicates()
    &&& visited.no_duplicates()
    &&& forall|url: Seq<char>| !(pending.contains(url) && visited.contains(url))
}

/// Offering an address keeps the discipline, and the address is known
/// afterwards.
pub proof fn enqueue_keeps_discipline(pending: Seq<Seq<char>>, visited: Seq<Seq<char>>, url: Seq<char>)
    requires
        disciplined(pending, visited),
    ensures
        disciplined(enqueued(pending, visited, url), visited),
        is_known(enqueued(pending, visited, url), visited, url),
{
    let after = enqueued(pending, visited, url);
    if !is_known(pending, visited, url) {
        assert(after[pending.len() as int] == url);
        assert forall|i: int, j: int| 0 <= i < after.len() && 0 <= j < after.len() && i != j implies after[i]
            != after[j] by {
            if i < pending.len() && j < pending.len() {
                assert(after[i] == pending[i] && after[j] == pending[j]);
            } else if i < pending.len() {
                assert(pending.contains(after[i]));
            } else {
                assert(pending.contains(after[j]));
            }
        }
        assert forall|other: Seq<char>| !(after.contains(other) && visited.contains(other)) by {
            if after.contains(other) && visited.contains(other) {
                let i = choose|i: int| 0 <= i < after.len() && after[i] == other;
                if i < pending.len() {
                    assert(pending[i] == other);
                    assert(pending.contains(other));
                }
            }
        }
    }
}

/// Offering the same address twice is the same as offering it once: it then
/// waits at exactly one place, unless it was handed out before, in which case
/// it does not wait at all.
pub proof fn enqueue_is_idempotent(pending: Seq<Seq<char>>, visited: Seq<Seq<char>>, url: Seq<char>)
    requires
        disciplined(pending, visited),
    ensures
        enqueued(enqueued(pending, visited, url), visited, url) == enqueued(pending, visited, url),
        enqueued(pending, visited, url).no_duplicates(),
        enqueued(pending, visited, url).contains(url) == !visited.contains(url),
{
    enqueue_keeps_discipline(pending, visited, url);
    let after = enqueued(pending, visited, url);
    if !is_known(pending, visited, url) {
        assert(after[pending.len() as int] == url);
    }
}

/// Handing out the oldest pending address keeps the discipline. The address
/// was never handed out before, and it is known ever after, so that offering
/// it again changes nothing: no address is handed out twice.
pub proof fn dequeue_keeps_discipline(pending: Seq<Seq<char>>, visited: Seq<Seq<char>>)
    requires
        disciplined(pending, visited),
        pending.len() > 0,
    ensures
        !visited.contains(pending[0]),
        disciplined(pending.drop_first(), visited.push(pending[0])),
        enqueued(pending.drop_first(), visited.push(pending[0]), pending[0]) == pending.drop_first(),
{
    let head = pending[0];
    let rest = pending.drop_first();
    let seen = visited.push(head);
    assert(pending.contains(head));
    assert(seen[visited.len() as int] == head);
    assert forall|i: int, j: int| 0 <= i < seen.len() && 0 <= j < seen.len() && i != j implies seen[i]
        != seen[j] by {
        if i < visited.len() && j < visited.len() {
        } else if i < visited.len() {
            assert(visited.contains(seen[i]));
        } else {
            assert(visited.contains(seen[j]));
        }
    }
    assert forall|other: Seq<char>| !(rest.contains(other) && seen.contains(other)) by {
        if rest.contains(other) && seen.contains(other) {
            let i = choose|i: int| 0 <= i < rest.len() && rest[i] == other;
            assert(pending[i + 1] == other);
            assert(pending.contains(other));
            let j = choose|j: int| 0 <= j < seen.len() && seen[j] == other;
            if j < visited.len() {
                assert(visited.contains(other));
            }
        }
    }
}

/// The queue of pending addresses and the record of those handed out.
pub struct Frontier {
    pending: VecDeque<String>,
    visited: Vec<String>,
}

impl Frontier {
    /// The addresses that wait for a visit, oldest first.
    pub closed spec fn pending(&self) -> Seq<Seq<char>> {
        texts(self.pending@)
    }

    /// The addresses that were handed out, in the order of their visits.
    pub closed spec fn visited(&self) -> Seq<Seq<char>> {
        texts(self.visited@)
    }

    /// Whether the frontier keeps the discipline. Every frontier that this
    /// module hands out does.
    pub open spec fn wf(&self) -> bool {
        disciplined(self.pending(), self.visited())
    }

    /// A frontier that holds nothing.
    pub fn new() -> (frontier: Frontier)
        ensures
            frontier.wf(),
            frontier.pending() == Seq::<Seq<char>>::empty(),
            frontier.visited() == Seq::<Seq<char>>::empty(),
    {
        let frontier = Frontier { pending: VecDeque::new(), visited: Vec::new() };
        assert(frontier.pending() =~= Seq::<Seq<char>>::empty());
        assert(frontier.visited() =~= Seq::<Seq<char>>::empty());
        frontier
    }

    /// Whether nothing waits for a visit.
    pub fn is_empty(&self) -> (empty: bool)
        ensures
            empty == (self.pending().len() == 0),
    {
        self.pending.len() == 0
    }

    /// How many addresses wait for a visit.
    pub fn len(&self) -> (count: usize)
        ensures
            count == self.pending().len(),
    {
        self.pending.len()
    }

    /// How many addresses were handed out.
    pub fn visits(&self) -> (count: usize)
        ensures
            count == self.visited().len(),
    {
        self.visited.len()
    }

    /// Whether `url` waits for a visit or was handed out.
    pub fn knows(&self, url: &str) -> (known: bool)
        ensures
            known == is_known(self.pending(), self.visited(), url@),
    {
        let mut i: usize = 0;
        while i < self.pending.len()
            invariant
                i <= self.pending@.len(),
                forall|j: int| 0 <= j < i ==> self.pending@[j]@ != url@,
            decreases self.pending@.len() - i,
        {
            if same_text(self.pending[i].as_str(), url) {
                assert(self.pending()[i as int] == url@);
                return true;
            }
            i += 1;
        }
        assert forall|j: int| 0 <= j < self.pending().len() implies self.pending()[j] != url@ by {
            assert(self.pending()[j] == self.pending@[j]@);
        }
        holds(&self.visited, url)
    }

    /// Appends `url` to the pending addresses unless it waits already or was
    /// handed out before. Says whether it was appended.
    pub fn enqueue_if_new(&mut self, url: String) -> (added: bool)
        requires
            old(self).wf(),
        ensures
            final(self).wf(),
            added == !is_known(old(self).pending(), old(self).visited(), url@),
            final(self).pending() == enqueued(old(self).pending(), old(self).visited(), url@),
            final(self).visited() == old(self).visited(),
    {
        proof {
            enqueue_keeps_discipline(self.pending(), self.visited(), url@);
        }
        if self.knows(url.as_str()) {
            false
        } else {
            let ghost before = self.pending();
            self.pending.push_back(url);
            assert(self.pending() =~= before.push(url@));
            true
        }
    }

    /// Removes the oldest pending address, records it as handed out and
    /// returns it. `None` where nothing waits.
    pub fn dequeue(&mut self) -> (next: Option<String>)
        requires
            old(self).wf(),
        ensures
            final(self).wf(),
            match next {
                Some(url) => {
                    &&& old(self).pending().len() > 0
                    &&& url@ == old(self).pending()[0]
                    &&& !old(self).visited().contains(url@)
                    &&& final(self).pending() == old(self).pending().drop_first()
                    &&& final(self).visited() == old(self).visited().push(url@)
                },
                None => {
                    &&& old(self).pending().len() == 0
                    &&& final(self).pending() == old(self).pending()
                    &&& final(self).visited() == old(self).visited()
                },
            },
    {
        if self.pending.len() == 0 {
            return None;
        }
        let ghost before_pending = self.pending();
        let ghost before_visited = self.visited();
        proof {
            dequeue_keeps_discipline(before_pending, before_visited);
        }
        let url = self.pending[0].clone();
        assert(url@ == before_pending[0]);
        self.visited.push(url);
        let next = self.pending.pop_front();
        assert(self.pending() =~= before_pending.drop_first());
        assert(self.visited() =~= before_visited.push(before_pending[0]));
        next
    }
}

} // verus!

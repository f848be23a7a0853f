//! Keeps track of the requests whose handlers are still running, so that
//! each of them is answered once and only once.

use vstd::prelude::*;
use crate::dispatch::{answer, response_for, InvokeRequest, Outcome};
use crate::rpc::settled;

verus! {

/// A request whose handler has not finished.
#[derive(Debug, Clone, PartialEq, Eq)]
pub struct Pending {
    /// The ticket handed out for it.
    pub id: u64,
    /// The request.
    pub request: InvokeRequest,
}

/// The requests in flight for one window.
#[derive(Debug, Clone, PartialEq, Eq)]
pub struct InFlight {
    /// The requests in flight, oldest first.
    pub pending: Vec<Pending>,
    /// The next ticket.
    pub next: u64,
}

/// The tickets of the requests.
pub open spec fn tickets(pending: Seq<Pending>) -> Seq<u64> {
    pending.map_values(|p: Pending| p.id)
}

/// How many of the completions, taken in order, are answered where the
/// tickets of `in_flight` are in flight: a completion is answered if its
/// ticket is in flight, and the ticket then leaves.
pub open spec fn answered(in_flight: Set<u64>, completions: Seq<u64>) -> nat
    decreases completions.len(),
{
    if completions.len() == 0 {
        0
    } else if in_flight.contains(completions[0]) {
        1 + answered(in_flight.remove(completions[0]), completions.drop_first())
    } else {
        answered(in_flight, completions.drop_first())
    }
}

/// Where every request in flight is completed at least once, in whatever
/// order and however often, exactly as many answers go out as requests are
/// in flight: none is left without an answer and none gets two.
pub proof fn lemma_each_answered_once(in_flight: Set<u64>, completions: Seq<u64>)
    requires
        in_flight.finite(),
        forall|t: u64| in_flight.contains(t) ==> completions.contains(t),
    ensures
        answered(in_flight, completions) == in_flight.len(),
    decreases completions.len(),
{
    if completions.len() == 0 {
        assert(in_flight =~= Set::<u64>::empty());
    } else {
        let first = completions[0];
        let rest = completions.drop_first();
        let left = if in_flight.contains(first) {
            in_flight.remove(first)
        } else {
            in_flight
        };
        assert forall|t: u64| left.contains(t) implies rest.contains(t) by {
            let i = choose|i: int| 0 <= i < completions.len() && completions[i] == t;
            assert(i > 0);
            assert(rest[i - 1] == t);
        }
        lemma_each_answered_once(left, rest);
    }
}

impl InFlight {
    /// The tickets in flight.
    pub open spec fn in_flight(&self) -> Set<u64> {
        tickets(self.pending@).to_set()
    }

    /// Every ticket in flight was handed out before, and none twice.
    pub open spec fn wf(&self) -> bool {
        &&& forall|i: int| 0 <= i < self.pending@.len() ==> (#[trigger] self.pending@[i]).id < self.next
        &&& forall|i: int, j: int|
            0 <= i < j < self.pending@.len() ==> (#[trigger] self.pending@[i]).id != (
            #[trigger] self.pending@[j]).id
    }

    /// Nothing in flight.
    pub fn new() -> (r: InFlight)
        ensures
            r.wf(),
            r.pending@.len() == 0,
            r.next == 0,
    {
        InFlight { pending: Vec::new(), next: 0 }
    }

    /// Takes a request in and hands out its ticket; `None`, with nothing
    /// changed, once every ticket has been handed out.
    pub fn begin(&mut self, request: InvokeRequest) -> (r: Option<u64>)
        requires
            old(self).wf(),
        ensures
            final(self).wf(),
            match r {
                Some(id) => {
                    &&& id == old(self).next
                    &&& final(self).next == id + 1
                    &&& final(self).pending@ == old(self).pending@.push(Pending { id, request })
                    &&& !old(self).in_flight().contains(id)
                    &&& final(self).in_flight() == old(self).in_flight().insert(id)
                },
                None => old(self).next == u64::MAX && *final(self) == *old(self),
            },
    {
        if self.next == u64::MAX {
            None
        } else {
            let id = self.next;
            self.pending.push(Pending { id, request });
            self.next = id + 1;
            proof {
                let before = tickets(old(self).pending@);
                let after = tickets(self.pending@);
                assert(after =~= before.push(id));
                if before.contains(id) {
                    let k = choose|k: int| 0 <= k < before.len() && before[k] == id;
                    assert(old(self).pending@[k].id == id);
                }
                assert(after.to_set() =~= before.to_set().insert(id)) by {
                    assert forall|t: u64| after.to_set().contains(t) implies before.to_set().insert(
                        id,
                    ).contains(t) by {
                        let k = choose|k: int| 0 <= k < after.len() && after[k] == t;
                        if k < before.len() {
                            assert(before[k] == t);
                        }
                    }
                    assert forall|t: u64| before.to_set().insert(id).contains(
                        t,
                    ) implies after.to_set().contains(t) by {
                        if t == id {
                            assert(after[after.len() - 1] == id);
                        } else {
                            let k = choose|k: int| 0 <= k < before.len() && before[k] == t;
                            assert(after[k] == t);
                        }
                    }
                }
            }
            Some(id)
        }
    }

    /// Ends a request: takes it out of flight and formats the one script
    /// that answers it, which is the failure script where the answer cannot
    /// be formatted. `None`, with nothing changed, for a ticket that is not
    /// in flight, so no request is answered twice.
    pub fn complete(&mut self, id: u64, outcome: &Outcome) -> (r: Option<String>)
        requires
            old(self).wf(),
        ensures
            final(self).wf(),
            r is Some <==> old(self).in_flight().contains(id),
            final(self).in_flight() == old(self).in_flight().remove(id),
            r is None ==> *final(self) == *old(self),
            r is Some ==> exists|i: int|
                0 <= i < old(self).pending@.len() && (#[trigger] old(self).pending@[i]).id == id
                    && r->0@ == settled(
                    response_for(old(self).pending@[i].request, *outcome),
                    old(self).pending@[i].request.error@,
                )
                    && final(self).pending@ == old(self).pending@.remove(i) && final(self).next
                    == old(self).next,
    {
        let mut i: usize = 0;
        while i < self.pending.len()
            invariant
                i <= self.pending.len(),
                *self == *old(self),
                self.wf(),
                forall|j: int| 0 <= j < i ==> (#[trigger] self.pending@[j]).id != id,
            decreases self.pending.len() - i,
        {
            if self.pending[i].id == id {
                let found = self.pending.remove(i);
                proof {
                    assert(found == old(self).pending@[i as int]);
                    assert(tickets(old(self).pending@)[i as int] == id);
                    let before = tickets(old(self).pending@);
                    let after = tickets(self.pending@);
                    assert(after =~= before.remove(i as int));
                    assert forall|t: u64| after.to_set().contains(t) implies before.to_set().remove(
                        id,
                    ).contains(t) by {
                        let k = choose|k: int| 0 <= k < after.len() && after[k] == t;
                        if k < i {
                            assert(before[k] == t);
                            assert(old(self).pending@[k].id != old(self).pending@[i as int].id);
                        } else {
                            assert(before[k + 1] == t);
                            assert(old(self).pending@[i as int].id != old(self).pending@[k + 1].id);
                        }
                    }
                    assert forall|t: u64| before.to_set().remove(id).contains(
                        t,
                    ) implies after.to_set().contains(t) by {
                        let k = choose|k: int| 0 <= k < before.len() && before[k] == t;
                        if k < i {
                            assert(after[k] == t);
                        } else {
                            assert(after[k - 1] == t);
                        }
                    }
                    assert(after.to_set() =~= before.to_set().remove(id));
                }
                return Some(answer(&found.request, outcome));
            }
            i += 1;
        }
        proof {
            if tickets(self.pending@).contains(id) {
                let k = choose|k: int|
                    0 <= k < tickets(self.pending@).len() && tickets(self.pending@)[k] == id;
                assert(self.pending@[k].id == id);
            }
            assert(self.in_flight().remove(id) =~= self.in_flight());
        }
        None
    }
}

} // verus!

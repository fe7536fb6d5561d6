use crate::ingest::apply;
use crate::ingest::apply_model;
use crate::ingest::DecodeOutcome;
use crate::store::OverrideStore;
use crate::store::StoreModel;
use vstd::prelude::*;

verus! {

/// Issues one ticket per in-flight fetch for a slot and remembers the newest
/// ticket whose result has landed. Completions that arrive out of order are
/// told apart by their tickets, so a stale result can be discarded instead of
/// overwriting a newer one.
pub struct SlotSequencer {
    next: u64,
    newest_done: u64,
}

impl SlotSequencer {
    /// The ticket the next fetch will be issued.
    pub closed spec fn next_spec(self) -> u64 {
        self.next
    }

    /// The newest ticket whose result has landed; 0 before any has.
    pub closed spec fn newest_done_spec(self) -> u64 {
        self.newest_done
    }

    /// Tickets already issued are below `next`, and only issued results land.
    pub open spec fn wf(self) -> bool {
        self.newest_done_spec() < self.next_spec()
    }

    /// A sequencer with no fetch issued yet.
    pub fn new() -> (r: SlotSequencer)
        ensures
            r.next_spec() == 1,
            r.newest_done_spec() == 0,
            r.wf(),
    {
        SlotSequencer { next: 1, newest_done: 0 }
    }

    /// Issues the ticket for one fetch; tickets grow strictly, so a
    /// later-issued fetch always carries a higher ticket.
    pub fn issue(&mut self) -> (t: u64)
        requires
            old(self).next_spec() < u64::MAX,
            old(self).wf(),
        ensures
            t == old(self).next_spec(),
            final(self).next_spec() == t + 1,
            final(self).newest_done_spec() == old(self).newest_done_spec(),
            final(self).wf(),
    {
        let t = self.next;
        self.next = self.next + 1;
        t
    }
}

/// The store contents after a completion with ticket `t` lands while
/// `newest_done` is the newest landed ticket: the outcome is applied exactly
/// when the completion is fresher than everything landed before it.
pub open spec fn sequenced_store(
    m: StoreModel,
    newest_done: u64,
    t: u64,
    outcome: DecodeOutcome,
) -> StoreModel {
    if t > newest_done {
        apply_model(m, outcome)
    } else {
        m
    }
}

/// The newest landed ticket after a completion with ticket `t`.
pub open spec fn sequenced_done(newest_done: u64, t: u64) -> u64 {
    if t > newest_done {
        t
    } else {
        newest_done
    }
}

/// Lands one fetch completion under the newest-wins policy: the outcome
/// replaces its slot exactly when no later-issued completion has landed
/// before it; a stale completion is discarded whole and the store keeps what
/// it had.
pub fn apply_sequenced(
    store: &mut OverrideStore,
    seq: &mut SlotSequencer,
    ticket: u64,
    outcome: DecodeOutcome,
)
    requires
        ticket < old(seq).next_spec(),
        old(seq).wf(),
    ensures
        final(store)@ == sequenced_store(old(store)@, old(seq).newest_done_spec(), ticket, outcome),
        final(seq).newest_done_spec() == sequenced_done(old(seq).newest_done_spec(), ticket),
        final(seq).next_spec() == old(seq).next_spec(),
        final(seq).wf(),
{
    if ticket > seq.newest_done {
        seq.newest_done = ticket;
        apply(store, outcome);
    }
}

/// Newest wins: when the later-issued of two overlapping fetches lands first,
/// the earlier-issued one is discarded on arrival and the slot keeps the
/// later-issued payload.
pub proof fn lemma_newest_wins(
    m: StoreModel,
    newest_done: u64,
    t1: u64,
    t2: u64,
    o1: DecodeOutcome,
    o2: DecodeOutcome,
)
    requires
        newest_done < t1 < t2,
    ensures
        ({
            let m_after_second = sequenced_store(m, newest_done, t2, o2);
            let done_after_second = sequenced_done(newest_done, t2);
            &&& sequenced_store(m_after_second, done_after_second, t1, o1) == m_after_second
            &&& m_after_second == apply_model(m, o2)
        }),
{
}

} // verus!

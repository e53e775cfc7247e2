use vstd::prelude::*;

use crate::chapter::Chapter;
use crate::chapter::ChapterView;

verus! {

/// The error a handoff gets when the relay no longer has a consumer.
#[derive(Clone, Copy, Debug, PartialEq, Eq, Structural)]
pub struct RelayHandoffError;

/// What one read from the relay observes.
pub enum RelayRecv {
    /// The oldest pending chapter.
    Item(Chapter),
    /// This many older chapters were dropped before they could be read;
    /// reading resumes with the next undropped chapter.
    Lagged(u64),
    /// The producer side is closed and nothing is pending: end of stream.
    Closed,
    /// Nothing is pending but the producer side is still open.
    Empty,
}

/// The mathematical model of the relay.
#[verifier::ext_equal]
pub struct RelayView {
    pub capacity: nat,
    pub pending: Seq<ChapterView>,
    pub lag: nat,
    pub sender_open: bool,
    pub receiver_open: bool,
}

/// A bounded single-producer, single-consumer relay with a drop-oldest
/// overflow policy: a send never blocks; when the buffer is full the oldest
/// pending chapter is evicted and the consumer is later told how many it
/// missed.
pub struct Relay {
    items: Vec<Chapter>,
    capacity: usize,
    lagged: u64,
    sender_open: bool,
    receiver_open: bool,
}

impl View for Relay {
    type V = RelayView;

    closed spec fn view(&self) -> RelayView {
        RelayView {
            capacity: self.capacity as nat,
            pending: self.items@.map_values(|c: Chapter| c@),
            lag: self.lagged as nat,
            sender_open: self.sender_open,
            receiver_open: self.receiver_open,
        }
    }
}

/// A freshly created relay: empty, nothing missed, both sides open.
pub open spec fn fresh_relay_view(capacity: nat) -> RelayView {
    RelayView {
        capacity,
        pending: Seq::empty(),
        lag: 0,
        sender_open: true,
        receiver_open: true,
    }
}

/// What one send does to the relay: nothing without a consumer; otherwise the
/// chapter is appended, and when the buffer is already full the oldest
/// pending chapter is dropped and the skip count grows (saturating).
pub open spec fn spec_send(v: RelayView, c: ChapterView) -> RelayView {
    if !v.receiver_open {
        v
    } else if v.pending.len() < v.capacity {
        RelayView { pending: v.pending.push(c), ..v }
    } else {
        RelayView {
            pending: v.pending.push(c).drop_first(),
            lag: if v.lag < u64::MAX { v.lag + 1 } else { v.lag },
            ..v
        }
    }
}

/// The relay after a whole sequence of sends.
pub open spec fn spec_send_all(v: RelayView, cs: Seq<ChapterView>) -> RelayView
    decreases cs.len(),
{
    if cs.len() == 0 {
        v
    } else {
        spec_send_all(spec_send(v, cs[0]), cs.drop_first())
    }
}

impl Relay {
    /// The buffer never outgrows the capacity, and the capacity is positive.
    pub open spec fn wf(self) -> bool {
        self@.pending.len() <= self@.capacity && self@.capacity >= 1
    }

    /// Creates a relay of the given capacity, with both sides open.
    pub fn new(capacity: usize) -> (r: Relay)
        requires
            capacity >= 1,
        ensures
            r.wf(),
            r@ == (RelayView {
                capacity: capacity as nat,
                pending: Seq::<ChapterView>::empty(),
                lag: 0,
                sender_open: true,
                receiver_open: true,
            }),
    {
        let r = Relay {
            items: Vec::new(),
            capacity,
            lagged: 0,
            sender_open: true,
            receiver_open: true,
        };
        proof {
            assert(r@.pending =~= Seq::<ChapterView>::empty());
        }
        r
    }

    /// Hands one chapter to the relay. The producer is never blocked: with a
    /// full buffer the oldest pending chapter is dropped instead. The handoff
    /// is refused only when no consumer is left.
    pub fn send(&mut self, chapter: Chapter) -> (r: Result<(), RelayHandoffError>)
        requires
            old(self).wf(),
        ensures
            final(self).wf(),
            final(self)@ == spec_send(old(self)@, chapter@),
            r is Ok <==> old(self)@.receiver_open,
    {
        if !self.receiver_open {
            return Err(RelayHandoffError);
        }
        let ghost pre = self@;
        if self.items.len() == self.capacity {
            self.items.remove(0);
            self.lagged = if self.lagged < u64::MAX {
                self.lagged + 1
            } else {
                self.lagged
            };
            proof {
                assert(self.items@.map_values(|c: Chapter| c@) =~= pre.pending.drop_first());
            }
        }
        let ghost mid = self@;
        self.items.push(chapter);
        proof {
            assert(self.items@.map_values(|c: Chapter| c@) =~= mid.pending.push(chapter@));
            if pre.pending.len() >= pre.capacity {
                assert(pre.pending.drop_first().push(chapter@) =~= pre.pending.push(
                    chapter@).drop_first());
            }
        }
        Ok(())
    }

    /// One read by the sole consumer. A lag notification comes before
    /// anything newer and resets the skip count; otherwise the oldest
    /// pending chapter is handed out; an empty relay signals end of stream
    /// exactly when the producer side is closed.
    pub fn recv(&mut self) -> (r: RelayRecv)
        requires
            old(self).wf(),
        ensures
            final(self).wf(),
            ({
                let v = old(self)@;
                if v.lag > 0 {
                    r matches RelayRecv::Lagged(n) && n as nat == v.lag && final(self)@ == (
                    RelayView { lag: 0, ..v })
                } else if v.pending.len() > 0 {
                    r matches RelayRecv::Item(c) && c@ == v.pending[0] && final(self)@ == (
                    RelayView { pending: v.pending.drop_first(), ..v })
                } else if !v.sender_open {
                    r is Closed && final(self)@ == v
                } else {
                    r is Empty && final(self)@ == v
                }
            }),
    {
        let ghost pre = self@;
        if self.lagged > 0 {
            let n = self.lagged;
            self.lagged = 0;
            RelayRecv::Lagged(n)
        } else if self.items.len() > 0 {
            let c = self.items.remove(0);
            proof {
                assert(self.items@.map_values(|c: Chapter| c@) =~= pre.pending.drop_first());
            }
            RelayRecv::Item(c)
        } else if !self.sender_open {
            RelayRecv::Closed
        } else {
            RelayRecv::Empty
        }
    }

    /// Closes the producer side: the walk is over, nothing more will be sent.
    pub fn close_sender(&mut self)
        requires
            old(self).wf(),
        ensures
            final(self).wf(),
            final(self)@ == (RelayView { sender_open: false, ..old(self)@ }),
    {
        self.sender_open = false;
    }

    /// Closes the consumer side: later handoffs are refused.
    pub fn close_receiver(&mut self)
        requires
            old(self).wf(),
        ensures
            final(self).wf(),
            final(self)@ == (RelayView { receiver_open: false, ..old(self)@ }),
    {
        self.receiver_open = false;
    }
}

/// Sending one more chapter after a sequence of sends is the same as sending
/// the extended sequence.
pub proof fn lemma_send_all_snoc(v: RelayView, cs: Seq<ChapterView>, c: ChapterView)
    ensures
        spec_send_all(v, cs.push(c)) == spec_send(spec_send_all(v, cs), c),
    decreases cs.len(),
{
    if cs.len() == 0 {
        assert(cs.push(c)[0] == c);
        assert(cs.push(c).drop_first() =~= Seq::<ChapterView>::empty());
        assert(spec_send_all(v, cs.push(c)) == spec_send_all(
            spec_send(v, c),
            Seq::<ChapterView>::empty(),
        ));
        assert(spec_send_all(spec_send(v, c), Seq::<ChapterView>::empty()) == spec_send(v, c));
    } else {
        assert(cs.push(c)[0] == cs[0]);
        assert(cs.push(c).drop_first() =~= cs.drop_first().push(c));
        lemma_send_all_snoc(spec_send(v, cs[0]), cs.drop_first(), c);
        assert(spec_send_all(v, cs.push(c)) == spec_send_all(
            spec_send(v, cs[0]),
            cs.drop_first().push(c),
        ));
        assert(spec_send_all(v, cs) == spec_send_all(spec_send(v, cs[0]), cs.drop_first()));
    }
}

proof fn lemma_send_all_shape(v: RelayView, cs: Seq<ChapterView>)
    requires
        v.receiver_open,
        v.capacity >= 1,
        v.pending.len() <= v.capacity,
        v.lag + cs.len() <= u64::MAX,
    ensures
        ({
            let w = spec_send_all(v, cs);
            let total = v.pending + cs;
            let overflow = if total.len() > v.capacity {
                total.len() - v.capacity
            } else {
                0
            };
            &&& w.capacity == v.capacity
            &&& w.receiver_open
            &&& w.sender_open == v.sender_open
            &&& w.pending =~= total.skip(overflow as int)
            &&& w.lag == v.lag + overflow
        }),
    decreases cs.len(),
{
    if cs.len() > 0 {
        let v1 = spec_send(v, cs[0]);
        let cs1 = cs.drop_first();
        lemma_send_all_shape(v1, cs1);
        if v.pending.len() < v.capacity {
            assert(v1.pending + cs1 =~= v.pending + cs);
        } else {
            let total = v.pending + cs;
            let overflow: int = total.len() - v.capacity;
            assert(v1.pending + cs1 =~= total.skip(1));
            assert(total.skip(1).skip(overflow - 1) =~= total.skip(overflow));
        }
    }
}

/// Law: if more chapters are produced than the relay can hold while the
/// consumer never reads, the producer is never blocked; the excess oldest
/// chapters are dropped, the skip count says exactly how many, and what
/// stays pending is the newest chapters, starting with the first undropped
/// one. The consumer's next read then observes a lag notification (`recv`),
/// after which reading resumes with that first undropped chapter.
pub proof fn lemma_relay_overflow(v: RelayView, cs: Seq<ChapterView>)
    requires
        v.receiver_open,
        v.capacity >= 1,
        v.pending.len() == 0,
        v.lag == 0,
        cs.len() > v.capacity,
        cs.len() <= u64::MAX,
    ensures
        ({
            let w = spec_send_all(v, cs);
            &&& w.lag == cs.len() - v.capacity
            &&& w.pending =~= cs.skip(cs.len() - v.capacity)
            &&& w.pending.len() == v.capacity
            &&& w.pending[0] == cs[cs.len() - v.capacity]
        }),
{
    lemma_send_all_shape(v, cs);
    assert(v.pending + cs =~= cs);
}

} // verus!

//! The event log: everything that happened, in order, as far back as the ring reaches.

use crate::frame::{envelope_views, Envelope, EnvelopeView, Frame, FrameView};
use crate::json::{object, Json, JsonView};
use std::collections::VecDeque;
use vstd::prelude::*;

verus! {

/// How many events the replay ring holds.
pub const EVENT_RING: usize = 4096;

/// The counter behind `n`.
pub open spec fn next_count(n: u64) -> u64 {
    if n == u64::MAX {
        0
    } else {
        (n + 1) as u64
    }
}

/// The counter behind `n`.
pub fn count_on(n: u64) -> (r: u64)
    ensures
        r == next_count(n),
{
    if n == u64::MAX {
        0
    } else {
        n + 1
    }
}

/// Numbers events and keeps the most recent of them for replay.
#[derive(Debug)]
pub struct EventBus {
    seq: u64,
    ring: VecDeque<Envelope>,
}

/// The model of an [`EventBus`].
#[verifier::ext_equal]
pub struct BusView {
    /// The number of the next event.
    pub seq: u64,
    /// The events in the ring, oldest first.
    pub ring: Seq<EnvelopeView>,
}

impl View for EventBus {
    type V = BusView;

    closed spec fn view(&self) -> BusView {
        BusView { seq: self.seq, ring: envelope_views(self.ring@) }
    }
}

impl BusView {
    /// The bus after one more event: the oldest gives way when the ring is full.
    pub open spec fn emit(self, e: Seq<char>, p: JsonView) -> BusView {
        let fresh = EnvelopeView { seq: self.seq, e, p };
        BusView {
            seq: next_count(self.seq),
            ring: if self.ring.len() == EVENT_RING {
                self.ring.drop_first().push(fresh)
            } else {
                self.ring.push(fresh)
            },
        }
    }

    /// Whether the ring holds the events just before the next, numbered one by one.
    pub open spec fn consecutive(self) -> bool {
        &&& 1 <= self.seq
        &&& self.ring.len() < self.seq
        &&& self.ring.len() <= EVENT_RING
        &&& forall|i: int|
            0 <= i < self.ring.len() ==> (#[trigger] self.ring[i]).seq == self.seq - self.ring.len()
                + i
    }
}

/// The events numbered `from` or later.
pub open spec fn events_from(ring: Seq<EnvelopeView>, from: u64) -> Seq<EnvelopeView>
    decreases ring.len(),
{
    if ring.len() == 0 {
        Seq::empty()
    } else {
        let front = events_from(ring.drop_last(), from);
        if ring.last().seq >= from {
            front.push(ring.last())
        } else {
            front
        }
    }
}

/// Sequence numbers start at 1, so 0 and 1 both mean "everything you still have".
pub open spec fn first_wanted(from: u64) -> u64 {
    if from < 1 {
        1
    } else {
        from
    }
}

impl EventBus {
    /// A bus on which nothing has happened.
    pub fn new() -> (r: EventBus)
        ensures
            r@ == (BusView { seq: 1, ring: Seq::empty() }),
            r@.consecutive(),
    {
        let r = EventBus { seq: 1, ring: VecDeque::new() };
        assert(r@.ring =~= Seq::<EnvelopeView>::empty());
        r
    }

    /// Records an event and returns its number.
    pub fn emit(&mut self, e: &str, p: Json) -> (r: u64)
        ensures
            r == old(self)@.seq,
            final(self)@ == old(self)@.emit(e@, p@),
    {
        let ghost before = self.ring@;
        let seq: u64 = self.seq;
        self.seq = count_on(seq);
        if self.ring.len() == EVENT_RING {
            let _ = self.ring.pop_front();
            assert(envelope_views(self.ring@) =~= envelope_views(before).drop_first());
        }
        let ghost kept = self.ring@;
        let env = Envelope { seq, e: e.to_owned(), p };
        self.ring.push_back(env);
        assert(envelope_views(self.ring@) =~= envelope_views(kept).push(env@));
        seq
    }

    /// The number of the next event.
    pub fn current(&self) -> (r: u64)
        ensures
            r == self@.seq,
    {
        self.seq
    }

    /// Events from `from` onward, plus whether some of what was asked for had already been
    /// evicted.
    pub fn replay(&self, from: u64) -> (r: (Vec<Envelope>, bool))
        ensures
            envelope_views(r.0@) == events_from(self@.ring, first_wanted(from)),
            r.1 == (self@.ring.len() > 0 && self@.ring[0].seq > first_wanted(from)),
    {
        let from: u64 = if from < 1 {
            1
        } else {
            from
        };
        let ghost all = self@.ring;
        let truncated = self.ring.len() > 0 && self.ring[0].seq > from;
        let mut out: Vec<Envelope> = Vec::new();
        let mut i: usize = 0;
        assert(all.take(0) =~= Seq::<EnvelopeView>::empty());
        assert(envelope_views(out@) =~= Seq::<EnvelopeView>::empty());
        while i < self.ring.len()
            invariant
                i <= self.ring@.len(),
                all == envelope_views(self.ring@),
                envelope_views(out@) == events_from(all.take(i as int), from),
            decreases self.ring@.len() - i,
        {
            assert(all.take(i + 1).drop_last() =~= all.take(i as int));
            assert(all.take(i + 1).last() == self.ring@[i as int]@);
            if self.ring[i].seq >= from {
                let ghost before = out@;
                let env = self.ring[i].copy();
                out.push(env);
                assert(envelope_views(out@) =~= envelope_views(before).push(env@));
            }
            i += 1;
        }
        assert(all.take(i as int) =~= all);
        (out, truncated)
    }
}

/// What a client is told when it could not keep up: how many events it missed.
pub fn lagged(missed: u64) -> (r: Frame)
    ensures
        r@ == (FrameView::Ev {
            seq: 0,
            e: "events.truncated"@,
            p: object().with("missed"@, JsonView::Unsigned(missed)),
        }),
{
    let p = Json::object().with("missed", Json::Unsigned(missed));
    Frame::Ev { seq: 0, e: "events.truncated".to_owned(), p }
}

/// Events are numbered one by one, and stay so.
pub proof fn emitting_keeps_numbers_consecutive(bus: BusView, e: Seq<char>, p: JsonView)
    requires
        bus.consecutive(),
        bus.seq < u64::MAX,
    ensures
        bus.emit(e, p).consecutive(),
        bus.emit(e, p).seq == bus.seq + 1,
        bus.emit(e, p).ring.last() == (EnvelopeView { seq: bus.seq, e, p }),
{
}

proof fn lemma_events_from(ring: Seq<EnvelopeView>, from: u64, first: int)
    requires
        forall|i: int| 0 <= i < ring.len() ==> (#[trigger] ring[i]).seq == first + i,
    ensures
        events_from(ring, from) == if from <= first {
            ring
        } else if from - first >= ring.len() {
            Seq::empty()
        } else {
            ring.skip(from - first)
        },
    decreases ring.len(),
{
    if ring.len() > 0 {
        let front = ring.drop_last();
        assert forall|i: int| 0 <= i < front.len() implies (#[trigger] front[i]).seq == first + i by {
            assert(front[i] == ring[i]);
        }
        lemma_events_from(front, from, first);
        assert(ring.last() == ring[ring.len() - 1]);
        if from <= first {
            assert(front.push(ring.last()) =~= ring);
        } else if from - first < ring.len() {
            if from - first < front.len() {
                assert(front.skip(from - first).push(ring.last()) =~= ring.skip(from - first));
            } else {
                assert(Seq::<EnvelopeView>::empty().push(ring.last()) =~= ring.skip(from - first));
            }
        }
    } else {
        assert(ring =~= Seq::<EnvelopeView>::empty());
    }
}

/// A replay is complete or says that it is not: it holds every event from the wanted one
/// on that was ever emitted, unless the ring has lost some of them, and exactly then it is
/// reported as truncated.
pub proof fn replay_is_complete_or_says_so(bus: BusView, from: u64)
    requires
        bus.consecutive(),
    ensures
        ({
            let wanted = first_wanted(from);
            let got = events_from(bus.ring, wanted);
            let truncated = bus.ring.len() > 0 && bus.ring[0].seq > wanted;
            &&& !truncated && bus.ring.len() > 0 && wanted < bus.seq ==> got.len() == bus.seq
                - wanted
            &&& truncated ==> got == bus.ring && got.len() < bus.seq - wanted
            &&& forall|i: int|
                0 <= i < got.len() ==> (#[trigger] got[i]).seq == bus.seq - got.len() + i
        }),
{
    lemma_events_from(bus.ring, first_wanted(from), bus.seq - bus.ring.len());
}

} // verus!

//! Bounded multi-subscriber broadcast bus.
//!
//! A `Bus` fans typed events out to every attached `Subscription`. Publishing
//! never blocks and never fails; the bus retains only the most recent
//! `capacity` events, so a subscriber whose cursor falls behind that window
//! reads an explicit [`Received::Lagged`] outcome instead of stale data. The
//! whole history of publishes is kept as ghost state, so the contracts can
//! say exactly which event each read returns.

use vstd::prelude::*;

verus! {

/// An event type a bus can carry: the bus must be able to hand every
/// subscriber its own copy of a published event, equal to the original.
pub trait BusItem: Sized {
    fn dup(&self) -> (r: Self)
        ensures
            r == *self;
}

/// Outcome of one read by a subscriber.
pub enum Received<T> {
    /// The next event, in publish order.
    Event(T),
    /// The subscriber fell behind the bus's retention window; the payload is
    /// the number of events that were dropped before its cursor. The cursor
    /// now points at the oldest event still retained.
    Lagged(usize),
    /// Nothing published past this subscriber's cursor yet.
    Empty,
}

/// A listener's live attachment to a bus: a delivery cursor into the bus's
/// history, plus (as ghost state) the point in the history at which the
/// subscription was created. The cursor never moves below the attach point,
/// which is why a subscriber never observes events published before it
/// attached.
pub struct Subscription {
    cursor: usize,
    attached_at: Ghost<int>,
}

impl Subscription {
    /// Index into the bus history of the next event this subscription reads.
    pub closed spec fn cursor(&self) -> int {
        self.cursor as int
    }

    /// History length of the bus at the moment this subscription was created.
    pub closed spec fn attach_point(&self) -> int {
        self.attached_at@
    }

    pub closed spec fn wf(&self) -> bool {
        0 <= self.attached_at@ <= self.cursor as int
    }
}

/// A bounded broadcast bus. `history()` is the full sequence of events ever
/// published; the bus physically retains only the suffix starting at
/// `oldest()`, whose length never exceeds `capacity()`.
pub struct Bus<T> {
    buf: Vec<T>,
    base: usize,
    cap: usize,
    hist: Ghost<Seq<T>>,
}

impl<T> Bus<T> {
    /// Every event ever published to this bus, in publish order.
    pub closed spec fn history(&self) -> Seq<T> {
        self.hist@
    }

    /// Index into the history of the oldest event still retained; everything
    /// before it has been dropped to keep the bus bounded.
    pub closed spec fn oldest(&self) -> int {
        self.base as int
    }

    /// The retention window the bus was created with.
    pub closed spec fn capacity(&self) -> int {
        self.cap as int
    }

    pub closed spec fn wf(&self) -> bool {
        &&& self.cap >= 1
        &&& self.buf@.len() <= self.cap
        &&& self.hist@.len() == self.base + self.buf@.len()
        &&& self.hist@.len() <= usize::MAX
        &&& forall|i: int|
            0 <= i < self.buf@.len() ==> self.buf@[i] == self.hist@[self.base + i]
    }

    /// How one publish moves the retention window: the oldest retained event
    /// is dropped exactly when the bus was full, so a subscriber inside the
    /// window stays inside it as long as it keeps up.
    pub open spec fn window_after_publish(self, post: Self) -> bool {
        &&& self.oldest() <= post.oldest()
        &&& self.history().len() - self.oldest() < self.capacity() ==> post.oldest()
            == self.oldest()
        &&& self.history().len() - self.oldest() == self.capacity() ==> post.oldest()
            == self.oldest() + 1
    }

    /// Shape of a well-formed bus: the retained window sits at the end of the
    /// history and is no longer than the capacity.
    pub proof fn lemma_wf(&self)
        requires
            self.wf(),
        ensures
            0 <= self.oldest() <= self.history().len(),
            self.history().len() - self.oldest() <= self.capacity(),
            1 <= self.capacity(),
    {
    }
}

impl<T: BusItem> Bus<T> {
    /// An empty bus retaining at most `cap` undelivered events.
    pub fn new(cap: usize) -> (bus: Self)
        requires
            1 <= cap,
        ensures
            bus.wf(),
            bus.history() == Seq::<T>::empty(),
            bus.oldest() == 0,
            bus.capacity() == cap,
    {
        Bus { buf: Vec::new(), base: 0, cap, hist: Ghost(Seq::empty()) }
    }

    /// Append an event to the broadcast order. Never blocks and never fails,
    /// whether or not any subscriber is attached; if the bus is full, the
    /// oldest retained event is dropped to make room.
    pub fn publish(&mut self, e: T)
        requires
            old(self).wf(),
            old(self).history().len() < usize::MAX,
        ensures
            final(self).wf(),
            final(self).history() == old(self).history().push(e),
            final(self).capacity() == old(self).capacity(),
            old(self).window_after_publish(*final(self)),
    {
        if self.buf.len() == self.cap {
            self.buf.remove(0);
            self.base = self.base + 1;
        }
        self.buf.push(e);
        self.hist = Ghost(self.hist@.push(e));
    }

    /// How many events have ever been published to this bus.
    pub fn published(&self) -> (r: usize)
        requires
            self.wf(),
        ensures
            r == self.history().len(),
    {
        self.base + self.buf.len()
    }

    /// Attach a new subscriber. It will receive every event published after
    /// this call and nothing published before it: its cursor and attach point
    /// both start at the current end of the history.
    pub fn subscribe(&self) -> (sub: Subscription)
        requires
            self.wf(),
        ensures
            sub.wf(),
            sub.cursor() == self.history().len(),
            sub.attach_point() == self.history().len(),
    {
        Subscription {
            cursor: self.base + self.buf.len(),
            attached_at: Ghost(self.hist@.len() as int),
        }
    }

    /// One read by a subscriber. Exactly one of three things happens:
    /// nothing is pending (`Empty`, cursor unmoved); the cursor fell out of
    /// the retention window (`Lagged` with the number of missed events,
    /// cursor moved up to the oldest retained event); or the event at the
    /// cursor is returned and the cursor advances past it.
    pub fn recv(&self, sub: &mut Subscription) -> (r: Received<T>)
        requires
            self.wf(),
            old(sub).wf(),
            old(sub).cursor() <= self.history().len(),
        ensures
            final(sub).wf(),
            final(sub).attach_point() == old(sub).attach_point(),
            old(sub).cursor() <= final(sub).cursor() <= self.history().len(),
            old(sub).cursor() == self.history().len() ==> (r matches Received::Empty
                && final(sub).cursor() == old(sub).cursor()),
            old(sub).cursor() < self.oldest() ==> (r matches Received::Lagged(n)
                && n == self.oldest() - old(sub).cursor()
                && final(sub).cursor() == self.oldest()),
            self.oldest() <= old(sub).cursor() < self.history().len() ==> (r matches
                Received::Event(e)
                && e == self.history()[old(sub).cursor()]
                && final(sub).cursor() == old(sub).cursor() + 1),
            // No backlog replay, ever: an event handed out always sits at or
            // past the subscription's attach point in the history.
            r matches Received::Event(e) ==> (e == self.history()[old(sub).cursor()]
                && old(sub).attach_point() <= old(sub).cursor()),
    {
        let total = self.base + self.buf.len();
        if sub.cursor == total {
            Received::Empty
        } else if sub.cursor < self.base {
            let missed = self.base - sub.cursor;
            sub.cursor = self.base;
            Received::Lagged(missed)
        } else {
            let i = sub.cursor - self.base;
            let e = self.buf[i].dup();
            sub.cursor = sub.cursor + 1;
            Received::Event(e)
        }
    }

    /// Read until nothing is pending, collecting the events in order. A
    /// subscriber whose cursor is still inside the retention window observes
    /// exactly the events published since its cursor, in publish order; one
    /// that had lagged observes exactly the retained suffix.
    pub fn drain(&self, sub: &mut Subscription) -> (out: Vec<T>)
        requires
            self.wf(),
            old(sub).wf(),
            old(sub).cursor() <= self.history().len(),
        ensures
            final(sub).wf(),
            final(sub).attach_point() == old(sub).attach_point(),
            final(sub).cursor() == self.history().len(),
            self.oldest() <= old(sub).cursor() ==> out@ == self.history().subrange(
                old(sub).cursor(),
                self.history().len() as int,
            ),
            old(sub).cursor() < self.oldest() ==> out@ == self.history().subrange(
                self.oldest(),
                self.history().len() as int,
            ),
    {
        proof {
            self.lemma_wf();
        }
        let ghost start: int = if old(sub).cursor() < self.oldest() {
            self.oldest()
        } else {
            old(sub).cursor()
        };
        let mut out: Vec<T> = Vec::new();
        loop
            invariant
                self.wf(),
                sub.wf(),
                sub.attach_point() == old(sub).attach_point(),
                old(sub).cursor() <= sub.cursor() <= self.history().len(),
                start == if old(sub).cursor() < self.oldest() {
                    self.oldest()
                } else {
                    old(sub).cursor()
                },
                start <= self.history().len(),
                sub.cursor() < start ==> (sub.cursor() == old(sub).cursor() && out@.len() == 0),
                start <= sub.cursor() ==> out@ == self.history().subrange(start, sub.cursor()),
            ensures
                sub.wf(),
                sub.attach_point() == old(sub).attach_point(),
                sub.cursor() == self.history().len(),
                out@ == self.history().subrange(start, self.history().len() as int),
            decreases
                    self.history().len() - sub.cursor() + (if sub.cursor() < start {
                        1int
                    } else {
                        0int
                    }),
        {
            let ghost cursor_before: int = sub.cursor();
            match self.recv(sub) {
                Received::Event(e) => {
                    out.push(e);
                    proof {
                        assert(self.history().subrange(start, sub.cursor()) =~= self.history()
                            .subrange(start, cursor_before).push(e));
                    }
                },
                Received::Lagged(_) => {},
                Received::Empty => {
                    break ;
                },
            }
        }
        out
    }
}

/// A subscriber attached before a run of publishes, and not lagged, observes
/// exactly that run, in order: in the history as it stands after the run, the
/// events from its attach point onward are the published run itself.
pub proof fn lemma_prior_subscriber_observes_run<T>(pre: Seq<T>, run: Seq<T>)
    ensures
        (pre + run).subrange(pre.len() as int, (pre + run).len() as int) == run,
{
    assert((pre + run).subrange(pre.len() as int, (pre + run).len() as int) =~= run);
}

/// A subscriber attached after the first `k` publishes never observes any of
/// them: its cursor sits at or past its attach point, so every index it can
/// read from — `recv` only ever returns the event at the cursor — lies at
/// `k` or beyond.
pub proof fn lemma_late_subscriber_misses_backlog(sub: Subscription, k: int, i: int)
    requires
        sub.wf(),
        sub.attach_point() == k,
        i < k,
    ensures
        i < sub.cursor(),
{
}

} // verus!

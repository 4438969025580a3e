//! The fan-out bus: a bounded, lossy, single-producer broadcast primitive.
//!
//! The producer appends to a ring of the most recent `capacity` items and is
//! never slowed by subscribers. Each subscriber owns an independent cursor
//! into the published history: reading inside the retention window delivers
//! the next item, falling behind the window yields a lag count and resumes at
//! the oldest retained item, and catching up to the head reports either
//! "nothing yet" or, once the producer side is closed, a terminal signal.

use vstd::prelude::*;

verus! {

/// The retention bound the bridge runs with: the bus keeps this many of the
/// most recent published items for slow subscribers.
pub const FANOUT_CAPACITY: usize = 16;

/// What one receive attempt yields.
pub enum RecvOutcome {
    /// The next item at the subscriber's cursor.
    Delivered(String),
    /// The subscriber fell behind: this many items were skipped, and the
    /// cursor resumed at the oldest retained item.
    Lagged(u64),
    /// The cursor is at the head and the producer is still open.
    Pending,
    /// The cursor is at the head and the producer side is closed.
    Closed,
}

/// A subscriber's private read position. Receiving moves only this cursor,
/// never the bus, so subscribers cannot affect one another or the producer.
pub struct Subscriber {
    next: u64,
}

impl Subscriber {
    /// The index into the published history of the next item to read.
    pub closed spec fn cursor(self) -> int {
        self.next as int
    }
}

/// The bounded broadcast ring: the views of all items ever published (ghost),
/// of which the most recent `capacity` are retained for delivery.
pub struct FanoutBus {
    buf: Vec<String>,
    published: u64,
    capacity: usize,
    closed: bool,
    hist: Ghost<Seq<Seq<char>>>,
}

impl FanoutBus {
    /// Views of every item ever published, oldest first.
    pub closed spec fn history(self) -> Seq<Seq<char>> {
        self.hist@
    }

    /// The fixed retention bound the bus was created with.
    pub closed spec fn capacity(self) -> nat {
        self.capacity as nat
    }

    /// Whether the producer side has been shut down.
    pub closed spec fn is_closed(self) -> bool {
        self.closed
    }

    /// How many items have ever been published.
    pub open spec fn published(self) -> int {
        self.history().len() as int
    }

    /// The history index of the oldest item still retained: everything before
    /// it has been evicted by newer publishes.
    pub open spec fn retained_start(self) -> int {
        if self.published() >= self.capacity() as int {
            self.published() - self.capacity() as int
        } else {
            0
        }
    }

    /// The item a receive at cursor `c` delivers, if any.
    pub open spec fn delivery(self, c: int) -> Option<Seq<char>> {
        if self.retained_start() <= c < self.published() {
            Some(self.history()[c])
        } else {
            None
        }
    }

    /// Where a receive at cursor `c` leaves the cursor: a lagging cursor
    /// resumes at the oldest retained item, a delivering one advances by one,
    /// and one at the head stays.
    pub open spec fn next_cursor(self, c: int) -> int {
        if c < self.retained_start() {
            self.retained_start()
        } else if c < self.published() {
            c + 1
        } else {
            c
        }
    }

    /// The items `k` consecutive receive attempts starting at cursor `c`
    /// deliver (lag indications and empty polls deliver nothing).
    pub open spec fn drain(self, c: int, k: nat) -> Seq<Seq<char>>
        decreases k,
    {
        if k == 0 {
            Seq::empty()
        } else {
            match self.delivery(c) {
                Some(item) => seq![item] + self.drain(self.next_cursor(c), (k - 1) as nat),
                None => self.drain(self.next_cursor(c), (k - 1) as nat),
            }
        }
    }

    /// The retained ring mirrors the tail of the history.
    pub closed spec fn wf(self) -> bool {
        &&& self.capacity >= 1
        &&& self.hist@.len() == self.published as nat
        &&& self.buf@.len() as int == self.published() - self.retained_start()
        &&& forall|i: int|
            0 <= i < self.buf@.len() ==> #[trigger] self.buf@[i]@ == self.hist@[self.retained_start()
                + i]
    }

    /// Creates an empty bus retaining at most `capacity` items.
    pub fn new(capacity: usize) -> (b: FanoutBus)
        requires
            capacity >= 1,
        ensures
            b.wf(),
            b.history() == Seq::<Seq<char>>::empty(),
            b.capacity() == capacity as nat,
            !b.is_closed(),
    {
        FanoutBus {
            buf: Vec::new(),
            published: 0,
            capacity,
            closed: false,
            hist: Ghost(Seq::empty()),
        }
    }

    /// Publishes one item. Never waits on subscriber state: a full ring
    /// evicts its oldest item instead.
    pub fn publish(&mut self, item: String)
        requires
            old(self).wf(),
            !old(self).is_closed(),
            old(self).published() < u64::MAX as int,
        ensures
            final(self).wf(),
            final(self).history() == old(self).history().push(item@),
            final(self).capacity() == old(self).capacity(),
            !final(self).is_closed(),
    {
        let ghost itemv = item@;
        let ghost evicted = self.buf.len() == self.capacity;
        if self.buf.len() == self.capacity {
            self.buf.remove(0);
            proof {
                assert(self.buf@ =~= old(self).buf@.subrange(1, old(self).buf@.len() as int));
            }
        }
        self.buf.push(item);
        self.published = self.published + 1;
        proof {
            self.hist@ = self.hist@.push(itemv);
            assert forall|i: int| 0 <= i < self.buf@.len() implies #[trigger] self.buf@[i]@
                == self.hist@[self.retained_start() + i] by {
                if i < self.buf@.len() - 1 {
                    if evicted {
                        assert(self.buf@[i] == old(self).buf@[i + 1]);
                        assert(old(self).buf@[i + 1]@ == old(self).hist@[old(
                            self,
                        ).retained_start() + i + 1]);
                    } else {
                        assert(self.buf@[i] == old(self).buf@[i]);
                        assert(old(self).buf@[i]@ == old(self).hist@[old(self).retained_start()
                            + i]);
                    }
                }
            }
        }
    }

    /// Shuts the producer side down: every receive at the head now reports
    /// `Closed`.
    pub fn close(&mut self)
        requires
            old(self).wf(),
        ensures
            final(self).wf(),
            final(self).history() == old(self).history(),
            final(self).capacity() == old(self).capacity(),
            final(self).is_closed(),
    {
        self.closed = true;
    }

    /// Attaches a fresh subscriber positioned at "now": it sees no history
    /// from before it joined.
    pub fn subscribe(&self) -> (sub: Subscriber)
        requires
            self.wf(),
        ensures
            sub.cursor() == self.published(),
    {
        Subscriber { next: self.published }
    }

    /// One receive attempt for one subscriber. Only the subscriber's own
    /// cursor moves; the bus itself is untouched.
    pub fn receive(&self, sub: &mut Subscriber) -> (r: RecvOutcome)
        requires
            self.wf(),
            0 <= old(sub).cursor() <= self.published(),
        ensures
            final(sub).cursor() == self.next_cursor(old(sub).cursor()),
            match r {
                RecvOutcome::Delivered(s) => Some(s@) == self.delivery(old(sub).cursor()),
                RecvOutcome::Lagged(n) => old(sub).cursor() < self.retained_start() && n as int
                    == self.retained_start() - old(sub).cursor(),
                RecvOutcome::Pending => old(sub).cursor() == self.published()
                    && !self.is_closed(),
                RecvOutcome::Closed => old(sub).cursor() == self.published() && self.is_closed(),
            },
    {
        let oldest: u64 = self.published - self.buf.len() as u64;
        if sub.next < oldest {
            let missed = oldest - sub.next;
            sub.next = oldest;
            RecvOutcome::Lagged(missed)
        } else if sub.next < self.published {
            let idx: usize = (sub.next - oldest) as usize;
            let item = self.buf[idx].clone();
            sub.next = sub.next + 1;
            RecvOutcome::Delivered(item)
        } else if self.closed {
            RecvOutcome::Closed
        } else {
            RecvOutcome::Pending
        }
    }
}

/// Law (ordering under no lag): a subscriber whose cursor has not fallen out
/// of the retention window reads the published history itself, in publication
/// order: `k` receives starting at cursor `c` deliver exactly
/// `history[c .. c+k]`. A subscriber that joined before publishing began has
/// `c == 0` and so observes every published item in order.
pub proof fn lemma_ordering_no_lag(b: FanoutBus, c: int, k: nat)
    requires
        b.retained_start() <= c,
        c + k <= b.published(),
    ensures
        b.drain(c, k) == b.history().subrange(c, c + k),
    decreases k,
{
    if k == 0 {
        assert(b.drain(c, 0) =~= b.history().subrange(c, c));
    } else {
        lemma_ordering_no_lag(b, c + 1, (k - 1) as nat);
        assert(b.history().subrange(c, c + k) =~= seq![b.history()[c]] + b.history().subrange(
            c + 1,
            c + k,
        ));
    }
}

/// Law (head delivery): the newest published item is never evicted before a
/// caught-up subscriber can read it — a cursor at the head just before a
/// publish has the new item delivered by its next receive.
pub proof fn lemma_head_delivery(b: FanoutBus, c: int)
    requires
        b.capacity() >= 1,
        0 <= c,
        c == b.published() - 1,
    ensures
        b.delivery(c) == Some(b.history()[c]),
        b.next_cursor(c) == c + 1,
{
}

/// Law (loss under lag): a cursor that has fallen behind the retention window
/// is told exactly how many items it missed, delivers nothing for that
/// attempt, resumes at the oldest retained item, and the very next receive
/// delivers that oldest retained item.
pub proof fn lemma_lag_skips_to_oldest(b: FanoutBus, c: int)
    requires
        b.capacity() >= 1,
        0 <= c < b.retained_start(),
    ensures
        b.delivery(c) is None,
        b.next_cursor(c) == b.retained_start(),
        b.retained_start() < b.published(),
        b.delivery(b.retained_start()) == Some(b.history()[b.retained_start()]),
{
}

} // verus!

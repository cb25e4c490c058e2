//! A fixed-capacity ring buffer of timestamped events that keeps the most
//! recent `capacity` of them and finds the one closest to a timestamp.
use vstd::prelude::*;

verus! {

/// Distance between two timestamps.
pub open spec fn dist(a: u32, b: u32) -> int {
    if a >= b {
        a - b
    } else {
        b - a
    }
}

/// `|a - b|` (as `u32::abs_diff`).
pub fn abs_diff(a: u32, b: u32) -> (r: u32)
    ensures
        r == dist(a, b),
{
    if a >= b {
        a - b
    } else {
        b - a
    }
}

/// Ring buffer of `(timestamp, event)` pairs.
pub struct TrackingHistory<T> {
    buffer: Vec<Option<(u32, T)>>,
    head: usize,
    full: bool,
    capacity: usize,
    /// Every pair pushed so far, oldest first.
    pushed: Ghost<Seq<(u32, T)>>,
}

/// Slot `k` of the first `len` slots holds an entry closest to `ts`, at a
/// distance below `u32::MAX`, and no earlier slot holds one as close.
pub open spec fn is_closest_slot<T>(slots: Seq<Option<(u32, T)>>, len: int, ts: u32, k: int) -> bool {
    &&& 0 <= k < len
    &&& slots[k] is Some
    &&& dist(slots[k].unwrap().0, ts) < u32::MAX
    &&& forall|j: int|
        0 <= j < len && #[trigger] slots[j] is Some ==> dist(slots[j].unwrap().0, ts) >= dist(slots[k].unwrap().0, ts)
    &&& forall|j: int|
        0 <= j < k && #[trigger] slots[j] is Some ==> dist(slots[j].unwrap().0, ts) > dist(slots[k].unwrap().0, ts)
}

impl<T: Copy> TrackingHistory<T> {
    pub closed spec fn spec_capacity(&self) -> nat {
        self.capacity as nat
    }

    /// The buffer slots, in slot order.
    pub closed spec fn spec_slots(&self) -> Seq<Option<(u32, T)>> {
        self.buffer@
    }

    /// Number of slots in use.
    pub closed spec fn spec_len(&self) -> int {
        if self.full {
            self.capacity as int
        } else {
            self.head as int
        }
    }

    /// Every pair pushed so far, oldest first.
    pub closed spec fn spec_pushed(&self) -> Seq<(u32, T)> {
        self.pushed@
    }

    /// The `h`-th pushed pair is one of the most recent `capacity` pushed.
    pub open spec fn is_recent(&self, h: int) -> bool {
        0 <= h < self.spec_pushed().len() && h >= self.spec_pushed().len() - self.spec_capacity()
    }

    /// Slot of the `h`-th pushed pair.
    pub open spec fn slot_of(&self, h: int) -> int {
        h % (self.spec_capacity() as int)
    }

    /// The buffer has `capacity` slots; the pair pushed `h`-th sits in slot
    /// `h % capacity` until a later push reuses that slot; the slots in use
    /// are the first `min(pushed, capacity)`.
    pub closed spec fn wf(&self) -> bool {
        let n = self.pushed@.len() as int;
        let cap = self.capacity as int;
        &&& self.buffer@.len() == cap
        &&& cap > 0 ==> self.head as int == n % cap
        &&& cap == 0 ==> self.head == 0 && n == 0 && !self.full
        &&& self.full == (cap > 0 && n >= cap)
        &&& forall|h: int|
            #![trigger self.pushed@[h]]
            0 <= h < n && h >= n - cap ==> self.buffer@[h % cap] == Some(self.pushed@[h])
        &&& forall|s: int| 0 <= s < cap && s >= n ==> self.buffer@[s] is None
    }

    /// An empty history with room for `capacity` events.
    pub fn new(capacity: usize) -> (r: Self)
        ensures
            r.wf(),
            r.spec_capacity() == capacity,
            r.spec_pushed() == Seq::<(u32, T)>::empty(),
    {
        let mut buffer: Vec<Option<(u32, T)>> = Vec::new();
        let mut i: usize = 0;
        while i < capacity
            invariant
                i <= capacity,
                buffer@.len() == i,
                forall|s: int| 0 <= s < i ==> buffer@[s] is None,
            decreases capacity - i,
        {
            buffer.push(None);
            i = i + 1;
        }
        let r = Self { buffer, head: 0, full: false, capacity, pushed: Ghost(Seq::empty()) };
        proof {
            if capacity > 0 {
                assert(0int % (capacity as int) == 0) by (nonlinear_arith)
                    requires
                        capacity > 0,
                ;
            }
        }
        r
    }

    /// Records an event with its timestamp, replacing the oldest one when the
    /// buffer is full.
    pub fn push(&mut self, timestamp: u32, event: T)
        requires
            old(self).wf(),
            old(self).spec_capacity() > 0,
        ensures
            final(self).wf(),
            final(self).spec_capacity() == old(self).spec_capacity(),
            final(self).spec_pushed() == old(self).spec_pushed().push((timestamp, event)),
            final(self).spec_slots() == old(self).spec_slots().update(
                old(self).slot_of(old(self).spec_pushed().len() as int),
                Some((timestamp, event)),
            ),
    {
        let ghost n = self.pushed@.len() as int;
        let ghost cap = self.capacity as int;
        self.buffer.set(self.head, Some((timestamp, event)));
        self.head = (self.head + 1) % self.capacity;
        if self.head == 0 {
            self.full = true;
        }
        self.pushed = Ghost(self.pushed@.push((timestamp, event)));
        proof {
            let m = n + 1;
            assert(self.pushed@.len() == m);
            assert((n + 1) % cap == (n % cap + 1) % cap) by (nonlinear_arith)
                requires
                    cap > 0,
                    n >= 0,
            ;
            if n >= cap {
                assert(m >= cap);
            } else if m == cap {
                assert(n % cap == n) by (nonlinear_arith)
                    requires
                        0 <= n < cap,
                ;
                assert(cap % cap == 0) by (nonlinear_arith)
                    requires
                        cap > 0,
                ;
                assert(self.head == 0);
            } else {
                assert(n % cap == n) by (nonlinear_arith)
                    requires
                        0 <= n < cap,
                ;
                assert(m % cap == m) by (nonlinear_arith)
                    requires
                        0 <= m < cap,
                ;
            }
            assert forall|h: int|
                #![trigger self.pushed@[h]]
                0 <= h < m && h >= m - cap implies self.buffer@[h % cap] == Some(self.pushed@[h]) by {
                if h == n {
                } else {
                    assert(h % cap != n % cap) by (nonlinear_arith)
                        requires
                            cap > 0,
                            n - cap < h < n,
                    ;
                    assert(old(self).pushed@[h] == self.pushed@[h]);
                }
            }
            assert forall|s: int| 0 <= s < cap && s >= m implies self.buffer@[s] is None by {
                assert(n % cap == n) by (nonlinear_arith)
                    requires
                        0 <= n < cap,
                ;
            }
        }
    }

    /// The most recently pushed event with its timestamp, if any.
    pub fn latest(&self) -> (r: Option<(u32, T)>)
        requires
            self.wf(),
        ensures
            self.spec_pushed().len() == 0 ==> r is None,
            self.spec_pushed().len() > 0 ==> r == Some(self.spec_pushed().last()),
    {
        let ghost n = self.pushed@.len() as int;
        let ghost cap = self.capacity as int;
        if self.capacity == 0 || (!self.full && self.head == 0) {
            proof {
                if cap > 0 {
                    assert(n % cap == 0);
                    assert(n < cap);
                    assert(n == 0) by (nonlinear_arith)
                        requires
                            0 <= n < cap,
                            n % cap == 0,
                    ;
                }
            }
            return None;
        }
        let slot = if self.head == 0 {
            self.capacity - 1
        } else {
            self.head - 1
        };
        proof {
            assert(n > 0) by {
                if n == 0 {
                    assert(0int % cap == 0) by (nonlinear_arith)
                        requires
                            cap > 0,
                    ;
                }
            }
            assert((n - 1) % cap == slot) by (nonlinear_arith)
                requires
                    cap > 0,
                    n > 0,
                    self.head as int == n % cap,
                    slot == (if self.head == 0 { cap - 1 } else { self.head - 1 }),
            ;
            assert(self.buffer@[(n - 1) % cap] == Some(self.pushed@[n - 1]));
        }
        self.buffer[slot]
    }

    /// The event whose timestamp is closest to `timestamp`, the first in slot
    /// order among equally close ones; `None` when no event is stored, or when
    /// every stored one is `u32::MAX` away. Only the most recent `capacity`
    /// pushed events are searched: an evicted one is never returned.
    pub fn get_closest(&self, timestamp: u32) -> (r: Option<T>)
        requires
            self.wf(),
        ensures
            match r {
                Some(e) => exists|k: int|
                    is_closest_slot(self.spec_slots(), self.spec_len(), timestamp, k)
                        && self.spec_slots()[k].unwrap().1 == e,
                None => !exists|k: int| is_closest_slot(self.spec_slots(), self.spec_len(), timestamp, k),
            },
            self.spec_pushed().len() == 0 ==> r is None,
            r is None <==> forall|h: int|
                self.is_recent(h) ==> dist(#[trigger] self.spec_pushed()[h].0, timestamp) >= u32::MAX,
            r matches Some(e) ==> exists|h: int|
                #![trigger self.spec_pushed()[h]]
                self.is_recent(h) && self.spec_pushed()[h].1 == e && forall|h2: int|
                    self.is_recent(h2) ==> dist(self.spec_pushed()[h].0, timestamp) <= dist(
                        #[trigger] self.spec_pushed()[h2].0,
                        timestamp,
                    ),
    {
        let len = if self.full {
            self.capacity
        } else {
            self.head
        };
        let mut best: Option<T> = None;
        let mut best_diff: u32 = u32::MAX;
        let ghost mut best_k: int = -1;
        let mut i: usize = 0;
        while i < len
            invariant
                self.wf(),
                len == self.spec_len(),
                len <= self.buffer@.len(),
                i <= len,
                best is None ==> best_diff == u32::MAX && forall|j: int|
                    0 <= j < i && #[trigger] self.buffer@[j] is Some ==> dist(self.buffer@[j].unwrap().0, timestamp)
                        >= u32::MAX,
                best is Some ==> {
                    &&& 0 <= best_k < i
                    &&& self.buffer@[best_k] is Some
                    &&& best == Some(self.buffer@[best_k].unwrap().1)
                    &&& best_diff == dist(self.buffer@[best_k].unwrap().0, timestamp)
                    &&& best_diff < u32::MAX
                    &&& forall|j: int|
                        0 <= j < i && #[trigger] self.buffer@[j] is Some ==> dist(
                            self.buffer@[j].unwrap().0,
                            timestamp,
                        ) >= best_diff
                    &&& forall|j: int|
                        0 <= j < best_k && #[trigger] self.buffer@[j] is Some ==> dist(
                            self.buffer@[j].unwrap().0,
                            timestamp,
                        ) > best_diff
                },
            decreases len - i,
        {
            if let Some(ev) = self.buffer[i] {
                let diff = abs_diff(ev.0, timestamp);
                if diff < best_diff {
                    best_diff = diff;
                    best = Some(ev.1);
                    proof {
                        best_k = i as int;
                    }
                }
            }
            i = i + 1;
        }
        proof {
            lemma_keeps_most_recent(*self);
            if best is Some {
                assert(is_closest_slot(self.buffer@, len as int, timestamp, best_k));
                assert(self.spec_slots()[best_k].unwrap().1 == best.unwrap());
                assert(self.holds_recent(best_k));
                let h = choose|h: int|
                    0 <= h < self.spec_pushed().len() && h >= self.spec_pushed().len() - self.spec_capacity()
                        && self.spec_slots()[best_k] == Some(self.spec_pushed()[h]);
                assert(self.is_recent(h));
                assert forall|h2: int| self.is_recent(h2) implies dist(self.spec_pushed()[h].0, timestamp) <= dist(
                    #[trigger] self.spec_pushed()[h2].0,
                    timestamp,
                ) by {
                    assert(self.holds(self.spec_pushed()[h2]));
                    let s2 = choose|s: int| 0 <= s < self.spec_len() && self.spec_slots()[s] == Some(self.spec_pushed()[h2]);
                    assert(self.buffer@[s2] is Some);
                }
                assert(dist(self.spec_pushed()[h].0, timestamp) < u32::MAX);
            } else {
                assert forall|h: int| self.is_recent(h) implies dist(#[trigger] self.spec_pushed()[h].0, timestamp) >= u32::MAX by {
                    assert(self.holds(self.spec_pushed()[h]));
                    let s2 = choose|s: int| 0 <= s < self.spec_len() && self.spec_slots()[s] == Some(self.spec_pushed()[h]);
                    assert(self.buffer@[s2] is Some);
                }
                assert forall|k: int| !is_closest_slot(self.buffer@, len as int, timestamp, k) by {
                    if 0 <= k < len && self.buffer@[k] is Some {
                        assert(dist(self.buffer@[k].unwrap().0, timestamp) >= u32::MAX);
                    }
                }
            }
        }
        best
    }
}

proof fn lemma_len<T: Copy>(x: TrackingHistory<T>)
    requires
        x.wf(),
    ensures
        x.spec_len() == if x.pushed@.len() >= x.capacity { x.capacity as int } else { x.pushed@.len() as int },
{
    let n = x.pushed@.len() as int;
    let cap = x.capacity as int;
    if cap > 0 && n < cap {
        assert(n % cap == n) by (nonlinear_arith)
            requires
                0 <= n < cap,
        ;
    }
}

impl<T: Copy> TrackingHistory<T> {
    /// `e` is held in a slot in use.
    pub open spec fn holds(&self, e: (u32, T)) -> bool {
        exists|s: int| 0 <= s < self.spec_len() && self.spec_slots()[s] == Some(e)
    }

    /// Slot `s` holds one of the most recent `capacity` pushed events.
    pub open spec fn holds_recent(&self, s: int) -> bool {
        exists|h: int|
            0 <= h < self.spec_pushed().len() && h >= self.spec_pushed().len() - self.spec_capacity()
                && self.spec_slots()[s] == Some(self.spec_pushed()[h])
    }
}

/// The history holds exactly the most recent `min(pushed, capacity)` pushed
/// events: each of them is in a slot in use, and each slot in use holds one
/// of them.
pub proof fn lemma_keeps_most_recent<T: Copy>(x: TrackingHistory<T>)
    requires
        x.wf(),
    ensures
        forall|h: int|
            0 <= h < x.spec_pushed().len() && h >= x.spec_pushed().len() - x.spec_capacity() ==> x.holds(
                #[trigger] x.spec_pushed()[h],
            ),
        forall|s: int| 0 <= s < x.spec_len() ==> #[trigger] x.holds_recent(s),
{
    let n = x.pushed@.len() as int;
    let cap = x.capacity as int;
    lemma_len(x);
    assert forall|h: int|
        0 <= h < x.spec_pushed().len() && h >= x.spec_pushed().len() - x.spec_capacity() implies x.holds(
        #[trigger] x.spec_pushed()[h],
    ) by {
        assert(cap > 0);
        let s = h % cap;
        assert(0 <= s < cap) by (nonlinear_arith)
            requires
                cap > 0,
                s == h % cap,
        ;
        if n < cap {
            assert(s == h) by (nonlinear_arith)
                requires
                    0 <= h < cap,
                    s == h % cap,
            ;
        }
        assert(x.buffer@[s] == Some(x.pushed@[h]));
        assert(0 <= s < x.spec_len() && x.spec_slots()[s] == Some(x.spec_pushed()[h]));
    }
    assert forall|s: int| 0 <= s < x.spec_len() implies #[trigger] x.holds_recent(s) by {
        // the last push that landed in slot s
        assert(cap > 0);
        let h = if n <= cap {
            s
        } else {
            n - 1 - ((n - 1 - s) % cap)
        };
        if n > cap {
            assert(0 <= (n - 1 - s) % cap < cap) by (nonlinear_arith)
                requires
                    cap > 0,
                    n - 1 - s >= 0,
            ;
            assert(h % cap == s) by (nonlinear_arith)
                requires
                    cap > 0,
                    0 <= s < cap,
                    n - 1 >= s,
                    h == n - 1 - ((n - 1 - s) % cap),
            ;
        } else {
            assert(h % cap == s) by (nonlinear_arith)
                requires
                    0 <= s < cap,
                    h == s,
            ;
        }
        assert(x.buffer@[h % cap] == Some(x.pushed@[h]));
        assert(0 <= h < n && h >= n - cap && x.spec_slots()[s] == Some(x.spec_pushed()[h]));
    }
}

/// The most recently pushed event's timestamp always finds an event with
/// exactly that timestamp: `get_closest` of it returns a closest event at
/// distance zero.
pub proof fn lemma_latest_timestamp_found<T: Copy>(x: TrackingHistory<T>)
    requires
        x.wf(),
        x.spec_capacity() > 0,
        x.spec_pushed().len() > 0,
    ensures
        exists|k: int|
            is_closest_slot(x.spec_slots(), x.spec_len(), x.spec_pushed().last().0, k)
                && x.spec_slots()[k].unwrap().0 == x.spec_pushed().last().0,
{
    let n = x.pushed@.len() as int;
    let ts = x.pushed@.last().0;
    lemma_keeps_most_recent(x);
    assert(x.spec_pushed()[n - 1] == x.pushed@.last());
    assert(x.holds(x.spec_pushed()[n - 1]));
    let s0 = choose|s: int| 0 <= s < x.spec_len() && x.spec_slots()[s] == Some(x.spec_pushed()[n - 1]);
    lemma_exact_timestamp_closest(x.spec_slots(), x.spec_len(), ts, s0);
}

/// When some slot in use holds an event with timestamp `ts`, the first such
/// slot is the closest slot for `ts`.
proof fn lemma_exact_timestamp_closest<T>(slots: Seq<Option<(u32, T)>>, len: int, ts: u32, s0: int)
    requires
        0 <= s0 < len <= slots.len(),
        slots[s0] is Some,
        slots[s0].unwrap().0 == ts,
    ensures
        exists|k: int| is_closest_slot(slots, len, ts, k) && slots[k].unwrap().0 == ts,
{
    let p = |o: Option<(u32, T)>| o is Some && o.unwrap().0 == ts;
    let within = slots.take(len);
    assert(within[s0] == slots[s0]);
    crate::seqs::lemma_has_first(within, p, s0);
    let k = choose|k: int| crate::seqs::is_first(within, p, k);
    assert(within[k] == slots[k]);
    assert forall|j: int| 0 <= j < k && #[trigger] slots[j] is Some implies dist(slots[j].unwrap().0, ts) > dist(
        slots[k].unwrap().0,
        ts,
    ) by {
        assert(within[j] == slots[j]);
        assert(!p(within[j]));
    }
    assert(is_closest_slot(slots, len, ts, k));
}

} // verus!

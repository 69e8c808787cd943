use vstd::prelude::*;

verus! {

/// Number of observations each instrument keeps.
pub const WINDOW_CAPACITY: usize = 100;

/// One generated observation: price in price units, a synthetic volume,
/// and the time it was taken in milliseconds since the Unix epoch.
#[derive(Clone, Copy, Debug, PartialEq, Eq, Structural)]
pub struct PricePoint {
    pub price: u64,
    pub volume: u64,
    pub timestamp_ms: i64,
}

/// The most recent `cap` entries of `s` (all of them if there are fewer).
pub open spec fn keep_last<T>(s: Seq<T>, cap: int) -> Seq<T> {
    if s.len() > cap {
        s.subrange(s.len() - cap, s.len() as int)
    } else {
        s
    }
}

/// The contents of a window of capacity `cap` holding `start` after each of
/// `inputs` has been appended in turn.
pub open spec fn after_appends<T>(start: Seq<T>, inputs: Seq<T>, cap: int) -> Seq<T>
    decreases inputs.len(),
{
    if inputs.len() == 0 {
        start
    } else {
        keep_last(after_appends(start, inputs.drop_last(), cap).push(inputs.last()), cap)
    }
}

proof fn lemma_keep_last_push<T>(t: Seq<T>, x: T, cap: int)
    requires
        cap > 0,
    ensures
        keep_last(keep_last(t, cap).push(x), cap) == keep_last(t.push(x), cap),
{
    if t.len() > cap {
        assert(keep_last(keep_last(t, cap).push(x), cap) =~= keep_last(t.push(x), cap));
    } else {
        assert(keep_last(t, cap) == t);
    }
}

/// Appending any inputs one at a time to a bounded window leaves exactly the
/// most recent `cap` of everything it has seen, in the order they arrived.
pub proof fn lemma_window_keeps_most_recent<T>(start: Seq<T>, inputs: Seq<T>, cap: int)
    requires
        cap > 0,
        start.len() <= cap,
    ensures
        after_appends(start, inputs, cap) == keep_last(start + inputs, cap),
        after_appends(start, inputs, cap).len() == if start.len() + inputs.len() > cap {
            cap
        } else {
            (start.len() + inputs.len()) as int
        },
    decreases inputs.len(),
{
    if inputs.len() == 0 {
        assert(start + inputs =~= start);
    } else {
        let prefix = inputs.drop_last();
        lemma_window_keeps_most_recent(start, prefix, cap);
        lemma_keep_last_push(start + prefix, inputs.last(), cap);
        assert((start + prefix).push(inputs.last()) =~= start + inputs);
    }
}

/// Appending `cap + 1` inputs to an empty window of capacity `cap` leaves
/// exactly the last `cap` inputs, in order.
pub proof fn lemma_overfull_window_drops_oldest<T>(inputs: Seq<T>, cap: int)
    requires
        cap > 0,
        inputs.len() == cap + 1,
    ensures
        after_appends(Seq::<T>::empty(), inputs, cap) == inputs.subrange(1, cap + 1),
{
    lemma_window_keeps_most_recent(Seq::<T>::empty(), inputs, cap);
    assert(Seq::<T>::empty() + inputs =~= inputs);
}

/// A bounded, chronologically ordered history of observations: once full,
/// each new observation evicts the oldest.
pub struct RollingWindow {
    points: Vec<PricePoint>,
    capacity: usize,
}

impl View for RollingWindow {
    type V = Seq<PricePoint>;

    closed spec fn view(&self) -> Seq<PricePoint> {
        self.points@
    }
}

impl RollingWindow {
    /// Most observations the window holds.
    pub closed spec fn cap(&self) -> int {
        self.capacity as int
    }

    pub closed spec fn wf(&self) -> bool {
        0 < self.capacity && self.points@.len() <= self.capacity
    }

    /// An empty window holding at most `capacity` observations.
    pub fn new(capacity: usize) -> (r: Self)
        requires
            capacity > 0,
        ensures
            r.wf(),
            r@ == Seq::<PricePoint>::empty(),
            r.cap() == capacity,
    {
        RollingWindow { points: Vec::new(), capacity }
    }

    pub fn capacity(&self) -> (r: usize)
        ensures
            r == self.cap(),
    {
        self.capacity
    }

    pub fn len(&self) -> (r: usize)
        requires
            self.wf(),
        ensures
            r == self@.len(),
            r <= self.cap(),
    {
        self.points.len()
    }

    /// Appends `point`, evicting the oldest observation once the window
    /// would exceed its capacity.
    pub fn push(&mut self, point: PricePoint)
        requires
            old(self).wf(),
        ensures
            final(self).wf(),
            final(self).cap() == old(self).cap(),
            final(self)@ == keep_last(old(self)@.push(point), old(self).cap()),
    {
        self.points.push(point);
        if self.points.len() > self.capacity {
            self.points.remove(0);
            assert(self.points@ =~= keep_last(old(self)@.push(point), old(self).cap()));
        }
    }

    /// The prices of the held observations, oldest first.
    pub fn prices(&self) -> (r: Vec<u64>)
        requires
            self.wf(),
        ensures
            r@.len() == self@.len(),
            forall|i: int| 0 <= i < r@.len() ==> r@[i] == self@[i].price,
    {
        let mut out: Vec<u64> = Vec::new();
        let mut i: usize = 0;
        while i < self.points.len()
            invariant
                i <= self.points@.len(),
                out@.len() == i,
                forall|j: int| 0 <= j < i ==> out@[j] == self.points@[j].price,
            decreases self.points@.len() - i,
        {
            out.push(self.points[i].price);
            i = i + 1;
        }
        out
    }

    /// The newest observation, if any.
    pub fn latest(&self) -> (r: Option<PricePoint>)
        ensures
            r == (if self@.len() == 0 {
                None
            } else {
                Some(self@.last())
            }),
    {
        if self.points.len() == 0 {
            None
        } else {
            Some(self.points[self.points.len() - 1])
        }
    }
}

} // verus!

//! Sample-accurate event scheduling.
use vstd::prelude::*;

verus! {

/// Absolute sample position on the timeline.
pub type SamplePosition = u64;

/// An event together with the sample position at which it is due.
#[derive(Debug, Clone)]
pub struct ScheduledEvent<T> {
    /// The sample position at which the event triggers.
    pub position: SamplePosition,
    /// The event data.
    pub data: T,
}

impl<T> ScheduledEvent<T> {
    /// Creates a scheduled event.
    pub fn new(position: SamplePosition, data: T) -> (r: Self)
        ensures
            r.position == position,
            r.data == data,
    {
        ScheduledEvent { position, data }
    }
}

/// Events are ordered by position: no event precedes one with a smaller position.
pub open spec fn sorted_by_position<T>(s: Seq<(u64, T)>) -> bool {
    forall|i: int, j: int| 0 <= i < j < s.len() ==> s[i].0 <= s[j].0
}

/// The events of `s` whose position lies in `[lo, hi)`, in the order of `s`.
pub open spec fn window<T>(s: Seq<(u64, T)>, lo: int, hi: int) -> Seq<(u64, T)>
    decreases s.len(),
{
    if s.len() == 0 {
        Seq::empty()
    } else {
        let rest = window(s.drop_last(), lo, hi);
        let last = s.last();
        if lo <= last.0 && last.0 < hi {
            rest.push(last)
        } else {
            rest
        }
    }
}

/// `after` is `before` with `(position, event)` inserted behind every event
/// at or before `position` and ahead of every later one.
pub open spec fn inserted_after_equals<T>(
    before: Seq<(u64, T)>,
    after: Seq<(u64, T)>,
    position: u64,
    event: T,
) -> bool {
    exists|k: int|
        0 <= k <= before.len() && after == #[trigger] before.insert(k, (position, event)) && (forall|
            j: int,
        | 0 <= j < k ==> before[j].0 <= position) && (forall|j: int|
            k <= j < before.len() ==> before[j].0 > position)
}

/// The positions one past every `u64`: the upper bound of an unbounded window.
pub open spec fn end_of_time() -> int {
    u64::MAX as int + 1
}

/// Holds events stamped with sample positions and answers windowed queries.
///
/// Events are kept ordered by position; events at one position keep the
/// order in which they were scheduled. The position cursor is a timing hint
/// for relative scheduling.
pub struct Scheduler<T> {
    events: Vec<(SamplePosition, T)>,
    current_position: SamplePosition,
}

impl<T> View for Scheduler<T> {
    type V = Seq<(u64, T)>;

    /// The scheduled events, ordered by position and then by scheduling order.
    closed spec fn view(&self) -> Seq<(u64, T)> {
        self.events@
    }
}

impl<T> Scheduler<T> {
    /// Well-formedness: the events are ordered by position.
    pub open spec fn wf(&self) -> bool {
        sorted_by_position(self@)
    }

    /// The position cursor.
    pub closed spec fn spec_position(&self) -> u64 {
        self.current_position
    }

    /// Creates a scheduler with no events, positioned at zero.
    pub fn new() -> (r: Self)
        ensures
            r.wf(),
            r@ == Seq::<(u64, T)>::empty(),
            r.spec_position() == 0,
    {
        Scheduler { events: Vec::new(), current_position: 0 }
    }

    /// Returns the position cursor.
    pub fn position(&self) -> (r: SamplePosition)
        ensures
            r == self.spec_position(),
    {
        self.current_position
    }

    /// Moves the position cursor to `position`.
    pub fn set_position(&mut self, position: SamplePosition)
        ensures
            final(self).spec_position() == position,
            final(self)@ == old(self)@,
            final(self).wf() == old(self).wf(),
    {
        self.current_position = position;
    }

    /// Advances the position cursor by `samples`, wrapping around at the end
    /// of the `u64` range.
    pub fn advance(&mut self, samples: u64)
        ensures
            final(self).spec_position() == (old(self).spec_position() + samples) % (u64::MAX as int
                + 1),
            final(self)@ == old(self)@,
            final(self).wf() == old(self).wf(),
    {
        self.current_position = self.current_position.wrapping_add(samples);
    }

    /// Schedules `event` at `position`, behind the events already there.
    pub fn schedule(&mut self, position: SamplePosition, event: T)
        requires
            old(self).wf(),
        ensures
            final(self).wf(),
            final(self).spec_position() == old(self).spec_position(),
            inserted_after_equals(old(self)@, final(self)@, position, event),
    {
        let ghost before = self@;
        let k = self.first_index(position, true);
        self.events.insert(k, (position, event));
        proof {
            let s = self.events@;
            assert(s == before.insert(k as int, (position, event)));
            assert forall|i: int, j: int| 0 <= i < j < s.len() implies s[i].0 <= s[j].0 by {
                if j < k {
                } else if j == k {
                } else if i == k {
                } else if i < k {
                    assert(s[j] == before[j - 1]);
                } else {
                    assert(s[i] == before[i - 1]);
                    assert(s[j] == before[j - 1]);
                }
            }
        }
    }

    /// Schedules `event` at `offset` samples past the position cursor.
    pub fn schedule_relative(&mut self, offset: u64, event: T)
        requires
            old(self).wf(),
            old(self).spec_position() + offset <= u64::MAX,
        ensures
            final(self).wf(),
            final(self).spec_position() == old(self).spec_position(),
            inserted_after_equals(
                old(self)@,
                final(self)@,
                (old(self).spec_position() + offset) as u64,
                event,
            ),
    {
        let position = self.position() + offset;
        self.schedule(position, event);
    }

    /// Returns the first index whose event lies after `position` (`strict`)
    /// or at or after it (otherwise), by binary search.
    fn first_index(&self, position: u64, strict: bool) -> (r: usize)
        requires
            self.wf(),
        ensures
            r <= self@.len(),
            forall|j: int|
                0 <= j < r ==> if strict {
                    self@[j].0 <= position
                } else {
                    self@[j].0 < position
                },
            forall|j: int|
                r <= j < self@.len() ==> if strict {
                    self@[j].0 > position
                } else {
                    self@[j].0 >= position
                },
    {
        let mut lo: usize = 0;
        let mut hi: usize = self.events.len();
        while lo < hi
            invariant
                self.wf(),
                lo <= hi <= self.events@.len(),
                forall|j: int|
                    0 <= j < lo ==> if strict {
                        self.events@[j].0 <= position
                    } else {
                        self.events@[j].0 < position
                    },
                forall|j: int|
                    hi <= j < self.events@.len() ==> if strict {
                        self.events@[j].0 > position
                    } else {
                        self.events@[j].0 >= position
                    },
            decreases hi - lo,
        {
            let mid = lo + (hi - lo) / 2;
            let p = self.events[mid].0;
            let after = if strict {
                p > position
            } else {
                p >= position
            };
            if after {
                hi = mid;
            } else {
                lo = mid + 1;
            }
        }
        lo
    }

    /// Returns the index range of the events with a position in
    /// `[start, end)`, by binary search and without allocating: the
    /// real-time thread reads them with `event_at`.
    pub fn range_bounds(&self, start: SamplePosition, end: SamplePosition) -> (r: (usize, usize))
        requires
            self.wf(),
        ensures
            r.0 <= r.1 <= self@.len(),
            self@.subrange(r.0 as int, r.1 as int) == window(self@, start as int, end as int),
    {
        let a = self.first_index(start, false);
        let b0 = self.first_index(end, false);
        let b = if b0 < a {
            a
        } else {
            b0
        };
        proof {
            let s = self@;
            let lo = start as int;
            let hi = end as int;
            let front = s.take(a as int);
            let mid = s.subrange(a as int, b as int);
            let back = s.skip(b as int);
            assert(s =~= front + mid + back);
            lemma_window_concat(front + mid, back, lo, hi);
            lemma_window_concat(front, mid, lo, hi);
            assert forall|j: int| 0 <= j < front.len() implies !(lo <= #[trigger] front[j].0 < hi) by {
                assert(front[j] == s[j]);
            }
            lemma_window_none(front, lo, hi);
            assert forall|j: int| 0 <= j < mid.len() implies lo <= #[trigger] mid[j].0 < hi by {
                assert(mid[j] == s[a + j]);
            }
            lemma_window_all(mid, lo, hi);
            assert forall|j: int| 0 <= j < back.len() implies !(lo <= #[trigger] back[j].0 < hi) by {
                assert(back[j] == s[b + j]);
            }
            lemma_window_none(back, lo, hi);
            assert(Seq::<(u64, T)>::empty() + mid + Seq::<(u64, T)>::empty() =~= mid);
        }
        (a, b)
    }

    /// Returns the position and data of the event at index `i`.
    pub fn event_at(&self, i: usize) -> (r: (SamplePosition, &T))
        requires
            i < self@.len(),
        ensures
            r.0 == self@[i as int].0,
            *r.1 == self@[i as int].1,
    {
        let entry = &self.events[i];
        (entry.0, &entry.1)
    }

    /// Returns the events with a position in `[start, end)`, ordered by
    /// position and then by scheduling order.
    pub fn events_in_range(&self, start: SamplePosition, end: SamplePosition) -> (r: Vec<
        (SamplePosition, &T),
    >)
        requires
            self.wf(),
        ensures
            r@.len() == window(self@, start as int, end as int).len(),
            forall|i: int|
                0 <= i < r@.len() ==> r@[i].0 == window(self@, start as int, end as int)[i].0
                    && *r@[i].1 == window(self@, start as int, end as int)[i].1,
    {
        let (lo, hi) = self.range_bounds(start, end);
        let ghost w = window(self@, start as int, end as int);
        let mut r: Vec<(SamplePosition, &T)> = Vec::new();
        let mut i = lo;
        while i < hi
            invariant
                lo <= i <= hi <= self.events@.len(),
                self.events@.subrange(lo as int, hi as int) == w,
                r@.len() == i - lo,
                forall|j: int| 0 <= j < r@.len() ==> r@[j].0 == w[j].0 && *r@[j].1 == w[j].1,
            decreases hi - i,
        {
            let entry = &self.events[i];
            proof {
                assert(w[i - lo] == self.events@[i as int]);
            }
            r.push((entry.0, &entry.1));
            i = i + 1;
        }
        r
    }

    /// Removes and returns, ordered as in a range query, every event with a
    /// position before `position`.
    pub fn drain_before(&mut self, position: SamplePosition) -> (r: Vec<(SamplePosition, T)>)
        requires
            old(self).wf(),
        ensures
            final(self).wf(),
            final(self).spec_position() == old(self).spec_position(),
            r@ == window(old(self)@, 0, position as int),
            final(self)@ == window(old(self)@, position as int, end_of_time()),
    {
        let ghost before = self@;
        let k = self.first_index(position, false);
        let mut drained = self.events.split_off(k);
        std::mem::swap(&mut self.events, &mut drained);
        proof {
            let front = before.take(k as int);
            let back = before.skip(k as int);
            assert(before =~= front + back);
            lemma_window_concat(front, back, 0, position as int);
            lemma_window_concat(front, back, position as int, end_of_time());
            lemma_window_all(front, 0, position as int);
            lemma_window_none(back, 0, position as int);
            lemma_window_none(front, position as int, end_of_time());
            lemma_window_all(back, position as int, end_of_time());
            assert(drained@ =~= front);
            assert(self.events@ =~= back);
            assert(window(before, 0, position as int) =~= front);
            assert(window(before, position as int, end_of_time()) =~= back);
        }
        drained
    }

    /// Removes every event.
    pub fn clear(&mut self)
        ensures
            final(self).wf(),
            final(self)@ == Seq::<(u64, T)>::empty(),
            final(self).spec_position() == old(self).spec_position(),
    {
        self.events.clear();
    }

    /// Returns the number of scheduled events.
    pub fn len(&self) -> (r: usize)
        ensures
            r == self@.len(),
    {
        self.events.len()
    }

    /// Returns true if no event is scheduled.
    pub fn is_empty(&self) -> (r: bool)
        ensures
            r == (self@.len() == 0),
    {
        self.events.len() == 0
    }
}

impl<T> Default for Scheduler<T> {
    fn default() -> (r: Self)
        ensures
            r.wf(),
            r@ == Seq::<(u64, T)>::empty(),
            r.spec_position() == 0,
    {
        Self::new()
    }
}

/// A window of two joined sequences is the join of their windows.
pub proof fn lemma_window_concat<T>(a: Seq<(u64, T)>, b: Seq<(u64, T)>, lo: int, hi: int)
    ensures
        window(a + b, lo, hi) == window(a, lo, hi) + window(b, lo, hi),
    decreases b.len(),
{
    if b.len() == 0 {
        assert(a + b =~= a);
        assert(window(b, lo, hi) =~= Seq::<(u64, T)>::empty());
        assert(window(a, lo, hi) + window(b, lo, hi) =~= window(a, lo, hi));
    } else {
        assert((a + b).drop_last() =~= a + b.drop_last());
        assert((a + b).last() == b.last());
        lemma_window_concat(a, b.drop_last(), lo, hi);
        let wa = window(a, lo, hi);
        let wb = window(b.drop_last(), lo, hi);
        assert((wa + wb).push(b.last()) =~= wa + wb.push(b.last()));
    }
}

/// A window that every event falls in keeps the whole sequence.
pub proof fn lemma_window_all<T>(s: Seq<(u64, T)>, lo: int, hi: int)
    requires
        forall|j: int| 0 <= j < s.len() ==> lo <= #[trigger] s[j].0 < hi,
    ensures
        window(s, lo, hi) == s,
    decreases s.len(),
{
    if s.len() == 0 {
        assert(window(s, lo, hi) =~= s);
    } else {
        lemma_window_all(s.drop_last(), lo, hi);
        assert(s.drop_last().push(s.last()) =~= s);
    }
}

/// A window that no event falls in is empty.
pub proof fn lemma_window_none<T>(s: Seq<(u64, T)>, lo: int, hi: int)
    requires
        forall|j: int| 0 <= j < s.len() ==> !(lo <= #[trigger] s[j].0 < hi),
    ensures
        window(s, lo, hi) == Seq::<(u64, T)>::empty(),
    decreases s.len(),
{
    if s.len() == 0 {
        assert(window(s, lo, hi) =~= Seq::<(u64, T)>::empty());
    } else {
        lemma_window_none(s.drop_last(), lo, hi);
    }
}

/// Events at one position come out of a query in the order they were
/// scheduled: after scheduling `event` at `position`, the events at that
/// position are those there before, followed by `event`.
pub proof fn lemma_same_position_in_order<T>(
    before: Seq<(u64, T)>,
    after: Seq<(u64, T)>,
    position: u64,
    event: T,
)
    requires
        inserted_after_equals(before, after, position, event),
    ensures
        window(after, position as int, position + 1) == window(before, position as int, position
            + 1).push((position, event)),
{
    let k = choose|k: int|
        0 <= k <= before.len() && after == #[trigger] before.insert(k, (position, event)) && (forall|
            j: int,
        | 0 <= j < k ==> before[j].0 <= position) && (forall|j: int|
            k <= j < before.len() ==> before[j].0 > position);
    let lo = position as int;
    let hi = position + 1;
    let front = before.take(k);
    let back = before.skip(k);
    let x = seq![(position, event)];
    assert(before =~= front + back);
    assert(after =~= (front + x) + back);
    lemma_window_concat(front, back, lo, hi);
    lemma_window_concat(front + x, back, lo, hi);
    lemma_window_concat(front, x, lo, hi);
    assert forall|j: int| 0 <= j < back.len() implies !(lo <= #[trigger] back[j].0 < hi) by {
        assert(back[j] == before[k + j]);
    }
    lemma_window_none(back, lo, hi);
    lemma_window_all(x, lo, hi);
    assert(window(front, lo, hi) + x =~= window(front, lo, hi).push((position, event)));
    assert(window(front, lo, hi) + Seq::<(u64, T)>::empty() =~= window(front, lo, hi));
    assert(window(front, lo, hi) + x + Seq::<(u64, T)>::empty() =~= window(front, lo, hi) + x);
}

/// Draining loses nothing: on events ordered by position, the events
/// before `position` followed by those from `position` on are all events,
/// in their order.
pub proof fn lemma_drain_partitions<T>(s: Seq<(u64, T)>, position: u64)
    requires
        sorted_by_position(s),
    ensures
        window(s, 0, position as int) + window(s, position as int, end_of_time()) == s,
{
    let k = choose_split(s, position);
    let front = s.take(k);
    let back = s.skip(k);
    assert(s =~= front + back);
    lemma_window_concat(front, back, 0, position as int);
    lemma_window_concat(front, back, position as int, end_of_time());
    assert forall|j: int| 0 <= j < front.len() implies 0 <= #[trigger] front[j].0 < position by {
        assert(front[j] == s[j]);
    }
    assert forall|j: int| 0 <= j < back.len() implies !(0 <= #[trigger] back[j].0 < position) by {
        assert(back[j] == s[k + j]);
    }
    lemma_window_all(front, 0, position as int);
    lemma_window_none(back, 0, position as int);
    assert forall|j: int| 0 <= j < front.len() implies !(position <= #[trigger] front[j].0
        < end_of_time()) by {
        assert(front[j] == s[j]);
    }
    assert forall|j: int| 0 <= j < back.len() implies position <= #[trigger] back[j].0
        < end_of_time() by {
        assert(back[j] == s[k + j]);
    }
    lemma_window_none(front, position as int, end_of_time());
    lemma_window_all(back, position as int, end_of_time());
    assert(front + Seq::<(u64, T)>::empty() =~= front);
    assert(Seq::<(u64, T)>::empty() + back =~= back);
}

/// The number of events before `position` in events ordered by position.
proof fn choose_split<T>(s: Seq<(u64, T)>, position: u64) -> (k: int)
    requires
        sorted_by_position(s),
    ensures
        0 <= k <= s.len(),
        forall|j: int| 0 <= j < k ==> s[j].0 < position,
        forall|j: int| k <= j < s.len() ==> s[j].0 >= position,
    decreases s.len(),
{
    if s.len() == 0 {
        0
    } else if s.last().0 < position {
        s.len() as int
    } else {
        let k = choose_split(s.drop_last(), position);
        assert forall|j: int| 0 <= j < k implies s[j].0 < position by {
            assert(s[j] == s.drop_last()[j]);
        }
        assert forall|j: int| k <= j < s.len() implies s[j].0 >= position by {
            if j < s.len() - 1 {
                assert(s[j] == s.drop_last()[j]);
            }
        }
        k
    }
}

/// Kinds of interpolation between automation points.
#[derive(Debug, Clone, Copy, PartialEq, Eq, Structural)]
pub enum AutomationCurve {
    /// Instant jump to the value.
    Step,
    /// Linear interpolation.
    Linear,
    /// Exponential curve, suited to volume and frequency.
    Exponential,
    /// S-curve for smooth transitions.
    SCurve,
}

impl Default for AutomationCurve {
    fn default() -> (r: AutomationCurve)
        ensures
            r == AutomationCurve::Step,
    {
        AutomationCurve::Step
    }
}

} // verus!

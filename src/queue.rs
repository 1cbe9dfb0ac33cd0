//! Bounded single-producer single-consumer ring buffer.
use vstd::prelude::*;
use vstd::arithmetic::power2::{pow2, lemma_pow2_unfold};
use crate::error::Error;

verus! {

/// `n` is a power of two.
pub open spec fn is_power_of_two(n: int) -> bool {
    exists|e: nat| pow2(e) == n
}

/// The capacity that a request for `n` slots is rounded up to: the smallest
/// power of two that is at least `n`.
pub open spec fn rounded_capacity(n: int, c: int) -> bool {
    &&& is_power_of_two(c)
    &&& c >= n
    &&& (c == 1 || c / 2 < n)
}

/// Ring buffer that hands items from one producer to one consumer in order.
///
/// The producer owns the write cursor `head`, the consumer the read cursor
/// `tail`; both are slot indices below the capacity, and `count` is the
/// number of items in flight. No operation blocks: a full or an empty
/// queue is an ordinary result.
pub struct SpscQueue<T> {
    buffer: Vec<Option<T>>,
    capacity: usize,
    head: usize,
    tail: usize,
    count: usize,
    /// Every item the queue accepted, in push order.
    accepted: Ghost<Seq<T>>,
    /// Every item the queue handed out, in pop order.
    handed_out: Ghost<Seq<T>>,
}

impl<T> View for SpscQueue<T> {
    type V = Seq<T>;

    /// The items in flight, oldest first.
    closed spec fn view(&self) -> Seq<T> {
        Seq::new(
            self.count as nat,
            |i: int| self.buffer@[(self.tail + i) % (self.capacity as int)]->Some_0,
        )
    }
}

impl<T> SpscQueue<T> {
    /// The number of slots.
    pub closed spec fn spec_capacity(&self) -> nat {
        self.capacity as nat
    }

    /// Every item the queue accepted so far, in push order.
    pub closed spec fn accepted(&self) -> Seq<T> {
        self.accepted@
    }

    /// Every item the queue handed out so far, in pop order.
    pub closed spec fn handed_out(&self) -> Seq<T> {
        self.handed_out@
    }

    /// Well-formedness: the capacity is a power of two, the cursors lie
    /// within it, every slot between them holds an item, and the items
    /// handed out followed by those in flight are the items accepted.
    pub closed spec fn wf(&self) -> bool {
        &&& self.handed_out@ + self@ == self.accepted@
        &&& is_power_of_two(self.capacity as int)
        &&& self.capacity > 0
        &&& self.buffer@.len() == self.capacity
        &&& self.tail < self.capacity
        &&& self.count <= self.capacity
        &&& self.head == (self.tail + self.count) % (self.capacity as int)
        &&& forall|i: int|
            0 <= i < self.count ==> (#[trigger] self.buffer@[(self.tail + i) % (
            self.capacity as int)]) is Some
    }

    /// Creates a queue with room for `capacity` items, rounded up to the next
    /// power of two.
    pub fn new(capacity: usize) -> (r: Self)
        requires
            0 < capacity <= usize::MAX / 2 + 1,
        ensures
            r.wf(),
            r@ == Seq::<T>::empty(),
            r.accepted() == Seq::<T>::empty(),
            r.handed_out() == Seq::<T>::empty(),
            rounded_capacity(capacity as int, r.spec_capacity() as int),
    {
        let mut c: usize = 1;
        let ghost mut e: nat = 0;
        proof {
            vstd::arithmetic::power2::lemma2_to64();
        }
        while c < capacity
            invariant
                pow2(e) == c,
                1 <= c,
                c == 1 || c / 2 < capacity,
                capacity <= usize::MAX / 2 + 1,
            decreases usize::MAX - c,
        {
            proof {
                lemma_pow2_unfold(e + 1);
                e = e + 1;
            }
            c = c * 2;
        }
        let mut buffer: Vec<Option<T>> = Vec::new();
        let mut i: usize = 0;
        while i < c
            invariant
                i <= c,
                buffer@.len() == i,
            decreases c - i,
        {
            buffer.push(None);
            i = i + 1;
        }
        let r = SpscQueue {
            buffer,
            capacity: c,
            head: 0,
            tail: 0,
            count: 0,
            accepted: Ghost(Seq::empty()),
            handed_out: Ghost(Seq::empty()),
        };
        proof {
            assert(pow2(e) == c as int);
            assert(is_power_of_two(c as int));
            assert(r@ =~= Seq::<T>::empty());
            assert(Seq::<T>::empty() + Seq::<T>::empty() =~= Seq::<T>::empty());
            vstd::arithmetic::div_mod::lemma_small_mod(0, c as nat);
        }
        assert(r@ =~= Seq::<T>::empty());
        r
    }

    /// Returns the number of slots.
    pub fn capacity(&self) -> (r: usize)
        ensures
            r == self.spec_capacity(),
    {
        self.capacity
    }

    /// Returns the number of items in flight.
    pub fn len(&self) -> (r: usize)
        requires
            self.wf(),
        ensures
            r == self@.len(),
            r <= self.spec_capacity(),
    {
        self.count
    }

    /// Returns true if no item is in flight.
    pub fn is_empty(&self) -> (r: bool)
        requires
            self.wf(),
        ensures
            r == (self@.len() == 0),
    {
        self.count == 0
    }

    /// Returns true if every slot holds an item.
    pub fn is_full(&self) -> (r: bool)
        requires
            self.wf(),
        ensures
            r == (self@.len() == self.spec_capacity()),
            self@.len() <= self.spec_capacity(),
    {
        self.count >= self.capacity
    }

    /// Appends `value` behind the items in flight, or fails with `QueueFull`
    /// and leaves the queue as it was.
    pub fn push(&mut self, value: T) -> (r: Result<(), Error>)
        requires
            old(self).wf(),
        ensures
            final(self).wf(),
            final(self).spec_capacity() == old(self).spec_capacity(),
            final(self)@ == after_step(old(self).spec_capacity(), old(self)@, QueueStep::Push(value)),
            final(self).handed_out() == old(self).handed_out(),
            old(self)@.len() < old(self).spec_capacity() ==> final(self).accepted() == old(
                self,
            ).accepted().push(value),
            old(self)@.len() >= old(self).spec_capacity() ==> final(self).accepted() == old(
                self,
            ).accepted(),
            old(self)@.len() < old(self).spec_capacity() ==> r is Ok && final(self)@ == old(
                self,
            )@.push(value),
            old(self)@.len() >= old(self).spec_capacity() ==> r == Err::<(), Error>(
                Error::QueueFull,
            ) && final(self)@ == old(self)@,
    {
        if self.count >= self.capacity {
            return Err(Error::QueueFull);
        }
        let ghost before = self@;
        let index = self.head;
        let ghost item = value;
        self.buffer.set(index, Some(value));
        proof {
            self.accepted = Ghost(self.accepted@.push(item));
        }
        self.head = (self.head + 1) % self.capacity;
        self.count = self.count + 1;
        proof {
            let cap = self.capacity as int;
            let t = self.tail as int;
            let n = (self.count - 1) as int;
            assert(index == (t + n) % cap);
            assert((index + 1) % cap == (t + n + 1) % cap) by {
                vstd::arithmetic::div_mod::lemma_add_mod_noop_right(1, t + n, cap);
            }
            assert forall|i: int| 0 <= i < n implies #[trigger] ((t + i) % cap) != index by {
                vstd::arithmetic::div_mod::lemma_mod_bound(t + i, cap);
                vstd::arithmetic::div_mod::lemma_fundamental_div_mod(t + i, cap);
                vstd::arithmetic::div_mod::lemma_fundamental_div_mod(t + n, cap);
                if (t + i) % cap == (t + n) % cap {
                    lemma_mod_diff(t + i, t + n, cap);
                }
            }
            assert(self@ =~= before.push(item));
            assert(self.handed_out@ + self@ =~= (self.handed_out@ + before).push(item));
        }
        Ok(())
    }

    /// Removes and returns the oldest item in flight, or fails with
    /// `QueueEmpty` and leaves the queue as it was.
    pub fn pop(&mut self) -> (r: Result<T, Error>)
        requires
            old(self).wf(),
        ensures
            final(self).wf(),
            final(self).spec_capacity() == old(self).spec_capacity(),
            final(self)@ == after_step(old(self).spec_capacity(), old(self)@, QueueStep::Pop),
            final(self).accepted() == old(self).accepted(),
            old(self)@.len() > 0 ==> final(self).handed_out() == old(self).handed_out().push(
                old(self)@[0],
            ),
            old(self)@.len() == 0 ==> final(self).handed_out() == old(self).handed_out(),
            old(self)@.len() > 0 ==> r == Ok::<T, Error>(old(self)@[0]) && final(self)@ == old(
                self,
            )@.drop_first(),
            old(self)@.len() == 0 ==> r == Err::<T, Error>(Error::QueueEmpty) && final(self)@
                == old(self)@,
    {
        if self.count == 0 {
            return Err(Error::QueueEmpty);
        }
        let ghost before = self@;
        let ghost old_buf = self.buffer@;
        let index = self.tail;
        let mut out: Option<T> = None;
        std::mem::swap(&mut self.buffer[index], &mut out);
        self.tail = (self.tail + 1) % self.capacity;
        self.count = self.count - 1;
        proof {
            let cap = self.capacity as int;
            let t = index as int;
            let n = self.count as int;
            assert(t % cap == t) by {
                vstd::arithmetic::div_mod::lemma_small_mod(index as nat, cap as nat);
            }
            assert(before[0] == out->Some_0);
            assert forall|i: int| 0 <= i < n implies (#[trigger] ((t + 1) % cap + i) % cap) == (t
                + 1 + i) % cap && (t + 1 + i) % cap != t by {
                vstd::arithmetic::div_mod::lemma_add_mod_noop_right(i, t + 1, cap);
                if (t + 1 + i) % cap == t {
                    vstd::arithmetic::div_mod::lemma_small_mod(t as nat, cap as nat);
                    lemma_mod_diff(t, t + 1 + i, cap);
                }
                assert(old_buf[(t + (i + 1)) % cap] is Some);
                assert(t + (i + 1) == t + 1 + i);
            }
            assert(self.buffer@ == old_buf.update(t, None::<T>));
            assert forall|i: int| 0 <= i < n implies (#[trigger] self.buffer@[(self.tail + i) % cap])
                is Some by {
                assert(((t + 1) % cap + i) % cap == (t + 1 + i) % cap && (t + 1 + i) % cap != t);
                assert(old_buf[(t + (i + 1)) % cap] is Some);
                assert(t + (i + 1) == t + 1 + i);
            }
            assert(((t + 1) % cap + n) % cap == (t + 1 + n) % cap) by {
                vstd::arithmetic::div_mod::lemma_add_mod_noop_right(n, t + 1, cap);
            }
            assert(self@ =~= before.drop_first());
            self.handed_out = Ghost(self.handed_out@.push(before[0]));
            assert(self.handed_out@ + self@ =~= old(self).handed_out@ + before);
        }
        Ok(out.unwrap())
    }

    /// Returns the oldest item in flight without removing it.
    pub fn peek(&self) -> (r: Option<&T>)
        requires
            self.wf(),
        ensures
            self@.len() > 0 ==> r == Some(&self@[0]),
            self@.len() == 0 ==> r is None,
    {
        if self.count == 0 {
            return None;
        }
        proof {
            vstd::arithmetic::div_mod::lemma_small_mod(self.tail as nat, self.capacity as nat);
            assert(self.buffer@[(self.tail + 0) % (self.capacity as int)] is Some);
        }
        match &self.buffer[self.tail] {
            Some(v) => Some(v),
            None => None,
        }
    }
}

/// Two values below `m + a` apart by less than `m` with equal remainders are equal.
proof fn lemma_mod_diff(a: int, b: int, m: int)
    requires
        m > 0,
        0 <= a <= b < a + m,
        a % m == b % m,
    ensures
        a == b,
{
    vstd::arithmetic::div_mod::lemma_fundamental_div_mod(a, m);
    vstd::arithmetic::div_mod::lemma_fundamental_div_mod(b, m);
    vstd::arithmetic::div_mod::lemma_mod_bound(a, m);
    vstd::arithmetic::div_mod::lemma_mod_bound(b, m);
    assert(m * (b / m) - m * (a / m) < m);
    assert(m * (b / m) - m * (a / m) >= 0);
    vstd::arithmetic::mul::lemma_mul_is_distributive_sub(m, b / m, a / m);
    if b / m - a / m >= 1 {
        vstd::arithmetic::mul::lemma_mul_inequality(1, b / m - a / m, m);
        vstd::arithmetic::mul::lemma_mul_is_commutative(m, b / m - a / m);
    }
    if b / m - a / m < 0 {
        vstd::arithmetic::mul::lemma_mul_strict_inequality(b / m - a / m, 0, m);
        vstd::arithmetic::mul::lemma_mul_is_commutative(m, b / m - a / m);
    }
}

/// One step of a producer or a consumer on a queue.
pub enum QueueStep<T> {
    /// The producer offers an item.
    Push(T),
    /// The consumer asks for an item.
    Pop,
}

/// The contents of a queue of capacity `cap` after `steps`, as `push` and
/// `pop` state them, together with the items handed to the consumer and the
/// items the queue accepted, in order.
pub open spec fn replay<T>(cap: nat, steps: Seq<QueueStep<T>>) -> (Seq<T>, Seq<T>, Seq<T>)
    decreases steps.len(),
{
    if steps.len() == 0 {
        (Seq::empty(), Seq::empty(), Seq::empty())
    } else {
        let (contents, popped, accepted) = replay(cap, steps.drop_last());
        match steps.last() {
            QueueStep::Push(v) => if contents.len() < cap {
                (contents.push(v), popped, accepted.push(v))
            } else {
                (contents, popped, accepted)
            },
            QueueStep::Pop => if contents.len() > 0 {
                (contents.drop_first(), popped.push(contents[0]), accepted)
            } else {
                (contents, popped, accepted)
            },
        }
    }
}

/// The contents of a queue of capacity `cap` holding `contents` after one step.
pub open spec fn after_step<T>(cap: nat, contents: Seq<T>, step: QueueStep<T>) -> Seq<T> {
    match step {
        QueueStep::Push(v) => if contents.len() < cap {
            contents.push(v)
        } else {
            contents
        },
        QueueStep::Pop => if contents.len() > 0 {
            contents.drop_first()
        } else {
            contents
        },
    }
}

/// A queue follows the replay: a new queue holds what no steps leave, each
/// `push` and `pop` moves its contents by `after_step` (their `ensures`), and
/// replaying one more step moves the replayed contents the same way, handing
/// a successful pop the item that `pop` returns. So after any run of calls
/// the queue holds, and has handed out, what `replay` says.
pub proof fn lemma_step_extends_replay<T>(cap: nat, steps: Seq<QueueStep<T>>, step: QueueStep<T>)
    ensures
        replay(cap, Seq::<QueueStep<T>>::empty()).0 == Seq::<T>::empty(),
        replay(cap, steps.push(step)).0 == after_step(cap, replay(cap, steps).0, step),
        (step is Pop && replay(cap, steps).0.len() > 0) ==> replay(cap, steps.push(step)).1
            == replay(cap, steps).1.push(replay(cap, steps).0[0]),
{
    assert(steps.push(step).drop_last() =~= steps);
    assert(steps.push(step).last() == step);
}

/// First in, first out, for a live queue: whatever the order of the
/// producer's pushes and the consumer's pops, the items handed out, followed
/// by the items in flight, are exactly the items accepted, in push order;
/// none is lost, duplicated or reordered across wraparound.
pub proof fn lemma_queue_fifo<T>(q: &SpscQueue<T>)
    requires
        q.wf(),
    ensures
        q.handed_out() + q@ == q.accepted(),
        q@.len() <= q.spec_capacity(),
{
}

/// First in, first out: whatever the interleaving of pushes and pops, the
/// items handed out followed by the items still in flight are exactly the
/// items accepted, in the order they were pushed; none is lost, duplicated
/// or reordered, however often the cursors wrap around the ring.
pub proof fn lemma_fifo<T>(cap: nat, steps: Seq<QueueStep<T>>)
    ensures
        replay(cap, steps).1 + replay(cap, steps).0 == replay(cap, steps).2,
        replay(cap, steps).0.len() <= cap,
    decreases steps.len(),
{
    if steps.len() > 0 {
        lemma_fifo(cap, steps.drop_last());
        let (contents, popped, accepted) = replay(cap, steps.drop_last());
        match steps.last() {
            QueueStep::Push(v) => {
                if contents.len() < cap {
                    assert(popped + contents.push(v) =~= (popped + contents).push(v));
                }
            },
            QueueStep::Pop => {
                if contents.len() > 0 {
                    assert(popped.push(contents[0]) + contents.drop_first() =~= popped + contents);
                }
            },
        }
    }
}

} // verus!

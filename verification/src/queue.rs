use vstd::prelude::*;

verus! {

/// Outcome of a queue operation.
#[derive(Debug, PartialEq, Eq, Structural)]
pub enum ReturnCode {
    Done,
    Full,
    Empty,
    /// Another reader or writer holds the queue. A `FixedQueue` is reached
    /// through `&mut` only, so it never answers with this code itself.
    Busy,
}

/// A fixed-size ring buffer queue.
///
/// A queue created with `size` slots keeps one slot free to tell a full
/// buffer from an empty one, so it holds at most `size - 1` elements.
/// `read_position` is the slot of the oldest element, `write_position`
/// the slot that the next element is written to.
#[derive(Debug)]
pub struct FixedQueue<T> {
    size: usize,
    buffer: Vec<Option<T>>,
    read_position: usize,
    write_position: usize,
}

impl<T> View for FixedQueue<T> {
    type V = Seq<T>;

    /// The queued elements, oldest first.
    closed spec fn view(&self) -> Seq<T> {
        Seq::new(self.count(), |i: int| self.buffer@[self.slot_of(i)]->0)
    }
}

impl<T> FixedQueue<T> {
    /// Number of slots of the ring buffer.
    pub closed spec fn slots(&self) -> nat {
        self.size as nat
    }

    /// Largest number of elements the queue can hold.
    pub open spec fn capacity(&self) -> int {
        self.slots() - 1
    }

    /// Number of elements currently queued.
    pub closed spec fn count(&self) -> nat {
        if self.read_position <= self.write_position {
            (self.write_position - self.read_position) as nat
        } else {
            (self.size - self.read_position + self.write_position) as nat
        }
    }

    /// Slot that holds the `i`-th oldest element.
    pub closed spec fn slot_of(&self, i: int) -> int {
        (self.read_position + i) % (self.size as int)
    }

    /// Well-formedness of the ring buffer.
    pub closed spec fn wf(&self) -> bool {
        &&& self.buffer@.len() == self.size
        &&& self.size == 0 ==> self.read_position == 0 && self.write_position == 0
        &&& self.size > 0 ==> self.read_position < self.size && self.write_position < self.size
        &&& forall|i: int| 0 <= i < self.count() ==> (#[trigger] self.buffer@[self.slot_of(i)]) is Some
    }

    /// The capacity is one less than the number of slots: one slot always
    /// stays free.
    pub proof fn lemma_capacity(&self)
        ensures
            self.capacity() + 1 == self.slots(),
    {
    }

    /// A queue never holds more than its capacity, one less than its number
    /// of slots.
    pub proof fn lemma_count_within_capacity(&self)
        requires
            self.wf(),
        ensures
            self@.len() <= self.capacity() || (self.slots() == 0 && self@.len() == 0),
    {
    }

    /// Creates a queue with `size` slots, initially empty.
    pub fn new(size: usize) -> (queue: FixedQueue<T>)
        ensures
            queue.wf(),
            queue.slots() == size,
            queue@ == Seq::<T>::empty(),
    {
        let mut buffer: Vec<Option<T>> = Vec::with_capacity(size);
        let mut i: usize = 0;
        while i < size
            invariant
                i <= size,
                buffer@.len() == i,
            decreases size - i,
        {
            buffer.push(None);
            i = i + 1;
        }
        let queue = FixedQueue { size, buffer, read_position: 0, write_position: 0 };
        assert(queue@ =~= Seq::<T>::empty());
        queue
    }

    /// Number of slots of the ring buffer.
    pub fn size(&self) -> (n: usize)
        ensures
            n == self.slots(),
    {
        self.size
    }

    /// The slot that follows `pos` in the ring.
    fn next_pos(&self, pos: usize) -> (next: usize)
        requires
            self.size > 0,
            pos < self.size,
        ensures
            next == (pos + 1) % (self.size as int),
    {
        if pos == self.size - 1 {
            assert((pos + 1) % (self.size as int) == 0) by (nonlinear_arith)
                requires
                    pos + 1 == self.size,
                    self.size > 0,
            ;
            return 0;
        }
        assert((pos + 1) % (self.size as int) == pos + 1) by (nonlinear_arith)
            requires
                pos + 1 < self.size,
        ;
        pos + 1
    }

    proof fn lemma_slot_of_shift(&self, i: int)
        requires
            self.size > 0,
            self.read_position < self.size,
            0 <= i,
        ensures
            self.slot_of(i + 1) == ((self.read_position + 1) % (self.size as int) + i) % (self.size as int),
    {
        let n = self.size as int;
        let r = self.read_position as int;
        if r + 1 < n {
            assert((r + 1) % n == r + 1) by (nonlinear_arith)
                requires
                    0 <= r + 1 < n,
            ;
        } else {
            assert((r + 1) % n == 0) by (nonlinear_arith)
                requires
                    r + 1 == n,
                    n > 0,
            ;
            assert((r + 1 + i) % n == i % n) by (nonlinear_arith)
                requires
                    r + 1 == n,
                    n > 0,
                    0 <= i,
            ;
        }
    }

    /// Appends `write` at the back of the queue.
    ///
    /// Returns `Full`, leaving the queue as it was, when the queue already
    /// holds `capacity()` elements, and `Done` otherwise.
    pub fn enqueue(&mut self, write: T) -> (code: ReturnCode)
        requires
            old(self).wf(),
            old(self).slots() > 0,
        ensures
            final(self).wf(),
            final(self).slots() == old(self).slots(),
            old(self)@.len() == old(self).capacity() ==> code == ReturnCode::Full
                && final(self)@ == old(self)@,
            old(self)@.len() < old(self).capacity() ==> code == ReturnCode::Done
                && final(self)@ == old(self)@.push(write),
    {
        let w_next = self.next_pos(self.write_position);
        proof {
            let n = self.size as int;
            let r = self.read_position as int;
            let w = self.write_position as int;
            if w + 1 < n {
                assert((w + 1) % n == w + 1) by (nonlinear_arith)
                    requires
                        0 <= w + 1 < n,
                ;
            } else {
                assert((w + 1) % n == 0) by (nonlinear_arith)
                    requires
                        w + 1 == n,
                        n > 0,
                ;
            }
        }
        if self.read_position == w_next {
            return ReturnCode::Full;
        }
        let ghost old_q = *self;
        let wp = self.write_position;
        self.buffer[wp] = Some(write);
        self.write_position = w_next;
        proof {
            let n = self.size as int;
            let c = old_q.count() as int;
            assert(self.count() == c + 1);
            assert(old_q.slot_of(c) == wp) by {
                let r = old_q.read_position as int;
                let w = wp as int;
                if r <= w {
                    assert((r + (w - r)) % n == w) by (nonlinear_arith)
                        requires
                            0 <= w < n,
                    ;
                } else {
                    assert((r + (n - r + w)) % n == w) by (nonlinear_arith)
                        requires
                            0 <= w < n,
                    ;
                }
            }
            assert forall|i: int| 0 <= i < c implies old_q.slot_of(i) != wp by {
                let r = old_q.read_position as int;
                let w = wp as int;
                if r <= w {
                    assert((r + i) % n == r + i) by (nonlinear_arith)
                        requires
                            0 <= r + i < n,
                    ;
                } else if r + i < n {
                    assert((r + i) % n == r + i) by (nonlinear_arith)
                        requires
                            0 <= r + i < n,
                    ;
                } else {
                    assert((r + i) % n == r + i - n) by (nonlinear_arith)
                        requires
                            n <= r + i < 2 * n,
                    ;
                }
            }
            assert forall|i: int| 0 <= i < self.count() implies (#[trigger] self.buffer@[self.slot_of(i)]) is Some by {
                assert(self.slot_of(i) == old_q.slot_of(i));
            }
            assert(self@ =~= old_q@.push(write)) by {
                assert forall|i: int| 0 <= i < self.count() implies self@[i] == old_q@.push(write)[i] by {
                    assert(self.slot_of(i) == old_q.slot_of(i));
                }
            }
        }
        ReturnCode::Done
    }

    /// Moves the oldest element into `read`.
    ///
    /// Returns `Empty`, leaving the queue and `read` as they were, when the
    /// queue is empty, and `Done` otherwise.
    pub fn dequeue(&mut self, read: &mut T) -> (code: ReturnCode)
        requires
            old(self).wf(),
        ensures
            final(self).wf(),
            final(self).slots() == old(self).slots(),
            old(self)@.len() == 0 ==> code == ReturnCode::Empty
                && final(self)@ == old(self)@ && *final(read) == *old(read),
            old(self)@.len() > 0 ==> code == ReturnCode::Done
                && *final(read) == old(self)@[0]
                && final(self)@ == old(self)@.drop_first(),
    {
        if self.read_position == self.write_position {
            assert(self@ =~= Seq::<T>::empty());
            return ReturnCode::Empty;
        }
        let ghost old_q = *self;
        let rp = self.read_position;
        proof {
            assert(self.count() > 0);
            assert(old_q.slot_of(0) == rp) by {
                assert((rp as int + 0) % (self.size as int) == rp as int) by (nonlinear_arith)
                    requires
                        0 <= rp < self.size,
                ;
            }
            assert(self.buffer@[self.slot_of(0)] is Some);
        }
        let mut slot: Option<T> = None;
        std::mem::swap(&mut self.buffer[rp], &mut slot);
        *read = slot.unwrap();
        self.read_position = self.next_pos(rp);
        proof {
            let n = self.size as int;
            let c = old_q.count() as int;
            let r = rp as int;
            let w = self.write_position as int;
            assert(self.count() == c - 1) by {
                if r + 1 < n {
                    assert((r + 1) % n == r + 1) by (nonlinear_arith)
                        requires
                            0 <= r + 1 < n,
                    ;
                } else {
                    assert((r + 1) % n == 0) by (nonlinear_arith)
                        requires
                            r + 1 == n,
                            n > 0,
                    ;
                }
            }
            assert forall|i: int| 0 <= i < self.count() implies self.slot_of(i) == old_q.slot_of(i + 1)
                && old_q.slot_of(i + 1) != rp by {
                old_q.lemma_slot_of_shift(i);
                if r + 1 + i < n {
                    assert((r + 1 + i) % n == r + 1 + i) by (nonlinear_arith)
                        requires
                            0 <= r + 1 + i < n,
                    ;
                } else {
                    assert((r + 1 + i) % n == r + 1 + i - n) by (nonlinear_arith)
                        requires
                            n <= r + 1 + i < 2 * n,
                    ;
                }
            }
            assert forall|i: int| 0 <= i < self.count() implies (#[trigger] self.buffer@[self.slot_of(i)]) is Some by {
                assert(self.slot_of(i) == old_q.slot_of(i + 1));
                assert(old_q.buffer@[old_q.slot_of(i + 1)] is Some);
            }
            assert(self@ =~= old_q@.drop_first()) by {
                assert forall|i: int| 0 <= i < self.count() implies self@[i] == old_q@.drop_first()[i] by {
                    assert(self.slot_of(i) == old_q.slot_of(i + 1));
                }
            }
        }
        ReturnCode::Done
    }
}

impl FixedQueue<u8> {
    /// Reads one byte into `dst`, whose length must be one.
    ///
    /// The oldest queued byte is moved into `dst[0]`; on an empty queue
    /// `dst[0]` becomes zero. Always reports one byte read.
    pub fn read(&mut self, dst: &mut [u8]) -> (n: usize)
        requires
            old(self).wf(),
            old(dst)@.len() == 1,
        ensures
            final(self).wf(),
            final(self).slots() == old(self).slots(),
            n == 1,
            old(self)@.len() == 0 ==> final(self)@ == old(self)@
                && final(dst)@ == seq![0u8],
            old(self)@.len() > 0 ==> final(self)@ == old(self)@.drop_first()
                && final(dst)@ == seq![old(self)@[0]],
    {
        let mut data: u8 = 0;
        self.dequeue(&mut data);
        dst[0] = data;
        assert(dst@ =~= seq![data]);
        1
    }
}

/// First in, first out: on a queue that holds something, the element that
/// the next `dequeue` hands out is the same whether or not an `enqueue`
/// happens first, and the two orders leave the same elements behind.
pub proof fn lemma_fifo<T>(queued: Seq<T>, x: T)
    requires
        queued.len() > 0,
    ensures
        queued.push(x)[0] == queued[0],
        queued.push(x).drop_first() == queued.drop_first().push(x),
{
    assert(queued.push(x).drop_first() =~= queued.drop_first().push(x));
}

} // verus!

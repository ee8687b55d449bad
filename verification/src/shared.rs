//! State handed between the bridges and the interface: values that remember
//! whether they changed since last looked at, and a bounded queue of audio
//! chunks. Callers that share them between threads put them behind a lock.

use vstd::prelude::*;

verus! {

/// A value with a flag telling whether it was set since the flag was last
/// consumed.
pub struct DirtyValue<T> {
    value: T,
    dirty: bool,
}

impl<T> DirtyValue<T> {
    /// The stored value.
    pub closed spec fn value(&self) -> T {
        self.value
    }

    /// Whether the value was set since the flag was last consumed.
    pub closed spec fn is_dirty(&self) -> bool {
        self.dirty
    }

    /// A clean value.
    pub fn new(initial: T) -> (d: DirtyValue<T>)
        ensures
            d.value() == initial,
            !d.is_dirty(),
    {
        DirtyValue { value: initial, dirty: false }
    }

    /// Stores a value and marks it changed.
    pub fn set(&mut self, value: T)
        ensures
            final(self).value() == value,
            final(self).is_dirty(),
    {
        self.value = value;
        self.dirty = true;
    }

    /// The stored value.
    pub fn read(&self) -> (r: &T)
        ensures
            *r == self.value(),
    {
        &self.value
    }

    /// Consumes the flag without touching the value; returns whether it was
    /// set.
    pub fn take_dirty(&mut self) -> (was: bool)
        ensures
            was == old(self).is_dirty(),
            !final(self).is_dirty(),
            final(self).value() == old(self).value(),
    {
        let was = self.dirty;
        self.dirty = false;
        was
    }

    /// The value if it changed since last looked at, consuming the flag.
    pub fn read_if_dirty(&mut self) -> (r: Option<&T>)
        ensures
            !final(self).is_dirty(),
            final(self).value() == old(self).value(),
            match r {
                Some(v) => old(self).is_dirty() && *v == old(self).value(),
                None => !old(self).is_dirty(),
            },
    {
        if self.take_dirty() {
            Some(&self.value)
        } else {
            None
        }
    }
}

/// Audio chunks waiting to be played, keeping only the newest
/// `max_chunks`, with a flag that asks the player to drop what it holds.
pub struct ChunkQueue<T> {
    chunks: Vec<T>,
    max_chunks: usize,
    should_clear: bool,
}

impl<T> ChunkQueue<T> {
    /// The chunks in arrival order.
    pub closed spec fn chunks(&self) -> Seq<T> {
        self.chunks@
    }

    /// How many chunks are kept at most.
    pub closed spec fn capacity(&self) -> nat {
        self.max_chunks as nat
    }

    /// Whether a clear was asked for and not yet taken.
    pub closed spec fn clear_pending(&self) -> bool {
        self.should_clear
    }

    /// An empty queue keeping at most `max_chunks` chunks.
    pub fn new(max_chunks: usize) -> (q: ChunkQueue<T>)
        ensures
            q.chunks() == Seq::<T>::empty(),
            q.capacity() == max_chunks,
            !q.clear_pending(),
    {
        ChunkQueue { chunks: Vec::new(), max_chunks, should_clear: false }
    }

    /// Adds a chunk, dropping the oldest ones beyond the capacity.
    pub fn push(&mut self, chunk: T)
        ensures
            final(self).capacity() == old(self).capacity(),
            final(self).clear_pending() == old(self).clear_pending(),
            final(self).chunks() == newest(old(self).chunks().push(chunk), old(self).capacity()),
    {
        self.chunks.push(chunk);
        let ghost all = self.chunks@;
        while self.chunks.len() > self.max_chunks
            invariant
                self.chunks@.len() <= all.len(),
                self.chunks@.len() >= self.max_chunks || self.chunks@.len() == all.len(),
                self.chunks@ == all.skip(all.len() - self.chunks@.len()),
                self.max_chunks == old(self).max_chunks,
                self.should_clear == old(self).should_clear,
                all == old(self).chunks@.push(chunk),
            decreases self.chunks@.len(),
        {
            let ghost before = self.chunks@;
            self.chunks.remove(0);
            assert(self.chunks@ =~= all.skip(all.len() - self.chunks@.len()));
        }
        assert(self.chunks@ =~= newest(all, self.max_chunks as nat));
    }

    /// Takes every chunk out, oldest first.
    pub fn drain(&mut self) -> (r: Vec<T>)
        ensures
            r@ == old(self).chunks(),
            final(self).chunks() == Seq::<T>::empty(),
            final(self).capacity() == old(self).capacity(),
            final(self).clear_pending() == old(self).clear_pending(),
    {
        let mut taken: Vec<T> = Vec::new();
        std::mem::swap(&mut taken, &mut self.chunks);
        taken
    }

    /// Drops every chunk.
    pub fn clear(&mut self)
        ensures
            final(self).chunks() == Seq::<T>::empty(),
            final(self).capacity() == old(self).capacity(),
            final(self).clear_pending() == old(self).clear_pending(),
    {
        self.chunks.clear();
    }

    /// Drops every chunk and asks the player to drop what it holds.
    pub fn signal_clear(&mut self)
        ensures
            final(self).chunks() == Seq::<T>::empty(),
            final(self).capacity() == old(self).capacity(),
            final(self).clear_pending(),
    {
        self.should_clear = true;
        self.clear();
    }

    /// Consumes the request to clear; returns whether there was one.
    pub fn take_clear_signal(&mut self) -> (was: bool)
        ensures
            was == old(self).clear_pending(),
            !final(self).clear_pending(),
            final(self).chunks() == old(self).chunks(),
            final(self).capacity() == old(self).capacity(),
    {
        let was = self.should_clear;
        self.should_clear = false;
        was
    }
}

/// The newest `n` items of `s`, in order.
pub open spec fn newest<T>(s: Seq<T>, n: nat) -> Seq<T> {
    if s.len() > n {
        s.skip(s.len() - n)
    } else {
        s
    }
}

/// The queue never holds more than its capacity, and keeps the newest
/// chunks in arrival order.
pub proof fn law_queue_keeps_newest<T>(s: Seq<T>, n: nat, chunk: T)
    ensures
        newest(s.push(chunk), n).len() <= n || newest(s.push(chunk), n) == s.push(chunk),
        n > 0 ==> newest(s.push(chunk), n).last() == chunk,
        newest(s.push(chunk), n).len() == if s.len() + 1 > n {
            n as int
        } else {
            s.len() + 1 as int
        },
{
}

} // verus!

//! A fixed-capacity read window over an ordered byte stream.
use vstd::prelude::*;
use vstd::slice::{slice_subrange, slice_to_vec};
use crate::search::{contains_lowercase, find};

verus! {

/// A fixed-capacity buffer and a cursor into it.
///
/// Bytes `[position, size)` of the buffer are read but not yet consumed: the
/// window. The buffer is refilled from offset 0, and only once the window is
/// empty. Markers are searched within one fill only, never across two.
pub struct Scanner {
    buf: Vec<u8>,
    position: usize,
    size: usize,
}

impl Scanner {
    /// The bytes read but not yet consumed.
    pub closed spec fn window(&self) -> Seq<u8> {
        self.buf@.subrange(self.position as int, self.size as int)
    }

    /// The most bytes that one refill can hold.
    pub closed spec fn capacity(&self) -> nat {
        self.buf@.len()
    }

    /// `0 <= position <= size <= capacity`.
    pub closed spec fn wf(&self) -> bool {
        self.position <= self.size <= self.buf@.len()
    }

    /// An empty scanner whose refills hold at most `capacity` bytes.
    pub fn new(capacity: usize) -> (s: Scanner)
        ensures
            s.wf(),
            s.window() == Seq::<u8>::empty(),
            s.capacity() == capacity,
    {
        let s = Scanner { buf: vec![0u8; capacity], position: 0, size: 0 };
        assert(s.window() =~= Seq::<u8>::empty());
        s
    }

    /// The number of bytes in the window.
    pub fn available(&self) -> (r: usize)
        requires
            self.wf(),
        ensures
            r == self.window().len(),
    {
        self.size - self.position
    }

    /// Refills the empty window with the bytes of one transport read, and
    /// tells whether that read reached end-of-stream (yielded no byte).
    pub fn fill_and_check_eof(&mut self, chunk: &[u8]) -> (eof: bool)
        requires
            old(self).wf(),
            old(self).window().len() == 0,
            chunk@.len() <= old(self).capacity(),
        ensures
            final(self).wf(),
            final(self).capacity() == old(self).capacity(),
            final(self).window() == chunk@,
            eof == (chunk@.len() == 0),
    {
        let n: usize = chunk.len();
        let mut i: usize = 0;
        while i < n
            invariant
                n == chunk@.len(),
                n <= self.buf@.len(),
                self.buf@.len() == old(self).buf@.len(),
                i <= n,
                forall|j: int| 0 <= j < i ==> self.buf@[j] == chunk@[j],
            decreases n - i,
        {
            self.buf.set(i, chunk[i]);
            i = i + 1;
        }
        self.position = 0;
        self.size = n;
        assert(self.window() =~= chunk@);
        n == 0
    }

    /// Consumes the window up to and including the first occurrence of
    /// `needle` (ASCII case ignored) and returns `true`; where the window
    /// holds none, discards the whole window and returns `false`.
    pub fn consume_until(&mut self, needle: &[u8]) -> (found: bool)
        requires
            old(self).wf(),
        ensures
            final(self).wf(),
            final(self).capacity() == old(self).capacity(),
            match find(old(self).window(), needle@) {
                Some(i) => found && final(self).window() == old(self).window().subrange(
                    i + needle@.len(),
                    old(self).window().len() as int,
                ),
                None => !found && final(self).window() == Seq::<u8>::empty(),
            },
    {
        let w = slice_subrange(self.buf.as_slice(), self.position, self.size);
        match contains_lowercase(w, needle) {
            Some(i) => {
                self.position = self.position + i + needle.len();
                assert(self.window() =~= old(self).window().subrange(
                    i + needle@.len(),
                    old(self).window().len() as int,
                ));
                true
            },
            None => {
                self.position = self.size;
                assert(self.window() =~= Seq::<u8>::empty());
                false
            },
        }
    }

    /// Returns the window's bytes before the first occurrence of `needle`
    /// (ASCII case ignored) and consumes them, leaving the marker itself in
    /// the window; where the window holds none, discards the whole window
    /// and returns `None`.
    pub fn read_until(&mut self, needle: &[u8]) -> (r: Option<Vec<u8>>)
        requires
            old(self).wf(),
        ensures
            final(self).wf(),
            final(self).capacity() == old(self).capacity(),
            match find(old(self).window(), needle@) {
                Some(i) => r.is_some() && r.unwrap()@ == old(self).window().subrange(0, i)
                    && final(self).window() == old(self).window().subrange(
                    i,
                    old(self).window().len() as int,
                ),
                None => r.is_none() && final(self).window() == Seq::<u8>::empty(),
            },
    {
        let w = slice_subrange(self.buf.as_slice(), self.position, self.size);
        match contains_lowercase(w, needle) {
            Some(i) => {
                let content = slice_to_vec(slice_subrange(w, 0, i));
                self.position = self.position + i;
                assert(self.window() =~= old(self).window().subrange(
                    i as int,
                    old(self).window().len() as int,
                ));
                Some(content)
            },
            None => {
                self.position = self.size;
                assert(self.window() =~= Seq::<u8>::empty());
                None
            },
        }
    }

    /// Moves up to `remaining` bytes from the front of the window to the end
    /// of `sink`, and returns how many were moved: the smaller of `remaining`
    /// and the window's length.
    pub fn read_n_bytes_into(&mut self, remaining: usize, sink: &mut Vec<u8>) -> (moved: usize)
        requires
            old(self).wf(),
        ensures
            final(self).wf(),
            final(self).capacity() == old(self).capacity(),
            moved == if remaining < old(self).window().len() {
                remaining as int
            } else {
                old(self).window().len() as int
            },
            final(sink)@ == old(sink)@ + old(self).window().subrange(0, moved as int),
            final(self).window() == old(self).window().subrange(
                moved as int,
                old(self).window().len() as int,
            ),
    {
        let available = self.size - self.position;
        let moved: usize = if remaining < available {
            remaining
        } else {
            available
        };
        let part = slice_subrange(self.buf.as_slice(), self.position, self.position + moved);
        sink.extend_from_slice(part);
        self.position = self.position + moved;
        assert(part@ =~= old(self).window().subrange(0, moved as int));
        assert(self.window() =~= old(self).window().subrange(
            moved as int,
            old(self).window().len() as int,
        ));
        moved
    }
}

} // verus!

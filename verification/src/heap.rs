//! The arena that owns every allocated string buffer.
//!
//! Each `add` or `strcat` call allocates one buffer, copies the payload
//! in and writes the terminator byte at the final position. Handles are
//! indices into the registry, issued in allocation order; a buffer is
//! never mutated after creation and is released only at teardown.

use vstd::prelude::*;

use crate::cstr::lemma_terminated_index_in_range;
use crate::cstr::lemma_terminator_index_is_first;
use crate::cstr::payload;
use crate::cstr::terminated;
use crate::cstr::terminator;
use crate::cstr::terminator_index;

verus! {

/// The arena. It owns a registry of byte buffers, one per successful
/// allocation, in allocation order.
pub struct Heap {
    bufs: Vec<Vec<u8>>,
}

impl View for Heap {
    type V = Seq<Seq<u8>>;

    /// A heap is modelled as the sequence of its buffers' byte contents,
    /// in allocation order.
    closed spec fn view(&self) -> Seq<Seq<u8>> {
        self.bufs@.map_values(|b: Vec<u8>| b@)
    }
}

impl Heap {
    /// Every buffer the arena owns ends in a terminator byte, so a
    /// forward scan from any handle stays inside its own buffer.
    pub open spec fn wf(&self) -> bool {
        forall|i: int| 0 <= i < self@.len() ==> terminated(#[trigger] self@[i])
    }

    /// A handle is valid when it indexes a buffer this arena owns.
    pub open spec fn valid_handle(&self, h: usize) -> bool {
        h < self@.len()
    }

    /// Creates an empty arena with an empty registry.
    pub fn new() -> (heap: Self)
        ensures
            heap.wf(),
            heap@ == Seq::<Seq<u8>>::empty(),
    {
        let heap = Heap { bufs: Vec::new() };
        proof {
            assert(heap@ =~= Seq::<Seq<u8>>::empty());
        }
        heap
    }

    /// The number of buffers the arena currently owns: one per
    /// successful `add` or `strcat` call since construction.
    pub fn len(&self) -> (n: usize)
        ensures
            n == self@.len(),
    {
        self.bufs.len()
    }

    /// Allocates a buffer of `src.len() + 1` bytes, copies `src` into
    /// it, writes the terminator at the final position, records the
    /// buffer, and returns its handle.
    ///
    /// Previously issued handles and their buffers are untouched.
    pub fn add(&mut self, src: &[u8]) -> (h: usize)
        requires
            old(self).wf(),
            src@.len() < usize::MAX,
        ensures
            final(self).wf(),
            final(self).valid_handle(h),
            h == old(self)@.len(),
            final(self)@ == old(self)@.push(src@.push(terminator())),
            forall|j: int| 0 <= j < old(self)@.len() ==> final(self)@[j] == old(self)@[j],
    {
        let mut buf: Vec<u8> = Vec::new();
        let mut i: usize = 0;
        while i < src.len()
            invariant
                i <= src@.len(),
                src@.len() < usize::MAX,
                buf@ == src@.take(i as int),
            decreases src@.len() - i,
        {
            buf.push(src[i]);
            proof {
                assert(src@.take(i + 1 as int) =~= src@.take(i as int).push(src@[i as int]));
            }
            i += 1;
        }
        proof {
            assert(src@.take(src@.len() as int) =~= src@);
        }
        buf.push(0u8);
        let h = self.bufs.len();
        self.bufs.push(buf);
        proof {
            assert(self@ =~= old(self)@.push(src@.push(terminator())));
        }
        h
    }

    /// Scans forward from `h`'s buffer base until the first terminator
    /// byte and returns the count of bytes before it.
    pub fn strlen(&self, h: usize) -> (n: usize)
        requires
            self.wf(),
            self.valid_handle(h),
        ensures
            n == terminator_index(self@[h as int]),
            n < self@[h as int].len(),
    {
        let buf: &Vec<u8> = &self.bufs[h];
        proof {
            assert(buf@ == self@[h as int]);
            lemma_terminated_index_in_range(buf@);
            lemma_terminator_index_is_first(buf@);
        }
        let blen = buf.len();
        let mut i: usize = 0;
        while buf[i] != 0u8
            invariant
                0 <= i <= terminator_index(buf@),
                buf@.len() == blen,
                terminator_index(buf@) < buf@.len(),
                forall|j: int| 0 <= j < terminator_index(buf@) ==> buf@[j] != terminator(),
                buf@[terminator_index(buf@)] == terminator(),
            decreases buf@.len() - i,
        {
            proof {
                assert(i != terminator_index(buf@)) by {
                    assert(buf@[i as int] != terminator());
                }
            }
            i += 1;
        }
        i
    }

    /// Reads the string stored at `h`: the bytes of its buffer before
    /// the first terminator, copied out in order.
    pub fn read_as_str(&self, h: usize) -> (s: Vec<u8>)
        requires
            self.wf(),
            self.valid_handle(h),
        ensures
            s@ == payload(self@[h as int]),
    {
        let n = self.strlen(h);
        let buf: &Vec<u8> = &self.bufs[h];
        let mut out: Vec<u8> = Vec::new();
        let mut i: usize = 0;
        while i < n
            invariant
                n == terminator_index(buf@),
                n < buf@.len(),
                i <= n,
                out@ == buf@.take(i as int),
            decreases n - i,
        {
            out.push(buf[i]);
            proof {
                assert(buf@.take(i + 1 as int) =~= buf@.take(i as int).push(buf@[i as int]));
            }
            i += 1;
        }
        out
    }

    /// Concatenates the strings at `lhs` and `rhs`: allocates a buffer
    /// of `strlen(lhs) + strlen(rhs) + 1` bytes, copies both payloads
    /// in contiguously, writes the terminator immediately after the
    /// combined payload, records the buffer, and returns its handle.
    ///
    /// Previously issued handles and their buffers are untouched.
    pub fn strcat(&mut self, lhs: usize, rhs: usize) -> (h: usize)
        requires
            old(self).wf(),
            old(self).valid_handle(lhs),
            old(self).valid_handle(rhs),
            payload(old(self)@[lhs as int]).len() + payload(old(self)@[rhs as int]).len()
                < usize::MAX,
        ensures
            final(self).wf(),
            final(self).valid_handle(h),
            h == old(self)@.len(),
            final(self)@ == old(self)@.push(
                (payload(old(self)@[lhs as int]) + payload(old(self)@[rhs as int])).push(
                    terminator(),
                ),
            ),
            forall|j: int| 0 <= j < old(self)@.len() ==> final(self)@[j] == old(self)@[j],
    {
        let ghost lpay = payload(self@[lhs as int]);
        let ghost rpay = payload(self@[rhs as int]);
        let llen = self.strlen(lhs);
        let rlen = self.strlen(rhs);
        let mut buf: Vec<u8> = Vec::new();
        let lbuf: &Vec<u8> = &self.bufs[lhs];
        let mut i: usize = 0;
        while i < llen
            invariant
                llen == terminator_index(lbuf@),
                llen < lbuf@.len(),
                i <= llen,
                buf@ == lbuf@.take(i as int),
            decreases llen - i,
        {
            buf.push(lbuf[i]);
            proof {
                assert(lbuf@.take(i + 1 as int) =~= lbuf@.take(i as int).push(lbuf@[i as int]));
            }
            i += 1;
        }
        let rbuf: &Vec<u8> = &self.bufs[rhs];
        let mut j: usize = 0;
        while j < rlen
            invariant
                rlen == terminator_index(rbuf@),
                rlen < rbuf@.len(),
                j <= rlen,
                buf@ == lpay + rbuf@.take(j as int),
            decreases rlen - j,
        {
            buf.push(rbuf[j]);
            proof {
                assert(rbuf@.take(j + 1 as int) =~= rbuf@.take(j as int).push(rbuf@[j as int]));
                assert(lpay + rbuf@.take(j + 1 as int) =~= (lpay + rbuf@.take(j as int)).push(
                    rbuf@[j as int],
                ));
            }
            j += 1;
        }
        buf.push(0u8);
        let h = self.bufs.len();
        self.bufs.push(buf);
        proof {
            assert(self@ =~= old(self)@.push((lpay + rpay).push(terminator())));
        }
        h
    }

    /// Tears the arena down: releases every buffer it ever recorded,
    /// exactly once each, and returns the count of released buffers.
    /// That count equals the number of successful `add` and `strcat`
    /// calls since construction. No handle is valid afterwards.
    pub fn teardown(self) -> (released: usize)
        ensures
            released == self@.len(),
    {
        self.bufs.len()
    }
}

} // verus!

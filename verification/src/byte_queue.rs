//! A FIFO of byte fragments with cheap append and incremental consumption.
//!
//! Received network fragments are pushed at the back as shared chunks, never
//! copied; consuming operations walk the front. The queue's view is the one
//! byte sequence formed by the unconsumed parts of its chunks in order, and
//! every operation is specified against that view.

use vstd::prelude::*;

use std::collections::VecDeque;

use bytes::Bytes;

use vstd::math::min;
use vstd::seq_lib::lemma_flatten_concat;

use crate::chunk::{bytes_len, bytes_range_to_vec, bytes_view};

verus! {

/// A queue of byte chunks that may be discontiguous in memory, viewed as the
/// single byte sequence the chunks spell out.
#[derive(Debug)]
pub struct ByteQueue {
    /// The chunks still holding unconsumed bytes, front to back.
    chunks: VecDeque<Bytes>,
    /// How many bytes of the front chunk are already consumed.
    offset: usize,
    /// The total number of unconsumed bytes over all chunks.
    total: usize,
}

/// A sequence of sequences decomposes into its first element and the rest.
proof fn lemma_flatten_first(cs: Seq<Seq<u8>>)
    requires
        cs.len() > 0,
    ensures
        cs.flatten() == cs[0] + cs.drop_first().flatten(),
{
    assert(cs.first() == cs[0]);
}

/// Flattening distributes over splitting a sequence of sequences at `i`.
proof fn lemma_flatten_split(cs: Seq<Seq<u8>>, i: int)
    requires
        0 <= i <= cs.len(),
    ensures
        cs.flatten() == cs.take(i).flatten() + cs.skip(i).flatten(),
{
    assert(cs =~= cs.take(i) + cs.skip(i));
    lemma_flatten_concat(cs.take(i), cs.skip(i));
}

/// Flattening one more chunk appends exactly that chunk.
proof fn lemma_flatten_take_succ(cs: Seq<Seq<u8>>, i: int)
    requires
        0 <= i < cs.len(),
    ensures
        cs.take(i + 1).flatten() == cs.take(i).flatten() + cs[i],
{
    assert(cs.take(i + 1) =~= cs.take(i).push(cs[i]));
    cs.take(i).lemma_flatten_push(cs[i]);
}

/// A prefix of a flattened sequence that ends inside chunk `i` is the
/// flattening of the chunks before `i` plus a prefix of chunk `i`.
proof fn lemma_take_in_flatten(cs: Seq<Seq<u8>>, i: int, t: int)
    requires
        0 <= i < cs.len(),
        0 <= t <= cs[i].len(),
    ensures
        cs.flatten().take(cs.take(i).flatten().len() + t) == cs.take(i).flatten() + cs[i].take(t),
{
    lemma_flatten_split(cs, i);
    lemma_flatten_first(cs.skip(i));
    assert(cs.skip(i)[0] == cs[i]);
    assert(cs.flatten().take(cs.take(i).flatten().len() + t) =~= cs.take(i).flatten()
        + cs[i].take(t));
}

/// The sum of a sequence of read sizes.
pub open spec fn spec_size_sum(ks: Seq<int>) -> int
    decreases ks.len(),
{
    if ks.len() == 0 {
        0
    } else {
        ks[0] + spec_size_sum(ks.drop_first())
    }
}

/// The bytes that a run of reads of the given sizes returns, concatenated:
/// each read returns a prefix of what is buffered and consumes exactly what
/// it returns, as [`ByteQueue::read`] and [`ByteQueue::read_exact`] ensure.
pub open spec fn spec_read_pieces(s: Seq<u8>, ks: Seq<int>) -> Seq<u8>
    decreases ks.len(),
{
    if ks.len() == 0 {
        Seq::empty()
    } else {
        s.take(ks[0]) + spec_read_pieces(s.skip(ks[0]), ks.drop_first())
    }
}

/// Byte-queue fidelity: however the buffered bytes were chunked by pushes,
/// and however the reads are sized, reading the buffered bytes back in full
/// yields exactly the original byte sequence. (Pushing never reorders or
/// alters bytes — [`ByteQueue::push`] appends exactly its argument — and
/// this lemma adds that consuming them piecewise loses nothing.)
pub proof fn lemma_byte_queue_fidelity(s: Seq<u8>, ks: Seq<int>)
    requires
        forall|i: int| 0 <= i < ks.len() ==> 0 <= #[trigger] ks[i],
        spec_size_sum(ks) == s.len(),
    ensures
        spec_read_pieces(s, ks) == s,
    decreases ks.len(),
{
    if ks.len() == 0 {
        assert(spec_read_pieces(s, ks) =~= s);
    } else {
        lemma_size_sum_nonneg(ks.drop_first());
        let rest = s.skip(ks[0]);
        lemma_byte_queue_fidelity(rest, ks.drop_first());
        assert(s.take(ks[0]) + rest =~= s);
    }
}

/// A sum of nonnegative read sizes is nonnegative.
proof fn lemma_size_sum_nonneg(ks: Seq<int>)
    requires
        forall|i: int| 0 <= i < ks.len() ==> 0 <= #[trigger] ks[i],
    ensures
        spec_size_sum(ks) >= 0,
    decreases ks.len(),
{
    if ks.len() > 0 {
        lemma_size_sum_nonneg(ks.drop_first());
    }
}

impl View for ByteQueue {
    type V = Seq<u8>;

    /// The unconsumed bytes, front to back.
    closed spec fn view(&self) -> Seq<u8> {
        self.chunk_views().flatten().skip(self.offset as int)
    }
}

impl ByteQueue {
    /// The byte sequences of the stored chunks, front to back, including the
    /// already-consumed front of the first chunk.
    spec fn chunk_views(&self) -> Seq<Seq<u8>> {
        self.chunks@.map_values(|b: Bytes| bytes_view(b))
    }

    /// The byte sequences still to be consumed from each chunk: the front
    /// chunk minus its consumed prefix, then the rest unchanged.
    spec fn tail_views(&self) -> Seq<Seq<u8>> {
        self.chunk_views().map(
            |j: int, s: Seq<u8>|
                if j == 0 {
                    s.skip(self.offset as int)
                } else {
                    s
                },
        )
    }

    /// The internal well-formedness of the queue: chunks are non-empty, the
    /// consumed offset stays inside the front chunk, and the byte counter
    /// matches the chunks. Constructors establish it; every method keeps it.
    pub closed spec fn wf(&self) -> bool {
        &&& forall|i: int|
            0 <= i < self.chunks@.len() ==> bytes_view(#[trigger] self.chunks@[i]).len() > 0
        &&& (self.chunks@.len() == 0 ==> self.offset == 0)
        &&& (self.chunks@.len() > 0 ==> (self.offset as int) < bytes_view(
            self.chunks@[0],
        ).len())
        &&& self.total + self.offset == self.chunk_views().flatten().len()
    }

    /// The unconsumed chunk tails flatten to exactly the queue's view.
    proof fn lemma_tail_views(&self)
        requires
            self.wf(),
        ensures
            self.tail_views().len() == self.chunks@.len(),
            self.tail_views().flatten() == self@,
            forall|j: int|
                0 < j < self.chunks@.len() ==> #[trigger] self.tail_views()[j]
                    == self.chunk_views()[j],
            self.chunks@.len() > 0 ==> self.tail_views()[0] == self.chunk_views()[0].skip(
                self.offset as int,
            ),
    {
        let cs = self.chunk_views();
        let tv = self.tail_views();
        if cs.len() == 0 {
            assert(tv.flatten() =~= self@);
        } else {
            lemma_flatten_first(cs);
            lemma_flatten_first(tv);
            assert(tv.drop_first() =~= cs.drop_first());
            assert(tv.flatten() =~= self@);
        }
    }

    /// An empty queue.
    pub fn new() -> (q: Self)
        ensures
            q.wf(),
            q@ == Seq::<u8>::empty(),
    {
        proof {
            assert(Seq::<Bytes>::empty().map_values(|b: Bytes| bytes_view(b))
                =~= Seq::<Seq<u8>>::empty());
        }
        ByteQueue { chunks: VecDeque::new(), offset: 0, total: 0 }
    }

    /// An empty queue with room reserved for `capacity` chunks.
    pub fn with_capacity(capacity: usize) -> (q: Self)
        ensures
            q.wf(),
            q@ == Seq::<u8>::empty(),
    {
        proof {
            assert(Seq::<Bytes>::empty().map_values(|b: Bytes| bytes_view(b))
                =~= Seq::<Seq<u8>>::empty());
        }
        ByteQueue { chunks: VecDeque::with_capacity(capacity), offset: 0, total: 0 }
    }

    /// The number of unconsumed bytes.
    pub fn len(&self) -> (n: usize)
        requires
            self.wf(),
        ensures
            n == self@.len(),
    {
        self.total
    }

    /// Whether no bytes are left to consume.
    pub fn is_empty(&self) -> (e: bool)
        requires
            self.wf(),
        ensures
            e == (self@.len() == 0),
    {
        self.total == 0
    }

    /// Appends `received` to the back of the queue; pushing an empty chunk
    /// is a no-op.
    pub fn push(&mut self, received: Bytes)
        requires
            old(self).wf(),
            old(self)@.len() + bytes_view(received).len() <= usize::MAX,
        ensures
            final(self).wf(),
            final(self)@ == old(self)@ + bytes_view(received),
    {
        let n = bytes_len(&received);
        if n == 0 {
            proof {
                assert(self@ + bytes_view(received) =~= self@);
            }
        } else {
            proof {
                self.chunk_views().lemma_flatten_push(bytes_view(received));
            }
            self.chunks.push_back(received);
            self.total = self.total + n;
            proof {
                assert(self.chunk_views() =~= old(self).chunk_views().push(bytes_view(received)));
                assert(self@ =~= old(self)@ + bytes_view(received));
            }
        }
    }

    /// Drops every buffered byte.
    pub fn clear(&mut self)
        ensures
            final(self).wf(),
            final(self)@ == Seq::<u8>::empty(),
    {
        self.chunks.clear();
        self.offset = 0;
        self.total = 0;
        proof {
            assert(self.chunk_views() =~= Seq::<Seq<u8>>::empty());
            assert(self@ =~= Seq::<u8>::empty());
        }
    }

    /// A copy of the first unconsumed byte, or `None` on an empty queue.
    pub fn first(&self) -> (r: Option<u8>)
        requires
            self.wf(),
        ensures
            match r {
                Some(b) => self@.len() > 0 && b == self@[0],
                None => self@.len() == 0,
            },
    {
        if self.total == 0 {
            None
        } else {
            proof {
                lemma_flatten_first(self.chunk_views());
            }
            let front = &self.chunks[0];
            let front_len = bytes_len(front);
            let piece = bytes_range_to_vec(front, self.offset, self.offset + 1);
            Some(piece[0])
        }
    }

    /// A copy of the first `amount` unconsumed bytes (all of them, if fewer
    /// are buffered), without consuming anything.
    pub fn peek(&self, amount: usize) -> (v: Vec<u8>)
        requires
            self.wf(),
        ensures
            v@ == self@.take(min(amount as int, self@.len() as int)),
    {
        proof {
            self.lemma_tail_views();
        }
        let k = if amount < self.total {
            amount
        } else {
            self.total
        };
        let ghost tv = self.tail_views();
        let chunk_count = self.chunks.len();
        let mut out: Vec<u8> = Vec::new();
        let mut i: usize = 0;
        proof {
            assert(tv.take(0int).flatten() =~= Seq::<u8>::empty());
            assert(out@ =~= self@.take(0int));
        }
        while out.len() < k
            invariant
                self.wf(),
                tv == self.tail_views(),
                k == min(amount as int, self@.len() as int),
                chunk_count == self.chunks@.len(),
                i <= chunk_count,
                out@.len() <= k,
                out@ == self@.take(out@.len() as int),
                out@.len() < k ==> out@.len() as int == tv.take(i as int).flatten().len(),
                out@.len() < k ==> i < chunk_count,
            decreases chunk_count - i,
        {
            proof {
                self.lemma_tail_views();
            }
            let start = if i == 0 {
                self.offset
            } else {
                0
            };
            let chunk_len = bytes_len(&self.chunks[i]);
            let avail = chunk_len - start;
            let want = k - out.len();
            let take_n = if avail < want {
                avail
            } else {
                want
            };
            proof {
                assert(tv[i as int].len() == avail);
                assert(bytes_view(self.chunks@[i as int]).subrange(
                    start as int,
                    (start + take_n) as int,
                ) =~= tv[i as int].take(take_n as int));
                lemma_take_in_flatten(tv, i as int, take_n as int);
            }
            let mut part = bytes_range_to_vec(&self.chunks[i], start, start + take_n);
            out.append(&mut part);
            i = i + 1;
            proof {
                if out@.len() < k {
                    // only a whole chunk was appended, so the running total
                    // still sits on a chunk boundary
                    lemma_flatten_take_succ(tv, i as int - 1);
                    assert(out@.len() as int == tv.take(i as int).flatten().len());
                    if i == chunk_count {
                        assert(tv.take(i as int) =~= tv);
                        assert(out@.len() == self@.len());
                        assert(false);
                    }
                }
            }
        }
        out
    }

    /// Removes the first `to_discard` unconsumed bytes (clearing the whole
    /// queue if it holds no more than that), copying nothing.
    pub fn discard_bytes(&mut self, to_discard: usize)
        requires
            old(self).wf(),
        ensures
            final(self).wf(),
            final(self)@ == old(self)@.skip(min(to_discard as int, old(self)@.len() as int)),
    {
        if to_discard >= self.total {
            self.clear();
            proof {
                assert(self@ =~= old(self)@.skip(
                    min(to_discard as int, old(self)@.len() as int),
                ));
            }
            return ;
        }
        let ghost orig = old(self)@;
        let mut remaining = to_discard;
        while remaining > 0
            invariant
                self.wf(),
                remaining <= to_discard,
                self@ == orig.skip((to_discard - remaining) as int),
                to_discard < orig.len(),
                self.total as int == orig.len() - (to_discard - remaining),
            decreases remaining,
        {
            proof {
                lemma_flatten_first(self.chunk_views());
            }
            let front_len = bytes_len(&self.chunks[0]);
            let front_avail = front_len - self.offset;
            let ghost pre = self@;
            if front_avail > remaining {
                self.offset = self.offset + remaining;
                self.total = self.total - remaining;
                proof {
                    assert(self@ =~= pre.skip(remaining as int));
                    assert(self@ =~= orig.skip(to_discard as int));
                }
                remaining = 0;
            } else {
                let ghost pre_cs = self.chunk_views();
                self.chunks.pop_front();
                self.offset = 0;
                self.total = self.total - front_avail;
                remaining = remaining - front_avail;
                proof {
                    assert(self.chunk_views() =~= pre_cs.drop_first());
                    lemma_flatten_first(pre_cs);
                    assert(self@ =~= pre.skip(front_avail as int));
                    assert(self@ =~= orig.skip((to_discard - remaining) as int));
                }
            }
        }
        proof {
            assert(self@ =~= old(self)@.skip(min(to_discard as int, old(self)@.len() as int)));
        }
    }

    /// Removes and returns exactly the first `n` unconsumed bytes.
    pub fn read_exact(&mut self, n: usize) -> (v: Vec<u8>)
        requires
            old(self).wf(),
            n <= old(self)@.len(),
        ensures
            final(self).wf(),
            v@ == old(self)@.take(n as int),
            final(self)@ == old(self)@.skip(n as int),
    {
        let v = self.peek(n);
        self.discard_bytes(n);
        v
    }

    /// Copies up to `max` bytes out of the front chunk only, consuming what
    /// it returns. The result may be shorter than `max` even when more bytes
    /// are buffered — they sit in later chunks — so callers loop; but as
    /// long as bytes are buffered and `max > 0`, progress is guaranteed.
    pub fn read(&mut self, max: usize) -> (v: Vec<u8>)
        requires
            old(self).wf(),
        ensures
            final(self).wf(),
            v@.len() <= max,
            v@ == old(self)@.take(v@.len() as int),
            final(self)@ == old(self)@.skip(v@.len() as int),
            old(self)@.len() > 0 && max > 0 ==> v@.len() > 0,
    {
        if self.total == 0 || max == 0 {
            let v: Vec<u8> = Vec::new();
            proof {
                assert(v@ =~= old(self)@.take(0int));
                assert(self@ =~= old(self)@.skip(0int));
            }
            return v;
        }
        proof {
            lemma_flatten_first(self.chunk_views());
        }
        let front_len = bytes_len(&self.chunks[0]);
        let front_avail = front_len - self.offset;
        let k = if front_avail < max {
            front_avail
        } else {
            max
        };
        let v = bytes_range_to_vec(&self.chunks[0], self.offset, self.offset + k);
        proof {
            assert(v@ =~= old(self)@.take(k as int));
        }
        self.discard_bytes(k);
        v
    }
}

} // verus!

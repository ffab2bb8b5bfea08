//! Analysis windows: a sliding ring buffer over the most recent samples and a
//! tumbling accumulator that hands out complete, non-overlapping windows.
use vstd::prelude::*;

verus! {

/// The last `cap` elements of `s`, oldest first; `s` must hold at least `cap`.
pub open spec fn latest(s: Seq<i16>, cap: nat) -> Seq<i16>
    recommends
        cap <= s.len(),
{
    s.subrange(s.len() - cap, s.len() as int)
}

/// `n` silent samples.
pub open spec fn silence(n: nat) -> Seq<i16> {
    Seq::new(n, |i: int| 0i16)
}

/// A fixed-capacity circular buffer of samples. Writing overwrites the oldest
/// sample; reading returns the whole window in chronological order.
pub struct RingBuffer {
    buffer: Vec<i16>,
    next: usize,
    filled: usize,
}

impl RingBuffer {
    pub closed spec fn wf(&self) -> bool {
        &&& self.buffer@.len() > 0
        &&& self.next < self.buffer@.len()
        &&& self.filled <= self.buffer@.len()
    }

    /// How many of the window's samples were written rather than the initial
    /// silence: the number of samples written, up to the capacity.
    pub closed spec fn filled(&self) -> nat {
        self.filled as nat
    }

    /// Number of samples the window holds.
    pub closed spec fn capacity(&self) -> nat {
        self.buffer@.len()
    }

    /// The window in chronological order, oldest sample first.
    pub closed spec fn view(&self) -> Seq<i16> {
        self.buffer@.subrange(self.next as int, self.buffer@.len() as int) + self.buffer@.subrange(
            0,
            self.next as int,
        )
    }

    /// A window of `capacity` silent samples.
    pub fn new(capacity: usize) -> (r: RingBuffer)
        requires
            capacity > 0,
        ensures
            r.wf(),
            r.capacity() == capacity,
            r@ == silence(capacity as nat),
            r.filled() == 0,
    {
        let buffer = vec![0i16; capacity];
        let r = RingBuffer { buffer, next: 0, filled: 0 };
        assert(r@ =~= silence(capacity as nat));
        r
    }

    pub fn capacity_len(&self) -> (r: usize)
        requires
            self.wf(),
        ensures
            r == self.capacity(),
    {
        self.buffer.len()
    }

    /// Writes one sample over the oldest one.
    pub fn push(&mut self, sample: i16)
        requires
            old(self).wf(),
        ensures
            final(self).wf(),
            final(self).capacity() == old(self).capacity(),
            final(self)@ == latest(old(self)@.push(sample), old(self).capacity()),
            final(self).filled() == if old(self).filled() < old(self).capacity() {
                old(self).filled() + 1
            } else {
                old(self).capacity()
            },
    {
        let ghost before = self@;
        let ghost cap = self.buffer@.len();
        let ghost old_buf = self.buffer@;
        let n = self.next;
        if self.filled < self.buffer.len() {
            self.filled = self.filled + 1;
        }
        self.buffer.set(n, sample);
        if n == self.buffer.len() - 1 {
            self.next = 0;
        } else {
            self.next = n + 1;
        }
        assert(self@ =~= latest(before.push(sample), cap)) by {
            assert forall|i: int| 0 <= i < cap implies #[trigger] self@[i] == latest(
                before.push(sample),
                cap,
            )[i] by {
                if i < cap - n - 1 {
                    assert(self@[i] == old_buf[n + 1 + i]);
                    assert(before[i + 1] == old_buf[n + 1 + i]);
                } else if i < cap - 1 {
                    assert(before[i + 1] == old_buf[i + 1 - (cap - n)]);
                }
            }
        }
    }

    /// Writes `data` in order, each sample over the oldest one.
    pub fn push_samples(&mut self, data: &[i16])
        requires
            old(self).wf(),
        ensures
            final(self).wf(),
            final(self).capacity() == old(self).capacity(),
            final(self)@ == latest(old(self)@ + data@, old(self).capacity()),
            final(self).filled() == if old(self).filled() + data@.len() < old(self).capacity() {
                old(self).filled() + data@.len()
            } else {
                old(self).capacity()
            },
    {
        let ghost start = self@;
        let ghost start_filled = self.filled();
        let ghost cap = self.capacity();
        let mut k: usize = 0;
        while k < data.len()
            invariant
                self.wf(),
                self.capacity() == cap,
                cap == start.len(),
                k <= data@.len(),
                self@ == latest(start + data@.subrange(0, k as int), cap),
                start_filled == old(self).filled(),
                self.filled() == if start_filled + k < cap {
                    (start_filled + k) as nat
                } else {
                    cap
                },
            decreases data@.len() - k,
        {
            let ghost prev = self@;
            self.push(data[k]);
            proof {
                lemma_latest_push(start + data@.subrange(0, k as int), cap, data@[k as int]);
                assert(start + data@.subrange(0, k + 1) =~= (start + data@.subrange(
                    0,
                    k as int,
                )).push(data@[k as int]));
            }
            k = k + 1;
        }
        assert(data@.subrange(0, data@.len() as int) =~= data@);
    }

    /// Every sample of the window was written: the buffer has been filled
    /// at least once since it was made.
    pub fn is_full(&self) -> (r: bool)
        requires
            self.wf(),
        ensures
            r == (self.filled() == self.capacity()),
    {
        self.filled == self.buffer.len()
    }

    /// The window linearised in chronological order: oldest first, newest last.
    pub fn ordered_samples(&self) -> (r: Vec<i16>)
        requires
            self.wf(),
        ensures
            r@ == self@,
            r@.len() == self.capacity(),
    {
        let mut r: Vec<i16> = Vec::with_capacity(self.buffer.len());
        let mut i: usize = self.next;
        while i < self.buffer.len()
            invariant
                self.wf(),
                self.next <= i <= self.buffer@.len(),
                r@ == self.buffer@.subrange(self.next as int, i as int),
            decreases self.buffer@.len() - i,
        {
            r.push(self.buffer[i]);
            i = i + 1;
            assert(r@ =~= self.buffer@.subrange(self.next as int, i as int));
        }
        let mut j: usize = 0;
        while j < self.next
            invariant
                self.wf(),
                j <= self.next,
                r@ == self.buffer@.subrange(self.next as int, self.buffer@.len() as int)
                    + self.buffer@.subrange(0, j as int),
            decreases self.next - j,
        {
            r.push(self.buffer[j]);
            j = j + 1;
            assert(r@ =~= self.buffer@.subrange(self.next as int, self.buffer@.len() as int)
                + self.buffer@.subrange(0, j as int));
        }
        r
    }
}

/// Keeping the latest `cap` after one more sample only looks at the latest `cap` before it.
pub proof fn lemma_latest_push(s: Seq<i16>, cap: nat, x: i16)
    requires
        cap <= s.len(),
    ensures
        latest(latest(s, cap).push(x), cap) == latest(s.push(x), cap),
{
    assert(latest(latest(s, cap).push(x), cap) =~= latest(s.push(x), cap));
}

/// Feeding samples in two parts leaves the same window as feeding them at once.
pub proof fn lemma_latest_concat(s: Seq<i16>, t: Seq<i16>, cap: nat)
    requires
        cap <= s.len(),
    ensures
        latest(latest(s, cap) + t, cap) == latest(s + t, cap),
{
    assert(latest(latest(s, cap) + t, cap) =~= latest(s + t, cap));
}

/// Once the buffer has wrapped, that is once at least a full window of samples
/// has been written after the silent start, reading it out gives exactly the
/// last `cap` samples written, oldest first and newest last.
pub proof fn lemma_window_after_wrap(cap: nat, written: Seq<i16>)
    requires
        cap > 0,
        written.len() >= cap,
    ensures
        latest(silence(cap) + written, cap) == written.subrange(
            written.len() - cap,
            written.len() as int,
        ),
        latest(silence(cap) + written, cap).len() == cap,
        forall|i: int|
            0 <= i < cap ==> #[trigger] latest(silence(cap) + written, cap)[i] == written[written.len()
                - cap + i],
{
    assert(latest(silence(cap) + written, cap) =~= written.subrange(
        written.len() - cap,
        written.len() as int,
    ));
}

/// The window that starts as `w` after each chunk of `chunks` is written in turn.
pub open spec fn after_chunks(w: Seq<i16>, chunks: Seq<Seq<i16>>, cap: nat) -> Seq<i16>
    decreases chunks.len(),
{
    if chunks.len() == 0 {
        w
    } else {
        latest(after_chunks(w, chunks.drop_last(), cap) + chunks.last(), cap)
    }
}

/// Writing a stream into a new buffer callback by callback, in chunks of any
/// sizes, leaves the same window as writing the whole stream at once: the last
/// `cap` samples of the silent start followed by the stream.
pub proof fn lemma_window_after_chunks(cap: nat, chunks: Seq<Seq<i16>>)
    ensures
        after_chunks(silence(cap), chunks, cap) == latest(silence(cap) + chunks.flatten(), cap),
    decreases chunks.len(),
{
    if chunks.len() == 0 {
        assert(chunks.flatten() =~= Seq::<i16>::empty());
        assert(latest(silence(cap) + chunks.flatten(), cap) =~= silence(cap));
    } else {
        let front = chunks.drop_last();
        let c = chunks.last();
        lemma_window_after_chunks(cap, front);
        front.lemma_flatten_push(c);
        assert(front.push(c) == chunks);
        lemma_latest_concat(silence(cap) + front.flatten(), c, cap);
        assert(silence(cap) + front.flatten() + c =~= silence(cap) + chunks.flatten());
    }
}

/// Collects samples into complete, non-overlapping windows of a fixed size.
/// Samples that do not yet fill a window wait for the next call.
pub struct TumblingWindow {
    pending: Vec<i16>,
    size: usize,
}

impl TumblingWindow {
    pub closed spec fn wf(&self) -> bool {
        &&& self.size > 0
        &&& self.pending@.len() < self.size
    }

    /// Samples received that do not yet fill a window.
    pub closed spec fn view(&self) -> Seq<i16> {
        self.pending@
    }

    /// Length of every window handed out.
    pub closed spec fn window_size(&self) -> nat {
        self.size as nat
    }

    pub fn new(size: usize) -> (r: TumblingWindow)
        requires
            size > 0,
        ensures
            r.wf(),
            r.window_size() == size,
            r@ == Seq::<i16>::empty(),
            r@.len() < r.window_size(),
    {
        TumblingWindow { pending: Vec::new(), size }
    }

    /// Appends `data` and returns, in order, every window that became complete.
    /// Window `k` holds samples `k * size .. (k + 1) * size` of the pending
    /// samples followed by `data`; what is left over stays pending.
    pub fn push_samples(&mut self, data: &[i16]) -> (windows: Vec<Vec<i16>>)
        requires
            old(self).wf(),
        ensures
            final(self).wf(),
            final(self).window_size() == old(self).window_size(),
            final(self)@.len() < final(self).window_size(),
            windows@.len() * old(self).window_size() + final(self)@.len() == old(self)@.len()
                + data@.len(),
            forall|k: int|
                0 <= k < windows@.len() ==> #[trigger] windows@[k]@ == (old(self)@
                    + data@).subrange(
                    k * old(self).window_size(),
                    (k + 1) * old(self).window_size(),
                ),
            final(self)@ == (old(self)@ + data@).subrange(
                (windows@.len() * old(self).window_size()) as int,
                (old(self)@.len() + data@.len()) as int,
            ),
    {
        let ghost all = self@ + data@;
        let ghost size = self.size as int;
        let mut windows: Vec<Vec<i16>> = Vec::new();
        let mut i: usize = 0;
        assert(windows@.len() * size == 0);
        assert(self.pending@ =~= all.subrange(0, old(self)@.len() as int));
        while i < data.len()
            invariant
                self.wf(),
                self.size == size,
                all == old(self)@ + data@,
                i <= data@.len(),
                windows@.len() * size + self.pending@.len() == old(self)@.len() + i,
                forall|k: int|
                    0 <= k < windows@.len() ==> #[trigger] windows@[k]@ == all.subrange(
                        k * size,
                        (k + 1) * size,
                    ),
                self.pending@ == all.subrange(windows@.len() * size, old(self)@.len() + i),
            decreases data@.len() - i,
        {
            self.pending.push(data[i]);
            i = i + 1;
            assert(self.pending@ =~= all.subrange(windows@.len() * size, old(self)@.len() + i));
            if self.pending.len() == self.size {
                let mut full: Vec<i16> = Vec::new();
                core::mem::swap(&mut full, &mut self.pending);
                let ghost w = windows@.len();
                windows.push(full);
                assert((w + 1) * size == w * size + size) by (nonlinear_arith);
                assert(self.pending@ =~= all.subrange(windows@.len() * size, old(self)@.len() + i));
            }
        }
        assert(all.subrange(windows@.len() * size, (old(self)@.len() + data@.len()) as int)
            == self.pending@);
        windows
    }
}

} // verus!

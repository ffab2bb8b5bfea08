//! Frame-rate measurement over the last 32 presented frames.
use std::time::Instant;
use vstd::prelude::*;

verus! {

#[verifier::external_type_specification]
#[verifier::external_body]
pub struct ExInstant(std::time::Instant);

/// Relies on `Instant::now` for the current time; nothing is known of its value.
pub assume_specification[ std::time::Instant::now ]() -> std::time::Instant;

/// Relies on `Instant::elapsed` for the time since an instant; nothing is known of its value.
pub assume_specification[ std::time::Instant::elapsed ](i: &std::time::Instant) -> core::time::Duration;

/// Relies on `Duration::as_millis` for whole milliseconds; nothing is known of its value.
pub assume_specification[ core::time::Duration::as_millis ](d: &core::time::Duration) -> u128;

/// Number of frame times kept.
pub const FRAME_WINDOW: usize = 32;

/// Sum of the recorded frame times.
pub open spec fn time_sum(s: Seq<u64>) -> nat
    decreases s.len(),
{
    if s.len() == 0 {
        0
    } else {
        time_sum(s.drop_last()) + (s.last() as nat)
    }
}

/// Frames per second over the recorded frame times, rounded down; `None`
/// while they sum to zero.
pub open spec fn fps_of(s: Seq<u64>) -> Option<nat> {
    if time_sum(s) == 0 {
        None
    } else {
        Some((FRAME_WINDOW as nat * 1000) / time_sum(s))
    }
}

/// The durations in milliseconds of the last 32 frames, written round-robin.
pub struct Fps {
    buffer: [u64; 32],
    next: usize,
    now: Instant,
}

impl Fps {
    pub closed spec fn wf(&self) -> bool {
        self.next < FRAME_WINDOW
    }

    /// The recorded frame times, in slot order.
    pub closed spec fn view(&self) -> Seq<u64> {
        self.buffer@
    }

    /// The slot the next frame time goes to.
    pub closed spec fn next_slot(&self) -> nat {
        self.next as nat
    }

    /// Every `Fps` keeps exactly 32 frame times, and a well-formed one points
    /// at one of them.
    pub proof fn lemma_slots(&self)
        ensures
            self@.len() == 32,
            self.wf() ==> self.next_slot() < 32,
    {
    }

    pub fn new() -> (r: Fps)
        ensures
            r.wf(),
            r@ == Seq::new(32, |i: int| 0u64),
            r.next_slot() == 0,
    {
        let r = Fps { buffer: [0; 32], next: 0, now: Instant::now() };
        assert(r@ =~= Seq::new(32, |i: int| 0u64));
        r
    }

    /// Records the time since the previous frame in the next slot and starts
    /// timing the next frame.
    pub fn presented(&mut self)
        requires
            old(self).wf(),
        ensures
            final(self).wf(),
            final(self)@.len() == 32,
            final(self).next_slot() == (old(self).next_slot() + 1) % 32,
            forall|i: int|
                0 <= i < 32 && i != old(self).next_slot() ==> final(self)@[i] == old(self)@[i],
    {
        let t = self.now.elapsed().as_millis();
        self.now = Instant::now();
        self.record_frame(t);
    }

    /// Stores a frame time of `elapsed_ms` milliseconds, saturated to `u64`,
    /// in the next slot and moves on to the following slot.
    pub fn record_frame(&mut self, elapsed_ms: u128)
        requires
            old(self).wf(),
        ensures
            final(self).wf(),
            final(self)@.len() == 32,
            final(self)@ == old(self)@.update(
                old(self).next_slot() as int,
                if elapsed_ms > u64::MAX {
                    u64::MAX
                } else {
                    elapsed_ms as u64
                },
            ),
            final(self).next_slot() == (old(self).next_slot() + 1) % 32,
    {
        let ms: u64 = if elapsed_ms > u64::MAX as u128 {
            u64::MAX
        } else {
            elapsed_ms as u64
        };
        self.buffer[self.next] = ms;
        self.next = (self.next + 1) % FRAME_WINDOW;
    }

    /// Frames per second over the last 32 frames, rounded down; `None` while
    /// no time has been recorded.
    pub fn fps(&self) -> (r: Option<u64>)
        ensures
            match r {
                Some(f) => fps_of(self@) == Some(f as nat),
                None => fps_of(self@) is None,
            },
    {
        let mut total: u128 = 0;
        let mut i: usize = 0;
        while i < FRAME_WINDOW
            invariant
                i <= FRAME_WINDOW,
                self@.len() == FRAME_WINDOW,
                total == time_sum(self@.take(i as int)),
                total <= i * (u64::MAX as nat),
            decreases FRAME_WINDOW - i,
        {
            assert(self@.take(i + 1).drop_last() =~= self@.take(i as int));
            total = total + self.buffer[i] as u128;
            i = i + 1;
        }
        assert(self@.take(32) =~= self@);
        if total == 0 {
            None
        } else {
            Some((32000 / total) as u64)
        }
    }
}

} // verus!

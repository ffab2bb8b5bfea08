//! Per-frame buffer upload planning. Each frame rewrites the contents of a few
//! device buffers (time and feature uniform, slider values, eye positions);
//! a buffer is reallocated only when its content outgrows it, so its capacity
//! always covers what is written into it. A slot that does not exist is skipped.
use vstd::prelude::*;

verus! {

/// Bytes of the uniform: elapsed time, feature value and two padding floats.
pub const UNIFORM_BYTES: u64 = 16;

/// Bytes of one slider value in the storage array.
pub const FLOAT_BYTES: u64 = 4;

/// Bytes of one eye position (two floats) in the storage array.
pub const POINT_BYTES: u64 = 8;

#[derive(Clone, Copy, Debug, PartialEq, Eq, Structural)]
pub enum BufferSlot {
    Uniform,
    Sliders,
    Eyes,
}

/// One thing to do to a device buffer this frame.
#[derive(Clone, Copy, Debug, PartialEq, Eq, Structural)]
pub enum UploadAction {
    /// Drop the buffer and allocate it again with `capacity` bytes.
    Recreate { slot: BufferSlot, capacity: u64 },
    /// Write `bytes` bytes of fresh content at offset zero.
    Write { slot: BufferSlot, bytes: u64 },
}

/// The actions for one slot of capacity `capacity` (`None`: no such buffer)
/// that must receive `need` bytes (`None`: nothing to write).
pub open spec fn slot_actions(slot: BufferSlot, capacity: Option<u64>, need: Option<u64>) -> Seq<
    UploadAction,
> {
    match (capacity, need) {
        (Some(c), Some(n)) => if n > c {
            seq![
                UploadAction::Recreate { slot, capacity: n },
                UploadAction::Write { slot, bytes: n },
            ]
        } else {
            seq![UploadAction::Write { slot, bytes: n }]
        },
        _ => Seq::empty(),
    }
}

/// The capacity of a slot after its actions.
pub open spec fn grown(capacity: Option<u64>, need: Option<u64>) -> Option<u64> {
    match (capacity, need) {
        (Some(c), Some(n)) => Some(if n > c { n } else { c }),
        _ => capacity,
    }
}

/// Bytes needed for the slider values, if there are sliders.
pub open spec fn slider_bytes(slider_count: Option<usize>) -> Option<u64> {
    match slider_count {
        Some(n) => Some((n * FLOAT_BYTES) as u64),
        None => None,
    }
}

/// The capacities in bytes of the device buffers that exist.
pub struct GpuFrameBuffers {
    pub uniform: Option<u64>,
    pub sliders: Option<u64>,
    pub eyes: Option<u64>,
}

fn plan_slot(
    capacity: &mut Option<u64>,
    slot: BufferSlot,
    need: Option<u64>,
    actions: &mut Vec<UploadAction>,
)
    ensures
        final(actions)@ == old(actions)@ + slot_actions(slot, *old(capacity), need),
        *final(capacity) == grown(*old(capacity), need),
{
    match (*capacity, need) {
        (Some(c), Some(n)) => {
            if n > c {
                actions.push(UploadAction::Recreate { slot, capacity: n });
                actions.push(UploadAction::Write { slot, bytes: n });
                *capacity = Some(n);
            } else {
                actions.push(UploadAction::Write { slot, bytes: n });
            }
        },
        _ => {},
    }
    assert(actions@ =~= old(actions)@ + slot_actions(slot, *old(capacity), need));
}

impl GpuFrameBuffers {
    /// The three buffers as first allocated: the uniform, room for `slider_count`
    /// slider values, and room for one eye position.
    pub fn new(slider_count: usize) -> (r: GpuFrameBuffers)
        requires
            slider_count <= u64::MAX / FLOAT_BYTES,
        ensures
            r.uniform == Some(UNIFORM_BYTES),
            r.sliders == Some((slider_count * FLOAT_BYTES) as u64),
            r.eyes == Some(POINT_BYTES),
    {
        GpuFrameBuffers {
            uniform: Some(UNIFORM_BYTES),
            sliders: Some(slider_count as u64 * FLOAT_BYTES),
            eyes: Some(POINT_BYTES),
        }
    }

    /// This frame's buffer work, in order: uniform, sliders (only when there
    /// are sliders), eye positions. A slot whose buffer does not exist gets no
    /// action; a buffer too small for its content is recreated first.
    pub fn plan_upload(&mut self, slider_count: Option<usize>, eye_points: usize) -> (r: Vec<
        UploadAction,
    >)
        requires
            slider_count matches Some(n) ==> n <= u64::MAX / FLOAT_BYTES,
            eye_points <= u64::MAX / POINT_BYTES,
        ensures
            r@ == slot_actions(BufferSlot::Uniform, old(self).uniform, Some(UNIFORM_BYTES))
                + slot_actions(BufferSlot::Sliders, old(self).sliders, slider_bytes(slider_count))
                + slot_actions(
                BufferSlot::Eyes,
                old(self).eyes,
                Some((eye_points * POINT_BYTES) as u64),
            ),
            final(self).uniform == grown(old(self).uniform, Some(UNIFORM_BYTES)),
            final(self).sliders == grown(old(self).sliders, slider_bytes(slider_count)),
            final(self).eyes == grown(old(self).eyes, Some((eye_points * POINT_BYTES) as u64)),
    {
        let mut actions: Vec<UploadAction> = Vec::new();
        plan_slot(&mut self.uniform, BufferSlot::Uniform, Some(UNIFORM_BYTES), &mut actions);
        let sliders = match slider_count {
            Some(n) => Some(n as u64 * FLOAT_BYTES),
            None => None,
        };
        plan_slot(&mut self.sliders, BufferSlot::Sliders, sliders, &mut actions);
        plan_slot(&mut self.eyes, BufferSlot::Eyes, Some(eye_points as u64 * POINT_BYTES), &mut actions);
        assert(actions@ =~= slot_actions(BufferSlot::Uniform, old(self).uniform, Some(UNIFORM_BYTES))
            + slot_actions(BufferSlot::Sliders, old(self).sliders, slider_bytes(slider_count))
            + slot_actions(
            BufferSlot::Eyes,
            old(self).eyes,
            Some((eye_points * POINT_BYTES) as u64),
        ));
        actions
    }
}

/// After planning, every buffer that exists is at least as large as what is
/// written into it this frame, and no buffer ever shrinks.
pub proof fn lemma_capacity_covers_content(
    slot: BufferSlot,
    capacity: Option<u64>,
    need: Option<u64>,
)
    ensures
        capacity is Some && need is Some ==> grown(capacity, need) is Some && grown(
            capacity,
            need,
        )->Some_0 >= need->Some_0 && grown(capacity, need)->Some_0 >= capacity->Some_0,
        capacity is None ==> grown(capacity, need) is None && slot_actions(
            slot,
            capacity,
            need,
        ).len() == 0,
        need is None ==> grown(capacity, need) == capacity,
{
}

} // verus!

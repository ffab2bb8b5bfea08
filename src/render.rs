//! The render-surface state machine: a live window surface or a one-shot
//! offscreen render exported to a file, what one frame does and in which
//! order, how acquire failures are handled, and the input the frame loop
//! forwards to the sliders.
use crate::sync::{GpuFrameBuffers, FLOAT_BYTES, POINT_BYTES, UNIFORM_BYTES};
use crate::ui::{key_effect, KeyInput, UIElements, SLIDER_COUNT, UNIT};
use vstd::prelude::*;

verus! {

#[derive(Clone, Copy, Debug, PartialEq, Eq, Structural)]
pub struct WindowSize {
    pub width: u32,
    pub height: u32,
}

/// Where frames go.
#[derive(Clone, Copy, Debug, PartialEq, Eq, Structural)]
pub enum RenderTarget {
    Window,
    File,
}

#[derive(Clone, Copy, Debug, PartialEq, Eq, Structural)]
pub enum SurfaceState {
    Uninitialized,
    /// A presentable window surface configured with this size.
    Window(WindowSize),
    /// An offscreen texture; `exported` once its one frame was written out.
    File { exported: bool },
}

/// Why the next presentable image could not be acquired.
#[derive(Clone, Copy, Debug, PartialEq, Eq, Structural)]
pub enum SurfaceFault {
    Timeout,
    Outdated,
    Lost,
    OutOfMemory,
}

/// What the frame loop does after an acquire failure.
#[derive(Clone, Copy, Debug, PartialEq, Eq, Structural)]
pub enum TickOutcome {
    /// Configure the surface again with this size and retry on the next tick.
    Reconfigure(WindowSize),
    /// Stop the render loop.
    Exit,
    /// Report the fault and try again on the next tick.
    Skip,
}

/// One step of a frame, in the order the frame loop performs them.
#[derive(Clone, Copy, Debug, PartialEq, Eq, Structural)]
pub enum FrameStep {
    AcquireTarget,
    ClearPass,
    DrawScene,
    DrawSliders,
    UploadBuffers,
    CopyToStaging,
    Submit,
    Present,
    AwaitReadback,
    WriteImage,
}

/// The steps of one frame: acquire, clear, draw the scene and, when shown, the
/// sliders, upload this frame's buffers, then submit and present (window), or
/// copy to a staging buffer, submit, wait for the read-back and write the image
/// (file).
pub open spec fn frame_plan(window: bool, sliders: bool) -> Seq<FrameStep> {
    let draw = seq![FrameStep::AcquireTarget, FrameStep::ClearPass, FrameStep::DrawScene] + if sliders {
        seq![FrameStep::DrawSliders]
    } else {
        Seq::empty()
    };
    if window {
        draw + seq![FrameStep::UploadBuffers, FrameStep::Submit, FrameStep::Present]
    } else {
        draw + seq![
            FrameStep::UploadBuffers,
            FrameStep::CopyToStaging,
            FrameStep::Submit,
            FrameStep::AwaitReadback,
            FrameStep::WriteImage,
        ]
    }
}

/// Which of the offered surface formats to use, given whether each is sRGB:
/// the first whose sRGB-ness matches the request, else the first one.
pub fn pick_format(is_srgb: &Vec<bool>, srgb: bool) -> (r: usize)
    requires
        is_srgb@.len() > 0,
    ensures
        r < is_srgb@.len(),
        (exists|i: int| 0 <= i < is_srgb@.len() && is_srgb@[i] == srgb) ==> is_srgb@[r as int]
            == srgb && forall|j: int| 0 <= j < r ==> is_srgb@[j] != srgb,
        (forall|i: int| 0 <= i < is_srgb@.len() ==> is_srgb@[i] != srgb) ==> r == 0,
{
    let mut i: usize = 0;
    while i < is_srgb.len()
        invariant
            i <= is_srgb@.len(),
            forall|j: int| 0 <= j < i ==> is_srgb@[j] != srgb,
        decreases is_srgb@.len() - i,
    {
        if is_srgb[i] == srgb {
            return i;
        }
        i = i + 1;
    }
    0
}

/// The state after a resize request.
pub open spec fn after_resize(state: SurfaceState, new_size: WindowSize) -> SurfaceState {
    match state {
        SurfaceState::Window(_) => if new_size.width > 0 && new_size.height > 0 {
            SurfaceState::Window(new_size)
        } else {
            state
        },
        _ => state,
    }
}

pub struct RenderSurfaceStateMachine {
    pub state: SurfaceState,
}

impl RenderSurfaceStateMachine {
    pub fn new() -> (r: Self)
        ensures
            r.state == SurfaceState::Uninitialized,
    {
        RenderSurfaceStateMachine { state: SurfaceState::Uninitialized }
    }

    /// Leaves `Uninitialized` for a window surface of `size` or for a file
    /// render; true when the state changed. A configured machine stays as it is.
    pub fn configure(&mut self, target: RenderTarget, size: WindowSize) -> (r: bool)
        ensures
            r == (old(self).state == SurfaceState::Uninitialized),
            r ==> final(self).state == match target {
                RenderTarget::Window => SurfaceState::Window(size),
                RenderTarget::File => SurfaceState::File { exported: false },
            },
            !r ==> final(self).state == old(self).state,
    {
        match self.state {
            SurfaceState::Uninitialized => {
                self.state = match target {
                    RenderTarget::Window => SurfaceState::Window(size),
                    RenderTarget::File => SurfaceState::File { exported: false },
                };
                true
            },
            _ => false,
        }
    }

    /// A window surface takes the new size; a size of zero area, or a machine
    /// that is not a window, ignores the request. True when the surface must
    /// be configured again.
    pub fn resize(&mut self, new_size: WindowSize) -> (r: bool)
        ensures
            final(self).state == after_resize(old(self).state, new_size),
            r == (old(self).state is Window && new_size.width > 0 && new_size.height > 0),
            (new_size.width == 0 || new_size.height == 0) ==> final(self).state == old(self).state
                && !r,
    {
        match self.state {
            SurfaceState::Window(_) => {
                if new_size.width > 0 && new_size.height > 0 {
                    self.state = SurfaceState::Window(new_size);
                    true
                } else {
                    false
                }
            },
            _ => false,
        }
    }

    /// The steps of the next frame, or `None` when there is nothing to render:
    /// not configured yet, or the file was already written.
    pub fn frame_steps(&self, sliders_visible: bool) -> (r: Option<Vec<FrameStep>>)
        ensures
            match self.state {
                SurfaceState::Window(_) => r matches Some(v) && v@ == frame_plan(true, sliders_visible),
                SurfaceState::File { exported: false } => r matches Some(v) && v@ == frame_plan(
                    false,
                    sliders_visible,
                ),
                _ => r is None,
            },
    {
        let window = match self.state {
            SurfaceState::Window(_) => true,
            SurfaceState::File { exported: false } => false,
            _ => {
                return None;
            },
        };
        let mut v: Vec<FrameStep> = Vec::new();
        v.push(FrameStep::AcquireTarget);
        v.push(FrameStep::ClearPass);
        v.push(FrameStep::DrawScene);
        if sliders_visible {
            v.push(FrameStep::DrawSliders);
        }
        v.push(FrameStep::UploadBuffers);
        if window {
            v.push(FrameStep::Submit);
            v.push(FrameStep::Present);
        } else {
            v.push(FrameStep::CopyToStaging);
            v.push(FrameStep::Submit);
            v.push(FrameStep::AwaitReadback);
            v.push(FrameStep::WriteImage);
        }
        assert(v@ =~= frame_plan(window, sliders_visible));
        Some(v)
    }

    /// A lost surface is configured again with the size it had and retried on
    /// the next tick; running out of memory ends the loop; any other fault
    /// skips this tick.
    pub fn acquire_failed(&self, fault: SurfaceFault) -> (r: TickOutcome)
        ensures
            r == match (fault, self.state) {
                (SurfaceFault::Lost, SurfaceState::Window(size)) => TickOutcome::Reconfigure(size),
                (SurfaceFault::OutOfMemory, _) => TickOutcome::Exit,
                _ => TickOutcome::Skip,
            },
    {
        match (fault, self.state) {
            (SurfaceFault::Lost, SurfaceState::Window(size)) => TickOutcome::Reconfigure(size),
            (SurfaceFault::OutOfMemory, _) => TickOutcome::Exit,
            _ => TickOutcome::Skip,
        }
    }

    /// Records a completed frame. A file render is then exported and done;
    /// true when the render loop should stop.
    pub fn frame_done(&mut self) -> (r: bool)
        ensures
            final(self).state == match old(self).state {
                SurfaceState::File { .. } => SurfaceState::File { exported: true },
                s => s,
            },
            r == (old(self).state is File),
    {
        match self.state {
            SurfaceState::File { .. } => {
                self.state = SurfaceState::File { exported: true };
                true
            },
            _ => false,
        }
    }
}

/// A pixel position in a window of `size` as normalised device coordinates in
/// units of `1 / UNIT`: x runs from -1 at the left edge to 1 at the right, y
/// from 1 at the top to -1 at the bottom.
pub open spec fn ndc_of(x: u32, y: u32, size: WindowSize) -> (i64, i64) {
    (
        ((2 * x * UNIT) / (size.width as int) - UNIT) as i64,
        (UNIT - (2 * y * UNIT) / (size.height as int)) as i64,
    )
}

pub fn pixel_to_ndc(x: u32, y: u32, size: WindowSize) -> (r: (i64, i64))
    requires
        size.width > 0,
        size.height > 0,
    ensures
        r == ndc_of(x, y, size),
{
    proof {
        assert(2 * (x as int) * UNIT <= 2 * (u32::MAX as int) * UNIT) by (nonlinear_arith)
            requires
                x <= u32::MAX,
        ;
        assert(2 * (y as int) * UNIT <= 2 * (u32::MAX as int) * UNIT) by (nonlinear_arith)
            requires
                y <= u32::MAX,
        ;
        assert(0 <= 2 * (x as int) * UNIT) by (nonlinear_arith);
        assert(0 <= 2 * (y as int) * UNIT) by (nonlinear_arith);
        assert((2 * (x as int) * UNIT) / (size.width as int) <= 2 * (x as int) * UNIT) by (
        nonlinear_arith)
            requires
                size.width >= 1,
                0 <= 2 * (x as int) * UNIT,
        ;
        assert((2 * (y as int) * UNIT) / (size.height as int) <= 2 * (y as int) * UNIT) by (
        nonlinear_arith)
            requires
                size.height >= 1,
                0 <= 2 * (y as int) * UNIT,
        ;
    }
    let nx = (2 * (x as i64) * UNIT) / (size.width as i64) - UNIT;
    let ny = UNIT - (2 * (y as i64) * UNIT) / (size.height as i64);
    (nx, ny)
}

/// What the render loop keeps besides the device objects: the surface state,
/// the sliders (absent where the build has no slider overlay) and the sizes of
/// the per-frame buffers.
pub struct State {
    pub surface: RenderSurfaceStateMachine,
    pub ui: Option<UIElements>,
    pub buffers: GpuFrameBuffers,
}

impl State {
    pub open spec fn wf(&self) -> bool {
        self.ui matches Some(u) ==> u.wf()
    }

    /// A state configured for `target`, with the standard row of sliders when
    /// `with_sliders`, and buffers as first allocated.
    pub fn new(target: RenderTarget, size: WindowSize, with_sliders: bool) -> (r: State)
        ensures
            r.wf(),
            r.surface.state == match target {
                RenderTarget::Window => SurfaceState::Window(size),
                RenderTarget::File => SurfaceState::File { exported: false },
            },
            match r.ui {
                Some(u) => with_sliders && u.hidden
                    && u.selected == 0 && u.elements@.len() == SLIDER_COUNT,
                None => !with_sliders,
            },
            r.buffers.uniform == Some(UNIFORM_BYTES),
            r.buffers.sliders == Some((SLIDER_COUNT * FLOAT_BYTES) as u64),
            r.buffers.eyes == Some(POINT_BYTES),
    {
        let mut surface = RenderSurfaceStateMachine::new();
        surface.configure(target, size);
        let ui = if with_sliders {
            Some(UIElements::new())
        } else {
            None
        };
        State { surface, ui, buffers: GpuFrameBuffers::new(SLIDER_COUNT) }
    }

    /// Whether the sliders are drawn this frame.
    pub fn sliders_visible(&self) -> (r: bool)
        ensures
            r == (self.ui matches Some(u) && !u.hidden),
    {
        match &self.ui {
            Some(u) => !u.hidden,
            None => false,
        }
    }

    /// See `RenderSurfaceStateMachine::resize`; resizing to zero area is a no-op.
    pub fn resize(&mut self, new_size: WindowSize) -> (r: bool)
        requires
            old(self).wf(),
        ensures
            final(self).wf(),
            final(self).surface.state == after_resize(old(self).surface.state, new_size),
            r == (old(self).surface.state is Window && new_size.width > 0 && new_size.height > 0),
            final(self).ui == old(self).ui,
            final(self).buffers == old(self).buffers,
            (new_size.width == 0 || new_size.height == 0) ==> final(self).surface == old(
                self,
            ).surface,
    {
        self.surface.resize(new_size)
    }

    /// Forwards a fresh key press to the sliders, if there are any.
    pub fn report_just_pressed(&mut self, key: KeyInput)
        requires
            old(self).wf(),
        ensures
            final(self).wf(),
            final(self).surface == old(self).surface,
            final(self).buffers == old(self).buffers,
            match old(self).ui {
                Some(u) => final(self).ui matches Some(v) && key_effect(u, v, key),
                None => final(self).ui is None,
            },
    {
        match &mut self.ui {
            Some(u) => u.report_key(key),
            None => {},
        }
    }

    /// Forwards a click at pixel `(x, y)` of the window to the sliders, in
    /// normalised device coordinates. Ignored unless a window of non-zero area
    /// is configured.
    pub fn report_click(&mut self, x: u32, y: u32)
        requires
            old(self).wf(),
        ensures
            final(self).wf(),
            final(self).surface == old(self).surface,
            final(self).buffers == old(self).buffers,
            match (old(self).surface.state, old(self).ui) {
                (SurfaceState::Window(size), Some(u)) => if size.width > 0 && size.height > 0 {
                    final(self).ui matches Some(v) && v.hidden == u.hidden && v.selected
                        == u.selected && v.elements@.len() == u.elements@.len() && (u.hidden
                        ==> v.elements@ == u.elements@) && (!u.hidden ==> forall|k: int|
                        0 <= k < u.elements@.len() ==> #[trigger] v.elements@[k]
                            == u.elements@[k].after_click(ndc_of(x, y, size)))
                } else {
                    final(self).ui == old(self).ui
                },
                _ => final(self).ui == old(self).ui,
            },
    {
        if let SurfaceState::Window(size) = self.surface.state {
            if size.width > 0 && size.height > 0 {
                let p = pixel_to_ndc(x, y, size);
                match &mut self.ui {
                    Some(u) => u.click(p),
                    None => {},
                }
            }
        }
    }
}

} // verus!

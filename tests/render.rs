use audio_visualizer::render::{
    pick_format, pixel_to_ndc, FrameStep, RenderSurfaceStateMachine, RenderTarget, State, SurfaceFault,
    SurfaceState, TickOutcome, WindowSize,
};
use audio_visualizer::sync::{BufferSlot, GpuFrameBuffers, UploadAction};
use audio_visualizer::ui::KeyInput;
use FrameStep::{
    AcquireTarget, AwaitReadback, ClearPass, CopyToStaging, DrawScene, DrawSliders, Present, Submit,
    UploadBuffers, WriteImage,
};

const FULL_HD: WindowSize = WindowSize { width: 1920, height: 1080 };

#[test]
fn resize_to_zero_is_a_no_op() {
    let mut state = State::new(RenderTarget::Window, FULL_HD, true);
    let before = state.buffers.eyes;
    assert!(!state.resize(WindowSize { width: 0, height: 0 }));
    assert_eq!(state.surface.state, SurfaceState::Window(FULL_HD));
    assert!(!state.resize(WindowSize { width: 0, height: 600 }));
    assert!(!state.resize(WindowSize { width: 800, height: 0 }));
    assert_eq!(state.surface.state, SurfaceState::Window(FULL_HD));
    assert_eq!(state.buffers.eyes, before);
}

#[test]
fn resize_reconfigures_a_window_only() {
    let mut m = RenderSurfaceStateMachine::new();
    assert!(!m.resize(WindowSize { width: 800, height: 600 }));
    assert_eq!(m.state, SurfaceState::Uninitialized);
    assert!(m.configure(RenderTarget::Window, FULL_HD));
    assert!(!m.configure(RenderTarget::File, FULL_HD));
    assert!(m.resize(WindowSize { width: 800, height: 600 }));
    assert_eq!(m.state, SurfaceState::Window(WindowSize { width: 800, height: 600 }));
    let mut f = RenderSurfaceStateMachine::new();
    f.configure(RenderTarget::File, FULL_HD);
    assert!(!f.resize(WindowSize { width: 800, height: 600 }));
    assert_eq!(f.state, SurfaceState::File { exported: false });
}

#[test]
fn window_frame_steps() {
    let mut m = RenderSurfaceStateMachine::new();
    assert!(m.frame_steps(false).is_none());
    m.configure(RenderTarget::Window, FULL_HD);
    assert_eq!(
        m.frame_steps(true).unwrap(),
        vec![AcquireTarget, ClearPass, DrawScene, DrawSliders, UploadBuffers, Submit, Present]
    );
    assert_eq!(
        m.frame_steps(false).unwrap(),
        vec![AcquireTarget, ClearPass, DrawScene, UploadBuffers, Submit, Present]
    );
    assert!(!m.frame_done());
    assert!(m.frame_steps(false).is_some());
}

#[test]
fn file_renders_exactly_once() {
    let mut m = RenderSurfaceStateMachine::new();
    m.configure(RenderTarget::File, FULL_HD);
    assert_eq!(
        m.frame_steps(false).unwrap(),
        vec![AcquireTarget, ClearPass, DrawScene, UploadBuffers, CopyToStaging, Submit, AwaitReadback, WriteImage]
    );
    assert!(m.frame_done());
    assert_eq!(m.state, SurfaceState::File { exported: true });
    assert!(m.frame_steps(false).is_none());
}

#[test]
fn acquire_failures() {
    let mut m = RenderSurfaceStateMachine::new();
    m.configure(RenderTarget::Window, FULL_HD);
    m.resize(WindowSize { width: 640, height: 480 });
    assert_eq!(
        m.acquire_failed(SurfaceFault::Lost),
        TickOutcome::Reconfigure(WindowSize { width: 640, height: 480 })
    );
    assert_eq!(m.acquire_failed(SurfaceFault::OutOfMemory), TickOutcome::Exit);
    assert_eq!(m.acquire_failed(SurfaceFault::Timeout), TickOutcome::Skip);
    assert_eq!(m.acquire_failed(SurfaceFault::Outdated), TickOutcome::Skip);
}

#[test]
fn pixels_to_device_coordinates() {
    assert_eq!(pixel_to_ndc(0, 0, FULL_HD), (-10000, 10000));
    assert_eq!(pixel_to_ndc(960, 540, FULL_HD), (0, 0));
    assert_eq!(pixel_to_ndc(1920, 1080, FULL_HD), (10000, -10000));
    assert_eq!(pixel_to_ndc(480, 810, FULL_HD), (-5000, -5000));
}

#[test]
fn clicks_and_keys_through_the_state() {
    let mut state = State::new(RenderTarget::Window, WindowSize { width: 2000, height: 2000 }, true);
    assert!(!state.sliders_visible());
    state.report_just_pressed(KeyInput::Character('m'));
    assert!(state.sliders_visible());
    // NDC (-0.95, 0.8) is the left edge of the first slider.
    state.report_click(50, 200);
    assert_eq!(state.ui.as_ref().unwrap().elements[0].value, 0);
    state.report_click(550, 200);
    assert_eq!(state.ui.as_ref().unwrap().elements[0].value, 10000);
    let mut bare = State::new(RenderTarget::File, FULL_HD, false);
    bare.report_click(10, 10);
    bare.report_just_pressed(KeyInput::ArrowUp);
    assert!(bare.ui.is_none());
    assert!(!bare.sliders_visible());
}

#[test]
fn uploads_grow_buffers_that_are_too_small() {
    let mut buffers = GpuFrameBuffers::new(10);
    let plan = buffers.plan_upload(Some(10), 3);
    assert_eq!(
        plan,
        vec![
            UploadAction::Write { slot: BufferSlot::Uniform, bytes: 16 },
            UploadAction::Write { slot: BufferSlot::Sliders, bytes: 40 },
            UploadAction::Recreate { slot: BufferSlot::Eyes, capacity: 24 },
            UploadAction::Write { slot: BufferSlot::Eyes, bytes: 24 },
        ]
    );
    assert_eq!(buffers.eyes, Some(24));
    let plan = buffers.plan_upload(None, 1);
    assert_eq!(
        plan,
        vec![
            UploadAction::Write { slot: BufferSlot::Uniform, bytes: 16 },
            UploadAction::Write { slot: BufferSlot::Eyes, bytes: 8 },
        ]
    );
    assert_eq!(buffers.eyes, Some(24));
}

#[test]
fn absent_buffers_are_skipped() {
    let mut buffers = GpuFrameBuffers { uniform: Some(16), sliders: None, eyes: None };
    let plan = buffers.plan_upload(Some(10), 5);
    assert_eq!(plan, vec![UploadAction::Write { slot: BufferSlot::Uniform, bytes: 16 }]);
    assert_eq!(buffers.sliders, None);
    assert_eq!(buffers.eyes, None);
}

#[test]
fn surface_format_choice() {
    assert_eq!(pick_format(&vec![false, true, true], true), 1);
    assert_eq!(pick_format(&vec![false, true, false], false), 0);
    assert_eq!(pick_format(&vec![true, true, false], false), 2);
    assert_eq!(pick_format(&vec![true, true], false), 0);
    assert_eq!(pick_format(&vec![false], true), 0);
}

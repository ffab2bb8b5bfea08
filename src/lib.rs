//! Verified core of an audio- and camera-reactive shader visualizer: sample
//! windowing, spectral features, the shared feature hand-off, slider and key
//! handling, per-frame buffer sizing and the render-surface state machine.
pub mod audio;
pub mod eye;
pub mod fps;
pub mod render;
pub mod shared;
pub mod spectrum;
pub mod sync;
pub mod ui;
pub mod window;

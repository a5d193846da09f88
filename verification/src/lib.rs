//! Ambient screen brightness inference for Wayland compositors.
//!
//! The crate holds the decision logic of a brightness daemon: the
//! configuration model, the frame accumulator filled from compositor events,
//! the capture session state machine, the planning of the GPU downsampling
//! pipeline and the perceptual lightness reduction. Everything here works on
//! plain values; the binary around it talks to the compositor and the GPU.

pub mod config;
pub mod frame;

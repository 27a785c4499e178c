//! The decisions of the udev (TTY) backend of the xfwl4 Wayland compositor.
//!
//! The outside world (the libseat session, udev, libinput, DRM, EGL, the event
//! loop) is reached by the code around this library. The library holds what
//! that code decides by: which GPU is the primary one, in which order devices
//! are brought up, what a session switch does to the registered devices, which
//! renderer draws an output. Each decision takes plain values, and each
//! contract says which value comes out.

pub mod activation;
pub mod bring_up;
pub mod clients;
pub mod config;
pub mod data;
pub mod dmabuf;
pub mod enumerate;
pub mod error;
pub mod frames;
pub mod gpu;
pub mod hotplug;
pub mod lists;
pub mod node;
pub mod outputs;
pub mod session;
pub mod startup;

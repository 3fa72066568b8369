//! A minimal scene-rendering harness: it owns a swapchain configuration,
//! drives a window event loop, and forwards one draw call per acquired frame
//! to a pluggable [`Scene`](launcher::Scene).
//!
//! The swapchain lifecycle (creation, resize-coalesced recreation) and the
//! event-loop dispatch are the library's logic; the platform window and the
//! graphics device are outside collaborators that hand the loop plain values
//! (window sizes, events, frame-acquisition outcomes) and perform the actions
//! the loop decides on.

pub mod config;
pub mod driver;
pub mod run;
pub mod launcher;

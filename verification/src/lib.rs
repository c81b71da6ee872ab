//! Frame synchronization and row-scan refresh logic for a 256x320,
//! one-bit-per-pixel display panel.
//!
//! The crate has three parts:
//! - [`framebuffer`]: the packed 1-bit bitmap with row-addressable byte
//!   ranges, suitable as the source of one bulk transfer per row;
//! - [`swapchain`]: a pool of three framebuffers with a role-rotation
//!   protocol that decouples an asynchronous frame producer from the
//!   refresh consumer without ever exposing a torn frame;
//! - [`scan`]: the row-scan refresh state machine that paces sync pulses
//!   and bulk transfers and hands the shared bus back and forth between
//!   bit-bang and bulk-transfer ownership.

pub mod framebuffer;
pub mod swapchain;
pub mod scan;

//! Job registry and admission control for long-running background
//! computations.
//!
//! A caller launches a computation on its own concurrency primitive, registers
//! it here to receive a unique handle, and later polls that handle for a
//! `Pending` / `Done` / error answer, or asks for forced removal. Per-class
//! concurrency limits are answered in an advisory fashion from the live
//! registry counts.

pub mod allocator;
pub mod channel;
pub mod config;
pub mod laws;
pub mod polling;
pub mod types;
pub mod verify;

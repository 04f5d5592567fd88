//! Core of a static, interrupt-driven real-time scheduler for single-core
//! RISC-V microcontrollers.
//!
//! Shared resources are protected with the Priority Ceiling Protocol: every
//! resource carries a ceiling equal to the highest priority of any task that
//! accesses it, and a critical section raises the interrupt-masking threshold
//! to that ceiling. This crate holds the build-time configuration analysis
//! (ceilings, dispatcher allocation, validation) and the threshold / pending
//! state machine behind the runtime primitives.

pub mod analysis;
pub mod config;
pub mod lock;
pub mod slic;

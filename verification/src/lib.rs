//! Secure/non-secure memory partitioning for a dual-mode security
//! microcontroller, together with the one-way secure-to-non-secure state
//! transition that consumes it.
//!
//! The hardware permission-register file is modeled as explicitly passed
//! capability values (`spu::SpuState`, `transition::CoreRegs`); every
//! decision the boot path makes is a verified function over those values.
//! The thin layer that mirrors the values onto real registers, and the
//! final non-returning call, live outside this crate.

pub mod boot;
pub mod query;
pub mod region;
pub mod spu;
pub mod transition;
pub mod types;

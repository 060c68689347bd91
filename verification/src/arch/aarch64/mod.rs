//! The AArch64 architecture.

pub mod timer;
pub mod trap;
pub mod vcpu;

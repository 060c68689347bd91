//! Emulated and host devices.

pub mod irqchip;

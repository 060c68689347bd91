//! Interrupt controllers.

pub mod gicv3;

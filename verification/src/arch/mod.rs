//! Architecture-specific parts.

pub mod aarch64;

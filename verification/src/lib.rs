//! The decision logic of a type-1 hypervisor for AArch64 that runs several
//! virtual CPUs on each physical CPU: vCPU life cycle and scheduling, virtual
//! timer policy, GICv3 virtualisation, PSCI emulation, zone management and
//! hypercalls.
//!
//! The library works on plain values.  A [`hardware::Hardware`] holds the system
//! registers of the pCPU it runs on and the ordered list of operations that the
//! caller performs on its behalf; a [`hypervisor::Hypervisor`] holds everything
//! that the pCPUs share.

pub mod arch;
pub mod cpu_data;
pub mod error;
pub mod keyed;
pub mod memory;
pub mod device;
pub mod hardware;
pub mod vcpu;
pub mod scheduler;
pub mod zone;
pub mod event;
pub mod hypervisor;
pub mod hypercall;
pub mod laws;

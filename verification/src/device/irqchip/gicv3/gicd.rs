//! Register offsets of the GICv3 distributor.

use vstd::prelude::*;

verus! {

pub const GICD_CTLR: usize = 0x0000;
pub const GICD_TYPER: usize = 0x0004;
pub const GICD_IIDR: usize = 0x0008;
pub const GICD_TYPER2: usize = 0x000c;
pub const GICD_IGROUPR: usize = 0x0080;
pub const GICD_ISENABLER: usize = 0x0100;
pub const GICD_ICENABLER: usize = 0x0180;
pub const GICD_ISPENDR: usize = 0x0200;
pub const GICD_ICPENDR: usize = 0x0280;
pub const GICD_ISACTIVER: usize = 0x0300;
pub const GICD_ICACTIVER: usize = 0x0380;
pub const GICD_IPRIORITYR: usize = 0x0400;
pub const GICD_ITARGETSR: usize = 0x0800;
pub const GICD_ICFGR: usize = 0x0c00;
pub const GICD_IGRPMODR: usize = 0x0d00;
pub const GICD_IROUTER: usize = 0x6000;
pub const GICDV3_PIDR4: usize = 0xffd0;
pub const GICDV3_PIDR0: usize = 0xffe0;
pub const GICDV3_CIDR0: usize = 0xfff0;

/// The size of the distributor's register frame.
pub const GICD_FRAME_SIZE: usize = 0x10000;

} // verus!

//! Register offsets of a GICv3 redistributor.

use vstd::prelude::*;

verus! {

pub const GICR_CTLR: usize = 0x0000;
pub const GICR_IIDR: usize = 0x0004;
pub const GICR_TYPER: usize = 0x0008;
pub const GICR_STATUSR: usize = 0x0010;
pub const GICR_WAKER: usize = 0x0014;
pub const GICR_SETLPIR: usize = 0x0040;
pub const GICR_CLRLPIR: usize = 0x0048;
pub const GICR_PROPBASER: usize = 0x0070;
pub const GICR_PENDBASER: usize = 0x0078;
pub const GICR_INVLPIR: usize = 0x00a0;
pub const GICR_INVALLR: usize = 0x00b0;
pub const GICR_SYNCR: usize = 0x00c0;

/// The identification registers, from the first to the last.
pub const GICR_ID_FIRST: usize = 0xffd0;
pub const GICR_ID_LAST: usize = 0xfffc;

/// Where the frame with the SGI and PPI registers starts.
pub const GICR_SGI_BASE: usize = 0x10000;

// Offsets within the SGI and PPI frame.
pub const GICR_IGROUPR: usize = 0x0080;
pub const GICR_ISENABLER: usize = 0x0100;
pub const GICR_ICENABLER: usize = 0x0180;
pub const GICR_ISPENDR: usize = 0x0200;
pub const GICR_ICPENDR: usize = 0x0280;
pub const GICR_ISACTIVER: usize = 0x0300;
pub const GICR_ICACTIVER: usize = 0x0380;
pub const GICR_IPRIORITYR: usize = 0x0400;
pub const GICR_ICFGR: usize = 0x0c00;

/// Bit of `GICR_TYPER` that marks the last redistributor.
pub const GICR_TYPER_LAST: u64 = 0x10;

/// The size of one redistributor: its control frame and its SGI frame.
pub const PER_GICR_SIZE: usize = 0x20000;

} // verus!

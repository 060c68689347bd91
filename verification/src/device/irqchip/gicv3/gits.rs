//! Register offsets of the GICv3 interrupt translation service.

use vstd::prelude::*;

verus! {

pub const GITS_CTRL: usize = 0x0000;
pub const GITS_TYPER: usize = 0x0008;
pub const GITS_CBASER: usize = 0x0080;
pub const GITS_CWRITER: usize = 0x0088;
pub const GITS_CREADR: usize = 0x0090;
pub const GITS_BASER: usize = 0x0100;
pub const GITS_COLLECTION_BASER: usize = 0x0108;

/// The bits of a table base register that hold the table's address.
pub const GITS_BASER_ADDR_MASK: u64 = 0xfff_fff_fff_000;

} // verus!

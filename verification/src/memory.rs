//! Guest-physical memory: emulated device regions and accesses to them.

use vstd::prelude::*;

verus! {

/// A page of guest or host memory, in bytes.
pub const PAGE_SIZE: usize = 0x1000;

/// An access of a guest to an emulated device, relative to the region's start
/// once a handler has been chosen.
#[derive(Debug, Clone, Copy, PartialEq, Eq, Structural)]
pub struct MMIOAccess {
    pub address: usize,
    pub size: usize,
    pub is_write: bool,
    pub value: u64,
}

/// The handlers that an emulated region can be served by.
#[derive(Debug, Clone, Copy, PartialEq, Eq, Structural)]
pub enum MMIOHandler {
    /// The virtual distributor.
    GicDistributor,
    /// The virtual redistributor of one vCPU.
    GicRedistributor,
    /// The virtual interrupt translation service.
    GicIts,
    /// A device that is emulated outside this library.
    Device(usize),
}

/// An emulated region of guest-physical memory.
#[derive(Debug, Clone, Copy, PartialEq, Eq, Structural)]
pub struct MMIORegion {
    pub start: usize,
    pub size: usize,
}

/// An emulated region, its handler and the handler's argument.
#[derive(Debug, Clone, Copy, PartialEq, Eq, Structural)]
pub struct MMIOConfig {
    pub region: MMIORegion,
    pub handler: MMIOHandler,
    pub arg: usize,
}

impl MMIORegion {
    /// `addr..addr + size` lies in the region.
    pub open spec fn covers(self, addr: int, size: int) -> bool {
        self.start <= addr && addr + size <= self.start + self.size
    }

    /// Whether the region contains `addr..addr + size`.
    pub fn contains_region(&self, addr: usize, size: usize) -> (res: bool)
        ensures
            res == self.covers(addr as int, size as int),
    {
        self.start <= addr && size <= self.size && addr - self.start <= self.size - size
    }
}

/// The stage-2 translation tables of a guest, known by the address of their root.
#[derive(Debug, Clone, Copy, PartialEq, Eq, Structural)]
pub struct Stage2PageTable {
    pub root: usize,
}

} // verus!

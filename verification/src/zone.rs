//! Zones: groups of vCPUs that share guest memory, interrupts and devices.

use vstd::prelude::*;
use std::collections::BTreeMap;
use crate::arch::aarch64::vcpu::{TrapFrame, TrapFrameView};
use crate::cpu_data::{CpuSet, PerCpuView, CPU_SET_BITS, INVALID_ADDRESS};
use crate::device::irqchip::gicv3::gicr::PER_GICR_SIZE;
use crate::device::irqchip::gicv3::GicConfig;
use crate::error::{HvError, HvErrorNum, HvResult};
use crate::hardware::Hardware;
use crate::hypervisor::{HvView, Hypervisor};
use crate::keyed::KeyedList;
use crate::memory::{MMIOConfig, MMIOHandler, MMIORegion, Stage2PageTable};

verus! {

/// The length of a zone's name.
pub const CONFIG_NAME_MAXLEN: usize = 32;

/// The number of interrupts that a zone can be given.
pub const ZONE_IRQS: usize = 1024;

/// The affinity fields of an `MPIDR`: Aff3, Aff2, Aff1 and Aff0.
pub const MPIDR_AFFINITY: u64 = 0xff_00ff_ffff;

// ---------------------------------------------------------------------------
// Guest MPIDRs
// ---------------------------------------------------------------------------

/// An `MPIDR` as a guest sees it: local to its zone, counted from 0, and unrelated
/// to the `MPIDR` of the pCPU.
#[derive(Debug, Clone, Copy, PartialEq, Eq, PartialOrd, Ord, Structural)]
pub struct GuestMpidr(pub u64);

impl GuestMpidr {
    /// The affinity fields of a raw `MPIDR`.
    pub open spec fn of(raw: u64) -> GuestMpidr {
        GuestMpidr(raw & MPIDR_AFFINITY)
    }

    /// Keeps the affinity fields of a raw `MPIDR`.
    pub fn new(raw: u64) -> (res: Self)
        ensures
            res == GuestMpidr::of(raw),
    {
        GuestMpidr(raw & MPIDR_AFFINITY)
    }
}

/// Taking the affinity fields twice is the same as taking them once.
pub proof fn lemma_guest_mpidr_idempotent(raw: u64)
    ensures
        GuestMpidr::of(GuestMpidr::of(raw).0) == GuestMpidr::of(raw),
{
    assert((raw & 0xff_00ff_ffffu64) & 0xff_00ff_ffffu64 == raw & 0xff_00ff_ffffu64)
        by (bit_vector);
}

// ---------------------------------------------------------------------------
// Address translation of PCIe configuration accesses
// ---------------------------------------------------------------------------

/// A PCIe address translation unit, known by the number that the PCI layer gave it.
#[derive(Debug, Clone, Copy, PartialEq, Eq, Structural)]
pub struct AtuConfig {
    pub id: usize,
}

/// The PCI root complex that a zone sees, known by the number that the PCI layer gave
/// it.
#[derive(Debug, Clone, Copy, PartialEq, Eq, Structural)]
pub struct VirtualRootComplex {
    /// `None` until the PCI layer has set it up.
    pub id: Option<usize>,
}

impl VirtualRootComplex {
    /// A root complex that is not set up.
    pub fn new() -> (res: Self)
        ensures
            res == (VirtualRootComplex { id: None }),
    {
        VirtualRootComplex { id: None }
    }
}

/// The address translation units of a zone's PCIe hosts, by the base address of
/// their configuration space, and what their I/O and configuration windows map to.
pub struct VirtualAtuConfigs {
    pub ecam_to_atu: KeyedList<AtuConfig>,
    pub io_base_to_ecam: BTreeMap<u64, usize>,
    pub cfg_base_to_ecam: BTreeMap<u64, usize>,
}

/// The value of a [`VirtualAtuConfigs`].
#[verifier::ext_equal]
pub struct AtuView {
    pub atus: Map<usize, AtuConfig>,
    pub io_bases: Map<u64, usize>,
    pub cfg_bases: Map<u64, usize>,
}

impl View for VirtualAtuConfigs {
    type V = AtuView;

    open spec fn view(&self) -> AtuView {
        AtuView {
            atus: self.ecam_to_atu@,
            io_bases: self.io_base_to_ecam@,
            cfg_bases: self.cfg_base_to_ecam@,
        }
    }
}

impl AtuView {
    /// No translation units.
    pub open spec fn empty() -> AtuView {
        AtuView { atus: Map::empty(), io_bases: Map::empty(), cfg_bases: Map::empty() }
    }
}

impl VirtualAtuConfigs {
    /// No translation units.
    pub fn new() -> (res: Self)
        ensures
            res@ == AtuView::empty(),
    {
        VirtualAtuConfigs {
            ecam_to_atu: KeyedList::new(),
            io_base_to_ecam: BTreeMap::new(),
            cfg_base_to_ecam: BTreeMap::new(),
        }
    }

    /// The unit at `ecam_base`.
    pub fn get_atu_by_ecam(&self, ecam_base: usize) -> (res: Option<&AtuConfig>)
        ensures
            match res {
                Some(atu) => self@.atus.contains_key(ecam_base) && *atu
                    == self@.atus[ecam_base],
                None => !self@.atus.contains_key(ecam_base),
            },
    {
        self.ecam_to_atu.get(ecam_base)
    }

    /// The unit at `ecam_base`, to be changed.
    pub fn get_atu_by_ecam_mut(&mut self, ecam_base: usize) -> (res: Option<&mut AtuConfig>)
        ensures
            match res {
                Some(atu) => {
                    &&& old(self)@.atus.contains_key(ecam_base)
                    &&& *atu == old(self)@.atus[ecam_base]
                    &&& final(self)@.atus == old(self)@.atus.insert(ecam_base, *final(atu))
                },
                None => {
                    &&& !old(self)@.atus.contains_key(ecam_base)
                    &&& final(self)@.atus == old(self)@.atus
                },
            },
            final(self)@.io_bases == old(self)@.io_bases,
            final(self)@.cfg_bases == old(self)@.cfg_bases,
    {
        self.ecam_to_atu.get_mut(ecam_base)
    }

    /// Sets the unit at `ecam_base`.  Returns the one that was there.
    pub fn insert_atu(&mut self, ecam_base: usize, atu: AtuConfig) -> (res: Option<AtuConfig>)
        ensures
            final(self)@.atus == old(self)@.atus.insert(ecam_base, atu),
            final(self)@.io_bases == old(self)@.io_bases,
            final(self)@.cfg_bases == old(self)@.cfg_bases,
            res == (if old(self)@.atus.contains_key(ecam_base) {
                Some(old(self)@.atus[ecam_base])
            } else {
                None
            }),
    {
        self.ecam_to_atu.insert(ecam_base, atu)
    }

    /// The unit at `ecam_base`; if there is none, the one that `f` makes is put
    /// there first.
    pub fn get_or_insert_atu<F>(&mut self, ecam_base: usize, f: F) -> (res: &mut AtuConfig) where
        F: FnOnce() -> AtuConfig,

        requires
            f.requires(()),
        ensures
            old(self)@.atus.contains_key(ecam_base) ==> *res == old(self)@.atus[ecam_base],
            !old(self)@.atus.contains_key(ecam_base) ==> f.ensures((), *res),
            final(self)@.atus == old(self)@.atus.insert(ecam_base, *final(res)),
            final(self)@.io_bases == old(self)@.io_bases,
            final(self)@.cfg_bases == old(self)@.cfg_bases,
    {
        if !self.ecam_to_atu.contains(ecam_base) {
            let before: Option<AtuConfig> = self.insert_atu(ecam_base, f());
        }
        self.get_atu_by_ecam_mut(ecam_base).unwrap()
    }

    /// The unit whose I/O window is at `io_base`.
    pub fn get_atu_by_io_base(&self, io_base: u64) -> (res: Option<&AtuConfig>)
        ensures
            match res {
                Some(atu) => {
                    &&& self@.io_bases.contains_key(io_base)
                    &&& self@.atus.contains_key(self@.io_bases[io_base])
                    &&& *atu == self@.atus[self@.io_bases[io_base]]
                },
                None => self@.io_bases.contains_key(io_base) ==> !self@.atus.contains_key(
                    self@.io_bases[io_base],
                ),
            },
    {
        match self.io_base_to_ecam.get(&io_base) {
            Some(ecam) => self.get_atu_by_ecam(*ecam),
            None => None,
        }
    }

    /// The configuration space that the I/O window at `io_base` belongs to.
    pub fn get_ecam_by_io_base(&self, io_base: u64) -> (res: Option<usize>)
        ensures
            res == (if self@.io_bases.contains_key(io_base) {
                Some(self@.io_bases[io_base])
            } else {
                None
            }),
    {
        match self.io_base_to_ecam.get(&io_base) {
            Some(ecam) => Some(*ecam),
            None => None,
        }
    }

    /// Says which configuration space the I/O window at `io_base` belongs to.
    pub fn insert_io_base_mapping(&mut self, io_base: u64, ecam_base: usize)
        ensures
            final(self)@.io_bases == old(self)@.io_bases.insert(io_base, ecam_base),
            final(self)@.atus == old(self)@.atus,
            final(self)@.cfg_bases == old(self)@.cfg_bases,
    {
        let before: Option<usize> = self.io_base_to_ecam.insert(io_base, ecam_base);
    }

    /// The unit whose configuration window is at `cfg_base`.
    pub fn get_atu_by_cfg_base(&self, cfg_base: u64) -> (res: Option<&AtuConfig>)
        ensures
            match res {
                Some(atu) => {
                    &&& self@.cfg_bases.contains_key(cfg_base)
                    &&& self@.atus.contains_key(self@.cfg_bases[cfg_base])
                    &&& *atu == self@.atus[self@.cfg_bases[cfg_base]]
                },
                None => self@.cfg_bases.contains_key(cfg_base) ==> !self@.atus.contains_key(
                    self@.cfg_bases[cfg_base],
                ),
            },
    {
        match self.cfg_base_to_ecam.get(&cfg_base) {
            Some(ecam) => self.get_atu_by_ecam(*ecam),
            None => None,
        }
    }

    /// The configuration space that the configuration window at `cfg_base` belongs
    /// to.
    pub fn get_ecam_by_cfg_base(&self, cfg_base: u64) -> (res: Option<usize>)
        ensures
            res == (if self@.cfg_bases.contains_key(cfg_base) {
                Some(self@.cfg_bases[cfg_base])
            } else {
                None
            }),
    {
        match self.cfg_base_to_ecam.get(&cfg_base) {
            Some(ecam) => Some(*ecam),
            None => None,
        }
    }

    /// Says which configuration space the configuration window at `cfg_base`
    /// belongs to.
    pub fn insert_cfg_base_mapping(&mut self, cfg_base: u64, ecam_base: usize)
        ensures
            final(self)@.cfg_bases == old(self)@.cfg_bases.insert(cfg_base, ecam_base),
            final(self)@.atus == old(self)@.atus,
            final(self)@.io_bases == old(self)@.io_bases,
    {
        let before: Option<usize> = self.cfg_base_to_ecam.insert(cfg_base, ecam_base);
    }
}

// ---------------------------------------------------------------------------
// Zones
// ---------------------------------------------------------------------------

/// What a zone holds.
pub struct ZoneInner {
    /// The emulated regions of guest memory.
    pub mmio: Vec<MMIOConfig>,
    pub cpu_num: usize,
    /// The pCPUs that the zone owns.
    pub cpu_set: CpuSet,
    /// The interrupts that the zone owns, one bit for each.
    pub irq_bitmap: [u32; 32],
    /// The translation tables of guest memory.
    pub gpm: Stage2PageTable,
    /// The translation tables that the zone's devices use.
    pub iommu_pt: Option<Stage2PageTable>,
    /// The PCI root complex that the guest sees.
    pub vpci_bus: VirtualRootComplex,
    /// The address translation units of the guest's PCIe hosts.
    pub atu_configs: VirtualAtuConfigs,
    /// The identifier of the zone's first vCPU.
    pub vcpu_base: usize,
    /// The zone's vCPUs, in ascending order.
    pub vcpus: Vec<usize>,
    /// The zone's vCPUs by the `MPIDR` that the guest sees.
    pub guest_mpidr_to_vcpu: BTreeMap<u64, usize>,
    /// The vCPU that each interrupt is routed to.
    pub irq_target_vcpu: [Option<usize>; 1024],
}

/// The value of a [`ZoneInner`].
#[verifier::ext_equal]
pub struct ZoneInnerView {
    pub mmio: Seq<MMIOConfig>,
    pub cpu_num: usize,
    pub cpu_set: CpuSet,
    pub irq_bitmap: Seq<u32>,
    pub gpm: Stage2PageTable,
    pub iommu_pt: Option<Stage2PageTable>,
    pub vpci_bus: VirtualRootComplex,
    pub atu: AtuView,
    pub vcpu_base: usize,
    pub vcpus: Seq<usize>,
    pub mpidrs: Map<u64, usize>,
    pub irq_targets: Seq<Option<usize>>,
}

impl View for ZoneInner {
    type V = ZoneInnerView;

    open spec fn view(&self) -> ZoneInnerView {
        ZoneInnerView {
            mmio: self.mmio@,
            cpu_num: self.cpu_num,
            cpu_set: self.cpu_set,
            irq_bitmap: self.irq_bitmap@,
            gpm: self.gpm,
            iommu_pt: self.iommu_pt,
            vpci_bus: self.vpci_bus,
            atu: self.atu_configs@,
            vcpu_base: self.vcpu_base,
            vcpus: self.vcpus@,
            mpidrs: self.guest_mpidr_to_vcpu@,
            irq_targets: self.irq_target_vcpu@,
        }
    }
}

/// The first position at or after `from` of a region that starts at `start`; the
/// list's length if there is none.
pub open spec fn region_position(mmio: Seq<MMIOConfig>, start: usize, from: int) -> int
    decreases mmio.len() - from,
{
    if from < 0 || from >= mmio.len() {
        mmio.len() as int
    } else if mmio[from].region.start == start {
        from
    } else {
        region_position(mmio, start, from + 1)
    }
}

/// The first region at or after position `from` that contains `addr..addr + size`.
pub open spec fn region_covering(
    mmio: Seq<MMIOConfig>,
    addr: usize,
    size: usize,
    from: int,
) -> Option<(MMIORegion, MMIOHandler, usize)>
    decreases mmio.len() - from,
{
    if from < 0 || from >= mmio.len() {
        None
    } else if mmio[from].region.covers(addr as int, size as int) {
        Some((mmio[from].region, mmio[from].handler, mmio[from].arg))
    } else {
        region_covering(mmio, addr, size, from + 1)
    }
}

impl ZoneInnerView {
    /// A zone that owns nothing.
    pub open spec fn empty(
        gpm: Stage2PageTable,
        iommu_pt: Option<Stage2PageTable>,
    ) -> ZoneInnerView {
        ZoneInnerView {
            mmio: Seq::empty(),
            cpu_num: 0,
            cpu_set: CpuSet { bitmap: 0 },
            irq_bitmap: Seq::new(32, |i: int| 0u32),
            gpm,
            iommu_pt,
            vpci_bus: VirtualRootComplex { id: None },
            atu: AtuView::empty(),
            vcpu_base: usize::MAX,
            vcpus: Seq::empty(),
            mpidrs: Map::empty(),
            irq_targets: Seq::new(1024, |i: int| None),
        }
    }

    /// The zone with a region registered: one that starts at the same address keeps
    /// its size and gets the new handler and argument.
    pub open spec fn with_region(
        self,
        start: usize,
        size: usize,
        handler: MMIOHandler,
        arg: usize,
    ) -> ZoneInnerView {
        let at = region_position(self.mmio, start, 0);
        if at < self.mmio.len() {
            ZoneInnerView {
                mmio: self.mmio.update(
                    at,
                    MMIOConfig { region: self.mmio[at].region, handler, arg },
                ),
                ..self
            }
        } else {
            ZoneInnerView {
                mmio: self.mmio.push(
                    MMIOConfig { region: MMIORegion { start, size }, handler, arg },
                ),
                ..self
            }
        }
    }

    /// The zone without the first region that starts at `start`.
    pub open spec fn without_region(self, start: usize) -> ZoneInnerView {
        let at = region_position(self.mmio, start, 0);
        if at < self.mmio.len() {
            ZoneInnerView { mmio: self.mmio.remove(at), ..self }
        } else {
            self
        }
    }

    /// The zone owns interrupt `irq`.
    pub open spec fn owns_irq(self, irq: u32) -> bool {
        self.irq_bitmap[irq as int / 32] & (1u32 << (irq % 32)) != 0
    }

    /// The vCPU with the given guest `MPIDR`.
    pub open spec fn vcpu_at(self, mpidr: GuestMpidr) -> Option<usize> {
        if self.mpidrs.contains_key(mpidr.0) && self.vcpus.contains(self.mpidrs[mpidr.0]) {
            Some(self.mpidrs[mpidr.0])
        } else {
            None
        }
    }

    /// The vCPU that interrupt `irq` is routed to.
    pub open spec fn irq_target(self, irq: usize) -> Option<usize> {
        if irq < 1024 {
            self.irq_targets[irq as int]
        } else {
            None
        }
    }
}

impl ZoneInner {
    /// A zone that owns nothing, with the given translation tables.
    pub fn new(gpm: Stage2PageTable, iommu_pt: Option<Stage2PageTable>) -> (res: Self)
        ensures
            res@ == ZoneInnerView::empty(gpm, iommu_pt),
    {
        ZoneInner {
            mmio: Vec::new(),
            cpu_num: 0,
            cpu_set: CpuSet::new(0),
            irq_bitmap: [0; 32],
            gpm,
            iommu_pt,
            vpci_bus: VirtualRootComplex::new(),
            atu_configs: VirtualAtuConfigs::new(),
            vcpu_base: usize::MAX,
            vcpus: Vec::new(),
            guest_mpidr_to_vcpu: BTreeMap::new(),
            irq_target_vcpu: [None; 1024],
        }
    }

    /// Registers an emulated region and its handler.  If a region starts at the
    /// same address, its handler is replaced.
    pub fn mmio_region_register(
        &mut self,
        start: usize,
        size: usize,
        handler: MMIOHandler,
        arg: usize,
    )
        ensures
            final(self)@ == old(self)@.with_region(start, size, handler, arg),
    {
        let mut i: usize = 0;
        while i < self.mmio.len()
            invariant
                i <= self.mmio@.len(),
                self@ == old(self)@,
                region_position(self.mmio@, start, 0) == region_position(
                    self.mmio@,
                    start,
                    i as int,
                ),
            decreases self.mmio@.len() - i,
        {
            if self.mmio[i].region.start == start {
                let region: MMIORegion = self.mmio[i].region;
                self.mmio[i] = MMIOConfig { region, handler, arg };
                return;
            }
            i = i + 1;
        }
        self.mmio.push(MMIOConfig { region: MMIORegion { start, size }, handler, arg });
    }

    /// Removes the region that starts at `start`.
    pub fn mmio_region_remove(&mut self, start: usize)
        ensures
            final(self)@ == old(self)@.without_region(start),
    {
        let mut i: usize = 0;
        while i < self.mmio.len()
            invariant
                i <= self.mmio@.len(),
                self@ == old(self)@,
                region_position(self.mmio@, start, 0) == region_position(
                    self.mmio@,
                    start,
                    i as int,
                ),
            decreases self.mmio@.len() - i,
        {
            if self.mmio[i].region.start == start {
                let removed: MMIOConfig = self.mmio.remove(i);
                return;
            }
            i = i + 1;
        }
    }

    /// Finds the region that contains `addr..addr + size`.
    pub fn find_mmio_region(&self, addr: usize, size: usize) -> (res: Option<
        (MMIORegion, MMIOHandler, usize),
    >)
        ensures
            res == region_covering(self@.mmio, addr, size, 0),
    {
        let mut i: usize = 0;
        while i < self.mmio.len()
            invariant
                i <= self.mmio@.len(),
                region_covering(self.mmio@, addr, size, 0) == region_covering(
                    self.mmio@,
                    addr,
                    size,
                    i as int,
                ),
            decreases self.mmio@.len() - i,
        {
            let config: MMIOConfig = self.mmio[i];
            if config.region.contains_region(addr, size) {
                return Some((config.region, config.handler, config.arg));
            }
            i = i + 1;
        }
        None
    }

    /// Whether an interrupt belongs to the zone.
    pub fn irq_in_zone(&self, irq_id: u32) -> (res: bool)
        requires
            irq_id < ZONE_IRQS,
        ensures
            res == self@.owns_irq(irq_id),
    {
        let idx: usize = (irq_id / 32) as usize;
        let bit_pos: u32 = irq_id % 32;
        self.irq_bitmap[idx] & (1u32 << bit_pos) != 0
    }

    /// The pCPUs that the zone owns.
    pub fn cpu_set(&self) -> (res: CpuSet)
        ensures
            res == self@.cpu_set,
    {
        self.cpu_set
    }

    /// The number of pCPUs that the zone was given.
    pub fn cpu_num(&self) -> (res: usize)
        ensures
            res == self@.cpu_num,
    {
        self.cpu_num
    }

    /// Sets the number of pCPUs.
    pub fn set_cpu_num(&mut self, cpu_num: usize)
        ensures
            final(self)@ == (ZoneInnerView { cpu_num, ..old(self)@ }),
    {
        self.cpu_num = cpu_num;
    }

    /// The pCPUs that the zone owns, to be changed.
    pub fn cpu_set_mut(&mut self) -> (res: &mut CpuSet)
        ensures
            *res == old(self)@.cpu_set,
            final(self)@ == (ZoneInnerView { cpu_set: *final(res), ..old(self)@ }),
    {
        &mut self.cpu_set
    }

    /// The interrupts that the zone owns.
    pub fn irq_bitmap(&self) -> (res: &[u32; 32])
        ensures
            res@ == self@.irq_bitmap,
    {
        &self.irq_bitmap
    }

    /// The interrupts that the zone owns, to be changed.
    pub fn irq_bitmap_mut(&mut self) -> (res: &mut [u32; 32])
        ensures
            res@ == old(self)@.irq_bitmap,
            final(self)@ == (ZoneInnerView { irq_bitmap: final(res)@, ..old(self)@ }),
    {
        &mut self.irq_bitmap
    }

    /// The identifier of the zone's first vCPU.
    pub fn vcpu_base(&self) -> (res: usize)
        ensures
            res == self@.vcpu_base,
    {
        self.vcpu_base
    }

    /// The zone's vCPUs, in ascending order.
    pub fn vcpus(&self) -> (res: &Vec<usize>)
        ensures
            res@ == self@.vcpus,
    {
        &self.vcpus
    }

    /// Whether a vCPU belongs to the zone.
    pub fn has_vcpu(&self, vcpu_id: usize) -> (res: bool)
        ensures
            res == self@.vcpus.contains(vcpu_id),
    {
        let mut i: usize = 0;
        while i < self.vcpus.len()
            invariant
                i <= self.vcpus@.len(),
                forall|k: int| 0 <= k < i ==> #[trigger] self.vcpus@[k] != vcpu_id,
            decreases self.vcpus@.len() - i,
        {
            if self.vcpus[i] == vcpu_id {
                return true;
            }
            i = i + 1;
        }
        false
    }

    /// Finds a vCPU by the `MPIDR` that the guest sees.
    pub fn get_vcpu_by_guest_mpidr(&self, mpidr: GuestMpidr) -> (res: Option<usize>)
        ensures
            res == self@.vcpu_at(mpidr),
    {
        match self.guest_mpidr_to_vcpu.get(&mpidr.0) {
            Some(vcpu_id) => {
                if self.has_vcpu(*vcpu_id) {
                    Some(*vcpu_id)
                } else {
                    None
                }
            },
            None => None,
        }
    }

    /// The vCPU that an interrupt is routed to.
    pub fn irq_target(&self, irq_id: usize) -> (res: Option<usize>)
        ensures
            res == self@.irq_target(irq_id),
    {
        if irq_id < ZONE_IRQS {
            self.irq_target_vcpu[irq_id]
        } else {
            None
        }
    }

    /// The translation tables of guest memory.
    pub fn gpm(&self) -> (res: &Stage2PageTable)
        ensures
            *res == self@.gpm,
    {
        &self.gpm
    }

    /// The translation tables of guest memory, to be changed.
    pub fn gpm_mut(&mut self) -> (res: &mut Stage2PageTable)
        ensures
            *res == old(self)@.gpm,
            final(self)@ == (ZoneInnerView { gpm: *final(res), ..old(self)@ }),
    {
        &mut self.gpm
    }

    /// The translation tables that the zone's devices use.
    pub fn iommu_pt(&self) -> (res: Option<&Stage2PageTable>)
        ensures
            match res {
                Some(table) => self@.iommu_pt == Some(*table),
                None => self@.iommu_pt is None,
            },
    {
        self.iommu_pt.as_ref()
    }

    /// The translation tables that the zone's devices use, to be changed.
    pub fn iommu_pt_mut(&mut self) -> (res: Option<&mut Stage2PageTable>)
        ensures
            match res {
                Some(table) => {
                    &&& old(self)@.iommu_pt == Some(*table)
                    &&& final(self)@ == (ZoneInnerView {
                        iommu_pt: Some(*final(table)),
                        ..old(self)@
                    })
                },
                None => old(self)@.iommu_pt is None && final(self)@ == old(self)@,
            },
    {
        self.iommu_pt.as_mut()
    }

    /// The PCI root complex that the guest sees.
    pub fn vpci_bus(&self) -> (res: &VirtualRootComplex)
        ensures
            *res == self@.vpci_bus,
    {
        &self.vpci_bus
    }

    /// The PCI root complex that the guest sees, to be changed.
    pub fn vpci_bus_mut(&mut self) -> (res: &mut VirtualRootComplex)
        ensures
            *res == old(self)@.vpci_bus,
            final(self)@ == (ZoneInnerView { vpci_bus: *final(res), ..old(self)@ }),
    {
        &mut self.vpci_bus
    }

    /// The address translation units of the guest's PCIe hosts.
    pub fn atu_configs(&self) -> (res: &VirtualAtuConfigs)
        ensures
            res@ == self@.atu,
    {
        &self.atu_configs
    }

    /// The address translation units of the guest's PCIe hosts, to be changed.
    pub fn atu_configs_mut(&mut self) -> (res: &mut VirtualAtuConfigs)
        ensures
            res@ == old(self)@.atu,
            final(self)@ == (ZoneInnerView { atu: final(res)@, ..old(self)@ }),
    {
        &mut self.atu_configs
    }
}

/// A zone.
pub struct Zone {
    pub name: [u8; 32],
    pub id: usize,
    /// The zone has had an error that it cannot go on from.
    pub is_err: bool,
    pub inner: ZoneInner,
}

/// The value of a [`Zone`].
#[verifier::ext_equal]
pub struct ZoneView {
    pub name: Seq<u8>,
    pub id: usize,
    pub is_err: bool,
    pub inner: ZoneInnerView,
}

impl View for Zone {
    type V = ZoneView;

    open spec fn view(&self) -> ZoneView {
        ZoneView {
            name: self.name@,
            id: self.id,
            is_err: self.is_err,
            inner: self.inner@,
        }
    }
}

impl Zone {
    /// A zone that owns nothing.
    pub fn new(
        zoneid: usize,
        name: &[u8],
        gpm: Stage2PageTable,
        iommu_pt: Option<Stage2PageTable>,
    ) -> (res: Self)
        requires
            name@.len() == CONFIG_NAME_MAXLEN,
        ensures
            res@ == (ZoneView {
                name: name@,
                id: zoneid,
                is_err: false,
                inner: ZoneInnerView::empty(gpm, iommu_pt),
            }),
    {
        let mut own: [u8; 32] = [0; 32];
        let mut i: usize = 0;
        while i < CONFIG_NAME_MAXLEN
            invariant
                i <= CONFIG_NAME_MAXLEN,
                name@.len() == CONFIG_NAME_MAXLEN,
                forall|k: int| 0 <= k < i ==> #[trigger] own@[k] == name@[k],
            decreases CONFIG_NAME_MAXLEN - i,
        {
            own[i] = name[i];
            i = i + 1;
        }
        assert(own@ =~= name@);
        Zone { name: own, id: zoneid, is_err: false, inner: ZoneInner::new(gpm, iommu_pt) }
    }

    /// What the zone holds.
    pub fn read(&self) -> (res: &ZoneInner)
        ensures
            res@ == self@.inner,
    {
        &self.inner
    }

    /// What the zone holds, to be changed.
    pub fn write(&mut self) -> (res: &mut ZoneInner)
        ensures
            res@ == old(self)@.inner,
            final(self)@ == (ZoneView { inner: final(res)@, ..old(self)@ }),
    {
        &mut self.inner
    }

    /// The zone's identifier.
    pub fn id(&self) -> (res: usize)
        ensures
            res == self@.id,
    {
        self.id
    }

    /// The zone's name.
    pub fn name(&self) -> (res: [u8; 32])
        ensures
            res@ == self@.name,
    {
        self.name
    }

    /// Whether the zone has had an error.
    pub fn is_err(&self) -> (res: bool)
        ensures
            res == self@.is_err,
    {
        self.is_err
    }

    /// Notes that the zone has had an error.
    pub fn set_err(&mut self)
        ensures
            final(self)@ == (ZoneView { is_err: true, ..old(self)@ }),
    {
        self.is_err = true;
    }

    /// The pCPUs that the zone owns.
    pub fn cpu_set(&self) -> (res: CpuSet)
        ensures
            res == self@.inner.cpu_set,
    {
        self.inner.cpu_set()
    }

    /// The identifier of the zone's first vCPU.
    pub fn vcpu_base(&self) -> (res: usize)
        ensures
            res == self@.inner.vcpu_base,
    {
        self.inner.vcpu_base()
    }
}

// ---------------------------------------------------------------------------
// Registered zones
// ---------------------------------------------------------------------------

impl HvView {
    /// A zone owns the pCPU.
    pub open spec fn has_zone(self, cpu: usize) -> bool {
        self.cpus[cpu as int].zone is Some
    }

    /// The root zone owns the pCPU.
    pub open spec fn in_root_zone(self, cpu: usize) -> bool {
        self.zone_list.len() > 0 && self.cpus[cpu as int].zone == Some(self.zone_list[0])
    }

    /// The zone that owns the pCPU has had an error.
    pub open spec fn zone_failed(self, cpu: usize) -> HvView {
        let id = self.cpus[cpu as int].zone->0;
        self.with_zone(id, ZoneView { is_err: true, ..self.zones[id] })
    }
}

/// Notes that the zone that owns the pCPU has had an error.  The hypervisor does not
/// go on after an error of the root zone.
pub fn zone_error(hv: &mut Hypervisor, cpu: usize)
    requires
        old(hv)@.wf(),
        cpu < old(hv)@.cpus.len(),
        old(hv)@.has_zone(cpu),
        !old(hv)@.in_root_zone(cpu),
    ensures
        final(hv)@ == old(hv)@.zone_failed(cpu),
        final(hv)@.wf(),
        final(hv)@.cpus.len() == old(hv)@.cpus.len(),
{
    proof {
        crate::hypervisor::lemma_cpu_ok(hv@, cpu);
    }
    let zone_id: usize = hv.cpu(cpu).zone.unwrap();
    proof {
        crate::hypervisor::lemma_zone_ok(hv@, zone_id);
        crate::hypervisor::lemma_wf_zone(
            hv@,
            zone_id,
            ZoneView { is_err: true, ..hv@.zones[zone_id] },
        );
    }
    hv.zone_mut(zone_id).set_err();
}

/// The root zone: the first that was registered.
pub fn root_zone(hv: &Hypervisor) -> (res: usize)
    requires
        hv@.zone_list.len() > 0,
    ensures
        res == hv@.zone_list[0],
{
    hv.zone_list()[0]
}

/// Whether the root zone owns the pCPU.
pub fn is_this_root_zone(hv: &Hypervisor, cpu: usize) -> (res: bool)
    requires
        cpu < hv@.cpus.len(),
        hv@.has_zone(cpu),
        hv@.zone_list.len() > 0,
    ensures
        res == hv@.in_root_zone(cpu),
{
    hv.cpu(cpu).zone.unwrap() == root_zone(hv)
}

/// Registers a zone.
pub fn add_zone(hv: &mut Hypervisor, zone: usize)
    requires
        old(hv)@.wf(),
        old(hv)@.zones.contains_key(zone),
        !old(hv)@.zone_list.contains(zone),
    ensures
        final(hv)@ == (HvView { zone_list: old(hv)@.zone_list.push(zone), ..old(hv)@ }),
        final(hv)@.wf(),
{
    hv.list_zone(zone);
}

/// Takes a zone off the list and drops it.  Nothing else may refer to it.
pub fn remove_zone(hv: &mut Hypervisor, zone_id: usize)
    requires
        old(hv)@.wf(),
        old(hv)@.zone_list.contains(zone_id),
        old(hv)@.zone_unused(zone_id),
    ensures
        final(hv)@ == old(hv)@.zone_dropped(zone_id),
        final(hv)@.wf(),
{
    hv.drop_zone(zone_id);
}

/// Finds a registered zone.
pub fn find_zone(hv: &Hypervisor, zone_id: usize) -> (res: Option<usize>)
    ensures
        res == (if hv@.zone_list.contains(zone_id) {
            Some(zone_id)
        } else {
            None
        }),
{
    let list = hv.zone_list();
    let mut i: usize = 0;
    while i < list.len()
        invariant
            i <= list@.len(),
            list@ == hv@.zone_list,
            forall|k: int| 0 <= k < i ==> #[trigger] list@[k] != zone_id,
        decreases list@.len() - i,
    {
        if list[i] == zone_id {
            return Some(zone_id);
        }
        i = i + 1;
    }
    None
}

/// What a guest can learn of a zone.
#[derive(Debug, Clone, Copy)]
pub struct ZoneInfo {
    pub zone_id: u32,
    pub cpus: u64,
    pub name: [u8; 32],
    pub is_err: u8,
}

impl ZoneInfo {
    /// This describes `zone`.
    pub open spec fn describes(self, zone: ZoneView) -> bool {
        &&& self.zone_id == zone.id as u32
        &&& self.cpus == zone.inner.cpu_set.bitmap
        &&& self.name@ == zone.name
        &&& self.is_err == if zone.is_err {
            1u8
        } else {
            0u8
        }
    }
}

/// Describes all registered zones, in order.
pub fn all_zones_info(hv: &Hypervisor) -> (res: Vec<ZoneInfo>)
    requires
        hv@.wf(),
    ensures
        res@.len() == hv@.zone_list.len(),
        forall|i: int|
            0 <= i < res@.len() ==> (#[trigger] res@[i]).describes(hv@.zones[hv@.zone_list[i]]),
{
    let list = hv.zone_list();
    let mut out: Vec<ZoneInfo> = Vec::new();
    let mut i: usize = 0;
    while i < list.len()
        invariant
            i <= list@.len(),
            hv@.wf(),
            list@ == hv@.zone_list,
            out@.len() == i,
            forall|k: int|
                0 <= k < i ==> (#[trigger] out@[k]).describes(hv@.zones[hv@.zone_list[k]]),
        decreases list@.len() - i,
    {
        proof {
            crate::hypervisor::lemma_listed_zone(hv@, i as int);
        }
        let zone = hv.zone(list[i]);
        out.push(
            ZoneInfo {
                zone_id: zone.id() as u32,
                cpus: zone.cpu_set().bitmap,
                name: zone.name(),
                is_err: if zone.is_err() {
                    1
                } else {
                    0
                },
            },
        );
        i = i + 1;
    }
    out
}

/// The zone that owns the pCPU.
pub fn this_zone_id(hv: &Hypervisor, cpu: usize) -> (res: usize)
    requires
        hv@.wf(),
        cpu < hv@.cpus.len(),
        hv@.has_zone(cpu),
    ensures
        Some(res) == hv@.cpus[cpu as int].zone,
{
    proof {
        crate::hypervisor::lemma_cpu_ok(hv@, cpu);
        crate::hypervisor::lemma_zone_ok(hv@, hv@.cpus[cpu as int].zone->0);
    }
    hv.zone(hv.cpu(cpu).zone.unwrap()).id()
}

// ---------------------------------------------------------------------------
// Creating a zone
// ---------------------------------------------------------------------------

/// A region of guest memory.
#[derive(Debug, Clone, Copy, PartialEq, Eq, Structural)]
pub struct MemoryRegion {
    pub physical_start: u64,
    pub virtual_start: u64,
    pub size: u64,
}

impl MemoryRegion {
    /// The region holds physical address `addr`.
    pub open spec fn holds(self, addr: u64) -> bool {
        self.physical_start <= addr && self.physical_start + self.size > addr
    }
}

/// What a new zone is to be.
pub struct ZoneConfig {
    pub zone_id: u32,
    pub name: [u8; 32],
    /// The pCPUs that the zone asks for.
    pub cpus: Vec<usize>,
    pub memory_regions: Vec<MemoryRegion>,
    /// The interrupts that the zone owns, one bit for each.
    pub interrupts: Vec<u32>,
    pub entry_point: u64,
    /// Where the device tree was loaded, in physical memory.
    pub dtb_load_paddr: u64,
    pub is_aarch32: bool,
    /// Where the guest finds its interrupt controller.
    pub gic: GicConfig,
}

/// What the caller has set up for a new zone, or why it could not.
pub struct ZoneSetup {
    /// The translation tables of guest memory.
    pub tables: HvResult<Stage2PageTable>,
    /// What the architecture does before the rest.
    pub pre: HvResult<()>,
    /// The translation tables that the zone's devices use.
    pub iommu: HvResult<Option<Stage2PageTable>>,
    /// What the architecture does after the rest.
    pub post: HvResult<()>,
    /// The reset of what the zone was given.
    pub reset: HvResult<()>,
    /// Where the stacks of the vCPUs end.
    pub stack_tops: Vec<usize>,
}

/// Where the guest finds its device tree: in the last region that holds it.
pub open spec fn dtb_ipa_of(regions: Seq<MemoryRegion>, dtb: u64) -> u64
    decreases regions.len(),
{
    if regions.len() == 0 {
        INVALID_ADDRESS
    } else if regions.last().holds(dtb) {
        (regions.last().virtual_start + dtb - regions.last().physical_start) as u64
    } else {
        dtb_ipa_of(regions.drop_last(), dtb)
    }
}

/// The set of the listed pCPUs.
pub open spec fn cpu_set_of(cpus: Seq<usize>) -> CpuSet
    decreases cpus.len(),
{
    if cpus.len() == 0 {
        CpuSet { bitmap: 0 }
    } else {
        CpuSet { bitmap: cpu_set_of(cpus.drop_last()).bitmap | (1u64 << (cpus.last() as u64)) }
    }
}

impl HvView {
    /// A zone owns one of the listed pCPUs.
    pub open spec fn cpus_taken(self, cpus: Seq<usize>) -> bool {
        exists|i: int| 0 <= i < cpus.len() && self.cpus[#[trigger] cpus[i] as int].zone is Some
    }

    /// Why a zone cannot be created: its identifier is in use; its memory could not be
    /// set up; one of its pCPUs is taken; or a later stage failed.
    pub open spec fn create_error(self, config: ZoneConfig, setup: ZoneSetup) -> Option<HvError> {
        if self.zone_list.contains(config.zone_id as usize) {
            Some(HvError { num: HvErrorNum::EINVAL })
        } else if setup.tables is Err {
            Some(setup.tables->Err_0)
        } else if self.cpus_taken(config.cpus@) {
            Some(HvError { num: HvErrorNum::EBUSY })
        } else if setup.pre is Err {
            Some(setup.pre->Err_0)
        } else if setup.iommu is Err {
            Some(setup.iommu->Err_0)
        } else if setup.post is Err {
            Some(setup.post->Err_0)
        } else if setup.reset is Err {
            Some(setup.reset->Err_0)
        } else {
            None
        }
    }

    /// All listed pCPUs exist.
    pub open spec fn cpus_exist(self, cpus: Seq<usize>) -> bool {
        forall|i: int| 0 <= i < cpus.len() ==> #[trigger] cpus[i] < self.cpus.len()
    }

    /// A request for a zone gets as far as its pCPUs.
    pub open spec fn asks_for_cpus(self, config: ZoneConfig, setup: ZoneSetup) -> bool {
        !self.zone_list.contains(config.zone_id as usize) && setup.tables is Ok
    }

    /// There is room for a new zone: it asks for pCPUs that exist, its identifier
    /// names no zone that has not been registered yet, there are identifiers and
    /// stacks for its vCPUs, and its addresses fit.
    pub open spec fn has_room(self, config: ZoneConfig, setup: ZoneSetup) -> bool {
        let members = cpu_set_of(config.cpus@).members();
        &&& self.cpus_exist(config.cpus@)
        &&& self.zones.contains_key(config.zone_id as usize) ==> self.zone_list.contains(
            config.zone_id as usize,
        )
        &&& self.ids.next + members.len() < usize::MAX
        &&& setup.stack_tops@.len() >= members.len()
        &&& forall|i: int|
            0 <= i < setup.stack_tops@.len() ==> crate::arch::aarch64::vcpu::stack_fits(#[trigger] setup.stack_tops@[i])
        &&& forall|i: int|
            0 <= i < config.memory_regions@.len() ==> {
                let region = #[trigger] config.memory_regions@[i];
                &&& region.physical_start + region.size <= u64::MAX
                &&& region.holds(config.dtb_load_paddr) ==> region.virtual_start
                    + config.dtb_load_paddr <= u64::MAX
            }
        &&& forall|i: int|
            32 <= i < config.interrupts@.len() ==> #[trigger] config.interrupts@[i] == 0
        &&& config.gic matches GicConfig::Gicv3(gic) && {
            &&& gic.gicd_base != 0
            &&& gic.gicr_base != 0
            &&& gic.gicr_base + members.len() * PER_GICR_SIZE <= usize::MAX
        }
    }

    /// The zone that a configuration describes, without vCPUs.
    pub open spec fn bare_zone(config: ZoneConfig, setup: ZoneSetup) -> ZoneView {
        ZoneView {
            name: config.name@,
            id: config.zone_id as usize,
            is_err: false,
            inner: (ZoneInnerView {
                cpu_num: config.cpus@.len() as usize,
                cpu_set: cpu_set_of(config.cpus@),
                ..ZoneInnerView::empty(setup.tables->Ok_0, setup.iommu->Ok_0)
            }).with_irqs(config.interrupts@),
        }
    }

    /// A pCPU was given to a zone; the first one starts the guest.
    pub open spec fn cpu_given(
        self,
        zone: usize,
        cpu: usize,
        is_first: bool,
        entry: u64,
        dtb_ipa: u64,
        is_aarch32: bool,
    ) -> HvView {
        let pc = self.cpus[cpu as int];
        self.with_cpu(
            cpu,
            PerCpuView {
                zone: Some(zone),
                boot_cpu: pc.boot_cpu || is_first,
                cpu_on_entry: entry,
                dtb_ipa,
                is_aarch32,
                ..pc
            },
        )
    }

    /// The first `n` members of a zone were given to it.
    pub open spec fn cpus_given(
        self,
        zone: usize,
        members: Seq<usize>,
        n: nat,
        entry: u64,
        dtb_ipa: u64,
        is_aarch32: bool,
    ) -> HvView
        decreases n,
    {
        if n == 0 {
            self
        } else {
            self.cpus_given(
                zone,
                members,
                (n - 1) as nat,
                entry,
                dtb_ipa,
                is_aarch32,
            ).cpu_given(zone, members[n - 1], n == 1, entry, dtb_ipa, is_aarch32)
        }
    }

    /// The vCPUs for the first `n` members of a zone were made.
    pub open spec fn vcpus_created(
        self,
        zone: usize,
        members: Seq<usize>,
        n: nat,
        stack_tops: Seq<usize>,
        boot: TrapFrameView,
        vtr: u64,
    ) -> HvView
        decreases n,
    {
        if n == 0 {
            self
        } else {
            self.vcpus_created(
                zone,
                members,
                (n - 1) as nat,
                stack_tops,
                boot,
                vtr,
            ).vcpu_created(
                zone,
                members[n - 1],
                (n - 1) as nat,
                stack_tops[n - 1],
                boot,
                vtr,
            )
        }
    }

    /// A zone was created: it owns its pCPUs, has a vCPU for each of them, the first of
    /// which is ready to start the guest, and emulates its interrupt controller.
    pub open spec fn zone_created(self, config: ZoneConfig, setup: ZoneSetup, vtr: u64) -> HvView {
        let zone = config.zone_id as usize;
        let members = cpu_set_of(config.cpus@).members();
        let dtb_ipa = dtb_ipa_of(config.memory_regions@, config.dtb_load_paddr);
        let made = self.with_zone(zone, HvView::bare_zone(config, setup)).cpus_given(
            zone,
            members,
            members.len(),
            config.entry_point,
            dtb_ipa,
            config.is_aarch32,
        ).vcpus_created(
            zone,
            members,
            members.len(),
            setup.stack_tops@,
            TrapFrameView::boot(config.entry_point, dtb_ipa),
            vtr,
        );
        made.with_zone(
            zone,
            ZoneView { inner: made.zones[zone].inner.with_vgic(config.gic), ..made.zones[zone] },
        )
    }
}

/// A pCPU is in the set of the listed ones if and only if it is listed.
pub proof fn lemma_cpu_set_of(cpus: Seq<usize>)
    requires
        forall|i: int| 0 <= i < cpus.len() ==> #[trigger] cpus[i] < CPU_SET_BITS,
    ensures
        forall|cpu: usize| #[trigger] cpu_set_of(cpus).has(cpu) <==> cpus.contains(cpu),
    decreases cpus.len(),
{
    let set = cpu_set_of(cpus);
    if cpus.len() == 0 {
        assert forall|cpu: usize| !#[trigger] set.has(cpu) by {
            crate::cpu_data::lemma_empty_set(cpu);
        }
    } else {
        let rest = cpus.drop_last();
        let last = cpus.last();
        lemma_cpu_set_of(rest);
        assert forall|cpu: usize| #[trigger] set.has(cpu) <==> cpus.contains(cpu) by {
            crate::cpu_data::lemma_added(cpu_set_of(rest), last, cpu);
            if cpus.contains(cpu) {
                let i = choose|i: int| 0 <= i < cpus.len() && cpus[i] == cpu;
                if i < rest.len() {
                    assert(rest[i] == cpu);
                }
            }
            if rest.contains(cpu) {
                let i = choose|i: int| 0 <= i < rest.len() && rest[i] == cpu;
                assert(cpus[i] == cpu);
            }
            assert(cpus[cpus.len() - 1] == last);
        }
    }
}

/// Finds where the guest sees its device tree.
fn find_dtb_ipa(regions: &Vec<MemoryRegion>, dtb: u64) -> (res: u64)
    requires
        forall|i: int|
            0 <= i < regions@.len() ==> {
                let region = #[trigger] regions@[i];
                &&& region.physical_start + region.size <= u64::MAX
                &&& region.holds(dtb) ==> region.virtual_start + dtb <= u64::MAX
            },
    ensures
        res == dtb_ipa_of(regions@, dtb),
{
    let mut dtb_ipa: u64 = INVALID_ADDRESS;
    let mut i: usize = 0;
    while i < regions.len()
        invariant
            i <= regions@.len(),
            forall|k: int|
                0 <= k < regions@.len() ==> {
                    let region = #[trigger] regions@[k];
                    &&& region.physical_start + region.size <= u64::MAX
                    &&& region.holds(dtb) ==> region.virtual_start + dtb <= u64::MAX
                },
            dtb_ipa == dtb_ipa_of(regions@.subrange(0, i as int), dtb),
        decreases regions@.len() - i,
    {
        let region: MemoryRegion = regions[i];
        assert(regions@.subrange(0, i + 1).drop_last() =~= regions@.subrange(0, i as int));
        if region.physical_start <= dtb && region.physical_start + region.size > dtb {
            dtb_ipa = region.virtual_start + dtb - region.physical_start;
        }
        i = i + 1;
    }
    assert(regions@.subrange(0, i as int) =~= regions@);
    dtb_ipa
}

/// Whether a zone owns one of the listed pCPUs.
pub fn are_cpus_taken(hv: &Hypervisor, cpus: &Vec<usize>) -> (res: bool)
    requires
        forall|i: int| 0 <= i < cpus@.len() ==> #[trigger] cpus@[i] < hv@.cpus.len(),
    ensures
        res == hv@.cpus_taken(cpus@),
{
    let mut i: usize = 0;
    while i < cpus.len()
        invariant
            i <= cpus@.len(),
            forall|k: int| 0 <= k < cpus@.len() ==> #[trigger] cpus@[k] < hv@.cpus.len(),
            forall|k: int|
                0 <= k < i ==> hv@.cpus[#[trigger] cpus@[k] as int].zone is None,
        decreases cpus@.len() - i,
    {
        if hv.cpu(cpus[i]).zone.is_some() {
            return true;
        }
        i = i + 1;
    }
    false
}

/// The set of the listed pCPUs.
fn collect_cpus(cpus: &Vec<usize>) -> (res: CpuSet)
    requires
        forall|i: int| 0 <= i < cpus@.len() ==> #[trigger] cpus@[i] < CPU_SET_BITS,
    ensures
        res == cpu_set_of(cpus@),
{
    let mut set = CpuSet::new(0);
    let mut i: usize = 0;
    while i < cpus.len()
        invariant
            i <= cpus@.len(),
            forall|k: int| 0 <= k < cpus@.len() ==> #[trigger] cpus@[k] < CPU_SET_BITS,
            set == cpu_set_of(cpus@.subrange(0, i as int)),
        decreases cpus@.len() - i,
    {
        assert(cpus@.subrange(0, i + 1).drop_last() =~= cpus@.subrange(0, i as int));
        set.set_bit(cpus[i]);
        i = i + 1;
    }
    assert(cpus@.subrange(0, i as int) =~= cpus@);
    set
}

/// The zone that a configuration describes, without vCPUs.
fn make_zone(
    config: &ZoneConfig,
    gpm: Stage2PageTable,
    iommu_pt: Option<Stage2PageTable>,
    cpu_set: CpuSet,
) -> (res: Zone)
    requires
        cpu_set == cpu_set_of(config.cpus@),
        forall|i: int| 32 <= i < config.interrupts@.len() ==> #[trigger] config.interrupts@[i] == 0,
    ensures
        forall|setup: ZoneSetup|
            setup.tables == HvResult::<Stage2PageTable>::Ok(gpm) && setup.iommu == HvResult::<
                Option<Stage2PageTable>,
            >::Ok(iommu_pt) ==> res@ == #[trigger] HvView::bare_zone(*config, setup),
{
    let mut zone = Zone::new(config.zone_id as usize, &config.name, gpm, iommu_pt);
    *zone.write().cpu_set_mut() = cpu_set;
    zone.write().set_cpu_num(config.cpus.len());
    zone.irq_bitmap_init(config.interrupts.as_slice());
    zone
}

/// Gives the members of a zone to it.
fn give_cpus(
    hv: &mut Hypervisor,
    zone: usize,
    members: &Vec<usize>,
    entry: u64,
    dtb_ipa: u64,
    is_aarch32: bool,
)
    requires
        old(hv)@.wf(),
        old(hv)@.zones.contains_key(zone),
        forall|i: int|
            0 <= i < members@.len() ==> #[trigger] members@[i] < old(hv)@.cpus.len() && old(
                hv,
            )@.zones[zone].inner.cpu_set.has(members@[i]),
    ensures
        final(hv)@ == old(hv)@.cpus_given(
            zone,
            members@,
            members@.len(),
            entry,
            dtb_ipa,
            is_aarch32,
        ),
        final(hv)@.wf(),
        final(hv)@.cpus.len() == old(hv)@.cpus.len(),
        final(hv)@ == (HvView { cpus: final(hv)@.cpus, ..old(hv)@ }),
{
    let mut i: usize = 0;
    while i < members.len()
        invariant
            i <= members@.len(),
            hv@.wf(),
            hv@.cpus.len() == old(hv)@.cpus.len(),
            hv@ == (HvView { cpus: hv@.cpus, ..old(hv)@ }),
            hv@.zones.contains_key(zone),
            forall|k: int|
                0 <= k < members@.len() ==> #[trigger] members@[k] < hv@.cpus.len()
                    && hv@.zones[zone].inner.cpu_set.has(members@[k]),
            hv@ == old(hv)@.cpus_given(zone, members@, i as nat, entry, dtb_ipa, is_aarch32),
        decreases members@.len() - i,
    {
        let cpu: usize = members[i];
        proof {
            crate::hypervisor::lemma_cpu_ok(hv@, cpu);
            crate::hypervisor::lemma_wf_cpu(
                hv@,
                cpu,
                hv@.cpu_given(zone, cpu, i == 0, entry, dtb_ipa, is_aarch32).cpus[cpu as int],
            );
        }
        let this = hv.cpu_mut(cpu);
        this.zone = Some(zone);
        if i == 0 {
            this.boot_cpu = true;
        }
        this.cpu_on_entry = entry;
        this.dtb_ipa = dtb_ipa;
        this.is_aarch32 = is_aarch32;
        i = i + 1;
    }
}

/// Makes the vCPUs of a zone, one for each member.
fn create_vcpus(
    hv: &mut Hypervisor,
    hw: &Hardware,
    zone: usize,
    members: &Vec<usize>,
    stack_tops: &Vec<usize>,
    boot: &TrapFrame,
)
    requires
        old(hv)@.wf(),
        old(hv)@.zones.contains_key(zone),
        old(hv)@.zones[zone].inner.vcpus.len() == 0,
        forall|i: int|
            0 <= i < members@.len() ==> #[trigger] members@[i] < old(hv)@.cpus.len() && old(
                hv,
            )@.zones[zone].inner.cpu_set.has(members@[i]),
        old(hv)@.ids.next + members@.len() < usize::MAX,
        stack_tops@.len() >= members@.len(),
        forall|i: int|
            0 <= i < stack_tops@.len() ==> crate::arch::aarch64::vcpu::stack_fits(#[trigger] stack_tops@[i]),
    ensures
        final(hv)@ == old(hv)@.vcpus_created(
            zone,
            members@,
            members@.len(),
            stack_tops@,
            boot@,
            hw@.ich.vtr,
        ),
        final(hv)@.wf(),
        final(hv)@.cpus.len() == old(hv)@.cpus.len(),
        final(hv)@.zones.contains_key(zone),
        final(hv)@.zones[zone].inner.vcpus.len() == members@.len(),
        members@.len() > 0 ==> final(hv)@.zones[zone].inner.vcpu_base <= old(hv)@.ids.next,
        members@.len() > 0 ==> crate::hypervisor::bound(
            final(hv)@.vcpus,
            final(hv)@.zones[zone].inner.vcpu_base,
            members@[0],
        ),
        final(hv)@.zone_list == old(hv)@.zone_list,
{
    let mut i: usize = 0;
    while i < members.len()
        invariant
            i <= members@.len() <= stack_tops@.len(),
            hv@.wf(),
            hv@.cpus.len() == old(hv)@.cpus.len(),
            hv@.zone_list == old(hv)@.zone_list,
            hv@.zones.contains_key(zone),
            hv@.zones[zone].inner.vcpus.len() == i,
            hv@.zones[zone].inner.cpu_set == old(hv)@.zones[zone].inner.cpu_set,
            forall|k: int|
                0 <= k < members@.len() ==> #[trigger] members@[k] < hv@.cpus.len() && old(
                    hv,
                )@.zones[zone].inner.cpu_set.has(members@[k]),
            forall|k: int|
                0 <= k < stack_tops@.len() ==> crate::arch::aarch64::vcpu::stack_fits(#[trigger] stack_tops@[k]),
            hv@.ids.next <= old(hv)@.ids.next + i,
            old(hv)@.ids.next + members@.len() < usize::MAX,
            i > 0 ==> hv@.zones[zone].inner.vcpu_base <= old(hv)@.ids.next,
            i > 0 ==> crate::hypervisor::bound(
                hv@.vcpus,
                hv@.zones[zone].inner.vcpu_base,
                members@[0],
            ),
            hv@ == old(hv)@.vcpus_created(
                zone,
                members@,
                i as nat,
                stack_tops@,
                boot@,
                hw@.ich.vtr,
            ),
        decreases members@.len() - i,
    {
        proof {
            crate::hypervisor::lemma_wf_sizes(hv@);
            if hv@.ids.free.len() > 0 {
                assert(hv@.ids.free[0] < hv@.ids.next);
            }
        }
        let cpu: usize = members[i];
        hv.create_vcpu(hw, zone, cpu, i, stack_tops[i], boot);
        i = i + 1;
    }
}

/// Creates a zone, given what the caller has set up for it.  On an error nothing has
/// changed.
pub fn zone_create(
    hv: &mut Hypervisor,
    hw: &Hardware,
    config: &ZoneConfig,
    setup: &ZoneSetup,
) -> (res: HvResult<usize>)
    requires
        old(hv)@.wf(),
        old(hv)@.asks_for_cpus(*config, *setup) ==> old(hv)@.cpus_exist(config.cpus@),
        old(hv)@.create_error(*config, *setup) is None ==> old(hv)@.has_room(*config, *setup),
    ensures
        match old(hv)@.create_error(*config, *setup) {
            Some(error) => res == HvResult::<usize>::Err(error) && final(hv)@ == old(hv)@,
            None => {
                &&& res == HvResult::<usize>::Ok(config.zone_id as usize)
                &&& final(hv)@ == old(hv)@.zone_created(*config, *setup, hw@.ich.vtr)
            },
        },
        final(hv)@.wf(),
        final(hv)@.cpus.len() == old(hv)@.cpus.len(),
        res is Ok ==> {
            &&& final(hv)@.zones.contains_key(config.zone_id as usize)
            &&& final(hv)@.zone_list == old(hv)@.zone_list
            &&& final(hv)@.zones[config.zone_id as usize].inner.cpu_set == cpu_set_of(config.cpus@)
            &&& config.cpus@.len() > 0 ==> {
                let members = cpu_set_of(config.cpus@).members();
                &&& members.len() > 0
                &&& crate::hypervisor::bound(
                    final(hv)@.vcpus,
                    final(hv)@.zones[config.zone_id as usize].inner.vcpu_base,
                    members[0],
                )
            }
        },
{
    let zone_id: usize = config.zone_id as usize;
    if find_zone(hv, zone_id).is_some() {
        return Err(HvError::new(HvErrorNum::EINVAL));
    }
    let gpm: Stage2PageTable = match setup.tables {
        Ok(gpm) => gpm,
        Err(error) => {
            return Err(error);
        },
    };
    if are_cpus_taken(hv, &config.cpus) {
        return Err(HvError::new(HvErrorNum::EBUSY));
    }
    if let Err(error) = setup.pre {
        return Err(error);
    }
    let iommu_pt: Option<Stage2PageTable> = match setup.iommu {
        Ok(iommu_pt) => iommu_pt,
        Err(error) => {
            return Err(error);
        },
    };
    if let Err(error) = setup.post {
        return Err(error);
    }
    if let Err(error) = setup.reset {
        return Err(error);
    }
    proof {
        crate::hypervisor::lemma_wf_sizes(hv@);
        lemma_cpu_set_of(config.cpus@);
    }
    let cpu_set: CpuSet = collect_cpus(&config.cpus);
    let zone = make_zone(config, gpm, iommu_pt, cpu_set);
    let dtb_ipa: u64 = find_dtb_ipa(&config.memory_regions, config.dtb_load_paddr);
    let members: Vec<usize> = cpu_set.to_vec();
    proof {
        assert(zone@ == HvView::bare_zone(*config, *setup));
        cpu_set.lemma_members_below(CPU_SET_BITS as nat);
        assert forall|cpu: usize| #[trigger] zone@.inner.cpu_set.has(cpu) implies cpu
            < hv@.cpus.len() by {
            assert(config.cpus@.contains(cpu));
            let i = choose|i: int| 0 <= i < config.cpus@.len() && config.cpus@[i] == cpu;
            assert(config.cpus@[i] < hv@.cpus.len());
        }
        assert forall|i: int| 0 <= i < members@.len() implies #[trigger] members@[i]
            < hv@.cpus.len() && cpu_set.has(members@[i]) by {
            assert(cpu_set.members().contains(members@[i]));
        }
        if config.cpus@.len() > 0 {
            assert(config.cpus@.contains(config.cpus@[0]));
            assert(cpu_set.has(config.cpus@[0]));
            assert(config.cpus@[0] < hv@.cpus.len());
            assert(cpu_set.members().contains(config.cpus@[0]));
        }
    }
    hv.insert_zone(zone);
    give_cpus(hv, zone_id, &members, config.entry_point, dtb_ipa, config.is_aarch32);
    let boot = TrapFrame::boot(config.entry_point, dtb_ipa);
    create_vcpus(hv, hw, zone_id, &members, &setup.stack_tops, &boot);
    let ghost made = hv@;
    proof {
        crate::hypervisor::lemma_zone_ok(hv@, zone_id);
        crate::device::irqchip::gicv3::vgic::lemma_vgic_keeps(
            hv@.zones[zone_id].inner,
            config.gic,
        );
        lemma_created_keeps_set(
            old(hv)@.with_zone(zone_id, HvView::bare_zone(*config, *setup)).cpus_given(
                zone_id,
                members@,
                members@.len(),
                config.entry_point,
                dtb_ipa,
                config.is_aarch32,
            ),
            zone_id,
            members@,
            members@.len(),
            setup.stack_tops@,
            boot@,
            hw@.ich.vtr,
        );
        crate::hypervisor::lemma_wf_zone(
            hv@,
            zone_id,
            ZoneView {
                inner: hv@.zones[zone_id].inner.with_vgic(config.gic),
                ..hv@.zones[zone_id]
            },
        );
    }
    hv.zone_mut(zone_id).vgicv3_mmio_init(&config.gic);
    Ok(zone_id)
}

/// Making vCPUs leaves the set of a zone's pCPUs alone.
proof fn lemma_created_keeps_set(
    hv: HvView,
    zone: usize,
    members: Seq<usize>,
    n: nat,
    stack_tops: Seq<usize>,
    boot: TrapFrameView,
    vtr: u64,
)
    ensures
        hv.vcpus_created(zone, members, n, stack_tops, boot, vtr).zones[zone].inner.cpu_set
            == hv.zones[zone].inner.cpu_set,
    decreases n,
{
    if n > 0 {
        lemma_created_keeps_set(hv, zone, members, (n - 1) as nat, stack_tops, boot, vtr);
    }
}

} // verus!

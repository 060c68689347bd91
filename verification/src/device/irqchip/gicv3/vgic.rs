//! The virtual interrupt controller: what a guest's accesses to the distributor,
//! the redistributors and the translation service lead to.
//!
//! A handler changes the access and says in a [`GicPlan`] what the caller is to
//! perform; [`GicPlan::finish`] turns what the hardware returned into what the
//! guest sees.

use vstd::prelude::*;
use crate::arch::aarch64::vcpu::{
    ArchVCpuView, GicStateView, VirtualGicrState, VirtualGicrView, HV_PRIVATE_IRQS,
};
use crate::device::irqchip::gicv3::gicd::{
    GICDV3_CIDR0, GICDV3_PIDR0, GICDV3_PIDR4, GICD_CTLR, GICD_ICACTIVER, GICD_ICENABLER, GICD_ICFGR,
    GICD_ICPENDR, GICD_IGROUPR, GICD_IGRPMODR, GICD_IIDR, GICD_IPRIORITYR, GICD_IROUTER,
    GICD_ISACTIVER, GICD_ISENABLER, GICD_ISPENDR, GICD_ITARGETSR, GICD_TYPER, GICD_TYPER2,
};
use crate::device::irqchip::gicv3::gicr::{
    GICR_CLRLPIR, GICR_CTLR, GICR_ICACTIVER, GICR_ICENABLER, GICR_ICFGR, GICR_ICPENDR, GICR_ID_FIRST,
    GICR_ID_LAST, GICR_IGROUPR, GICR_IIDR, GICR_INVALLR, GICR_INVLPIR, GICR_IPRIORITYR,
    GICR_ISACTIVER, GICR_ISENABLER, GICR_ISPENDR, GICR_PENDBASER, GICR_PROPBASER, GICR_SETLPIR,
    GICR_SGI_BASE, GICR_STATUSR, GICR_SYNCR, GICR_TYPER, GICR_TYPER_LAST, GICR_WAKER, PER_GICR_SIZE,
};
use crate::device::irqchip::gicv3::gits::{
    GITS_BASER, GITS_BASER_ADDR_MASK, GITS_CBASER, GITS_COLLECTION_BASER, GITS_CREADR, GITS_CWRITER,
};
use crate::device::irqchip::gicv3::{is_spi, GicConfig};
use crate::hypervisor::{HvView, Hypervisor};
use crate::memory::{MMIOAccess, MMIOHandler};
use crate::vcpu::VCpuView;
use crate::zone::{GuestMpidr, Zone, ZoneInner, ZoneInnerView, ZoneView};

verus! {

/// The registers of the translation service that each zone has for itself.
#[derive(Debug, Clone, Copy, PartialEq, Eq, Structural)]
pub enum ItsReg {
    /// The base of the command queue.
    Cbaser,
    /// The base of the device table.
    DtBaser,
    /// The base of the collection table.
    CtBaser,
    /// The write pointer of the command queue.
    Cwriter,
    /// The read pointer of the command queue.
    Creadr,
}

/// What the caller performs for an access of a guest.
#[derive(Debug, Clone, Copy, PartialEq, Eq, Structural)]
pub enum GicPlan {
    /// Nothing.
    Done,
    /// The access as it stands, on the device at `base`.
    Perform { base: usize },
    /// A read of the device at `base`, of which the guest sees the bits in `mask`.
    Masked { base: usize, mask: u64 },
    /// A change of the bits in `mask`, on the device at `base`: a read, then a write
    /// of what [`GicPlan::merged`] returns, with nothing in between.
    Modify { base: usize, mask: u64 },
    /// A write of `host` in place of the guest's value, on the device at `base`.
    Substitute { base: usize, host: u64 },
    /// The access as it stands, to the type register of a redistributor at `base`
    /// that the guest knows by `index`.
    Typer { base: usize, index: usize, last: bool },
    /// A read of the upper half of that register.
    TyperHigh { base: usize, index: usize },
    /// The guest sets where the properties of its LPIs are, to `value`.
    SetPropBaser { value: u64 },
    /// The guest asks where the properties of its LPIs are.
    ReadPropBaser,
    /// The guest has changed the properties of an LPI.
    EnableLpi { lpi: u64 },
    /// The guest sets its zone's register of the translation service to `value`.
    ItsSet { zone_id: usize, reg: ItsReg, value: u64 },
    /// The guest sets the base of a table to `value`, as [`GicPlan::ItsSet`] does.  Then
    /// the address `table` is looked up in the zone's stage-2 tables, and what
    /// [`GicPlan::translated`] makes of `value` is written to the device at `base`.
    ItsSetTable { zone_id: usize, reg: ItsReg, value: u64, base: usize, table: u64 },
    /// The guest reads its zone's register of the translation service.
    ItsRead { zone_id: usize, reg: ItsReg },
}

/// The type register of a redistributor as a guest sees it: the index in its zone is
/// its number and its affinity, and the last one is marked.
pub open spec fn typer_seen(typer: u64, size: usize, index: usize, last: bool) -> u64 {
    let numbered = (typer & !0xff_ff00) | ((index as u64 & 0xffff) << 8);
    let placed = if size >= 8 {
        (numbered & !0xffff_ffff_0000_0000) | ((index as u64 & 0xffff_ffff) << 32)
    } else {
        numbered
    };
    if last {
        (placed & !GICR_TYPER_LAST) | GICR_TYPER_LAST
    } else {
        placed & !GICR_TYPER_LAST
    }
}

/// A base register with the address in it replaced.
pub open spec fn baser_translated(value: u64, phys: Option<u64>) -> u64 {
    match phys {
        Some(phys) => (value & !GITS_BASER_ADDR_MASK) | phys,
        None => value,
    }
}

impl GicPlan {
    /// What a read of a guest returns, given what the hardware, or whoever else the
    /// plan asks, has returned.
    pub open spec fn finished(self, access: MMIOAccess, read: u64) -> u64 {
        match self {
            GicPlan::Done => access.value,
            GicPlan::Masked { base, mask } => read & mask,
            GicPlan::Typer { base, index, last } => typer_seen(read, access.size, index, last),
            GicPlan::TyperHigh { base, index } => index as u64 & 0xff,
            GicPlan::EnableLpi { lpi } => access.value,
            _ => read,
        }
    }

    /// Works out what a read of a guest returns.
    pub fn finish(&self, access: &MMIOAccess, read: u64) -> (res: u64)
        ensures
            res == self.finished(*access, read),
    {
        match *self {
            GicPlan::Done => access.value,
            GicPlan::Masked { base, mask } => read & mask,
            GicPlan::Typer { base, index, last } => {
                let mut value: u64 = (read & !0xff_ff00) | ((index as u64 & 0xffff) << 8);
                if access.size >= 8 {
                    value = (value & !0xffff_ffff_0000_0000) | ((index as u64 & 0xffff_ffff) << 32);
                }
                value = value & !GICR_TYPER_LAST;
                if last {
                    value = value | GICR_TYPER_LAST;
                }
                value
            },
            GicPlan::TyperHigh { base, index } => index as u64 & 0xff,
            GicPlan::EnableLpi { lpi } => access.value,
            _ => read,
        }
    }

    /// What is written in a change of some bits of a register: the guest's value in
    /// those bits, what was read in the others.
    pub fn merged(mask: u64, read: u64, value: u64) -> (res: u64)
        ensures
            res == (read & !mask) | (value & mask),
    {
        (read & !mask) | (value & mask)
    }

    /// What an access writes to the register that it is for, which holds `held`; none if
    /// it writes nothing there.
    pub open spec fn writes(self, access: MMIOAccess, held: u64) -> Option<u64> {
        if !access.is_write {
            None
        } else {
            match self {
                GicPlan::Perform { base } => Some(access.value),
                GicPlan::Typer { base, index, last } => Some(access.value),
                GicPlan::Modify { base, mask } => Some((held & !mask) | (access.value & mask)),
                GicPlan::Substitute { base, host } => Some(host),
                _ => None,
            }
        }
    }

    /// Works out what an access writes to the register that it is for, given what the
    /// register holds.
    pub fn written(&self, access: &MMIOAccess, held: u64) -> (res: Option<u64>)
        ensures
            res == self.writes(*access, held),
    {
        if !access.is_write {
            return None;
        }
        match *self {
            GicPlan::Perform { base } => Some(access.value),
            GicPlan::Typer { base, index, last } => Some(access.value),
            GicPlan::Modify { base, mask } => Some(Self::merged(mask, held, access.value)),
            GicPlan::Substitute { base, host } => Some(host),
            _ => None,
        }
    }

    /// The value of a base register that goes on to the device, given where the
    /// table that the guest named is in physical memory.
    pub fn translated(value: u64, phys: Option<u64>) -> (res: u64)
        ensures
            res == baser_translated(value, phys),
    {
        match phys {
            Some(phys) => (value & !GITS_BASER_ADDR_MASK) | phys,
            None => value,
        }
    }
}

/// `reg` is one of `n` registers of `size` bytes from `base` on.
pub open spec fn in_regs(reg: usize, base: usize, n: int, size: int) -> bool {
    base <= reg < base + n * size
}

/// The addresses of `n` registers of `size` bytes from `base` on.
pub fn reg_range(base: usize, n: usize, size: usize) -> (res: core::ops::Range<usize>)
    requires
        base + n * size <= usize::MAX,
    ensures
        res.start == base,
        res.end == base + n * size,
{
    assert(0 <= n * size) by (nonlinear_arith);
    base..(base + n * size)
}

// ---------------------------------------------------------------------------
// Setting up
// ---------------------------------------------------------------------------

impl ZoneInnerView {
    /// The zone with the redistributors of its first `n` vCPUs registered.
    pub open spec fn with_redistributors(self, gicr_base: usize, n: nat) -> ZoneInnerView
        decreases n,
    {
        if n == 0 {
            self
        } else {
            self.with_redistributors(gicr_base, (n - 1) as nat).with_region(
                (gicr_base + (n - 1) * PER_GICR_SIZE) as usize,
                PER_GICR_SIZE,
                MMIOHandler::GicRedistributor,
                (self.vcpu_base + (n - 1)) as usize,
            )
        }
    }

    /// The zone with its virtual interrupt controller registered.
    pub open spec fn with_vgic(self, config: GicConfig) -> ZoneInnerView {
        match config {
            GicConfig::Gicv3(gic) => self.with_region(
                gic.gicd_base,
                gic.gicd_size,
                MMIOHandler::GicDistributor,
                0,
            ).with_region(
                gic.gits_base,
                gic.gits_size,
                MMIOHandler::GicIts,
                0,
            ).with_redistributors(gic.gicr_base, self.vcpus.len()),
            GicConfig::Gicv2 => self,
        }
    }

    /// A virtual interrupt controller can be registered.
    pub open spec fn vgic_fits(self, config: GicConfig) -> bool {
        &&& config matches GicConfig::Gicv3(gic) && {
            &&& gic.gicd_base != 0
            &&& gic.gicr_base != 0
            &&& gic.gicr_base + self.vcpus.len() * PER_GICR_SIZE <= usize::MAX
        }
        &&& self.vcpus.len() > 0 ==> self.vcpu_base + self.vcpus.len() <= usize::MAX
    }

    /// The zone with further interrupts.
    pub open spec fn with_irqs(self, irqs: Seq<u32>) -> ZoneInnerView {
        ZoneInnerView {
            irq_bitmap: Seq::new(
                32,
                |i: int|
                    if i < irqs.len() {
                        self.irq_bitmap[i] | irqs[i]
                    } else {
                        self.irq_bitmap[i]
                    },
            ),
            ..self
        }
    }
}

/// Registering regions keeps a zone's vCPUs.
proof fn lemma_redistributors_keep(zone: ZoneInnerView, gicr_base: usize, n: nat)
    ensures
        zone.with_redistributors(gicr_base, n) == (ZoneInnerView {
            mmio: zone.with_redistributors(gicr_base, n).mmio,
            ..zone
        }),
    decreases n,
{
    if n > 0 {
        lemma_redistributors_keep(zone, gicr_base, (n - 1) as nat);
    }
}

/// Registering a virtual interrupt controller changes nothing but the regions.
pub proof fn lemma_vgic_keeps(zone: ZoneInnerView, config: GicConfig)
    ensures
        zone.with_vgic(config) == (ZoneInnerView { mmio: zone.with_vgic(config).mmio, ..zone }),
{
    if let GicConfig::Gicv3(gic) = config {
        let registered = zone.with_region(
            gic.gicd_base,
            gic.gicd_size,
            MMIOHandler::GicDistributor,
            0,
        ).with_region(gic.gits_base, gic.gits_size, MMIOHandler::GicIts, 0);
        lemma_redistributors_keep(registered, gic.gicr_base, zone.vcpus.len());
    }
}

impl Zone {
    /// Registers the zone's virtual interrupt controller: the distributor, the
    /// translation service and a redistributor for each vCPU.
    pub fn vgicv3_mmio_init(&mut self, config: &GicConfig)
        requires
            old(self)@.inner.vgic_fits(*config),
        ensures
            final(self)@ == (ZoneView {
                inner: old(self)@.inner.with_vgic(*config),
                ..old(self)@
            }),
    {
        if let GicConfig::Gicv3(gic) = *config {
            let inner = self.write();
            let num_vcpus: usize = inner.vcpus().len();
            let vcpu_base: usize = inner.vcpu_base();
            inner.mmio_region_register(
                gic.gicd_base,
                gic.gicd_size,
                MMIOHandler::GicDistributor,
                0,
            );
            inner.mmio_region_register(gic.gits_base, gic.gits_size, MMIOHandler::GicIts, 0);
            let ghost registered = inner@;
            let mut i: usize = 0;
            while i < num_vcpus
                invariant
                    i <= num_vcpus,
                    gic.gicr_base + num_vcpus * PER_GICR_SIZE <= usize::MAX,
                    num_vcpus > 0 ==> vcpu_base + num_vcpus <= usize::MAX,
                    vcpu_base == registered.vcpu_base,
                    inner@ == registered.with_redistributors(gic.gicr_base, i as nat),
                decreases num_vcpus - i,
            {
                let vcpu_id: usize = vcpu_base + i;
                assert(i * PER_GICR_SIZE <= num_vcpus * PER_GICR_SIZE) by (nonlinear_arith)
                    requires
                        i <= num_vcpus,
                ;
                let gicr_base: usize = gic.gicr_base + i * PER_GICR_SIZE;
                inner.mmio_region_register(
                    gicr_base,
                    PER_GICR_SIZE,
                    MMIOHandler::GicRedistributor,
                    vcpu_id,
                );
                i = i + 1;
            }
        }
    }

    /// Gives the zone the interrupts whose bits are set.
    pub fn irq_bitmap_init(&mut self, irqs_bitmap: &[u32])
        requires
            forall|i: int| 32 <= i < irqs_bitmap@.len() ==> #[trigger] irqs_bitmap@[i] == 0,
        ensures
            final(self)@ == (ZoneView {
                inner: old(self)@.inner.with_irqs(irqs_bitmap@),
                ..old(self)@
            }),
    {
        let ghost before = self@.inner;
        let bitmap = self.write().irq_bitmap_mut();
        let ghost start = bitmap@;
        let mut i: usize = 0;
        while i < irqs_bitmap.len() && i < 32
            invariant
                i <= 32,
                i <= irqs_bitmap@.len(),
                start.len() == 32,
                forall|k: int|
                    0 <= k < 32 ==> #[trigger] bitmap@[k] == if k < i {
                        start[k] | irqs_bitmap@[k]
                    } else {
                        start[k]
                    },
            decreases irqs_bitmap@.len() - i,
        {
            bitmap[i] = bitmap[i] | irqs_bitmap[i];
            i = i + 1;
        }
        assert(bitmap@ =~= before.with_irqs(irqs_bitmap@).irq_bitmap);
    }
}

// ---------------------------------------------------------------------------
// The distributor
// ---------------------------------------------------------------------------

/// The bits of a register that belong to the zone's interrupts, among the first `n`
/// of those that the register has fields of `bits` bits for.
pub open spec fn owned_bits(zone: ZoneInnerView, first_irq: int, bits: u64, n: nat) -> u64
    decreases n,
{
    if n == 0 {
        0
    } else {
        let before = owned_bits(zone, first_irq, bits, (n - 1) as nat);
        if zone.owns_irq((first_irq + n - 1) as u32) {
            before | ((((1u64 << bits) - 1) as u64) << (((n - 1) * bits) as u64))
        } else {
            before
        }
    }
}

/// The bits of register `index` of a bank with fields of `bits` bits that belong to
/// the zone's interrupts.
pub open spec fn access_mask(zone: ZoneInnerView, index: int, bits: u64) -> u64 {
    owned_bits(zone, index * (32int / bits as int), bits, (32int / bits as int) as nat)
}

/// A field of a register belongs to exactly one interrupt.
proof fn lemma_field_added(mask: u64, bits: u64, shift: u64, bit: u64)
    by (bit_vector)
    requires
        bits == 1 || bits == 2 || bits == 8,
        shift <= 31,
        bit < 32,
    ensures
        ((mask | ((((1u64 << bits) - 1) as u64) << shift)) >> bit) & 1 == 1 <==> ((mask >> bit) & 1
            == 1 || (shift <= bit && bit < shift + bits)),
{
}

/// No bit of zero is set.
proof fn lemma_no_bit(bit: u64)
    by (bit_vector)
    requires
        bit < 32,
    ensures
        (0u64 >> bit) & 1 == 0,
{
}

/// Shifting 1 by the widths of fields.
proof fn lemma_field_width(bits: u64)
    by (bit_vector)
    requires
        bits == 1 || bits == 2 || bits == 8,
    ensures
        (1u64 << bits) >= 1,
        (1u64 << bits) <= 256,
{
}

/// The bits of a register that a guest reaches are those of its zone's interrupts:
/// bit `bit` is among them if and only if the zone owns the interrupt that the bit is
/// for.
pub proof fn lemma_owned_bits(zone: ZoneInnerView, first_irq: int, bits: u64, n: nat, bit: u64)
    requires
        bits == 1 || bits == 2 || bits == 8,
        n * bits <= 32,
        bit < 32,
    ensures
        (owned_bits(zone, first_irq, bits, n) >> bit) & 1 == 1 <==> bit < n * bits
            && zone.owns_irq((first_irq + bit as int / bits as int) as u32),
    decreases n,
{
    lemma_no_bit(bit);
    if n > 0 {
        let k = (n - 1) as nat;
        assert(k * bits + bits == n * bits) by (nonlinear_arith)
            requires
                n == k + 1,
        ;
        lemma_owned_bits(zone, first_irq, bits, k, bit);
        lemma_field_width(bits);
        let before = owned_bits(zone, first_irq, bits, k);
        let shift = (k * bits) as u64;
        lemma_field_added(before, bits, shift, bit);
        if shift <= bit && bit < shift + bits {
            assert(bit as int / bits as int == k) by (nonlinear_arith)
                requires
                    k * bits <= bit,
                    bit < k * bits + bits,
                    bits > 0,
            ;
        }
    }
}

/// What a guest's access to a register with bits of several interrupts leads to.
pub open spec fn restricted(mmio: MMIOAccess, mask: u64, is_poke: bool, base: usize) -> (
    MMIOAccess,
    GicPlan,
) {
    if !mmio.is_write {
        (mmio, GicPlan::Masked { base, mask })
    } else if is_poke {
        (MMIOAccess { value: mmio.value & mask, ..mmio }, GicPlan::Perform { base })
    } else {
        (mmio, GicPlan::Modify { base, mask })
    }
}

/// Restricts an access to a register with bits of several interrupts to those of the
/// zone: a read shows no others; a write that sets or clears (`is_poke`) touches no
/// others; any other write keeps the others as they are.
pub fn restrict_bitmask_access(
    zone: &ZoneInner,
    mmio: &mut MMIOAccess,
    reg_index: usize,
    bits_per_irq: usize,
    is_poke: bool,
    gicd_base: usize,
) -> (res: GicPlan)
    requires
        bits_per_irq == 1 || bits_per_irq == 2 || bits_per_irq == 8,
        reg_index * (32int / bits_per_irq as int) + 32int / bits_per_irq as int <= 1024,
    ensures
        (*final(mmio), res) == restricted(
            *old(mmio),
            access_mask(zone@, reg_index as int, bits_per_irq as u64),
            is_poke,
            gicd_base,
        ),
{
    let bits: u64 = bits_per_irq as u64;
    proof {
        lemma_field_width(bits);
    }
    let irqs_per_reg: usize = 32 / bits_per_irq;
    let irq_bits: u64 = (1u64 << bits) - 1;
    assert(reg_index <= 1024) by (nonlinear_arith)
        requires
            reg_index * (32int / bits_per_irq as int) + 32int / bits_per_irq as int <= 1024,
            bits_per_irq == 1 || bits_per_irq == 2 || bits_per_irq == 8,
    ;
    assert(reg_index * irqs_per_reg <= 1024);
    let first_irq: usize = reg_index * irqs_per_reg;
    let mut mask: u64 = 0;
    let mut irq: usize = 0;
    while irq < irqs_per_reg
        invariant
            irq <= irqs_per_reg <= 32,
            irqs_per_reg * bits == 32,
            first_irq + irqs_per_reg <= 1024,
            bits == 1 || bits == 2 || bits == 8,
            irq_bits == (1u64 << bits) - 1,
            mask == owned_bits(zone@, first_irq as int, bits, irq as nat),
        decreases irqs_per_reg - irq,
    {
        if zone.irq_in_zone((first_irq + irq) as u32) {
            assert(irq * bits < 32) by (nonlinear_arith)
                requires
                    irq < irqs_per_reg,
                    irqs_per_reg * bits == 32,
                    bits > 0,
            ;
            mask = mask | (irq_bits << (irq as u64 * bits));
        }
        irq = irq + 1;
    }
    if !mmio.is_write {
        return GicPlan::Masked { base: gicd_base, mask };
    }
    if !is_poke {
        GicPlan::Modify { base: gicd_base, mask }
    } else {
        mmio.value = mmio.value & mask;
        GicPlan::Perform { base: gicd_base }
    }
}

/// The vCPU that a value of a routing register names; none if it says any.
pub open spec fn route_target(zone: ZoneInnerView, value: u64) -> Option<usize> {
    if value & 0x8000_0000 != 0 {
        None
    } else {
        zone.vcpu_at(GuestMpidr::of(value))
    }
}

impl HvView {
    /// The zone that owns the pCPU.
    pub open spec fn zone_of(self, cpu: usize) -> ZoneView {
        self.zones[self.cpus[cpu as int].zone->0]
    }

    /// Interrupt `irq` of the zone that owns the pCPU is routed to `target`.
    pub open spec fn irq_routed(self, cpu: usize, irq: u32, target: Option<usize>) -> HvView {
        let id = self.cpus[cpu as int].zone->0;
        let zone = self.zones[id];
        self.with_zone(
            id,
            ZoneView {
                inner: ZoneInnerView {
                    irq_targets: zone.inner.irq_targets.update(irq as int, target),
                    ..zone.inner
                },
                ..zone
            },
        )
    }

    /// A guest's access to a register that belongs to one interrupt.  Other zones'
    /// interrupts cannot be reached.  A write that routes an interrupt names a vCPU;
    /// the hardware gets the pCPU that it is bound to.
    pub open spec fn irq_reg_accessed(self, cpu: usize, mmio: MMIOAccess, irq: u32) -> (
        HvView,
        GicPlan,
    ) {
        let zone = self.zone_of(cpu).inner;
        let base = self.gic.gicd_base;
        if !(32 <= irq < 1020) || !zone.owns_irq(irq) {
            (self, GicPlan::Done)
        } else if mmio.is_write && in_regs(mmio.address, GICD_IROUTER, 1024, 8) {
            let target = route_target(zone, mmio.value);
            (
                self.irq_routed(cpu, irq, target),
                GicPlan::Substitute {
                    base,
                    host: match target {
                        Some(id) => self.vcpus[id].affinity->0 as u64,
                        None => mmio.value,
                    },
                },
            )
        } else {
            (self, GicPlan::Perform { base })
        }
    }

    /// A guest's access to the distributor.
    pub open spec fn dist_accessed(self, cpu: usize, mmio: MMIOAccess) -> (
        HvView,
        MMIOAccess,
        GicPlan,
    ) {
        let reg = mmio.address;
        let zone = self.zone_of(cpu).inner;
        let base = self.gic.gicd_base;
        if in_regs(reg, GICD_IROUTER, 1024, 8) {
            let (hv, plan) = self.irq_reg_accessed(
                cpu,
                mmio,
                ((reg - GICD_IROUTER) / 8) as u32,
            );
            (hv, mmio, plan)
        } else if in_regs(reg, GICD_ITARGETSR, 1024, 1) {
            let (hv, plan) = self.irq_reg_accessed(cpu, mmio, (reg - GICD_ITARGETSR) as u32);
            (hv, mmio, plan)
        } else if is_poke_reg(reg) {
            let (mmio, plan) = restricted(
                mmio,
                access_mask(zone, (reg & 0x7f) as int / 4, 1),
                true,
                base,
            );
            (self, mmio, plan)
        } else if in_regs(reg, GICD_IGROUPR, 32, 4) {
            let (mmio, plan) = restricted(
                mmio,
                access_mask(zone, (reg & 0x7f) as int / 4, 1),
                false,
                base,
            );
            (self, mmio, plan)
        } else if in_regs(reg, GICD_ICFGR, 64, 4) {
            let (mmio, plan) = restricted(
                mmio,
                access_mask(zone, (reg & 0xff) as int / 4, 2),
                false,
                base,
            );
            (self, mmio, plan)
        } else if in_regs(reg, GICD_IPRIORITYR, 255, 4) {
            let (mmio, plan) = restricted(
                mmio,
                access_mask(zone, (reg & 0x3ff) as int / 4, 8),
                false,
                base,
            );
            (self, mmio, plan)
        } else if is_misc_reg(reg) && !mmio.is_write {
            (self, mmio, GicPlan::Perform { base })
        } else {
            (self, mmio, GicPlan::Done)
        }
    }
}

/// A distributor register whose bits set or clear something.
pub open spec fn is_poke_reg(reg: usize) -> bool {
    ||| in_regs(reg, GICD_ICENABLER, 32, 4)
    ||| in_regs(reg, GICD_ISENABLER, 32, 4)
    ||| in_regs(reg, GICD_ICPENDR, 32, 4)
    ||| in_regs(reg, GICD_ISPENDR, 32, 4)
    ||| in_regs(reg, GICD_ICACTIVER, 32, 4)
    ||| in_regs(reg, GICD_ISACTIVER, 32, 4)
}

/// A distributor register that is about the distributor as a whole.
pub open spec fn is_misc_reg(reg: usize) -> bool {
    ||| in_regs(reg, GICDV3_PIDR0, 4, 4)
    ||| in_regs(reg, GICDV3_PIDR4, 4, 4)
    ||| in_regs(reg, GICDV3_CIDR0, 4, 4)
    ||| reg == GICD_CTLR
    ||| reg == GICD_TYPER
    ||| reg == GICD_IIDR
    ||| reg == GICD_TYPER2
}

/// A distributor register that a guest may touch.
pub open spec fn is_dist_reg(reg: usize) -> bool {
    ||| in_regs(reg, GICD_IROUTER, 1024, 8)
    ||| in_regs(reg, GICD_ITARGETSR, 1024, 1)
    ||| is_poke_reg(reg)
    ||| in_regs(reg, GICD_IGROUPR, 32, 4)
    ||| in_regs(reg, GICD_ICFGR, 64, 4)
    ||| in_regs(reg, GICD_IPRIORITYR, 255, 4)
    ||| in_regs(reg, GICD_IGRPMODR, 32, 4)
    ||| is_misc_reg(reg)
}

/// Facts about the low bits of an address.
proof fn lemma_low_bits(reg: usize)
    by (bit_vector)
    ensures
        reg & 0x7f <= 0x7f,
        reg & 0xff <= 0xff,
        reg & 0x3ff <= 0x3ff,
{
}

/// Whether a distributor register is one that sets or clears.
fn poke_reg(reg: usize) -> (res: bool)
    ensures
        res == is_poke_reg(reg),
{
    (reg >= GICD_ICENABLER && reg < GICD_ICENABLER + 128) || (reg >= GICD_ISENABLER && reg
        < GICD_ISENABLER + 128) || (reg >= GICD_ICPENDR && reg < GICD_ICPENDR + 128) || (reg
        >= GICD_ISPENDR && reg < GICD_ISPENDR + 128) || (reg >= GICD_ICACTIVER && reg
        < GICD_ICACTIVER + 128) || (reg >= GICD_ISACTIVER && reg < GICD_ISACTIVER + 128)
}

/// Whether a distributor register is about the distributor as a whole.
fn misc_reg(reg: usize) -> (res: bool)
    ensures
        res == is_misc_reg(reg),
{
    (reg >= GICDV3_PIDR0 && reg < GICDV3_PIDR0 + 16) || (reg >= GICDV3_PIDR4 && reg < GICDV3_PIDR4
        + 16) || (reg >= GICDV3_CIDR0 && reg < GICDV3_CIDR0 + 16) || reg == GICD_CTLR || reg
        == GICD_TYPER || reg == GICD_IIDR || reg == GICD_TYPER2
}

/// Whether a guest may touch a distributor register.  There is no answer to an access
/// to any other.
pub fn dist_reg_known(reg: usize) -> (res: bool)
    ensures
        res == is_dist_reg(reg),
{
    (reg >= GICD_IROUTER && reg < GICD_IROUTER + 8192) || (reg >= GICD_ITARGETSR && reg
        < GICD_ITARGETSR + 1024) || poke_reg(reg) || (reg >= GICD_IGROUPR && reg < GICD_IGROUPR
        + 128) || (reg >= GICD_ICFGR && reg < GICD_ICFGR + 256) || (reg >= GICD_IPRIORITYR && reg
        < GICD_IPRIORITYR + 1020) || (reg >= GICD_IGRPMODR && reg < GICD_IGRPMODR + 128)
        || misc_reg(reg)
}

/// Handles a guest's access to a register that belongs to one interrupt.
fn vgicv3_handle_irq_ops(hv: &mut Hypervisor, cpu: usize, mmio: &MMIOAccess, irq: u32) -> (res:
    GicPlan)
    requires
        old(hv)@.wf(),
        cpu < old(hv)@.cpus.len(),
        old(hv)@.has_zone(cpu),
        irq < 1024,
    ensures
        (final(hv)@, res) == old(hv)@.irq_reg_accessed(cpu, *mmio, irq),
        final(hv)@.wf(),
        final(hv)@.cpus.len() == old(hv)@.cpus.len(),
{
    proof {
        crate::hypervisor::lemma_cpu_ok(hv@, cpu);
    }
    let zone_id: usize = hv.cpu(cpu).zone.unwrap();
    let base: usize = hv.gic().gicd_base;
    proof {
        crate::hypervisor::lemma_zone_ok(hv@, zone_id);
    }
    let zone = hv.zone(zone_id).read();
    if !is_spi(irq) || !zone.irq_in_zone(irq) {
        return GicPlan::Done;
    }
    let reg: usize = mmio.address;
    if mmio.is_write && reg >= GICD_IROUTER && reg < GICD_IROUTER + 1024 * 8 {
        let target: Option<usize> = if mmio.value & 0x8000_0000 != 0 {
            None
        } else {
            zone.get_vcpu_by_guest_mpidr(GuestMpidr::new(mmio.value))
        };
        let host: u64 = match target {
            Some(id) => {
                proof {
                    let inner = hv@.zones[zone_id].inner;
                    let k = choose|k: int| 0 <= k < inner.vcpus.len() && inner.vcpus[k] == id;
                    assert(hv@.vcpus.contains_key(inner.vcpus[k]));
                    crate::hypervisor::lemma_vcpu_ok(hv@, id);
                }
                hv.vcpu(id).get_pcpu_affinity() as u64
            },
            None => mmio.value,
        };
        proof {
            crate::hypervisor::lemma_wf_zone(
                hv@,
                zone_id,
                hv@.irq_routed(cpu, irq, target).zones[zone_id],
            );
        }
        hv.zone_mut(zone_id).write().irq_target_vcpu[irq as usize] = target;
        GicPlan::Substitute { base, host }
    } else {
        GicPlan::Perform { base }
    }
}

/// Handles a guest's access to the distributor.
pub fn vgicv3_dist_handler(hv: &mut Hypervisor, cpu: usize, mmio: &mut MMIOAccess) -> (res: GicPlan)
    requires
        old(hv)@.wf(),
        cpu < old(hv)@.cpus.len(),
        old(hv)@.has_zone(cpu),
        is_dist_reg(old(mmio).address),
    ensures
        (final(hv)@, *final(mmio), res) == old(hv)@.dist_accessed(cpu, *old(mmio)),
        final(hv)@.wf(),
        final(hv)@.cpus.len() == old(hv)@.cpus.len(),
{
    let reg: usize = mmio.address;
    let base: usize = hv.gic().gicd_base;
    proof {
        lemma_low_bits(reg);
        crate::hypervisor::lemma_cpu_ok(hv@, cpu);
    }
    if reg >= GICD_IROUTER && reg < GICD_IROUTER + 8192 {
        return vgicv3_handle_irq_ops(hv, cpu, mmio, ((reg - GICD_IROUTER) / 8) as u32);
    }
    if reg >= GICD_ITARGETSR && reg < GICD_ITARGETSR + 1024 {
        return vgicv3_handle_irq_ops(hv, cpu, mmio, (reg - GICD_ITARGETSR) as u32);
    }
    let zone = hv.zone(hv.cpu(cpu).zone.unwrap()).read();
    if poke_reg(reg) {
        restrict_bitmask_access(zone, mmio, (reg & 0x7f) / 4, 1, true, base)
    } else if reg >= GICD_IGROUPR && reg < GICD_IGROUPR + 128 {
        restrict_bitmask_access(zone, mmio, (reg & 0x7f) / 4, 1, false, base)
    } else if reg >= GICD_ICFGR && reg < GICD_ICFGR + 256 {
        restrict_bitmask_access(zone, mmio, (reg & 0xff) / 4, 2, false, base)
    } else if reg >= GICD_IPRIORITYR && reg < GICD_IPRIORITYR + 1020 {
        restrict_bitmask_access(zone, mmio, (reg & 0x3ff) / 4, 8, false, base)
    } else if misc_reg(reg) && !mmio.is_write {
        GicPlan::Perform { base }
    } else {
        GicPlan::Done
    }
}

// ---------------------------------------------------------------------------
// Redistributors
// ---------------------------------------------------------------------------

/// A vCPU's redistributor shadow, and what a guest's access to it returns.
pub open spec fn shadow_accessed(vgicr: VirtualGicrView, mmio: MMIOAccess, reg: usize) -> (
    VirtualGicrView,
    MMIOAccess,
) {
    let word = mmio.value as u32;
    let touched = VirtualGicrView { initialized: vgicr.initialized || mmio.is_write, ..vgicr };
    let priority = (reg - (GICR_SGI_BASE + GICR_IPRIORITYR)) / 4;
    let config = (reg - (GICR_SGI_BASE + GICR_ICFGR)) / 4;
    let (written, read): (VirtualGicrView, u32) = if reg == GICR_SGI_BASE + GICR_IGROUPR {
        (VirtualGicrView { igroupr: word | 0x400_0000, ..touched }, vgicr.igroupr)
    } else if reg == GICR_SGI_BASE + GICR_ISENABLER {
        (VirtualGicrView { isenabler: vgicr.isenabler | word, ..touched }, vgicr.isenabler)
    } else if reg == GICR_SGI_BASE + GICR_ICENABLER {
        (VirtualGicrView { isenabler: vgicr.isenabler & !word, ..touched }, vgicr.isenabler)
    } else if reg == GICR_SGI_BASE + GICR_ISPENDR {
        (VirtualGicrView { ispendr: vgicr.ispendr | word, ..touched }, vgicr.ispendr)
    } else if reg == GICR_SGI_BASE + GICR_ICPENDR {
        (VirtualGicrView { ispendr: vgicr.ispendr & !word, ..touched }, vgicr.ispendr)
    } else if reg == GICR_SGI_BASE + GICR_ISACTIVER {
        (VirtualGicrView { isactiver: vgicr.isactiver | word, ..touched }, vgicr.isactiver)
    } else if reg == GICR_SGI_BASE + GICR_ICACTIVER {
        (VirtualGicrView { isactiver: vgicr.isactiver & !word, ..touched }, vgicr.isactiver)
    } else if in_regs(reg, (GICR_SGI_BASE + GICR_IPRIORITYR) as usize, 8, 4) {
        (
            VirtualGicrView { ipriorityr: vgicr.ipriorityr.update(priority, word), ..touched },
            vgicr.ipriorityr[priority],
        )
    } else if in_regs(reg, (GICR_SGI_BASE + GICR_ICFGR) as usize, 2, 4) {
        (
            VirtualGicrView { icfgr: vgicr.icfgr.update(config, word), ..touched },
            vgicr.icfgr[config],
        )
    } else {
        (touched, 0)
    };
    if mmio.is_write {
        (written, mmio)
    } else {
        (touched, MMIOAccess { value: read as u64, ..mmio })
    }
}

/// Reads or writes a vCPU's redistributor shadow.  Interrupt 26, the EL2 timer's,
/// stays in group 1 whatever the guest writes.
pub fn vgicr_shadow_access(vgicr: &mut VirtualGicrState, mmio: &mut MMIOAccess, reg: usize)
    ensures
        (final(vgicr)@, *final(mmio)) == shadow_accessed(old(vgicr)@, *old(mmio), reg),
{
    let word: u32 = mmio.value as u32;
    if mmio.is_write {
        vgicr.initialized = true;
    }
    let ghost touched = vgicr@;
    assert(touched == (VirtualGicrView {
        initialized: old(vgicr)@.initialized || mmio.is_write,
        ..old(vgicr)@
    }));
    let read: u32 = if reg == GICR_SGI_BASE + GICR_IGROUPR {
        if mmio.is_write {
            vgicr.igroupr = word | 0x400_0000;
        }
        vgicr.igroupr
    } else if reg == GICR_SGI_BASE + GICR_ISENABLER {
        if mmio.is_write {
            vgicr.isenabler = vgicr.isenabler | word;
        }
        vgicr.isenabler
    } else if reg == GICR_SGI_BASE + GICR_ICENABLER {
        if mmio.is_write {
            vgicr.isenabler = vgicr.isenabler & !word;
        }
        vgicr.isenabler
    } else if reg == GICR_SGI_BASE + GICR_ISPENDR {
        if mmio.is_write {
            vgicr.ispendr = vgicr.ispendr | word;
        }
        vgicr.ispendr
    } else if reg == GICR_SGI_BASE + GICR_ICPENDR {
        if mmio.is_write {
            vgicr.ispendr = vgicr.ispendr & !word;
        }
        vgicr.ispendr
    } else if reg == GICR_SGI_BASE + GICR_ISACTIVER {
        if mmio.is_write {
            vgicr.isactiver = vgicr.isactiver | word;
        }
        vgicr.isactiver
    } else if reg == GICR_SGI_BASE + GICR_ICACTIVER {
        if mmio.is_write {
            vgicr.isactiver = vgicr.isactiver & !word;
        }
        vgicr.isactiver
    } else if reg >= GICR_SGI_BASE + GICR_IPRIORITYR && reg < GICR_SGI_BASE + GICR_IPRIORITYR + 32 {
        let idx: usize = (reg - (GICR_SGI_BASE + GICR_IPRIORITYR)) / 4;
        if mmio.is_write {
            vgicr.ipriorityr[idx] = word;
        }
        vgicr.ipriorityr[idx]
    } else if reg >= GICR_SGI_BASE + GICR_ICFGR && reg < GICR_SGI_BASE + GICR_ICFGR + 8 {
        let idx: usize = (reg - (GICR_SGI_BASE + GICR_ICFGR)) / 4;
        if mmio.is_write {
            vgicr.icfgr[idx] = word;
        }
        vgicr.icfgr[idx]
    } else {
        0
    };
    if !mmio.is_write {
        mmio.value = read as u64;
    }
}

/// A redistributor register that each vCPU has for itself.
pub open spec fn is_private_reg(reg: usize) -> bool {
    ||| reg == GICR_STATUSR
    ||| reg == GICR_SGI_BASE + GICR_IGROUPR
    ||| reg == GICR_SGI_BASE + GICR_ISENABLER
    ||| reg == GICR_SGI_BASE + GICR_ICENABLER
    ||| reg == GICR_SGI_BASE + GICR_ISPENDR
    ||| reg == GICR_SGI_BASE + GICR_ICPENDR
    ||| reg == GICR_SGI_BASE + GICR_ISACTIVER
    ||| reg == GICR_SGI_BASE + GICR_ICACTIVER
    ||| in_regs(reg, (GICR_SGI_BASE + GICR_IPRIORITYR) as usize, 8, 4)
    ||| in_regs(reg, (GICR_SGI_BASE + GICR_ICFGR) as usize, 2, 4)
}

/// A guest's access with the hypervisor's own interrupts taken out of what it
/// disables.
pub open spec fn spared(mmio: MMIOAccess, reg: usize) -> MMIOAccess {
    if reg == GICR_SGI_BASE + GICR_ICENABLER && mmio.is_write {
        MMIOAccess { value: mmio.value & !(HV_PRIVATE_IRQS as u64), ..mmio }
    } else {
        mmio
    }
}

/// A guest's access to a private register of a vCPU: the shadow, and what goes to
/// the hardware if the vCPU runs.  A write then forwards what the shadow holds, except
/// that what is disabled is forwarded as it was asked for.
pub open spec fn private_accessed(
    vgicr: VirtualGicrView,
    mmio: MMIOAccess,
    reg: usize,
    running: bool,
) -> (VirtualGicrView, MMIOAccess) {
    let asked = spared(mmio, reg);
    let (shadow, seen) = shadow_accessed(vgicr, asked, reg);
    if running && mmio.is_write && reg != GICR_SGI_BASE + GICR_ICENABLER {
        let (same, back) = shadow_accessed(shadow, MMIOAccess { is_write: false, ..seen }, reg);
        (same, MMIOAccess { is_write: true, ..back })
    } else if running {
        (shadow, spared(seen, reg))
    } else {
        (shadow, seen)
    }
}

impl VCpuView {
    /// The vCPU with another redistributor shadow.
    pub open spec fn with_vgicr(self, vgicr: VirtualGicrView) -> VCpuView {
        VCpuView {
            arch: ArchVCpuView {
                gic_state: GicStateView { vgicr, ..self.arch.gic_state },
                ..self.arch
            },
            ..self
        }
    }
}

impl HvView {
    /// A guest's access to the redistributor of vCPU `id` of its zone.
    pub open spec fn redist_accessed(self, cpu: usize, mmio: MMIOAccess, id: usize) -> (
        HvView,
        MMIOAccess,
        GicPlan,
    ) {
        let zone = self.zone_of(cpu).inner;
        let vcpu = self.vcpus[id];
        let reg = mmio.address;
        if !zone.vcpus.contains(id) {
            (self, mmio, GicPlan::Done)
        } else {
            let home = vcpu.affinity->0;
            let base = self.gicr_bases[home as int];
            let index: usize = if id >= zone.vcpu_base {
                (id - zone.vcpu_base) as usize
            } else {
                0
            };
            let running = home == cpu && self.cpus[cpu as int].current_vcpu == Some(id);
            if reg == GICR_CTLR {
                (
                    self,
                    mmio,
                    if mmio.is_write {
                        GicPlan::Perform { base }
                    } else {
                        GicPlan::Masked { base, mask: !0x3 }
                    },
                )
            } else if reg == GICR_TYPER {
                (
                    self,
                    mmio,
                    GicPlan::Typer { base, index, last: index == zone.vcpus.len() - 1 },
                )
            } else if reg == GICR_TYPER + 4 {
                (
                    self,
                    mmio,
                    if mmio.is_write {
                        GicPlan::Done
                    } else {
                        GicPlan::TyperHigh { base, index }
                    },
                )
            } else if reg == GICR_IIDR || (GICR_ID_FIRST <= reg <= GICR_ID_LAST) || reg
                == GICR_PENDBASER || reg == GICR_SETLPIR || reg == GICR_CLRLPIR || reg
                == GICR_INVALLR {
                (self, mmio, GicPlan::Perform { base })
            } else if reg == GICR_PROPBASER {
                (
                    self,
                    mmio,
                    if mmio.is_write {
                        GicPlan::SetPropBaser { value: mmio.value }
                    } else {
                        GicPlan::ReadPropBaser
                    },
                )
            } else if reg == GICR_SYNCR {
                (self, MMIOAccess { value: 0, ..mmio }, GicPlan::Done)
            } else if reg == GICR_INVLPIR {
                (
                    self,
                    mmio,
                    GicPlan::EnableLpi { lpi: ((mmio.value & 0xffff_ffff) - 8192) as u64 },
                )
            } else if reg == GICR_WAKER {
                if running {
                    (self, mmio, GicPlan::Perform { base })
                } else {
                    let (vgicr, seen) = shadow_accessed(vcpu.arch.gic_state.vgicr, mmio, reg);
                    (self.with_vcpu(id, vcpu.with_vgicr(vgicr)), seen, GicPlan::Done)
                }
            } else if is_private_reg(reg) {
                let (vgicr, seen) = private_accessed(
                    vcpu.arch.gic_state.vgicr,
                    mmio,
                    reg,
                    running,
                );
                (
                    self.with_vcpu(id, vcpu.with_vgicr(vgicr)),
                    seen,
                    if running {
                        GicPlan::Perform { base }
                    } else {
                        GicPlan::Done
                    },
                )
            } else {
                (self, mmio, GicPlan::Done)
            }
        }
    }
}

/// Whether a redistributor register is one that each vCPU has for itself.
fn private_reg(reg: usize) -> (res: bool)
    ensures
        res == is_private_reg(reg),
{
    reg == GICR_STATUSR || reg == GICR_SGI_BASE + GICR_IGROUPR || reg == GICR_SGI_BASE
        + GICR_ISENABLER || reg == GICR_SGI_BASE + GICR_ICENABLER || reg == GICR_SGI_BASE
        + GICR_ISPENDR || reg == GICR_SGI_BASE + GICR_ICPENDR || reg == GICR_SGI_BASE
        + GICR_ISACTIVER || reg == GICR_SGI_BASE + GICR_ICACTIVER || (reg >= GICR_SGI_BASE
        + GICR_IPRIORITYR && reg < GICR_SGI_BASE + GICR_IPRIORITYR + 32) || (reg >= GICR_SGI_BASE
        + GICR_ICFGR && reg < GICR_SGI_BASE + GICR_ICFGR + 8)
}

/// Handles a guest's access to a private register of a vCPU.
fn private_access(
    vgicr: &mut VirtualGicrState,
    mmio: &mut MMIOAccess,
    reg: usize,
    running: bool,
)
    ensures
        (final(vgicr)@, *final(mmio)) == private_accessed(
            old(vgicr)@,
            *old(mmio),
            reg,
            running,
        ),
{
    if reg == GICR_SGI_BASE + GICR_ICENABLER && mmio.is_write {
        mmio.value = mmio.value & !(HV_PRIVATE_IRQS as u64);
    }
    vgicr_shadow_access(vgicr, mmio, reg);
    if running {
        if mmio.is_write && reg != GICR_SGI_BASE + GICR_ICENABLER {
            mmio.is_write = false;
            vgicr_shadow_access(vgicr, mmio, reg);
            mmio.is_write = true;
        }
        if mmio.is_write && reg == GICR_SGI_BASE + GICR_ICENABLER {
            mmio.value = mmio.value & !(HV_PRIVATE_IRQS as u64);
        }
    }
}

/// Handles a guest's access to the redistributor of a vCPU of its zone.
pub fn vgicv3_redist_handler(
    hv: &mut Hypervisor,
    cpu: usize,
    mmio: &mut MMIOAccess,
    vcpu_id: usize,
) -> (res: GicPlan)
    requires
        old(hv)@.wf(),
        cpu < old(hv)@.cpus.len(),
        old(hv)@.has_zone(cpu),
        old(hv)@.zone_of(cpu).inner.vcpus.contains(vcpu_id) && old(mmio).address == GICR_INVLPIR
            ==> old(mmio).value & 0xffff_ffff >= 8192,
    ensures
        (final(hv)@, *final(mmio), res) == old(hv)@.redist_accessed(cpu, *old(mmio), vcpu_id),
        final(hv)@.wf(),
        final(hv)@.cpus.len() == old(hv)@.cpus.len(),
{
    proof {
        crate::hypervisor::lemma_cpu_ok(hv@, cpu);
        crate::hypervisor::lemma_wf_sizes(hv@);
    }
    let zone_id: usize = hv.cpu(cpu).zone.unwrap();
    let reg: usize = mmio.address;
    proof {
        crate::hypervisor::lemma_zone_ok(hv@, zone_id);
    }
    let zone = hv.zone(zone_id).read();
    if !zone.has_vcpu(vcpu_id) {
        return GicPlan::Done;
    }
    proof {
        let inner = hv@.zones[zone_id].inner;
        let k = choose|k: int| 0 <= k < inner.vcpus.len() && inner.vcpus[k] == vcpu_id;
        assert(hv@.vcpus.contains_key(inner.vcpus[k]));
        crate::hypervisor::lemma_vcpu_ok(hv@, vcpu_id);
    }
    let home: usize = hv.vcpu(vcpu_id).get_pcpu_affinity();
    let base: usize = hv.gicr_base(home);
    let vcpu_base: usize = zone.vcpu_base();
    let index: usize = if vcpu_id >= vcpu_base {
        vcpu_id - vcpu_base
    } else {
        0
    };
    let count: usize = zone.vcpus().len();
    let running: bool = home == cpu && match hv.cpu(cpu).current_vcpu {
        Some(current) => current == vcpu_id,
        None => false,
    };
    if reg == GICR_CTLR {
        if mmio.is_write {
            GicPlan::Perform { base }
        } else {
            GicPlan::Masked { base, mask: !0x3 }
        }
    } else if reg == GICR_TYPER {
        GicPlan::Typer { base, index, last: index == count - 1 }
    } else if reg == GICR_TYPER + 4 {
        if mmio.is_write {
            GicPlan::Done
        } else {
            GicPlan::TyperHigh { base, index }
        }
    } else if reg == GICR_IIDR || (GICR_ID_FIRST <= reg && reg <= GICR_ID_LAST) || reg
        == GICR_PENDBASER || reg == GICR_SETLPIR || reg == GICR_CLRLPIR || reg == GICR_INVALLR {
        GicPlan::Perform { base }
    } else if reg == GICR_PROPBASER {
        if mmio.is_write {
            GicPlan::SetPropBaser { value: mmio.value }
        } else {
            GicPlan::ReadPropBaser
        }
    } else if reg == GICR_SYNCR {
        mmio.value = 0;
        GicPlan::Done
    } else if reg == GICR_INVLPIR {
        GicPlan::EnableLpi { lpi: (mmio.value & 0xffff_ffff) - 8192 }
    } else if reg == GICR_WAKER {
        if running {
            GicPlan::Perform { base }
        } else {
            let ghost before = hv@;
            proof {
                let (vgicr, seen) = shadow_accessed(
                    hv@.vcpus[vcpu_id].arch.gic_state.vgicr,
                    *mmio,
                    reg,
                );
                crate::hypervisor::lemma_wf_vcpu(
                    hv@,
                    vcpu_id,
                    hv@.vcpus[vcpu_id].with_vgicr(vgicr),
                );
            }
            vgicr_shadow_access(&mut hv.vcpu_mut(vcpu_id).arch.gic_state.vgicr, mmio, reg);
            GicPlan::Done
        }
    } else if private_reg(reg) {
        proof {
            let (vgicr, seen) = private_accessed(
                hv@.vcpus[vcpu_id].arch.gic_state.vgicr,
                *mmio,
                reg,
                running,
            );
            crate::hypervisor::lemma_wf_vcpu(
                hv@,
                vcpu_id,
                hv@.vcpus[vcpu_id].with_vgicr(vgicr),
            );
        }
        private_access(&mut hv.vcpu_mut(vcpu_id).arch.gic_state.vgicr, mmio, reg, running);
        if running {
            GicPlan::Perform { base }
        } else {
            GicPlan::Done
        }
    } else {
        GicPlan::Done
    }
}

// ---------------------------------------------------------------------------
// The translation service
// ---------------------------------------------------------------------------

impl GicPlan {
    /// An access of zone `zone_id` to a register that each zone has for itself.  What is
    /// written to the base of a table goes on to the hardware at `forward`, if there is
    /// any.
    pub open spec fn its_reg(
        zone_id: usize,
        reg: ItsReg,
        mmio: MMIOAccess,
        forward: Option<usize>,
    ) -> GicPlan {
        if !mmio.is_write {
            GicPlan::ItsRead { zone_id, reg }
        } else {
            match forward {
                Some(base) => GicPlan::ItsSetTable {
                    zone_id,
                    reg,
                    value: mmio.value,
                    base,
                    table: mmio.value & GITS_BASER_ADDR_MASK,
                },
                None => GicPlan::ItsSet { zone_id, reg, value: mmio.value },
            }
        }
    }
}

impl HvView {
    /// What a guest's access to the translation service leads to.  The queue and the
    /// tables are the zone's own, and only zone 0 has its tables in the hardware too.
    /// The read pointer cannot be written.
    pub open spec fn its_accessed(self, cpu: usize, mmio: MMIOAccess) -> GicPlan {
        let zone_id = self.zone_of(cpu).id;
        let base = self.gic.gits_base;
        let forward = if zone_id == 0 {
            Some(base)
        } else {
            None
        };
        if mmio.address == GITS_CBASER {
            GicPlan::its_reg(zone_id, ItsReg::Cbaser, mmio, None)
        } else if mmio.address == GITS_BASER {
            GicPlan::its_reg(zone_id, ItsReg::DtBaser, mmio, forward)
        } else if mmio.address == GITS_COLLECTION_BASER {
            GicPlan::its_reg(zone_id, ItsReg::CtBaser, mmio, forward)
        } else if mmio.address == GITS_CWRITER {
            GicPlan::its_reg(zone_id, ItsReg::Cwriter, mmio, None)
        } else if mmio.address == GITS_CREADR {
            GicPlan::ItsRead { zone_id, reg: ItsReg::Creadr }
        } else {
            GicPlan::Perform { base }
        }
    }
}

/// Plans an access to a register that each zone has for itself.
fn plan_its_reg(zone_id: usize, reg: ItsReg, mmio: &MMIOAccess, forward: Option<usize>) -> (res:
    GicPlan)
    ensures
        res == GicPlan::its_reg(zone_id, reg, *mmio, forward),
{
    if !mmio.is_write {
        return GicPlan::ItsRead { zone_id, reg };
    }
    match forward {
        Some(base) => GicPlan::ItsSetTable {
            zone_id,
            reg,
            value: mmio.value,
            base,
            table: mmio.value & GITS_BASER_ADDR_MASK,
        },
        None => GicPlan::ItsSet { zone_id, reg, value: mmio.value },
    }
}

/// Handles a guest's access to the translation service.
pub fn vgicv3_its_handler(hv: &Hypervisor, cpu: usize, mmio: &MMIOAccess) -> (res: GicPlan)
    requires
        hv@.wf(),
        cpu < hv@.cpus.len(),
        hv@.has_zone(cpu),
    ensures
        res == hv@.its_accessed(cpu, *mmio),
{
    proof {
        crate::hypervisor::lemma_cpu_ok(hv@, cpu);
    }
    let base: usize = hv.gic().gits_base;
    let reg: usize = mmio.address;
    let zone_id: usize = hv.zone(hv.cpu(cpu).zone.unwrap()).id();
    let forward: Option<usize> = if zone_id == 0 {
        Some(base)
    } else {
        None
    };
    if reg == GITS_CBASER {
        plan_its_reg(zone_id, ItsReg::Cbaser, mmio, None)
    } else if reg == GITS_BASER {
        plan_its_reg(zone_id, ItsReg::DtBaser, mmio, forward)
    } else if reg == GITS_COLLECTION_BASER {
        plan_its_reg(zone_id, ItsReg::CtBaser, mmio, forward)
    } else if reg == GITS_CWRITER {
        plan_its_reg(zone_id, ItsReg::Cwriter, mmio, None)
    } else if reg == GITS_CREADR {
        GicPlan::ItsRead { zone_id, reg: ItsReg::Creadr }
    } else {
        GicPlan::Perform { base }
    }
}

// ---------------------------------------------------------------------------
// Laws
// ---------------------------------------------------------------------------

/// A guest cannot disable the hypervisor's own private interrupts: none of them is
/// among those that an access disables, in its vCPU's shadow or in the hardware.
pub proof fn lemma_private_irqs_spared(
    vgicr: VirtualGicrView,
    mmio: MMIOAccess,
    running: bool,
)
    requires
        mmio.is_write,
    ensures
        ({
            let reg = (GICR_SGI_BASE + GICR_ICENABLER) as usize;
            let (after, seen) = private_accessed(vgicr, mmio, reg, running);
            &&& seen.value & (HV_PRIVATE_IRQS as u64) == 0
            &&& after.isenabler & HV_PRIVATE_IRQS == vgicr.isenabler & HV_PRIVATE_IRQS
        }),
{
    let value = mmio.value;
    let on = vgicr.isenabler;
    assert((value & !0x600_0080u64) & 0x600_0080u64 == 0 && ((value & !0x600_0080u64)
        & !0x600_0080u64) & 0x600_0080u64 == 0 && (on & !((value & !0x600_0080u64) as u32))
        & 0x600_0080u32 == on & 0x600_0080u32) by (bit_vector);
}

/// Whatever a guest writes, its vCPU's shadow keeps the EL2 timer's interrupt in
/// group 1, and that is what goes to the hardware.
pub proof fn lemma_timer_stays_in_group(vgicr: VirtualGicrView, mmio: MMIOAccess)
    requires
        mmio.is_write,
    ensures
        ({
            let reg = (GICR_SGI_BASE + GICR_IGROUPR) as usize;
            let (after, seen) = private_accessed(vgicr, mmio, reg, true);
            &&& after.igroupr & 0x400_0000 != 0
            &&& seen.value == after.igroupr
            &&& seen.is_write
        }),
{
    let word = mmio.value as u32;
    assert((word | 0x400_0000) & 0x400_0000 != 0) by (bit_vector);
}

/// A write to a register with bits of several interrupts changes none that belongs
/// to another zone: of what the hardware holds after it, each bit outside the zone's
/// mask is as it was.
pub proof fn lemma_others_bits_kept(zone: ZoneInnerView, index: int, bits: u64, read: u64, value: u64)
    ensures
        ({
            let mask = access_mask(zone, index, bits);
            &&& ((read & !mask) | (value & mask)) & !mask == read & !mask
            &&& ((read & !mask) | (value & mask)) & mask == value & mask
        }),
{
    let mask = access_mask(zone, index, bits);
    assert(((read & !mask) | (value & mask)) & !mask == read & !mask && ((read & !mask) | (value
        & mask)) & mask == value & mask) by (bit_vector);
}

/// An access to a register with bits of several interrupts reaches those of the zone's
/// interrupts and no others, whatever the register holds: a read shows `held` in those
/// bits and zero elsewhere, a write that sets or clears hands on those bits alone, and
/// any other write leaves the rest of `held` as it is.
pub proof fn lemma_bitmask_access(
    zone: ZoneInnerView,
    index: int,
    bits: u64,
    mmio: MMIOAccess,
    is_poke: bool,
    base: usize,
    held: u64,
)
    requires
        bits == 1 || bits == 2 || bits == 8,
    ensures
        ({
            let mask = access_mask(zone, index, bits);
            let (seen, plan) = restricted(mmio, mask, is_poke, base);
            &&& seen == (MMIOAccess { value: seen.value, ..mmio })
            &&& !mmio.is_write ==> plan.writes(seen, held) is None && plan.finished(seen, held)
                == held & mask
            &&& mmio.is_write && is_poke ==> plan.writes(seen, held) == Some(mmio.value & mask)
            &&& mmio.is_write && !is_poke ==> plan.writes(seen, held) == Some(
                (held & !mask) | (mmio.value & mask),
            )
            &&& forall|bit: u64|
                bit < 32 ==> (#[trigger] (mask >> bit) & 1 == 1 <==> zone.owns_irq(
                    (index * (32int / bits as int) + bit as int / bits as int) as u32,
                ))
        }),
{
    let mask = access_mask(zone, index, bits);
    let n = (32int / bits as int) as nat;
    assert forall|bit: u64| bit < 32 implies (#[trigger] (mask >> bit) & 1 == 1
        <==> zone.owns_irq((index * (32int / bits as int) + bit as int / bits as int) as u32)) by {
        lemma_owned_bits(zone, index * (32int / bits as int), bits, n, bit);
    }
}

/// A guest's access to a register of an interrupt that its zone does not own does
/// nothing.
pub proof fn lemma_foreign_irq_untouched(hv: HvView, cpu: usize, mmio: MMIOAccess, irq: u32)
    requires
        !hv.zone_of(cpu).inner.owns_irq(irq),
    ensures
        hv.irq_reg_accessed(cpu, mmio, irq) == (hv, GicPlan::Done),
{
}

} // verus!

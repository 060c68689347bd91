//! What a guest sees of the interrupt controller, bit by bit.

use vstd::prelude::*;
use crate::device::irqchip::gicv3::vgic::GicPlan;
use crate::hypervisor::HvView;
use crate::memory::MMIOAccess;
use crate::zone::{ZoneInnerView, ZoneView};

verus! {

/// Bit `b` of a value is set.
pub open spec fn bit(value: u64, b: u64) -> bool {
    (value >> b) & 1 == 1
}

/// Bit `b` of a word is set.
pub open spec fn word_bit(word: u32, b: u32) -> bool {
    (word >> b) & 1 == 1
}

/// A zone has interrupt `irq`: its bit is set in the zone's map.
pub open spec fn has_irq(zone: ZoneInnerView, irq: int) -> bool {
    word_bit(zone.irq_bitmap[irq / 32], (irq % 32) as u32)
}

/// The zone of the guest on pCPU `cpu`.
pub open spec fn guest_zone(hv: HvView, cpu: usize) -> ZoneInnerView {
    hv.zones[hv.cpus[cpu as int].zone->0].inner
}

/// The device that a plan reads or writes, if any.
pub open spec fn device_of(plan: GicPlan) -> Option<usize> {
    match plan {
        GicPlan::Perform { base } => Some(base),
        GicPlan::Masked { base, mask } => Some(base),
        GicPlan::Modify { base, mask } => Some(base),
        GicPlan::Substitute { base, host } => Some(base),
        GicPlan::Typer { base, index, last } => Some(base),
        GicPlan::TyperHigh { base, index } => Some(base),
        _ => None,
    }
}

/// The access is for the same register as another, in the same way.
pub open spec fn same_register(a: MMIOAccess, b: MMIOAccess) -> bool {
    a.address == b.address && a.size == b.size && a.is_write == b.is_write
}

proof fn lemma_bit_of_map(word: u32, b: u32)
    by (bit_vector)
    requires
        b < 32,
    ensures
        word & (1u32 << b) != 0 <==> (word >> b) & 1 == 1,
{
}

proof fn lemma_bits_of(a: u64, b: u64, mask: u64, k: u64)
    by (bit_vector)
    requires
        k < 64,
    ensures
        ((a & mask) >> k) & 1 == 1 <==> (a >> k) & 1 == 1 && (mask >> k) & 1 == 1,
        (((a & !mask) | (b & mask)) >> k) & 1 == 1 <==> if (mask >> k) & 1 == 1 {
            (b >> k) & 1 == 1
        } else {
            (a >> k) & 1 == 1
        },
{
}

proof fn lemma_address_fields(reg: usize)
    by (bit_vector)
    ensures
        reg & 0x7f == reg % 0x80,
        reg & 0xff == reg % 0x100,
        reg & 0x3ff == reg % 0x400,
{
}

proof fn lemma_low_half(mask: u64, bits: u64, shift: u64, k: u64)
    by (bit_vector)
    requires
        mask <= 0xffff_ffff,
        bits == 1 || bits == 2 || bits == 8,
        shift + bits <= 32,
        32 <= k < 64,
    ensures
        mask | ((((1u64 << bits) - 1) as u64) << shift) <= 0xffff_ffff,
        (mask >> k) & 1 == 0,
{
}

proof fn lemma_mask_is_word(zone: ZoneInnerView, first: int, bits: u64, n: nat)
    requires
        bits == 1 || bits == 2 || bits == 8,
        n * bits <= 32,
    ensures
        crate::device::irqchip::gicv3::vgic::owned_bits(zone, first, bits, n) <= 0xffff_ffff,
    decreases n,
{
    if n > 0 {
        let k = (n - 1) as nat;
        assert(k * bits + bits == n * bits) by (nonlinear_arith)
            requires
                n == k + 1,
        ;
        lemma_mask_is_word(zone, first, bits, k);
        lemma_low_half(
            crate::device::irqchip::gicv3::vgic::owned_bits(zone, first, bits, k),
            bits,
            (k * bits) as u64,
            32,
        );
    }
}

/// The mask of register `index` of a bank: each bit is that of the interrupt it is for.
proof fn lemma_mask(zone: ZoneInnerView, index: int, bits: u64, b: u64)
    requires
        bits == 1 || bits == 2 || bits == 8,
        b < 64,
        0 <= index,
        (index + 1) * (32int / bits as int) <= 1024,
    ensures
        bit(crate::device::irqchip::gicv3::vgic::access_mask(zone, index, bits), b) <==> b < 32
            && has_irq(zone, index * (32int / bits as int) + b as int / bits as int),
{
    let per = 32int / bits as int;
    let n = per as nat;
    assert(per * bits == 32);
    lemma_mask_is_word(zone, index * per, bits, n);
    let mask = crate::device::irqchip::gicv3::vgic::access_mask(zone, index, bits);
    if b < 32 {
        crate::device::irqchip::gicv3::vgic::lemma_owned_bits(zone, index * per, bits, n, b);
        let irq = index * per + b as int / bits as int;
        assert(0 <= irq < 1024) by (nonlinear_arith)
            requires
                0 <= index,
                (index + 1) * per <= 1024,
                0 <= b as int / bits as int,
                (b as int / bits as int) < per,
                irq == index * per + b as int / bits as int,
        ;
        lemma_bit_of_map(zone.irq_bitmap[irq / 32], (irq % 32) as u32);
    } else {
        lemma_low_half(mask, 1, 0, b);
    }
}

/// The interrupt that bit `b` of a distributor register is for, where the register is at
/// `address` in a bank of `size` bytes and has `bits` bits for each interrupt.
pub open spec fn irq_of_bit(address: usize, size: int, bits: int, b: u64) -> int {
    (address as int % size) / 4 * (32int / bits) + b as int / bits
}

/// The six banks of distributor registers that set or clear something: enabled, pending
/// and active.  A guest's write leads to one write of the same register, with the guest's
/// bit for each interrupt that its zone has and zero for any other.  A read shows what
/// the register holds in the bits of the zone's interrupts, and zero elsewhere.
pub proof fn lemma_set_and_clear_registers(hv: HvView, cpu: usize, mmio: MMIOAccess, held: u64)
    requires
        0x100 <= mmio.address < 0x400,
    ensures
        ({
            let zone = guest_zone(hv, cpu);
            let (after, seen, plan) = hv.dist_accessed(cpu, mmio);
            &&& after == hv
            &&& same_register(seen, mmio)
            &&& device_of(plan) == Some(hv.gic.gicd_base)
            &&& mmio.is_write ==> {
                &&& plan is Perform
                &&& plan.writes(seen, held) is Some
                &&& forall|b: u64|
                    b < 64 ==> (#[trigger] bit(plan.writes(seen, held)->0, b) <==> b < 32 && bit(
                        mmio.value,
                        b,
                    ) && has_irq(zone, irq_of_bit(mmio.address, 0x80, 1, b)))
            }
            &&& !mmio.is_write ==> {
                &&& plan.writes(seen, held) is None
                &&& forall|b: u64|
                    b < 64 ==> (#[trigger] bit(plan.finished(seen, held), b) <==> b < 32 && bit(
                        held,
                        b,
                    ) && has_irq(zone, irq_of_bit(mmio.address, 0x80, 1, b)))
            }
        }),
{
    let zone = guest_zone(hv, cpu);
    let (after, seen, plan) = hv.dist_accessed(cpu, mmio);
    lemma_address_fields(mmio.address);
    let index = (mmio.address & 0x7f) as int / 4;
    let mask = crate::device::irqchip::gicv3::vgic::access_mask(zone, index, 1);
    assert(mmio.is_write ==> plan.writes(seen, held) == Some(mmio.value & mask));
    assert(!mmio.is_write ==> plan.finished(seen, held) == held & mask);
    assert forall|b: u64| b < 64 && mmio.is_write implies (#[trigger] bit(
        plan.writes(seen, held)->0,
        b,
    ) <==> b < 32 && bit(mmio.value, b) && has_irq(zone, irq_of_bit(mmio.address, 0x80, 1, b))) by {
        lemma_mask(zone, index, 1, b);
        lemma_bits_of(mmio.value, 0, mask, b);
    }
    assert forall|b: u64| b < 64 && !mmio.is_write implies (#[trigger] bit(
        plan.finished(seen, held),
        b,
    ) <==> b < 32 && bit(held, b) && has_irq(zone, irq_of_bit(mmio.address, 0x80, 1, b))) by {
        lemma_mask(zone, index, 1, b);
        lemma_bits_of(held, 0, mask, b);
    }
}

/// The bank of a distributor register that has a value for each interrupt: its size, and
/// the bits for each interrupt.  Groups, priorities and triggers have such banks.
pub open spec fn value_bank(address: usize) -> Option<(int, int)> {
    if 0x80 <= address < 0x100 {
        Some((0x80, 1))
    } else if 0x400 <= address < 0x7fc {
        Some((0x400, 8))
    } else if 0xc00 <= address < 0xd00 {
        Some((0x100, 2))
    } else {
        None
    }
}

/// The distributor registers that hold a value for each interrupt.  A guest's write
/// changes the register in one step: the bits of the zone's interrupts become the
/// guest's, and the others stay as they are.  A read shows the bits of the zone's
/// interrupts, and zero elsewhere.
pub proof fn lemma_value_registers(hv: HvView, cpu: usize, mmio: MMIOAccess, held: u64)
    requires
        value_bank(mmio.address) is Some,
    ensures
        ({
            let zone = guest_zone(hv, cpu);
            let (size, bits) = value_bank(mmio.address)->0;
            let (after, seen, plan) = hv.dist_accessed(cpu, mmio);
            &&& after == hv
            &&& seen == mmio
            &&& device_of(plan) == Some(hv.gic.gicd_base)
            &&& mmio.is_write ==> {
                &&& plan is Modify
                &&& plan.writes(seen, held) is Some
                &&& forall|b: u64|
                    b < 64 ==> (#[trigger] bit(plan.writes(seen, held)->0, b) <==> if b < 32
                        && has_irq(zone, irq_of_bit(mmio.address, size, bits, b)) {
                        bit(mmio.value, b)
                    } else {
                        bit(held, b)
                    })
            }
            &&& !mmio.is_write ==> {
                &&& plan.writes(seen, held) is None
                &&& forall|b: u64|
                    b < 64 ==> (#[trigger] bit(plan.finished(seen, held), b) <==> b < 32 && bit(
                        held,
                        b,
                    ) && has_irq(zone, irq_of_bit(mmio.address, size, bits, b)))
            }
        }),
{
    let zone = guest_zone(hv, cpu);
    let (size, bits) = value_bank(mmio.address)->0;
    let (after, seen, plan) = hv.dist_accessed(cpu, mmio);
    lemma_address_fields(mmio.address);
    let index = (mmio.address as int % size) / 4;
    let mask = crate::device::irqchip::gicv3::vgic::access_mask(zone, index, bits as u64);
    assert(device_of(plan) == Some(hv.gic.gicd_base));
    assert(mmio.is_write ==> plan.writes(seen, held) == Some(
        (held & !mask) | (mmio.value & mask),
    ));
    assert(!mmio.is_write ==> plan.finished(seen, held) == held & mask);
    assert forall|b: u64| b < 64 && mmio.is_write implies (#[trigger] bit(
        plan.writes(seen, held)->0,
        b,
    ) <==> if b < 32 && has_irq(zone, irq_of_bit(mmio.address, size, bits, b)) {
        bit(mmio.value, b)
    } else {
        bit(held, b)
    }) by {
        lemma_mask(zone, index, bits as u64, b);
        lemma_bits_of(held, mmio.value, mask, b);
    }
    assert forall|b: u64| b < 64 && !mmio.is_write implies (#[trigger] bit(
        plan.finished(seen, held),
        b,
    ) <==> b < 32 && bit(held, b) && has_irq(zone, irq_of_bit(mmio.address, size, bits, b))) by {
        lemma_mask(zone, index, bits as u64, b);
        lemma_bits_of(held, 0, mask, b);
    }
}

/// The interrupt that a register of one interrupt is for.
pub open spec fn irq_of_register(address: usize) -> int {
    if address >= 0x6000 {
        (address - 0x6000) / 8
    } else {
        address - 0x800
    }
}

/// The distributor registers that are for one interrupt each.  A guest cannot reach one of
/// an interrupt that its zone does not have, or that is not shared.  It reads what the
/// register holds.  Where it routes an interrupt to one of its vCPUs, the interrupt is for
/// that vCPU from then on, and the hardware sends it to the pCPU that the vCPU is bound
/// to; where it names no vCPU of the zone, the interrupt is for none, and the hardware
/// gets the guest's value.  No other interrupt is routed anew.
pub proof fn lemma_one_irq_registers(hv: HvView, cpu: usize, mmio: MMIOAccess, held: u64)
    requires
        hv.wf(),
        cpu < hv.cpus.len(),
        hv.has_zone(cpu),
        0x800 <= mmio.address < 0xc00 || 0x6000 <= mmio.address < 0x8000,
    ensures
        ({
            let id = hv.cpus[cpu as int].zone->0;
            let zone = guest_zone(hv, cpu);
            let irq = irq_of_register(mmio.address);
            let routes = mmio.is_write && mmio.address >= 0x6000;
            let (after, seen, plan) = hv.dist_accessed(cpu, mmio);
            let target = crate::laws::power::known_as(hv, cpu, mmio.value);
            &&& seen == mmio
            &&& if 32 <= irq < 1020 && has_irq(zone, irq) {
                &&& device_of(plan) == Some(hv.gic.gicd_base)
                &&& !mmio.is_write ==> plan.finished(seen, held) == held && after == hv
                    && plan.writes(seen, held) is None
                &&& mmio.is_write && !routes ==> plan.writes(seen, held) == Some(mmio.value)
                    && after == hv
                &&& routes ==> {
                    &&& after == (HvView {
                        zones: hv.zones.insert(
                            id,
                            ZoneView {
                                inner: ZoneInnerView {
                                    irq_targets: after.zones[id].inner.irq_targets,
                                    ..zone
                                },
                                ..hv.zones[id]
                            },
                        ),
                        ..hv
                    })
                    &&& forall|other: int|
                        0 <= other < 1024 && other != irq
                            ==> #[trigger] after.zones[id].inner.irq_targets[other]
                            == zone.irq_targets[other]
                    &&& if mmio.value & 0x8000_0000 == 0 && target is Some {
                        &&& after.zones[id].inner.irq_targets[irq] == target
                        &&& crate::laws::routing::irq_owner(after, cpu, irq as usize) == target
                        &&& plan.writes(seen, held) == Some(
                            hv.vcpus[target->0].affinity->0 as u64,
                        )
                    } else {
                        &&& after.zones[id].inner.irq_targets[irq] is None
                        &&& plan.writes(seen, held) == Some(mmio.value)
                    }
                }
            } else {
                plan == GicPlan::Done && after == hv
            }
        }),
{
    let id = hv.cpus[cpu as int].zone->0;
    let zone = guest_zone(hv, cpu);
    let irq = irq_of_register(mmio.address);
    crate::hypervisor::lemma_cpu_ok(hv, cpu);
    crate::hypervisor::lemma_zone_ok(hv, id);
    lemma_bit_of_map(zone.irq_bitmap[irq / 32], (irq % 32) as u32);
    assert(zone.owns_irq(irq as u32) <==> has_irq(zone, irq));
}

/// The distributor registers about the distributor as a whole can be read and not
/// written; everything else is out of a guest's reach.
pub proof fn lemma_other_dist_registers(hv: HvView, cpu: usize, mmio: MMIOAccess, held: u64)
    requires
        mmio.address < 0x80 || 0x7fc <= mmio.address < 0x800 || 0xd00 <= mmio.address < 0x6000
            || 0x8000 <= mmio.address,
    ensures
        ({
            let reg = mmio.address;
            let (after, seen, plan) = hv.dist_accessed(cpu, mmio);
            let shown = reg == 0 || reg == 4 || reg == 8 || reg == 0xc || 0xffd0 <= reg <= 0xffff;
            &&& after == hv
            &&& seen == mmio
            &&& plan.writes(seen, held) is None
            &&& if shown && !mmio.is_write {
                device_of(plan) == Some(hv.gic.gicd_base) && plan.finished(seen, held) == held
            } else {
                plan == GicPlan::Done
            }
        }),
{
}

/// The distributor registers that there are; an access to any other does nothing.
pub proof fn lemma_dist_registers(hv: HvView, cpu: usize, mmio: MMIOAccess)
    ensures
        ({
            let reg = mmio.address;
            let known = reg == 0 || reg == 4 || reg == 8 || reg == 0xc || 0x80 <= reg < 0x7fc
                || 0x800 <= reg < 0xd80 || 0x6000 <= reg < 0x8000 || 0xffd0 <= reg < 0x10000;
            &&& crate::device::irqchip::gicv3::vgic::is_dist_reg(reg) <==> known
            &&& !known ==> hv.dist_accessed(cpu, mmio) == (hv, mmio, GicPlan::Done)
        }),
{
}

} // verus!

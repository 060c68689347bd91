//! What a guest sees of the redistributors and of the translation service.

use vstd::prelude::*;
use crate::arch::aarch64::vcpu::VirtualGicrView;
use crate::device::irqchip::gicv3::vgic::{GicPlan, ItsReg};
use crate::hypervisor::HvView;
use crate::memory::MMIOAccess;

verus! {

proof fn lemma_word_bits(held: u32, value: u64, b: u32)
    by (bit_vector)
    requires
        b < 32,
    ensures
        ((value as u32) >> b) & 1 == 1 <==> (value >> (b as u64)) & 1 == 1,
        ((held as u64) >> (b as u64)) & 1 == 1 <==> (held >> b) & 1 == 1,
        ((held | (value as u32)) >> b) & 1 == 1 <==> (held >> b) & 1 == 1 || (value >> (b as u64))
            & 1 == 1,
        ((held & !(value as u32)) >> b) & 1 == 1 <==> (held >> b) & 1 == 1 && (value >> (
        b as u64)) & 1 != 1,
        (((value as u32) | 0x400_0000u32) >> b) & 1 == 1 <==> (value >> (b as u64)) & 1 == 1 || b
            == 26,
        ((value & !0x600_0080u64) >> (b as u64)) & 1 == 1 <==> (value >> (b as u64)) & 1 == 1 && b
            != 7 && b != 25 && b != 26,
        (((value & !0x600_0080u64) & !0x600_0080u64) >> (b as u64)) & 1 == 1 <==> (value >> (
        b as u64)) & 1 == 1 && b != 7 && b != 25 && b != 26,
{
}

/// An interrupt that the hypervisor keeps for itself.
pub open spec fn kept_by_hypervisor(irq: u32) -> bool {
    irq == 7 || irq == 25 || irq == 26
}

/// A vCPU has a register of its own at this address of its redistributor, which has a bit
/// or a field for each private interrupt.
pub open spec fn private_register(address: usize) -> bool {
    ||| address == 0x10080
    ||| address == 0x10100
    ||| address == 0x10180
    ||| address == 0x10200
    ||| address == 0x10280
    ||| address == 0x10300
    ||| address == 0x10380
    ||| 0x10400 <= address < 0x10420
    ||| 0x10c00 <= address < 0x10c08
}

/// What a vCPU's register holds, as a guest reads it.
pub open spec fn private_value(vgicr: VirtualGicrView, address: usize) -> u32 {
    if address == 0x10080 {
        vgicr.igroupr
    } else if address == 0x10100 || address == 0x10180 {
        vgicr.isenabler
    } else if address == 0x10200 || address == 0x10280 {
        vgicr.ispendr
    } else if address == 0x10300 || address == 0x10380 {
        vgicr.isactiver
    } else if address < 0x10420 {
        vgicr.ipriorityr[(address - 0x10400) / 4]
    } else {
        vgicr.icfgr[(address - 0x10c00) / 4]
    }
}

/// What a guest's write does to bit `b` of a private register.  A set or clear register
/// sets or clears the written bits and keeps the others; any other takes what is written.
/// The hypervisor's own interrupts are never disabled, and its timer's stays in its group.
/// What goes to the hardware, if the vCPU runs, is what the register then holds; a write
/// that disables goes there without the hypervisor's interrupts.
pub proof fn lemma_private_write(vgicr: VirtualGicrView, mmio: MMIOAccess, running: bool, b: u32)
    requires
        mmio.is_write,
        private_register(mmio.address),
        vgicr.ipriorityr.len() == 8,
        vgicr.icfgr.len() == 2,
        b < 32,
    ensures
        ({
            let reg = mmio.address;
            let (after, seen) = crate::device::irqchip::gicv3::vgic::private_accessed(
                vgicr,
                mmio,
                reg,
                running,
            );
            let was = crate::laws::emulation::word_bit(private_value(vgicr, reg), b);
            let now = crate::laws::emulation::word_bit(private_value(after, reg), b);
            let asked = crate::laws::emulation::bit(mmio.value, b as u64);
            let sent = crate::laws::emulation::bit(seen.value, b as u64);
            let sets = reg == 0x10100 || reg == 0x10200 || reg == 0x10300;
            let clears = reg == 0x10280 || reg == 0x10380;
            &&& after.initialized
            &&& crate::laws::emulation::same_register(seen, mmio)
            &&& sets ==> (now <==> was || asked)
            &&& clears ==> (now <==> was && !asked)
            &&& reg == 0x10180 ==> (now <==> was && !(asked && !kept_by_hypervisor(b)))
            &&& reg == 0x10080 ==> (now <==> asked || b == 26)
            &&& reg >= 0x10400 ==> (now <==> asked)
            &&& running && reg != 0x10180 ==> (sent <==> now)
            &&& reg == 0x10180 ==> (sent <==> asked && !kept_by_hypervisor(b))
        }),
{
    let reg = mmio.address;
    let (after, seen) = crate::device::irqchip::gicv3::vgic::private_accessed(
        vgicr,
        mmio,
        reg,
        running,
    );
    lemma_word_bits(private_value(vgicr, reg), mmio.value, b);
    lemma_word_bits(private_value(vgicr, reg), mmio.value & !0x600_0080u64, b);
    lemma_word_bits(private_value(after, reg), mmio.value, b);
}

/// A guest's write to a private register changes no other register.
pub proof fn lemma_private_write_is_local(
    vgicr: VirtualGicrView,
    mmio: MMIOAccess,
    running: bool,
    other: usize,
)
    requires
        mmio.is_write,
        private_register(mmio.address),
        private_register(other),
        vgicr.ipriorityr.len() == 8,
        vgicr.icfgr.len() == 2,
        mmio.address / 4 != other / 4,
        mmio.address < 0x10400 && other < 0x10400 && mmio.address != 0x10080 && other != 0x10080
            ==> mmio.address / 0x100 != other / 0x100,
    ensures
        private_value(
            crate::device::irqchip::gicv3::vgic::private_accessed(
                vgicr,
                mmio,
                mmio.address,
                running,
            ).0,
            other,
        ) == private_value(vgicr, other),
{
}

/// A guest's read of a private register changes nothing and, unless the vCPU runs and the
/// hardware is asked, returns what the register holds.
pub proof fn lemma_private_read(vgicr: VirtualGicrView, mmio: MMIOAccess, running: bool)
    requires
        !mmio.is_write,
        private_register(mmio.address),
    ensures
        ({
            let (after, seen) = crate::device::irqchip::gicv3::vgic::private_accessed(
                vgicr,
                mmio,
                mmio.address,
                running,
            );
            &&& after == vgicr
            &&& crate::laws::emulation::same_register(seen, mmio)
            &&& seen.value == private_value(vgicr, mmio.address)
        }),
{
}

/// A guest's access to a private register of vCPU `id` of its zone is one to what that vCPU
/// has, and goes to the hardware too if and only if the vCPU is the current one of this
/// pCPU.  Nothing else changes.  A redistributor of another zone is out of reach.
pub proof fn lemma_private_access(hv: HvView, cpu: usize, mmio: MMIOAccess, id: usize, held: u64)
    requires
        hv.wf(),
        cpu < hv.cpus.len(),
        hv.has_zone(cpu),
        private_register(mmio.address),
    ensures
        ({
            let zone = crate::laws::emulation::guest_zone(hv, cpu);
            let (after, seen, plan) = hv.redist_accessed(cpu, mmio, id);
            let home = hv.vcpus[id].affinity->0;
            let runs = hv.cpus[cpu as int].current_vcpu == Some(id) && home == cpu;
            let (vgicr, to_device) = crate::device::irqchip::gicv3::vgic::private_accessed(
                hv.vcpus[id].arch.gic_state.vgicr,
                mmio,
                mmio.address,
                runs,
            );
            &&& !zone.vcpus.contains(id) ==> after == hv && plan == GicPlan::Done && seen == mmio
            &&& zone.vcpus.contains(id) ==> {
                &&& after.vcpus[id].arch.gic_state.vgicr == vgicr
                &&& after.vcpus[id] == hv.vcpus[id].with_vgicr(vgicr)
                &&& forall|other: usize|
                    other != id ==> #[trigger] after.vcpus[other] == hv.vcpus[other]
                &&& after == (HvView { vcpus: after.vcpus, ..hv })
                &&& seen == to_device
                &&& runs ==> plan == (GicPlan::Perform { base: hv.gicr_bases[home as int] })
                &&& !runs ==> plan == GicPlan::Done && plan.finished(seen, held) == seen.value
            }
        }),
{
}

/// The registers of a redistributor that say whether it is awake and whether something
/// went wrong: they are the hardware's while the vCPU is the current one of this pCPU; at
/// other times a vCPU has nothing to report there, and what is written is only noted.
pub proof fn lemma_status_registers(hv: HvView, cpu: usize, mmio: MMIOAccess, id: usize)
    requires
        crate::laws::emulation::guest_zone(hv, cpu).vcpus.contains(id),
        mmio.address == 0x10 || mmio.address == 0x14,
    ensures
        ({
            let (after, seen, plan) = hv.redist_accessed(cpu, mmio, id);
            let home = hv.vcpus[id].affinity->0;
            let runs = hv.cpus[cpu as int].current_vcpu == Some(id) && home == cpu;
            let before = hv.vcpus[id].arch.gic_state.vgicr;
            let vgicr = after.vcpus[id].arch.gic_state.vgicr;
            &&& crate::laws::emulation::same_register(seen, mmio)
            &&& runs ==> plan == (GicPlan::Perform { base: hv.gicr_bases[home as int] })
            &&& !runs ==> plan == GicPlan::Done
            &&& !runs && !mmio.is_write ==> seen.value == 0
            &&& vgicr.isenabler == before.isenabler
            &&& vgicr.ipriorityr == before.ipriorityr
            &&& vgicr.igroupr == before.igroupr
            &&& forall|other: usize|
                other != id ==> #[trigger] after.vcpus[other] == hv.vcpus[other]
        }),
{
}

proof fn lemma_typer_fields(typer: u64, index: u64, wide: bool, last: bool)
    by (bit_vector)
    ensures
        ({
            let numbered = (typer & !0xff_ff00) | ((index & 0xffff) << 8);
            let placed = if wide {
                (numbered & !0xffff_ffff_0000_0000) | ((index & 0xffff_ffff) << 32)
            } else {
                numbered
            };
            let seen = if last {
                (placed & !0x10u64) | 0x10u64
            } else {
                placed & !0x10u64
            };
            &&& (seen >> 8) & 0xffff == index & 0xffff
            &&& wide ==> seen >> 32 == index & 0xffff_ffff
            &&& !wide ==> seen >> 32 == typer >> 32
            &&& ((seen >> 4) & 1 == 1) == last
            &&& seen & 0xff00_00ef == typer & 0xff00_00ef
            &&& index < 256 ==> index & 0xff == index && index & 0xffff == index && index
                & 0xffff_ffff == index
        }),
{
}

/// A guest finds its redistributors numbered as its vCPUs are: the type register of vCPU
/// number `k` has `k` as its number and as its affinity, and only that of the last one
/// is marked.  Everything else in it is what the hardware has.
pub proof fn lemma_type_register(
    hv: HvView,
    cpu: usize,
    mmio: MMIOAccess,
    k: u64,
    n: nat,
    held: u64,
)
    requires
        mmio.address == 8,
        !mmio.is_write,
        k < n <= 256,
        crate::laws::creation::numbered(crate::laws::emulation::guest_zone(hv, cpu), n),
        crate::laws::emulation::guest_zone(hv, cpu).vcpus.len() == n,
    ensures
        ({
            let zone = crate::laws::emulation::guest_zone(hv, cpu);
            let id = zone.mpidrs[k];
            let (after, seen, plan) = hv.redist_accessed(cpu, mmio, id);
            let shown = plan.finished(seen, held);
            &&& after == hv
            &&& crate::laws::emulation::device_of(plan) == Some(
                hv.gicr_bases[hv.vcpus[id].affinity->0 as int],
            )
            &&& (shown >> 8) & 0xffff == k
            &&& mmio.size >= 8 ==> shown >> 32 == k
            &&& mmio.size < 8 ==> shown >> 32 == held >> 32
            &&& ((shown >> 4) & 1 == 1) == (k == n - 1)
            &&& shown & 0xff00_00ef == held & 0xff00_00ef
            &&& ({
                let upper = MMIOAccess { address: 0xc, ..mmio };
                let (same, asked, half) = hv.redist_accessed(cpu, upper, id);
                same == hv && half.finished(asked, held) == k
            })
        }),
{
    let zone = crate::laws::emulation::guest_zone(hv, cpu);
    assert(zone.mpidrs.contains_key(k));
    let id = zone.mpidrs[k];
    lemma_typer_fields(held, k, mmio.size >= 8, k == n - 1);
}

proof fn lemma_without_two(held: u64, b: u64)
    by (bit_vector)
    requires
        b < 64,
    ensures
        ((held & !0x3u64) >> b) & 1 == 1 <==> b >= 2 && (held >> b) & 1 == 1,
{
}

/// The other registers of a redistributor that a guest reaches.
pub proof fn lemma_other_redist_registers(
    hv: HvView,
    cpu: usize,
    mmio: MMIOAccess,
    id: usize,
    held: u64,
)
    requires
        crate::laws::emulation::guest_zone(hv, cpu).vcpus.contains(id),
        !private_register(mmio.address),
        mmio.address != 8,
        mmio.address != 0xc,
        mmio.address != 0x10,
        mmio.address != 0x14,
    ensures
        ({
            let reg = mmio.address;
            let base = hv.gicr_bases[hv.vcpus[id].affinity->0 as int];
            let (after, seen, plan) = hv.redist_accessed(cpu, mmio, id);
            let passed = reg == 4 || 0xffd0 <= reg <= 0xfffc || reg == 0x78 || reg == 0x40 || reg
                == 0x48 || reg == 0xb0;
            &&& after == hv
            &&& crate::laws::emulation::same_register(seen, mmio)
            &&& passed ==> plan == (GicPlan::Perform { base }) && seen == mmio
            &&& reg == 0 && mmio.is_write ==> plan.writes(seen, held) == Some(mmio.value)
                && crate::laws::emulation::device_of(plan) == Some(base)
            &&& reg == 0 && !mmio.is_write ==> {
                &&& crate::laws::emulation::device_of(plan) == Some(base)
                &&& plan.writes(seen, held) is None
                &&& forall|b: u64|
                    b < 64 ==> (#[trigger] crate::laws::emulation::bit(
                        plan.finished(seen, held),
                        b,
                    ) <==> b >= 2 && crate::laws::emulation::bit(held, b))
            }
            &&& reg == 0x70 && mmio.is_write ==> plan == (GicPlan::SetPropBaser {
                value: mmio.value,
            })
            &&& reg == 0x70 && !mmio.is_write ==> plan == GicPlan::ReadPropBaser
            &&& reg == 0xc0 ==> plan == GicPlan::Done && seen.value == 0
            &&& reg == 0xa0 && (mmio.value & 0xffff_ffff) >= 8192 ==> plan is EnableLpi
                && plan->lpi + 8192 == mmio.value & 0xffff_ffff
            &&& !passed && reg != 0 && reg != 0x70 && reg != 0xc0 && reg != 0xa0 ==> plan
                == GicPlan::Done && seen == mmio
        }),
{
    let (after, seen, plan) = hv.redist_accessed(cpu, mmio, id);
    if mmio.address == 0 && !mmio.is_write {
        assert forall|b: u64| b < 64 implies (#[trigger] crate::laws::emulation::bit(
            plan.finished(seen, held),
            b,
        ) <==> b >= 2 && crate::laws::emulation::bit(held, b)) by {
            lemma_without_two(held, b);
        }
    }
}

// ---------------------------------------------------------------------------
// The translation service
// ---------------------------------------------------------------------------

/// The registers of the translation service that each zone has for itself.
pub open spec fn its_register(address: usize) -> bool {
    address == 0x80 || address == 0x88 || address == 0x90 || address == 0x100 || address == 0x108
}

/// The zone and the register that a plan sets, with the value.
pub open spec fn its_set(plan: GicPlan) -> Option<(usize, ItsReg, u64)> {
    match plan {
        GicPlan::ItsSet { zone_id, reg, value } => Some((zone_id, reg, value)),
        GicPlan::ItsSetTable { zone_id, reg, value, base, table } => Some((zone_id, reg, value)),
        _ => None,
    }
}

/// A zone's registers of the translation service are its own.  What a guest reads at an
/// address is the register that its writes there set, of its own zone; each address has
/// another register, and the read pointer cannot be set.  Only the root zone's tables
/// reach the hardware.  The other registers are the hardware's.
pub proof fn lemma_its_registers(hv: HvView, cpu: usize, read: MMIOAccess, write: MMIOAccess)
    requires
        !read.is_write,
        write.is_write,
    ensures
        ({
            let zone_id = hv.zones[hv.cpus[cpu as int].zone->0].id;
            let reads = hv.its_accessed(cpu, read);
            let writes = hv.its_accessed(cpu, write);
            let its_table = write.address == 0x100 || write.address == 0x108;
            &&& its_register(read.address) ==> reads is ItsRead && reads->ItsRead_zone_id == zone_id
            &&& its_register(write.address) && write.address != 0x90 ==> {
                let (of_zone, reg, value) = its_set(writes)->0;
                &&& its_set(writes) is Some
                &&& of_zone == zone_id
                &&& value == write.value
                &&& its_register(read.address) ==> (reads->ItsRead_reg == reg <==> read.address
                    == write.address)
            }
            &&& write.address == 0x90 ==> writes is ItsRead
            &&& writes is ItsSetTable <==> its_table && zone_id == 0
            &&& writes is ItsSetTable ==> writes->ItsSetTable_base == hv.gic.gits_base
                && writes->table == write.value & 0xfff_fff_fff_000
            &&& !its_register(read.address) ==> reads == (GicPlan::Perform {
                base: hv.gic.gits_base,
            })
            &&& !its_register(write.address) ==> writes == (GicPlan::Perform {
                base: hv.gic.gits_base,
            })
        }),
{
}

proof fn lemma_base_fields(value: u64, phys: u64)
    by (bit_vector)
    requires
        phys & !0xfff_fff_fff_000u64 == 0,
    ensures
        ((value & !0xfff_fff_fff_000u64) | phys) & 0xfff_fff_fff_000u64 == phys,
        ((value & !0xfff_fff_fff_000u64) | phys) & !0xfff_fff_fff_000u64 == value
            & !0xfff_fff_fff_000u64,
{
}

/// A base register goes on to the hardware with the physical address of the table in it
/// and the guest's other fields; as it is, where the guest has no memory there.
pub proof fn lemma_base_translated(value: u64, phys: u64)
    requires
        phys & !0xfff_fff_fff_000 == 0,
    ensures
        ({
            let sent = crate::device::irqchip::gicv3::vgic::baser_translated(value, Some(phys));
            &&& sent & 0xfff_fff_fff_000 == phys
            &&& sent & !0xfff_fff_fff_000 == value & !0xfff_fff_fff_000
            &&& crate::device::irqchip::gicv3::vgic::baser_translated(value, None) == value
        }),
{
    lemma_base_fields(value, phys);
}

} // verus!

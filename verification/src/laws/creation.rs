//! What a new zone is, and how its guest sees itself.

use vstd::prelude::*;
use crate::arch::aarch64::vcpu::TrapFrameView;
use crate::hypervisor::{HvView, Sys};
use crate::vcpu::{VCpuIdPoolView, VCpuState};
use crate::zone::{MemoryRegion, ZoneConfig, ZoneInnerView, ZoneSetup};

verus! {

/// The pool after it gave `n` identifiers out.
pub open spec fn pool_after(ids: VCpuIdPoolView, n: nat) -> VCpuIdPoolView
    decreases n,
{
    if n == 0 {
        ids
    } else {
        pool_after(ids, (n - 1) as nat).taken()
    }
}

/// The identifier that the pool gives out after `k` others.
pub open spec fn nth_id(ids: VCpuIdPoolView, k: nat) -> usize {
    pool_after(ids, k).head()
}

/// The next `n` identifiers that the pool gives out follow one another.
pub open spec fn consecutive(ids: VCpuIdPoolView, n: nat) -> bool {
    forall|k: nat| k < n ==> #[trigger] nth_id(ids, k) == nth_id(ids, 0) + k
}

/// Identifiers that were never used follow one another, and so do those of a zone that
/// was taken down, if they did so then and were given back first.
pub proof fn lemma_consecutive(ids: VCpuIdPoolView, n: nat)
    requires
        ids.next + n <= usize::MAX,
        ids.free.len() == 0 || (n <= ids.free.len() && forall|k: int|
            0 <= k < n ==> #[trigger] ids.free[k] == ids.free[0] + k),
    ensures
        consecutive(ids, n),
{
    assert forall|k: nat| k < n implies #[trigger] nth_id(ids, k) == nth_id(ids, 0) + k by {
        if ids.free.len() == 0 {
            lemma_pool_without_free(ids, k);
        } else {
            lemma_pool_with_free(ids, k);
            assert(ids.free[k as int] == ids.free[0] + k);
        }
    }
}

proof fn lemma_pool_with_free(ids: VCpuIdPoolView, n: nat)
    requires
        n < ids.free.len(),
    ensures
        pool_after(ids, n).free == ids.free.subrange(n as int, ids.free.len() as int),
    decreases n,
{
    if n > 0 {
        lemma_pool_with_free(ids, (n - 1) as nat);
    }
}

proof fn lemma_pool_without_free(ids: VCpuIdPoolView, n: nat)
    requires
        ids.free.len() == 0,
        ids.next + n <= usize::MAX,
    ensures
        pool_after(ids, n).free.len() == 0,
        pool_after(ids, n).next == ids.next + n,
    decreases n,
{
    if n > 0 {
        lemma_pool_without_free(ids, (n - 1) as nat);
    }
}

/// vCPU number `k` of a new zone, for pCPU `cpu`.
spec fn made_right(
    hv: HvView,
    zone: usize,
    k: nat,
    id: usize,
    cpu: usize,
    boot: TrapFrameView,
    stack_top: usize,
    vtr: u64,
) -> bool {
    let inner = hv.zones[zone].inner;
    let vcpu = hv.vcpus[id];
    &&& inner.vcpus.contains(id)
    &&& inner.mpidrs.contains_key(k as u64)
    &&& inner.mpidrs[k as u64] == id
    &&& hv.vcpus.contains_key(id)
    &&& hv.ids.in_use(id)
    &&& vcpu.id == id
    &&& vcpu.zone == zone
    &&& vcpu.affinity == Some(cpu)
    &&& vcpu.pending.len() == 0
    &&& vcpu.priority == 2
    &&& vcpu.arch.stack_top == stack_top
    &&& vcpu.arch.gic_state == crate::arch::aarch64::vcpu::ArchVCpuView::fresh(
        stack_top,
        vtr,
    ).gic_state
    &&& vcpu.arch.el1_regs.cntv_ctl_el0 == 0
    &&& vcpu.arch.el1_regs.ttbr0_el1 == 0
    &&& vcpu.arch.el1_regs.vbar_el1 == 0
    &&& vcpu.arch.el1_regs.sctlr_el1 == 0x30d0_0800
    &&& if k == 0 {
        &&& vcpu.state == VCpuState::Ready
        &&& vcpu.arch.frame == boot
        &&& hv.cpus[cpu as int].sched.queued(id)
        &&& inner.vcpu_base == id
    } else {
        vcpu.state == VCpuState::Stopped
    }
}

proof fn lemma_mpidr_fields(phys: u64, a: u64, b: u64)
    by (bit_vector)
    ensures
        a < 256 ==> a & 0xff_00ff_ffff == a,
        a < 256 ==> ((phys & !0xff) | (a & 0xff)) & 0xff == a,
        ((phys & !0xff) | (a & 0xff)) & !0xff == phys & !0xff,
        a < 256 && phys & 0xff_00ff_ff00 == 0 ==> ((phys & !0xff) | (a & 0xff)) & 0xff_00ff_ffff
            == a,
        a < 256 && b < 256 && a != b ==> (phys & !0xff) | (a & 0xff) != (phys & !0xff) | (b & 0xff),
{
}

proof fn lemma_made(
    hv: HvView,
    zone: usize,
    members: Seq<usize>,
    n: nat,
    stack_tops: Seq<usize>,
    boot: TrapFrameView,
    vtr: u64,
)
    requires
        hv.ids.wf(),
        hv.ids.next + n < usize::MAX,
        n <= members.len() <= 64,
        hv.zones.contains_key(zone),
        hv.zones[zone].inner.vcpus.len() == 0,
        forall|id: usize| #[trigger] hv.vcpus.contains_key(id) ==> hv.ids.in_use(id),
        forall|i: int| 0 <= i < members.len() ==> #[trigger] members[i] < hv.cpus.len(),
        forall|c: int| 0 <= c < hv.cpus.len() ==> (#[trigger] hv.cpus[c]).sched.wf(),
    ensures
        ({
            let after = hv.vcpus_created(zone, members, n, stack_tops, boot, vtr);
            &&& after.ids == pool_after(hv.ids, n)
            &&& forall|k: nat|
                #![trigger nth_id(hv.ids, k)]
                k < n ==> made_right(
                    after,
                    zone,
                    k,
                    nth_id(hv.ids, k),
                    members[k as int],
                    boot,
                    stack_tops[k as int],
                    vtr,
                )
        }),
    decreases n,
{
    if n > 0 {
        let m = (n - 1) as nat;
        let before = hv.vcpus_created(zone, members, m, stack_tops, boot, vtr);
        let after = hv.vcpus_created(zone, members, n, stack_tops, boot, vtr);
        lemma_made(hv, zone, members, m, stack_tops, boot, vtr);
        crate::laws::zones::lemma_created(hv, zone, members, m, stack_tops, boot, vtr);
        let id = before.ids.head();
        assert(id == nth_id(hv.ids, m));
        crate::vcpu::lemma_id_taken(before.ids);
        let list = before.zones[zone].inner.vcpus;
        assert(!list.contains(id)) by {
            if list.contains(id) {
                assert(before.ids.in_use(id));
            }
        }
        crate::hypervisor::lemma_ascending_with(list, id);
        assert(after.zones[zone].inner.vcpus == crate::hypervisor::ascending_with(list, id));
        assert(after.zones[zone].inner.vcpus.contains(id));
        let cpu = members[m as int];
        lemma_mpidr_fields(0, m as u64, 0);
        assert(crate::laws::zones::keeps(hv.cpus[cpu as int], before.cpus[cpu as int]));
        crate::laws::ready::lemma_enqueued(
            before.cpus[cpu as int].sched,
            id,
            after.vcpus[id].priority,
        );
        assert(after.ids.in_use(id));
        assert forall|k: nat|
            #![trigger nth_id(hv.ids, k)]
            k < n implies made_right(
            after,
            zone,
            k,
            nth_id(hv.ids, k),
            members[k as int],
            boot,
            stack_tops[k as int],
            vtr,
        ) by {
            let other = nth_id(hv.ids, k);
            if k < m {
                assert(made_right(
                    before,
                    zone,
                    k,
                    other,
                    members[k as int],
                    boot,
                    stack_tops[k as int],
                    vtr,
                ));
                assert(before.ids.in_use(other));
                assert(other != id);
                assert(after.zones[zone].inner.vcpus.contains(other));
                assert(after.ids.in_use(other));
                lemma_mpidr_fields(0, k as u64, 0);
            } else {
                assert(after.vcpus[id].id == id);
            }
        }
    }
}

/// What the pCPUs that a zone was given hold.
proof fn lemma_given_to(
    hv: HvView,
    zone: usize,
    members: Seq<usize>,
    n: nat,
    entry: u64,
    dtb_ipa: u64,
    is_aarch32: bool,
    k: int,
)
    requires
        0 <= k < n <= members.len(),
        forall|i: int| 0 <= i < members.len() ==> #[trigger] members[i] < hv.cpus.len(),
        forall|i: int, j: int|
            0 <= i < j < members.len() ==> #[trigger] members[i] < #[trigger] members[j],
    ensures
        ({
            let pc = hv.cpus_given(zone, members, n, entry, dtb_ipa, is_aarch32).cpus[members[k] as int];
            &&& pc.zone == Some(zone)
            &&& pc.cpu_on_entry == entry
            &&& pc.dtb_ipa == dtb_ipa
            &&& pc.is_aarch32 == is_aarch32
            &&& pc.boot_cpu == (k == 0 || hv.cpus[members[k] as int].boot_cpu)
        }),
    decreases n,
{
    crate::laws::zones::lemma_given(
        hv,
        zone,
        members,
        (n - 1) as nat,
        entry,
        dtb_ipa,
        is_aarch32,
    );
    if k < n - 1 {
        lemma_given_to(hv, zone, members, (n - 1) as nat, entry, dtb_ipa, is_aarch32, k);
        assert(members[k] < members[n - 1]);
    } else {
        lemma_not_given(hv, zone, members, (n - 1) as nat, entry, dtb_ipa, is_aarch32, k);
    }
}

/// A pCPU whose turn has not come keeps what it holds.
proof fn lemma_not_given(
    hv: HvView,
    zone: usize,
    members: Seq<usize>,
    n: nat,
    entry: u64,
    dtb_ipa: u64,
    is_aarch32: bool,
    k: int,
)
    requires
        n <= k < members.len(),
        forall|i: int| 0 <= i < members.len() ==> #[trigger] members[i] < hv.cpus.len(),
        forall|i: int, j: int|
            0 <= i < j < members.len() ==> #[trigger] members[i] < #[trigger] members[j],
    ensures
        hv.cpus_given(zone, members, n, entry, dtb_ipa, is_aarch32).cpus[members[k] as int]
            == hv.cpus[members[k] as int],
    decreases n,
{
    if n > 0 {
        lemma_not_given(hv, zone, members, (n - 1) as nat, entry, dtb_ipa, is_aarch32, k);
        crate::laws::zones::lemma_given(
            hv,
            zone,
            members,
            (n - 1) as nat,
            entry,
            dtb_ipa,
            is_aarch32,
        );
        assert(members[n - 1] < members[k]);
    }
}

/// Making vCPUs changes nothing about a pCPU but the first one's run queues.
proof fn lemma_created_keeps_cpu(
    hv: HvView,
    zone: usize,
    members: Seq<usize>,
    n: nat,
    stack_tops: Seq<usize>,
    boot: TrapFrameView,
    vtr: u64,
    c: int,
)
    requires
        n <= members.len(),
        forall|i: int| 0 <= i < members.len() ==> #[trigger] members[i] < hv.cpus.len(),
        0 <= c < hv.cpus.len(),
    ensures
        ({
            let after = hv.vcpus_created(zone, members, n, stack_tops, boot, vtr);
            &&& after.cpus.len() == hv.cpus.len()
            &&& after.cpus[c] == hv.cpus[c].with_sched(after.cpus[c].sched)
            &&& n == 0 || c != members[0] ==> after.cpus[c] == hv.cpus[c]
        }),
    decreases n,
{
    if n > 0 {
        lemma_created_keeps_cpu(hv, zone, members, (n - 1) as nat, stack_tops, boot, vtr, c);
    }
}

/// vCPU number `k` of a new zone is for the `k`th of the zone's pCPUs, in ascending
/// order, and the guest knows it by the affinity `k`.  The first starts the guest: it is
/// ready and queued, with the program counter at the entry point and the device tree's
/// address in the first register; the others are stopped.  Each pCPU belongs to the zone
/// and knows its entry point.
pub proof fn lemma_zone_made(hv: HvView, config: ZoneConfig, setup: ZoneSetup, vtr: u64, k: nat)
    requires
        hv.wf(),
        hv.has_room(config, setup),
        k < crate::zone::cpu_set_of(config.cpus@).members().len(),
    ensures
        ({
            let zone = config.zone_id as usize;
            let after = hv.zone_created(config, setup, vtr);
            let inner = after.zones[zone].inner;
            let id = nth_id(hv.ids, k);
            let cpu = crate::zone::cpu_set_of(config.cpus@).members()[k as int];
            let vcpu = after.vcpus[id];
            let pc = after.cpus[cpu as int];
            let dtb_ipa = crate::zone::dtb_ipa_of(config.memory_regions@, config.dtb_load_paddr);
            &&& config.cpus@.contains(cpu)
            &&& inner.cpu_set.has(cpu)
            &&& inner.vcpus.contains(id)
            &&& inner.mpidrs.contains_key(k as u64) && inner.mpidrs[k as u64] == id
            &&& after.vcpus.contains_key(id) && vcpu.id == id && vcpu.zone == zone
            &&& vcpu.affinity == Some(cpu)
            &&& vcpu.pending.len() == 0
            &&& vcpu.priority == 2
            &&& vcpu.arch.stack_top == setup.stack_tops@[k as int]
            &&& vcpu.arch.gic_state.lr_count == (vtr & 0x1f) + 1
            &&& vcpu.arch.gic_state.ich_hcr == 1
            &&& !vcpu.arch.gic_state.vgicr.initialized
            &&& vcpu.arch.el1_regs.cntv_ctl_el0 == 0
            &&& vcpu.arch.el1_regs.ttbr0_el1 == 0
            &&& vcpu.arch.el1_regs.vbar_el1 == 0
            &&& vcpu.arch.el1_regs.sctlr_el1 == 0x30d0_0800
            &&& k == 0 ==> {
                &&& vcpu.state == VCpuState::Ready
                &&& pc.sched.queued(id)
                &&& pc.boot_cpu
                &&& inner.vcpu_base == id
                &&& vcpu.arch.frame.elr == config.entry_point
                &&& vcpu.arch.frame.x[0] == dtb_ipa
                &&& vcpu.arch.frame.spsr == 0x3c5
            }
            &&& k > 0 ==> vcpu.state == VCpuState::Stopped
            &&& k > 0 ==> pc.sched == hv.cpus[cpu as int].sched
            &&& k > 0 ==> pc.boot_cpu == hv.cpus[cpu as int].boot_cpu
            &&& pc.zone == Some(zone)
            &&& pc.cpu_on_entry == config.entry_point
            &&& pc.dtb_ipa == dtb_ipa
            &&& pc.is_aarch32 == config.is_aarch32
        }),
{
    let zone = config.zone_id as usize;
    let set = crate::zone::cpu_set_of(config.cpus@);
    let members = set.members();
    let dtb_ipa = crate::zone::dtb_ipa_of(config.memory_regions@, config.dtb_load_paddr);
    let boot = TrapFrameView::boot(config.entry_point, dtb_ipa);
    let bare = hv.with_zone(zone, HvView::bare_zone(config, setup));
    let start = crate::laws::zones::prepared(hv, config, setup);
    let id = nth_id(hv.ids, k);
    crate::hypervisor::lemma_wf_sizes(hv);
    crate::laws::zones::lemma_members_exist(hv, config, setup);
    crate::laws::zones::lemma_zone_created(hv, config, setup, vtr);
    crate::laws::context::lemma_lr_count(vtr);
    set.lemma_members_count(64);
    set.lemma_members_below(64);
    assert forall|i: int| 0 <= i < config.cpus@.len() implies #[trigger] config.cpus@[i]
        < crate::cpu_data::CPU_SET_BITS by {
        assert(config.cpus@[i] < hv.cpus.len());
    }
    crate::zone::lemma_cpu_set_of(config.cpus@);
    assert(members.contains(members[k as int]));
    assert forall|id: usize| #[trigger] start.vcpus.contains_key(id) implies start.ids.in_use(
        id,
    ) by {
        crate::hypervisor::lemma_vcpu_ok(hv, id);
    }
    assert forall|c: int| 0 <= c < start.cpus.len() implies (#[trigger] start.cpus[c]).sched.wf() by {
        crate::hypervisor::lemma_cpu_ok(hv, c as usize);
    }
    lemma_made(start, zone, members, members.len(), setup.stack_tops@, boot, vtr);
    assert(id == nth_id(start.ids, k));
    let made = start.vcpus_created(zone, members, members.len(), setup.stack_tops@, boot, vtr);
    assert(made_right(
        made,
        zone,
        k,
        id,
        members[k as int],
        boot,
        setup.stack_tops@[k as int],
        vtr,
    ));
    crate::device::irqchip::gicv3::vgic::lemma_vgic_keeps(made.zones[zone].inner, config.gic);
    lemma_given_to(
        bare,
        zone,
        members,
        members.len(),
        config.entry_point,
        dtb_ipa,
        config.is_aarch32,
        k as int,
    );
    lemma_created_keeps_cpu(
        start,
        zone,
        members,
        members.len(),
        setup.stack_tops@,
        boot,
        vtr,
        members[k as int] as int,
    );
    if k > 0 {
        assert(members[0] < members[k as int]);
    }
}

/// A new zone owns the interrupts that its configuration lists and no others, uses the
/// tables that were set up for it, and has the listed pCPUs.
pub proof fn lemma_zone_owns(
    hv: HvView,
    config: ZoneConfig,
    setup: ZoneSetup,
    vtr: u64,
    irq: u32,
    cpu: usize,
)
    requires
        hv.wf(),
        hv.has_room(config, setup),
        irq < 1024,
    ensures
        ({
            let zone = hv.zone_created(config, setup, vtr).zones[config.zone_id as usize];
            let word = irq as int / 32;
            &&& zone.inner.owns_irq(irq) <==> word < config.interrupts@.len()
                && config.interrupts@[word] & (1u32 << (irq % 32)) != 0
            &&& zone.inner.irq_targets.len() == 1024
            &&& zone.inner.irq_targets[irq as int] is None
            &&& setup.tables is Ok ==> zone.inner.gpm == setup.tables->Ok_0
            &&& setup.iommu is Ok ==> zone.inner.iommu_pt == setup.iommu->Ok_0
            &&& zone.inner.cpu_set.has(cpu) <==> config.cpus@.contains(cpu)
            &&& zone.inner.cpu_num == config.cpus.len()
            &&& zone.id == config.zone_id
            &&& zone.name == config.name@
            &&& !zone.is_err
        }),
{
    let zone = config.zone_id as usize;
    let set = crate::zone::cpu_set_of(config.cpus@);
    let members = set.members();
    let dtb_ipa = crate::zone::dtb_ipa_of(config.memory_regions@, config.dtb_load_paddr);
    let boot = TrapFrameView::boot(config.entry_point, dtb_ipa);
    let start = crate::laws::zones::prepared(hv, config, setup);
    crate::hypervisor::lemma_wf_sizes(hv);
    crate::laws::zones::lemma_members_exist(hv, config, setup);
    crate::laws::zones::lemma_zone_created(hv, config, setup, vtr);
    assert forall|i: int| 0 <= i < config.cpus@.len() implies #[trigger] config.cpus@[i]
        < crate::cpu_data::CPU_SET_BITS by {
        assert(config.cpus@[i] < hv.cpus.len());
    }
    crate::zone::lemma_cpu_set_of(config.cpus@);
    lemma_created_keeps_zone(
        start,
        zone,
        members,
        members.len(),
        setup.stack_tops@,
        boot,
        vtr,
    );
    let made = start.vcpus_created(zone, members, members.len(), setup.stack_tops@, boot, vtr);
    crate::device::irqchip::gicv3::vgic::lemma_vgic_keeps(made.zones[zone].inner, config.gic);
    let bit = irq % 32;
    let word = config.interrupts@[irq as int / 32];
    assert((0u32 | word) == word && 0u32 & (1u32 << bit) == 0) by (bit_vector);
}

/// Making vCPUs changes nothing about a zone but its vCPUs.
proof fn lemma_created_keeps_zone(
    hv: HvView,
    zone: usize,
    members: Seq<usize>,
    n: nat,
    stack_tops: Seq<usize>,
    boot: TrapFrameView,
    vtr: u64,
)
    ensures
        ({
            let before = hv.zones[zone];
            let after = hv.vcpus_created(zone, members, n, stack_tops, boot, vtr).zones[zone];
            after == (crate::zone::ZoneView {
                inner: ZoneInnerView {
                    vcpus: after.inner.vcpus,
                    mpidrs: after.inner.mpidrs,
                    vcpu_base: after.inner.vcpu_base,
                    ..before.inner
                },
                ..before
            })
        }),
    decreases n,
{
    if n > 0 {
        lemma_created_keeps_zone(hv, zone, members, (n - 1) as nat, stack_tops, boot, vtr);
    }
}

/// The address at which a guest finds its device tree is as far into one of its memory
/// regions as the device tree is in physical memory; it is invalid if no region holds
/// the device tree.
pub proof fn lemma_dtb_ipa(regions: Seq<MemoryRegion>, dtb: u64)
    requires
        forall|i: int|
            0 <= i < regions.len() ==> (#[trigger] regions[i]).physical_start + regions[i].size
                <= u64::MAX && regions[i].virtual_start + dtb <= u64::MAX,
    ensures
        ({
            let ipa = crate::zone::dtb_ipa_of(regions, dtb);
            if exists|i: int|
                0 <= i < regions.len() && (#[trigger] regions[i]).physical_start <= dtb
                    < regions[i].physical_start + regions[i].size {
                exists|i: int|
                    0 <= i < regions.len() && (#[trigger] regions[i]).physical_start <= dtb
                        < regions[i].physical_start + regions[i].size && ipa
                        - regions[i].virtual_start == dtb - regions[i].physical_start && forall|
                        j: int,
                    |
                        i < j < regions.len() ==> !((#[trigger] regions[j]).physical_start <= dtb
                            < regions[j].physical_start + regions[j].size)
            } else {
                ipa == u64::MAX
            }
        }),
    decreases regions.len(),
{
    if regions.len() > 0 {
        let rest = regions.drop_last();
        let last = regions.len() - 1;
        assert forall|i: int| 0 <= i < rest.len() implies rest[i] == #[trigger] regions[i] by {}
        lemma_dtb_ipa(rest, dtb);
        let ipa = crate::zone::dtb_ipa_of(regions, dtb);
        if regions[last].physical_start <= dtb < regions[last].physical_start
            + regions[last].size {
            assert(ipa - regions[last].virtual_start == dtb - regions[last].physical_start);
        } else if exists|i: int|
            0 <= i < rest.len() && (#[trigger] rest[i]).physical_start <= dtb
                < rest[i].physical_start + rest[i].size {
            let i = choose|i: int|
                0 <= i < rest.len() && (#[trigger] rest[i]).physical_start <= dtb
                    < rest[i].physical_start + rest[i].size && ipa - rest[i].virtual_start == dtb
                    - rest[i].physical_start && forall|j: int|
                    i < j < rest.len() ==> !((#[trigger] rest[j]).physical_start <= dtb
                        < rest[j].physical_start + rest[j].size);
            assert forall|j: int| i < j < regions.len() implies !((
            #[trigger] regions[j]).physical_start <= dtb < regions[j].physical_start
                + regions[j].size) by {
                if j < last {
                    assert(rest[j] == regions[j]);
                }
            }
            assert(regions[i] == rest[i]);
        } else {
            assert forall|i: int| 0 <= i < regions.len() implies !((
            #[trigger] regions[i]).physical_start <= dtb < regions[i].physical_start
                + regions[i].size) by {
                if i < last {
                    assert(rest[i] == regions[i]);
                }
            }
        }
    }
}

// ---------------------------------------------------------------------------
// How a guest sees its CPUs
// ---------------------------------------------------------------------------

/// The vCPUs of a zone have the identifiers from `vcpu_base` on, and the guest knows them
/// by the affinities from zero on.
pub open spec fn numbered(zone: ZoneInnerView, n: nat) -> bool {
    forall|k: u64|
        k < n ==> {
            &&& #[trigger] zone.mpidrs.contains_key(k)
            &&& zone.mpidrs[k] == zone.vcpu_base + k
            &&& zone.vcpus.contains(zone.mpidrs[k])
        }
}

/// The vCPUs of a new zone are numbered in order, if their identifiers follow one another.
pub proof fn lemma_new_zone_is_numbered(
    hv: HvView,
    config: ZoneConfig,
    setup: ZoneSetup,
    vtr: u64,
)
    requires
        hv.wf(),
        hv.has_room(config, setup),
        consecutive(hv.ids, crate::zone::cpu_set_of(config.cpus@).members().len()),
    ensures
        numbered(
            hv.zone_created(config, setup, vtr).zones[config.zone_id as usize].inner,
            crate::zone::cpu_set_of(config.cpus@).members().len(),
        ),
{
    let n = crate::zone::cpu_set_of(config.cpus@).members().len();
    let zone = hv.zone_created(config, setup, vtr).zones[config.zone_id as usize].inner;
    assert forall|k: u64| k < n implies {
        &&& #[trigger] zone.mpidrs.contains_key(k)
        &&& zone.mpidrs[k] == zone.vcpu_base + k
        &&& zone.vcpus.contains(zone.mpidrs[k])
    } by {
        lemma_zone_made(hv, config, setup, vtr, k as nat);
        lemma_zone_made(hv, config, setup, vtr, 0);
        assert(nth_id(hv.ids, k as nat) == nth_id(hv.ids, 0) + k);
    }
}

/// A vCPU that was switched in sees the affinity by which its zone knows it: number `k`
/// of its zone sees `k` in the lowest field, whatever its identifier is, and the other
/// fields are the pCPU's.  Where those are zero, what the guest reads is what leads to
/// this vCPU in a lookup by affinity.
pub proof fn lemma_vcpu_sees_its_mpidr(
    sys: Sys,
    id: usize,
    k: u64,
    n: nat,
    prev_zone: Option<usize>,
)
    requires
        sys.hv.wf(),
        sys.hv.vcpus.contains_key(id),
        k < n <= 256,
        numbered(sys.hv.zones[sys.hv.vcpus[id].zone].inner, n),
        sys.hv.zones[sys.hv.vcpus[id].zone].inner.mpidrs[k] == id,
    ensures
        ({
            let zone = sys.hv.zones[sys.hv.vcpus[id].zone].inner;
            let phys = sys.hw.el2.mpidr_el1;
            let seen = sys.switched_in(id, prev_zone).hw.el2.vmpidr_el2;
            &&& seen & 0xff == k
            &&& seen & !0xff == phys & !0xff
            &&& phys & 0xff_00ff_ff00 == 0 ==> {
                &&& zone.mpidrs.contains_key(seen & 0xff_00ff_ffff)
                &&& zone.mpidrs[seen & 0xff_00ff_ffff] == id
                &&& zone.vcpu_at(crate::zone::GuestMpidr::of(seen)) == Some(id)
            }
        }),
{
    crate::hypervisor::lemma_vcpu_ok(sys.hv, id);
    let zone = sys.hv.zones[sys.hv.vcpus[id].zone].inner;
    assert(zone.mpidrs.contains_key(k));
    lemma_mpidr_fields(sys.hw.el2.mpidr_el1, k, 0);
}

/// Whichever vCPU is switched in, the affinity that it sees differs from its pCPU's in the
/// lowest field alone; and two vCPUs of a zone that are switched in on the same pCPU, with
/// identifiers from the zone's first on, see different ones.
pub proof fn lemma_mpidrs_distinct(sys: Sys, a: usize, b: usize, prev_zone: Option<usize>)
    requires
        sys.hv.wf(),
        sys.hv.vcpus.contains_key(a),
        sys.hv.vcpus.contains_key(b),
        sys.hv.vcpus[a].zone == sys.hv.vcpus[b].zone,
        a != b,
    ensures
        ({
            let base = sys.hv.zones[sys.hv.vcpus[a].zone].inner.vcpu_base;
            let phys = sys.hw.el2.mpidr_el1;
            let seen = sys.switched_in(a, prev_zone).hw.el2.vmpidr_el2;
            let other = sys.switched_in(b, prev_zone).hw.el2.vmpidr_el2;
            &&& seen & !0xff == phys & !0xff
            &&& base <= a < base + 256 && base <= b < base + 256 ==> seen != other
        }),
{
    crate::hypervisor::lemma_vcpu_ok(sys.hv, a);
    crate::hypervisor::lemma_vcpu_ok(sys.hv, b);
    let base = sys.hv.zones[sys.hv.vcpus[a].zone].inner.vcpu_base;
    let phys = sys.hw.el2.mpidr_el1;
    if a >= base {
        lemma_mpidr_fields(phys, (a - base) as u64, 0);
    } else {
        lemma_mpidr_fields(phys, 0, 0);
    }
    if base <= a < base + 256 && base <= b < base + 256 {
        lemma_mpidr_fields(phys, (a - base) as u64, (b - base) as u64);
    }
}

} // verus!

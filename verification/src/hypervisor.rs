//! Everything that the pCPUs share: what is kept for each of them, all vCPUs and
//! zones, and the events under way.
//!
//! The caller gives one pCPU at a time the whole of it.

use vstd::prelude::*;
use crate::arch::aarch64::vcpu::{ArchVCpuView, TrapFrame, TrapFrameView};
use crate::cpu_data::{PerCpu, PerCpuView, CPU_SET_BITS};
use crate::device::irqchip::gicv3::gicd::GICD_FRAME_SIZE;
use crate::device::irqchip::gicv3::gicr::PER_GICR_SIZE;
use crate::device::irqchip::gicv3::Gic;
use crate::event::PercpuEvents;
use crate::hardware::{Hardware, HardwareView, Op};
use crate::keyed::KeyedList;
use crate::scheduler::{SchedView, WakeView};
use crate::vcpu::{VCpu, VCpuIdPool, VCpuIdPoolView, VCpuState, VCpuTable, VCpuView, CNTV_IRQ};
use crate::zone::{GuestMpidr, Zone, ZoneInnerView, ZoneView, CONFIG_NAME_MAXLEN};

verus! {

/// What the board that the hypervisor runs on fixes.
#[derive(Debug, Clone, Copy, PartialEq, Eq, Structural)]
pub struct Board {
    /// The interrupt that tells the root zone of new virtio requests.
    pub irq_wakeup_virtio_device: usize,
    /// The room in the list of virtio interrupts of a pCPU.
    pub max_devs: usize,
    /// How often a pCPU is asked whether it has shut down.
    pub max_wait_times: usize,
    /// The size of a zone's configuration.
    pub config_size: u64,
    /// The size of a zone's configuration without its last field.
    pub legacy_config_size: u64,
}

/// The requests to emulated devices that are under way.
pub struct Virtio {
    /// The page that the root zone and the hypervisor share.
    pub base_addr: Option<usize>,
    /// The interrupts to be injected on each pCPU.
    pub irqs: Vec<Vec<u32>>,
}

/// The value of a [`Virtio`].
#[verifier::ext_equal]
pub struct VirtioView {
    pub base_addr: Option<usize>,
    pub irqs: Seq<Seq<u32>>,
}

impl View for Virtio {
    type V = VirtioView;

    open spec fn view(&self) -> VirtioView {
        VirtioView {
            base_addr: self.base_addr,
            irqs: Seq::new(self.irqs@.len(), |cpu: int| self.irqs@[cpu]@),
        }
    }
}

/// Everything that the pCPUs share.
pub struct Hypervisor {
    pub cpus: Vec<PerCpu>,
    pub vcpus: VCpuTable,
    pub ids: VCpuIdPool,
    /// All zones, by their identifiers.
    pub zones: KeyedList<Zone>,
    /// The zones that have been registered, in that order; the first is the root
    /// zone.
    pub zone_list: Vec<usize>,
    pub events: PercpuEvents,
    /// The length of a scheduling tick, in counts.
    pub tick_tval: u64,
    pub gic: Gic,
    /// Where the redistributor of each pCPU is.
    pub gicr_bases: Vec<usize>,
    pub virtio: Virtio,
    pub board: Board,
}

/// The value of a [`Hypervisor`].
#[verifier::ext_equal]
pub struct HvView {
    pub cpus: Seq<PerCpuView>,
    pub vcpus: Map<usize, VCpuView>,
    pub ids: VCpuIdPoolView,
    pub zones: Map<usize, ZoneView>,
    pub zone_list: Seq<usize>,
    pub events: Seq<Seq<usize>>,
    pub tick: u64,
    pub gic: Gic,
    pub gicr_bases: Seq<usize>,
    pub virtio: VirtioView,
    pub board: Board,
}

impl View for Hypervisor {
    type V = HvView;

    closed spec fn view(&self) -> HvView {
        HvView {
            cpus: Seq::new(self.cpus@.len(), |cpu: int| self.cpus@[cpu]@),
            vcpus: self.vcpus@,
            ids: self.ids@,
            zones: self.zones@.map_values(|zone: Zone| zone@),
            zone_list: self.zone_list@,
            events: self.events@,
            tick: self.tick_tval,
            gic: self.gic,
            gicr_bases: self.gicr_bases@,
            virtio: self.virtio@,
            board: self.board,
        }
    }
}

/// The shared state together with the registers of one pCPU.
#[verifier::ext_equal]
pub struct Sys {
    pub hv: HvView,
    pub hw: HardwareView,
}

// ---------------------------------------------------------------------------
// Well-formedness
// ---------------------------------------------------------------------------

/// vCPU `id` exists and is bound to pCPU `cpu`.
pub open spec fn bound(vcpus: Map<usize, VCpuView>, id: usize, cpu: usize) -> bool {
    vcpus.contains_key(id) && vcpus[id].affinity == Some(cpu)
}

/// Every vCPU that a scheduler knows exists and is bound to pCPU `cpu`.
pub open spec fn sched_bound(sched: SchedView, vcpus: Map<usize, VCpuView>, cpu: usize) -> bool {
    &&& sched.wf()
    &&& forall|p: int, i: int|
        0 <= p < 4 && 0 <= i < sched.run_queue[p].len() ==> bound(
            vcpus,
            #[trigger] sched.run_queue[p][i],
            cpu,
        )
    &&& forall|i: int|
        0 <= i < sched.blocked.len() ==> bound(vcpus, (#[trigger] sched.blocked[i]).vcpu, cpu)
    &&& sched.current matches Some(id) ==> bound(vcpus, id, cpu)
}

/// The same vCPUs, each in its zone and on its pCPU as before, and none damaged.
pub open spec fn vcpus_kept(before: Map<usize, VCpuView>, after: Map<usize, VCpuView>) -> bool {
    &&& before.dom() == after.dom()
    &&& forall|id: usize| #[trigger]
        before.contains_key(id) ==> {
            &&& after[id].id == before[id].id
            &&& after[id].zone == before[id].zone
            &&& after[id].affinity == before[id].affinity
            &&& before[id].wf() ==> after[id].wf()
        }
}

impl HvView {
    /// What is kept for pCPU `cpu` is in order.
    pub open spec fn cpu_ok(self, cpu: usize, pc: PerCpuView) -> bool {
        &&& pc.id == cpu
        &&& sched_bound(pc.sched, self.vcpus, cpu)
        &&& pc.current_vcpu matches Some(id) ==> bound(self.vcpus, id, cpu)
        &&& forall|i: int|
            0 <= i < pc.incoming.len() ==> bound(self.vcpus, #[trigger] pc.incoming[i], cpu)
        &&& pc.zone matches Some(zone) ==> self.zones.contains_key(zone)
            && self.zones[zone].inner.cpu_set.has(cpu)
    }

    /// A vCPU is in order.
    pub open spec fn vcpu_ok(self, id: usize, vcpu: VCpuView) -> bool {
        &&& vcpu.id == id
        &&& vcpu.wf()
        &&& self.zones.contains_key(vcpu.zone)
        &&& self.zones[vcpu.zone].inner.vcpus.contains(id)
        &&& vcpu.affinity matches Some(cpu) && cpu < self.cpus.len()
            && self.zones[vcpu.zone].inner.cpu_set.has(cpu)
        &&& self.ids.in_use(id)
    }

    /// A zone is in order.
    pub open spec fn zone_ok(self, id: usize, zone: ZoneView) -> bool {
        &&& zone.id == id
        &&& zone.name.len() == CONFIG_NAME_MAXLEN
        &&& zone.inner.irq_bitmap.len() == 32
        &&& zone.inner.irq_targets.len() == 1024
        &&& forall|cpu: usize| #[trigger] zone.inner.cpu_set.has(cpu) ==> cpu < self.cpus.len()
        &&& forall|i: int|
            0 <= i < zone.inner.vcpus.len() ==> self.vcpus.contains_key(
                #[trigger] zone.inner.vcpus[i],
            ) && self.vcpus[zone.inner.vcpus[i]].zone == id
        &&& forall|i: int, j: int|
            0 <= i < j < zone.inner.vcpus.len() ==> #[trigger] zone.inner.vcpus[i]
                < #[trigger] zone.inner.vcpus[j]
    }

    /// The interrupt controller lies inside the address space.
    pub open spec fn gic_ok(self) -> bool {
        &&& self.gic.gicd_base + GICD_FRAME_SIZE <= usize::MAX
        &&& forall|cpu: int|
            0 <= cpu < self.gicr_bases.len() ==> #[trigger] self.gicr_bases[cpu] + PER_GICR_SIZE
                <= usize::MAX
    }

    /// The shared state is in order.
    #[verifier::opaque]
    pub open spec fn wf(self) -> bool {
        &&& 0 < self.cpus.len() <= CPU_SET_BITS
        &&& self.events.len() == self.cpus.len()
        &&& self.gicr_bases.len() == self.cpus.len()
        &&& self.virtio.irqs.len() == self.cpus.len()
        &&& self.gic_ok()
        &&& self.ids.wf()
        &&& self.zone_list.no_duplicates()
        &&& forall|i: int|
            0 <= i < self.zone_list.len() ==> self.zones.contains_key(#[trigger] self.zone_list[i])
        &&& forall|cpu: int|
            0 <= cpu < self.cpus.len() ==> self.cpu_ok(cpu as usize, #[trigger] self.cpus[cpu])
        &&& forall|id: usize| #[trigger]
            self.vcpus.contains_key(id) ==> self.vcpu_ok(id, self.vcpus[id])
        &&& forall|id: usize| #[trigger]
            self.zones.contains_key(id) ==> self.zone_ok(id, self.zones[id])
    }

    // -----------------------------------------------------------------------
    // Steps
    // -----------------------------------------------------------------------

    /// The state with something else kept for a pCPU.
    pub open spec fn with_cpu(self, cpu: usize, pc: PerCpuView) -> HvView {
        HvView { cpus: self.cpus.update(cpu as int, pc), ..self }
    }

    /// The state with another vCPU.
    pub open spec fn with_vcpu(self, id: usize, vcpu: VCpuView) -> HvView {
        HvView { vcpus: self.vcpus.insert(id, vcpu), ..self }
    }

    /// The state with another zone.
    pub open spec fn with_zone(self, id: usize, zone: ZoneView) -> HvView {
        HvView { zones: self.zones.insert(id, zone), ..self }
    }

    /// The state with another scheduler on a pCPU.
    pub open spec fn with_sched(self, cpu: usize, sched: SchedView) -> HvView {
        self.with_cpu(cpu, self.cpus[cpu as int].with_sched(sched))
    }

    /// vCPU `id` joins the run queue of its priority on pCPU `cpu`.
    pub open spec fn enqueued(self, cpu: usize, id: usize) -> HvView {
        self.with_sched(
            cpu,
            self.cpus[cpu as int].sched.enqueued(id, self.vcpus[id].priority),
        )
    }

    /// vCPU `id` leaves the blocked list of pCPU `cpu`.
    pub open spec fn unblocked(self, cpu: usize, id: usize) -> HvView {
        self.with_sched(cpu, self.cpus[cpu as int].sched.without_blocked(id))
    }

    /// vCPU `id` leaves the blocked list of pCPU `cpu` and joins its run queue.
    pub open spec fn moved_to_queue(self, cpu: usize, id: usize) -> HvView {
        self.unblocked(cpu, id).enqueued(cpu, id)
    }

    /// Another vCPU is to be selected on pCPU `cpu`.
    pub open spec fn resched(self, cpu: usize) -> HvView {
        self.with_cpu(cpu, PerCpuView { need_resched: true, ..self.cpus[cpu as int] })
    }

    /// One more interrupt is pending for a vCPU.
    pub open spec fn irq_pended(self, id: usize, irq: usize, is_hardware: bool) -> HvView {
        self.with_vcpu(id, self.vcpus[id].with_irq(irq, is_hardware))
    }

    /// A vCPU was asked to go from one state to another.
    pub open spec fn tried(self, id: usize, from: VCpuState, to: VCpuState) -> HvView {
        self.with_vcpu(id, self.vcpus[id].tried(from, to))
    }

    /// A vCPU is woken on pCPU `cpu`: if it is blocked, it becomes ready and joins
    /// its run queue.
    pub open spec fn woken(self, cpu: usize, id: usize) -> HvView {
        if self.vcpus[id].moves(VCpuState::Blocked, VCpuState::Ready) {
            self.tried(id, VCpuState::Blocked, VCpuState::Ready).moved_to_queue(cpu, id)
        } else {
            self
        }
    }

    /// An event waits for a pCPU.
    pub open spec fn event_queued(self, cpu: usize, event: usize) -> HvView {
        HvView { events: crate::event::events_with(self.events, cpu, event), ..self }
    }
}

impl Sys {
    /// An event was sent to a pCPU: it waits in that pCPU's queue, and an SGI is
    /// asked for.
    pub open spec fn sent(self, cpu: usize, sgi: usize, event: usize) -> Sys {
        Sys {
            hv: self.hv.event_queued(cpu, event),
            hw: self.hw.op(Op::RaiseSgi { cpu, sgi }),
        }
    }
}

// ---------------------------------------------------------------------------
// Steps keep the state in order
// ---------------------------------------------------------------------------

/// The sizes of a state that is in order.
pub proof fn lemma_wf_sizes(hv: HvView)
    requires
        hv.wf(),
    ensures
        0 < hv.cpus.len() <= CPU_SET_BITS,
        hv.events.len() == hv.cpus.len(),
        hv.gicr_bases.len() == hv.cpus.len(),
        hv.virtio.irqs.len() == hv.cpus.len(),
        hv.gic_ok(),
        hv.ids.wf(),
        hv.zone_list.no_duplicates(),
{
    reveal(HvView::wf);
}

/// In a state that is in order, so is each pCPU.
pub proof fn lemma_cpu_ok(hv: HvView, cpu: usize)
    requires
        hv.wf(),
        cpu < hv.cpus.len(),
    ensures
        hv.cpu_ok(cpu, hv.cpus[cpu as int]),
{
    reveal(HvView::wf);
}

/// In a state that is in order, so is each vCPU.
pub proof fn lemma_vcpu_ok(hv: HvView, id: usize)
    requires
        hv.wf(),
        hv.vcpus.contains_key(id),
    ensures
        hv.vcpu_ok(id, hv.vcpus[id]),
{
    reveal(HvView::wf);
}

/// In a state that is in order, so is each zone.
pub proof fn lemma_zone_ok(hv: HvView, id: usize)
    requires
        hv.wf(),
        hv.zones.contains_key(id),
    ensures
        hv.zone_ok(id, hv.zones[id]),
{
    reveal(HvView::wf);
}

/// In a state that is in order, registered zones exist.
pub proof fn lemma_listed_zone(hv: HvView, i: int)
    requires
        hv.wf(),
        0 <= i < hv.zone_list.len(),
    ensures
        hv.zones.contains_key(hv.zone_list[i]),
{
    reveal(HvView::wf);
}

/// A step that keeps the vCPUs and leaves every pCPU but one alone keeps the state
/// in order if what it leaves on that one pCPU is.
pub proof fn lemma_wf_step(before: HvView, vcpus: Map<usize, VCpuView>, cpu: usize, pc: PerCpuView)
    requires
        before.wf(),
        cpu < before.cpus.len(),
        vcpus_kept(before.vcpus, vcpus),
        (HvView { vcpus, ..before }).cpu_ok(cpu, pc),
    ensures
        (HvView { vcpus, ..before.with_cpu(cpu, pc) }).wf(),
{
    reveal(HvView::wf);
    let after = HvView { vcpus, ..before.with_cpu(cpu, pc) };
    assert forall|c: int| 0 <= c < after.cpus.len() implies after.cpu_ok(
        c as usize,
        #[trigger] after.cpus[c],
    ) by {
        if c != cpu {
            assert(before.cpu_ok(c as usize, before.cpus[c]));
        }
    }
    assert forall|id: usize| #[trigger] after.vcpus.contains_key(id) implies after.vcpu_ok(
        id,
        after.vcpus[id],
    ) by {
        assert(before.vcpus.contains_key(id));
    }
    assert forall|id: usize| #[trigger] after.zones.contains_key(id) implies after.zone_ok(
        id,
        after.zones[id],
    ) by {
        assert(before.zone_ok(id, before.zones[id]));
        let zone = after.zones[id];
        assert forall|i: int| 0 <= i < zone.inner.vcpus.len() implies after.vcpus.contains_key(
            #[trigger] zone.inner.vcpus[i],
        ) && after.vcpus[zone.inner.vcpus[i]].zone == id by {
            assert(before.vcpus.contains_key(zone.inner.vcpus[i]));
        }
    }
}

/// Changing what is kept for one pCPU.
pub proof fn lemma_wf_cpu(hv: HvView, cpu: usize, pc: PerCpuView)
    requires
        hv.wf(),
        cpu < hv.cpus.len(),
        hv.cpu_ok(cpu, pc),
    ensures
        hv.with_cpu(cpu, pc).wf(),
{
    lemma_wf_step(hv, hv.vcpus, cpu, pc);
    assert((HvView { vcpus: hv.vcpus, ..hv.with_cpu(cpu, pc) }) == hv.with_cpu(cpu, pc));
}

/// Changing one vCPU.
pub proof fn lemma_wf_vcpu(hv: HvView, id: usize, vcpu: VCpuView)
    requires
        hv.wf(),
        hv.vcpus.contains_key(id),
        vcpu.id == id,
        vcpu.zone == hv.vcpus[id].zone,
        vcpu.affinity == hv.vcpus[id].affinity,
        vcpu.wf(),
    ensures
        hv.with_vcpu(id, vcpu).wf(),
        vcpus_kept(hv.vcpus, hv.vcpus.insert(id, vcpu)),
{
    let vcpus = hv.vcpus.insert(id, vcpu);
    lemma_vcpu_ok(hv, id);
    assert(vcpus.dom() =~= hv.vcpus.dom());
    assert(vcpus_kept(hv.vcpus, vcpus));
    lemma_wf_sizes(hv);
    let pc = hv.cpus[0];
    lemma_cpu_ok(hv, 0);
    lemma_wf_step(hv, vcpus, 0, pc);
    assert(hv.with_cpu(0, pc).cpus =~= hv.cpus);
    assert((HvView { vcpus, ..hv.with_cpu(0, pc) }) == hv.with_vcpu(id, vcpu));
}

/// Changing one zone.
pub proof fn lemma_wf_zone(hv: HvView, id: usize, zone: ZoneView)
    requires
        hv.wf(),
        hv.zones.contains_key(id),
        hv.zone_ok(id, zone),
        zone.inner.cpu_set == hv.zones[id].inner.cpu_set,
        zone.inner.vcpus == hv.zones[id].inner.vcpus,
    ensures
        hv.with_zone(id, zone).wf(),
{
    reveal(HvView::wf);
    let after = hv.with_zone(id, zone);
    assert forall|c: int| 0 <= c < after.cpus.len() implies after.cpu_ok(
        c as usize,
        #[trigger] after.cpus[c],
    ) by {
        assert(hv.cpu_ok(c as usize, hv.cpus[c]));
    }
    assert forall|v: usize| #[trigger] after.vcpus.contains_key(v) implies after.vcpu_ok(
        v,
        after.vcpus[v],
    ) by {
        assert(hv.vcpu_ok(v, hv.vcpus[v]));
    }
    assert forall|z: usize| #[trigger] after.zones.contains_key(z) implies after.zone_ok(
        z,
        after.zones[z],
    ) by {
        if z != id {
            assert(hv.zone_ok(z, hv.zones[z]));
        }
    }
}

/// Other events under way.
pub proof fn lemma_wf_events(hv: HvView, events: Seq<Seq<usize>>)
    requires
        hv.wf(),
        events.len() == hv.events.len(),
    ensures
        (HvView { events, ..hv }).wf(),
{
    lemma_wf_aside(hv, HvView { events, ..hv });
}

/// Another length of a tick.
pub proof fn lemma_wf_tick(hv: HvView, tick: u64)
    requires
        hv.wf(),
    ensures
        (HvView { tick, ..hv }).wf(),
{
    lemma_wf_aside(hv, HvView { tick, ..hv });
}

/// A change that touches neither pCPUs nor vCPUs nor zones.
pub proof fn lemma_wf_aside(before: HvView, after: HvView)
    requires
        before.wf(),
        after == (HvView {
            events: after.events,
            tick: after.tick,
            virtio: after.virtio,
            ..before
        }),
        after.events.len() == before.events.len(),
        after.virtio.irqs.len() == before.virtio.irqs.len(),
    ensures
        after.wf(),
{
    reveal(HvView::wf);
    assert forall|c: int| 0 <= c < after.cpus.len() implies after.cpu_ok(
        c as usize,
        #[trigger] after.cpus[c],
    ) by {
        assert(before.cpu_ok(c as usize, before.cpus[c]));
    }
    assert forall|id: usize| #[trigger] after.vcpus.contains_key(id) implies after.vcpu_ok(
        id,
        after.vcpus[id],
    ) by {
        assert(before.vcpu_ok(id, before.vcpus[id]));
    }
    assert forall|id: usize| #[trigger] after.zones.contains_key(id) implies after.zone_ok(
        id,
        after.zones[id],
    ) by {
        assert(before.zone_ok(id, before.zones[id]));
    }
}

/// One more pending interrupt leaves a vCPU in order.
pub proof fn lemma_wf_irq(vcpu: VCpuView, irq: usize, is_hardware: bool)
    requires
        vcpu.wf(),
    ensures
        vcpu.with_irq(irq, is_hardware).wf(),
{
    crate::vcpu::lemma_pending_after(
        vcpu.pending,
        crate::vcpu::PendingIrq { irq_id: irq, is_hardware },
    );
}

/// Enqueueing a vCPU on the pCPU that it is bound to leaves the scheduler in order.
pub proof fn lemma_enqueued_bound(
    sched: SchedView,
    vcpus: Map<usize, VCpuView>,
    cpu: usize,
    id: usize,
    priority: u8,
)
    requires
        sched_bound(sched, vcpus, cpu),
        bound(vcpus, id, cpu),
    ensures
        sched_bound(sched.enqueued(id, priority), vcpus, cpu),
{
    let after = sched.enqueued(id, priority);
    let at = crate::scheduler::queue_of(priority);
    assert forall|p: int, i: int| 0 <= p < 4 && 0 <= i < after.run_queue[p].len() implies bound(
        vcpus,
        #[trigger] after.run_queue[p][i],
        cpu,
    ) by {
        if p != at || i < sched.run_queue[p].len() {
            assert(after.run_queue[p][i] == sched.run_queue[p][i]);
        }
    }
}

/// Taking an entry off the blocked list leaves the scheduler in order.
pub proof fn lemma_without_blocked_bound(
    sched: SchedView,
    vcpus: Map<usize, VCpuView>,
    cpu: usize,
    id: usize,
)
    requires
        sched_bound(sched, vcpus, cpu),
    ensures
        sched_bound(sched.without_blocked(id), vcpus, cpu),
{
    crate::scheduler::lemma_blocked_position(sched.blocked, id, 0);
    let at = crate::scheduler::blocked_position(sched.blocked, id, 0);
    if at < sched.blocked.len() {
        lemma_removed_bound(sched, vcpus, cpu, at);
    }
}

/// Taking the entry at position `at` off the blocked list leaves the scheduler in
/// order.
pub proof fn lemma_removed_bound(
    sched: SchedView,
    vcpus: Map<usize, VCpuView>,
    cpu: usize,
    at: int,
)
    requires
        sched_bound(sched, vcpus, cpu),
        0 <= at < sched.blocked.len(),
    ensures
        sched_bound(sched.without_blocked_at(at), vcpus, cpu),
{
    let after = sched.without_blocked_at(at);
    assert forall|i: int| 0 <= i < after.blocked.len() implies bound(
        vcpus,
        (#[trigger] after.blocked[i]).vcpu,
        cpu,
    ) by {
        if i < at {
            assert(after.blocked[i] == sched.blocked[i]);
        } else {
            assert(after.blocked[i] == sched.blocked[i + 1]);
        }
    }
}

/// A selection leaves the scheduler in order, and what it selects is bound to the
/// pCPU.
pub proof fn lemma_pick_bound(sched: SchedView, vcpus: Map<usize, VCpuView>, cpu: usize)
    requires
        sched_bound(sched, vcpus, cpu),
    ensures
        sched_bound(sched.after_pick(), vcpus, cpu),
        sched.picked() matches Some(id) ==> bound(vcpus, id, cpu),
{
    let counted = sched.counted();
    assert(sched_bound(counted, vcpus, cpu)) by {
        assert forall|p: int, i: int|
            0 <= p < 4 && 0 <= i < counted.run_queue[p].len() implies bound(
            vcpus,
            #[trigger] counted.run_queue[p][i],
            cpu,
        ) by {
            if p == 2 && i >= sched.run_queue[2].len() {
                assert(counted.run_queue[2][i] == sched.run_queue[3][i - sched.run_queue[2].len()]);
            } else if p != 3 || sched.starvation + 1 < crate::scheduler::STARVATION_THRESHOLD {
                assert(counted.run_queue[p][i] == sched.run_queue[p][i]);
            }
        }
    }
    let top = counted.top();
    let after = sched.after_pick();
    if top < 4 {
        assert(bound(vcpus, counted.run_queue[top][0], cpu));
        assert forall|p: int, i: int|
            0 <= p < 4 && 0 <= i < after.run_queue[p].len() implies bound(
            vcpus,
            #[trigger] after.run_queue[p][i],
            cpu,
        ) by {
            if p == top {
                assert(after.run_queue[p][i] == counted.run_queue[p][i + 1]);
            } else {
                assert(after.run_queue[p][i] == counted.run_queue[p][i]);
            }
        }
    }
}

/// A scheduler stays in order when the vCPUs are kept.
pub proof fn lemma_kept_bound(
    sched: SchedView,
    before: Map<usize, VCpuView>,
    after: Map<usize, VCpuView>,
    cpu: usize,
)
    requires
        sched_bound(sched, before, cpu),
        vcpus_kept(before, after),
    ensures
        sched_bound(sched, after, cpu),
{
}

/// Waking a blocked vCPU keeps the vCPUs and leaves the scheduler in order.
pub proof fn lemma_wake_at_ok(w: WakeView, i: int, timer: bool, cpu: usize)
    requires
        sched_bound(w.sched, w.vcpus, cpu),
        0 <= i < w.sched.blocked.len(),
    ensures
        vcpus_kept(w.vcpus, w.wake_at(i, timer).vcpus),
        sched_bound(w.wake_at(i, timer).sched, w.wake_at(i, timer).vcpus, cpu),
{
    let id = w.sched.blocked[i].vcpu;
    let after = w.wake_at(i, timer);
    assert(bound(w.vcpus, id, cpu));
    if w.vcpus[id].wf() {
        lemma_wf_irq(w.vcpus[id], crate::vcpu::CNTV_IRQ, false);
    }
    assert(after.vcpus.dom() =~= w.vcpus.dom());
    assert(vcpus_kept(w.vcpus, after.vcpus));
    lemma_removed_bound(w.sched, w.vcpus, cpu, i);
    lemma_enqueued_bound(w.sched.without_blocked_at(i), w.vcpus, cpu, id, w.vcpus[id].priority);
    if after.woken == w.woken + 1 {
        lemma_kept_bound(
            w.sched.without_blocked_at(i).enqueued(id, w.vcpus[id].priority),
            w.vcpus,
            after.vcpus,
            cpu,
        );
    } else {
        lemma_kept_bound(w.sched.without_blocked_at(i), w.vcpus, after.vcpus, cpu);
    }
}

/// Keeping the vCPUs twice keeps them.
proof fn lemma_kept_trans(
    a: Map<usize, VCpuView>,
    b: Map<usize, VCpuView>,
    c: Map<usize, VCpuView>,
)
    requires
        vcpus_kept(a, b),
        vcpus_kept(b, c),
    ensures
        vcpus_kept(a, c),
{
    assert forall|id: usize| #[trigger] a.contains_key(id) implies b.contains_key(id) by {}
}

/// Checking the timers of blocked vCPUs keeps the vCPUs and leaves the scheduler
/// in order.
pub proof fn lemma_timers_checked_ok(w: WakeView, now: u64, tick: u64, i: int, cpu: usize)
    requires
        sched_bound(w.sched, w.vcpus, cpu),
        0 <= i,
    ensures
        vcpus_kept(w.vcpus, w.timers_checked(now, tick, i).vcpus),
        sched_bound(
            w.timers_checked(now, tick, i).sched,
            w.timers_checked(now, tick, i).vcpus,
            cpu,
        ),
    decreases w.sched.blocked.len() - i,
{
    if i < w.sched.blocked.len() {
        let entry = w.sched.blocked[i];
        if entry.expired(now) {
            lemma_wake_at_ok(w, i, true, cpu);
            lemma_timers_checked_ok(w.wake_at(i, true), now, tick, i, cpu);
            lemma_kept_trans(
                w.vcpus,
                w.wake_at(i, true).vcpus,
                w.timers_checked(now, tick, i).vcpus,
            );
        } else if entry.timed_out(w.vcpus[entry.vcpu].pending.len() > 0, now, tick) {
            lemma_wake_at_ok(w, i, false, cpu);
            lemma_timers_checked_ok(w.wake_at(i, false), now, tick, i, cpu);
            lemma_kept_trans(
                w.vcpus,
                w.wake_at(i, false).vcpus,
                w.timers_checked(now, tick, i).vcpus,
            );
        } else {
            lemma_timers_checked_ok(w, now, tick, i + 1, cpu);
        }
    }
}

/// Waking the blocked vCPUs that have something pending keeps the vCPUs and leaves
/// the scheduler in order.
pub proof fn lemma_pending_woken_ok(w: WakeView, i: int, cpu: usize)
    requires
        sched_bound(w.sched, w.vcpus, cpu),
        0 <= i,
    ensures
        vcpus_kept(w.vcpus, w.pending_woken(i).vcpus),
        sched_bound(w.pending_woken(i).sched, w.pending_woken(i).vcpus, cpu),
    decreases w.sched.blocked.len() - i,
{
    if i < w.sched.blocked.len() {
        if w.vcpus[w.sched.blocked[i].vcpu].pending.len() > 0 {
            lemma_wake_at_ok(w, i, false, cpu);
            lemma_pending_woken_ok(w.wake_at(i, false), i, cpu);
            lemma_kept_trans(w.vcpus, w.wake_at(i, false).vcpus, w.pending_woken(i).vcpus);
        } else {
            lemma_pending_woken_ok(w, i + 1, cpu);
        }
    }
}

impl HvView {
    /// The blocked vCPUs of a pCPU with the table of vCPUs.
    pub open spec fn wake_view(self, cpu: usize) -> WakeView {
        WakeView { sched: self.cpus[cpu as int].sched, vcpus: self.vcpus, woken: 0 }
    }

    /// The state after vCPUs of a pCPU have been woken; if any became ready, the
    /// pCPU schedules.
    pub open spec fn after_wake(self, cpu: usize, wake: WakeView) -> HvView {
        let pc = self.cpus[cpu as int];
        HvView {
            vcpus: wake.vcpus,
            ..self.with_cpu(
                cpu,
                PerCpuView {
                    sched: wake.sched,
                    need_resched: pc.need_resched || wake.woken > 0,
                    ..pc
                },
            )
        }
    }

    /// The timers of the blocked vCPUs of a pCPU were checked.
    pub open spec fn blocked_checked(self, cpu: usize, now: u64) -> HvView {
        self.after_wake(cpu, self.wake_view(cpu).timers_checked(now, self.tick, 0))
    }

    /// The timers of the ready vCPUs of a pCPU were checked.
    pub open spec fn ready_checked(self, cpu: usize, now: u64) -> HvView {
        let sched = self.cpus[cpu as int].sched;
        HvView {
            vcpus: Map::new(
                |id: usize| self.vcpus.contains_key(id),
                |id: usize|
                    if sched.queued(id) && crate::scheduler::ready_timer_due(
                        self.vcpus[id],
                        now,
                    ) {
                        self.vcpus[id].with_irq(CNTV_IRQ, false)
                    } else {
                        self.vcpus[id]
                    },
            ),
            ..self
        }
    }

    /// The blocked vCPUs of a pCPU that have something pending were woken.
    pub open spec fn pending_checked(self, cpu: usize) -> HvView {
        self.after_wake(cpu, self.wake_view(cpu).pending_woken(0))
    }
}

/// Making timer interrupts pending for ready vCPUs keeps the state in order.
pub proof fn lemma_ready_checked_wf(hv: HvView, cpu: usize, now: u64)
    requires
        hv.wf(),
        cpu < hv.cpus.len(),
    ensures
        hv.ready_checked(cpu, now).wf(),
{
    let after = hv.ready_checked(cpu, now);
    let pc = hv.cpus[cpu as int];
    lemma_cpu_ok(hv, cpu);
    assert(after.vcpus.dom() =~= hv.vcpus.dom());
    assert forall|id: usize| #[trigger] hv.vcpus.contains_key(id) implies {
        &&& after.vcpus[id].id == hv.vcpus[id].id
        &&& after.vcpus[id].zone == hv.vcpus[id].zone
        &&& after.vcpus[id].affinity == hv.vcpus[id].affinity
        &&& hv.vcpus[id].wf() ==> after.vcpus[id].wf()
    } by {
        if hv.vcpus[id].wf() {
            lemma_wf_irq(hv.vcpus[id], CNTV_IRQ, false);
        }
    }
    assert(vcpus_kept(hv.vcpus, after.vcpus));
    lemma_kept_bound(pc.sched, hv.vcpus, after.vcpus, cpu);
    lemma_wf_step(hv, after.vcpus, cpu, pc);
    assert(hv.with_cpu(cpu, pc).cpus =~= hv.cpus);
    assert((HvView { vcpus: after.vcpus, ..hv.with_cpu(cpu, pc) }) == after);
}

/// Waking vCPUs keeps the state in order.
pub proof fn lemma_after_wake_wf(hv: HvView, cpu: usize, wake: WakeView)
    requires
        hv.wf(),
        cpu < hv.cpus.len(),
        vcpus_kept(hv.vcpus, wake.vcpus),
        sched_bound(wake.sched, wake.vcpus, cpu),
    ensures
        hv.after_wake(cpu, wake).wf(),
{
    let pc = hv.cpus[cpu as int];
    lemma_cpu_ok(hv, cpu);
    let after = PerCpuView {
        sched: wake.sched,
        need_resched: pc.need_resched || wake.woken > 0,
        ..pc
    };
    assert((HvView { vcpus: wake.vcpus, ..hv }).cpu_ok(cpu, after));
    lemma_wf_step(hv, wake.vcpus, cpu, after);
}

// ---------------------------------------------------------------------------
// Executable steps
// ---------------------------------------------------------------------------

impl Hypervisor {
    /// What is kept for a pCPU, to be changed.
    pub fn cpu_mut(&mut self, cpu: usize) -> (res: &mut PerCpu)
        requires
            cpu < old(self)@.cpus.len(),
        ensures
            res@ == old(self)@.cpus[cpu as int],
            final(self)@ == old(self)@.with_cpu(cpu, final(res)@),
    {
        &mut self.cpus[cpu]
    }

    /// What is kept for a pCPU.
    pub fn cpu(&self, cpu: usize) -> (res: &PerCpu)
        requires
            cpu < self@.cpus.len(),
        ensures
            res@ == self@.cpus[cpu as int],
    {
        &self.cpus[cpu]
    }

    /// The number of pCPUs.
    pub fn cpu_count(&self) -> (res: usize)
        ensures
            res == self@.cpus.len(),
    {
        self.cpus.len()
    }

    /// A vCPU.
    pub fn vcpu(&self, id: usize) -> (res: &VCpu)
        requires
            self@.vcpus.contains_key(id),
        ensures
            res@ == self@.vcpus[id],
    {
        self.vcpus.get(id)
    }

    /// A vCPU, to be changed.
    pub fn vcpu_mut(&mut self, id: usize) -> (res: &mut VCpu)
        requires
            old(self)@.vcpus.contains_key(id),
        ensures
            res@ == old(self)@.vcpus[id],
            final(self)@ == old(self)@.with_vcpu(id, final(res)@),
    {
        self.vcpus.get_mut(id)
    }

    /// A zone.
    pub fn zone(&self, id: usize) -> (res: &Zone)
        requires
            self@.zones.contains_key(id),
        ensures
            res@ == self@.zones[id],
    {
        self.zones.get(id).unwrap()
    }

    /// A zone, to be changed.
    pub fn zone_mut(&mut self, id: usize) -> (res: &mut Zone)
        requires
            old(self)@.zones.contains_key(id),
        ensures
            res@ == old(self)@.zones[id],
            final(self)@ == old(self)@.with_zone(id, final(res)@),
    {
        self.zones.get_mut(id).unwrap()
    }

    /// The length of a scheduling tick, in counts.
    pub fn tick(&self) -> (res: u64)
        ensures
            res == self@.tick,
    {
        self.tick_tval
    }

    /// Sets the length of a scheduling tick.
    pub fn set_tick(&mut self, tick: u64)
        requires
            old(self)@.wf(),
        ensures
            final(self)@ == (HvView { tick, ..old(self)@ }),
            final(self)@.wf(),
    {
        proof {
            lemma_wf_tick(self@, tick);
        }
        self.tick_tval = tick;
    }

    /// What the board fixes.
    pub fn board(&self) -> (res: Board)
        ensures
            res == self@.board,
    {
        self.board
    }

    /// Where the interrupt controller is.
    pub fn gic(&self) -> (res: Gic)
        ensures
            res == self@.gic,
    {
        self.gic
    }

    /// Where the redistributor of a pCPU is.
    pub fn gicr_base(&self, cpu: usize) -> (res: usize)
        requires
            cpu < self@.gicr_bases.len(),
        ensures
            res == self@.gicr_bases[cpu as int],
    {
        self.gicr_bases[cpu]
    }

    /// The events under way, to be changed.
    pub fn events_mut(&mut self) -> (res: &mut PercpuEvents)
        ensures
            res@ == old(self)@.events,
            final(self)@ == (HvView { events: final(res)@, ..old(self)@ }),
    {
        &mut self.events
    }

    /// A vCPU joins its run queue.
    pub(crate) fn enqueue(&mut self, cpu: usize, id: usize)
        requires
            old(self)@.wf(),
            cpu < old(self)@.cpus.len(),
            bound(old(self)@.vcpus, id, cpu),
        ensures
            final(self)@ == old(self)@.enqueued(cpu, id),
            final(self)@.wf(),
    {
        proof {
            let pc = self@.cpus[cpu as int];
            lemma_cpu_ok(self@, cpu);
            lemma_vcpu_ok(self@, id);
            lemma_enqueued_bound(pc.sched, self@.vcpus, cpu, id, self@.vcpus[id].priority);
            lemma_wf_cpu(
                self@,
                cpu,
                pc.with_sched(pc.sched.enqueued(id, self@.vcpus[id].priority)),
            );
        }
        self.cpus[cpu].scheduler.enqueue(self.vcpus.get(id));
        assert(self@.cpus =~= old(self)@.enqueued(cpu, id).cpus);
        assert(self@ =~= old(self)@.enqueued(cpu, id));
    }

    /// A vCPU leaves the blocked list.
    pub(crate) fn unblock(&mut self, cpu: usize, id: usize) -> (res: bool)
        requires
            old(self)@.wf(),
            cpu < old(self)@.cpus.len(),
        ensures
            res == old(self)@.cpus[cpu as int].sched.waits(id),
            final(self)@ == old(self)@.unblocked(cpu, id),
            final(self)@.wf(),
    {
        proof {
            let pc = self@.cpus[cpu as int];
            lemma_cpu_ok(self@, cpu);
            lemma_without_blocked_bound(pc.sched, self@.vcpus, cpu, id);
            lemma_wf_cpu(self@, cpu, pc.with_sched(pc.sched.without_blocked(id)));
        }
        self.cpu_mut(cpu).scheduler.remove_blocked(id)
    }

    /// Another vCPU is to be selected.
    pub(crate) fn set_resched(&mut self, cpu: usize)
        requires
            old(self)@.wf(),
            cpu < old(self)@.cpus.len(),
        ensures
            final(self)@ == old(self)@.resched(cpu),
            final(self)@.wf(),
    {
        proof {
            let pc = self@.cpus[cpu as int];
            lemma_cpu_ok(self@, cpu);
            lemma_wf_cpu(self@, cpu, PerCpuView { need_resched: true, ..pc });
        }
        self.cpu_mut(cpu).need_resched = true;
    }

    /// One more interrupt is pending for a vCPU.
    pub(crate) fn push_irq(&mut self, id: usize, irq: usize, is_hardware: bool)
        requires
            old(self)@.wf(),
            old(self)@.vcpus.contains_key(id),
        ensures
            final(self)@ == old(self)@.irq_pended(id, irq, is_hardware),
            final(self)@.wf(),
    {
        proof {
            lemma_vcpu_ok(self@, id);
            lemma_wf_irq(self@.vcpus[id], irq, is_hardware);
            lemma_wf_vcpu(self@, id, self@.vcpus[id].with_irq(irq, is_hardware));
        }
        self.vcpu_mut(id).push_pending_irq(irq, is_hardware);
    }

    /// A vCPU is asked to go from one state to another.
    pub(crate) fn transition(&mut self, id: usize, from: VCpuState, to: VCpuState) -> (res: bool)
        requires
            old(self)@.wf(),
            old(self)@.vcpus.contains_key(id),
        ensures
            res == old(self)@.vcpus[id].moves(from, to),
            final(self)@ == old(self)@.tried(id, from, to),
            final(self)@.wf(),
    {
        proof {
            lemma_vcpu_ok(self@, id);
            lemma_wf_vcpu(self@, id, self@.vcpus[id].tried(from, to));
        }
        self.vcpu_mut(id).transition(from, to).is_ok()
    }

    /// A vCPU is woken: if it is blocked, it becomes ready and joins its run queue.
    pub(crate) fn wake(&mut self, cpu: usize, id: usize) -> (res: bool)
        requires
            old(self)@.wf(),
            cpu < old(self)@.cpus.len(),
            bound(old(self)@.vcpus, id, cpu),
        ensures
            res == old(self)@.vcpus[id].moves(VCpuState::Blocked, VCpuState::Ready),
            final(self)@ == old(self)@.woken(cpu, id),
            final(self)@.wf(),
    {
        if self.transition(id, VCpuState::Blocked, VCpuState::Ready) {
            let waited: bool = self.unblock(cpu, id);
            self.enqueue(cpu, id);
            true
        } else {
            assert(self@ =~= old(self)@);
            false
        }
    }

    /// Wakes the blocked vCPUs of a pCPU whose timer has expired or that have waited
    /// long enough; if any became ready, the pCPU schedules.
    pub(crate) fn check_blocked(&mut self, cpu: usize, now: u64)
        requires
            old(self)@.wf(),
            cpu < old(self)@.cpus.len(),
        ensures
            final(self)@ == old(self)@.blocked_checked(cpu, now),
            final(self)@.wf(),
    {
        let ghost pc = self@.cpus[cpu as int];
        let ghost wake = self@.wake_view(cpu).timers_checked(now, self@.tick, 0);
        proof {
            lemma_cpu_ok(self@, cpu);
            lemma_timers_checked_ok(self@.wake_view(cpu), now, self@.tick, 0, cpu);
            assert forall|id: usize| #[trigger]
                self@.vcpus.contains_key(id) implies self@.vcpus[id].id == id by {
                lemma_vcpu_ok(self@, id);
            }
            lemma_after_wake_wf(self@, cpu, wake);
        }
        let tick: u64 = self.tick_tval;
        let woken: usize = self.cpus[cpu].scheduler.check_blocked_timers(
            &mut self.vcpus,
            now,
            tick,
        );
        if woken > 0 {
            self.cpus[cpu].need_resched = true;
        }
        assert(self@.cpus =~= old(self)@.blocked_checked(cpu, now).cpus);
    }

    /// Wakes the blocked vCPUs of a pCPU that have something pending; if any became
    /// ready, the pCPU schedules.
    pub(crate) fn check_pending(&mut self, cpu: usize)
        requires
            old(self)@.wf(),
            cpu < old(self)@.cpus.len(),
        ensures
            final(self)@ == old(self)@.pending_checked(cpu),
            final(self)@.wf(),
    {
        let ghost pc = self@.cpus[cpu as int];
        let ghost wake = self@.wake_view(cpu).pending_woken(0);
        proof {
            lemma_cpu_ok(self@, cpu);
            lemma_pending_woken_ok(self@.wake_view(cpu), 0, cpu);
            assert forall|id: usize| #[trigger]
                self@.vcpus.contains_key(id) implies self@.vcpus[id].id == id by {
                lemma_vcpu_ok(self@, id);
            }
            lemma_after_wake_wf(self@, cpu, wake);
        }
        let woken: usize = self.cpus[cpu].scheduler.drain_pending_irq_wakeups(&mut self.vcpus);
        if woken > 0 {
            self.cpus[cpu].need_resched = true;
        }
        assert(self@.cpus =~= old(self)@.pending_checked(cpu).cpus);
    }

    /// Makes the timer interrupts of the ready vCPUs of a pCPU pending.
    pub(crate) fn check_ready(&mut self, cpu: usize, now: u64)
        requires
            old(self)@.wf(),
            cpu < old(self)@.cpus.len(),
        ensures
            final(self)@ == old(self)@.ready_checked(cpu, now),
            final(self)@.wf(),
    {
        proof {
            lemma_cpu_ok(self@, cpu);
            lemma_ready_checked_wf(self@, cpu, now);
            let sched = self@.cpus[cpu as int].sched;
            assert forall|p: int, i: int|
                0 <= p < 4 && 0 <= i < sched.run_queue[p].len() implies self@.vcpus.contains_key(
                #[trigger] sched.run_queue[p][i],
            ) by {
                assert(bound(self@.vcpus, sched.run_queue[p][i], cpu));
            }
        }
        self.cpus[cpu].scheduler.check_ready_timers(&mut self.vcpus, now);
    }
}

// ---------------------------------------------------------------------------
// Making and dropping zones and vCPUs
// ---------------------------------------------------------------------------

/// The first position at or after `from` at which `list` holds `id`; the list's
/// length if there is none.
pub open spec fn id_position(list: Seq<usize>, id: usize, from: int) -> int
    decreases list.len() - from,
{
    if from < 0 || from >= list.len() {
        list.len() as int
    } else if list[from] == id {
        from
    } else {
        id_position(list, id, from + 1)
    }
}

/// [`id_position`] finds the first match.
pub proof fn lemma_id_position(list: Seq<usize>, id: usize, from: int)
    requires
        0 <= from <= list.len(),
    ensures
        from <= id_position(list, id, from) <= list.len(),
        id_position(list, id, from) < list.len() ==> list[id_position(list, id, from)] == id,
        forall|i: int| from <= i < id_position(list, id, from) ==> #[trigger] list[i] != id,
    decreases list.len() - from,
{
    if from < list.len() && list[from] != id {
        lemma_id_position(list, id, from + 1);
    }
}

/// A list without the first occurrence of `id`.
pub open spec fn list_without(list: Seq<usize>, id: usize) -> Seq<usize> {
    let at = id_position(list, id, 0);
    if at < list.len() {
        list.remove(at)
    } else {
        list
    }
}

/// The first position at or after `from` of something greater than `id` in an
/// ascending list; the list's length if there is none.
pub open spec fn position_above(list: Seq<usize>, id: usize, from: int) -> int
    decreases list.len() - from,
{
    if from < 0 || from >= list.len() {
        list.len() as int
    } else if list[from] > id {
        from
    } else {
        position_above(list, id, from + 1)
    }
}

/// An ascending list with `id` put in its place.
pub open spec fn ascending_with(list: Seq<usize>, id: usize) -> Seq<usize> {
    list.insert(position_above(list, id, 0), id)
}

proof fn lemma_position_above(list: Seq<usize>, id: usize, from: int)
    requires
        0 <= from <= list.len(),
    ensures
        from <= position_above(list, id, from) <= list.len(),
        position_above(list, id, from) < list.len() ==> list[position_above(list, id, from)] > id,
        forall|i: int| from <= i < position_above(list, id, from) ==> #[trigger] list[i] <= id,
    decreases list.len() - from,
{
    if from < list.len() && list[from] <= id {
        lemma_position_above(list, id, from + 1);
    }
}

/// Putting something new into an ascending list leaves it ascending, with that and
/// what was there before.
pub proof fn lemma_ascending_with(list: Seq<usize>, id: usize)
    requires
        forall|i: int, j: int| 0 <= i < j < list.len() ==> #[trigger] list[i] < #[trigger] list[j],
        !list.contains(id),
    ensures
        forall|i: int, j: int|
            0 <= i < j < ascending_with(list, id).len() ==> #[trigger] ascending_with(list, id)[i]
                < #[trigger] ascending_with(list, id)[j],
        forall|other: usize| #[trigger]
            ascending_with(list, id).contains(other) <==> other == id || list.contains(other),
        ascending_with(list, id).len() == list.len() + 1,
{
    let at = position_above(list, id, 0);
    let after = ascending_with(list, id);
    lemma_position_above(list, id, 0);
    assert forall|i: int| 0 <= i < after.len() implies #[trigger] after[i] == if i < at {
        list[i]
    } else if i == at {
        id
    } else {
        list[i - 1]
    } by {}
    assert forall|i: int, j: int| 0 <= i < j < after.len() implies #[trigger] after[i]
        < #[trigger] after[j] by {
        if i < at {
            assert(list[i] != id) by {
                assert(list.contains(list[i]));
            }
        }
        if j == at {
            assert(list[i] <= id);
        } else if j > at && i >= at {
            if i == at {
                assert(list[at] > id);
            }
        }
    }
    assert forall|other: usize| #[trigger] after.contains(other) <==> other == id
        || list.contains(other) by {
        if after.contains(other) {
            let i = choose|i: int| 0 <= i < after.len() && after[i] == other;
            if i < at {
                assert(list[i] == other);
            } else if i > at {
                assert(list[i - 1] == other);
            }
        }
        if other == id {
            assert(after[at] == id);
        }
        if list.contains(other) {
            let i = choose|i: int| 0 <= i < list.len() && list[i] == other;
            if i < at {
                assert(after[i] == other);
            } else {
                assert(after[i + 1] == other);
            }
        }
    }
}

impl HvView {
    /// A state with pCPUs and nothing else.
    pub open spec fn initial(
        cpus: nat,
        gic: Gic,
        gicr_bases: Seq<usize>,
        board: Board,
    ) -> HvView {
        HvView {
            cpus: Seq::new(cpus, |cpu: int| PerCpuView::unused(cpu as usize)),
            vcpus: Map::empty(),
            ids: VCpuIdPoolView { next: 0, free: Seq::empty() },
            zones: Map::empty(),
            zone_list: Seq::empty(),
            events: Seq::new(cpus, |cpu: int| Seq::<usize>::empty()),
            tick: 0,
            gic,
            gicr_bases,
            virtio: VirtioView {
                base_addr: None,
                irqs: Seq::new(cpus, |cpu: int| Seq::<u32>::empty()),
            },
            board,
        }
    }

    /// A vCPU of `zone` was made for pCPU `cpu`, as number `index` of the zone.  The
    /// first one starts the guest: it is ready and queued; the others are stopped.
    pub open spec fn vcpu_created(
        self,
        zone: usize,
        cpu: usize,
        index: nat,
        stack_top: usize,
        boot: TrapFrameView,
        vtr: u64,
    ) -> HvView {
        let created = self.vcpu_added(zone, cpu, index, stack_top, boot, vtr);
        if index == 0 {
            created.enqueued(cpu, self.ids.head())
        } else {
            created
        }
    }

    /// The vCPU that [`Self::vcpu_created`] makes.
    pub open spec fn new_vcpu(
        self,
        zone: usize,
        cpu: usize,
        index: nat,
        stack_top: usize,
        boot: TrapFrameView,
        vtr: u64,
    ) -> VCpuView {
        let fresh = VCpuView {
            affinity: Some(cpu),
            ..VCpuView::fresh(self.ids.head(), zone, stack_top, vtr)
        };
        if index == 0 {
            VCpuView {
                state: VCpuState::Ready,
                arch: ArchVCpuView { frame: boot, ..fresh.arch },
                ..fresh
            }
        } else {
            fresh
        }
    }

    /// The state with that vCPU in its zone.
    pub open spec fn vcpu_added(
        self,
        zone: usize,
        cpu: usize,
        index: nat,
        stack_top: usize,
        boot: TrapFrameView,
        vtr: u64,
    ) -> HvView {
        let id = self.ids.head();
        let home = self.zones[zone];
        HvView {
            ids: self.ids.taken(),
            vcpus: self.vcpus.insert(id, self.new_vcpu(zone, cpu, index, stack_top, boot, vtr)),
            zones: self.zones.insert(
                zone,
                ZoneView {
                    inner: ZoneInnerView {
                        vcpus: ascending_with(home.inner.vcpus, id),
                        mpidrs: home.inner.mpidrs.insert(GuestMpidr::of(index as u64).0, id),
                        vcpu_base: if index == 0 {
                            id
                        } else {
                            home.inner.vcpu_base
                        },
                        ..home.inner
                    },
                    ..home
                },
            ),
            ..self
        }
    }

    /// Nothing refers to a zone but the list of registered zones.
    pub open spec fn zone_unused(self, zone: usize) -> bool {
        &&& forall|cpu: int| 0 <= cpu < self.cpus.len() ==> (#[trigger] self.cpus[cpu]).zone
            != Some(zone)
        &&& forall|id: usize| #[trigger] self.vcpus.contains_key(id) ==> self.vcpus[id].zone != zone
    }

    /// A zone was taken off the list and dropped.
    pub open spec fn zone_dropped(self, zone: usize) -> HvView {
        HvView {
            zones: self.zones.remove(zone),
            zone_list: list_without(self.zone_list, zone),
            ..self
        }
    }
}

/// Adding a vCPU to its zone keeps the state in order.
pub proof fn lemma_vcpu_added_wf(
    hv: HvView,
    zone: usize,
    cpu: usize,
    index: nat,
    stack_top: usize,
    boot: TrapFrameView,
    vtr: u64,
)
    requires
        hv.wf(),
        hv.zones.contains_key(zone),
        cpu < hv.cpus.len(),
        hv.zones[zone].inner.cpu_set.has(cpu),
        hv.ids.available(),
        crate::arch::aarch64::vcpu::stack_fits(stack_top),
    ensures
        hv.vcpu_added(zone, cpu, index, stack_top, boot, vtr).wf(),
        !hv.vcpus.contains_key(hv.ids.head()),
        hv.vcpu_added(zone, cpu, index, stack_top, boot, vtr).zones[zone].inner.vcpus.len()
            == hv.zones[zone].inner.vcpus.len() + 1,
{
    reveal(HvView::wf);
    let id = hv.ids.head();
    let after = hv.vcpu_added(zone, cpu, index, stack_top, boot, vtr);
    let list = hv.zones[zone].inner.vcpus;
    crate::vcpu::lemma_id_taken(hv.ids);
    assert(hv.zone_ok(zone, hv.zones[zone]));
    if hv.vcpus.contains_key(id) {
        assert(hv.vcpu_ok(id, hv.vcpus[id]));
    }
    if list.contains(id) {
        let k = choose|k: int| 0 <= k < list.len() && list[k] == id;
        assert(hv.vcpus.contains_key(list[k]));
    }
    lemma_ascending_with(list, id);
    assert forall|c: int| 0 <= c < after.cpus.len() implies after.cpu_ok(
        c as usize,
        #[trigger] after.cpus[c],
    ) by {
        assert(hv.cpu_ok(c as usize, hv.cpus[c]));
    }
    assert forall|v: usize| #[trigger] after.vcpus.contains_key(v) implies after.vcpu_ok(
        v,
        after.vcpus[v],
    ) by {
        if v != id {
            assert(hv.vcpu_ok(v, hv.vcpus[v]));
            assert(after.ids.in_use(v));
            if after.vcpus[v].zone == zone {
                assert(ascending_with(list, id).contains(v));
            }
        } else {
            assert(after.ids.in_use(id));
            assert(ascending_with(list, id).contains(id));
        }
    }
    assert forall|z: usize| #[trigger] after.zones.contains_key(z) implies after.zone_ok(
        z,
        after.zones[z],
    ) by {
        assert(hv.zone_ok(z, hv.zones[z]));
        if z == zone {
            let inner = after.zones[z].inner;
            assert forall|i: int| 0 <= i < inner.vcpus.len() implies after.vcpus.contains_key(
                #[trigger] inner.vcpus[i],
            ) && after.vcpus[inner.vcpus[i]].zone == z by {
                assert(inner.vcpus.contains(inner.vcpus[i]));
                if inner.vcpus[i] != id {
                    let k = choose|k: int| 0 <= k < list.len() && list[k] == inner.vcpus[i];
                    assert(hv.vcpus.contains_key(list[k]));
                }
            }
        } else {
            let inner = after.zones[z].inner;
            assert forall|i: int| 0 <= i < inner.vcpus.len() implies after.vcpus.contains_key(
                #[trigger] inner.vcpus[i],
            ) && after.vcpus[inner.vcpus[i]].zone == z by {
                assert(hv.vcpus.contains_key(inner.vcpus[i]));
            }
        }
    }
}

/// Dropping a zone that nothing refers to keeps the state in order.
pub proof fn lemma_zone_dropped_wf(hv: HvView, zone: usize)
    requires
        hv.wf(),
        hv.zone_unused(zone),
        hv.zone_list.contains(zone),
    ensures
        hv.zone_dropped(zone).wf(),
        !hv.zone_dropped(zone).zone_list.contains(zone),
{
    reveal(HvView::wf);
    let after = hv.zone_dropped(zone);
    let list = hv.zone_list;
    let at = id_position(list, zone, 0);
    lemma_id_position(list, zone, 0);
    let k = choose|k: int| 0 <= k < list.len() && list[k] == zone;
    assert(list[k] == zone);
    assert(at < list.len());
    assert forall|i: int| 0 <= i < after.zone_list.len() implies #[trigger] after.zone_list[i]
        == list[if i < at {
        i
    } else {
        i + 1
    }] by {}
    assert forall|i: int| 0 <= i < after.zone_list.len() implies after.zones.contains_key(
        #[trigger] after.zone_list[i],
    ) by {
        let j = if i < at {
            i
        } else {
            i + 1
        };
        assert(hv.zones.contains_key(list[j]));
        assert(list[j] != list[at]);
    }
    if after.zone_list.contains(zone) {
        let i = choose|i: int| 0 <= i < after.zone_list.len() && after.zone_list[i] == zone;
        let j = if i < at {
            i
        } else {
            i + 1
        };
        assert(list[j] == list[at]);
    }
    assert forall|c: int| 0 <= c < after.cpus.len() implies after.cpu_ok(
        c as usize,
        #[trigger] after.cpus[c],
    ) by {
        assert(hv.cpu_ok(c as usize, hv.cpus[c]));
    }
    assert forall|v: usize| #[trigger] after.vcpus.contains_key(v) implies after.vcpu_ok(
        v,
        after.vcpus[v],
    ) by {
        assert(hv.vcpu_ok(v, hv.vcpus[v]));
    }
    assert forall|z: usize| #[trigger] after.zones.contains_key(z) implies after.zone_ok(
        z,
        after.zones[z],
    ) by {
        assert(hv.zone_ok(z, hv.zones[z]));
    }
}

impl Hypervisor {
    /// A state with `cpus` pCPUs and nothing else.
    pub fn new(cpus: usize, gic: Gic, gicr_bases: Vec<usize>, board: Board) -> (res: Self)
        requires
            0 < cpus <= CPU_SET_BITS,
            gicr_bases@.len() == cpus,
            gic.gicd_base + GICD_FRAME_SIZE <= usize::MAX,
            forall|cpu: int|
                0 <= cpu < cpus ==> #[trigger] gicr_bases@[cpu] + PER_GICR_SIZE <= usize::MAX,
        ensures
            res@ == HvView::initial(cpus as nat, gic, gicr_bases@, board),
            res@.wf(),
    {
        let mut percpu: Vec<PerCpu> = Vec::new();
        let mut irqs: Vec<Vec<u32>> = Vec::new();
        let mut i: usize = 0;
        while i < cpus
            invariant
                i <= cpus,
                percpu@.len() == i,
                irqs@.len() == i,
                forall|k: int|
                    0 <= k < i ==> (#[trigger] percpu@[k])@ == PerCpuView::unused(k as usize),
                forall|k: int| 0 <= k < i ==> (#[trigger] irqs@[k])@ == Seq::<u32>::empty(),
            decreases cpus - i,
        {
            percpu.push(PerCpu::new(i));
            irqs.push(Vec::new());
            i = i + 1;
        }
        let hv = Hypervisor {
            cpus: percpu,
            vcpus: VCpuTable::new(),
            ids: VCpuIdPool::new(),
            zones: KeyedList::new(),
            zone_list: Vec::new(),
            events: PercpuEvents::new(cpus),
            tick_tval: 0,
            gic,
            gicr_bases,
            virtio: Virtio { base_addr: None, irqs },
            board,
        };
        proof {
            reveal(HvView::wf);
            assert(hv@.zones =~= Map::<usize, ZoneView>::empty());
            assert(hv@.virtio.irqs =~= Seq::new(cpus as nat, |cpu: int| Seq::<u32>::empty()));
            assert(hv@ =~= HvView::initial(cpus as nat, gic, gicr_bases@, board));
        }
        hv
    }

    /// Adds a zone.
    pub fn insert_zone(&mut self, zone: Zone)
        requires
            old(self)@.wf(),
            !old(self)@.zones.contains_key(zone@.id),
            old(self)@.zone_ok(zone@.id, zone@),
        ensures
            final(self)@ == old(self)@.with_zone(zone@.id, zone@),
            final(self)@.wf(),
    {
        let id: usize = zone.id;
        let ghost view = zone@;
        let before: Option<Zone> = self.zones.insert(id, zone);
        assert(self@.zones =~= old(self)@.zones.insert(id, view));
        proof {
            lemma_zone_inserted_wf(old(self)@, id, view);
        }
    }

    /// The registered zones, in order.
    pub fn zone_list(&self) -> (res: &Vec<usize>)
        ensures
            res@ == self@.zone_list,
    {
        &self.zone_list
    }

    /// Registers a zone.
    pub(crate) fn list_zone(&mut self, id: usize)
        requires
            old(self)@.wf(),
            old(self)@.zones.contains_key(id),
            !old(self)@.zone_list.contains(id),
        ensures
            final(self)@ == (HvView {
                zone_list: old(self)@.zone_list.push(id),
                ..old(self)@
            }),
            final(self)@.wf(),
    {
        self.zone_list.push(id);
        proof {
            lemma_zone_listed_wf(old(self)@, id);
        }
    }

    /// Whether there is a zone with the given identifier.
    pub fn has_zone_id(&self, id: usize) -> (res: bool)
        ensures
            res == self@.zones.contains_key(id),
    {
        self.zones.contains(id)
    }

    /// Whether nothing refers to a zone but the list of registered zones.
    pub fn is_zone_unused(&self, zone: usize) -> (res: bool)
        ensures
            res == self@.zone_unused(zone),
    {
        let mut i: usize = 0;
        while i < self.cpus.len()
            invariant
                i <= self.cpus@.len(),
                forall|k: int| 0 <= k < i ==> (#[trigger] self@.cpus[k]).zone != Some(zone),
            decreases self.cpus@.len() - i,
        {
            assert(self@.cpus[i as int] == self.cpus@[i as int]@);
            if let Some(owner) = self.cpus[i].zone {
                if owner == zone {
                    return false;
                }
            }
            i = i + 1;
        }
        let mut v: usize = 0;
        while v < self.vcpus.slots.len()
            invariant
                v <= self.vcpus.slots@.len(),
                forall|k: usize|
                    k < v && #[trigger] self.vcpus@.contains_key(k) ==> self.vcpus@[k].zone != zone,
            decreases self.vcpus.slots@.len() - v,
        {
            if self.vcpus.contains(v) {
                if self.vcpus.get(v).zone_id() == zone {
                    assert(self@.vcpus.contains_key(v));
                    return false;
                }
            }
            v = v + 1;
        }
        true
    }

    /// Takes a zone off the list and drops it.
    pub(crate) fn drop_zone(&mut self, id: usize)
        requires
            old(self)@.wf(),
            old(self)@.zone_unused(id),
            old(self)@.zone_list.contains(id),
        ensures
            final(self)@ == old(self)@.zone_dropped(id),
            final(self)@.wf(),
    {
        proof {
            lemma_zone_dropped_wf(self@, id);
            lemma_id_position(self@.zone_list, id, 0);
            let k = choose|k: int| 0 <= k < self@.zone_list.len() && self@.zone_list[k] == id;
            assert(self@.zone_list[k] == id);
        }
        let mut at: usize = 0;
        while at < self.zone_list.len() && self.zone_list[at] != id
            invariant
                at <= id_position(self.zone_list@, id, 0) < self.zone_list@.len(),
                id_position(self.zone_list@, id, 0) == id_position(
                    self.zone_list@,
                    id,
                    at as int,
                ),
            decreases self.zone_list@.len() - at,
        {
            proof {
                lemma_id_position(self.zone_list@, id, at as int + 1);
            }
            at = at + 1;
        }
        let listed: usize = self.zone_list.remove(at);
        self.zones.remove(id);
        assert(self@.zones =~= old(self)@.zones.remove(id));
    }

    /// Makes a vCPU of `zone` for pCPU `cpu`, as number `index` of the zone.
    pub(crate) fn create_vcpu(
        &mut self,
        hw: &Hardware,
        zone: usize,
        cpu: usize,
        index: usize,
        stack_top: usize,
        boot: &TrapFrame,
    )
        requires
            old(self)@.wf(),
            old(self)@.zones.contains_key(zone),
            cpu < old(self)@.cpus.len(),
            old(self)@.zones[zone].inner.cpu_set.has(cpu),
            old(self)@.ids.available(),
            crate::arch::aarch64::vcpu::stack_fits(stack_top),
        ensures
            final(self)@ == old(self)@.vcpu_created(
                zone,
                cpu,
                index as nat,
                stack_top,
                boot@,
                hw@.ich.vtr,
            ),
            final(self)@.wf(),
            final(self)@.zones[zone].inner.vcpus.len() == old(self)@.zones[zone].inner.vcpus.len()
                + 1,
            !old(self)@.vcpus.contains_key(old(self)@.ids.head()),
    {
        let ghost added = self@.vcpu_added(
            zone,
            cpu,
            index as nat,
            stack_top,
            boot@,
            hw@.ich.vtr,
        );
        proof {
            lemma_vcpu_added_wf(
                self@,
                zone,
                cpu,
                index as nat,
                stack_top,
                boot@,
                hw@.ich.vtr,
            );
            lemma_wf_sizes(self@);
        }
        let mut vcpu = VCpu::new(zone, &mut self.ids, stack_top, hw);
        let id: usize = vcpu.id;
        vcpu.set_pcpu_affinity(cpu);
        if index == 0 {
            *vcpu.arch.trapframe() = *boot;
            let started: Result<(), ()> = vcpu.transition(VCpuState::Stopped, VCpuState::Ready);
        }
        self.vcpus.insert(vcpu);
        let mpidr = GuestMpidr::new(index as u64);
        let inner = self.zone_mut(zone).write();
        let mut at: usize = 0;
        while at < inner.vcpus.len() && inner.vcpus[at] <= id
            invariant
                at <= inner.vcpus@.len(),
                position_above(inner.vcpus@, id, 0) == position_above(
                    inner.vcpus@,
                    id,
                    at as int,
                ),
            decreases inner.vcpus@.len() - at,
        {
            at = at + 1;
        }
        inner.vcpus.insert(at, id);
        let before: Option<usize> = inner.guest_mpidr_to_vcpu.insert(mpidr.0, id);
        if index == 0 {
            inner.vcpu_base = id;
        }
        assert(self@ =~= added);
        if index == 0 {
            self.enqueue(cpu, id);
        }
    }
}

/// A new zone.
proof fn lemma_zone_inserted_wf(hv: HvView, id: usize, zone: ZoneView)
    requires
        hv.wf(),
        !hv.zones.contains_key(id),
        hv.zone_ok(id, zone),
    ensures
        hv.with_zone(id, zone).wf(),
{
    reveal(HvView::wf);
    let after = hv.with_zone(id, zone);
    assert forall|c: int| 0 <= c < after.cpus.len() implies after.cpu_ok(
        c as usize,
        #[trigger] after.cpus[c],
    ) by {
        assert(hv.cpu_ok(c as usize, hv.cpus[c]));
    }
    assert forall|v: usize| #[trigger] after.vcpus.contains_key(v) implies after.vcpu_ok(
        v,
        after.vcpus[v],
    ) by {
        assert(hv.vcpu_ok(v, hv.vcpus[v]));
    }
    assert forall|z: usize| #[trigger] after.zones.contains_key(z) implies after.zone_ok(
        z,
        after.zones[z],
    ) by {
        if z != id {
            assert(hv.zone_ok(z, hv.zones[z]));
        }
    }
}

/// A zone that is registered.
proof fn lemma_zone_listed_wf(hv: HvView, id: usize)
    requires
        hv.wf(),
        hv.zones.contains_key(id),
        !hv.zone_list.contains(id),
    ensures
        (HvView { zone_list: hv.zone_list.push(id), ..hv }).wf(),
{
    reveal(HvView::wf);
    let after = HvView { zone_list: hv.zone_list.push(id), ..hv };
    assert forall|i: int, j: int|
        0 <= i < after.zone_list.len() && 0 <= j < after.zone_list.len() && i
            != j implies after.zone_list[i] != after.zone_list[j] by {
        if i == hv.zone_list.len() {
            assert(hv.zone_list.contains(hv.zone_list[j]));
        } else if j == hv.zone_list.len() {
            assert(hv.zone_list.contains(hv.zone_list[i]));
        }
    }
    assert forall|c: int| 0 <= c < after.cpus.len() implies after.cpu_ok(
        c as usize,
        #[trigger] after.cpus[c],
    ) by {
        assert(hv.cpu_ok(c as usize, hv.cpus[c]));
    }
    assert forall|v: usize| #[trigger] after.vcpus.contains_key(v) implies after.vcpu_ok(
        v,
        after.vcpus[v],
    ) by {
        assert(hv.vcpu_ok(v, hv.vcpus[v]));
    }
    assert forall|z: usize| #[trigger] after.zones.contains_key(z) implies after.zone_ok(
        z,
        after.zones[z],
    ) by {
        assert(hv.zone_ok(z, hv.zones[z]));
    }
}

// ---------------------------------------------------------------------------
// Taking a zone down
// ---------------------------------------------------------------------------

impl HvView {
    /// A pCPU runs nothing and belongs to no zone.
    pub open spec fn cpu_released(self, cpu: usize) -> HvView {
        let pc = self.cpus[cpu as int];
        self.with_cpu(
            cpu,
            PerCpuView { zone: None, sched: pc.sched.cleared(), current_vcpu: None, ..pc },
        )
    }

    /// The first `n` of the listed pCPUs were released.
    pub open spec fn cpus_released(self, members: Seq<usize>, n: nat) -> HvView
        decreases n,
    {
        if n == 0 {
            self
        } else {
            self.cpus_released(members, (n - 1) as nat).cpu_released(members[n - 1])
        }
    }

    /// The vCPUs of a zone were dropped.
    pub open spec fn vcpus_dropped(self, zone: usize) -> HvView {
        let home = self.zones[zone];
        HvView {
            vcpus: Map::new(
                |id: usize| self.vcpus.contains_key(id) && self.vcpus[id].zone != zone,
                |id: usize| self.vcpus[id],
            ),
            zones: self.zones.insert(
                zone,
                ZoneView {
                    inner: ZoneInnerView { vcpus: Seq::empty(), ..home.inner },
                    ..home
                },
            ),
            ..self
        }
    }

    /// No vCPU of a zone is on its way to a pCPU.
    pub open spec fn none_incoming(self, zone: usize) -> bool {
        forall|cpu: int, i: int|
            0 <= cpu < self.cpus.len() && 0 <= i < self.cpus[cpu].incoming.len()
                ==> self.vcpus[#[trigger] self.cpus[cpu].incoming[i]].zone != zone
    }

    /// The first `n` of the listed identifiers were given back.
    pub open spec fn ids_reclaimed(self, ids: Seq<usize>, n: nat) -> HvView
        decreases n,
    {
        if n == 0 {
            self
        } else {
            let before = self.ids_reclaimed(ids, (n - 1) as nat);
            HvView { ids: before.ids.reclaimed(ids[n - 1]), ..before }
        }
    }
}

/// Dropping the vCPUs of a zone whose pCPUs run nothing keeps the state in order.
proof fn lemma_vcpus_dropped_wf(hv: HvView, zone: usize)
    requires
        hv.wf(),
        hv.zones.contains_key(zone),
        hv.none_incoming(zone),
        forall|cpu: usize|
            #![trigger hv.zones[zone].inner.cpu_set.has(cpu)]
            hv.zones[zone].inner.cpu_set.has(cpu) ==> {
                let pc = hv.cpus[cpu as int];
                &&& pc.sched == pc.sched.cleared()
                &&& pc.current_vcpu is None
            },
    ensures
        hv.vcpus_dropped(zone).wf(),
{
    reveal(HvView::wf);
    let after = hv.vcpus_dropped(zone);
    assert forall|c: int| 0 <= c < after.cpus.len() implies after.cpu_ok(
        c as usize,
        #[trigger] after.cpus[c],
    ) by {
        let cpu = c as usize;
        let pc = hv.cpus[c];
        assert(hv.cpu_ok(cpu, pc));
        assert forall|id: usize| bound(hv.vcpus, id, cpu) && hv.vcpus[id].zone
            != zone implies #[trigger] bound(after.vcpus, id, cpu) by {}
        if hv.zones[zone].inner.cpu_set.has(cpu) {
            assert(pc.sched == pc.sched.cleared());
        } else {
            assert forall|id: usize| #[trigger] bound(hv.vcpus, id, cpu) implies hv.vcpus[id].zone
                != zone by {
                assert(hv.vcpu_ok(id, hv.vcpus[id]));
            }
        }
        assert forall|i: int| 0 <= i < pc.incoming.len() implies bound(
            after.vcpus,
            #[trigger] pc.incoming[i],
            cpu,
        ) by {
            assert(bound(hv.vcpus, pc.incoming[i], cpu));
            assert(hv.vcpus[hv.cpus[c].incoming[i]].zone != zone);
        }
    }
    assert forall|v: usize| #[trigger] after.vcpus.contains_key(v) implies after.vcpu_ok(
        v,
        after.vcpus[v],
    ) by {
        assert(hv.vcpu_ok(v, hv.vcpus[v]));
    }
    assert forall|z: usize| #[trigger] after.zones.contains_key(z) implies after.zone_ok(
        z,
        after.zones[z],
    ) by {
        assert(hv.zone_ok(z, hv.zones[z]));
        if z != zone {
            let inner = after.zones[z].inner;
            assert forall|i: int| 0 <= i < inner.vcpus.len() implies after.vcpus.contains_key(
                #[trigger] inner.vcpus[i],
            ) && after.vcpus[inner.vcpus[i]].zone == z by {
                assert(hv.vcpus.contains_key(inner.vcpus[i]));
            }
        }
    }
}

/// Giving back an identifier that no vCPU has keeps the state in order.
proof fn lemma_reclaimed_wf(hv: HvView, id: usize)
    requires
        hv.wf(),
        hv.ids.in_use(id),
        !hv.vcpus.contains_key(id),
    ensures
        (HvView { ids: hv.ids.reclaimed(id), ..hv }).wf(),
        forall|other: usize| #[trigger]
            hv.ids.reclaimed(id).in_use(other) <==> hv.ids.in_use(other) && other != id,
{
    reveal(HvView::wf);
    let after = HvView { ids: hv.ids.reclaimed(id), ..hv };
    crate::vcpu::lemma_id_reclaimed(hv.ids, id);
    assert forall|c: int| 0 <= c < after.cpus.len() implies after.cpu_ok(
        c as usize,
        #[trigger] after.cpus[c],
    ) by {
        assert(hv.cpu_ok(c as usize, hv.cpus[c]));
    }
    assert forall|v: usize| #[trigger] after.vcpus.contains_key(v) implies after.vcpu_ok(
        v,
        after.vcpus[v],
    ) by {
        assert(hv.vcpu_ok(v, hv.vcpus[v]));
        assert(after.ids.in_use(v));
    }
    assert forall|z: usize| #[trigger] after.zones.contains_key(z) implies after.zone_ok(
        z,
        after.zones[z],
    ) by {
        assert(hv.zone_ok(z, hv.zones[z]));
    }
}

impl Hypervisor {
    /// Whether no vCPU of a zone is on its way to a pCPU.
    pub fn is_none_incoming(&self, zone: usize) -> (res: bool)
        requires
            self@.wf(),
        ensures
            res == self@.none_incoming(zone),
    {
        let mut c: usize = 0;
        while c < self.cpus.len()
            invariant
                c <= self.cpus@.len(),
                self@.cpus.len() == self.cpus@.len(),
                self@.wf(),
                forall|k: int, i: int|
                    0 <= k < c && 0 <= i < self@.cpus[k].incoming.len()
                        ==> self@.vcpus[#[trigger] self@.cpus[k].incoming[i]].zone != zone,
            decreases self.cpus@.len() - c,
        {
            proof {
                lemma_cpu_ok(self@, c);
                assert(self@.cpus[c as int] == self.cpus@[c as int]@);
            }
            let mut i: usize = 0;
            while i < self.cpus[c].incoming_vcpus.len()
                invariant
                    c < self.cpus@.len(),
                    self@.cpus.len() == self.cpus@.len(),
                    i <= self@.cpus[c as int].incoming.len(),
                    self@.cpus[c as int] == self.cpus@[c as int]@,
                    self@.cpu_ok(c, self@.cpus[c as int]),
                    forall|k: int|
                        0 <= k < i ==> self@.vcpus[#[trigger] self@.cpus[c as int].incoming[k]].zone
                            != zone,
                decreases self@.cpus[c as int].incoming.len() - i,
            {
                let id: usize = self.cpus[c].incoming_vcpus[i];
                assert(id == self@.cpus[c as int].incoming[i as int]);
                assert(bound(self@.vcpus, self@.cpus[c as int].incoming[i as int], c));
                if self.vcpu(id).zone_id() == zone {
                    return false;
                }
                i = i + 1;
            }
            c = c + 1;
        }
        true
    }

    /// A pCPU runs nothing and belongs to no zone.
    pub(crate) fn release_cpu(&mut self, cpu: usize)
        requires
            old(self)@.wf(),
            cpu < old(self)@.cpus.len(),
        ensures
            final(self)@ == old(self)@.cpu_released(cpu),
            final(self)@.wf(),
    {
        proof {
            lemma_cpu_ok(self@, cpu);
            lemma_wf_cpu(self@, cpu, self@.cpu_released(cpu).cpus[cpu as int]);
        }
        let this = self.cpu_mut(cpu);
        this.zone = None;
        this.scheduler.clear_all();
        this.current_vcpu = None;
    }

    /// Drops the vCPUs of a zone whose pCPUs run nothing.  Returns their identifiers,
    /// in ascending order.
    pub(crate) fn drop_vcpus(&mut self, zone: usize) -> (res: Vec<usize>)
        requires
            old(self)@.wf(),
            old(self)@.zones.contains_key(zone),
            old(self)@.none_incoming(zone),
            forall|cpu: usize|
                #![trigger old(self)@.zones[zone].inner.cpu_set.has(cpu)]
                old(self)@.zones[zone].inner.cpu_set.has(cpu) ==> {
                    let pc = old(self)@.cpus[cpu as int];
                    &&& pc.sched == pc.sched.cleared()
                    &&& pc.current_vcpu is None
                },
        ensures
            res@ == old(self)@.zones[zone].inner.vcpus,
            final(self)@ == old(self)@.vcpus_dropped(zone),
            final(self)@.wf(),
    {
        proof {
            lemma_vcpus_dropped_wf(self@, zone);
            lemma_zone_ok(self@, zone);
        }
        let mut ids: Vec<usize> = Vec::new();
        std::mem::swap(&mut ids, &mut self.zone_mut(zone).write().vcpus);
        let ghost list = old(self)@.zones[zone].inner.vcpus;
        assert(ids@ =~= list);
        let ghost all = old(self)@.vcpus;
        let ghost emptied = self@;
        assert(self@.vcpus =~= Map::new(
            |id: usize|
                all.contains_key(id) && !list.subrange(0, 0).contains(id),
            |id: usize| all[id],
        ));
        let mut i: usize = 0;
        while i < ids.len()
            invariant
                i <= ids@.len(),
                ids@ == list,
                self@ == (HvView { vcpus: self@.vcpus, ..emptied }),
                self@.vcpus == Map::new(
                    |id: usize|
                        all.contains_key(id) && !list.subrange(0, i as int).contains(id),
                    |id: usize| all[id],
                ),
            decreases ids@.len() - i,
        {
            let ghost before = self@.vcpus;
            self.vcpus.remove(ids[i]);
            i = i + 1;
            proof {
                let sub = list.subrange(0, i - 1);
                let more = list.subrange(0, i as int);
                assert forall|id: usize| #[trigger] more.contains(id) <==> sub.contains(id) || id
                    == list[i - 1] by {
                    if more.contains(id) {
                        let k = choose|k: int| 0 <= k < more.len() && more[k] == id;
                        if k < i - 1 {
                            assert(sub[k] == id);
                        }
                    }
                    if sub.contains(id) {
                        let k = choose|k: int| 0 <= k < sub.len() && sub[k] == id;
                        assert(more[k] == id);
                    }
                    assert(more[i - 1] == list[i - 1]);
                }
                assert(self@.vcpus =~= Map::new(
                    |id: usize| all.contains_key(id) && !more.contains(id),
                    |id: usize| all[id],
                ));
            }
        }
        proof {
            assert(list.subrange(0, i as int) =~= list);
            assert forall|id: usize| #[trigger] all.contains_key(id) implies (list.contains(id)
                <==> all[id].zone == zone) by {
                lemma_vcpu_ok(old(self)@, id);
                if list.contains(id) {
                    let k = choose|k: int| 0 <= k < list.len() && list[k] == id;
                    assert(all[list[k]].zone == zone);
                }
            }
            assert(self@.vcpus =~= old(self)@.vcpus_dropped(zone).vcpus);
        }
        ids
    }

    /// Gives identifiers back that no vCPU has.
    pub(crate) fn reclaim_ids(&mut self, ids: &Vec<usize>)
        requires
            old(self)@.wf(),
            forall|i: int|
                0 <= i < ids@.len() ==> old(self)@.ids.in_use(#[trigger] ids@[i]) && !old(
                    self,
                )@.vcpus.contains_key(ids@[i]),
            ids@.no_duplicates(),
        ensures
            final(self)@ == old(self)@.ids_reclaimed(ids@, ids@.len()),
            final(self)@ == (HvView { ids: final(self)@.ids, ..old(self)@ }),
            final(self)@.wf(),
    {
        let mut i: usize = 0;
        while i < ids.len()
            invariant
                i <= ids@.len(),
                self@.wf(),
                ids@.no_duplicates(),
                self@ == (HvView { ids: self@.ids, ..old(self)@ }),
                forall|k: int|
                    i <= k < ids@.len() ==> self@.ids.in_use(#[trigger] ids@[k])
                        && !self@.vcpus.contains_key(ids@[k]),
                self@ == old(self)@.ids_reclaimed(ids@, i as nat),
            decreases ids@.len() - i,
        {
            proof {
                lemma_reclaimed_wf(self@, ids@[i as int]);
            }
            self.ids.reclaim_vcpu_id(ids[i]);
            i = i + 1;
        }
    }

    /// Sets where the page is that the root zone and the hypervisor share.
    pub(crate) fn set_virtio_base(&mut self, base_addr: usize)
        requires
            old(self)@.wf(),
        ensures
            final(self)@ == (HvView {
                virtio: VirtioView { base_addr: Some(base_addr), ..old(self)@.virtio },
                ..old(self)@
            }),
            final(self)@.wf(),
    {
        self.virtio.base_addr = Some(base_addr);
        proof {
            lemma_wf_aside(old(self)@, self@);
        }
    }

    /// The virtio interrupts to be injected on a pCPU.
    pub fn virtio_irqs(&self, cpu: usize) -> (res: &Vec<u32>)
        requires
            cpu < self@.virtio.irqs.len(),
        ensures
            res@ == self@.virtio.irqs[cpu as int],
    {
        &self.virtio.irqs[cpu]
    }

    /// The virtio interrupts to be injected on a pCPU, to be changed.
    pub(crate) fn virtio_irqs_mut(&mut self, cpu: usize) -> (res: &mut Vec<u32>)
        requires
            cpu < old(self)@.virtio.irqs.len(),
        ensures
            res@ == old(self)@.virtio.irqs[cpu as int],
            final(self)@ == old(self)@.with_virtio_irqs(cpu, final(res)@),
    {
        &mut self.virtio.irqs[cpu]
    }
}

impl HvView {
    /// Other virtio interrupts are to be injected on a pCPU.
    pub open spec fn with_virtio_irqs(self, cpu: usize, irqs: Seq<u32>) -> HvView {
        HvView {
            virtio: VirtioView {
                irqs: self.virtio.irqs.update(cpu as int, irqs),
                ..self.virtio
            },
            ..self
        }
    }
}

} // verus!

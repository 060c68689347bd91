//! States, queues and list registers.

use vstd::prelude::*;
use crate::hardware::Op;
use crate::hypervisor::{HvView, Sys};
use crate::scheduler::SchedView;
use crate::vcpu::{PendingIrq, VCpuState, VCpuView};

verus! {

/// The transitions that there are, and no others: a stopped vCPU becomes ready; a ready
/// one runs; a running one becomes ready or is blocked; a blocked one becomes ready; and
/// any of these is stopped.  Trying any other transition changes nothing.
pub proof fn lemma_transitions(vcpu: VCpuView, from: VCpuState, to: VCpuState)
    ensures
        ({
            let after = vcpu.tried(from, to);
            let is_transition = match (from, to) {
                (VCpuState::Stopped, VCpuState::Ready) => true,
                (VCpuState::Ready, VCpuState::Running) => true,
                (VCpuState::Ready, VCpuState::Stopped) => true,
                (VCpuState::Running, VCpuState::Ready) => true,
                (VCpuState::Running, VCpuState::Blocked) => true,
                (VCpuState::Running, VCpuState::Stopped) => true,
                (VCpuState::Blocked, VCpuState::Ready) => true,
                (VCpuState::Blocked, VCpuState::Stopped) => true,
                _ => false,
            };
            after == if vcpu.state == from && is_transition {
                VCpuView { state: to, ..vcpu }
            } else {
                vcpu
            }
        }),
{
}

/// What is pending for a vCPU stays in the order in which it came, no more than
/// sixty-four at a time.  A new interrupt is the last; where there is no room, the oldest
/// makes room for it.  Only the virtual timer's, where it is pending already, stays in its
/// place.
pub proof fn lemma_pending_order(vcpu: VCpuView, irq: usize, is_hardware: bool, k: int)
    requires
        vcpu.wf(),
        0 <= k < vcpu.pending.len(),
    ensures
        ({
            let before = vcpu.pending;
            let after = vcpu.with_irq(irq, is_hardware).pending;
            let new = PendingIrq { irq_id: irq, is_hardware };
            let renews = irq == 27 && exists|i: int|
                0 <= i < before.len() && (#[trigger] before[i]).irq_id == 27;
            &&& after.len() <= 64
            &&& renews ==> after.len() == before.len() && after[k] == if before[k].irq_id == 27 {
                new
            } else {
                before[k]
            }
            &&& !renews ==> after.last() == new
            &&& !renews && before.len() < 64 ==> after.len() == before.len() + 1 && after[k]
                == before[k]
            &&& !renews && before.len() == 64 ==> after.len() == 64 && (k > 0 ==> after[k - 1]
                == before[k])
        }),
{
    let before = vcpu.pending;
    let at = crate::vcpu::irq_position(before, irq, 0);
    crate::vcpu::lemma_irq_position(before, irq, 0);
    if irq == 27 {
        if exists|i: int| 0 <= i < before.len() && (#[trigger] before[i]).irq_id == 27 {
            let i = choose|i: int| 0 <= i < before.len() && (#[trigger] before[i]).irq_id == 27;
            assert(at < before.len());
            assert(before[at].irq_id == 27);
            if before[k].irq_id == 27 && k != at {
                assert(k < at || at < k);
            }
        }
    }
}

/// A list register for an interrupt says that it is pending and of the guest's group, and
/// has its number; where a device raised it, it is tied to the physical interrupt of the
/// same number, so that the guest's end of it reaches the device.
pub proof fn lemma_list_register(irq: usize, is_hardware: bool)
    requires
        irq < 1024,
    ensures
        ({
            let lr = crate::device::irqchip::gicv3::lr_value(irq, is_hardware);
            let tied = is_hardware && irq >= 16;
            &&& lr & 0xffff_ffff == irq as u64
            &&& lr >> 62 == 1
            &&& (lr >> 60) & 1 == 1
            &&& ((lr >> 61) & 1 == 1) == tied
            &&& (lr >> 32) & 0x3ff == if tied {
                irq as u64
            } else {
                0
            }
        }),
{
    let v = irq as u64;
    let tied = is_hardware && irq >= 16;
    assert(({
        let base = v | 0x1000_0000_0000_0000u64 | 0x4000_0000_0000_0000u64;
        let lr = if tied {
            base | 0x2000_0000_0000_0000u64 | (v << 32)
        } else {
            base
        };
        &&& lr & 0xffff_ffff == v
        &&& lr >> 62 == 1
        &&& (lr >> 60) & 1 == 1
        &&& ((lr >> 61) & 1 == 1) == tied
        &&& (lr >> 32) & 0x3ff == if tied {
            v
        } else {
            0
        }
    })) by (bit_vector)
        requires
            v < 1024,
    ;
}

/// Which vCPU is selected: the oldest of the highest priority that has any, where every
/// tenth selection counts those of the lowest priority, after the others, among the next
/// higher.
pub proof fn lemma_selected(sched: SchedView)
    requires
        sched.wf(),
    ensures
        ({
            let queues = sched.run_queue;
            let raised = sched.starvation >= 9;
            let third = if raised {
                queues[2] + queues[3]
            } else {
                queues[2]
            };
            sched.picked() == if queues[0].len() > 0 {
                Some(queues[0][0])
            } else if queues[1].len() > 0 {
                Some(queues[1][0])
            } else if third.len() > 0 {
                Some(third[0])
            } else if queues[3].len() > 0 {
                Some(queues[3][0])
            } else {
                None
            }
        }),
{
}

/// How the selections of the other priorities are counted: each adds one, and the count
/// begins anew when the lowest priority was served or raised.
pub proof fn lemma_selections_counted(sched: SchedView)
    requires
        sched.wf(),
    ensures
        ({
            let after = sched.after_pick();
            let queues = sched.run_queue;
            let lowest = queues[0].len() + queues[1].len() + queues[2].len() == 0
                && queues[3].len() > 0;
            after.starvation == if sched.starvation >= 9 || lowest {
                0
            } else {
                sched.starvation + 1
            }
        }),
{
}

/// A vCPU is queued by its priority, the highest being zero; priorities beyond the lowest
/// count as the lowest.  It is the last of its queue, and no other queue changes.
pub proof fn lemma_queued_by_priority(sched: SchedView, id: usize, priority: u8)
    requires
        sched.wf(),
    ensures
        ({
            let after = sched.enqueued(id, priority);
            let p = if priority >= 3 {
                3int
            } else {
                priority as int
            };
            &&& after.run_queue[p] == sched.run_queue[p].push(id)
            &&& forall|q: int| 0 <= q < 4 && q != p ==> #[trigger] after.run_queue[q]
                == sched.run_queue[q]
            &&& after == (SchedView { run_queue: after.run_queue, ..sched })
        }),
{
}

/// Taking a vCPU off the blocked list takes the oldest entry of that vCPU, and no other.
pub proof fn lemma_unblocked(sched: SchedView, id: usize, k: int)
    requires
        0 <= k < sched.blocked.len(),
        sched.blocked[k].vcpu == id,
        forall|j: int| 0 <= j < k ==> (#[trigger] sched.blocked[j]).vcpu != id,
    ensures
        sched.without_blocked(id) == (SchedView { blocked: sched.blocked.remove(k), ..sched }),
{
    crate::scheduler::lemma_blocked_position(sched.blocked, id, 0);
    let at = crate::scheduler::blocked_position(sched.blocked, id, 0);
    if at < k {
        assert(sched.blocked[at].vcpu != id);
    }
    assert(sched.blocked[k].vcpu == id);
}

/// A vCPU that is put on the pCPU it is bound to is in a run queue there and not in the
/// blocked list any more; the pCPU schedules, and is told so if it is another one.
pub proof fn lemma_placed(sys: Sys, cpu: usize, id: usize)
    requires
        sys.hv.wf(),
        cpu < sys.hv.cpus.len(),
        sys.hv.vcpus.contains_key(id),
    ensures
        ({
            let home = sys.hv.vcpus[id].affinity->0;
            let after = sys.placed(cpu, id);
            &&& after.hv.cpus[home as int].sched.queued(id)
            &&& after.hv.cpus[home as int].need_resched
            &&& home != cpu ==> crate::laws::routing::told_to_schedule(after, home)
            &&& home == cpu ==> after.hw == sys.hw && after.hv.events == sys.hv.events
            &&& after.hv.vcpus == sys.hv.vcpus
            &&& forall|other: int|
                0 <= other < sys.hv.cpus.len() && other != home ==> #[trigger] after.hv.cpus[other]
                    == sys.hv.cpus[other]
        }),
{
    crate::hypervisor::lemma_vcpu_ok(sys.hv, id);
    crate::hypervisor::lemma_wf_sizes(sys.hv);
    let home = sys.hv.vcpus[id].affinity->0;
    crate::hypervisor::lemma_cpu_ok(sys.hv, home);
    crate::laws::ready::lemma_enqueued(
        sys.hv.cpus[home as int].sched.without_blocked(id),
        id,
        sys.hv.vcpus[id].priority,
    );
}

/// A vCPU that is sent to a pCPU is the last on its way there, and the pCPU is told.
pub proof fn lemma_delivered(sys: Sys, target: usize, id: usize)
    requires
        sys.hv.wf(),
        target < sys.hv.cpus.len(),
    ensures
        ({
            let after = sys.delivered(target, id);
            let before = sys.hv.cpus[target as int];
            let now = after.hv.cpus[target as int];
            &&& now.incoming == before.incoming.push(id)
            &&& now.sched == before.sched
            &&& after.hv.events[target as int] == sys.hv.events[target as int].push(8)
            &&& after.hw.ops == sys.hw.ops.push(Op::RaiseSgi { cpu: target, sgi: 7 })
            &&& after.hv.vcpus == sys.hv.vcpus
            &&& forall|other: int|
                0 <= other < sys.hv.cpus.len() && other != target
                    ==> #[trigger] after.hv.cpus[other] == sys.hv.cpus[other]
                    && after.hv.events[other] == sys.hv.events[other]
        }),
{
    crate::hypervisor::lemma_wf_sizes(sys.hv);
}

/// A pCPU that waited for its guest takes in what has arrived, and schedules if any vCPU
/// is ready.
pub proof fn lemma_wait_ended(hv: HvView, cpu: usize, id: usize)
    requires
        hv.wf(),
        cpu < hv.cpus.len(),
    ensures
        ({
            let after = hv.wfi_resumed(cpu);
            let pc = hv.cpus[cpu as int];
            let now = after.cpus[cpu as int];
            &&& now.incoming.len() == 0
            &&& pc.incoming.contains(id) || pc.sched.queued(id) ==> now.sched.queued(id)
            &&& now.sched.ready_count() > 0 ==> now.need_resched
            &&& now.sched.ready_count() == 0 ==> now.need_resched == pc.need_resched
            &&& after.vcpus == hv.vcpus
        }),
{
    broadcast use vstd::multiset::group_multiset_axioms;

    crate::hypervisor::lemma_cpu_ok(hv, cpu);
    crate::laws::turns::lemma_arrivals_queued(hv, cpu);
    let incoming = hv.cpus[cpu as int].incoming;
    incoming.to_multiset_ensures();
    let drained = hv.incoming_drained(cpu).cpus[cpu as int].sched;
    crate::laws::turns::lemma_ready_is_queued(drained, id);
    crate::laws::turns::lemma_ready_is_queued(hv.cpus[cpu as int].sched, id);
    if incoming.contains(id) {
        assert(incoming.to_multiset().count(id) > 0);
    }
}

/// The counts in a time add up: in a second there are as many as the frequency says, and
/// in a longer time there are no fewer.
pub proof fn lemma_counts(freq: u64, us: u64, more: u64)
    requires
        us <= more,
    ensures
        crate::arch::aarch64::timer::counts_in(freq, 1_000_000) == freq,
        crate::arch::aarch64::timer::counts_in(freq, us) <= crate::arch::aarch64::timer::counts_in(
            freq,
            more,
        ),
        crate::arch::aarch64::timer::counts_in(freq, us) * 1_000_000 <= freq * us,
        freq * us < (crate::arch::aarch64::timer::counts_in(freq, us) + 1) * 1_000_000,
{
    assert(freq * us <= freq * more) by (nonlinear_arith)
        requires
            us <= more,
    ;
    assert(freq * 1_000_000 / 1_000_000 == freq) by (nonlinear_arith);
}

/// At first there is nothing: no zone, no vCPU, no event, and every pCPU is off and
/// belongs to no zone.
pub proof fn lemma_nothing_at_first(
    cpus: nat,
    gic: crate::device::irqchip::gicv3::Gic,
    gicr_bases: Seq<usize>,
    board: crate::hypervisor::Board,
    c: int,
)
    requires
        0 <= c < cpus <= 64,
    ensures
        ({
            let hv = HvView::initial(cpus, gic, gicr_bases, board);
            let pc = hv.cpus[c];
            &&& hv.cpus.len() == cpus
            &&& pc.id == c
            &&& pc.zone is None
            &&& pc.current_vcpu is None
            &&& !pc.power_on
            &&& !pc.need_resched
            &&& !pc.boot_cpu
            &&& pc.cpu_on_entry == u64::MAX
            &&& pc.incoming.len() == 0
            &&& pc.sched.current is None
            &&& pc.sched.ready_count() == 0
            &&& pc.sched.blocked.len() == 0
            &&& hv.events[c].len() == 0
            &&& hv.virtio.irqs[c].len() == 0
            &&& hv.virtio.base_addr is None
            &&& forall|id: usize| !#[trigger] hv.vcpus.contains_key(id)
            &&& forall|zone: usize| !#[trigger] hv.zones.contains_key(zone)
            &&& hv.zone_list.len() == 0
            &&& forall|id: usize| !#[trigger] hv.ids.in_use(id)
            &&& hv.gicr_bases == gicr_bases
        }),
{
}

/// An error of a guest marks its zone, and nothing else.
pub proof fn lemma_failed_zone_marked(hv: HvView, cpu: usize, other: usize)
    requires
        hv.has_zone(cpu),
        hv.zones.contains_key(hv.cpus[cpu as int].zone->0),
    ensures
        ({
            let zone = hv.cpus[cpu as int].zone->0;
            let after = hv.zone_failed(cpu);
            &&& after.zones[zone].is_err
            &&& after.zones[zone].inner == hv.zones[zone].inner
            &&& after.zones[zone].id == hv.zones[zone].id
            &&& other != zone ==> after.zones[other] == hv.zones[other]
            &&& after == (HvView { zones: after.zones, ..hv })
        }),
{
}

/// What is reported of a zone: its number, its name, a bit for each of its pCPUs, and
/// whether it has failed.
pub proof fn lemma_zone_reported(
    info: crate::zone::ZoneInfo,
    zone: crate::zone::ZoneView,
    cpu: usize,
)
    requires
        info.describes(zone),
        zone.id <= u32::MAX,
        cpu < 64,
    ensures
        info.zone_id == zone.id,
        info.name@ == zone.name,
        info.is_err != 0 <==> zone.is_err,
        info.cpus & (1u64 << (cpu as u64)) != 0 <==> zone.inner.cpu_set.has(cpu),
{
}

} // verus!

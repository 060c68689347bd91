//! No ready vCPU is lost.
//!
//! A ready vCPU is in a run queue of the pCPU that it is bound to, or on its way there.
//! Whatever happens to the vCPUs short of taking their zone down, that stays so, and
//! with it stays that a ready vCPU will get its turn.

use vstd::prelude::*;
use crate::arch::aarch64::trap::{PSCI_CPU_ON_32, PSCI_CPU_ON_64};
use crate::cpu_data::{PendingWake, PerCpuView};
use crate::device::irqchip::gicv3::{Gic, IrqStep};
use crate::event::{EventOutcome, EventStep, IPI_EVENT_ZONE_SHUTDOWN};
use crate::hypervisor::{Board, HvView, Sys};
use crate::scheduler::{SchedOutcome, SchedView, WakeView};
use crate::vcpu::{PendingIrq, VCpuState, VCpuView};

verus! {

/// vCPU `id` is in a run queue of a pCPU, or on its way there.
pub open spec fn holds(pc: PerCpuView, id: usize) -> bool {
    pc.sched.queued(id) || pc.incoming.contains(id)
}

/// vCPU `id` is ready and bound to pCPU `home`, but that pCPU does not hold it.
pub open spec fn lost(hv: HvView, id: usize, home: usize) -> bool {
    &&& hv.vcpus.contains_key(id)
    &&& hv.vcpus[id].state == VCpuState::Ready
    &&& hv.vcpus[id].affinity == Some(home)
    &&& home < hv.cpus.len()
    &&& !holds(hv.cpus[home as int], id)
}

/// No ready vCPU is lost.
pub open spec fn none_lost(hv: HvView) -> bool {
    forall|id: usize, home: usize| !#[trigger] lost(hv, id, home)
}

/// At first no ready vCPU is lost.
pub proof fn lemma_none_lost_at_first(cpus: nat, gic: Gic, gicr_bases: Seq<usize>, board: Board)
    ensures
        none_lost(HvView::initial(cpus, gic, gicr_bases, board)),
{
}

/// No ready vCPU is lost but for some that are bound to pCPU `cpu`.
spec fn only_lost(hv: HvView, cpu: usize, ids: Seq<usize>) -> bool {
    forall|id: usize, home: usize| #[trigger]
        lost(hv, id, home) ==> home == cpu && ids.contains(id)
}

// ---------------------------------------------------------------------------
// Run queues
// ---------------------------------------------------------------------------

/// A vCPU that is enqueued is queued, and those that were queued still are.
pub proof fn lemma_enqueued(sched: SchedView, id: usize, priority: u8)
    requires
        sched.wf(),
    ensures
        sched.enqueued(id, priority).queued(id),
        forall|other: usize|
            sched.queued(other) ==> #[trigger] sched.enqueued(id, priority).queued(other),
{
    let after = sched.enqueued(id, priority);
    let p = crate::scheduler::queue_of(priority);
    assert(after.run_queue[p][sched.run_queue[p].len() as int] == id);
    crate::scheduler::lemma_queued_at(after, id);
    assert forall|other: usize| sched.queued(other) implies #[trigger] after.queued(other) by {
        crate::scheduler::lemma_queued_at(sched, other);
        crate::scheduler::lemma_queued_at(after, other);
        let (q, i) = choose|q: int, i: int|
            0 <= q < 4 && 0 <= i < sched.run_queue[q].len() && #[trigger] sched.run_queue[q][i]
                == other;
        assert(after.run_queue[q][i] == other);
    }
}

/// Counting a selection keeps every vCPU queued.
proof fn lemma_counted(sched: SchedView, id: usize)
    requires
        sched.wf(),
        sched.queued(id),
    ensures
        sched.counted().queued(id),
{
    let after = sched.counted();
    crate::scheduler::lemma_queued_at(sched, id);
    crate::scheduler::lemma_queued_at(after, id);
    let (q, i) = choose|q: int, i: int|
        0 <= q < 4 && 0 <= i < sched.run_queue[q].len() && #[trigger] sched.run_queue[q][i] == id;
    if q == 3 && sched.starvation + 1 >= crate::scheduler::STARVATION_THRESHOLD {
        assert(after.run_queue[2][sched.run_queue[2].len() + i] == id);
    } else {
        assert(after.run_queue[q][i] == id);
    }
}

/// A selection keeps every vCPU queued but the one that is selected.
proof fn lemma_picked(sched: SchedView, id: usize)
    requires
        sched.wf(),
        sched.queued(id),
        sched.picked() != Some(id),
    ensures
        sched.after_pick().queued(id),
{
    let counted = sched.counted();
    let after = sched.after_pick();
    let top = counted.top();
    lemma_counted(sched, id);
    crate::scheduler::lemma_queued_at(counted, id);
    crate::scheduler::lemma_queued_at(after, id);
    let (q, i) = choose|q: int, i: int|
        0 <= q < 4 && 0 <= i < counted.run_queue[q].len() && #[trigger] counted.run_queue[q][i]
            == id;
    if q == top {
        assert(i > 0);
        assert(after.run_queue[q][i - 1] == id);
    } else {
        assert(after.run_queue[q][i] == id);
    }
}

// ---------------------------------------------------------------------------
// Single steps
// ---------------------------------------------------------------------------

/// Changing what is kept for one pCPU, so that it still holds what it held.
proof fn lemma_cpu_step(hv: HvView, cpu: usize, pc: PerCpuView)
    requires
        hv.wf(),
        cpu < hv.cpus.len(),
        hv.cpu_ok(cpu, pc),
        forall|id: usize| #[trigger] holds(hv.cpus[cpu as int], id) ==> holds(pc, id),
    ensures
        hv.with_cpu(cpu, pc).wf(),
        none_lost(hv) ==> none_lost(hv.with_cpu(cpu, pc)),
        forall|id: usize, home: usize| #[trigger]
            lost(hv.with_cpu(cpu, pc), id, home) ==> lost(hv, id, home),
{
    crate::hypervisor::lemma_wf_cpu(hv, cpu, pc);
    let after = hv.with_cpu(cpu, pc);
    assert forall|id: usize, home: usize| #[trigger] lost(after, id, home) implies lost(
        hv,
        id,
        home,
    ) by {}
}

/// Changing a vCPU that does not become ready.
proof fn lemma_vcpu_step(hv: HvView, id: usize, vcpu: VCpuView)
    requires
        hv.wf(),
        hv.vcpus.contains_key(id),
        vcpu.id == id,
        vcpu.zone == hv.vcpus[id].zone,
        vcpu.affinity == hv.vcpus[id].affinity,
        vcpu.wf(),
        vcpu.state == VCpuState::Ready ==> hv.vcpus[id].state == VCpuState::Ready,
    ensures
        hv.with_vcpu(id, vcpu).wf(),
        none_lost(hv) ==> none_lost(hv.with_vcpu(id, vcpu)),
{
    crate::hypervisor::lemma_wf_vcpu(hv, id, vcpu);
    let after = hv.with_vcpu(id, vcpu);
    assert forall|other: usize, home: usize| #[trigger] lost(after, other, home) implies lost(
        hv,
        other,
        home,
    ) by {}
}

/// Making an interrupt pending.
proof fn lemma_pended(hv: HvView, id: usize, irq: usize, is_hardware: bool)
    requires
        hv.wf(),
        none_lost(hv),
        hv.vcpus.contains_key(id),
    ensures
        hv.irq_pended(id, irq, is_hardware).wf(),
        none_lost(hv.irq_pended(id, irq, is_hardware)),
        hv.irq_pended(id, irq, is_hardware).vcpus.dom() == hv.vcpus.dom(),
{
    crate::hypervisor::lemma_vcpu_ok(hv, id);
    crate::hypervisor::lemma_wf_irq(hv.vcpus[id], irq, is_hardware);
    lemma_vcpu_step(hv, id, hv.vcpus[id].with_irq(irq, is_hardware));
    assert(hv.irq_pended(id, irq, is_hardware).vcpus.dom() =~= hv.vcpus.dom());
}

/// Asking a vCPU to leave the running state for another than the ready one.
proof fn lemma_tried(hv: HvView, id: usize, from: VCpuState, to: VCpuState)
    requires
        hv.wf(),
        none_lost(hv),
        hv.vcpus.contains_key(id),
        to != VCpuState::Ready,
    ensures
        hv.tried(id, from, to).wf(),
        none_lost(hv.tried(id, from, to)),
{
    crate::hypervisor::lemma_vcpu_ok(hv, id);
    lemma_vcpu_step(hv, id, hv.vcpus[id].tried(from, to));
}

/// Telling a pCPU to schedule.
proof fn lemma_resched(hv: HvView, cpu: usize)
    requires
        hv.wf(),
        none_lost(hv),
        cpu < hv.cpus.len(),
    ensures
        hv.resched(cpu).wf(),
        none_lost(hv.resched(cpu)),
{
    crate::hypervisor::lemma_cpu_ok(hv, cpu);
    lemma_cpu_step(hv, cpu, PerCpuView { need_resched: true, ..hv.cpus[cpu as int] });
}

/// Queueing or taking off an event.
proof fn lemma_events(hv: HvView, events: Seq<Seq<usize>>)
    requires
        hv.wf(),
        none_lost(hv),
        events.len() == hv.events.len(),
    ensures
        (HvView { events, ..hv }).wf(),
        none_lost(HvView { events, ..hv }),
{
    crate::hypervisor::lemma_wf_events(hv, events);
    let after = HvView { events, ..hv };
    assert forall|id: usize, home: usize| !#[trigger] lost(after, id, home) by {
        assert(!lost(hv, id, home));
    }
}

/// Moving a vCPU to the run queue of its pCPU, where it is no longer lost.
proof fn lemma_moved(hv: HvView, cpu: usize, id: usize, rest: Seq<usize>)
    requires
        hv.wf(),
        cpu < hv.cpus.len(),
        crate::hypervisor::bound(hv.vcpus, id, cpu),
        only_lost(hv, cpu, seq![id] + rest),
    ensures
        hv.moved_to_queue(cpu, id).wf(),
        hv.moved_to_queue(cpu, id).vcpus == hv.vcpus,
        hv.moved_to_queue(cpu, id).cpus.len() == hv.cpus.len(),
        hv.moved_to_queue(cpu, id).cpus[cpu as int].sched.current
            == hv.cpus[cpu as int].sched.current,
        only_lost(hv.moved_to_queue(cpu, id), cpu, rest),
{
    let pc = hv.cpus[cpu as int];
    crate::hypervisor::lemma_cpu_ok(hv, cpu);
    crate::hypervisor::lemma_without_blocked_bound(pc.sched, hv.vcpus, cpu, id);
    let free = pc.sched.without_blocked(id);
    let one = hv.unblocked(cpu, id);
    lemma_cpu_step(hv, cpu, pc.with_sched(free));
    crate::hypervisor::lemma_enqueued_bound(free, hv.vcpus, cpu, id, hv.vcpus[id].priority);
    lemma_enqueued(free, id, hv.vcpus[id].priority);
    let queued = one.cpus[cpu as int].with_sched(free.enqueued(id, hv.vcpus[id].priority));
    lemma_cpu_step(one, cpu, queued);
    let two = hv.moved_to_queue(cpu, id);
    assert(two == one.with_cpu(cpu, queued));
    assert forall|other: usize, home: usize| #[trigger] lost(two, other, home) implies home == cpu
        && rest.contains(other) by {
        assert(lost(one, other, home));
        assert(lost(hv, other, home));
        assert((seq![id] + rest).contains(other));
        assert(other != id);
        let all = seq![id] + rest;
        let k = choose|k: int| 0 <= k < all.len() && all[k] == other;
        assert(rest[k - 1] == other);
    }
}

/// Waking a vCPU on its pCPU.
proof fn lemma_woken(hv: HvView, cpu: usize, id: usize)
    requires
        hv.wf(),
        none_lost(hv),
        cpu < hv.cpus.len(),
        crate::hypervisor::bound(hv.vcpus, id, cpu),
    ensures
        hv.woken(cpu, id).wf(),
        none_lost(hv.woken(cpu, id)),
        hv.woken(cpu, id).cpus.len() == hv.cpus.len(),
{
    if hv.vcpus[id].moves(VCpuState::Blocked, VCpuState::Ready) {
        let ready = hv.tried(id, VCpuState::Blocked, VCpuState::Ready);
        crate::hypervisor::lemma_vcpu_ok(hv, id);
        crate::hypervisor::lemma_wf_vcpu(hv, id, ready.vcpus[id]);
        assert forall|other: usize, home: usize| #[trigger]
            lost(ready, other, home) implies home == cpu && (seq![id] + Seq::<
            usize,
        >::empty()).contains(other) by {
            assert(!lost(hv, other, home));
            assert((seq![id] + Seq::<usize>::empty())[0] == id);
        }
        lemma_moved(ready, cpu, id, Seq::empty());
        let woken = hv.woken(cpu, id);
        assert forall|other: usize, home: usize| !#[trigger] lost(woken, other, home) by {
            if lost(woken, other, home) {
                assert(Seq::<usize>::empty().contains(other));
            }
        }
    }
}

// ---------------------------------------------------------------------------
// vCPUs that arrive, and requests to wake
// ---------------------------------------------------------------------------

proof fn lemma_arrived(hv: HvView, cpu: usize, arrivals: Seq<usize>)
    requires
        hv.wf(),
        cpu < hv.cpus.len(),
        only_lost(hv, cpu, arrivals),
        forall|i: int|
            0 <= i < arrivals.len() ==> crate::hypervisor::bound(
                hv.vcpus,
                #[trigger] arrivals[i],
                cpu,
            ),
    ensures
        hv.arrived(cpu, arrivals).wf(),
        hv.arrived(cpu, arrivals).vcpus == hv.vcpus,
        hv.arrived(cpu, arrivals).cpus.len() == hv.cpus.len(),
        hv.arrived(cpu, arrivals).cpus[cpu as int].sched.current
            == hv.cpus[cpu as int].sched.current,
        none_lost(hv.arrived(cpu, arrivals)),
    decreases arrivals.len(),
{
    if arrivals.len() == 0 {
        assert forall|id: usize, home: usize| !#[trigger] lost(hv, id, home) by {
            if lost(hv, id, home) {
                assert(arrivals.contains(id));
            }
        }
    } else {
        let rest = arrivals.subrange(1, arrivals.len() as int);
        assert(arrivals =~= seq![arrivals[0]] + rest);
        lemma_moved(hv, cpu, arrivals[0], rest);
        let next = hv.moved_to_queue(cpu, arrivals[0]);
        assert forall|i: int| 0 <= i < rest.len() implies crate::hypervisor::bound(
            next.vcpus,
            #[trigger] rest[i],
            cpu,
        ) by {
            assert(rest[i] == arrivals[i + 1]);
        }
        lemma_arrived(next, cpu, rest);
    }
}

/// Taking in the vCPUs that were sent to a pCPU.
proof fn lemma_incoming(hv: HvView, cpu: usize)
    requires
        hv.wf(),
        none_lost(hv),
        cpu < hv.cpus.len(),
    ensures
        hv.incoming_drained(cpu).wf(),
        hv.incoming_drained(cpu).vcpus == hv.vcpus,
        hv.incoming_drained(cpu).cpus.len() == hv.cpus.len(),
        hv.incoming_drained(cpu).cpus[cpu as int].sched.current
            == hv.cpus[cpu as int].sched.current,
        none_lost(hv.incoming_drained(cpu)),
{
    let pc = hv.cpus[cpu as int];
    let empty = PerCpuView { incoming: Seq::empty(), ..pc };
    let taken = hv.with_cpu(cpu, empty);
    crate::hypervisor::lemma_cpu_ok(hv, cpu);
    crate::hypervisor::lemma_wf_cpu(hv, cpu, empty);
    assert forall|id: usize, home: usize| #[trigger] lost(taken, id, home) implies home == cpu
        && pc.incoming.contains(id) by {
        assert(!lost(hv, id, home));
    }
    lemma_arrived(taken, cpu, pc.incoming);
}

proof fn lemma_wake_met(hv: HvView, cpu: usize, wake: PendingWake)
    requires
        hv.wf(),
        none_lost(hv),
        cpu < hv.cpus.len(),
    ensures
        hv.wake_met(cpu, wake).wf(),
        none_lost(hv.wake_met(cpu, wake)),
        hv.wake_met(cpu, wake).cpus.len() == hv.cpus.len(),
{
    let id = wake.vcpu_id;
    let sched = hv.cpus[cpu as int].sched;
    crate::hypervisor::lemma_cpu_ok(hv, cpu);
    if sched.waits(id) {
        let i = choose|i: int| 0 <= i < sched.blocked.len() && #[trigger] sched.blocked[i].vcpu == id;
        assert(crate::hypervisor::bound(hv.vcpus, sched.blocked[i].vcpu, cpu));
        lemma_pended(hv, id, wake.irq_id, wake.is_hardware);
        lemma_woken(hv.irq_pended(id, wake.irq_id, wake.is_hardware), cpu, id);
    } else if sched.queued(id) {
        crate::scheduler::lemma_queued_at(sched, id);
        let (p, i) = choose|p: int, i: int|
            0 <= p < 4 && 0 <= i < sched.run_queue[p].len() && #[trigger] sched.run_queue[p][i]
                == id;
        assert(crate::hypervisor::bound(hv.vcpus, sched.run_queue[p][i], cpu));
        lemma_pended(hv, id, wake.irq_id, wake.is_hardware);
    }
}

proof fn lemma_wakes_met(hv: HvView, cpu: usize, wakes: Seq<PendingWake>)
    requires
        hv.wf(),
        none_lost(hv),
        cpu < hv.cpus.len(),
    ensures
        hv.wakes_met(cpu, wakes).wf(),
        none_lost(hv.wakes_met(cpu, wakes)),
        hv.wakes_met(cpu, wakes).cpus.len() == hv.cpus.len(),
    decreases wakes.len(),
{
    if wakes.len() > 0 {
        lemma_wake_met(hv, cpu, wakes[0]);
        lemma_wakes_met(
            hv.wake_met(cpu, wakes[0]),
            cpu,
            wakes.subrange(1, wakes.len() as int),
        );
    }
}

// ---------------------------------------------------------------------------
// Blocked vCPUs
// ---------------------------------------------------------------------------

proof fn lemma_wake_at(hv: HvView, cpu: usize, w: WakeView, i: int, timer: bool)
    requires
        hv.wf(),
        cpu < hv.cpus.len(),
        crate::hypervisor::sched_bound(w.sched, w.vcpus, cpu),
        none_lost(hv.after_wake(cpu, w)),
        0 <= i < w.sched.blocked.len(),
    ensures
        none_lost(hv.after_wake(cpu, w.wake_at(i, timer))),
{
    let id = w.sched.blocked[i].vcpu;
    let next = w.wake_at(i, timer);
    let before = hv.after_wake(cpu, w);
    let after = hv.after_wake(cpu, next);
    let rest = w.sched.without_blocked_at(i);
    assert(crate::hypervisor::bound(w.vcpus, id, cpu));
    lemma_enqueued(rest, id, w.vcpus[id].priority);
    assert forall|other: usize, home: usize| !#[trigger] lost(after, other, home) by {
        assert(!lost(before, other, home));
        if lost(after, other, home) && home == cpu {
            if other != id {
                assert(w.sched.queued(other) ==> rest.queued(other));
            }
        }
    }
}

proof fn lemma_timers(hv: HvView, cpu: usize, w: WakeView, now: u64, tick: u64, i: int)
    requires
        hv.wf(),
        cpu < hv.cpus.len(),
        crate::hypervisor::sched_bound(w.sched, w.vcpus, cpu),
        none_lost(hv.after_wake(cpu, w)),
        0 <= i,
    ensures
        none_lost(hv.after_wake(cpu, w.timers_checked(now, tick, i))),
    decreases w.sched.blocked.len() - i,
{
    if i < w.sched.blocked.len() {
        let entry = w.sched.blocked[i];
        if entry.expired(now) {
            lemma_wake_at(hv, cpu, w, i, true);
            crate::hypervisor::lemma_wake_at_ok(w, i, true, cpu);
            lemma_timers(hv, cpu, w.wake_at(i, true), now, tick, i);
        } else if entry.timed_out(w.vcpus[entry.vcpu].pending.len() > 0, now, tick) {
            lemma_wake_at(hv, cpu, w, i, false);
            crate::hypervisor::lemma_wake_at_ok(w, i, false, cpu);
            lemma_timers(hv, cpu, w.wake_at(i, false), now, tick, i);
        } else {
            lemma_timers(hv, cpu, w, now, tick, i + 1);
        }
    }
}

proof fn lemma_pending(hv: HvView, cpu: usize, w: WakeView, i: int)
    requires
        hv.wf(),
        cpu < hv.cpus.len(),
        crate::hypervisor::sched_bound(w.sched, w.vcpus, cpu),
        none_lost(hv.after_wake(cpu, w)),
        0 <= i,
    ensures
        none_lost(hv.after_wake(cpu, w.pending_woken(i))),
    decreases w.sched.blocked.len() - i,
{
    if i < w.sched.blocked.len() {
        if w.vcpus[w.sched.blocked[i].vcpu].pending.len() > 0 {
            lemma_wake_at(hv, cpu, w, i, false);
            crate::hypervisor::lemma_wake_at_ok(w, i, false, cpu);
            lemma_pending(hv, cpu, w.wake_at(i, false), i);
        } else {
            lemma_pending(hv, cpu, w, i + 1);
        }
    }
}

/// Before anything was woken, nothing is lost either.
proof fn lemma_wake_view(hv: HvView, cpu: usize)
    requires
        none_lost(hv),
        cpu < hv.cpus.len(),
    ensures
        none_lost(hv.after_wake(cpu, hv.wake_view(cpu))),
{
    let after = hv.after_wake(cpu, hv.wake_view(cpu));
    assert forall|id: usize, home: usize| !#[trigger] lost(after, id, home) by {
        assert(!lost(hv, id, home));
    }
}

/// Waking the blocked vCPUs that have something pending.
proof fn lemma_pending_checked(hv: HvView, cpu: usize)
    requires
        hv.wf(),
        none_lost(hv),
        cpu < hv.cpus.len(),
    ensures
        hv.pending_checked(cpu).wf(),
        none_lost(hv.pending_checked(cpu)),
{
    crate::hypervisor::lemma_cpu_ok(hv, cpu);
    let w = hv.wake_view(cpu);
    lemma_wake_view(hv, cpu);
    lemma_pending(hv, cpu, w, 0);
    crate::hypervisor::lemma_pending_woken_ok(w, 0, cpu);
    crate::hypervisor::lemma_after_wake_wf(hv, cpu, w.pending_woken(0));
}

// ---------------------------------------------------------------------------
// Interrupts
// ---------------------------------------------------------------------------

proof fn lemma_injected(sys: Sys, cpu: usize, irq: usize, is_hardware: bool)
    requires
        sys.hv.wf(),
        none_lost(sys.hv),
        cpu < sys.hv.cpus.len(),
    ensures
        sys.injected(cpu, irq, is_hardware).hv.wf(),
        none_lost(sys.injected(cpu, irq, is_hardware).hv),
        sys.injected(cpu, irq, is_hardware).hv.cpus == sys.hv.cpus,
        sys.injected(cpu, irq, is_hardware).hv.vcpus.dom() == sys.hv.vcpus.dom(),
{
    crate::hypervisor::lemma_cpu_ok(sys.hv, cpu);
    if let Some(id) = sys.hv.cpus[cpu as int].sched.current {
        lemma_pended(sys.hv, id, irq, is_hardware);
    }
}

proof fn lemma_pended_and_woken(hv: HvView, cpu: usize, id: usize, irq: usize, is_hardware: bool)
    requires
        hv.wf(),
        none_lost(hv),
        cpu < hv.cpus.len(),
        crate::hypervisor::bound(hv.vcpus, id, cpu),
    ensures
        hv.irq_pended_and_woken(cpu, id, irq, is_hardware).wf(),
        none_lost(hv.irq_pended_and_woken(cpu, id, irq, is_hardware)),
        hv.irq_pended_and_woken(cpu, id, irq, is_hardware).cpus.len() == hv.cpus.len(),
{
    let pended = hv.irq_pended(id, irq, is_hardware);
    lemma_pended(hv, id, irq, is_hardware);
    lemma_woken(pended, cpu, id);
    lemma_resched(pended.woken(cpu, id), cpu);
}

proof fn lemma_sent(sys: Sys, cpu: usize, sgi: usize, event: usize)
    requires
        sys.hv.wf(),
        none_lost(sys.hv),
    ensures
        sys.sent(cpu, sgi, event).hv.wf(),
        none_lost(sys.sent(cpu, sgi, event).hv),
{
    lemma_events(sys.hv, crate::event::events_with(sys.hv.events, cpu, event));
}

proof fn lemma_routed(sys: Sys, cpu: usize, irq: usize, is_hardware: bool)
    requires
        sys.hv.wf(),
        none_lost(sys.hv),
        cpu < sys.hv.cpus.len(),
    ensures
        sys.routed(cpu, irq, is_hardware).hv.wf(),
        none_lost(sys.routed(cpu, irq, is_hardware).hv),
        sys.routed(cpu, irq, is_hardware).hv.cpus.len() == sys.hv.cpus.len(),
{
    let hv = sys.hv;
    let pc = hv.cpus[cpu as int];
    crate::hypervisor::lemma_cpu_ok(hv, cpu);
    match hv.routed_elsewhere(cpu, irq) {
        Some(target) => {
            let zone = pc.zone->0;
            crate::hypervisor::lemma_zone_ok(hv, zone);
            let vcpus = hv.zones[zone].inner.vcpus;
            let k = choose|k: int| 0 <= k < vcpus.len() && vcpus[k] == target;
            assert(hv.vcpus.contains_key(vcpus[k]));
            crate::hypervisor::lemma_vcpu_ok(hv, target);
            let home = hv.vcpus[target].affinity->0;
            if home == cpu {
                lemma_pended_and_woken(hv, cpu, target, irq, is_hardware);
            } else {
                lemma_pended(hv, target, irq, is_hardware);
                lemma_sent(
                    Sys { hv: hv.irq_pended(target, irq, is_hardware), ..sys },
                    home,
                    crate::hypercall::SGI_IPI_ID as usize,
                    crate::event::IPI_EVENT_RESCHED,
                );
            }
        },
        None => {
            if let Some(id) = pc.current_vcpu {
                if hv.vcpus[id].state == VCpuState::Running {
                    lemma_injected(sys, cpu, irq, is_hardware);
                } else {
                    lemma_pended_and_woken(hv, cpu, id, irq, is_hardware);
                }
            }
        },
    }
}

proof fn lemma_all_injected(
    sys: Sys,
    cpu: usize,
    irqs: Seq<PendingIrq>,
    deferred: Seq<PendingIrq>,
)
    requires
        sys.hv.wf(),
        none_lost(sys.hv),
        cpu < sys.hv.cpus.len(),
    ensures
        sys.all_injected(cpu, irqs, deferred).0.hv.wf(),
        none_lost(sys.all_injected(cpu, irqs, deferred).0.hv),
        sys.all_injected(cpu, irqs, deferred).0.hv.vcpus.dom() == sys.hv.vcpus.dom(),
    decreases irqs.len(),
{
    if irqs.len() > 0 {
        let irq = irqs[0];
        lemma_injected(sys, cpu, irq.irq_id, irq.is_hardware);
        lemma_all_injected(
            sys.injected(cpu, irq.irq_id, irq.is_hardware),
            cpu,
            irqs.subrange(1, irqs.len() as int),
            if sys.injects(irq.irq_id) {
                deferred
            } else {
                deferred.push(irq)
            },
        );
    }
}

proof fn lemma_irqs_pended(hv: HvView, id: usize, irqs: Seq<PendingIrq>)
    requires
        hv.wf(),
        none_lost(hv),
        hv.vcpus.contains_key(id),
    ensures
        hv.irqs_pended(id, irqs).wf(),
        none_lost(hv.irqs_pended(id, irqs)),
    decreases irqs.len(),
{
    if irqs.len() > 0 {
        lemma_pended(hv, id, irqs[0].irq_id, irqs[0].is_hardware);
        lemma_irqs_pended(
            hv.irq_pended(id, irqs[0].irq_id, irqs[0].is_hardware),
            id,
            irqs.subrange(1, irqs.len() as int),
        );
    }
}

proof fn lemma_maintained(sys: Sys, cpu: usize)
    requires
        sys.hv.wf(),
        none_lost(sys.hv),
        cpu < sys.hv.cpus.len(),
    ensures
        sys.maintained(cpu).hv.wf(),
        none_lost(sys.maintained(cpu).hv),
{
    crate::hypervisor::lemma_cpu_ok(sys.hv, cpu);
    if let Some(id) = sys.hv.cpus[cpu as int].sched.current {
        let vcpu = sys.hv.vcpus[id];
        let drained = Sys { hv: sys.hv.with_vcpu(id, vcpu.drained()), ..sys };
        crate::hypervisor::lemma_vcpu_ok(sys.hv, id);
        lemma_vcpu_step(sys.hv, id, vcpu.drained());
        lemma_all_injected(drained, cpu, vcpu.pending, Seq::empty());
        let (tried, deferred) = drained.all_injected(cpu, vcpu.pending, Seq::empty());
        assert(drained.hv.vcpus.dom().contains(id));
        lemma_irqs_pended(tried.hv, id, deferred);
    }
}

/// A scheduling tick loses no ready vCPU.
pub proof fn lemma_tick_loses_none(sys: Sys, cpu: usize)
    requires
        sys.hv.wf(),
        none_lost(sys.hv),
        cpu < sys.hv.cpus.len(),
    ensures
        sys.ticked(cpu).hv.wf(),
        none_lost(sys.ticked(cpu).hv),
{
    let hv = sys.hv;
    let now = sys.hw.timer.cntpct_el0;
    let w = hv.wake_view(cpu);
    crate::hypervisor::lemma_cpu_ok(hv, cpu);
    lemma_wake_view(hv, cpu);
    lemma_timers(hv, cpu, w, now, hv.tick, 0);
    crate::hypervisor::lemma_timers_checked_ok(w, now, hv.tick, 0, cpu);
    crate::hypervisor::lemma_after_wake_wf(hv, cpu, w.timers_checked(now, hv.tick, 0));
    let one = hv.blocked_checked(cpu, now);
    crate::hypervisor::lemma_ready_checked_wf(one, cpu, now);
    let two = one.ready_checked(cpu, now);
    assert forall|id: usize, home: usize| !#[trigger] lost(two, id, home) by {
        assert(!lost(one, id, home));
    }
    crate::hypervisor::lemma_cpu_ok(two, cpu);
    if let Some(id) = two.cpus[cpu as int].sched.current {
        lemma_pended(two, id, crate::vcpu::CNTV_IRQ, false);
    }
    let three = two.running_checked(cpu, sys.hw.el1.cntv_ctl_el0);
    crate::hypervisor::lemma_cpu_ok(three, cpu);
    lemma_cpu_step(three, cpu, three.slice_used(cpu).cpus[cpu as int]);
    assert(three.slice_used(cpu).cpus =~= three.with_cpu(
        cpu,
        three.slice_used(cpu).cpus[cpu as int],
    ).cpus);
}

// ---------------------------------------------------------------------------
// Events
// ---------------------------------------------------------------------------

proof fn lemma_event_handled(sys: Sys, cpu: usize, event: usize)
    requires
        sys.hv.wf(),
        none_lost(sys.hv),
        cpu < sys.hv.cpus.len(),
        event != IPI_EVENT_ZONE_SHUTDOWN,
    ensures
        sys.event_handled(cpu, event).0.hv.wf(),
        none_lost(sys.event_handled(cpu, event).0.hv),
        sys.event_handled(cpu, event).0.hv.cpus.len() == sys.hv.cpus.len(),
{
    let hv = sys.hv;
    lemma_routed(sys, cpu, hv.board.irq_wakeup_virtio_device, false);
    if event == crate::event::IPI_EVENT_RESCHED {
        let pc = hv.cpus[cpu as int];
        let none = PerCpuView { wakes: Seq::empty(), ..pc };
        crate::hypervisor::lemma_cpu_ok(hv, cpu);
        lemma_cpu_step(hv, cpu, none);
        lemma_wakes_met(hv.with_cpu(cpu, none), cpu, pc.wakes);
        let met = hv.wake_ids_drained(cpu);
        lemma_resched(met, cpu);
        lemma_pending_checked(met, cpu);
        lemma_pending_checked(met.resched(cpu), cpu);
    } else if event == crate::event::IPI_EVENT_INCOMING_VCPU {
        lemma_incoming(hv, cpu);
        lemma_resched(hv.incoming_drained(cpu), cpu);
    }
}

proof fn lemma_events_checked(sys: Sys, cpu: usize, handled: bool)
    requires
        sys.hv.wf(),
        none_lost(sys.hv),
        cpu < sys.hv.cpus.len(),
        !(sys.events_checked(cpu, handled).1 is Idle),
    ensures
        sys.events_checked(cpu, handled).0.hv.wf(),
        none_lost(sys.events_checked(cpu, handled).0.hv),
        sys.events_checked(cpu, handled).0.hv.cpus.len() == sys.hv.cpus.len(),
    decreases sys.hv.events[cpu as int].len(),
{
    crate::hypervisor::lemma_wf_sizes(sys.hv);
    if let Some(event) = crate::event::event_at_front(sys.hv.events, cpu) {
        let fetched = sys.event_fetched(cpu);
        lemma_events(sys.hv, crate::event::events_after_fetch(sys.hv.events, cpu));
        crate::event::lemma_event_keeps_queue(fetched, cpu, event);
        let (next, step) = fetched.event_handled(cpu, event);
        lemma_event_handled(fetched, cpu, event);
        if step == EventStep::Handled {
            lemma_events_checked(next, cpu, true);
        } else if step == EventStep::Ignored {
            lemma_events_checked(next, cpu, handled);
        }
    }
}

/// Handling an interrupt loses no ready vCPU, unless it was an order to shut down.
pub proof fn lemma_irq_loses_none(sys: Sys, cpu: usize, irq: usize)
    requires
        sys.hv.wf(),
        none_lost(sys.hv),
        cpu < sys.hv.cpus.len(),
        sys.irq_handled(cpu, irq).1 != IrqStep::Idle,
    ensures
        sys.irq_handled(cpu, irq).0.hv.wf(),
        none_lost(sys.irq_handled(cpu, irq).0.hv),
{
    if irq < 8 {
        let quiet = Sys { hw: sys.hw.deactivated(irq), ..sys };
        if irq == crate::hypercall::SGI_IPI_ID {
            lemma_events_checked(quiet, cpu, false);
            lemma_routed(quiet.events_checked(cpu, false).0, cpu, irq, false);
        } else {
            lemma_routed(quiet, cpu, irq, false);
        }
    } else if irq == crate::device::irqchip::gicv3::EL2_TIMER_IRQ {
        lemma_tick_loses_none(sys, cpu);
    } else if irq == 25 {
        lemma_maintained(sys, cpu);
    } else if irq >= 16 {
        lemma_routed(sys, cpu, irq, true);
    }
}

// ---------------------------------------------------------------------------
// Scheduling
// ---------------------------------------------------------------------------

/// After a selection, nothing is lost but what was selected.
proof fn lemma_selected(hv: HvView, cpu: usize)
    requires
        hv.wf(),
        none_lost(hv),
        cpu < hv.cpus.len(),
    ensures
        hv.selected(cpu).wf(),
        hv.selected(cpu).vcpus == hv.vcpus,
        hv.cpus[cpu as int].sched.picked() matches Some(id) ==> crate::hypervisor::bound(
            hv.vcpus,
            id,
            cpu,
        ),
        forall|id: usize, home: usize| #[trigger]
            lost(hv.selected(cpu), id, home) ==> home == cpu
                && hv.cpus[cpu as int].sched.picked() == Some(id),
{
    let pc = hv.cpus[cpu as int];
    let after = hv.selected(cpu);
    crate::hypervisor::lemma_cpu_ok(hv, cpu);
    crate::hypervisor::lemma_pick_bound(pc.sched, hv.vcpus, cpu);
    crate::hypervisor::lemma_wf_cpu(hv, cpu, pc.with_sched(pc.sched.after_pick()));
    assert forall|id: usize, home: usize| #[trigger] lost(after, id, home) implies home == cpu
        && pc.sched.picked() == Some(id) by {
        assert(!lost(hv, id, home));
        if home == cpu && pc.sched.picked() != Some(id) {
            lemma_picked(pc.sched, id);
        }
    }
}

proof fn lemma_dispatched(sys: Sys, cpu: usize, prev_zone: Option<usize>)
    requires
        sys.hv.wf(),
        none_lost(sys.hv),
        cpu < sys.hv.cpus.len(),
    ensures
        sys.dispatched(cpu, prev_zone).0.hv.wf(),
        none_lost(sys.dispatched(cpu, prev_zone).0.hv),
        sys.dispatched(cpu, prev_zone).0.hv.cpus.len() == sys.hv.cpus.len(),
    decreases sys.hv.cpus[cpu as int].sched.ready_count(),
{
    let hv = sys.hv;
    let sched = hv.cpus[cpu as int].sched;
    let selected = hv.selected(cpu);
    crate::hypervisor::lemma_cpu_ok(hv, cpu);
    crate::scheduler::lemma_pick_count(sched);
    lemma_selected(hv, cpu);
    match sched.picked() {
        None => {
            assert forall|id: usize, home: usize| !#[trigger] lost(selected, id, home) by {}
        },
        Some(id) => {
            if hv.vcpus[id].moves(VCpuState::Ready, VCpuState::Running) {
                let moved = selected.tried(id, VCpuState::Ready, VCpuState::Running);
                let running = selected.running(cpu, id);
                crate::hypervisor::lemma_vcpu_ok(selected, id);
                crate::hypervisor::lemma_wf_vcpu(selected, id, moved.vcpus[id]);
                crate::hypervisor::lemma_cpu_ok(moved, cpu);
                crate::hypervisor::lemma_wf_cpu(moved, cpu, running.cpus[cpu as int]);
                assert(running.cpus =~= moved.with_cpu(cpu, running.cpus[cpu as int]).cpus);
                assert forall|other: usize, home: usize| !#[trigger] lost(
                    running,
                    other,
                    home,
                ) by {
                    if lost(running, other, home) {
                        assert(lost(selected, other, home));
                    }
                }
            } else {
                assert forall|other: usize, home: usize| !#[trigger] lost(
                    selected,
                    other,
                    home,
                ) by {}
                lemma_dispatched(Sys { hv: selected, ..sys }, cpu, prev_zone);
            }
        },
    }
}

/// Putting the vCPU that left the pCPU where its state says.
proof fn lemma_stowed(hv: HvView, cpu: usize, id: usize, now: u64)
    requires
        hv.wf(),
        none_lost(hv),
        cpu < hv.cpus.len(),
        crate::hypervisor::bound(hv.vcpus, id, cpu),
    ensures
        hv.stowed(cpu, id, now).wf(),
        none_lost(hv.stowed(cpu, id, now)),
        hv.stowed(cpu, id, now).cpus.len() == hv.cpus.len(),
{
    let vcpu = hv.vcpus[id];
    let pc = hv.cpus[cpu as int];
    let after = hv.stowed(cpu, id, now);
    crate::hypervisor::lemma_cpu_ok(hv, cpu);
    crate::hypervisor::lemma_vcpu_ok(hv, id);
    match vcpu.state {
        VCpuState::Running | VCpuState::Ready => {
            let ready = hv.tried(id, VCpuState::Running, VCpuState::Ready);
            crate::hypervisor::lemma_wf_vcpu(hv, id, ready.vcpus[id]);
            crate::hypervisor::lemma_kept_bound(pc.sched, hv.vcpus, ready.vcpus, cpu);
            crate::hypervisor::lemma_enqueued_bound(
                pc.sched,
                ready.vcpus,
                cpu,
                id,
                vcpu.priority,
            );
            lemma_enqueued(pc.sched, id, vcpu.priority);
            let queued = pc.with_sched(pc.sched.enqueued(id, vcpu.priority));
            crate::hypervisor::lemma_cpu_ok(ready, cpu);
            lemma_cpu_step(ready, cpu, queued);
            assert(ready.vcpus[id].priority == vcpu.priority);
            assert(after.vcpus =~= ready.vcpus);
            assert(after == ready.with_cpu(cpu, queued));
            assert forall|other: usize, home: usize| !#[trigger] lost(after, other, home) by {
                assert(!lost(hv, other, home));
                if lost(after, other, home) {
                    assert(lost(ready, other, home));
                    assert(other == id && home == cpu);
                }
            }
        },
        VCpuState::Blocked => {
            lemma_cpu_step(hv, cpu, after.cpus[cpu as int]);
            assert(after.cpus =~= hv.with_cpu(cpu, after.cpus[cpu as int]).cpus);
        },
        VCpuState::Stopped => {},
    }
}

/// Running the scheduler loses no ready vCPU.
pub proof fn lemma_schedule_loses_none(sys: Sys, cpu: usize)
    requires
        sys.hv.wf(),
        none_lost(sys.hv),
        cpu < sys.hv.cpus.len(),
    ensures
        sys.scheduled(cpu).0.hv.wf(),
        none_lost(sys.scheduled(cpu).0.hv),
        sys.scheduled(cpu).0.hv.cpus.len() == sys.hv.cpus.len(),
{
    lemma_incoming(sys.hv, cpu);
    let drained = sys.hv.incoming_drained(cpu);
    crate::hypervisor::lemma_cpu_ok(drained, cpu);
    lemma_cpu_step(
        drained,
        cpu,
        PerCpuView { need_resched: false, ..drained.cpus[cpu as int] },
    );
    let ready = Sys { hv: drained.resched_taken(cpu), ..sys };
    let pc = ready.hv.cpus[cpu as int];
    crate::hypervisor::lemma_cpu_ok(ready.hv, cpu);
    lemma_cpu_step(
        ready.hv,
        cpu,
        pc.with_sched(
            SchedView { time_slice: crate::scheduler::DEFAULT_TIME_SLICE, ..pc.sched },
        ),
    );
    lemma_cpu_step(ready.hv, cpu, pc.with_sched(SchedView { current: None, ..pc.sched }));
    let vacant = Sys { hv: ready.hv.without_current(cpu), ..ready };
    if let Some(id) = pc.sched.current {
        crate::hypervisor::lemma_vcpu_ok(vacant.hv, id);
        lemma_vcpu_step(vacant.hv, id, vacant.hv.vcpus[id].saved(vacant.hw));
        lemma_stowed(vacant.switched_out(id).hv, cpu, id, ready.hw.timer.cntpct_el0);
    }
    let prev_zone = match pc.sched.current {
        Some(id) => Some(ready.hv.vcpus[id].zone),
        None => None,
    };
    lemma_dispatched(ready.vacated(cpu), cpu, prev_zone);
}

/// Going on after a wait loses no ready vCPU.
pub proof fn lemma_resume_loses_none(sys: Sys, cpu: usize, prev_zone: Option<usize>)
    requires
        sys.hv.wf(),
        none_lost(sys.hv),
        cpu < sys.hv.cpus.len(),
    ensures
        sys.resumed(cpu, prev_zone).0.hv.wf(),
        none_lost(sys.resumed(cpu, prev_zone).0.hv),
{
    lemma_incoming(sys.hv, cpu);
    let ready = Sys { hv: sys.hv.incoming_drained(cpu), ..sys };
    let pc = ready.hv.cpus[cpu as int];
    if pc.sched.picked() is None && pc.need_resched {
        lemma_selected(ready.hv, cpu);
        let selected = ready.hv.selected(cpu);
        assert forall|id: usize, home: usize| !#[trigger] lost(selected, id, home) by {}
        crate::hypervisor::lemma_cpu_ok(selected, cpu);
        lemma_cpu_step(
            selected,
            cpu,
            PerCpuView { need_resched: false, ..selected.cpus[cpu as int] },
        );
        lemma_dispatched(
            Sys { hv: selected.resched_taken(cpu), ..ready },
            cpu,
            prev_zone,
        );
    } else {
        lemma_dispatched(ready, cpu, prev_zone);
    }
}

// ---------------------------------------------------------------------------
// Exits
// ---------------------------------------------------------------------------

proof fn lemma_all_entered(sys: Sys, cpu: usize, irqs: Seq<PendingIrq>, arrives: bool)
    requires
        sys.hv.wf(),
        none_lost(sys.hv),
        cpu < sys.hv.cpus.len(),
    ensures
        sys.all_entered(cpu, irqs, arrives).hv.wf(),
        none_lost(sys.all_entered(cpu, irqs, arrives).hv),
    decreases irqs.len(),
{
    if irqs.len() > 0 {
        let irq = irqs[0];
        let rest = irqs.subrange(1, irqs.len() as int);
        let masked = Sys { hw: sys.hw.timer_masked(), ..sys };
        lemma_injected(masked, cpu, irq.irq_id, irq.is_hardware);
        lemma_injected(sys, cpu, irq.irq_id, irq.is_hardware);
        if irq.irq_id == crate::vcpu::CNTV_IRQ && !irq.is_hardware {
            if arrives {
                lemma_all_entered(sys, cpu, rest, arrives);
            } else {
                lemma_all_entered(
                    masked.injected(cpu, irq.irq_id, irq.is_hardware),
                    cpu,
                    rest,
                    arrives,
                );
            }
        } else {
            lemma_all_entered(
                sys.injected(cpu, irq.irq_id, irq.is_hardware),
                cpu,
                rest,
                arrives,
            );
        }
    }
}

proof fn lemma_vm_returned(sys: Sys, cpu: usize)
    requires
        sys.hv.wf(),
        none_lost(sys.hv),
        cpu < sys.hv.cpus.len(),
    ensures
        sys.vm_returned(cpu).0.hv.wf(),
        none_lost(sys.vm_returned(cpu).0.hv),
{
    crate::hypervisor::lemma_cpu_ok(sys.hv, cpu);
    match sys.hv.cpus[cpu as int].current_vcpu {
        Some(id) => {
            let vcpu = sys.hv.vcpus[id];
            crate::hypervisor::lemma_vcpu_ok(sys.hv, id);
            lemma_vcpu_step(sys.hv, id, vcpu.drained());
            lemma_all_entered(
                Sys { hv: sys.hv.with_vcpu(id, vcpu.drained()), ..sys },
                cpu,
                vcpu.pending,
                crate::arch::aarch64::trap::timer_interrupts(sys.hw.el1.cntv_ctl_el0),
            );
        },
        None => {
            lemma_schedule_loses_none(sys, cpu);
        },
    }
}

/// Ending an exit, with a return to the guest or a switch to another, loses no ready
/// vCPU.
pub proof fn lemma_exit_loses_none(sys: Sys, cpu: usize)
    requires
        sys.hv.wf(),
        none_lost(sys.hv),
        cpu < sys.hv.cpus.len(),
    ensures
        sys.exited(cpu).0.hv.wf(),
        none_lost(sys.exited(cpu).0.hv),
{
    if sys.hv.cpus[cpu as int].need_resched {
        lemma_schedule_loses_none(sys, cpu);
        if !(sys.scheduled(cpu).1 is Idle) {
            lemma_vm_returned(sys.scheduled(cpu).0, cpu);
        }
    } else {
        lemma_vm_returned(sys, cpu);
    }
}

/// A guest that waits for an interrupt makes no ready vCPU be lost, nor does the end
/// of its wait.
pub proof fn lemma_wfi_loses_none(sys: Sys, cpu: usize, esr: u64)
    requires
        sys.hv.wf(),
        none_lost(sys.hv),
        cpu < sys.hv.cpus.len(),
    ensures
        sys.wfi_trapped(cpu, esr).0.hv.wf(),
        none_lost(sys.wfi_trapped(cpu, esr).0.hv),
        sys.hv.wfi_resumed(cpu).wf(),
        none_lost(sys.hv.wfi_resumed(cpu)),
{
    crate::hypervisor::lemma_cpu_ok(sys.hv, cpu);
    if let Some(id) = sys.hv.cpus[cpu as int].current_vcpu {
        lemma_tried(sys.hv, id, VCpuState::Running, VCpuState::Blocked);
        lemma_resched(sys.hv.tried(id, VCpuState::Running, VCpuState::Blocked), cpu);
    }
    lemma_incoming(sys.hv, cpu);
    lemma_resched(sys.hv.incoming_drained(cpu), cpu);
}

proof fn lemma_sgi_delivered(sys: Sys, cpu: usize, id: usize, sgi: usize)
    requires
        sys.hv.wf(),
        none_lost(sys.hv),
        cpu < sys.hv.cpus.len(),
        sys.hv.vcpus.contains_key(id),
    ensures
        sys.sgi_delivered(cpu, id, sgi).hv.wf(),
        none_lost(sys.sgi_delivered(cpu, id, sgi).hv),
        sys.sgi_delivered(cpu, id, sgi).hv.cpus.len() == sys.hv.cpus.len(),
        sys.sgi_delivered(cpu, id, sgi).hv.vcpus.dom() == sys.hv.vcpus.dom(),
{
    let vcpu = sys.hv.vcpus[id];
    let home = vcpu.affinity->0;
    crate::hypervisor::lemma_vcpu_ok(sys.hv, id);
    lemma_injected(sys, cpu, sgi, false);
    lemma_pended(sys.hv, id, sgi, false);
    let pended = Sys { hv: sys.hv.irq_pended(id, sgi, false), ..sys };
    let ipi = crate::hypercall::SGI_IPI_ID as usize;
    let event = crate::event::IPI_EVENT_RESCHED;
    lemma_resched(pended.hv, home);
    lemma_sent(pended, home, ipi, event);
    lemma_sent(Sys { hv: pended.hv.resched(home), ..pended }, home, ipi, event);
    if home == cpu {
        lemma_woken(pended.hv, cpu, id);
        lemma_resched(pended.hv.woken(cpu, id), cpu);
        assert(pended.hv.woken(cpu, id).vcpus.dom() =~= sys.hv.vcpus.dom());
    }
}

proof fn lemma_sgi_delivered_to(sys: Sys, cpu: usize, targets: Seq<usize>, sgi: usize)
    requires
        sys.hv.wf(),
        none_lost(sys.hv),
        cpu < sys.hv.cpus.len(),
        forall|i: int|
            0 <= i < targets.len() ==> sys.hv.vcpus.contains_key(#[trigger] targets[i]),
    ensures
        sys.sgi_delivered_to(cpu, targets, sgi).hv.wf(),
        none_lost(sys.sgi_delivered_to(cpu, targets, sgi).hv),
    decreases targets.len(),
{
    if targets.len() > 0 {
        let rest = targets.subrange(1, targets.len() as int);
        lemma_sgi_delivered(sys, cpu, targets[0], sgi);
        let next = sys.sgi_delivered(cpu, targets[0], sgi);
        assert forall|i: int| 0 <= i < rest.len() implies next.hv.vcpus.contains_key(
            #[trigger] rest[i],
        ) by {
            assert(sys.hv.vcpus.dom().contains(targets[i + 1]));
        }
        lemma_sgi_delivered_to(next, cpu, rest, sgi);
    }
}

/// A guest's SGI loses no ready vCPU.
pub proof fn lemma_sgi_loses_none(sys: Sys, cpu: usize, val: u64, sgi: usize)
    requires
        sys.hv.wf(),
        none_lost(sys.hv),
        cpu < sys.hv.cpus.len(),
    ensures
        sys.guest_sgi_sent(cpu, val, sgi).hv.wf(),
        none_lost(sys.guest_sgi_sent(cpu, val, sgi).hv),
{
    crate::hypervisor::lemma_cpu_ok(sys.hv, cpu);
    if let Some(sender) = sys.hv.cpus[cpu as int].current_vcpu {
        let id = sys.hv.vcpus[sender].zone;
        crate::hypervisor::lemma_vcpu_ok(sys.hv, sender);
        crate::hypervisor::lemma_zone_ok(sys.hv, id);
        let zone = sys.hv.zones[id].inner;
        let targets = crate::arch::aarch64::trap::sgi_targets(zone, val, sender);
        assert forall|i: int| 0 <= i < targets.len() implies sys.hv.vcpus.contains_key(
            #[trigger] targets[i],
        ) by {
            crate::laws::lemma_sgi_stays_in_zone(zone, val, sender, i);
            let k = choose|k: int| 0 <= k < zone.vcpus.len() && zone.vcpus[k] == targets[i];
            assert(sys.hv.vcpus.contains_key(zone.vcpus[k]));
        }
        lemma_sgi_delivered_to(sys, cpu, targets, sgi);
    }
}

/// Starting a stopped vCPU puts it on its way to its pCPU, and loses none.
proof fn lemma_started(sys: Sys, cpu: usize, id: usize)
    requires
        sys.hv.wf(),
        none_lost(sys.hv),
        cpu < sys.hv.cpus.len(),
        sys.hv.vcpus.contains_key(id),
    ensures
        sys.started(cpu, id).hv.wf(),
        none_lost(sys.started(cpu, id).hv),
{
    if sys.hv.vcpus[id].moves(VCpuState::Stopped, VCpuState::Ready) {
        let target = sys.hv.vcpus[id].affinity->0;
        crate::hypervisor::lemma_vcpu_ok(sys.hv, id);
        let ready = Sys { hv: sys.hv.tried(id, VCpuState::Stopped, VCpuState::Ready), ..sys };
        crate::hypervisor::lemma_wf_vcpu(sys.hv, id, ready.hv.vcpus[id]);
        let all = seq![id] + Seq::<usize>::empty();
        assert(all[0] == id);
        assert forall|other: usize, home: usize| #[trigger]
            lost(ready.hv, other, home) implies home == target && all.contains(other) by {
            assert(!lost(sys.hv, other, home));
        }
        let ipi = crate::hypercall::SGI_IPI_ID as usize;
        if target != cpu {
            let pc = ready.hv.cpus[target as int];
            let arriving = PerCpuView { incoming: pc.incoming.push(id), ..pc };
            crate::hypervisor::lemma_cpu_ok(ready.hv, target);
            assert(arriving.incoming[pc.incoming.len() as int] == id);
            assert forall|other: usize| #[trigger] holds(pc, other) implies holds(
                arriving,
                other,
            ) by {
                if pc.incoming.contains(other) {
                    let k = choose|k: int| 0 <= k < pc.incoming.len() && pc.incoming[k] == other;
                    assert(arriving.incoming[k] == other);
                }
            }
            lemma_cpu_step(ready.hv, target, arriving);
            let there = ready.hv.with_cpu(target, arriving);
            assert forall|other: usize, home: usize| !#[trigger] lost(there, other, home) by {
                if lost(there, other, home) {
                    assert(lost(ready.hv, other, home));
                }
            }
            lemma_sent(
                Sys { hv: there, ..ready },
                target,
                ipi,
                crate::event::IPI_EVENT_INCOMING_VCPU,
            );
        } else {
            lemma_moved(ready.hv, target, id, Seq::empty());
            let there = ready.hv.moved_to_queue(target, id);
            assert forall|other: usize, home: usize| !#[trigger] lost(there, other, home) by {
                if lost(there, other, home) {
                    assert(Seq::<usize>::empty().contains(other));
                }
            }
            lemma_resched(there, target);
        }
    }
}

/// A PSCI call loses no ready vCPU.
pub proof fn lemma_psci_loses_none(sys: Sys, cpu: usize, code: u64, x: Seq<u64>)
    requires
        sys.hv.wf(),
        none_lost(sys.hv),
        cpu < sys.hv.cpus.len(),
        crate::arch::aarch64::trap::psci_needs_zone(code) ==> sys.hv.has_zone(cpu),
    ensures
        sys.psci_called(cpu, code, x).0.hv.wf(),
        none_lost(sys.psci_called(cpu, code, x).0.hv),
{
    let hv = sys.hv;
    crate::hypervisor::lemma_cpu_ok(hv, cpu);
    if let Some(id) = hv.cpus[cpu as int].current_vcpu {
        lemma_tried(hv, id, VCpuState::Running, VCpuState::Blocked);
        lemma_resched(hv.tried(id, VCpuState::Running, VCpuState::Blocked), cpu);
        lemma_tried(hv, id, VCpuState::Running, VCpuState::Stopped);
        lemma_resched(hv.tried(id, VCpuState::Running, VCpuState::Stopped), cpu);
    }
    if code == PSCI_CPU_ON_32 || code == PSCI_CPU_ON_64 {
        if let Some(id) = hv.zone_vcpu_at(cpu, x[1]) {
            let zone = hv.cpus[cpu as int].zone->0;
            crate::hypervisor::lemma_zone_ok(hv, zone);
            let vcpus = hv.zones[zone].inner.vcpus;
            let k = choose|k: int| 0 <= k < vcpus.len() && vcpus[k] == id;
            assert(hv.vcpus.contains_key(vcpus[k]));
            crate::hypervisor::lemma_vcpu_ok(hv, id);
            let reset = hv.vcpus[id].reset_to(x[2], x[3], sys.hw.ich.vtr);
            lemma_vcpu_step(hv, id, reset);
            lemma_started(Sys { hv: hv.with_vcpu(id, reset), ..sys }, cpu, id);
        }
    }
}

} // verus!

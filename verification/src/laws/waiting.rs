//! vCPUs that wait: how they come to wait, and what makes them ready again.

use vstd::prelude::*;
use crate::cpu_data::PerCpuView;
use crate::hardware::HardwareView;
use crate::hypervisor::{HvView, Sys};
use crate::scheduler::{BlockedVCpuEntry, SchedOutcome};
use crate::vcpu::{PendingIrq, VCpuState, VCpuView};
use crate::arch::aarch64::trap::WfiStep;

verus! {

/// The timer of a blocked vCPU has expired at physical count `now`: it is enabled, and
/// the virtual count has reached its value.
pub open spec fn timer_expired(entry: BlockedVCpuEntry, now: u64) -> bool {
    entry.cntv_ctl & 1 != 0 && now.wrapping_sub(entry.cntvoff) >= entry.cntv_cval
}

/// A blocked vCPU has waited long enough: two ticks, or one if something is pending.
pub open spec fn waited(entry: BlockedVCpuEntry, pending: nat, now: u64, tick: u64) -> bool {
    ||| now >= entry.blocked_at_cnt.wrapping_add(tick.wrapping_mul(2))
    ||| pending > 0 && now >= entry.blocked_at_cnt.wrapping_add(tick)
}

/// The timer's interrupt is pending for vCPU `id`.
pub open spec fn has_timer_irq(hv: HvView, id: usize) -> bool {
    hv.vcpus[id].pending.contains(PendingIrq { irq_id: 27, is_hardware: false })
}

// ---------------------------------------------------------------------------
// Selecting
// ---------------------------------------------------------------------------

/// Selecting a vCPU leaves the blocked list and every vCPU that is not ready as they are,
/// and says nothing about other pCPUs.
pub proof fn lemma_dispatch_keeps(sys: Sys, cpu: usize, prev_zone: Option<usize>)
    requires
        cpu < sys.hv.cpus.len(),
        sys.hv.cpus[cpu as int].sched.wf(),
    ensures
        ({
            let (after, outcome) = sys.dispatched(cpu, prev_zone);
            let pc = sys.hv.cpus[cpu as int];
            let now = after.hv.cpus[cpu as int];
            &&& now.sched.blocked == pc.sched.blocked
            &&& now == (PerCpuView {
                sched: now.sched,
                current_vcpu: now.current_vcpu,
                ..pc
            })
            &&& forall|id: usize|
                sys.hv.vcpus[id].state != VCpuState::Ready ==> #[trigger] after.hv.vcpus[id]
                    == sys.hv.vcpus[id]
            &&& forall|other: int|
                0 <= other < sys.hv.cpus.len() && other != cpu ==> #[trigger] after.hv.cpus[other]
                    == sys.hv.cpus[other]
            &&& after.hv.cpus.len() == sys.hv.cpus.len()
            &&& outcome == SchedOutcome::Switched ==> {
                let next = now.sched.current->0;
                &&& now.sched.current is Some
                &&& sys.hv.vcpus[next].state == VCpuState::Ready
                &&& after.hv.vcpus[next] == (VCpuView {
                    state: VCpuState::Running,
                    ..sys.hv.vcpus[next]
                })
                &&& forall|id: usize|
                    id != next ==> #[trigger] after.hv.vcpus[id] == sys.hv.vcpus[id]
                &&& after.hw.timer.cnthp_ctl_el2 == 1
                &&& after.hw.timer.cnthp_tval_el2 == sys.hv.tick
                &&& after.hw.ops == sys.switched_in(next, prev_zone).hw.ops
                &&& after.hw.el1 == sys.switched_in(next, prev_zone).hw.el1
                &&& after.hw.ich == sys.switched_in(next, prev_zone).hw.ich
                &&& after.hw.el2 == sys.switched_in(next, prev_zone).hw.el2
            }
            &&& outcome is Idle ==> {
                &&& after.hv.vcpus == sys.hv.vcpus
                &&& now.sched.current == pc.sched.current || now.sched.current is None
                &&& now.current_vcpu == pc.current_vcpu
                &&& after.hw == (HardwareView { timer: after.hw.timer, ..sys.hw })
                &&& after.hw == (Sys {
                    hv: HvView {
                        cpus: seq![now],
                        ..sys.hv
                    },
                    hw: sys.hw,
                }).wait_prepared(0).hw
            }
        }),
    decreases sys.hv.cpus[cpu as int].sched.ready_count(),
{
    let sched = sys.hv.cpus[cpu as int].sched;
    crate::scheduler::lemma_pick_count(sched);
    if let Some(id) = sched.picked() {
        if !sys.hv.vcpus[id].moves(VCpuState::Ready, VCpuState::Running) {
            lemma_dispatch_keeps(Sys { hv: sys.hv.selected(cpu), ..sys }, cpu, prev_zone);
        }
    }
}

proof fn lemma_first_deadline(blocked: Seq<BlockedVCpuEntry>)
    ensures
        match crate::scheduler::first_deadline(blocked) {
            Some(first) => {
                &&& forall|k: int|
                    0 <= k < blocked.len() && (#[trigger] blocked[k]).cntv_ctl & 1 != 0 ==> first
                        <= blocked[k].cntv_cval.wrapping_add(blocked[k].cntvoff)
                &&& exists|k: int|
                    0 <= k < blocked.len() && (#[trigger] blocked[k]).cntv_ctl & 1 != 0 && first
                        == blocked[k].cntv_cval.wrapping_add(blocked[k].cntvoff)
            },
            None => forall|k: int|
                0 <= k < blocked.len() ==> (#[trigger] blocked[k]).cntv_ctl & 1 == 0,
        },
    decreases blocked.len(),
{
    if blocked.len() > 0 {
        let rest = blocked.drop_last();
        let last = blocked.len() - 1;
        lemma_first_deadline(rest);
        assert forall|k: int| 0 <= k < last implies rest[k] == #[trigger] blocked[k] by {}
        let first = crate::scheduler::first_deadline(blocked);
        if first is Some {
            let of_rest = crate::scheduler::first_deadline(rest);
            if of_rest is Some && first == of_rest {
                let k = choose|k: int|
                    0 <= k < rest.len() && (#[trigger] rest[k]).cntv_ctl & 1 != 0 && of_rest->0
                        == rest[k].cntv_cval.wrapping_add(rest[k].cntvoff);
                assert(blocked[k] == rest[k]);
            } else {
                assert(blocked[last].cntv_ctl & 1 != 0);
            }
            assert forall|k: int|
                0 <= k < blocked.len() && (#[trigger] blocked[k]).cntv_ctl & 1 != 0 implies first->0
                <= blocked[k].cntv_cval.wrapping_add(blocked[k].cntvoff) by {
                if k < last {
                    assert(rest[k].cntv_ctl & 1 != 0);
                }
            }
        } else {
            assert forall|k: int| 0 <= k < blocked.len() implies (
            #[trigger] blocked[k]).cntv_ctl & 1 == 0 by {
                if k < last {
                    assert(rest[k].cntv_ctl & 1 == 0);
                }
            }
        }
    }
}

/// A pCPU with nothing to run does not sleep through a timer of one of its blocked vCPUs:
/// its own timer fires no later than any of them, and within a tick, if there is a
/// blocked vCPU at all; otherwise it is off.
pub proof fn lemma_idle_until_due(sys: Sys, cpu: usize, prev_zone: Option<usize>)
    requires
        cpu < sys.hv.cpus.len(),
        sys.hv.cpus[cpu as int].sched.wf(),
        sys.dispatched(cpu, prev_zone).1 is Idle,
        sys.hv.tick > 0,
    ensures
        ({
            let timer = sys.dispatched(cpu, prev_zone).0.hw.timer;
            let now = sys.hw.timer.cntpct_el0;
            let blocked = sys.hv.cpus[cpu as int].sched.blocked;
            let in_time = timer.cnthp_tval_el2;
            &&& timer.cnthp_ctl_el2 == if blocked.len() > 0 {
                1u64
            } else {
                0
            }
            &&& blocked.len() > 0 ==> 0 < in_time <= sys.hv.tick
            &&& forall|k: int|
                0 <= k < blocked.len() && (#[trigger] blocked[k]).cntv_ctl & 1 != 0 ==> {
                    let deadline = blocked[k].cntv_cval.wrapping_add(blocked[k].cntvoff);
                    if deadline > now {
                        now + in_time <= deadline
                    } else {
                        in_time == 1
                    }
                }
            &&& blocked.len() > 0 && in_time != sys.hv.tick ==> exists|k: int|
                0 <= k < blocked.len() && (#[trigger] blocked[k]).cntv_ctl & 1 != 0 && {
                    let deadline = blocked[k].cntv_cval.wrapping_add(blocked[k].cntvoff);
                    deadline == now + in_time || deadline <= now
                }
        }),
{
    let blocked = sys.hv.cpus[cpu as int].sched.blocked;
    lemma_dispatch_keeps(sys, cpu, prev_zone);
    lemma_first_deadline(blocked);
}

/// A pCPU whose one vCPU goes on keeps it, with a full time slice and the timer set for
/// the next tick.
pub proof fn lemma_alone_goes_on(sys: Sys, cpu: usize, id: usize)
    requires
        sys.hv.wf(),
        cpu < sys.hv.cpus.len(),
        sys.hv.cpus[cpu as int].sched.current == Some(id),
        sys.hv.vcpus[id].state == VCpuState::Running,
        sys.hv.cpus[cpu as int].incoming.len() == 0,
        sys.hv.cpus[cpu as int].sched.ready_count() == 0,
        sys.hv.cpus[cpu as int].sched.blocked.len() == 0,
    ensures
        ({
            let (after, outcome) = sys.scheduled(cpu);
            &&& outcome == SchedOutcome::Kept
            &&& after.hv.vcpus == sys.hv.vcpus
            &&& after.hv.cpus[cpu as int].sched.current == Some(id)
            &&& after.hv.cpus[cpu as int].current_vcpu == sys.hv.cpus[cpu as int].current_vcpu
            &&& after.hv.cpus[cpu as int].sched.time_slice == 1
            &&& !after.hv.cpus[cpu as int].need_resched
            &&& after.hw.el1 == sys.hw.el1
            &&& after.hw.ich == sys.hw.ich
            &&& after.hw.ops == sys.hw.ops
            &&& after.hw.timer.cnthp_ctl_el2 == 1
            &&& after.hw.timer.cnthp_tval_el2 == sys.hv.tick
        }),
{
    crate::hypervisor::lemma_cpu_ok(sys.hv, cpu);
}

/// A pCPU that waited without a guest runs what is ready now, and waits on only if
/// nothing is.
pub proof fn lemma_resumed(sys: Sys, cpu: usize, prev_zone: Option<usize>)
    requires
        sys.hv.wf(),
        cpu < sys.hv.cpus.len(),
    ensures
        ({
            let (after, outcome) = sys.resumed(cpu, prev_zone);
            let pc = after.hv.cpus[cpu as int];
            &&& outcome !is Kept
            &&& outcome == SchedOutcome::Switched ==> {
                &&& pc.sched.current is Some
                &&& pc.current_vcpu == pc.sched.current
                &&& after.hv.vcpus[pc.sched.current->0].state == VCpuState::Running
                &&& pc.sched.time_slice == 1
            }
            &&& outcome is Idle ==> {
                &&& outcome->prev_zone == prev_zone
                &&& pc.sched.ready_count() == 0
                &&& after.hv.vcpus == sys.hv.vcpus
                &&& after.hw.ops == sys.hw.ops
            }
            &&& pc.incoming.len() == 0
        }),
{
    crate::hypervisor::lemma_cpu_ok(sys.hv, cpu);
    crate::laws::turns::lemma_arrivals_queued(sys.hv, cpu);
    let ready = Sys { hv: sys.hv.incoming_drained(cpu), ..sys };
    let sched = ready.hv.cpus[cpu as int].sched;
    crate::scheduler::lemma_pick_count(sched);
    crate::laws::lemma_dispatch_runs_or_waits(ready, cpu, prev_zone);
    lemma_dispatch_keeps(ready, cpu, prev_zone);
    let again = Sys { hv: ready.hv.selected(cpu).resched_taken(cpu), ..ready };
    crate::laws::lemma_dispatch_runs_or_waits(again, cpu, prev_zone);
    lemma_dispatch_keeps(again, cpu, prev_zone);
}

// ---------------------------------------------------------------------------
// Blocking
// ---------------------------------------------------------------------------

/// A vCPU that is blocked when the scheduler runs leaves its pCPU and is in the blocked
/// list, with what its timer held; it stays blocked, and its registers are kept.
pub proof fn lemma_blocked_is_listed(sys: Sys, cpu: usize, id: usize)
    requires
        cpu < sys.hv.cpus.len(),
        sys.hv.cpus[cpu as int].sched.wf(),
        sys.hv.vcpus.contains_key(id),
        sys.hv.cpus[cpu as int].sched.current == Some(id),
        sys.hv.vcpus[id].state == VCpuState::Blocked,
    ensures
        ({
            let (after, outcome) = sys.scheduled(cpu);
            let pc = after.hv.cpus[cpu as int];
            let entry = pc.sched.blocked.last();
            &&& outcome !is Kept
            &&& pc.sched.current != Some(id)
            &&& !pc.need_resched
            &&& after.hv.vcpus[id].state == VCpuState::Blocked
            &&& after.hv.vcpus[id].pending == sys.hv.vcpus[id].pending
            &&& after.hv.vcpus[id].affinity == sys.hv.vcpus[id].affinity
            &&& after.hv.vcpus[id].arch.el1_regs.ttbr0_el1 == sys.hw.el1.ttbr0_el1
            &&& pc.sched.blocked.len() > 0
            &&& pc.sched.waits(id)
            &&& entry.vcpu == id
            &&& entry.cntv_cval == sys.hw.el1.cntv_cval_el0
            &&& entry.cntvoff == sys.hw.el1.cntvoff_el2
            &&& entry.cntv_ctl & 1 == sys.hw.el1.cntv_ctl_el0 & 1
            &&& entry.blocked_at_cnt == sys.hw.timer.cntpct_el0
        }),
{
    crate::laws::turns::lemma_arrivals_queued(sys.hv, cpu);
    let ready = Sys { hv: sys.hv.incoming_drained(cpu).resched_taken(cpu), ..sys };
    crate::laws::turns::lemma_vacated(ready, cpu, id);
    let left = ready.vacated(cpu);
    let prev_zone = Some(ready.hv.vcpus[id].zone);
    lemma_dispatch_keeps(left, cpu, prev_zone);
    crate::laws::lemma_second_bit(sys.hw.el1.cntv_ctl_el0);
    let after = sys.scheduled(cpu).0;
    assert(after == left.dispatched(cpu, prev_zone).0);
    crate::laws::lemma_dispatch_runs_or_waits(left, cpu, prev_zone);
    let blocked = after.hv.cpus[cpu as int].sched.blocked;
    assert(blocked[blocked.len() - 1].vcpu == id);
}

/// What a guest's wait for an interrupt does.  It never stops a vCPU, and it does not
/// wait while something is there for it.  A vCPU that shares its pCPU is blocked and
/// makes room; one that is alone keeps its pCPU, which waits no longer than to the
/// vCPU's timer, or not at all if that has fired.
pub proof fn lemma_wfi(sys: Sys, cpu: usize, esr: u64, id: usize)
    requires
        sys.hv.wf(),
        cpu < sys.hv.cpus.len(),
        sys.hv.cpus[cpu as int].current_vcpu == Some(id),
        sys.hv.vcpus[id].state == VCpuState::Running,
        sys.hv.tick > 0,
    ensures
        ({
            let (after, step) = sys.wfi_trapped(cpu, esr);
            let sched = sys.hv.cpus[cpu as int].sched;
            let shared = sched.ready_count() + sched.blocked.len() > 0;
            let has_lr = exists|i: int|
                0 <= i < sys.hw.lr_count() && crate::laws::routing::lr_taken(
                    #[trigger] sys.hw.ich.lr[i],
                );
            let busy = sys.hv.vcpus[id].pending.len() > 0 || has_lr;
            let is_wfe = esr & 1 != 0;
            let blocks = !is_wfe && !busy && shared;
            let waits = !is_wfe && !busy && !shared && sys.hw.el1.cntv_ctl_el0 & 5 != 5;
            &&& after.hv.vcpus[id] == (VCpuView {
                state: if blocks {
                    VCpuState::Blocked
                } else {
                    VCpuState::Running
                },
                ..sys.hv.vcpus[id]
            })
            &&& forall|other: usize|
                other != id ==> #[trigger] after.hv.vcpus[other] == sys.hv.vcpus[other]
            &&& after.hv.cpus[cpu as int].need_resched == (
            sys.hv.cpus[cpu as int].need_resched || blocks)
            &&& after.hv.cpus[cpu as int].sched == sched
            &&& after.hv.events == sys.hv.events
            &&& (step == WfiStep::Wait) == waits
            &&& !waits ==> after.hw == sys.hw
            &&& waits ==> {
                let deadline = sys.hw.el1.cntv_cval_el0.wrapping_add(sys.hw.el1.cntvoff_el2);
                let now = sys.hw.timer.cntpct_el0;
                let in_time = after.hw.timer.cnthp_tval_el2;
                &&& after.hw.timer.cnthp_ctl_el2 == 1
                &&& 0 < in_time <= sys.hv.tick
                &&& deadline > now ==> now + in_time <= deadline
                &&& deadline <= now ==> in_time == 1
                &&& in_time == sys.hv.tick || in_time == deadline - now || in_time == 1
                &&& after.hw.el1 == sys.hw.el1
                &&& after.hw.ich == sys.hw.ich
            }
        }),
{
    crate::hypervisor::lemma_cpu_ok(sys.hv, cpu);
    assert(sys.hw.lr_in_use() <==> exists|i: int|
        0 <= i < sys.hw.lr_count() && crate::laws::routing::lr_taken(
            #[trigger] sys.hw.ich.lr[i],
        )) by {
        if sys.hw.lr_in_use() {
            let i = choose|i: int|
                0 <= i < sys.hw.lr_count() && !crate::device::irqchip::gicv3::lr_free(
                    #[trigger] sys.hw.ich.lr[i],
                );
            assert(crate::laws::routing::lr_taken(sys.hw.ich.lr[i]));
        }
        if exists|i: int|
            0 <= i < sys.hw.lr_count() && crate::laws::routing::lr_taken(
                #[trigger] sys.hw.ich.lr[i],
            ) {
            let i = choose|i: int|
                0 <= i < sys.hw.lr_count() && crate::laws::routing::lr_taken(
                    #[trigger] sys.hw.ich.lr[i],
                );
            assert(!crate::device::irqchip::gicv3::lr_free(sys.hw.ich.lr[i]));
        }
    }
}

// ---------------------------------------------------------------------------
// Waking
// ---------------------------------------------------------------------------

proof fn lemma_timer_irq_stays(vcpu: VCpuView)
    ensures
        vcpu.with_irq(27, false).pending.contains(PendingIrq { irq_id: 27, is_hardware: false }),
        vcpu.with_irq(27, false) == (VCpuView {
            pending: vcpu.with_irq(27, false).pending,
            ..vcpu
        }),
{
    crate::laws::lemma_pended_is_there(vcpu, 27, false);
}

proof fn lemma_filter_shortens<A>(s: Seq<A>, keep: spec_fn(A) -> bool, k: int)
    requires
        0 <= k < s.len(),
        !keep(s[k]),
    ensures
        s.filter(keep).len() < s.len(),
    decreases s.len(),
{
    reveal(Seq::filter);
    let rest = s.drop_last();
    if k < s.len() - 1 {
        assert(rest[k] == s[k]);
        lemma_filter_shortens(rest, keep, k);
    } else {
        rest.lemma_filter_len(keep);
    }
}

/// A tick makes a blocked vCPU ready if its timer has expired, or if it has waited long
/// enough; the timer's interrupt is then pending for it in the first case.  Any other
/// blocked vCPU stays as it is.
pub proof fn lemma_tick_and_blocked(sys: Sys, cpu: usize, k: int)
    requires
        sys.hv.wf(),
        cpu < sys.hv.cpus.len(),
        crate::laws::turns::properly_blocked(sys.hv.wake_view(cpu), 0),
        0 <= k < sys.hv.cpus[cpu as int].sched.blocked.len(),
        sys.hv.cpus[cpu as int].sched.current != Some(
            sys.hv.cpus[cpu as int].sched.blocked[k].vcpu,
        ),
    ensures
        ({
            let after = sys.ticked(cpu).hv;
            let entry = sys.hv.cpus[cpu as int].sched.blocked[k];
            let id = entry.vcpu;
            let now = sys.hw.timer.cntpct_el0;
            let expired = timer_expired(entry, now);
            let wakes = expired || waited(entry, sys.hv.vcpus[id].pending.len(), now, sys.hv.tick);
            &&& wakes ==> crate::laws::routing::made_ready(after, cpu, id)
            &&& wakes ==> !after.cpus[cpu as int].sched.waits(id)
            &&& expired ==> has_timer_irq(after, id)
            &&& !wakes ==> after.vcpus[id].state == VCpuState::Blocked
            &&& !wakes ==> after.cpus[cpu as int].sched.blocked.contains(entry)
        }),
{
    let w = sys.hv.wake_view(cpu);
    let now = sys.hw.timer.cntpct_el0;
    let tick = sys.hv.tick;
    let entry = w.sched.blocked[k];
    let id = entry.vcpu;
    crate::hypervisor::lemma_cpu_ok(sys.hv, cpu);
    crate::hypervisor::lemma_wf_sizes(sys.hv);
    crate::laws::turns::lemma_tick_wakes_exactly(w, now, tick);
    let checked = w.timers_checked(now, tick, 0);
    let woken = sys.hv.blocked_checked(cpu, now);
    let readied = woken.ready_checked(cpu, now);
    let after = sys.ticked(cpu).hv;
    assert(sys.hv.vcpus.contains_key(id));
    crate::hypervisor::lemma_vcpu_ok(sys.hv, id);
    assert(w.sched.blocked[k].vcpu == id);
    crate::laws::turns::lemma_ready_is_queued(checked.sched, id);
    crate::laws::turns::lemma_ready_is_queued(w.sched, id);
    crate::hypervisor::lemma_timers_checked_ok(w, now, tick, 0, cpu);
    assert(woken.vcpus.contains_key(id));
    lemma_timer_irq_stays(w.vcpus[id]);
    lemma_timer_irq_stays(woken.vcpus[id]);
    let is_due = crate::laws::turns::due(entry, w.vcpus, now, tick);
    assert(is_due <==> timer_expired(entry, now) || waited(
        entry,
        sys.hv.vcpus[id].pending.len(),
        now,
        tick,
    ));
    assert(after.vcpus[id] == readied.vcpus[id]);
    assert(after.cpus[cpu as int].sched.run_queue == checked.sched.run_queue);
    assert(after.cpus[cpu as int].sched.blocked == checked.sched.blocked);
    let keep = |e: BlockedVCpuEntry| !crate::laws::turns::due(e, w.vcpus, now, tick);
    if is_due {
        assert(crate::laws::turns::is_due(w, now, tick, 0, id));
        assert(checked.vcpus[id] == crate::laws::turns::woken_vcpu(
            w.vcpus[id],
            entry.expired(now),
        ));
        assert(checked.sched.queued(id));
        lemma_filter_shortens(w.sched.blocked, keep, k);
        assert(!checked.sched.waits(id)) by {
            if checked.sched.waits(id) {
                let j = choose|j: int|
                    0 <= j < checked.sched.blocked.len() && (
                    #[trigger] checked.sched.blocked[j]).vcpu == id;
                let left = checked.sched.blocked[j];
                w.sched.blocked.lemma_filter_pred(keep, j);
                w.sched.blocked.lemma_filter_contains_rev(keep, left);
                let i = choose|i: int|
                    0 <= i < w.sched.blocked.len() && w.sched.blocked[i] == left;
                assert(w.sched.blocked[i].vcpu == w.sched.blocked[k].vcpu);
            }
        }
    } else {
        w.sched.blocked.lemma_filter_contains(keep, k);
        assert(!crate::laws::turns::is_due(w, now, tick, 0, id)) by {
            if crate::laws::turns::is_due(w, now, tick, 0, id) {
                let i = choose|i: int|
                    0 <= i < w.sched.blocked.len() && (#[trigger] w.sched.blocked[i]).vcpu == id
                        && crate::laws::turns::due(w.sched.blocked[i], w.vcpus, now, tick);
                assert(w.sched.blocked[i].vcpu == w.sched.blocked[k].vcpu);
            }
        }
    }
}

/// What a tick does for the vCPUs that are not blocked.  The one that runs has a tick less
/// of its time slice, and the pCPU schedules when that is over; it gets the timer's
/// interrupt if its timer has fired while masked.  One in a run queue gets it if its timer
/// is enabled and has expired, unless something is pending for it.  The pCPU's own timer
/// is set for the next tick.
pub proof fn lemma_tick_and_others(sys: Sys, cpu: usize, id: usize)
    requires
        sys.hv.wf(),
        cpu < sys.hv.cpus.len(),
        crate::laws::turns::properly_blocked(sys.hv.wake_view(cpu), 0),
        sys.hv.vcpus.contains_key(id),
        !sys.hv.cpus[cpu as int].sched.waits(id),
    ensures
        ({
            let after = sys.ticked(cpu);
            let pc = sys.hv.cpus[cpu as int];
            let now = after.hv.cpus[cpu as int];
            let vcpu = sys.hv.vcpus[id];
            let regs = vcpu.arch.el1_regs;
            let fired = pc.sched.current == Some(id) && sys.hw.el1.cntv_ctl_el0 & 1 != 0
                && sys.hw.el1.cntv_ctl_el0 & 2 != 0 && sys.hw.el1.cntv_ctl_el0 & 4 != 0;
            let count = sys.hw.timer.cntpct_el0;
            let due = pc.sched.queued(id) && regs.cntv_ctl_el0 & 1 != 0 && regs.cntv_ctl_el0 & 2
                == 0 && count >= regs.cntv_cval_el0.wrapping_add(regs.cntvoff_el2)
                && vcpu.pending.len() == 0;
            &&& fired || due ==> has_timer_irq(after.hv, id)
            &&& !fired && !due ==> after.hv.vcpus[id] == vcpu
            &&& after.hv.vcpus[id] == (VCpuView { pending: after.hv.vcpus[id].pending, ..vcpu })
            &&& now.sched.current == pc.sched.current
            &&& pc.sched.current is Some ==> {
                &&& pc.sched.time_slice > 0 ==> now.sched.time_slice == pc.sched.time_slice - 1
                &&& pc.sched.time_slice <= 1 ==> now.need_resched
            }
            &&& pc.need_resched ==> now.need_resched
            &&& after.hw.timer.cnthp_ctl_el2 == 1
            &&& after.hw.timer.cnthp_tval_el2 == sys.hv.tick
            &&& after.hw.el1 == sys.hw.el1
            &&& after.hw.ops == sys.hw.ops
        }),
{
    let w = sys.hv.wake_view(cpu);
    let now = sys.hw.timer.cntpct_el0;
    let tick = sys.hv.tick;
    crate::hypervisor::lemma_cpu_ok(sys.hv, cpu);
    crate::laws::turns::lemma_tick_wakes_exactly(w, now, tick);
    crate::hypervisor::lemma_timers_checked_ok(w, now, tick, 0, cpu);
    let checked = w.timers_checked(now, tick, 0);
    assert(!crate::laws::turns::is_due(w, now, tick, 0, id)) by {
        if crate::laws::turns::is_due(w, now, tick, 0, id) {
            let i = choose|i: int|
                0 <= i < w.sched.blocked.len() && (#[trigger] w.sched.blocked[i]).vcpu == id
                    && crate::laws::turns::due(w.sched.blocked[i], w.vcpus, now, tick);
            assert(w.sched.waits(w.sched.blocked[i].vcpu));
        }
    }
    crate::laws::turns::lemma_ready_is_queued(checked.sched, id);
    crate::laws::turns::lemma_ready_is_queued(w.sched, id);
    lemma_timer_irq_stays(w.vcpus[id]);
    lemma_timer_irq_stays(w.vcpus[id].with_irq(27, false));
    lemma_time_slice_kept(w, now, tick, 0);
}

proof fn lemma_time_slice_kept(w: crate::scheduler::WakeView, now: u64, tick: u64, i: int)
    requires
        0 <= i,
    ensures
        w.timers_checked(now, tick, i).sched.time_slice == w.sched.time_slice,
    decreases w.sched.blocked.len() - i,
{
    if i < w.sched.blocked.len() {
        let entry = w.sched.blocked[i];
        if entry.expired(now) {
            lemma_time_slice_kept(w.wake_at(i, true), now, tick, i);
        } else if entry.timed_out(w.vcpus[entry.vcpu].pending.len() > 0, now, tick) {
            lemma_time_slice_kept(w.wake_at(i, false), now, tick, i);
        } else {
            lemma_time_slice_kept(w, now, tick, i + 1);
        }
    }
}

} // verus!

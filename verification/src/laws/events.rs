//! Events between pCPUs.

use vstd::prelude::*;
use crate::cpu_data::{PendingWake, PerCpuView};
use crate::event::{EventOutcome, EventStep};
use crate::hardware::{HardwareView, Op};
use crate::hypervisor::{HvView, Sys};
use crate::vcpu::{PendingIrq, VCpuState};

verus! {

/// An event that is sent to a pCPU is the last to be handled there, after all that were
/// sent before, and an SGI is raised on it; only the order to shut down overtakes the
/// others, which it makes void.  No other pCPU gets it.
pub proof fn lemma_sent(sys: Sys, cpu: usize, event: usize, other: int)
    requires
        cpu < sys.hv.events.len(),
        0 <= other < sys.hv.events.len(),
    ensures
        ({
            let after = sys.sent(cpu, 7, event);
            let before = sys.hv.events[cpu as int];
            let queue = after.hv.events[cpu as int];
            &&& event != 1 ==> queue.len() == before.len() + 1 && forall|i: int|
                0 <= i < before.len() ==> #[trigger] queue[i] == before[i]
            &&& event == 1 ==> queue.len() == 1
            &&& queue.last() == event
            &&& other != cpu ==> after.hv.events[other] == sys.hv.events[other]
            &&& after.hv == (HvView { events: after.hv.events, ..sys.hv })
            &&& after.hw == (HardwareView {
                ops: sys.hw.ops.push(Op::RaiseSgi { cpu, sgi: 7 }),
                ..sys.hw
            })
        }),
{
}

/// Events are fetched in the order in which they were sent: the next is the oldest, also
/// if another is sent meanwhile, and what is left is in the same order.
pub proof fn lemma_fetched_in_order(queues: Seq<Seq<usize>>, cpu: usize, event: usize)
    requires
        cpu < queues.len(),
    ensures
        ({
            let queue = queues[cpu as int];
            let front = crate::event::event_at_front(queues, cpu);
            let rest = crate::event::events_after_fetch(queues, cpu);
            let with = crate::event::events_with(queues, cpu, event);
            &&& front is None <==> queue.len() == 0
            &&& queue.len() > 0 ==> {
                &&& front == Some(queue[0])
                &&& rest[cpu as int].len() == queue.len() - 1
                &&& forall|i: int|
                    0 <= i < queue.len() - 1 ==> #[trigger] rest[cpu as int][i] == queue[i + 1]
                &&& event != 1 ==> {
                    &&& crate::event::event_at_front(with, cpu) == front
                    &&& crate::event::events_after_fetch(with, cpu) == crate::event::events_with(
                        rest,
                        cpu,
                        event,
                    )
                }
            }
            &&& queue.len() == 0 || event == 1 ==> crate::event::event_at_front(with, cpu) == Some(
                event,
            )
            &&& forall|other: int|
                0 <= other < queues.len() && other != cpu ==> #[trigger] rest[other]
                    == queues[other]
        }),
{
    let queue = queues[cpu as int];
    let rest = crate::event::events_after_fetch(queues, cpu);
    let with = crate::event::events_with(queues, cpu, event);
    if queue.len() > 0 && event != 1 {
        assert(queue.push(event).subrange(1, queue.len() as int + 1) =~= queue.subrange(
            1,
            queue.len() as int,
        ).push(event));
        assert(crate::event::events_after_fetch(with, cpu) =~= crate::event::events_with(
            rest,
            cpu,
            event,
        ));
    }
}

/// What each event makes a pCPU do.
pub proof fn lemma_each_event(sys: Sys, cpu: usize, event: usize)
    requires
        cpu < sys.hv.cpus.len(),
    ensures
        ({
            let (after, step) = sys.event_handled(cpu, event);
            let pc = sys.hv.cpus[cpu as int];
            let now = after.hv.cpus[cpu as int];
            &&& event == 0 ==> step == EventStep::Run && after == sys
            &&& event == 1 ==> step == EventStep::Idle && after == sys
            &&& event == 2 ==> step == EventStep::Handled && after.hv == sys.hv && after.hw.ops
                == sys.hw.ops.push(Op::HandleVirtioIrq)
            &&& event == 4 || event == 5 || event == 6 ==> step == EventStep::Handled && after.hv
                == sys.hv && after.hw.ops == sys.hw.ops.push(Op::ArchEvent { event })
            &&& event == 3 || event == 7 || event == 8 ==> step == EventStep::Handled
            &&& event == 9 ==> {
                &&& step == EventStep::Idle
                &&& now.current_vcpu is None
                &&& now.sched.current is None
                &&& now.sched.ready_count() == 0
                &&& now.sched.blocked.len() == 0
                &&& !now.power_on
                &&& now.zone == pc.zone
                &&& after.hv.vcpus == sys.hv.vcpus
                &&& after.hw.el1.cntv_ctl_el0 == 0
                &&& after.hw.el1.cntp_ctl_el0 == 0
                &&& after.hw.el1.cntv_cval_el0 == 0
                &&& after.hw.el1.cntvoff_el2 == 0
                &&& after.hw.ops == sys.hw.ops
            }
            &&& event == 8 ==> {
                &&& now.need_resched
                &&& now.incoming.len() == 0
                &&& after.hw == sys.hw
                &&& after.hv.vcpus == sys.hv.vcpus
            }
            &&& event > 9 ==> step == EventStep::Ignored && after == sys
            &&& forall|other: int|
                0 <= other < sys.hv.cpus.len() && other != cpu && event != 3 && event != 7
                    ==> #[trigger] after.hv.cpus[other] == sys.hv.cpus[other]
        }),
{
    if event == 8 {
        let pc = sys.hv.cpus[cpu as int];
        lemma_arrived_frame(
            sys.hv.with_cpu(cpu, PerCpuView { incoming: Seq::empty(), ..pc }),
            cpu,
            pc.incoming,
        );
    }
}

proof fn lemma_arrived_frame(hv: HvView, cpu: usize, arrivals: Seq<usize>)
    requires
        cpu < hv.cpus.len(),
    ensures
        ({
            let after = hv.arrived(cpu, arrivals);
            &&& after.vcpus == hv.vcpus
            &&& after.cpus.len() == hv.cpus.len()
            &&& after.cpus[cpu as int].incoming == hv.cpus[cpu as int].incoming
            &&& forall|other: int|
                0 <= other < hv.cpus.len() && other != cpu ==> #[trigger] after.cpus[other]
                    == hv.cpus[other]
        }),
    decreases arrivals.len(),
{
    if arrivals.len() > 0 {
        lemma_arrived_frame(
            hv.moved_to_queue(cpu, arrivals[0]),
            cpu,
            arrivals.subrange(1, arrivals.len() as int),
        );
    }
}

/// A vCPU that was sent to a pCPU is in its run queues once the pCPU has handled the event
/// that told it so.
pub proof fn lemma_incoming_event(sys: Sys, cpu: usize, id: usize)
    requires
        cpu < sys.hv.cpus.len(),
        sys.hv.cpus[cpu as int].sched.wf(),
        sys.hv.cpus[cpu as int].incoming.contains(id),
    ensures
        ({
            let after = sys.event_handled(cpu, 8).0;
            &&& after.hv.cpus[cpu as int].sched.queued(id)
            &&& after.hv.cpus[cpu as int].need_resched
        }),
{
    broadcast use vstd::multiset::group_multiset_axioms;

    let incoming = sys.hv.cpus[cpu as int].incoming;
    let drained = sys.hv.incoming_drained(cpu);
    crate::laws::turns::lemma_arrivals_queued(sys.hv, cpu);
    incoming.to_multiset_ensures();
    crate::laws::turns::lemma_ready_is_queued(drained.cpus[cpu as int].sched, id);
    assert(incoming.to_multiset().count(id) > 0);
}

/// All events are handled, or those until one that sends the pCPU elsewhere: it goes on
/// to its guest only for the order to do so, and idle only for an order to shut down.
pub proof fn lemma_events_until_done(sys: Sys, cpu: usize, handled: bool)
    requires
        cpu < sys.hv.events.len(),
    ensures
        ({
            let (after, outcome) = sys.events_checked(cpu, handled);
            let queue = sys.hv.events[cpu as int];
            &&& outcome is Done ==> after.hv.events[cpu as int].len() == 0
            &&& outcome is Done && handled ==> outcome->handled
            &&& outcome == EventOutcome::Run ==> queue.contains(0)
            &&& outcome == EventOutcome::Idle ==> queue.contains(1) || queue.contains(9)
            &&& outcome is Done ==> !queue.contains(0) && !queue.contains(1) && !queue.contains(9)
        }),
    decreases sys.hv.events[cpu as int].len(),
{
    let queue = sys.hv.events[cpu as int];
    if queue.len() > 0 {
        let event = queue[0];
        let fetched = sys.event_fetched(cpu);
        crate::event::lemma_event_keeps_queue(fetched, cpu, event);
        let (next, step) = fetched.event_handled(cpu, event);
        let rest = next.hv.events[cpu as int];
        assert(rest == queue.subrange(1, queue.len() as int));
        assert forall|e: usize| queue.contains(e) implies e == event || #[trigger] rest.contains(
            e,
        ) by {
            let k = choose|k: int| 0 <= k < queue.len() && queue[k] == e;
            if k > 0 {
                assert(rest[k - 1] == e);
            }
        }
        assert forall|e: usize| #[trigger] rest.contains(e) implies queue.contains(e) by {
            let k = choose|k: int| 0 <= k < rest.len() && rest[k] == e;
            assert(queue[k + 1] == e);
        }
        assert(queue.contains(event));
        if step == EventStep::Handled {
            lemma_events_until_done(next, cpu, true);
        } else if step == EventStep::Ignored {
            lemma_events_until_done(next, cpu, handled);
        }
    }
}

// ---------------------------------------------------------------------------
// Requests to wake
// ---------------------------------------------------------------------------

/// A request to wake a vCPU that is blocked on the pCPU makes it ready, with the interrupt
/// pending, and in the run queue; one for a vCPU that is ready makes the interrupt
/// pending; one for any other vCPU does nothing.
pub proof fn lemma_wake_met(hv: HvView, cpu: usize, wake: PendingWake)
    requires
        cpu < hv.cpus.len(),
        hv.cpus[cpu as int].sched.wf(),
    ensures
        ({
            let id = wake.vcpu_id;
            let sched = hv.cpus[cpu as int].sched;
            let after = hv.wake_met(cpu, wake);
            let irq = PendingIrq { irq_id: wake.irq_id, is_hardware: wake.is_hardware };
            let blocked = sched.waits(id) && hv.vcpus[id].state == VCpuState::Blocked;
            &&& blocked ==> after.vcpus[id].state == VCpuState::Ready
                && after.cpus[cpu as int].sched.queued(id)
            &&& !blocked ==> after.vcpus[id].state == hv.vcpus[id].state
            &&& sched.waits(id) || sched.queued(id) ==> after.vcpus[id].pending.contains(irq)
            &&& !sched.waits(id) && !sched.queued(id) ==> after == hv
            &&& forall|other: usize|
                other != id ==> #[trigger] after.vcpus[other] == hv.vcpus[other]
            &&& forall|other: usize|
                sched.queued(other) ==> #[trigger] after.cpus[cpu as int].sched.queued(other)
        }),
{
    let id = wake.vcpu_id;
    let sched = hv.cpus[cpu as int].sched;
    crate::laws::lemma_pended_is_there(hv.vcpus[id], wake.irq_id, wake.is_hardware);
    let free = sched.without_blocked(id);
    crate::laws::ready::lemma_enqueued(free, id, hv.vcpus[id].priority);
}

/// vCPU `id` waits for its turn on pCPU `cpu`.
pub open spec fn waits_for_turn(hv: HvView, cpu: usize, id: usize) -> bool {
    hv.vcpus[id].state == VCpuState::Ready && hv.cpus[cpu as int].sched.queued(id)
}

/// vCPU `id` is blocked on pCPU `cpu`.
pub open spec fn blocked_on(hv: HvView, cpu: usize, id: usize) -> bool {
    hv.vcpus[id].state == VCpuState::Blocked && hv.cpus[cpu as int].sched.waits(id)
}

proof fn lemma_other_still_blocked(hv: HvView, cpu: usize, wake: PendingWake, id: usize)
    requires
        cpu < hv.cpus.len(),
        hv.cpus[cpu as int].sched.wf(),
        blocked_on(hv, cpu, id),
        id != wake.vcpu_id,
    ensures
        blocked_on(hv.wake_met(cpu, wake), cpu, id),
{
    let sched = hv.cpus[cpu as int].sched;
    let at = crate::scheduler::blocked_position(sched.blocked, wake.vcpu_id, 0);
    crate::scheduler::lemma_blocked_position(sched.blocked, wake.vcpu_id, 0);
    let free = sched.without_blocked(wake.vcpu_id);
    let k = choose|k: int| 0 <= k < sched.blocked.len() && (#[trigger] sched.blocked[k]).vcpu == id;
    if at < sched.blocked.len() {
        if k < at {
            assert(free.blocked[k] == sched.blocked[k]);
        } else {
            assert(free.blocked[k - 1] == sched.blocked[k]);
        }
    } else {
        assert(free.blocked[k].vcpu == id);
    }
    assert(free.waits(id));
    let after = hv.wake_met(cpu, wake).cpus[cpu as int].sched;
    assert(after.blocked == sched.blocked || after.blocked == free.blocked);
    if after.blocked == free.blocked {
        let j = choose|j: int|
            0 <= j < free.blocked.len() && (#[trigger] free.blocked[j]).vcpu == id;
        assert(after.blocked[j].vcpu == id);
    } else {
        assert(after.blocked[k].vcpu == id);
    }
}

proof fn lemma_all_wakes_met(hv: HvView, cpu: usize, wakes: Seq<PendingWake>, id: usize)
    requires
        cpu < hv.cpus.len(),
        hv.cpus[cpu as int].sched.wf(),
        waits_for_turn(hv, cpu, id) || (blocked_on(hv, cpu, id) && exists|i: int|
            0 <= i < wakes.len() && (#[trigger] wakes[i]).vcpu_id == id),
    ensures
        waits_for_turn(hv.wakes_met(cpu, wakes), cpu, id),
        hv.wakes_met(cpu, wakes).cpus[cpu as int].sched.wf(),
    decreases wakes.len(),
{
    if wakes.len() > 0 {
        let next = hv.wake_met(cpu, wakes[0]);
        let rest = wakes.subrange(1, wakes.len() as int);
        lemma_wake_met(hv, cpu, wakes[0]);
        if !waits_for_turn(hv, cpu, id) && wakes[0].vcpu_id != id {
            lemma_other_still_blocked(hv, cpu, wakes[0], id);
            let i = choose|i: int| 0 <= i < wakes.len() && (#[trigger] wakes[i]).vcpu_id == id;
            assert(rest[i - 1].vcpu_id == id);
        }
        lemma_all_wakes_met(next, cpu, rest, id);
    }
}

proof fn lemma_turn_stays(w: crate::scheduler::WakeView, i: int, id: usize)
    requires
        0 <= i,
        w.sched.wf(),
        w.vcpus[id].state == VCpuState::Ready,
        w.sched.queued(id),
    ensures
        w.pending_woken(i).vcpus[id].state == VCpuState::Ready,
        w.pending_woken(i).sched.queued(id),
    decreases w.sched.blocked.len() - i,
{
    if i < w.sched.blocked.len() {
        let other = w.sched.blocked[i].vcpu;
        if w.vcpus[other].pending.len() > 0 {
            crate::laws::ready::lemma_enqueued(
                w.sched.without_blocked_at(i),
                other,
                w.vcpus[other].priority,
            );
            lemma_turn_stays(w.wake_at(i, false), i, id);
        } else {
            lemma_turn_stays(w, i + 1, id);
        }
    }
}

/// A pCPU that was told to schedule makes each of its blocked vCPUs ready that it was
/// asked to wake.
pub proof fn lemma_asked_vcpus_wake(sys: Sys, cpu: usize, k: int)
    requires
        sys.hv.wf(),
        cpu < sys.hv.cpus.len(),
        0 <= k < sys.hv.cpus[cpu as int].wakes.len(),
        blocked_on(sys.hv, cpu, sys.hv.cpus[cpu as int].wakes[k].vcpu_id),
    ensures
        waits_for_turn(
            sys.event_handled(cpu, 7).0.hv,
            cpu,
            sys.hv.cpus[cpu as int].wakes[k].vcpu_id,
        ),
{
    let pc = sys.hv.cpus[cpu as int];
    let id = pc.wakes[k].vcpu_id;
    crate::hypervisor::lemma_cpu_ok(sys.hv, cpu);
    let emptied = sys.hv.with_cpu(cpu, PerCpuView { wakes: Seq::empty(), ..pc });
    lemma_all_wakes_met(emptied, cpu, pc.wakes, id);
    let met = sys.hv.wake_ids_drained(cpu);
    let asked = if sys.hv.wake_ids_working(cpu) > 0 {
        met.resched(cpu)
    } else {
        met
    };
    lemma_wakes_frame(emptied, cpu, pc.wakes);
    lemma_turn_stays(asked.wake_view(cpu), 0, id);
}

/// A pCPU that was told to schedule has met all requests to wake its vCPUs, has none of
/// them blocked that has something pending, and schedules if it was to.
pub proof fn lemma_resched_event(sys: Sys, cpu: usize)
    requires
        sys.hv.wf(),
        cpu < sys.hv.cpus.len(),
    ensures
        ({
            let after = sys.event_handled(cpu, 7).0;
            let met = sys.hv.wake_ids_drained(cpu);
            let now = after.hv.cpus[cpu as int];
            &&& now.wakes.len() == 0
            &&& forall|k: int|
                0 <= k < now.sched.blocked.len()
                    ==> after.hv.vcpus[(#[trigger] now.sched.blocked[k]).vcpu].pending.len() == 0
            &&& sys.hv.cpus[cpu as int].need_resched ==> now.need_resched
            &&& after.hw == sys.hw
        }),
{
    let pc = sys.hv.cpus[cpu as int];
    let emptied = sys.hv.with_cpu(cpu, PerCpuView { wakes: Seq::empty(), ..pc });
    lemma_wakes_frame(emptied, cpu, pc.wakes);
    let met = sys.hv.wake_ids_drained(cpu);
    let asked = if sys.hv.wake_ids_working(cpu) > 0 {
        met.resched(cpu)
    } else {
        met
    };
    crate::laws::lemma_resched_wakes_pending(asked.wake_view(cpu));
}

proof fn lemma_wakes_frame(hv: HvView, cpu: usize, wakes: Seq<PendingWake>)
    requires
        cpu < hv.cpus.len(),
    ensures
        ({
            let after = hv.wakes_met(cpu, wakes);
            &&& after.cpus.len() == hv.cpus.len()
            &&& after.cpus[cpu as int] == hv.cpus[cpu as int].with_sched(
                after.cpus[cpu as int].sched,
            )
        }),
    decreases wakes.len(),
{
    if wakes.len() > 0 {
        lemma_wakes_frame(
            hv.wake_met(cpu, wakes[0]),
            cpu,
            wakes.subrange(1, wakes.len() as int),
        );
    }
}

/// Making a blocked vCPU ready on a request is followed by scheduling.
pub proof fn lemma_wake_is_followed(sys: Sys, cpu: usize)
    requires
        sys.hv.wf(),
        cpu < sys.hv.cpus.len(),
        sys.hv.cpus[cpu as int].wakes.len() > 0,
        sys.hv.cpus[cpu as int].sched.waits(sys.hv.cpus[cpu as int].wakes[0].vcpu_id),
        sys.hv.vcpus[sys.hv.cpus[cpu as int].wakes[0].vcpu_id].state == VCpuState::Blocked,
    ensures
        sys.event_handled(cpu, 7).0.hv.cpus[cpu as int].need_resched,
{
    let pc = sys.hv.cpus[cpu as int];
    let emptied = sys.hv.with_cpu(cpu, PerCpuView { wakes: Seq::empty(), ..pc });
    assert(emptied.cpus[cpu as int].sched == pc.sched);
    assert(emptied.wake_works(cpu, pc.wakes[0]));
    assert(sys.hv.wake_ids_working(cpu) > 0);
    lemma_wakes_frame(emptied, cpu, pc.wakes);
}

proof fn lemma_nothing_pending(w: crate::scheduler::WakeView, i: int)
    requires
        0 <= i,
        forall|k: int|
            0 <= k < w.sched.blocked.len() ==> w.vcpus[(
            #[trigger] w.sched.blocked[k]).vcpu].pending.len() == 0,
    ensures
        w.pending_woken(i) == w,
    decreases w.sched.blocked.len() - i,
{
    if i < w.sched.blocked.len() {
        assert(w.vcpus[w.sched.blocked[i].vcpu].pending.len() == 0);
        lemma_nothing_pending(w, i + 1);
    }
}

/// A pCPU that is told to schedule without a reason does not: if it was asked to wake
/// nothing, and nothing is pending for its blocked vCPUs, nothing changes.
pub proof fn lemma_resched_without_reason(sys: Sys, cpu: usize)
    requires
        sys.hv.wf(),
        cpu < sys.hv.cpus.len(),
        sys.hv.cpus[cpu as int].wakes.len() == 0,
        forall|k: int|
            0 <= k < sys.hv.cpus[cpu as int].sched.blocked.len() ==> sys.hv.vcpus[(
            #[trigger] sys.hv.cpus[cpu as int].sched.blocked[k]).vcpu].pending.len() == 0,
    ensures
        sys.event_handled(cpu, 7) == (sys, EventStep::Handled),
{
    let pc = sys.hv.cpus[cpu as int];
    assert(pc.wakes =~= Seq::empty());
    let met = sys.hv.wake_ids_drained(cpu);
    assert(met.cpus =~= sys.hv.cpus);
    lemma_nothing_pending(met.wake_view(cpu), 0);
    assert(sys.hv.resched_handled(cpu).cpus =~= sys.hv.cpus);
}

} // verus!

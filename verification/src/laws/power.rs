//! What a guest's power calls do to its vCPUs.

use vstd::prelude::*;
use crate::arch::aarch64::trap::PsciStep;
use crate::arch::aarch64::vcpu::ArchVCpuView;
use crate::hardware::Op;
use crate::hypervisor::{HvView, Sys};
use crate::scheduler::SchedOutcome;
use crate::vcpu::{VCpuState, VCpuView};

verus! {

/// The number of a call to suspend the vCPU, in the narrow or the wide form.
pub open spec fn asks_to_suspend(code: u64) -> bool {
    code == 0x8400_0001 || code == 0xc400_0001
}

/// The number of a call to turn the vCPU off.
pub open spec fn asks_to_turn_off(code: u64) -> bool {
    code == 0x8400_0002 || code == 0xc400_0002
}

/// The number of a call to turn a vCPU on.
pub open spec fn asks_to_turn_on(code: u64) -> bool {
    code == 0x8400_0003 || code == 0xc400_0003
}

/// The number of a call that asks for the state of a vCPU.
pub open spec fn asks_for_state(code: u64) -> bool {
    code == 0x8400_0004 || code == 0xc400_0004
}

/// The vCPU that a guest on pCPU `cpu` knows by an affinity.
pub open spec fn known_as(hv: HvView, cpu: usize, mpidr: u64) -> Option<usize> {
    let zone = hv.zones[hv.cpus[cpu as int].zone->0].inner;
    let key = mpidr & 0xff_00ff_ffff;
    if zone.mpidrs.contains_key(key) && zone.vcpus.contains(zone.mpidrs[key]) {
        Some(zone.mpidrs[key])
    } else {
        None
    }
}

/// A vCPU that suspends is not stopped.  It is blocked, with everything else as it was,
/// and its pCPU is to schedule; then it leaves the pCPU and is in the blocked list with
/// the values of its timer.
pub proof fn lemma_suspend(sys: Sys, cpu: usize, id: usize, code: u64, x: Seq<u64>)
    requires
        sys.hv.wf(),
        cpu < sys.hv.cpus.len(),
        sys.hv.cpus[cpu as int].current_vcpu == Some(id),
        sys.hv.vcpus[id].state == VCpuState::Running,
        asks_to_suspend(code),
    ensures
        ({
            let (after, step) = sys.psci_called(cpu, code, x);
            &&& step == PsciStep::Return(0)
            &&& after.hv.vcpus[id] == (VCpuView { state: VCpuState::Blocked, ..sys.hv.vcpus[id] })
            &&& forall|other: usize|
                other != id ==> #[trigger] after.hv.vcpus[other] == sys.hv.vcpus[other]
            &&& after.hv.cpus[cpu as int].need_resched
            &&& after.hv.cpus[cpu as int].sched == sys.hv.cpus[cpu as int].sched
            &&& after.hv.events == sys.hv.events
            &&& after.hw == sys.hw
            &&& sys.hv.cpus[cpu as int].sched.current == Some(id) ==> {
                let (later, outcome) = after.scheduled(cpu);
                let sched = later.hv.cpus[cpu as int].sched;
                &&& outcome != SchedOutcome::Kept
                &&& sched.current != Some(id)
                &&& later.hv.vcpus[id].state == VCpuState::Blocked
                &&& later.hv.vcpus[id].pending == sys.hv.vcpus[id].pending
                &&& later.hv.vcpus[id].affinity == sys.hv.vcpus[id].affinity
                &&& sched.waits(id)
                &&& sched.blocked.len() > 0
                &&& sched.blocked.last().vcpu == id
                &&& sched.blocked.last().cntv_cval == sys.hw.el1.cntv_cval_el0
                &&& sched.blocked.last().cntvoff == sys.hw.el1.cntvoff_el2
                &&& sched.blocked.last().cntv_ctl & 1 == sys.hw.el1.cntv_ctl_el0 & 1
                &&& sched.blocked.last().blocked_at_cnt == sys.hw.timer.cntpct_el0
            }
        }),
{
    crate::hypervisor::lemma_cpu_ok(sys.hv, cpu);
    crate::hypervisor::lemma_vcpu_ok(sys.hv, id);
    let after = sys.psci_called(cpu, code, x).0;
    if sys.hv.cpus[cpu as int].sched.current == Some(id) {
        crate::laws::waiting::lemma_blocked_is_listed(after, cpu, id);
    }
}

/// A vCPU that suspended, and has left its pCPU, becomes ready again when an interrupt
/// comes for it there, which is then pending.
pub proof fn lemma_suspended_wakes_for_irq(
    sys: Sys,
    cpu: usize,
    id: usize,
    irq: usize,
    is_hardware: bool,
)
    requires
        sys.hv.wf(),
        cpu < sys.hv.cpus.len(),
        irq <= 0xffff_ffff,
        sys.hw.ich.lr.len() == 16,
        crate::laws::routing::runs_current(sys.hv, cpu),
        crate::laws::routing::irq_owner(sys.hv, cpu, irq) == Some(id),
        sys.hv.vcpus[id].state == VCpuState::Blocked,
        sys.hv.vcpus[id].affinity == Some(cpu),
    ensures
        ({
            let after = sys.routed(cpu, irq, is_hardware);
            &&& after.hv.vcpus[id].state == VCpuState::Ready
            &&& after.hv.cpus[cpu as int].sched.queued(id)
            &&& after.hv.cpus[cpu as int].need_resched
            &&& crate::laws::routing::is_pending(after.hv, id, irq, is_hardware)
        }),
{
    crate::laws::routing::lemma_routed_irq_not_lost(sys, cpu, irq, is_hardware);
}

/// A vCPU that suspended, and has left its pCPU, becomes ready again at the first tick at
/// which its timer has expired; the timer's interrupt is then pending.
pub proof fn lemma_suspended_wakes_for_timer(sys: Sys, cpu: usize, k: int)
    requires
        sys.hv.wf(),
        cpu < sys.hv.cpus.len(),
        crate::laws::turns::properly_blocked(sys.hv.wake_view(cpu), 0),
        0 <= k < sys.hv.cpus[cpu as int].sched.blocked.len(),
        ({
            let sched = sys.hv.cpus[cpu as int].sched;
            let entry = sched.blocked[k];
            &&& sched.current != Some(entry.vcpu)
            &&& entry.cntv_ctl & 1 != 0
            &&& sys.hw.timer.cntpct_el0.wrapping_sub(entry.cntvoff) >= entry.cntv_cval
        }),
    ensures
        ({
            let id = sys.hv.cpus[cpu as int].sched.blocked[k].vcpu;
            let after = sys.irq_handled(cpu, 26).0.hv;
            &&& after.vcpus[id].state == VCpuState::Ready
            &&& after.cpus[cpu as int].sched.queued(id)
            &&& !after.cpus[cpu as int].sched.waits(id)
            &&& after.cpus[cpu as int].need_resched
            &&& crate::laws::routing::is_pending(after, id, 27, false)
        }),
{
    crate::laws::waiting::lemma_tick_and_blocked(sys, cpu, k);
}

/// A vCPU that turns itself off is stopped, its pCPU schedules, and from then on the
/// guest is told that it is off.
pub proof fn lemma_turn_off(sys: Sys, cpu: usize, id: usize, code: u64, x: Seq<u64>)
    requires
        sys.hv.wf(),
        cpu < sys.hv.cpus.len(),
        sys.hv.cpus[cpu as int].current_vcpu == Some(id),
        sys.hv.vcpus[id].state == VCpuState::Running,
        asks_to_turn_off(code),
    ensures
        ({
            let (after, step) = sys.psci_called(cpu, code, x);
            &&& step == PsciStep::Return(0)
            &&& after.hv.vcpus[id] == (VCpuView { state: VCpuState::Stopped, ..sys.hv.vcpus[id] })
            &&& forall|other: usize|
                other != id ==> #[trigger] after.hv.vcpus[other] == sys.hv.vcpus[other]
            &&& after.hv.cpus[cpu as int].need_resched
            &&& after.hv.cpus[cpu as int].sched == sys.hv.cpus[cpu as int].sched
            &&& after.hv.events == sys.hv.events
            &&& after.hw == sys.hw
            &&& forall|ask: u64, y: Seq<u64>|
                asks_for_state(ask) && known_as(after.hv, cpu, y[1]) == Some(id)
                    ==> #[trigger] after.psci_called(cpu, ask, y).1 == PsciStep::Return(1)
        }),
{
    crate::hypervisor::lemma_cpu_ok(sys.hv, cpu);
    crate::hypervisor::lemma_vcpu_ok(sys.hv, id);
}

/// Of all power calls only the one to turn off stops a vCPU, and only the one that calls;
/// only the one to suspend blocks a vCPU, and only the one that calls; only the one to
/// turn on makes a vCPU ready, and only one that was stopped.
pub proof fn lemma_power_changes(sys: Sys, cpu: usize, code: u64, x: Seq<u64>, id: usize)
    requires
        sys.hv.wf(),
        cpu < sys.hv.cpus.len(),
        crate::arch::aarch64::trap::psci_needs_zone(code) ==> sys.hv.has_zone(cpu),
        sys.hv.vcpus.contains_key(id),
        sys.psci_called(cpu, code, x).0.hv.vcpus[id].state != sys.hv.vcpus[id].state,
    ensures
        ({
            let before = sys.hv.vcpus[id].state;
            let caller = sys.hv.cpus[cpu as int].current_vcpu;
            match sys.psci_called(cpu, code, x).0.hv.vcpus[id].state {
                VCpuState::Stopped => asks_to_turn_off(code) && caller == Some(id) && before
                    == VCpuState::Running,
                VCpuState::Blocked => asks_to_suspend(code) && caller == Some(id) && before
                    == VCpuState::Running,
                VCpuState::Ready => asks_to_turn_on(code) && known_as(sys.hv, cpu, x[1]) == Some(
                    id,
                ) && before == VCpuState::Stopped,
                VCpuState::Running => false,
            }
        }),
{
    crate::hypervisor::lemma_cpu_ok(sys.hv, cpu);
}

/// Turning on a vCPU of the zone that is stopped succeeds.  The vCPU is ready, with fresh
/// registers, its program counter at the entry point and the context in the first
/// register.  It joins the run queue of its pCPU, or is on its way there, and that pCPU is
/// told.  From then on the guest is told that it is on, and turning it on again fails.
pub proof fn lemma_turn_on(sys: Sys, cpu: usize, code: u64, x: Seq<u64>)
    requires
        sys.hv.wf(),
        cpu < sys.hv.cpus.len(),
        sys.hv.has_zone(cpu),
        asks_to_turn_on(code),
        known_as(sys.hv, cpu, x[1]) is Some,
        sys.hv.vcpus[known_as(sys.hv, cpu, x[1])->0].state == VCpuState::Stopped,
    ensures
        ({
            let id = known_as(sys.hv, cpu, x[1])->0;
            let (after, step) = sys.psci_called(cpu, code, x);
            let vcpu = after.hv.vcpus[id];
            let home = sys.hv.vcpus[id].affinity->0;
            let fresh = ArchVCpuView::fresh(vcpu.arch.stack_top, sys.hw.ich.vtr);
            &&& step == PsciStep::Return(0)
            &&& vcpu.state == VCpuState::Ready
            &&& vcpu.arch.frame.elr == x[2]
            &&& vcpu.arch.frame.x.len() == 31
            &&& vcpu.arch.frame.x[0] == x[3]
            &&& forall|i: int| 0 < i < 31 ==> #[trigger] vcpu.arch.frame.x[i] == 0
            &&& vcpu.arch.frame.spsr == 0x3c5
            &&& vcpu.arch.el1_regs == fresh.el1_regs
            &&& vcpu.arch.gic_state == fresh.gic_state
            &&& vcpu.arch.stack_top == sys.hv.vcpus[id].arch.stack_top
            &&& vcpu.zone == sys.hv.vcpus[id].zone
            &&& vcpu.affinity == sys.hv.vcpus[id].affinity
            &&& vcpu.priority == sys.hv.vcpus[id].priority
            &&& home == cpu ==> {
                &&& after.hv.cpus[cpu as int].sched.queued(id)
                &&& after.hv.cpus[cpu as int].need_resched
                &&& after.hw == sys.hw
            }
            &&& home != cpu ==> {
                &&& after.hv.cpus[home as int].incoming.contains(id)
                &&& after.hv.events[home as int].len() > 0
                &&& after.hv.events[home as int].last() == 8
                &&& after.hw.ops.len() > 0
                &&& after.hw.ops.last() == (Op::RaiseSgi { cpu: home, sgi: 7 })
            }
            &&& forall|other: usize|
                other != id ==> #[trigger] after.hv.vcpus[other] == sys.hv.vcpus[other]
            &&& after.psci_called(cpu, code, x).1 == PsciStep::Return(0xffff_ffff_ffff_fffc)
            &&& forall|ask: u64|
                asks_for_state(ask) ==> {
                    &&& #[trigger] sys.psci_called(cpu, ask, x).1 == PsciStep::Return(1)
                    &&& after.psci_called(cpu, ask, x).1 == PsciStep::Return(0)
                }
        }),
{
    let id = known_as(sys.hv, cpu, x[1])->0;
    let zone = sys.hv.cpus[cpu as int].zone->0;
    crate::hypervisor::lemma_cpu_ok(sys.hv, cpu);
    crate::hypervisor::lemma_wf_sizes(sys.hv);
    crate::hypervisor::lemma_zone_ok(sys.hv, zone);
    let k = choose|k: int|
        0 <= k < sys.hv.zones[zone].inner.vcpus.len() && sys.hv.zones[zone].inner.vcpus[k] == id;
    assert(sys.hv.vcpus.contains_key(sys.hv.zones[zone].inner.vcpus[k]));
    crate::hypervisor::lemma_vcpu_ok(sys.hv, id);
    let home = sys.hv.vcpus[id].affinity->0;
    let after = sys.psci_called(cpu, code, x).0;
    if home == cpu {
        let free = sys.hv.cpus[cpu as int].sched.without_blocked(id);
        crate::laws::ready::lemma_enqueued(free, id, sys.hv.vcpus[id].priority);
    } else {
        let incoming = after.hv.cpus[home as int].incoming;
        assert(incoming[incoming.len() - 1] == id);
    }
}

/// Turning on a vCPU that is not stopped fails and changes nothing, and so does turning
/// on what is none of the zone's vCPUs.
pub proof fn lemma_turn_on_refused(sys: Sys, cpu: usize, code: u64, x: Seq<u64>)
    requires
        sys.hv.wf(),
        cpu < sys.hv.cpus.len(),
        sys.hv.has_zone(cpu),
        asks_to_turn_on(code),
    ensures
        ({
            let id = known_as(sys.hv, cpu, x[1]);
            let (after, step) = sys.psci_called(cpu, code, x);
            &&& id is None ==> step == PsciStep::Return(0xffff_ffff_ffff_ffff) && after == sys
            &&& id is Some && sys.hv.vcpus[id->0].state != VCpuState::Stopped ==> step
                == PsciStep::Return(0xffff_ffff_ffff_fffc) && after == sys
        }),
{
}

/// The calls that only answer: the state of a vCPU is 0 if it is on and 1 if it is off or
/// unknown, the version is 1.1, no trusted system has to be migrated, and every call that
/// is answered is said to be there.  Of the architecture's own calls there is the one for
/// the version of the calling convention, which is 1.1 too.
pub proof fn lemma_power_answers(sys: Sys, cpu: usize, code: u64, x: Seq<u64>)
    requires
        !asks_to_suspend(code),
        !asks_to_turn_off(code),
        !asks_to_turn_on(code),
    ensures
        ({
            let (after, step) = sys.psci_called(cpu, code, x);
            let id = known_as(sys.hv, cpu, x[1]);
            let asked = x[1];
            let known = asked == 0x8400_0000 || asked == 0x8400_0002 || asked == 0x8400_000a
                || asked == 0x8000_0000 || asks_to_suspend(asked) || asks_to_turn_on(asked)
                || asks_for_state(asked);
            &&& after == sys
            &&& code == 0x8400_0000 ==> step == PsciStep::Return(0x1_0001)
            &&& code == 0x8400_0006 ==> step == PsciStep::Return(2)
            &&& code == 0x8400_000a ==> step == PsciStep::Return(
                if known {
                    0
                } else {
                    0xffff_ffff_ffff_ffff
                },
            )
            &&& asks_for_state(code) ==> step == PsciStep::Return(
                if id is Some && sys.hv.vcpus[id->0].state != VCpuState::Stopped {
                    0
                } else {
                    1
                },
            )
            &&& code == 0x8400_0008 <==> step == PsciStep::SystemOff
            &&& crate::arch::aarch64::trap::arch_smc_result(code) == if code == 0x8000_0000 {
                0x1_0001u64
            } else {
                0xffff_ffff_ffff_ffff
            }
        }),
{
}

} // verus!

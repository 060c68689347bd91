//! Laws that relate several operations of the library.

use vstd::prelude::*;
use crate::arch::aarch64::vcpu::{
    El1SysRegs, GicStateView, CNTV_ENABLE, CNTV_IMASK, CNTV_ISTATUS,
};
use crate::device::irqchip::gicv3::{EL2_TIMER_IRQ, LR_VIRTIRQ_MASK};
use crate::event::EventStep;
use crate::hardware::{HardwareView, IchView, Op};
use crate::hypercall::HyperCallCode;
use crate::hypervisor::{HvView, Sys};
use crate::scheduler::{BlockedVCpuEntry, SchedOutcome, SchedView, WakeView, STARVATION_THRESHOLD};
use crate::vcpu::{PendingIrq, VCpuState, VCpuView, CNTV_IRQ};
use crate::zone::{ZoneInnerView, ZoneView};

pub mod context;
pub mod controller;
pub mod creation;
pub mod emulation;
pub mod events;
pub mod lifecycle;
pub mod power;
pub mod queues;
pub mod ready;
pub mod redistributor;
pub mod regions;
pub mod routing;
pub mod traps;
pub mod turns;
pub mod waiting;
pub mod zones;

verus! {

// ---------------------------------------------------------------------------
// Life cycle
// ---------------------------------------------------------------------------

/// A vCPU only ever starts to run from the ready state, and a stopped vCPU only ever
/// becomes ready.
pub proof fn lemma_life_cycle(vcpu: VCpuView, from: VCpuState, to: VCpuState)
    ensures
        vcpu.state != VCpuState::Running && vcpu.tried(from, to).state == VCpuState::Running
            ==> vcpu.state == VCpuState::Ready,
        vcpu.state == VCpuState::Stopped ==> vcpu.tried(from, to).state == VCpuState::Stopped
            || vcpu.tried(from, to).state == VCpuState::Ready,
        !vcpu.moves(from, to) ==> vcpu.tried(from, to) == vcpu,
{
}

// ---------------------------------------------------------------------------
// Selection
// ---------------------------------------------------------------------------

/// The vCPU that is selected is the oldest of its queue, and no queue of a higher
/// priority has one.
pub proof fn lemma_highest_priority_first(sched: SchedView)
    requires
        sched.wf(),
        sched.picked() is Some,
    ensures
        ({
            let counted = sched.counted();
            let top = counted.top();
            &&& 0 <= top < 4
            &&& counted.run_queue[top].len() > 0
            &&& sched.picked() == Some(counted.run_queue[top][0])
            &&& forall|p: int| 0 <= p < top ==> (#[trigger] counted.run_queue[p]).len() == 0
        }),
{
}

/// vCPUs of one priority are selected in the order in which they were queued: adding
/// a vCPU to a queue that is not empty does not change what is selected from it.
pub proof fn lemma_queue_is_fifo(sched: SchedView, id: usize, priority: u8)
    requires
        sched.wf(),
        sched.starvation + 1 < STARVATION_THRESHOLD,
        sched.run_queue[crate::scheduler::queue_of(priority)].len() > 0,
    ensures
        sched.enqueued(id, priority).picked() == sched.picked(),
        sched.enqueued(id, priority).after_pick() == sched.after_pick().enqueued(id, priority),
{
    let p = crate::scheduler::queue_of(priority);
    let added = sched.enqueued(id, priority);
    let top = sched.counted().top();
    assert(added.counted().top() == top);
    let queue = sched.run_queue[p];
    assert(added.run_queue[p] == queue.push(id));
    if p == top {
        assert(queue.push(id).subrange(1, queue.len() as int + 1) =~= queue.subrange(
            1,
            queue.len() as int,
        ).push(id));
    }
    assert(added.after_pick().run_queue =~= sched.after_pick().enqueued(id, priority).run_queue);
}

/// The scheduler after `n` selections.
pub open spec fn after_picks(sched: SchedView, n: nat) -> SchedView
    decreases n,
{
    if n == 0 {
        sched
    } else {
        after_picks(sched, (n - 1) as nat).after_pick()
    }
}

proof fn lemma_after_picks(sched: SchedView, n: nat)
    requires
        sched.wf(),
        sched.starvation + n < STARVATION_THRESHOLD,
        forall|k: nat| k < n ==> (#[trigger] after_picks(sched, k)).counted().top() != 3,
    ensures
        after_picks(sched, n).wf(),
        after_picks(sched, n).starvation == sched.starvation + n,
    decreases n,
{
    if n > 0 {
        let before = after_picks(sched, (n - 1) as nat);
        lemma_after_picks(sched, (n - 1) as nat);
        crate::scheduler::lemma_pick_count(before);
        assert(before.counted().top() != 3);
    }
}

/// The lowest priority does not starve: among any ten selections in a row there is one
/// for which it is served, or before which all its vCPUs are raised.
pub proof fn lemma_no_starvation(sched: SchedView)
    requires
        sched.wf(),
    ensures
        exists|k: nat|
            k < STARVATION_THRESHOLD && {
                let counted = (#[trigger] after_picks(sched, k)).counted();
                counted.top() == 3 || counted.run_queue[3].len() == 0
            },
{
    let last = (STARVATION_THRESHOLD - 1 - sched.starvation) as nat;
    if forall|k: nat| k < last ==> (#[trigger] after_picks(sched, k)).counted().top() != 3 {
        lemma_after_picks(sched, last);
        assert(after_picks(sched, last).counted().run_queue[3].len() == 0);
    } else {
        let k = choose|k: nat|
            k < last && (#[trigger] after_picks(sched, k)).counted().top() == 3;
        assert(after_picks(sched, k).counted().top() == 3);
    }
}

/// All vCPUs in the run queues, each as often as it is there.
pub open spec fn ready_vcpus(sched: SchedView) -> vstd::multiset::Multiset<usize> {
    sched.run_queue[0].to_multiset().add(sched.run_queue[1].to_multiset()).add(
        sched.run_queue[2].to_multiset(),
    ).add(sched.run_queue[3].to_multiset())
}

/// A selection loses and invents no vCPU: what was in the run queues is what is left
/// in them together with what was selected.
pub proof fn lemma_selection_conserves(sched: SchedView)
    requires
        sched.wf(),
    ensures
        ready_vcpus(sched) == match sched.picked() {
            Some(id) => ready_vcpus(sched.after_pick()).insert(id),
            None => ready_vcpus(sched.after_pick()),
        },
{
    broadcast use vstd::multiset::group_multiset_axioms;

    let counted = sched.counted();
    assert(ready_vcpus(sched) =~= ready_vcpus(counted)) by {
        vstd::seq_lib::lemma_multiset_commutative(sched.run_queue[2], sched.run_queue[3]);
        Seq::<usize>::empty().to_multiset_ensures();
        assert(Seq::<usize>::empty().to_multiset() =~= vstd::multiset::Multiset::empty());
    }
    let top = counted.top();
    if top < 4 {
        let queue = counted.run_queue[top];
        let rest = queue.subrange(1, queue.len() as int);
        assert(queue =~= seq![queue[0]] + rest);
        vstd::seq_lib::lemma_multiset_commutative(seq![queue[0]], rest);
        assert(seq![queue[0]] =~= Seq::<usize>::empty().push(queue[0]));
        Seq::<usize>::empty().to_multiset_ensures();
        assert(seq![queue[0]].to_multiset() =~= vstd::multiset::Multiset::empty().insert(queue[0]));
        assert(queue.to_multiset() =~= rest.to_multiset().insert(queue[0]));
        assert(ready_vcpus(counted) =~= ready_vcpus(sched.after_pick()).insert(queue[0]));
    }
}

// ---------------------------------------------------------------------------
// Blocked vCPUs
// ---------------------------------------------------------------------------

/// A blocked vCPU is overdue: its timer has expired, or it has waited as long as any
/// may.
pub open spec fn overdue(entry: BlockedVCpuEntry, now: u64, tick: u64) -> bool {
    ||| entry.expired(now)
    ||| now >= entry.blocked_at_cnt.wrapping_add(
        tick.wrapping_mul(crate::scheduler::BLOCKED_TIMEOUT_TICKS),
    )
}

proof fn lemma_timers_checked_from(w: WakeView, now: u64, tick: u64, i: int)
    requires
        0 <= i,
        forall|k: int|
            0 <= k < i && k < w.sched.blocked.len() ==> !overdue(
                #[trigger] w.sched.blocked[k],
                now,
                tick,
            ),
    ensures
        forall|k: int|
            0 <= k < w.timers_checked(now, tick, i).sched.blocked.len() ==> !overdue(
                #[trigger] w.timers_checked(now, tick, i).sched.blocked[k],
                now,
                tick,
            ),
    decreases w.sched.blocked.len() - i,
{
    if i < w.sched.blocked.len() {
        let entry = w.sched.blocked[i];
        if entry.expired(now) {
            let next = w.wake_at(i, true);
            assert forall|k: int| 0 <= k < i && k < next.sched.blocked.len() implies !overdue(
                #[trigger] next.sched.blocked[k],
                now,
                tick,
            ) by {
                assert(next.sched.blocked[k] == w.sched.blocked[k]);
            }
            lemma_timers_checked_from(next, now, tick, i);
        } else if entry.timed_out(w.vcpus[entry.vcpu].pending.len() > 0, now, tick) {
            let next = w.wake_at(i, false);
            assert forall|k: int| 0 <= k < i && k < next.sched.blocked.len() implies !overdue(
                #[trigger] next.sched.blocked[k],
                now,
                tick,
            ) by {
                assert(next.sched.blocked[k] == w.sched.blocked[k]);
            }
            lemma_timers_checked_from(next, now, tick, i);
        } else {
            lemma_timers_checked_from(w, now, tick, i + 1);
        }
    }
}

/// A tick leaves no vCPU blocked whose timer has expired or that has waited as long as
/// any may.
pub proof fn lemma_tick_wakes_overdue(w: WakeView, now: u64, tick: u64)
    ensures
        forall|k: int|
            0 <= k < w.timers_checked(now, tick, 0).sched.blocked.len() ==> !overdue(
                #[trigger] w.timers_checked(now, tick, 0).sched.blocked[k],
                now,
                tick,
            ),
{
    lemma_timers_checked_from(w, now, tick, 0);
}

proof fn lemma_pending_woken_from(w: WakeView, i: int)
    requires
        0 <= i,
        forall|k: int|
            0 <= k < i && k < w.sched.blocked.len()
                ==> w.vcpus[(#[trigger] w.sched.blocked[k]).vcpu].pending.len() == 0,
    ensures
        ({
            let after = w.pending_woken(i);
            forall|k: int|
                0 <= k < after.sched.blocked.len()
                    ==> after.vcpus[(#[trigger] after.sched.blocked[k]).vcpu].pending.len() == 0
        }),
    decreases w.sched.blocked.len() - i,
{
    if i < w.sched.blocked.len() {
        if w.vcpus[w.sched.blocked[i].vcpu].pending.len() > 0 {
            let next = w.wake_at(i, false);
            assert forall|k: int|
                0 <= k < i && k
                    < next.sched.blocked.len() implies next.vcpus[(#[trigger] next.sched.blocked[k]).vcpu].pending.len()
                == 0 by {
                assert(next.sched.blocked[k] == w.sched.blocked[k]);
            }
            lemma_pending_woken_from(next, i);
        } else {
            lemma_pending_woken_from(w, i + 1);
        }
    }
}

/// A pCPU that was told to schedule leaves no vCPU blocked that has something pending.
pub proof fn lemma_resched_wakes_pending(w: WakeView)
    ensures
        ({
            let after = w.pending_woken(0);
            forall|k: int|
                0 <= k < after.sched.blocked.len()
                    ==> after.vcpus[(#[trigger] after.sched.blocked[k]).vcpu].pending.len() == 0
        }),
{
    lemma_pending_woken_from(w, 0);
}

// ---------------------------------------------------------------------------
// Scheduling
// ---------------------------------------------------------------------------

/// After another vCPU was switched in, it is the one that runs and that the next
/// return goes to; and a pCPU waits only if no vCPU is ready on it.
pub proof fn lemma_dispatch_runs_or_waits(sys: Sys, cpu: usize, prev_zone: Option<usize>)
    requires
        cpu < sys.hv.cpus.len(),
        sys.hv.cpus[cpu as int].sched.wf(),
    ensures
        ({
            let (after, outcome) = sys.dispatched(cpu, prev_zone);
            let pc = after.hv.cpus[cpu as int];
            match outcome {
                SchedOutcome::Switched => {
                    &&& pc.sched.current is Some
                    &&& pc.current_vcpu == pc.sched.current
                    &&& after.hv.vcpus[pc.sched.current->0].state == VCpuState::Running
                    &&& pc.sched.time_slice == crate::scheduler::DEFAULT_TIME_SLICE
                },
                SchedOutcome::Idle { prev_zone: zone } => {
                    &&& zone == prev_zone
                    &&& pc.sched.ready_count() == 0
                },
                SchedOutcome::Kept => false,
            }
        }),
    decreases sys.hv.cpus[cpu as int].sched.ready_count(),
{
    let sched = sys.hv.cpus[cpu as int].sched;
    crate::scheduler::lemma_pick_count(sched);
    if let Some(id) = sched.picked() {
        if !sys.hv.vcpus[id].moves(VCpuState::Ready, VCpuState::Running) {
            lemma_dispatch_runs_or_waits(
                Sys { hv: sys.hv.selected(cpu), ..sys },
                cpu,
                prev_zone,
            );
        }
    }
}

/// A vCPU that leaves its pCPU is not forgotten: unless it was stopped, it is in a run
/// queue or in the blocked list.
pub proof fn lemma_stowed_is_known(hv: HvView, cpu: usize, id: usize, now: u64)
    requires
        cpu < hv.cpus.len(),
        hv.cpus[cpu as int].sched.wf(),
        hv.vcpus[id].state != VCpuState::Stopped,
    ensures
        ({
            let sched = hv.stowed(cpu, id, now).cpus[cpu as int].sched;
            sched.queued(id) || sched.waits(id)
        }),
{
    let before = hv.cpus[cpu as int].sched;
    let sched = hv.stowed(cpu, id, now).cpus[cpu as int].sched;
    let p = crate::scheduler::queue_of(hv.vcpus[id].priority);
    match hv.vcpus[id].state {
        VCpuState::Blocked => {
            assert(sched.blocked[before.blocked.len() as int].vcpu == id);
        },
        _ => {
            assert(sched.run_queue[p][before.run_queue[p].len() as int] == id);
        },
    }
}

// ---------------------------------------------------------------------------
// Context switch
// ---------------------------------------------------------------------------

/// Setting and clearing the second bit of a value.
pub proof fn lemma_second_bit(value: u64)
    by (bit_vector)
    ensures
        (value | 2) & 2 != 0,
        (value | 2) & 1 == value & 1,
        (value | 2) & 4 == value & 4,
        (value | 2) & !2 == value & !2,
        (value & !2) & 2 == 0,
        (value & !2) & !2 == value & !2,
        (value | 2) | 2 == value | 2,
        ((value | 2) & !2) & 2 == 0,
        ((value | 2) & !2) & !2 == value & !2,
{
}

/// Saving a vCPU's EL1 registers and restoring them gives back every register but the
/// virtual timer's control register, in which the mask is set exactly if the timer is
/// enabled and had expired.
pub proof fn lemma_el1_round_trip(regs: El1SysRegs)
    ensures
        ({
            let back = regs.masked().unmasked();
            let ctl = regs.cntv_ctl_el0;
            &&& back == (El1SysRegs { cntv_ctl_el0: back.cntv_ctl_el0, ..regs })
            &&& back.cntv_ctl_el0 & !CNTV_IMASK == ctl & !CNTV_IMASK
            &&& back.cntv_ctl_el0 & CNTV_IMASK != 0 <==> ctl & CNTV_ENABLE != 0 && ctl
                & CNTV_ISTATUS != 0
        }),
{
    lemma_second_bit(regs.cntv_ctl_el0);
}

/// While a vCPU is away, its virtual timer does not interrupt: an enabled timer is
/// masked on the pCPU that the vCPU has left.
pub proof fn lemma_timer_silent_when_away(sys: Sys, id: usize)
    ensures
        ({
            let ctl = sys.switched_out(id).hw.el1.cntv_ctl_el0;
            ctl & CNTV_ENABLE != 0 ==> ctl & CNTV_IMASK != 0
        }),
{
    lemma_second_bit(sys.hw.el1.cntv_ctl_el0);
}

/// Saving a vCPU's virtual interrupt controller and restoring it, on whatever the
/// interface holds by then, gives back what was there: the control registers, the list
/// registers that the hardware has and its active priorities.  Nothing else changes.
pub proof fn lemma_gic_round_trip(gic: GicStateView, ich: IchView, now: IchView)
    requires
        ich.lr.len() == 16,
        ich.ap1r.len() == 4,
    ensures
        ({
            let back = gic.saved(ich).restored(now);
            &&& back.vmcr == ich.vmcr
            &&& back.hcr == ich.hcr
            &&& back.vtr == now.vtr
            &&& back.lr.len() == 16
            &&& back.ap1r.len() == 4
            &&& forall|i: int|
                0 <= i < 16 ==> #[trigger] back.lr[i] == if i < gic.lr_count {
                    ich.lr[i]
                } else {
                    now.lr[i]
                }
            &&& forall|i: int|
                0 <= i < 4 ==> #[trigger] back.ap1r[i] == if gic.has_ap1r(i) {
                    ich.ap1r[i]
                } else {
                    now.ap1r[i]
                }
        }),
        gic.saved(ich).restored(ich) == ich,
{
    assert(gic.saved(ich).restored(ich).lr =~= ich.lr);
    assert(gic.saved(ich).restored(ich).ap1r =~= ich.ap1r);
}

/// Between vCPUs of one zone the stage-2 tables are not switched; between zones they
/// are, after stage-2 translation was turned on.
pub proof fn lemma_tables_switched_between_zones(
    hw: HardwareView,
    vcpu: VCpuView,
    zone: ZoneView,
    gicr_base: usize,
    prev_zone: Option<usize>,
)
    ensures
        ({
            let restored = crate::arch::aarch64::vcpu::vgicr_ops(
                gicr_base,
                vcpu.arch.gic_state.vgicr,
            );
            hw.switched_in(vcpu, zone, gicr_base, prev_zone).ops == if prev_zone == Some(
                vcpu.zone,
            ) {
                hw.ops + restored
            } else {
                (hw.ops + restored).push(Op::ActivateVmm).push(
                    Op::ActivateGpm { root: zone.inner.gpm.root },
                )
            }
        }),
{
}

// ---------------------------------------------------------------------------
// List registers
// ---------------------------------------------------------------------------

/// No two of the first `n` list registers hold the same interrupt.
pub open spec fn lrs_distinct(lrs: Seq<u64>, n: int) -> bool {
    forall|i: int, j: int|
        0 <= i < j < n && !crate::device::irqchip::gicv3::lr_free(#[trigger] lrs[i])
            && !crate::device::irqchip::gicv3::lr_free(#[trigger] lrs[j]) ==> lrs[i]
            & LR_VIRTIRQ_MASK != lrs[j] & LR_VIRTIRQ_MASK
}

/// The list register for an interrupt is in use and holds that interrupt.
pub proof fn lemma_lr_value(irq: usize, is_hardware: bool)
    requires
        irq <= 0xffff_ffff,
    ensures
        ({
            let lr = crate::device::irqchip::gicv3::lr_value(irq, is_hardware);
            &&& !crate::device::irqchip::gicv3::lr_free(lr)
            &&& lr & LR_VIRTIRQ_MASK == irq as u64
        }),
{
    let v = irq as u64;
    assert((v | 0x1000_0000_0000_0000u64 | 0x4000_0000_0000_0000u64) >> 62 != 0 && (v
        | 0x1000_0000_0000_0000u64 | 0x4000_0000_0000_0000u64 | 0x2000_0000_0000_0000u64 | (v
        << 32)) >> 62 != 0 && (v | 0x1000_0000_0000_0000u64 | 0x4000_0000_0000_0000u64)
        & 0xffff_ffff == v && (v | 0x1000_0000_0000_0000u64 | 0x4000_0000_0000_0000u64 | 0x2000_0000_0000_0000u64 | (v
        << 32)) & 0xffff_ffff == v) by (bit_vector)
        requires
            v <= 0xffff_ffff,
    ;
}

/// An injection overwrites no list register that is in use, leaves no interrupt in two
/// list registers, and if it succeeds, a list register holds the interrupt.
pub proof fn lemma_injection(sys: Sys, cpu: usize, irq: usize, is_hardware: bool)
    requires
        irq <= 0xffff_ffff,
        sys.hw.ich.lr.len() == 16,
        lrs_distinct(sys.hw.ich.lr, sys.hw.lr_count()),
    ensures
        ({
            let after = sys.injected(cpu, irq, is_hardware).hw.ich.lr;
            let n = sys.hw.lr_count();
            &&& forall|i: int|
                0 <= i < 16 && !crate::device::irqchip::gicv3::lr_free(
                    #[trigger] sys.hw.ich.lr[i],
                ) ==> after[i] == sys.hw.ich.lr[i]
            &&& lrs_distinct(after, n)
            &&& sys.injects(irq) ==> crate::device::irqchip::gicv3::lr_holds(after, n, irq)
        }),
{
    let n = sys.hw.lr_count();
    let lrs = sys.hw.ich.lr;
    let free = crate::device::irqchip::gicv3::lr_first_free(lrs, n, 0);
    let after = sys.injected(cpu, irq, is_hardware).hw.ich.lr;
    crate::device::irqchip::gicv3::lemma_lr_num(sys.hw.ich.vtr);
    crate::device::irqchip::gicv3::lemma_lr_first_free(lrs, n, 0);
    lemma_lr_value(irq, is_hardware);
    if !crate::device::irqchip::gicv3::lr_holds(lrs, n, irq) && free < n {
        assert(after[free] == crate::device::irqchip::gicv3::lr_value(irq, is_hardware));
        assert forall|i: int, j: int|
            0 <= i < j < n && !crate::device::irqchip::gicv3::lr_free(#[trigger] after[i])
                && !crate::device::irqchip::gicv3::lr_free(#[trigger] after[j]) implies after[i]
            & LR_VIRTIRQ_MASK != after[j] & LR_VIRTIRQ_MASK by {
            if i == free {
                assert(lrs[j] & LR_VIRTIRQ_MASK != irq as u64);
            } else if j == free {
                assert(lrs[i] & LR_VIRTIRQ_MASK != irq as u64);
            } else {
                assert(after[i] == lrs[i] && after[j] == lrs[j]);
            }
        }
    }
}

/// An interrupt that found no list register is not lost while a vCPU runs: it is the
/// last that is pending for that vCPU, unless it is the virtual timer's, which is
/// pending once.
pub proof fn lemma_refused_injection_waits(sys: Sys, cpu: usize, irq: usize, is_hardware: bool)
    requires
        !sys.injects(irq),
        sys.hv.cpus[cpu as int].sched.current is Some,
    ensures
        ({
            let id = sys.hv.cpus[cpu as int].sched.current->0;
            let pending = sys.injected(cpu, irq, is_hardware).hv.vcpus[id].pending;
            exists|i: int|
                0 <= i < pending.len() && #[trigger] pending[i] == (PendingIrq {
                    irq_id: irq,
                    is_hardware,
                })
        }),
{
    let id = sys.hv.cpus[cpu as int].sched.current->0;
    lemma_pended_is_there(sys.hv.vcpus[id], irq, is_hardware);
    crate::device::irqchip::gicv3::lemma_lr_num(sys.hw.ich.vtr);
}

/// What was made pending for a vCPU is in its queue.
pub proof fn lemma_pended_is_there(vcpu: VCpuView, irq: usize, is_hardware: bool)
    ensures
        exists|i: int|
            0 <= i < vcpu.with_irq(irq, is_hardware).pending.len()
                && #[trigger] vcpu.with_irq(irq, is_hardware).pending[i] == (PendingIrq {
                irq_id: irq,
                is_hardware,
            }),
{
    let before = vcpu.pending;
    let after = vcpu.with_irq(irq, is_hardware).pending;
    crate::vcpu::lemma_irq_position(before, irq, 0);
    let at = crate::vcpu::irq_position(before, irq, 0);
    if irq == CNTV_IRQ && at < before.len() {
        assert(after[at] == (PendingIrq { irq_id: irq, is_hardware }));
    } else {
        assert(after[after.len() - 1] == (PendingIrq { irq_id: irq, is_hardware }));
    }
}

/// What entering a guest with `irqs` to inject must keep: each interrupt is in a list
/// register, waits for vCPU `id`, or is raised by the timer itself.
spec fn reached(sys: Sys, id: usize, irq: PendingIrq, arrives: bool) -> bool {
    ||| crate::device::irqchip::gicv3::lr_holds(sys.hw.ich.lr, sys.hw.lr_count(), irq.irq_id)
    ||| sys.hv.vcpus[id].pending.contains(irq)
    ||| irq.irq_id == CNTV_IRQ && !irq.is_hardware && arrives
}

/// The list registers that are in use stay as they are, and what waits for vCPU `id`
/// goes on waiting.
spec fn irqs_kept(before: Sys, after: Sys, id: usize) -> bool {
    &&& after.hw.ich.lr.len() == 16
    &&& after.hw.ich.vtr == before.hw.ich.vtr
    &&& after.hv.cpus == before.hv.cpus
    &&& lrs_distinct(after.hw.ich.lr, after.hw.lr_count())
    &&& forall|i: int|
        0 <= i < 16 && !crate::device::irqchip::gicv3::lr_free(#[trigger] before.hw.ich.lr[i])
            ==> after.hw.ich.lr[i] == before.hw.ich.lr[i]
    &&& forall|irq: PendingIrq|
        before.hv.vcpus[id].pending.contains(irq) ==> #[trigger] after.hv.vcpus[id].pending.contains(
            irq,
        )
}

proof fn lemma_reached_stays(before: Sys, after: Sys, id: usize, irq: PendingIrq, arrives: bool)
    requires
        irqs_kept(before, after, id),
        reached(before, id, irq, arrives),
    ensures
        reached(after, id, irq, arrives),
{
    let n = before.hw.lr_count();
    crate::device::irqchip::gicv3::lemma_lr_num(before.hw.ich.vtr);
    if crate::device::irqchip::gicv3::lr_holds(before.hw.ich.lr, n, irq.irq_id) {
        let i = choose|i: int|
            0 <= i < n && !crate::device::irqchip::gicv3::lr_free(#[trigger] before.hw.ich.lr[i])
                && before.hw.ich.lr[i] & LR_VIRTIRQ_MASK == irq.irq_id as u64;
        assert(after.hw.ich.lr[i] == before.hw.ich.lr[i]);
    }
}

proof fn lemma_first_entered(sys: Sys, cpu: usize, id: usize, irqs: Seq<PendingIrq>)
    requires
        irqs.len() > 0,
        sys.hv.cpus[cpu as int].sched.current == Some(id),
        sys.hw.ich.lr.len() == 16,
        lrs_distinct(sys.hw.ich.lr, sys.hw.lr_count()),
        irqs[0].irq_id <= 0xffff_ffff,
        crate::vcpu::pending_wf(sys.hv.vcpus[id].pending + irqs),
    ensures
        ({
            let after = sys.injected(cpu, irqs[0].irq_id, irqs[0].is_hardware);
            let rest = irqs.subrange(1, irqs.len() as int);
            &&& irqs_kept(sys, after, id)
            &&& reached(after, id, irqs[0], false)
            &&& crate::vcpu::pending_wf(after.hv.vcpus[id].pending + rest)
        }),
{
    let irq = irqs[0];
    let rest = irqs.subrange(1, irqs.len() as int);
    let queue = sys.hv.vcpus[id].pending;
    let after = sys.injected(cpu, irq.irq_id, irq.is_hardware);
    let all = queue + irqs;
    let n = sys.hw.lr_count();
    lemma_injection(sys, cpu, irq.irq_id, irq.is_hardware);
    crate::device::irqchip::gicv3::lemma_lr_num(sys.hw.ich.vtr);
    crate::device::irqchip::gicv3::lemma_lr_first_free(sys.hw.ich.lr, n, 0);
    assert(all[queue.len() as int] == irq);
    if sys.injects(irq.irq_id) {
        assert(after.hv == sys.hv);
        lemma_without_one(queue, irqs);
    } else {
        crate::vcpu::lemma_irq_position(queue, irq.irq_id, 0);
        let at = crate::vcpu::irq_position(queue, irq.irq_id, 0);
        if irq.irq_id == CNTV_IRQ && at < queue.len() {
            assert(all[at].irq_id == CNTV_IRQ);
        }
        let waiting = after.hv.vcpus[id].pending;
        assert(waiting == queue.push(irq));
        assert(waiting + rest =~= all);
        assert(waiting[queue.len() as int] == irq);
        assert forall|other: PendingIrq| queue.contains(other) implies #[trigger] waiting.contains(
            other,
        ) by {
            let k = choose|k: int| 0 <= k < queue.len() && queue[k] == other;
            assert(waiting[k] == other);
        }
    }
}

/// Leaving the first of `irqs` out leaves a queue that a vCPU can have.
proof fn lemma_without_one(queue: Seq<PendingIrq>, irqs: Seq<PendingIrq>)
    requires
        irqs.len() > 0,
        crate::vcpu::pending_wf(queue + irqs),
    ensures
        crate::vcpu::pending_wf(queue + irqs.subrange(1, irqs.len() as int)),
{
    let all = queue + irqs;
    let fewer = queue + irqs.subrange(1, irqs.len() as int);
    let at = |i: int| if i < queue.len() { i } else { i + 1 };
    assert forall|i: int, j: int|
        0 <= i < j < fewer.len() && #[trigger] fewer[i].irq_id
            == CNTV_IRQ implies #[trigger] fewer[j].irq_id != CNTV_IRQ by {
        assert(fewer[i] == all[at(i)]);
        assert(fewer[j] == all[at(j)]);
    }
}

proof fn lemma_all_entered(sys: Sys, cpu: usize, id: usize, irqs: Seq<PendingIrq>, arrives: bool)
    requires
        sys.hv.cpus[cpu as int].sched.current == Some(id),
        sys.hw.ich.lr.len() == 16,
        lrs_distinct(sys.hw.ich.lr, sys.hw.lr_count()),
        forall|i: int| 0 <= i < irqs.len() ==> (#[trigger] irqs[i]).irq_id <= 0xffff_ffff,
        crate::vcpu::pending_wf(sys.hv.vcpus[id].pending + irqs),
    ensures
        ({
            let after = sys.all_entered(cpu, irqs, arrives);
            &&& irqs_kept(sys, after, id)
            &&& forall|i: int| 0 <= i < irqs.len() ==> reached(after, id, #[trigger] irqs[i], arrives)
        }),
    decreases irqs.len(),
{
    if irqs.len() > 0 {
        let irq = irqs[0];
        let rest = irqs.subrange(1, irqs.len() as int);
        let after = sys.all_entered(cpu, irqs, arrives);
        let next = if irq.irq_id == CNTV_IRQ && !irq.is_hardware {
            if arrives {
                sys
            } else {
                (Sys { hw: sys.hw.timer_masked(), ..sys }).injected(
                    cpu,
                    irq.irq_id,
                    irq.is_hardware,
                )
            }
        } else {
            sys.injected(cpu, irq.irq_id, irq.is_hardware)
        };
        if irq.irq_id == CNTV_IRQ && !irq.is_hardware && arrives {
            lemma_without_one(sys.hv.vcpus[id].pending, irqs);
        } else if irq.irq_id == CNTV_IRQ && !irq.is_hardware {
            lemma_first_entered(Sys { hw: sys.hw.timer_masked(), ..sys }, cpu, id, irqs);
        } else {
            lemma_first_entered(sys, cpu, id, irqs);
        }
        assert(irqs_kept(sys, next, id));
        assert(reached(next, id, irq, arrives));
        lemma_all_entered(next, cpu, id, rest, arrives);
        assert(after == next.all_entered(cpu, rest, arrives));
        lemma_reached_stays(next, after, id, irq, arrives);
        assert forall|i: int| 0 <= i < irqs.len() implies reached(
            after,
            id,
            #[trigger] irqs[i],
            arrives,
        ) by {
            if i > 0 {
                assert(rest[i - 1] == irqs[i]);
            }
        }
    }
}

/// Entering a guest loses no interrupt: each one that was pending for the vCPU is then
/// in a list register, or pending again, or is the virtual timer's and the timer
/// interrupts by itself.  No list register that was in use changes, and no interrupt is
/// in two of them.
pub proof fn lemma_entry_loses_no_irq(sys: Sys, cpu: usize, id: usize, irq: PendingIrq)
    requires
        sys.hv.cpus[cpu as int].sched.current == Some(id),
        sys.hv.vcpus.contains_key(id),
        crate::vcpu::pending_wf(sys.hv.vcpus[id].pending),
        sys.hw.ich.lr.len() == 16,
        lrs_distinct(sys.hw.ich.lr, sys.hw.lr_count()),
        forall|i: int|
            0 <= i < sys.hv.vcpus[id].pending.len() ==> (#[trigger] sys.hv.vcpus[id].pending[i]).irq_id
                <= 0xffff_ffff,
        sys.hv.vcpus[id].pending.contains(irq),
    ensures
        ({
            let after = sys.about_to_enter(cpu, id);
            let n = sys.hw.lr_count();
            &&& {
                ||| crate::device::irqchip::gicv3::lr_holds(after.hw.ich.lr, n, irq.irq_id)
                ||| after.hv.vcpus[id].pending.contains(irq)
                ||| irq.irq_id == CNTV_IRQ && !irq.is_hardware
                    && crate::arch::aarch64::trap::timer_interrupts(sys.hw.el1.cntv_ctl_el0)
            }
            &&& lrs_distinct(after.hw.ich.lr, n)
            &&& forall|i: int|
                0 <= i < 16 && !crate::device::irqchip::gicv3::lr_free(
                    #[trigger] sys.hw.ich.lr[i],
                ) ==> after.hw.ich.lr[i] == sys.hw.ich.lr[i]
        }),
{
    let vcpu = sys.hv.vcpus[id];
    let drained = Sys { hv: sys.hv.with_vcpu(id, vcpu.drained()), ..sys };
    let arrives = crate::arch::aarch64::trap::timer_interrupts(sys.hw.el1.cntv_ctl_el0);
    assert(drained.hv.vcpus[id].pending + vcpu.pending =~= vcpu.pending);
    lemma_all_entered(drained, cpu, id, vcpu.pending, arrives);
    let k = choose|k: int| 0 <= k < vcpu.pending.len() && vcpu.pending[k] == irq;
    assert(reached(
        drained.all_entered(cpu, vcpu.pending, arrives),
        id,
        vcpu.pending[k],
        arrives,
    ));
}

/// An SGI of a guest reaches its target: it is in a list register if the target runs
/// here and there is room, else it is pending for the target, unless the target is
/// stopped.
pub proof fn lemma_sgi_not_lost(sys: Sys, cpu: usize, id: usize, sgi: usize)
    requires
        sgi < 16,
        sys.hw.ich.lr.len() == 16,
        cpu < sys.hv.cpus.len(),
        sys.hv.vcpus.contains_key(id),
        sys.hv.vcpus[id].state != VCpuState::Stopped,
        sys.hv.vcpus[id].state == VCpuState::Running && sys.hv.cpus[cpu as int].current_vcpu
            == Some(id) ==> sys.hv.cpus[cpu as int].sched.current == Some(id),
    ensures
        ({
            let after = sys.sgi_delivered(cpu, id, sgi);
            let pending = after.hv.vcpus[id].pending;
            ||| crate::device::irqchip::gicv3::lr_holds(
                after.hw.ich.lr,
                sys.hw.lr_count(),
                sgi,
            )
            ||| exists|i: int|
                0 <= i < pending.len() && #[trigger] pending[i] == (PendingIrq {
                    irq_id: sgi,
                    is_hardware: false,
                })
        }),
{
    let after = sys.sgi_delivered(cpu, id, sgi);
    lemma_pended_is_there(sys.hv.vcpus[id], sgi, false);
    if sys.hv.cpus[cpu as int].current_vcpu == Some(id) && sys.hv.vcpus[id].state
        == VCpuState::Running {
        if sys.injects(sgi) {
            let n = sys.hw.lr_count();
            let lrs = sys.hw.ich.lr;
            crate::device::irqchip::gicv3::lemma_lr_num(sys.hw.ich.vtr);
            crate::device::irqchip::gicv3::lemma_lr_first_free(lrs, n, 0);
            lemma_lr_value(sgi, false);
            if !crate::device::irqchip::gicv3::lr_holds(lrs, n, sgi) {
                let free = crate::device::irqchip::gicv3::lr_first_free(lrs, n, 0);
                assert(after.hw.ich.lr[free] == crate::device::irqchip::gicv3::lr_value(
                    sgi,
                    false,
                ));
            }
        } else {
            lemma_refused_injection_waits(sys, cpu, sgi, false);
        }
    } else {
        assert(after.hv.vcpus[id].pending == sys.hv.vcpus[id].with_irq(sgi, false).pending);
    }
}

proof fn lemma_all_but(ids: Seq<usize>, sender: usize, i: int)
    requires
        0 <= i < crate::arch::aarch64::trap::all_but(ids, sender).len(),
    ensures
        ids.contains(crate::arch::aarch64::trap::all_but(ids, sender)[i]),
        crate::arch::aarch64::trap::all_but(ids, sender)[i] != sender,
    decreases ids.len(),
{
    let rest = ids.drop_last();
    let before = crate::arch::aarch64::trap::all_but(rest, sender);
    if i < before.len() {
        lemma_all_but(rest, sender, i);
        let k = choose|k: int| 0 <= k < rest.len() && rest[k] == before[i];
        assert(ids[k] == before[i]);
    } else {
        assert(ids[ids.len() - 1] == ids.last());
    }
}

proof fn lemma_listed_targets(zone: ZoneInnerView, val: u64, n: nat, i: int)
    requires
        0 <= i < crate::arch::aarch64::trap::listed_targets(zone, val, n).len(),
    ensures
        zone.vcpus.contains(crate::arch::aarch64::trap::listed_targets(zone, val, n)[i]),
    decreases n,
{
    let before = crate::arch::aarch64::trap::listed_targets(zone, val, (n - 1) as nat);
    if i < before.len() {
        lemma_listed_targets(zone, val, (n - 1) as nat, i);
    }
}

/// An SGI of a guest stays in its zone: it goes to vCPUs of the sender's zone only, and
/// one that is for all others does not go to the sender.
pub proof fn lemma_sgi_stays_in_zone(zone: ZoneInnerView, val: u64, sender: usize, i: int)
    requires
        0 <= i < crate::arch::aarch64::trap::sgi_targets(zone, val, sender).len(),
    ensures
        ({
            let target = crate::arch::aarch64::trap::sgi_targets(zone, val, sender)[i];
            &&& zone.vcpus.contains(target)
            &&& (val >> 40) & 1 == 1 ==> target != sender
        }),
{
    if (val >> 40) & 1 == 1 {
        lemma_all_but(zone.vcpus, sender, i);
    } else {
        lemma_listed_targets(zone, val, 16, i);
    }
}

/// A request of another pCPU to wake a vCPU is not lost either: its interrupt is
/// pending for the vCPU, whether that is still blocked or has become ready meanwhile.
pub proof fn lemma_wake_not_lost(hv: HvView, cpu: usize, wake: crate::cpu_data::PendingWake)
    requires
        hv.cpus[cpu as int].sched.waits(wake.vcpu_id) || hv.cpus[cpu as int].sched.queued(
            wake.vcpu_id,
        ),
    ensures
        ({
            let pending = hv.wake_met(cpu, wake).vcpus[wake.vcpu_id].pending;
            exists|i: int|
                0 <= i < pending.len() && #[trigger] pending[i] == (PendingIrq {
                    irq_id: wake.irq_id,
                    is_hardware: wake.is_hardware,
                })
        }),
{
    lemma_pended_is_there(hv.vcpus[wake.vcpu_id], wake.irq_id, wake.is_hardware);
    assert(hv.wake_met(cpu, wake).vcpus[wake.vcpu_id].pending
        == hv.vcpus[wake.vcpu_id].with_irq(wake.irq_id, wake.is_hardware).pending);
}

// ---------------------------------------------------------------------------
// Interrupts
// ---------------------------------------------------------------------------

/// The virtual timer's interrupt: if a list register holds it, its priority is dropped
/// and it stays active until the guest ends it; if none does, it is deactivated, after
/// its priority was dropped, and the timer is masked, so that it cannot come again at
/// once.
pub proof fn lemma_timer_irq(sys: Sys, cpu: usize)
    ensures
        ({
            let routed = sys.routed(cpu, CNTV_IRQ, true);
            let (after, step) = sys.irq_handled(cpu, CNTV_IRQ);
            &&& step == crate::device::irqchip::gicv3::IrqStep::Handled
            &&& if sys.routes(cpu, CNTV_IRQ) {
                &&& after.hw.ops == routed.hw.ops.push(Op::Eoir { irq: CNTV_IRQ })
                &&& after.hw.el1 == routed.hw.el1
            } else {
                &&& after.hw.ops == routed.hw.ops.push(Op::Eoir { irq: CNTV_IRQ }).push(
                    Op::Dir { irq: CNTV_IRQ },
                )
                &&& after.hw.el1.cntv_ctl_el0 & CNTV_IMASK != 0
            }
        }),
{
    lemma_second_bit(sys.routed(cpu, CNTV_IRQ, true).hw.el1.cntv_ctl_el0);
}

/// The operations of `after` are those of `before` and more.
pub open spec fn ops_extend(before: HardwareView, after: HardwareView) -> bool {
    &&& before.ops.len() <= after.ops.len()
    &&& after.ops.subrange(0, before.ops.len() as int) == before.ops
}

proof fn lemma_injections_ask_nothing(sys: Sys, cpu: usize, irqs: Seq<PendingIrq>, deferred: Seq<
    PendingIrq,
>)
    ensures
        sys.all_injected(cpu, irqs, deferred).0.hw.ops == sys.hw.ops,
    decreases irqs.len(),
{
    if irqs.len() > 0 {
        lemma_injections_ask_nothing(
            sys.injected(cpu, irqs[0].irq_id, irqs[0].is_hardware),
            cpu,
            irqs.subrange(1, irqs.len() as int),
            if sys.injects(irqs[0].irq_id) {
                deferred
            } else {
                deferred.push(irqs[0])
            },
        );
    }
}

proof fn lemma_events_extend(sys: Sys, cpu: usize, handled: bool)
    requires
        cpu < sys.hv.events.len(),
    ensures
        ops_extend(sys.hw, sys.events_checked(cpu, handled).0.hw),
    decreases sys.hv.events[cpu as int].len(),
{
    match crate::event::event_at_front(sys.hv.events, cpu) {
        None => {
            assert(sys.hw.ops.subrange(0, sys.hw.ops.len() as int) =~= sys.hw.ops);
        },
        Some(event) => {
            let fetched = sys.event_fetched(cpu);
            let (next, step) = fetched.event_handled(cpu, event);
            crate::event::lemma_event_keeps_queue(fetched, cpu, event);
            assert(next.hw.ops.subrange(0, sys.hw.ops.len() as int) =~= sys.hw.ops);
            if step == EventStep::Handled {
                lemma_events_extend(next, cpu, true);
                lemma_extend_trans(sys.hw, next.hw, next.events_checked(cpu, true).0.hw);
            } else if step == EventStep::Ignored {
                lemma_events_extend(next, cpu, handled);
                lemma_extend_trans(sys.hw, next.hw, next.events_checked(cpu, handled).0.hw);
            }
        },
    }
}

proof fn lemma_extend_trans(a: HardwareView, b: HardwareView, c: HardwareView)
    requires
        ops_extend(a, b),
        ops_extend(b, c),
    ensures
        ops_extend(a, c),
{
    assert(c.ops.subrange(0, a.ops.len() as int) =~= a.ops) by {
        assert forall|i: int| 0 <= i < a.ops.len() implies c.ops[i] == a.ops[i] by {
            assert(c.ops[i] == c.ops.subrange(0, b.ops.len() as int)[i]);
            assert(b.ops[i] == b.ops.subrange(0, a.ops.len() as int)[i]);
        }
    }
}

/// The priority of an interrupt is dropped before it is deactivated: among the
/// operations that handling an interrupt asks for, no deactivation of it comes before
/// its priority drop.
pub proof fn lemma_drop_before_deactivate(sys: Sys, cpu: usize, irq: usize, i: int)
    requires
        cpu < sys.hv.events.len(),
        sys.hw.ops.len() <= i < sys.irq_handled(cpu, irq).0.hw.ops.len(),
        sys.irq_handled(cpu, irq).0.hw.ops[i] == (Op::Dir { irq }),
    ensures
        exists|j: int|
            sys.hw.ops.len() <= j < i && #[trigger] sys.irq_handled(cpu, irq).0.hw.ops[j] == (
            Op::Eoir { irq }),
{
    let start = sys.hw.ops.len() as int;
    let after = sys.irq_handled(cpu, irq).0.hw.ops;
    if irq < 8 {
        let quiet = Sys { hw: sys.hw.deactivated(irq), ..sys };
        lemma_events_extend(quiet, cpu, false);
        let checked = if irq == crate::hypercall::SGI_IPI_ID {
            quiet.events_checked(cpu, false).0
        } else {
            assert(quiet.hw.ops.subrange(0, quiet.hw.ops.len() as int) =~= quiet.hw.ops);
            quiet
        };
        let routed = checked.routed(cpu, irq, false);
        assert(routed.hw.ops.subrange(0, checked.hw.ops.len() as int) =~= checked.hw.ops);
        lemma_extend_trans(quiet.hw, checked.hw, routed.hw);
        assert(ops_extend(quiet.hw, sys.irq_handled(cpu, irq).0.hw));
        assert(quiet.hw.ops[start] == (Op::Eoir { irq }));
        assert(after[start] == after.subrange(0, quiet.hw.ops.len() as int)[start]);
        assert(after[start] == (Op::Eoir { irq }));
    } else if irq < 16 {
        assert(after[start] == (Op::Eoir { irq }));
    } else if irq == EL2_TIMER_IRQ {
        assert(after[start] == (Op::Eoir { irq }));
    } else if irq == 25 {
        if let Some(id) = sys.hv.cpus[cpu as int].sched.current {
            lemma_injections_ask_nothing(
                Sys { hv: sys.hv.with_vcpu(id, sys.hv.vcpus[id].drained()), ..sys },
                cpu,
                sys.hv.vcpus[id].pending,
                Seq::empty(),
            );
        }
        assert(sys.maintained(cpu).hw.ops == sys.hw.ops);
        assert(after[start] == (Op::Eoir { irq }));
    } else {
        let routed = sys.routed(cpu, irq, true).hw.ops;
        assert(after[routed.len() as int] == (Op::Eoir { irq }));
        assert(routed.len() == start || (routed.len() == start + 1 && routed[start]
            is RaiseSgi));
        assert(i != routed.len());
        if i < routed.len() {
            assert(after[i] == routed[i]);
        }
    }
}

// ---------------------------------------------------------------------------
// Taking a zone down
// ---------------------------------------------------------------------------

/// How giving back a zone's identifiers changes which are in use.
pub proof fn lemma_ids_reclaimed(hv: HvView, ids: Seq<usize>, n: nat)
    requires
        hv.ids.wf(),
        n <= ids.len(),
        ids.no_duplicates(),
        forall|i: int| 0 <= i < ids.len() ==> hv.ids.in_use(#[trigger] ids[i]),
    ensures
        hv.ids_reclaimed(ids, n).ids.wf(),
        hv.ids_reclaimed(ids, n).ids.next == hv.ids.next,
        hv.ids_reclaimed(ids, n) == (HvView { ids: hv.ids_reclaimed(ids, n).ids, ..hv }),
        forall|id: usize| #[trigger]
            hv.ids_reclaimed(ids, n).ids.in_use(id) <==> hv.ids.in_use(id) && !ids.subrange(
                0,
                n as int,
            ).contains(id),
    decreases n,
{
    if n == 0 {
        assert(ids.subrange(0, 0) =~= Seq::empty());
    } else {
        let before = hv.ids_reclaimed(ids, (n - 1) as nat);
        let sub = ids.subrange(0, n - 1);
        let more = ids.subrange(0, n as int);
        let last = ids[n - 1];
        lemma_ids_reclaimed(hv, ids, (n - 1) as nat);
        assert(!sub.contains(last)) by {
            if sub.contains(last) {
                let k = choose|k: int| 0 <= k < sub.len() && sub[k] == last;
                assert(ids[k] == ids[n - 1]);
            }
        }
        assert(before.ids.in_use(last));
        crate::vcpu::lemma_id_reclaimed(before.ids, last);
        assert forall|id: usize| #[trigger]
            hv.ids_reclaimed(ids, n).ids.in_use(id) <==> hv.ids.in_use(id) && !more.contains(
            id,
        ) by {
            if more.contains(id) {
                let k = choose|k: int| 0 <= k < more.len() && more[k] == id;
                if k < n - 1 {
                    assert(sub[k] == id);
                }
            }
            if sub.contains(id) {
                let k = choose|k: int| 0 <= k < sub.len() && sub[k] == id;
                assert(more[k] == id);
            }
            assert(more[n - 1] == last);
            assert(before.ids.reclaimed(last).in_use(id) <==> before.ids.in_use(id) && id != last);
        }
    }
}

proof fn lemma_cpus_released(hv: HvView, members: Seq<usize>, n: nat)
    requires
        n <= members.len(),
        forall|i: int| 0 <= i < members.len() ==> #[trigger] members[i] < hv.cpus.len(),
    ensures
        ({
            let after = hv.cpus_released(members, n);
            &&& after == (HvView { cpus: after.cpus, ..hv })
            &&& after.cpus.len() == hv.cpus.len()
            &&& forall|i: int|
                0 <= i < n ==> {
                    let pc = after.cpus[#[trigger] members[i] as int];
                    &&& pc.zone is None
                    &&& pc.current_vcpu is None
                    &&& pc.sched == pc.sched.cleared()
                }
            &&& forall|c: int|
                0 <= c < hv.cpus.len() && !members.contains(c as usize)
                    ==> #[trigger] after.cpus[c] == hv.cpus[c]
        }),
    decreases n,
{
    if n > 0 {
        lemma_cpus_released(hv, members, (n - 1) as nat);
        let before = hv.cpus_released(members, (n - 1) as nat);
        let after = hv.cpus_released(members, n);
        let cpu = members[n - 1];
        assert(members.contains(cpu));
        assert forall|c: int| 0 <= c < hv.cpus.len() && !members.contains(
            c as usize,
        ) implies #[trigger] after.cpus[c] == hv.cpus[c] by {
            assert(before.cpus[c] == hv.cpus[c]);
        }
        assert forall|i: int| 0 <= i < n implies {
            let pc = after.cpus[#[trigger] members[i] as int];
            &&& pc.zone is None
            &&& pc.current_vcpu is None
            &&& pc.sched == pc.sched.cleared()
        } by {
            if members[i] != cpu {
                assert(i < n - 1);
                assert(before.cpus[members[i] as int].zone is None);
            }
        }
    }
}

/// A zone that was taken down leaves nothing behind: it is neither registered nor
/// there, it has no vCPUs, its pCPUs are free, and the identifiers of its vCPUs, and no
/// others, can be used again.  Other zones and vCPUs are as they were.
pub proof fn lemma_zone_taken_down(sys: Sys, zone: usize)
    requires
        sys.hv.wf(),
        sys.hv.zone_list.contains(zone),
        sys.hv.zones.contains_key(zone),
    ensures
        ({
            let before = sys.hv;
            let after = sys.zone_taken_down(zone).hv;
            let inner = before.zones[zone].inner;
            &&& !after.zones.contains_key(zone)
            &&& !after.zone_list.contains(zone)
            &&& forall|id: usize| #[trigger]
                after.vcpus.contains_key(id) <==> before.vcpus.contains_key(id)
                    && before.vcpus[id].zone != zone
            &&& forall|id: usize| #[trigger]
                after.vcpus.contains_key(id) ==> after.vcpus[id] == before.vcpus[id]
            &&& forall|other: usize|
                other != zone && #[trigger] before.zones.contains_key(other)
                    ==> after.zones.contains_key(other) && after.zones[other]
                    == before.zones[other]
            &&& forall|cpu: usize| #[trigger]
                inner.cpu_set.has(cpu) ==> after.cpus[cpu as int].zone is None
                    && after.cpus[cpu as int].current_vcpu is None
            &&& after.ids.next == before.ids.next
            &&& forall|id: usize| #[trigger]
                after.ids.in_use(id) <==> before.ids.in_use(id) && !inner.vcpus.contains(id)
        }),
{
    let before = sys.hv;
    let inner = before.zones[zone].inner;
    let members = inner.cpu_set.members();
    crate::hypervisor::lemma_zone_ok(before, zone);
    crate::hypervisor::lemma_wf_sizes(before);
    crate::hypercall::lemma_members_in_range(before, zone);
    inner.cpu_set.lemma_members_below(64);
    lemma_cpus_released(before, members, members.len());
    let released = before.cpus_released(members, members.len());
    let dropped = released.vcpus_dropped(zone).zone_dropped(zone);
    let list = before.zone_list;
    let at = crate::hypervisor::id_position(list, zone, 0);
    crate::hypervisor::lemma_id_position(list, zone, 0);
    let k = choose|k: int| 0 <= k < list.len() && list[k] == zone;
    assert(list[k] == zone);
    assert(!dropped.zone_list.contains(zone)) by {
        if dropped.zone_list.contains(zone) {
            let i = choose|i: int|
                0 <= i < dropped.zone_list.len() && dropped.zone_list[i] == zone;
            let j = if i < at {
                i
            } else {
                i + 1
            };
            assert(list[j] == list[at]);
        }
    }
    assert forall|i: int| 0 <= i < inner.vcpus.len() implies before.ids.in_use(
        #[trigger] inner.vcpus[i],
    ) by {
        crate::hypervisor::lemma_vcpu_ok(before, inner.vcpus[i]);
    }
    lemma_ids_reclaimed(dropped, inner.vcpus, inner.vcpus.len());
    assert(inner.vcpus.subrange(0, inner.vcpus.len() as int) =~= inner.vcpus);
    assert forall|cpu: usize| #[trigger] inner.cpu_set.has(cpu) implies released.cpus[cpu as int].zone
        is None && released.cpus[cpu as int].current_vcpu is None by {
        assert(members.contains(cpu));
        let i = choose|i: int| 0 <= i < members.len() && members[i] == cpu;
        assert(released.cpus[members[i] as int].zone is None);
    }
}

// ---------------------------------------------------------------------------
// Hypercalls
// ---------------------------------------------------------------------------

/// No two hypercalls have the same number.
pub proof fn lemma_numbers_distinct(a: HyperCallCode, b: HyperCallCode)
    requires
        a.number() == b.number(),
    ensures
        a == b,
{
}

} // verus!

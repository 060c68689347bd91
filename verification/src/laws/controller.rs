//! What the hypervisor does with the interrupt controller itself.

use vstd::prelude::*;
use crate::hardware::{HardwareView, Op};
use crate::hypervisor::{HvView, Sys};
use crate::device::irqchip::gicv3::{Gic, IrqStep};
use crate::vcpu::{PendingIrq, VCpuState, VCpuView};
use crate::zone::ZoneView;

verus! {

/// A list register of the pCPU is free, or has interrupt `irq` already.
pub open spec fn has_place(sys: Sys, irq: usize) -> bool {
    exists|i: int|
        0 <= i <= sys.hw.ich.vtr & 0xf && (!crate::laws::routing::lr_taken(
            #[trigger] sys.hw.ich.lr[i],
        ) || sys.hw.ich.lr[i] & 0xffff_ffff == irq as u64)
}

/// An interrupt that is injected is in a list register if there is a place for it, and
/// nothing else changes; if there is none, it waits for the vCPU that runs, and the
/// hypervisor is told as soon as a list register is free.
pub proof fn lemma_injected(sys: Sys, cpu: usize, irq: usize, is_hardware: bool)
    requires
        irq <= 0xffff_ffff,
        sys.hw.ich.lr.len() == 16,
    ensures
        ({
            let after = sys.injected(cpu, irq, is_hardware);
            let current = sys.hv.cpus[cpu as int].sched.current;
            &&& has_place(sys, irq) ==> {
                &&& crate::laws::routing::in_lr(after, irq)
                &&& after.hv == sys.hv
                &&& after.hw.ich.hcr == sys.hw.ich.hcr
            }
            &&& !has_place(sys, irq) ==> {
                &&& after.hw.ich.lr == sys.hw.ich.lr
                &&& after.hw.ich.hcr & 2 != 0
                &&& after.hw.ich.hcr & !2 == sys.hw.ich.hcr & !2
                &&& current is Some ==> crate::laws::routing::is_pending(
                    after.hv,
                    current->0,
                    irq,
                    is_hardware,
                )
            }
            &&& after.hw == (HardwareView { ich: after.hw.ich, ..sys.hw })
        }),
{
    let n = sys.hw.lr_count();
    let lrs = sys.hw.ich.lr;
    crate::device::irqchip::gicv3::lemma_lr_num(sys.hw.ich.vtr);
    crate::device::irqchip::gicv3::lemma_lr_first_free(lrs, n, 0);
    crate::laws::lemma_second_bit(sys.hw.ich.hcr);
    let free = crate::device::irqchip::gicv3::lr_first_free(lrs, n, 0);
    if has_place(sys, irq) {
        let i = choose|i: int|
            0 <= i <= sys.hw.ich.vtr & 0xf && (!crate::laws::routing::lr_taken(
                #[trigger] sys.hw.ich.lr[i],
            ) || sys.hw.ich.lr[i] & 0xffff_ffff == irq as u64);
        if crate::laws::routing::lr_taken(lrs[i]) {
            assert(!crate::device::irqchip::gicv3::lr_free(lrs[i]));
            assert(crate::device::irqchip::gicv3::lr_holds(lrs, n, irq));
        } else {
            assert(crate::device::irqchip::gicv3::lr_free(lrs[i]));
            assert(free < n);
        }
        crate::laws::routing::lemma_injected_in_lr(sys, cpu, irq, is_hardware);
    } else {
        if free < n {
            assert(!crate::laws::routing::lr_taken(lrs[free]));
        }
        if crate::device::irqchip::gicv3::lr_holds(lrs, n, irq) {
            let i = choose|i: int|
                0 <= i < n && !crate::device::irqchip::gicv3::lr_free(#[trigger] lrs[i]) && lrs[i]
                    & 0xffff_ffff == irq as u64;
            assert(lrs[i] & 0xffff_ffff == irq as u64);
        }
        let current = sys.hv.cpus[cpu as int].sched.current;
        if current is Some {
            crate::laws::lemma_pended_is_there(sys.hv.vcpus[current->0], irq, is_hardware);
        }
    }
}

// ---------------------------------------------------------------------------
// Maintenance
// ---------------------------------------------------------------------------

/// An interrupt waits in a queue: itself or, for the virtual timer's, any of its number.
pub open spec fn queued_in(queue: Seq<PendingIrq>, irq: PendingIrq) -> bool {
    exists|k: int|
        0 <= k < queue.len() && (#[trigger] queue[k]).irq_id == irq.irq_id && (irq.irq_id != 27
            ==> queue[k] == irq)
}

proof fn lemma_queued(queue: Seq<PendingIrq>, irq: PendingIrq, other: PendingIrq)
    requires
        queue.len() < 64,
    ensures
        queued_in(crate::vcpu::pending_after(queue, irq), irq),
        queued_in(queue, other) ==> queued_in(crate::vcpu::pending_after(queue, irq), other),
        queue.len() <= crate::vcpu::pending_after(queue, irq).len() <= queue.len() + 1,
        crate::vcpu::pending_after(queue, irq).len() > 0,
{
    crate::vcpu::lemma_irq_position(queue, irq.irq_id, 0);
    let after = crate::vcpu::pending_after(queue, irq);
    let at = crate::vcpu::irq_position(queue, irq.irq_id, 0);
    if irq.irq_id == 27 && at < queue.len() {
        assert(after[at] == irq);
    } else {
        assert(after[queue.len() as int] == irq);
    }
    if queued_in(queue, other) {
        let k = choose|k: int|
            0 <= k < queue.len() && (#[trigger] queue[k]).irq_id == other.irq_id && (other.irq_id
                != 27 ==> queue[k] == other);
        assert(after[k].irq_id == other.irq_id);
    }
}

/// What trying a list of interrupts achieves: each is in a list register or was put back.
spec fn tried_right(
    sys: Sys,
    cpu: usize,
    id: usize,
    irqs: Seq<PendingIrq>,
    deferred: Seq<PendingIrq>,
) -> bool {
    let (after, left) = sys.all_injected(cpu, irqs, deferred);
    &&& after.hv == (HvView { vcpus: after.hv.vcpus, ..sys.hv })
    &&& after.hv.vcpus[id] == (VCpuView {
        pending: after.hv.vcpus[id].pending,
        ..sys.hv.vcpus[id]
    })
    &&& after.hv.vcpus.contains_key(id)
    &&& forall|other: usize|
        other != id ==> #[trigger] after.hv.vcpus[other] == sys.hv.vcpus[other]
    &&& after.hw.ich.lr.len() == 16
    &&& after.hw.ich.vtr == sys.hw.ich.vtr
    &&& after.hw.ops == sys.hw.ops
    &&& after.hw.el1 == sys.hw.el1
    &&& forall|i: int|
        0 <= i < 16 && crate::laws::routing::lr_taken(#[trigger] sys.hw.ich.lr[i])
            ==> after.hw.ich.lr[i] == sys.hw.ich.lr[i]
    &&& deferred.len() <= left.len() <= deferred.len() + irqs.len()
    &&& forall|k: int| 0 <= k < deferred.len() ==> #[trigger] left[k] == deferred[k]
    &&& forall|k: int|
        0 <= k < irqs.len() ==> crate::laws::routing::in_lr(after, (#[trigger] irqs[k]).irq_id)
            || left.contains(irqs[k])
    &&& after.hv.vcpus[id].pending.len() <= sys.hv.vcpus[id].pending.len() + left.len()
        - deferred.len()
    &&& left.len() == deferred.len() ==> after.hv.vcpus[id].pending == sys.hv.vcpus[id].pending
}

proof fn lemma_lr_stays(before: Sys, after: Sys, irq: usize)
    requires
        crate::laws::routing::in_lr(before, irq),
        after.hw.ich.vtr == before.hw.ich.vtr,
        forall|i: int|
            0 <= i < 16 && crate::laws::routing::lr_taken(#[trigger] before.hw.ich.lr[i])
                ==> after.hw.ich.lr[i] == before.hw.ich.lr[i],
    ensures
        crate::laws::routing::in_lr(after, irq),
{
    crate::device::irqchip::gicv3::lemma_lr_num(before.hw.ich.vtr);
    let i = choose|i: int|
        0 <= i <= before.hw.ich.vtr & 0xf && crate::laws::routing::lr_taken(
            #[trigger] before.hw.ich.lr[i],
        ) && before.hw.ich.lr[i] & 0xffff_ffff == irq as u64;
    assert(crate::laws::routing::lr_taken(after.hw.ich.lr[i]));
}

/// One interrupt that is tried is in a list register if that works, and nothing is put
/// back.
proof fn lemma_one_tried(sys: Sys, cpu: usize, id: usize, irq: PendingIrq)
    requires
        irq.irq_id <= 0xffff_ffff,
        sys.hw.ich.lr.len() == 16,
        sys.hv.cpus[cpu as int].sched.current == Some(id),
        sys.hv.vcpus.contains_key(id),
        sys.hv.vcpus[id].pending.len() < 64,
    ensures
        ({
            let next = sys.injected(cpu, irq.irq_id, irq.is_hardware);
            if sys.injects(irq.irq_id) {
                crate::laws::routing::in_lr(next, irq.irq_id) && next.hv == sys.hv
            } else {
                next.hv.vcpus[id].pending.len() <= sys.hv.vcpus[id].pending.len() + 1
            }
        }),
{
    if sys.injects(irq.irq_id) {
        crate::laws::routing::lemma_injected_in_lr(sys, cpu, irq.irq_id, irq.is_hardware);
    } else {
        lemma_queued(sys.hv.vcpus[id].pending, irq, irq);
    }
}

proof fn lemma_all_tried(
    sys: Sys,
    cpu: usize,
    id: usize,
    irqs: Seq<PendingIrq>,
    deferred: Seq<PendingIrq>,
)
    requires
        forall|k: int| 0 <= k < irqs.len() ==> (#[trigger] irqs[k]).irq_id <= 0xffff_ffff,
        sys.hw.ich.lr.len() == 16,
        sys.hv.cpus[cpu as int].sched.current == Some(id),
        sys.hv.vcpus.contains_key(id),
        sys.hv.vcpus[id].pending.len() + irqs.len() <= 64,
    ensures
        tried_right(sys, cpu, id, irqs, deferred),
    decreases irqs.len(),
{
    if irqs.len() > 0 {
        let irq = irqs[0];
        let rest = irqs.subrange(1, irqs.len() as int);
        let next = sys.injected(cpu, irq.irq_id, irq.is_hardware);
        let kept = if sys.injects(irq.irq_id) {
            deferred
        } else {
            deferred.push(irq)
        };
        lemma_one_tried(sys, cpu, id, irq);
        crate::laws::routing::lemma_injected_somewhere(
            sys,
            cpu,
            id,
            irq.irq_id,
            irq.is_hardware,
        );
        lemma_all_tried(next, cpu, id, rest, kept);
        let (after, left) = sys.all_injected(cpu, irqs, deferred);
        assert((after, left) == next.all_injected(cpu, rest, kept));
        assert forall|k: int| 0 <= k < irqs.len() implies crate::laws::routing::in_lr(
            after,
            (#[trigger] irqs[k]).irq_id,
        ) || left.contains(irqs[k]) by {
            if k > 0 {
                assert(rest[k - 1] == irqs[k]);
            } else if sys.injects(irq.irq_id) {
                lemma_lr_stays(next, after, irq.irq_id);
            } else {
                assert(left[deferred.len() as int] == irq);
            }
        }
        assert forall|k: int| 0 <= k < deferred.len() implies #[trigger] left[k] == deferred[k] by {
            assert(kept[k] == deferred[k]);
        }
        assert forall|i: int|
            0 <= i < 16 && crate::laws::routing::lr_taken(
                #[trigger] sys.hw.ich.lr[i],
            ) implies after.hw.ich.lr[i] == sys.hw.ich.lr[i] by {
            assert(next.hw.ich.lr[i] == sys.hw.ich.lr[i]);
        }
    }
}

proof fn lemma_put_back(hv: HvView, id: usize, irqs: Seq<PendingIrq>)
    requires
        hv.vcpus.contains_key(id),
        hv.vcpus[id].pending.len() + irqs.len() <= 64,
    ensures
        ({
            let after = hv.irqs_pended(id, irqs);
            &&& after == (HvView { vcpus: after.vcpus, ..hv })
            &&& forall|other: usize|
                other != id ==> #[trigger] after.vcpus[other] == hv.vcpus[other]
            &&& after.vcpus[id] == (VCpuView { pending: after.vcpus[id].pending, ..hv.vcpus[id] })
            &&& forall|irq: PendingIrq|
                irqs.contains(irq) || queued_in(hv.vcpus[id].pending, irq) ==> #[trigger] queued_in(
                    after.vcpus[id].pending,
                    irq,
                )
            &&& irqs.len() > 0 ==> after.vcpus[id].pending.len() > 0
            &&& irqs.len() == 0 ==> after == hv
        }),
    decreases irqs.len(),
{
    if irqs.len() > 0 {
        let rest = irqs.subrange(1, irqs.len() as int);
        let queue = hv.vcpus[id].pending;
        let next = hv.irq_pended(id, irqs[0].irq_id, irqs[0].is_hardware);
        lemma_queued(queue, irqs[0], irqs[0]);
        lemma_put_back(next, id, rest);
        let after = hv.irqs_pended(id, irqs);
        assert(after == next.irqs_pended(id, rest));
        assert forall|irq: PendingIrq|
            irqs.contains(irq) || queued_in(queue, irq) implies #[trigger] queued_in(
            after.vcpus[id].pending,
            irq,
        ) by {
            lemma_queued(queue, irqs[0], irq);
            if irqs.contains(irq) && irq != irqs[0] {
                let k = choose|k: int| 0 <= k < irqs.len() && irqs[k] == irq;
                assert(rest[k - 1] == irq);
            }
            assert(queued_in(next.vcpus[id].pending, irq) || rest.contains(irq));
        }
        if rest.len() == 0 {
            assert(after == next);
        }
    }
}

/// When a list register has become free, no interrupt that waited for the vCPU is lost:
/// each is in a list register or waits still, as long as the queue was no more than half
/// full.  The hypervisor is told of the next free one if and only if something waits.
pub proof fn lemma_maintenance_loses_none(sys: Sys, cpu: usize, id: usize, irq: PendingIrq)
    requires
        sys.hv.cpus[cpu as int].sched.current == Some(id),
        sys.hv.vcpus.contains_key(id),
        sys.hw.ich.lr.len() == 16,
        sys.hv.vcpus[id].pending.len() <= 32,
        forall|k: int|
            0 <= k < sys.hv.vcpus[id].pending.len() ==> (
            #[trigger] sys.hv.vcpus[id].pending[k]).irq_id <= 0xffff_ffff,
        sys.hv.vcpus[id].pending.contains(irq),
    ensures
        ({
            let after = sys.irq_handled(cpu, 25).0;
            &&& crate::laws::routing::in_lr(after, irq.irq_id) || queued_in(
                after.hv.vcpus[id].pending,
                irq,
            )
            &&& after.hw.ich.hcr & 2 != 0 <==> after.hv.vcpus[id].pending.len() > 0
            &&& forall|other: usize|
                other != id ==> #[trigger] after.hv.vcpus[other] == sys.hv.vcpus[other]
            &&& after.hv.vcpus[id].state == sys.hv.vcpus[id].state
            &&& after.hv.cpus == sys.hv.cpus
            &&& after.hw.ops == sys.hw.ops.push(Op::Eoir { irq: 25 }).push(Op::Dir { irq: 25 })
        }),
{
    let pending = sys.hv.vcpus[id].pending;
    let drained = Sys { hv: sys.hv.with_vcpu(id, sys.hv.vcpus[id].drained()), ..sys };
    lemma_all_tried(drained, cpu, id, pending, Seq::empty());
    let (tried, left) = drained.all_injected(cpu, pending, Seq::empty());
    lemma_put_back(tried.hv, id, left);
    let maintained = sys.maintained(cpu);
    let after = sys.irq_handled(cpu, 25).0;
    crate::laws::lemma_second_bit(tried.hw.ich.hcr);
    let k = choose|k: int| 0 <= k < pending.len() && pending[k] == irq;
    if crate::laws::routing::in_lr(tried, irq.irq_id) {
        lemma_lr_stays(tried, after, irq.irq_id);
    } else {
        assert(left.contains(pending[k]));
        assert(queued_in(maintained.hv.vcpus[id].pending, irq));
    }
}

// ---------------------------------------------------------------------------
// Ending interrupts
// ---------------------------------------------------------------------------

/// What the hypervisor asks of the controller once it has handled an interrupt of its own
/// or an SGI that is not for a guest: the priority is dropped, then the interrupt is
/// deactivated.  Nothing else changes for one that nobody expects.
pub proof fn lemma_unexpected_sgi(sys: Sys, cpu: usize, irq: usize)
    requires
        8 <= irq < 16,
    ensures
        ({
            let (after, step) = sys.irq_handled(cpu, irq);
            &&& step == IrqStep::Handled
            &&& after.hv == sys.hv
            &&& after.hw == (HardwareView {
                ops: sys.hw.ops.push(Op::Eoir { irq }).push(Op::Dir { irq }),
                ..sys.hw
            })
        }),
{
}

/// The SGI for events makes a pCPU handle its events: it goes to its guest or idle only if
/// one of them says so, and has handled them all otherwise.  Where there was none for the
/// hypervisor, the SGI is the guest's.
pub proof fn lemma_event_sgi(sys: Sys, cpu: usize)
    requires
        sys.hv.wf(),
        cpu < sys.hv.cpus.len(),
    ensures
        ({
            let (after, step) = sys.irq_handled(cpu, 7);
            let queue = sys.hv.events[cpu as int];
            let quiet = Sys { hw: sys.hw.deactivated(7), ..sys };
            &&& step == IrqStep::Run ==> queue.contains(0)
            &&& step == IrqStep::Idle ==> queue.contains(1) || queue.contains(9)
            &&& step == IrqStep::Handled ==> !queue.contains(0) && !queue.contains(1)
                && !queue.contains(9)
            &&& queue.len() == 0 ==> step == IrqStep::Handled && after == quiet.routed(
                cpu,
                7,
                false,
            )
            &&& quiet.hw.ops == sys.hw.ops.push(Op::Eoir { irq: 7 }).push(Op::Dir { irq: 7 })
        }),
{
    crate::hypervisor::lemma_wf_sizes(sys.hv);
    let quiet = Sys { hw: sys.hw.deactivated(7), ..sys };
    crate::laws::events::lemma_events_until_done(quiet, cpu, false);
}

/// A tick of the hypervisor's timer ends with its interrupt, and arms the timer anew.
pub proof fn lemma_timer_tick(sys: Sys, cpu: usize)
    ensures
        ({
            let (after, step) = sys.irq_handled(cpu, 26);
            let ticked = sys.ticked(cpu);
            &&& step == IrqStep::Handled
            &&& after.hv == ticked.hv
            &&& after.hw.ops == sys.hw.ops.push(Op::Eoir { irq: 26 }).push(Op::Dir { irq: 26 })
            &&& after.hw.timer.cnthp_ctl_el2 == 1
            &&& after.hw.timer.cnthp_tval_el2 == sys.hv.tick
        }),
{
}

/// A device interrupt's priority is dropped when it has been handed on; the guest that got
/// it deactivates it.  Only the virtual timer's interrupt, where no list register was free
/// for it or no guest runs, is deactivated at once, with the timer masked.
pub proof fn lemma_device_irq_ends(sys: Sys, cpu: usize, irq: usize)
    requires
        sys.hv.wf(),
        cpu < sys.hv.cpus.len(),
        16 <= irq <= 0xffff_ffff,
        irq != 25,
        irq != 26,
        sys.hw.ich.lr.len() == 16,
        irq < 32,
    ensures
        ({
            let after = sys.irq_handled(cpu, irq).0;
            let pc = sys.hv.cpus[cpu as int];
            let runs = pc.current_vcpu is Some && sys.hv.vcpus[pc.current_vcpu->0].state
                == VCpuState::Running;
            let passed = runs && crate::laws::routing::in_lr(after, irq);
            let dropped = sys.hw.ops.push(Op::Eoir { irq });
            &&& irq != 27 || passed ==> after.hw.ops == dropped && after.hw.el1 == sys.hw.el1
            &&& irq == 27 && !passed ==> {
                &&& after.hw.ops == dropped.push(Op::Dir { irq })
                &&& after.hw.el1.cntv_ctl_el0 & 2 != 0
            }
        }),
{
    crate::laws::lemma_second_bit(sys.hw.el1.cntv_ctl_el0);
    let routed = sys.routed(cpu, irq, true);
    let after = sys.irq_handled(cpu, irq).0;
    let pc = sys.hv.cpus[cpu as int];
    crate::hypervisor::lemma_cpu_ok(sys.hv, cpu);
    if sys.routes(cpu, irq) {
        crate::laws::routing::lemma_injected_in_lr(sys, cpu, irq, true);
        lemma_lr_stays(routed, after, irq);
    } else if pc.current_vcpu is Some && sys.hv.vcpus[pc.current_vcpu->0].state
        == VCpuState::Running {
        assert(!crate::laws::routing::in_lr(after, irq)) by {
            if crate::laws::routing::in_lr(after, irq) {
                let i = choose|i: int|
                    0 <= i <= after.hw.ich.vtr & 0xf && crate::laws::routing::lr_taken(
                        #[trigger] after.hw.ich.lr[i],
                    ) && after.hw.ich.lr[i] & 0xffff_ffff == irq as u64;
                assert(!crate::device::irqchip::gicv3::lr_free(sys.hw.ich.lr[i]));
                assert(crate::device::irqchip::gicv3::lr_holds(
                    sys.hw.ich.lr,
                    sys.hw.lr_count(),
                    irq,
                ));
            }
        }
    }
}

// ---------------------------------------------------------------------------
// Setting up and resetting
// ---------------------------------------------------------------------------

proof fn lemma_reset_ops(gicd_base: usize, bitmap: Seq<u32>, n: int)
    requires
        1 <= n <= 32,
        gicd_base + 0x10000 <= usize::MAX,
    ensures
        ({
            let ops = crate::device::irqchip::gicv3::reset_ops(gicd_base, bitmap, n);
            &&& ops.len() == 2 * (n - 1)
            &&& forall|i: int|
                1 <= i < n ==> {
                    &&& #[trigger] ops[2 * (i - 1)] == (Op::Write32 {
                        addr: (gicd_base + 0x180 + 4 * i) as usize,
                        word: bitmap[i],
                    })
                    &&& ops[2 * (i - 1) + 1] == (Op::Write32 {
                        addr: (gicd_base + 0x380 + 4 * i) as usize,
                        word: bitmap[i],
                    })
                }
        }),
    decreases n,
{
    if n > 1 {
        lemma_reset_ops(gicd_base, bitmap, n - 1);
    }
}

/// When a zone is gone, each shared interrupt that it had is disabled and no longer
/// active, no other interrupt is touched, and the translation service forgets the zone.
pub proof fn lemma_reset(hw: HardwareView, gic: Gic, zone: ZoneView, i: int)
    requires
        1 <= i < 32,
        gic.gicd_base + 0x10000 <= usize::MAX,
    ensures
        ({
            let after = hw.irqchip_reset(gic, zone);
            let asked = after.ops.subrange(hw.ops.len() as int, after.ops.len() as int);
            let word = zone.inner.irq_bitmap[i];
            &&& after == (HardwareView { ops: after.ops, ..hw })
            &&& after.ops.len() == hw.ops.len() + 62 + if gic.gits_size != 0 {
                1int
            } else {
                0
            }
            &&& asked.contains(
                Op::Write32 { addr: (gic.gicd_base + 0x180 + 4 * i) as usize, word },
            )
            &&& asked.contains(
                Op::Write32 { addr: (gic.gicd_base + 0x380 + 4 * i) as usize, word },
            )
            &&& gic.gits_size != 0 <==> asked.contains(Op::GitsReset { zone_id: zone.id })
        }),
{
    let ops = crate::device::irqchip::gicv3::reset_ops(
        gic.gicd_base,
        zone.inner.irq_bitmap,
        32,
    );
    lemma_reset_ops(gic.gicd_base, zone.inner.irq_bitmap, 32);
    let after = hw.irqchip_reset(gic, zone);
    let asked = after.ops.subrange(hw.ops.len() as int, after.ops.len() as int);
    assert(asked[2 * (i - 1)] == ops[2 * (i - 1)]);
    assert(asked[2 * (i - 1) + 1] == ops[2 * (i - 1) + 1]);
    if gic.gits_size != 0 {
        assert(asked[62] == (Op::GitsReset { zone_id: zone.id }));
    } else {
        assert forall|k: int| 0 <= k < asked.len() implies !(#[trigger] asked[k] is GitsReset) by {
            assert(asked[k] == ops[k]);
            let j = k / 2 + 1;
            assert(ops[2 * (j - 1)] is Write32 && ops[2 * (j - 1) + 1] is Write32);
        }
    }
}

/// The interrupt interface of a pCPU is set up: nothing is left in the list registers or
/// active, every priority gets through, dropping a priority does not deactivate, and
/// guests get the group that they use.
pub proof fn lemma_interface_set_up(hw: HardwareView)
    requires
        hw.ich.lr.len() == 16,
    ensures
        ({
            let after = hw.gicc_set_up();
            &&& forall|i: int| 0 <= i <= hw.ich.vtr & 0xf ==> #[trigger] after.ich.lr[i] == 0
            &&& hw.ich.vtr >> 29 >= 4 ==> after.ich.ap1r[0] == 0
            &&& hw.ich.vtr >> 29 >= 5 ==> after.ich.ap1r[1] == 0
            &&& hw.ich.vtr >> 29 >= 6 ==> after.ich.ap1r[2] == 0 && after.ich.ap1r[3] == 0
            &&& after.ich.hcr == 1
            &&& (after.ich.vmcr >> 24) & 0xff == hw.icc.pmr & 0xff
            &&& after.ich.vmcr & 2 != 0
            &&& after.icc.igrpen1 == 1
            &&& after.icc.ctlr & 2 != 0
            &&& after.icc.pmr == 0xf0
            &&& after.ich.vtr == hw.ich.vtr
            &&& after.el1 == hw.el1
            &&& after.timer == hw.timer
            &&& after.el2 == hw.el2
            &&& after.ops == hw.ops
        }),
{
    let pmr = hw.icc.pmr;
    crate::device::irqchip::gicv3::lemma_lr_num(hw.ich.vtr);
    assert((((((pmr & 0xff) << 24) | 2) >> 24) & 0xff == pmr & 0xff) && (((pmr & 0xff) << 24) | 2)
        & 2 != 0 && 2u64 & 2 != 0) by (bit_vector);
}

proof fn lemma_affinity_position(affinities: Seq<u64>, affinity: u64, from: int, c: int)
    requires
        0 <= from <= c < affinities.len(),
        affinities[c] == affinity,
        forall|j: int| 0 <= j < c ==> #[trigger] affinities[j] != affinity,
    ensures
        crate::device::irqchip::gicv3::affinity_position(affinities, affinity, from) == c,
    decreases c - from,
{
    if from < c {
        lemma_affinity_position(affinities, affinity, from + 1, c);
    }
}

proof fn lemma_no_affinity(affinities: Seq<u64>, affinity: u64, from: int)
    requires
        0 <= from <= affinities.len(),
    ensures
        ({
            let at = crate::device::irqchip::gicv3::affinity_position(affinities, affinity, from);
            &&& from <= at <= affinities.len()
            &&& at < affinities.len() ==> affinities[at] == affinity
        }),
    decreases affinities.len() - from,
{
    if from < affinities.len() && affinities[from] != affinity {
        lemma_no_affinity(affinities, affinity, from + 1);
    }
}

/// Each pCPU has the redistributor that reports its affinity: the `k`th one, `k` frames
/// of redistributors after the first.
pub proof fn lemma_redistributors_found(
    gicr_base: usize,
    typers: Seq<u64>,
    affinities: Seq<u64>,
    n: nat,
    c: int,
    k: int,
)
    requires
        0 <= c < affinities.len(),
        0 <= k < n <= typers.len(),
        gicr_base + n * 0x20000 <= usize::MAX,
        forall|j: int| 0 <= j < c ==> #[trigger] affinities[j] != affinities[c],
        typers[k] >> 32 == affinities[c],
        forall|j: int| 0 <= j < n && j != k ==> #[trigger] typers[j] >> 32 != affinities[c],
    ensures
        ({
            let bases = crate::device::irqchip::gicv3::gicr_bases_found(
                gicr_base,
                typers,
                affinities,
                n,
            );
            &&& bases.len() == affinities.len()
            &&& bases[c] == gicr_base + k * 0x20000
        }),
    decreases n,
{
    let typer = typers[n - 1];
    assert((typer & 0xffff_ffff_0000_0000) >> 32 == typer >> 32) by (bit_vector);
    let before = crate::device::irqchip::gicv3::gicr_bases_found(
        gicr_base,
        typers,
        affinities,
        (n - 1) as nat,
    );
    lemma_found_len(gicr_base, typers, affinities, (n - 1) as nat);
    lemma_no_affinity(affinities, typer >> 32, 0);
    if k == n - 1 {
        lemma_affinity_position(affinities, typer >> 32, 0, c);
    } else {
        lemma_redistributors_found(gicr_base, typers, affinities, (n - 1) as nat, c, k);
    }
}

proof fn lemma_found_len(gicr_base: usize, typers: Seq<u64>, affinities: Seq<u64>, n: nat)
    ensures
        crate::device::irqchip::gicv3::gicr_bases_found(gicr_base, typers, affinities, n).len()
            == affinities.len(),
    decreases n,
{
    if n > 0 {
        lemma_found_len(gicr_base, typers, affinities, (n - 1) as nat);
        lemma_no_affinity(
            affinities,
            crate::device::irqchip::gicv3::typer_affinity(typers[n - 1]),
            0,
        );
    }
}

} // verus!

//! Where interrupts go.
//!
//! An interrupt that comes to a pCPU, or that a guest sends, ends up with the vCPU that
//! it is for: in a list register if that vCPU runs here, else among what is pending for
//! it.

use vstd::prelude::*;
use crate::hardware::Op;
use crate::hypervisor::{HvView, Sys};
use crate::vcpu::{PendingIrq, VCpuState};
use crate::zone::ZoneInnerView;

verus! {

/// A list register has something for the guest: its state is not inactive, or the end of
/// its interrupt is still to be reported.
pub open spec fn lr_taken(lr: u64) -> bool {
    lr >> 62 != 0 || (lr & 0x2000_0000_0000_0000 == 0 && lr & 0x200_0000_0000 != 0)
}

/// One of the list registers that the pCPU has is for interrupt `irq`.
pub open spec fn in_lr(sys: Sys, irq: usize) -> bool {
    exists|i: int|
        0 <= i <= sys.hw.ich.vtr & 0xf && lr_taken(#[trigger] sys.hw.ich.lr[i])
            && sys.hw.ich.lr[i] & 0xffff_ffff == irq as u64
}

/// Interrupt `irq` is pending for vCPU `id`.
pub open spec fn is_pending(hv: HvView, id: usize, irq: usize, is_hardware: bool) -> bool {
    hv.vcpus[id].pending.contains(PendingIrq { irq_id: irq, is_hardware })
}

/// The vCPU that a pCPU runs is the one that its scheduler has as the current one.
pub open spec fn runs_current(hv: HvView, cpu: usize) -> bool {
    let pc = hv.cpus[cpu as int];
    pc.current_vcpu is Some && hv.vcpus[pc.current_vcpu->0].state == VCpuState::Running
        ==> pc.sched.current == pc.current_vcpu
}

/// vCPU `id` waits for its turn on pCPU `cpu`, which is about to schedule.
pub open spec fn made_ready(hv: HvView, cpu: usize, id: usize) -> bool {
    &&& hv.vcpus[id].state == VCpuState::Ready
    &&& hv.cpus[cpu as int].sched.queued(id)
    &&& hv.cpus[cpu as int].need_resched
}

/// pCPU `cpu` has been told to schedule: the event is its newest and the SGI for events
/// was the last thing asked for.
pub open spec fn told_to_schedule(sys: Sys, cpu: usize) -> bool {
    &&& sys.hv.events[cpu as int].len() > 0
    &&& sys.hv.events[cpu as int].last() == 7
    &&& sys.hw.ops.len() > 0
    &&& sys.hw.ops.last() == (Op::RaiseSgi { cpu, sgi: 7 })
}

proof fn lemma_held(sys: Sys, irq: usize)
    requires
        crate::device::irqchip::gicv3::lr_holds(sys.hw.ich.lr, sys.hw.lr_count(), irq),
    ensures
        in_lr(sys, irq),
{
    let n = sys.hw.lr_count();
    let i = choose|i: int|
        0 <= i < n && !crate::device::irqchip::gicv3::lr_free(#[trigger] sys.hw.ich.lr[i])
            && sys.hw.ich.lr[i] & 0xffff_ffff == irq as u64;
    assert(lr_taken(sys.hw.ich.lr[i]));
}

/// An interrupt that is injected while vCPU `id` runs is in a list register or pending
/// for it; nothing else changes but the underflow interrupt's switch.
pub proof fn lemma_injected_somewhere(sys: Sys, cpu: usize, id: usize, irq: usize, is_hardware: bool)
    requires
        irq <= 0xffff_ffff,
        sys.hw.ich.lr.len() == 16,
        sys.hv.cpus[cpu as int].sched.current == Some(id),
        sys.hv.vcpus.contains_key(id),
    ensures
        ({
            let after = sys.injected(cpu, irq, is_hardware);
            &&& in_lr(after, irq) || is_pending(after.hv, id, irq, is_hardware)
            &&& forall|other: usize|
                other != id ==> #[trigger] after.hv.vcpus[other] == sys.hv.vcpus[other]
            &&& after.hv == (HvView { vcpus: after.hv.vcpus, ..sys.hv })
            &&& after.hv.vcpus[id] == (crate::vcpu::VCpuView {
                pending: after.hv.vcpus[id].pending,
                ..sys.hv.vcpus[id]
            })
            &&& after.hw.ops == sys.hw.ops
            &&& after.hw.el1 == sys.hw.el1
            &&& after.hv.vcpus.contains_key(id)
            &&& after.hw.ich.lr.len() == 16
            &&& after.hw.ich.vtr == sys.hw.ich.vtr
            &&& forall|i: int|
                0 <= i < 16 && lr_taken(#[trigger] sys.hw.ich.lr[i]) ==> after.hw.ich.lr[i]
                    == sys.hw.ich.lr[i]
            &&& forall|pended: PendingIrq|
                sys.hv.vcpus[id].pending.contains(pended) && sys.hv.vcpus[id].pending.len() < 64
                    && pended.irq_id != 27
                    ==> #[trigger] after.hv.vcpus[id].pending.contains(pended)
        }),
{
    let n = sys.hw.lr_count();
    let lrs = sys.hw.ich.lr;
    let free = crate::device::irqchip::gicv3::lr_first_free(lrs, n, 0);
    let after = sys.injected(cpu, irq, is_hardware);
    crate::device::irqchip::gicv3::lemma_lr_num(sys.hw.ich.vtr);
    crate::device::irqchip::gicv3::lemma_lr_first_free(lrs, n, 0);
    crate::laws::lemma_lr_value(irq, is_hardware);
    if crate::device::irqchip::gicv3::lr_holds(lrs, n, irq) {
        lemma_held(sys, irq);
    } else if free < n {
        assert(after.hw.ich.lr[free] == crate::device::irqchip::gicv3::lr_value(irq, is_hardware));
        assert(lr_taken(after.hw.ich.lr[free]));
    } else {
        crate::laws::lemma_pended_is_there(sys.hv.vcpus[id], irq, is_hardware);
        let before = sys.hv.vcpus[id].pending;
        let pending = after.hv.vcpus[id].pending;
        crate::vcpu::lemma_irq_position(before, irq, 0);
        let at = crate::vcpu::irq_position(before, irq, 0);
        assert forall|pended: PendingIrq|
            before.contains(pended) && before.len() < 64 && pended.irq_id
                != 27 implies #[trigger] pending.contains(pended) by {
            let k = choose|k: int| 0 <= k < before.len() && before[k] == pended;
            assert(pending[k] == pended);
        }
    }
}

/// An interrupt that is injected without waiting is in a list register.
pub proof fn lemma_injected_in_lr(sys: Sys, cpu: usize, irq: usize, is_hardware: bool)
    requires
        irq <= 0xffff_ffff,
        sys.hw.ich.lr.len() == 16,
        sys.injects(irq),
    ensures
        in_lr(sys.injected(cpu, irq, is_hardware), irq),
        sys.injected(cpu, irq, is_hardware).hv == sys.hv,
{
    let n = sys.hw.lr_count();
    let lrs = sys.hw.ich.lr;
    let free = crate::device::irqchip::gicv3::lr_first_free(lrs, n, 0);
    let after = sys.injected(cpu, irq, is_hardware);
    crate::device::irqchip::gicv3::lemma_lr_num(sys.hw.ich.vtr);
    crate::device::irqchip::gicv3::lemma_lr_first_free(lrs, n, 0);
    crate::laws::lemma_lr_value(irq, is_hardware);
    if crate::device::irqchip::gicv3::lr_holds(lrs, n, irq) {
        lemma_held(sys, irq);
    } else {
        assert(after.hw.ich.lr[free] == crate::device::irqchip::gicv3::lr_value(irq, is_hardware));
        assert(lr_taken(after.hw.ich.lr[free]));
    }
}

/// A blocked vCPU that is woken on its pCPU waits for its turn there.
proof fn lemma_woken_is_ready(hv: HvView, cpu: usize, id: usize)
    requires
        cpu < hv.cpus.len(),
        hv.cpus[cpu as int].sched.wf(),
        hv.vcpus.contains_key(id),
        hv.vcpus[id].state == VCpuState::Blocked,
    ensures
        ({
            let after = hv.woken(cpu, id);
            &&& after.vcpus[id].state == VCpuState::Ready
            &&& after.vcpus[id].pending == hv.vcpus[id].pending
            &&& after.cpus[cpu as int].sched.queued(id)
            &&& forall|other: usize|
                other != id ==> #[trigger] after.vcpus[other] == hv.vcpus[other]
            &&& after.events == hv.events
        }),
{
    let free = hv.cpus[cpu as int].sched.without_blocked(id);
    crate::laws::ready::lemma_enqueued(free, id, hv.vcpus[id].priority);
}

/// The vCPU that an interrupt on pCPU `cpu` is for: a shared interrupt is for the vCPU
/// that the pCPU's zone has routed it to, if that is one of the zone's; any other is for
/// the pCPU's current vCPU.
pub open spec fn irq_owner(hv: HvView, cpu: usize, irq: usize) -> Option<usize> {
    let pc = hv.cpus[cpu as int];
    let zone = hv.zones[pc.zone->0].inner;
    let target = zone.irq_targets[irq as int];
    if 32 <= irq < 1024 && pc.zone is Some && target is Some && zone.vcpus.contains(target->0) {
        target
    } else {
        pc.current_vcpu
    }
}

/// What routing an interrupt must achieve for vCPU `id`, which it is for.
pub open spec fn reaches(
    sys: Sys,
    after: Sys,
    cpu: usize,
    id: usize,
    irq: usize,
    is_hardware: bool,
) -> bool {
    let before = sys.hv.vcpus[id];
    let home = before.affinity->0;
    let runs_here = sys.hv.cpus[cpu as int].current_vcpu == Some(id) && before.state
        == VCpuState::Running;
    &&& is_pending(after.hv, id, irq, is_hardware) || (runs_here && in_lr(after, irq))
    &&& home == cpu && before.state == VCpuState::Blocked ==> made_ready(after.hv, cpu, id)
    &&& before.state != VCpuState::Blocked || home != cpu ==> after.hv.vcpus[id].state
        == before.state
    &&& forall|other: usize|
        other != id ==> #[trigger] after.hv.vcpus[other] == sys.hv.vcpus[other]
}

/// No routed interrupt is lost.  The vCPU that it is for has it in a list register, if it
/// runs here, or pending, whatever its state is and wherever it is bound.  If it is
/// blocked on this pCPU it becomes ready and the pCPU schedules; if it is bound to
/// another pCPU, that one is told.  No other vCPU is touched.
pub proof fn lemma_routed_irq_not_lost(sys: Sys, cpu: usize, irq: usize, is_hardware: bool)
    requires
        sys.hv.wf(),
        cpu < sys.hv.cpus.len(),
        irq <= 0xffff_ffff,
        sys.hw.ich.lr.len() == 16,
        runs_current(sys.hv, cpu),
        irq_owner(sys.hv, cpu, irq) is Some,
    ensures
        ({
            let id = irq_owner(sys.hv, cpu, irq)->0;
            let home = sys.hv.vcpus[id].affinity->0;
            let after = sys.routed(cpu, irq, is_hardware);
            &&& reaches(sys, after, cpu, id, irq, is_hardware)
            &&& home != cpu ==> told_to_schedule(after, home)
            &&& home == cpu ==> after.hw.ops == sys.hw.ops && after.hv.events == sys.hv.events
        }),
{
    let hv = sys.hv;
    let pc = hv.cpus[cpu as int];
    let id = irq_owner(hv, cpu, irq)->0;
    crate::hypervisor::lemma_cpu_ok(hv, cpu);
    crate::hypervisor::lemma_wf_sizes(hv);
    let after = sys.routed(cpu, irq, is_hardware);
    if pc.current_vcpu != Some(id) {
        let zone = pc.zone->0;
        crate::hypervisor::lemma_zone_ok(hv, zone);
        let k = choose|k: int|
            0 <= k < hv.zones[zone].inner.vcpus.len() && hv.zones[zone].inner.vcpus[k] == id;
        assert(hv.vcpus.contains_key(hv.zones[zone].inner.vcpus[k]));
    }
    crate::hypervisor::lemma_vcpu_ok(hv, id);
    crate::laws::lemma_pended_is_there(hv.vcpus[id], irq, is_hardware);
    let pended = hv.irq_pended(id, irq, is_hardware);
    if hv.routed_elsewhere(cpu, irq) is None && hv.vcpus[id].state == VCpuState::Running {
        lemma_injected_somewhere(sys, cpu, id, irq, is_hardware);
    } else if hv.vcpus[id].state == VCpuState::Blocked {
        lemma_woken_is_ready(pended, cpu, id);
    }
    let home = hv.vcpus[id].affinity->0;
    if home != cpu {
        assert(after.hw.ops.last() == (Op::RaiseSgi { cpu: home, sgi: 7 }));
        assert(after.hv.events[home as int].last() == 7);
    }
}

/// No device interrupt that a pCPU takes is lost: the vCPU that it is for has it in a
/// list register, tied to the physical interrupt, or pending.
pub proof fn lemma_device_irq_not_lost(sys: Sys, cpu: usize, irq: usize)
    requires
        sys.hv.wf(),
        cpu < sys.hv.cpus.len(),
        16 <= irq <= 0xffff_ffff,
        irq != 25,
        irq != 26,
        sys.hw.ich.lr.len() == 16,
        runs_current(sys.hv, cpu),
        irq_owner(sys.hv, cpu, irq) is Some,
    ensures
        reaches(
            sys,
            sys.irq_handled(cpu, irq).0,
            cpu,
            irq_owner(sys.hv, cpu, irq)->0,
            irq,
            true,
        ),
{
    lemma_routed_irq_not_lost(sys, cpu, irq, true);
    let routed = sys.routed(cpu, irq, true);
    let after = sys.irq_handled(cpu, irq).0;
    assert(after.hw.ich == routed.hw.ich);
    if in_lr(routed, irq) {
        let i = choose|i: int|
            0 <= i <= routed.hw.ich.vtr & 0xf && lr_taken(#[trigger] routed.hw.ich.lr[i])
                && routed.hw.ich.lr[i] & 0xffff_ffff == irq as u64;
        assert(lr_taken(after.hw.ich.lr[i]));
    }
}

/// No SGI that comes to a pCPU for its guest is lost.
pub proof fn lemma_guest_sgi_not_lost(sys: Sys, cpu: usize, irq: usize)
    requires
        sys.hv.wf(),
        cpu < sys.hv.cpus.len(),
        irq < 7,
        sys.hw.ich.lr.len() == 16,
        runs_current(sys.hv, cpu),
        sys.hv.cpus[cpu as int].current_vcpu is Some,
    ensures
        reaches(
            sys,
            sys.irq_handled(cpu, irq).0,
            cpu,
            sys.hv.cpus[cpu as int].current_vcpu->0,
            irq,
            false,
        ),
{
    let quiet = Sys { hw: sys.hw.deactivated(irq), ..sys };
    assert(quiet.hw.ich == sys.hw.ich);
    lemma_routed_irq_not_lost(quiet, cpu, irq, false);
}

/// The virtual device's wake-up reaches the pCPU's guest as the interrupt that the board
/// has for it.
pub proof fn lemma_virtio_wakeup_not_lost(sys: Sys, cpu: usize)
    requires
        sys.hv.wf(),
        cpu < sys.hv.cpus.len(),
        sys.hv.board.irq_wakeup_virtio_device <= 0xffff_ffff,
        sys.hw.ich.lr.len() == 16,
        runs_current(sys.hv, cpu),
        irq_owner(sys.hv, cpu, sys.hv.board.irq_wakeup_virtio_device) is Some,
    ensures
        ({
            let irq = sys.hv.board.irq_wakeup_virtio_device;
            reaches(
                sys,
                sys.event_handled(cpu, 3).0,
                cpu,
                irq_owner(sys.hv, cpu, irq)->0,
                irq,
                false,
            )
        }),
{
    lemma_routed_irq_not_lost(sys, cpu, sys.hv.board.irq_wakeup_virtio_device, false);
}

// ---------------------------------------------------------------------------
// SGIs of guests
// ---------------------------------------------------------------------------

/// The affinity that bit `k` of an SGI's target list stands for: the higher fields that
/// the guest has written, and `k` in the lowest.
pub open spec fn named_affinity(val: u64, k: u64) -> u64 {
    (((val >> 44) & 0xf) << 32) | (((val >> 32) & 0xff) << 16) | (((val >> 16) & 0xff) << 8) | k
}

/// An SGI that `sender` sends with value `val` is for vCPU `id`: one of its zone, which
/// is any but the sender if the value says so, else one whose affinity it names.
pub open spec fn sgi_is_for(zone: ZoneInnerView, val: u64, sender: usize, id: usize) -> bool {
    &&& zone.vcpus.contains(id)
    &&& if (val >> 40) & 1 == 1 {
        id != sender
    } else {
        exists|k: u64|
            k < 16 && (val & 0xffff) & (1u64 << k) != 0 && zone.mpidrs.contains_key(
                #[trigger] named_affinity(val, k) & 0xff_00ff_ffff,
            ) && zone.mpidrs[named_affinity(val, k) & 0xff_00ff_ffff] == id
    }
}

proof fn lemma_listed(zone: ZoneInnerView, val: u64, n: nat, id: usize)
    requires
        n <= 16,
    ensures
        crate::arch::aarch64::trap::listed_targets(zone, val, n).contains(id) <==> exists|k: u64|
            k < n && (val & 0xffff) & (1u64 << k) != 0 && zone.mpidrs.contains_key(
                #[trigger] named_affinity(val, k) & 0xff_00ff_ffff,
            ) && zone.mpidrs[named_affinity(val, k) & 0xff_00ff_ffff] == id && zone.vcpus.contains(
                id,
            ),
    decreases n,
{
    let all = crate::arch::aarch64::trap::listed_targets(zone, val, n);
    if n > 0 {
        let last = (n - 1) as u64;
        let before = crate::arch::aarch64::trap::listed_targets(zone, val, (n - 1) as nat);
        lemma_listed(zone, val, (n - 1) as nat, id);
        let key = named_affinity(val, last) & 0xff_00ff_ffff;
        assert(crate::arch::aarch64::trap::sgi_mpidr(val, last).0 == key);
        if all.contains(id) && !before.contains(id) {
            let i = choose|i: int| 0 <= i < all.len() && all[i] == id;
            if i < before.len() {
                assert(before[i] == id);
            }
            assert(zone.mpidrs[named_affinity(val, last) & 0xff_00ff_ffff] == id);
        }
        if before.contains(id) {
            let i = choose|i: int| 0 <= i < before.len() && before[i] == id;
            assert(all[i] == id);
        }
        if (val & 0xffff) & (1u64 << last) != 0 && zone.mpidrs.contains_key(key)
            && zone.mpidrs[key] == id && zone.vcpus.contains(id) {
            assert(all[before.len() as int] == id);
        }
    }
}

proof fn lemma_others(ids: Seq<usize>, sender: usize, id: usize)
    ensures
        crate::arch::aarch64::trap::all_but(ids, sender).contains(id) <==> ids.contains(id) && id
            != sender,
    decreases ids.len(),
{
    let all = crate::arch::aarch64::trap::all_but(ids, sender);
    if ids.len() > 0 {
        let rest = ids.drop_last();
        let before = crate::arch::aarch64::trap::all_but(rest, sender);
        lemma_others(rest, sender, id);
        if all.contains(id) && !before.contains(id) {
            let i = choose|i: int| 0 <= i < all.len() && all[i] == id;
            if i < before.len() {
                assert(before[i] == id);
            }
            assert(ids[ids.len() - 1] == id);
        }
        if before.contains(id) {
            let i = choose|i: int| 0 <= i < before.len() && before[i] == id;
            assert(all[i] == id);
            let k = choose|k: int| 0 <= k < rest.len() && rest[k] == id;
            assert(ids[k] == id);
        }
        if ids.contains(id) && id != sender {
            let k = choose|k: int| 0 <= k < ids.len() && ids[k] == id;
            if k < rest.len() {
                assert(rest[k] == id);
            } else {
                assert(all[before.len() as int] == id);
            }
        }
    }
}

/// The targets of an SGI are exactly the vCPUs that it is for.
pub proof fn lemma_sgi_targets_complete(zone: ZoneInnerView, val: u64, sender: usize, id: usize)
    ensures
        crate::arch::aarch64::trap::sgi_targets(zone, val, sender).contains(id) <==> sgi_is_for(
            zone,
            val,
            sender,
            id,
        ),
{
    if (val >> 40) & 1 == 1 {
        lemma_others(zone.vcpus, sender, id);
    } else {
        lemma_listed(zone, val, 16, id);
    }
}

/// What delivering an SGI to one vCPU leaves as it is, and what it does for that vCPU.
proof fn lemma_delivered(sys: Sys, cpu: usize, id: usize, sgi: usize)
    requires
        cpu < sys.hv.cpus.len(),
        forall|c: int| 0 <= c < sys.hv.cpus.len() ==> (#[trigger] sys.hv.cpus[c]).sched.wf(),
        sys.hv.vcpus.contains_key(id),
        sys.hv.vcpus[id].affinity is Some,
        sys.hv.vcpus[id].affinity->0 < sys.hv.cpus.len(),
        sys.hv.events.len() == sys.hv.cpus.len(),
        sgi < 16,
        sys.hw.ich.lr.len() == 16,
        runs_current(sys.hv, cpu),
    ensures
        ({
            let after = sys.sgi_delivered(cpu, id, sgi);
            let before = sys.hv.vcpus[id];
            let home = before.affinity->0;
            let runs_here = sys.hv.cpus[cpu as int].current_vcpu == Some(id) && before.state
                == VCpuState::Running;
            &&& before.state != VCpuState::Stopped ==> is_pending(after.hv, id, sgi, false) || (
            runs_here && in_lr(after, sgi))
            &&& before.state == VCpuState::Stopped ==> after == sys
            &&& home == cpu && before.state == VCpuState::Blocked ==> made_ready(
                after.hv,
                cpu,
                id,
            )
            &&& home != cpu && before.state != VCpuState::Stopped && !runs_here
                ==> told_to_schedule(after, home)
            &&& home != cpu || before.state != VCpuState::Blocked ==> after.hv.vcpus[id].state
                == before.state
            &&& after.hv.vcpus[id].affinity == before.affinity
            &&& after.hv.vcpus.dom() == sys.hv.vcpus.dom()
            &&& forall|other: usize|
                other != id ==> #[trigger] after.hv.vcpus[other] == sys.hv.vcpus[other]
            &&& after.hv.cpus.len() == sys.hv.cpus.len()
            &&& after.hv.events.len() == sys.hv.events.len()
            &&& forall|c: int|
                0 <= c < sys.hv.cpus.len() ==> {
                    &&& (#[trigger] after.hv.cpus[c]).sched.wf()
                    &&& after.hv.cpus[c].current_vcpu == sys.hv.cpus[c].current_vcpu
                    &&& after.hv.cpus[c].sched.current == sys.hv.cpus[c].sched.current
                }
            &&& after.hw.ich.lr.len() == 16
            &&& after.hw.ich.vtr == sys.hw.ich.vtr
            &&& forall|i: int|
                0 <= i < 16 && lr_taken(#[trigger] sys.hw.ich.lr[i]) ==> after.hw.ich.lr[i]
                    == sys.hw.ich.lr[i]
        }),
{
    let after = sys.sgi_delivered(cpu, id, sgi);
    let before = sys.hv.vcpus[id];
    let home = before.affinity->0;
    crate::laws::lemma_pended_is_there(before, sgi, false);
    let pended = sys.hv.irq_pended(id, sgi, false);
    if sys.hv.cpus[cpu as int].current_vcpu == Some(id) && before.state == VCpuState::Running {
        lemma_injected_somewhere(sys, cpu, id, sgi, false);
    } else if before.state == VCpuState::Blocked && home == cpu {
        lemma_woken_is_ready(pended, cpu, id);
        assert(pended.cpus[cpu as int].sched.wf());
    }
    assert(after.hv.vcpus.dom() =~= sys.hv.vcpus.dom());
    if home != cpu && after != sys && !(sys.hv.cpus[cpu as int].current_vcpu == Some(id)
        && before.state == VCpuState::Running) {
        assert(after.hw.ops.last() == (Op::RaiseSgi { cpu: home, sgi: 7 }));
        assert(after.hv.events[home as int].last() == 7);
    }
}

proof fn lemma_delivered_to(sys: Sys, cpu: usize, targets: Seq<usize>, sgi: usize, id: usize)
    requires
        cpu < sys.hv.cpus.len(),
        forall|c: int| 0 <= c < sys.hv.cpus.len() ==> (#[trigger] sys.hv.cpus[c]).sched.wf(),
        forall|i: int|
            0 <= i < targets.len() ==> {
                &&& sys.hv.vcpus.contains_key(#[trigger] targets[i])
                &&& sys.hv.vcpus[targets[i]].affinity is Some
                &&& sys.hv.vcpus[targets[i]].affinity->0 < sys.hv.cpus.len()
            },
        sys.hv.events.len() == sys.hv.cpus.len(),
        sgi < 16,
        sys.hw.ich.lr.len() == 16,
        runs_current(sys.hv, cpu),
    ensures
        ({
            let after = sys.sgi_delivered_to(cpu, targets, sgi);
            &&& in_lr(sys, sgi) ==> in_lr(after, sgi)
            &&& is_pending(sys.hv, id, sgi, false) ==> is_pending(after.hv, id, sgi, false)
            &&& targets.contains(id) && sys.hv.vcpus[id].state != VCpuState::Stopped
                ==> is_pending(after.hv, id, sgi, false) || (sys.hv.cpus[cpu as int].current_vcpu
                == Some(id) && sys.hv.vcpus[id].state == VCpuState::Running && in_lr(after, sgi))
            &&& !targets.contains(id) || sys.hv.vcpus[id].state == VCpuState::Stopped
                ==> after.hv.vcpus[id] == sys.hv.vcpus[id]
        }),
    decreases targets.len(),
{
    if targets.len() > 0 {
        let first = targets[0];
        let rest = targets.subrange(1, targets.len() as int);
        let next = sys.sgi_delivered(cpu, first, sgi);
        lemma_delivered(sys, cpu, first, sgi);
        assert(runs_current(next.hv, cpu));
        assert forall|i: int| 0 <= i < rest.len() implies {
            &&& next.hv.vcpus.contains_key(#[trigger] rest[i])
            &&& next.hv.vcpus[rest[i]].affinity is Some
            &&& next.hv.vcpus[rest[i]].affinity->0 < next.hv.cpus.len()
        } by {
            assert(rest[i] == targets[i + 1]);
            assert(sys.hv.vcpus.dom().contains(rest[i]));
        }
        lemma_delivered_to(next, cpu, rest, sgi, id);
        if in_lr(sys, sgi) {
            let i = choose|i: int|
                0 <= i <= sys.hw.ich.vtr & 0xf && lr_taken(#[trigger] sys.hw.ich.lr[i])
                    && sys.hw.ich.lr[i] & 0xffff_ffff == sgi as u64;
            assert(sys.hw.ich.vtr & 0xf <= 15) by {
                crate::device::irqchip::gicv3::lemma_lr_num(sys.hw.ich.vtr);
            }
            assert(next.hw.ich.lr[i] == sys.hw.ich.lr[i]);
        }
        if is_pending(sys.hv, id, sgi, false) && id == first {
            let running = sys.hv.cpus[cpu as int].current_vcpu == Some(id)
                && sys.hv.vcpus[id].state == VCpuState::Running;
            if running {
                lemma_sgi_still_pending(sys, cpu, id, sgi);
            }
        }
        if targets.contains(id) && id != first {
            let k = choose|k: int| 0 <= k < targets.len() && targets[k] == id;
            assert(rest[k - 1] == id);
        }
        if rest.contains(id) {
            let k = choose|k: int| 0 <= k < rest.len() && rest[k] == id;
            assert(targets[k + 1] == id);
        }
    }
}

/// An SGI that is pending stays pending when it is injected once more.
proof fn lemma_sgi_still_pending(sys: Sys, cpu: usize, id: usize, sgi: usize)
    requires
        is_pending(sys.hv, id, sgi, false),
        sys.hv.cpus[cpu as int].sched.current == Some(id),
    ensures
        is_pending(sys.injected(cpu, sgi, false).hv, id, sgi, false),
{
    crate::laws::lemma_pended_is_there(sys.hv.vcpus[id], sgi, false);
}

/// An SGI of a guest reaches every vCPU that it is for and that is not stopped: it is
/// pending for it, or in a list register if it is the sender.  No other vCPU is touched.
pub proof fn lemma_guest_sgi_reaches(sys: Sys, cpu: usize, val: u64, sgi: usize, id: usize)
    requires
        sys.hv.wf(),
        cpu < sys.hv.cpus.len(),
        sgi < 16,
        sys.hw.ich.lr.len() == 16,
        runs_current(sys.hv, cpu),
        sys.hv.cpus[cpu as int].current_vcpu is Some,
    ensures
        ({
            let sender = sys.hv.cpus[cpu as int].current_vcpu->0;
            let zone = sys.hv.zones[sys.hv.vcpus[sender].zone].inner;
            let after = sys.guest_sgi_sent(cpu, val, sgi);
            if sgi_is_for(zone, val, sender, id) && sys.hv.vcpus[id].state != VCpuState::Stopped {
                is_pending(after.hv, id, sgi, false) || (id == sender && in_lr(after, sgi))
            } else {
                after.hv.vcpus[id] == sys.hv.vcpus[id]
            }
        }),
{
    let hv = sys.hv;
    let sender = hv.cpus[cpu as int].current_vcpu->0;
    crate::hypervisor::lemma_cpu_ok(hv, cpu);
    crate::hypervisor::lemma_wf_sizes(hv);
    crate::hypervisor::lemma_vcpu_ok(hv, sender);
    let zone_id = hv.vcpus[sender].zone;
    let zone = hv.zones[zone_id].inner;
    crate::hypervisor::lemma_zone_ok(hv, zone_id);
    let targets = crate::arch::aarch64::trap::sgi_targets(zone, val, sender);
    assert forall|c: int| 0 <= c < hv.cpus.len() implies (#[trigger] hv.cpus[c]).sched.wf() by {
        crate::hypervisor::lemma_cpu_ok(hv, c as usize);
    }
    assert forall|i: int| 0 <= i < targets.len() implies {
        &&& hv.vcpus.contains_key(#[trigger] targets[i])
        &&& hv.vcpus[targets[i]].affinity is Some
        &&& hv.vcpus[targets[i]].affinity->0 < hv.cpus.len()
    } by {
        assert(targets.contains(targets[i]));
        lemma_sgi_targets_complete(zone, val, sender, targets[i]);
        let k = choose|k: int| 0 <= k < zone.vcpus.len() && zone.vcpus[k] == targets[i];
        assert(hv.vcpus.contains_key(zone.vcpus[k]));
        crate::hypervisor::lemma_vcpu_ok(hv, targets[i]);
    }
    lemma_sgi_targets_complete(zone, val, sender, id);
    lemma_delivered_to(sys, cpu, targets, sgi, id);
}

/// A vCPU that gets an SGI is given a chance to take it: unless it runs here or is stopped,
/// the pCPU that it is bound to schedules, and is told so if it is another one.  A stopped
/// vCPU gets nothing.
pub proof fn lemma_sgi_is_followed(sys: Sys, cpu: usize, id: usize, sgi: usize)
    requires
        sys.hv.wf(),
        cpu < sys.hv.cpus.len(),
        sys.hv.vcpus.contains_key(id),
        !(sys.hv.cpus[cpu as int].current_vcpu == Some(id) && sys.hv.vcpus[id].state
            == VCpuState::Running),
    ensures
        ({
            let after = sys.sgi_delivered(cpu, id, sgi);
            let state = sys.hv.vcpus[id].state;
            let home = sys.hv.vcpus[id].affinity->0;
            &&& state == VCpuState::Stopped ==> after == sys
            &&& state != VCpuState::Stopped ==> {
                &&& is_pending(after.hv, id, sgi, false)
                &&& home != cpu ==> told_to_schedule(after, home)
                &&& home == cpu && state != VCpuState::Running
                    ==> after.hv.cpus[cpu as int].need_resched
                &&& home != cpu && state != VCpuState::Blocked
                    ==> after.hv.cpus[home as int].need_resched
                &&& home == cpu && state == VCpuState::Blocked ==> made_ready(after.hv, cpu, id)
            }
        }),
{
    crate::hypervisor::lemma_cpu_ok(sys.hv, cpu);
    crate::hypervisor::lemma_wf_sizes(sys.hv);
    crate::hypervisor::lemma_vcpu_ok(sys.hv, id);
    crate::laws::lemma_pended_is_there(sys.hv.vcpus[id], sgi, false);
    if sys.hv.vcpus[id].state == VCpuState::Blocked {
        lemma_woken_is_ready(sys.hv.irq_pended(id, sgi, false), cpu, id);
    }
}

} // verus!

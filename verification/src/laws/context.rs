//! A vCPU finds its context as it left it.

use vstd::prelude::*;
use crate::arch::aarch64::vcpu::{El1SysRegs, VirtualGicrView};
use crate::hardware::{HardwareView, Op};
use crate::hypervisor::Sys;
use crate::scheduler::SchedOutcome;
use crate::vcpu::VCpuView;

verus! {

/// The interface of a new vCPU has as many list registers as the hardware at least.
pub proof fn lemma_lr_count(vtr: u64)
    ensures
        ({
            let vcpu = crate::arch::aarch64::vcpu::ArchVCpuView::fresh(0x1000, vtr);
            &&& vtr & 0xf < vcpu.gic_state.lr_count
            &&& (vtr & 0x1f) + 1 == vcpu.gic_state.lr_count
            &&& vcpu.gic_state.pri_bits == ((vtr >> 26) & 7) + 1
        }),
{
    assert(vtr & 0xf <= vtr & 0x1f && vtr & 0x1f <= 0x1f && (vtr >> 26) & 7 <= 7) by (bit_vector);
}

/// The registers of a vCPU that starts: the system control register has its value at
/// reset, and every other register is zero; nothing is in its list registers or active,
/// and its interrupt interface is on.
pub proof fn lemma_registers_at_reset(vtr: u64, stack_top: usize, i: int)
    requires
        0 <= i < 16,
    ensures
        ({
            let vcpu = crate::arch::aarch64::vcpu::ArchVCpuView::fresh(stack_top, vtr);
            let regs = vcpu.el1_regs;
            let gic = vcpu.gic_state;
            &&& regs.sctlr_el1 == 0x30d0_0800
            &&& regs.ttbr0_el1 == 0 && regs.ttbr1_el1 == 0 && regs.tcr_el1 == 0
            &&& regs.esr_el1 == 0 && regs.far_el1 == 0 && regs.mair_el1 == 0
            &&& regs.amair_el1 == 0 && regs.vbar_el1 == 0 && regs.contextidr_el1 == 0
            &&& regs.cpacr_el1 == 0 && regs.csselr_el1 == 0 && regs.sp_el0 == 0
            &&& regs.sp_el1 == 0 && regs.spsr_el1 == 0 && regs.elr_el1 == 0
            &&& regs.afsr0_el1 == 0 && regs.afsr1_el1 == 0 && regs.par_el1 == 0
            &&& regs.tpidr_el0 == 0 && regs.tpidr_el1 == 0 && regs.tpidrro_el0 == 0
            &&& regs.cntvoff_el2 == 0 && regs.cntp_ctl_el0 == 0 && regs.cntp_cval_el0 == 0
            &&& regs.cntv_ctl_el0 == 0 && regs.cntv_cval_el0 == 0 && regs.cntkctl_el1 == 0
            &&& vcpu.stack_top == stack_top
            &&& vcpu.frame.x.len() == 31
            &&& vcpu.frame.x[i] == 0
            &&& gic.ich_lr.len() == 16 && gic.ich_lr[i] == 0
            &&& gic.ich_ap1r.len() == 4
            &&& i < 4 ==> gic.ich_ap1r[i] == 0
            &&& gic.ich_hcr == 1
            &&& gic.ich_vmcr == 0xff00_0002
            &&& !gic.vgicr.initialized
            &&& gic.vgicr.isenabler == 0
            &&& gic.vgicr.ipriorityr.len() == 8
            &&& gic.vgicr.icfgr.len() == 2
        }),
{
}

/// A vCPU that is switched out and later switched in again, whatever ran in between, finds
/// its registers: those of EL1, but for the mask of a timer that has not fired; the
/// control registers of its interrupt interface, the list registers and the active
/// priorities.  Switching it out changes nothing else about it, and leaves the pCPU with
/// its timer silent.
pub proof fn lemma_context_comes_back(
    sys: Sys,
    now: HardwareView,
    id: usize,
    prev_zone: Option<usize>,
)
    requires
        sys.hv.vcpus.contains_key(id),
        sys.hw.ich.lr.len() == 16,
        sys.hw.ich.ap1r.len() == 4,
        sys.hv.vcpus[id].arch.gic_state.lr_count > sys.hw.ich.vtr & 0xf,
        sys.hw.ich.vtr & 0xf < 16,
    ensures
        ({
            let out = sys.switched_out(id);
            let back = (Sys { hv: out.hv, hw: now }).switched_in(id, prev_zone).hw;
            let ctl = sys.hw.el1.cntv_ctl_el0;
            let pri_bits = sys.hv.vcpus[id].arch.gic_state.pri_bits;
            &&& back.el1 == (El1SysRegs { cntv_ctl_el0: back.el1.cntv_ctl_el0, ..sys.hw.el1 })
            &&& back.el1.cntv_ctl_el0 & !2 == ctl & !2
            &&& back.el1.cntv_ctl_el0 & 2 != 0 <==> ctl & 1 != 0 && ctl & 4 != 0
            &&& back.ich.vmcr == sys.hw.ich.vmcr
            &&& back.ich.hcr == sys.hw.ich.hcr
            &&& forall|i: int|
                0 <= i <= sys.hw.ich.vtr & 0xf ==> #[trigger] back.ich.lr[i] == sys.hw.ich.lr[i]
            &&& back.ich.ap1r[0] == sys.hw.ich.ap1r[0]
            &&& pri_bits >= 6 ==> back.ich.ap1r[1] == sys.hw.ich.ap1r[1]
            &&& pri_bits >= 7 ==> back.ich.ap1r[2] == sys.hw.ich.ap1r[2] && back.ich.ap1r[3]
                == sys.hw.ich.ap1r[3]
            &&& back.el2.pmcr_el0 == 0
            &&& back.icc == now.icc
            &&& back.timer == now.timer
            &&& out.hv.vcpus[id].arch.frame == sys.hv.vcpus[id].arch.frame
            &&& out.hv.vcpus[id].arch.gic_state.vgicr == sys.hv.vcpus[id].arch.gic_state.vgicr
            &&& out.hv.vcpus[id] == (VCpuView {
                arch: out.hv.vcpus[id].arch,
                ..sys.hv.vcpus[id]
            })
            &&& forall|other: usize|
                other != id ==> #[trigger] out.hv.vcpus[other] == sys.hv.vcpus[other]
            &&& out.hv.cpus == sys.hv.cpus
            &&& out.hw.ich == sys.hw.ich
            &&& out.hw.ops == sys.hw.ops
            &&& out.hw.timer == sys.hw.timer
            &&& ctl & 1 != 0 ==> out.hw.el1.cntv_ctl_el0 & 2 != 0
        }),
{
    let gic = sys.hv.vcpus[id].arch.gic_state;
    crate::laws::lemma_el1_round_trip(sys.hw.el1);
    crate::laws::lemma_gic_round_trip(gic, sys.hw.ich, now.ich);
    crate::laws::lemma_timer_silent_when_away(sys, id);
    crate::laws::lemma_second_bit(sys.hw.el1.cntv_ctl_el0);
}

/// A pCPU that switches to a vCPU restores that vCPU's private interrupts on its own
/// redistributor.  It uses the stage-2 tables of the vCPU's zone: they are switched if the
/// vCPU before it was of another zone or there was none, and left alone otherwise.
pub proof fn lemma_tables_follow_guest(sys: Sys, cpu: usize)
    requires
        sys.hv.wf(),
        cpu < sys.hv.cpus.len(),
        sys.scheduled(cpu).1 == SchedOutcome::Switched,
    ensures
        ({
            let after = sys.scheduled(cpu).0;
            let prev = sys.hv.cpus[cpu as int].sched.current;
            let next = after.hv.cpus[cpu as int].sched.current->0;
            let vcpu = sys.hv.vcpus[next];
            let private = crate::arch::aarch64::vcpu::vgicr_ops(
                sys.hv.gicr_bases[vcpu.affinity->0 as int],
                vcpu.arch.gic_state.vgicr,
            );
            &&& if prev is Some && sys.hv.vcpus[prev->0].zone == vcpu.zone {
                after.hw.ops == sys.hw.ops + private
            } else {
                after.hw.ops == (sys.hw.ops + private).push(Op::ActivateVmm).push(
                    Op::ActivateGpm { root: sys.hv.zones[vcpu.zone].inner.gpm.root },
                )
            }
        }),
{
    crate::hypervisor::lemma_cpu_ok(sys.hv, cpu);
    crate::laws::turns::lemma_arrivals_queued(sys.hv, cpu);
    let ready = Sys { hv: sys.hv.incoming_drained(cpu).resched_taken(cpu), ..sys };
    let sched = ready.hv.cpus[cpu as int].sched;
    let left = ready.vacated(cpu);
    let zone = match sched.current {
        Some(prev) => Some(ready.hv.vcpus[prev].zone),
        None => None,
    };
    if sched.current is Some {
        crate::laws::turns::lemma_vacated(ready, cpu, sched.current->0);
    }
    crate::laws::waiting::lemma_dispatch_keeps(left, cpu, zone);
    let next = sys.scheduled(cpu).0.hv.cpus[cpu as int].sched.current->0;
    assert(left.hw.ops == sys.hw.ops);
    assert(left.hv.vcpus[next].zone == sys.hv.vcpus[next].zone);
    assert(left.hv.vcpus[next].affinity == sys.hv.vcpus[next].affinity);
    assert(left.hv.vcpus[next].arch.gic_state.vgicr == sys.hv.vcpus[next].arch.gic_state.vgicr);
    assert(left.hv.zones == sys.hv.zones);
    assert(left.hv.gicr_bases == sys.hv.gicr_bases);
}

// ---------------------------------------------------------------------------
// Private interrupts
// ---------------------------------------------------------------------------

/// Which private interrupts a redistributor lets through after some operations, where
/// `on` has the bits of those that it did before.
pub open spec fn enabled_after(ops: Seq<Op>, gicr_base: usize, on: u32) -> u32
    decreases ops.len(),
{
    if ops.len() == 0 {
        on
    } else {
        let before = enabled_after(ops.drop_last(), gicr_base, on);
        match ops.last() {
            Op::Write32 { addr, word } => if addr == gicr_base + 0x10100 {
                before | word
            } else if addr == gicr_base + 0x10180 {
                before & !word
            } else {
                before
            },
            _ => before,
        }
    }
}

/// The priority of private interrupt `irq` after some operations, where it was `priority`.
pub open spec fn priority_after(ops: Seq<Op>, gicr_base: usize, irq: int, priority: u8) -> u8
    decreases ops.len(),
{
    if ops.len() == 0 {
        priority
    } else {
        let before = priority_after(ops.drop_last(), gicr_base, irq, priority);
        match ops.last() {
            Op::Write8 { addr, byte } => if addr == gicr_base + 0x10400 + irq {
                byte
            } else {
                before
            },
            Op::Write32 { addr, word } => if addr == gicr_base + 0x10400 + irq / 4 * 4 {
                field_of(word, irq % 4)
            } else {
                before
            },
            _ => before,
        }
    }
}

/// Byte `i` of a word.
pub open spec fn field_of(word: u32, i: int) -> u8 {
    (word >> ((8 * i) as u32)) as u8
}

proof fn lemma_one_more(ops: Seq<Op>, op: Op, gicr_base: usize, on: u32, irq: int, priority: u8)
    ensures
        enabled_after(ops.push(op), gicr_base, on) == (match op {
            Op::Write32 { addr, word } => if addr == gicr_base + 0x10100 {
                enabled_after(ops, gicr_base, on) | word
            } else if addr == gicr_base + 0x10180 {
                enabled_after(ops, gicr_base, on) & !word
            } else {
                enabled_after(ops, gicr_base, on)
            },
            _ => enabled_after(ops, gicr_base, on),
        }),
        priority_after(ops.push(op), gicr_base, irq, priority) == (match op {
            Op::Write8 { addr, byte } => if addr == gicr_base + 0x10400 + irq {
                byte
            } else {
                priority_after(ops, gicr_base, irq, priority)
            },
            Op::Write32 { addr, word } => if addr == gicr_base + 0x10400 + irq / 4 * 4 {
                field_of(word, irq % 4)
            } else {
                priority_after(ops, gicr_base, irq, priority)
            },
            _ => priority_after(ops, gicr_base, irq, priority),
        }),
{
    assert(ops.push(op).drop_last() =~= ops);
    assert(ops.push(op).last() == op);
}

proof fn lemma_priorities(
    ops: Seq<Op>,
    gicr_base: usize,
    priorities: Seq<u32>,
    n: int,
    on: u32,
    irq: int,
    priority: u8,
)
    requires
        0 <= n <= 8,
        0 <= irq < 32,
        gicr_base + 0x20000 <= usize::MAX,
    ensures
        ({
            let all = ops + crate::arch::aarch64::vcpu::priority_ops(gicr_base, priorities, n);
            &&& enabled_after(all, gicr_base, on) == enabled_after(ops, gicr_base, on)
            &&& priority_after(all, gicr_base, irq, priority) == if irq / 4 < n {
                field_of(priorities[irq / 4], irq % 4)
            } else {
                priority_after(ops, gicr_base, irq, priority)
            }
        }),
    decreases n,
{
    let all = ops + crate::arch::aarch64::vcpu::priority_ops(gicr_base, priorities, n);
    if n == 0 {
        assert(all =~= ops);
    } else {
        lemma_priorities(ops, gicr_base, priorities, n - 1, on, irq, priority);
        let before = ops + crate::arch::aarch64::vcpu::priority_ops(gicr_base, priorities, n - 1);
        let op = Op::Write32 {
            addr: (gicr_base + 0x10000 + 0x400 + (n - 1) * 4) as usize,
            word: priorities[n - 1],
        };
        assert(all =~= before.push(op));
        lemma_one_more(before, op, gicr_base, on, irq, priority);
    }
}

proof fn lemma_enabled_bits(on: u32, mine: u32, b: u32)
    by (bit_vector)
    requires
        b < 32,
    ensures
        ((on | 0x400_0000u32) >> b) & 1 == 1 <==> (on >> b) & 1 == 1 || b == 26,
        ((((on | 0x400_0000u32) & !(!0x600_0080u32)) | (mine | 0x400_0000u32)) >> b) & 1 == 1
            <==> (mine >> b) & 1 == 1 || b == 26 || ((b == 7 || b == 25) && (on >> b) & 1 == 1),
{
}

/// When a vCPU is switched in, its pCPU lets exactly the private interrupts through that
/// the vCPU has enabled, and those of the hypervisor as it did; a vCPU that has never
/// touched its redistributor leaves the others as they are.  The interrupt of the
/// hypervisor's timer is let through, at its own priority, in any case, and every
/// other one has the priority that the vCPU has given it.
pub proof fn lemma_private_irqs_switched(
    vgicr: VirtualGicrView,
    gicr_base: usize,
    on: u32,
    b: u32,
    priority: u8,
)
    requires
        b < 32,
        vgicr.ipriorityr.len() == 8,
        vgicr.icfgr.len() == 2,
        gicr_base + 0x20000 <= usize::MAX,
    ensures
        ({
            let ops = crate::arch::aarch64::vcpu::vgicr_ops(gicr_base, vgicr);
            let mine = crate::laws::emulation::word_bit(vgicr.isenabler, b);
            let was = crate::laws::emulation::word_bit(on, b);
            let now = crate::laws::emulation::word_bit(enabled_after(ops, gicr_base, on), b);
            let kept = crate::laws::redistributor::kept_by_hypervisor(b);
            &&& b == 26 ==> now
            &&& b == 26 ==> priority_after(ops, gicr_base, 26, priority) == 0xa0
            &&& vgicr.initialized && !kept ==> (now <==> mine)
            &&& vgicr.initialized && kept ==> (now <==> mine || was || b == 26)
            &&& !vgicr.initialized && b != 26 ==> (now <==> was)
            &&& vgicr.initialized && b != 26 ==> priority_after(
                ops,
                gicr_base,
                b as int,
                priority,
            ) == field_of(vgicr.ipriorityr[b as int / 4], b as int % 4)
            &&& vgicr.initialized ==> {
                &&& ops.contains(
                    Op::Write32 { addr: (gicr_base + 0x10080) as usize, word: vgicr.igroupr },
                )
                &&& ops.contains(
                    Op::Write32 { addr: (gicr_base + 0x10c04) as usize, word: vgicr.icfgr[1] },
                )
            }
        }),
{
    let irq = b as int;
    let ops = crate::arch::aarch64::vcpu::vgicr_ops(gicr_base, vgicr);
    let a0 = Seq::<Op>::empty();
    let o1 = Op::Write32 { addr: (gicr_base + 0x10100) as usize, word: 0x400_0000 };
    let o2 = Op::Write8 { addr: (gicr_base + 0x10400 + 26) as usize, byte: 0xa0 };
    let a1 = a0.push(o1);
    let a2 = a1.push(o2);
    lemma_one_more(a0, o1, gicr_base, on, irq, priority);
    lemma_one_more(a1, o2, gicr_base, on, irq, priority);
    lemma_enabled_bits(on, vgicr.isenabler, b);
    assert(crate::arch::aarch64::vcpu::el2_timer_ops(gicr_base) =~= a2);
    if vgicr.initialized {
        let o3 = Op::Write32 { addr: (gicr_base + 0x10080) as usize, word: vgicr.igroupr };
        let o4 = Op::Write32 { addr: (gicr_base + 0x10180) as usize, word: !0x600_0080u32 };
        let o5 = Op::Write32 {
            addr: (gicr_base + 0x10100) as usize,
            word: vgicr.isenabler | 0x400_0000,
        };
        let a3 = a2.push(o3);
        let a4 = a3.push(o4);
        let a5 = a4.push(o5);
        lemma_one_more(a2, o3, gicr_base, on, irq, priority);
        lemma_one_more(a3, o4, gicr_base, on, irq, priority);
        lemma_one_more(a4, o5, gicr_base, on, irq, priority);
        lemma_priorities(a5, gicr_base, vgicr.ipriorityr, 8, on, irq, priority);
        let a6 = a5 + crate::arch::aarch64::vcpu::priority_ops(gicr_base, vgicr.ipriorityr, 8);
        let o8 = Op::Write32 { addr: (gicr_base + 0x10c04) as usize, word: vgicr.icfgr[1] };
        let a7 = a6.push(o2);
        let a8 = a7.push(o8);
        lemma_one_more(a6, o2, gicr_base, on, irq, priority);
        lemma_one_more(a7, o8, gicr_base, on, irq, priority);
        assert(ops =~= a8);
        assert(a8[2] == o3);
        assert(a8[a8.len() - 1] == o8);
    }
}

} // verus!

//! What a trap of a guest is decoded to, and how the guest goes on.

use vstd::prelude::*;
use crate::arch::aarch64::trap::{ExitKind, TrapKind};
use crate::arch::aarch64::vcpu::TrapFrameView;
use crate::error::HvResult;
use crate::hypervisor::Sys;
use crate::vcpu::{PendingIrq, VCpuState};

verus! {

/// Going on after an instruction moves the program counter past it, by four bytes if the
/// syndrome says that it was a long one and by two otherwise, and changes no register.
pub proof fn lemma_skip(frame: TrapFrameView, esr: u64)
    requires
        frame.elr <= u64::MAX - 4,
    ensures
        ({
            let after = frame.skipped(esr);
            &&& after == (TrapFrameView { elr: after.elr, ..frame })
            &&& after.elr == frame.elr + if esr & 0x200_0000 != 0 {
                4int
            } else {
                2
            }
        }),
{
    lemma_syndrome_bits(esr, 0, 0);
}

/// Each exit reason has its kind, and each exception class has its.
pub proof fn lemma_kinds(reason: u64, esr: u64)
    ensures
        ({
            let kind = crate::arch::aarch64::trap::exit_kind_of(reason);
            let trap = crate::arch::aarch64::trap::trap_kind_of(esr);
            let class = (esr / 0x400_0000) % 0x40;
            &&& kind == ExitKind::HypervisorTrap <==> reason == 0
            &&& kind == ExitKind::HypervisorIrq <==> reason == 1
            &&& kind == ExitKind::GuestTrap <==> reason == 2 || reason == 4
            &&& kind == ExitKind::GuestIrq <==> reason == 3 || reason == 5
            &&& kind == ExitKind::Unsupported <==> reason > 5
            &&& trap == TrapKind::Hvc <==> class == 0x16
            &&& trap == TrapKind::Smc <==> class == 0x17
            &&& trap == TrapKind::Sysreg <==> class == 0x18
            &&& trap == TrapKind::WfiOrWfe <==> class == 1
            &&& trap == TrapKind::DataAbort <==> class == 0x24
            &&& trap == TrapKind::InstrAbort <==> class == 0x20
        }),
{
    lemma_syndrome_bits(esr, 0, 0);
}

/// Which secure monitor calls go on to the firmware: those of the trusted systems and of
/// the chip's vendor, and no others.
pub proof fn lemma_smc_owner(code: u64)
    ensures
        ({
            let owner = (code >> 24) & 0x3f;
            crate::arch::aarch64::trap::smc_forwards(code) <==> owner == 2 || 0x32 <= owner
        }),
{
    let kind = code & 0x3f00_0000;
    assert(({
        let owner = (code >> 24) & 0x3f;
        &&& code & 0x3f00_0000 <= 0x3f00_0000
        &&& owner == 2 <==> code & 0x3f00_0000 == 0x200_0000
        &&& owner >= 0x32 <==> code & 0x3f00_0000 >= 0x3200_0000
    })) by (bit_vector);
}

proof fn lemma_syndrome_bits(esr: u64, hpfar: u64, far: u64)
    by (bit_vector)
    ensures
        hpfar & 0xf == 0 && hpfar < 0x100_0000_0000_0000 ==> ((far & 0xfff) | (hpfar << 8)) % 0x1000
            == far % 0x1000 && ((far & 0xfff) | (hpfar << 8)) / 0x1000 == hpfar / 0x10,
        (esr >> 6) & 1 != 0 <==> esr & 0x40 != 0,
        (esr >> 21) & 1 != 0 <==> esr & 0x20_0000 != 0,
        (esr >> 25) & 1 == 0 <==> esr & 0x200_0000 == 0,
        (esr >> 26) & 0x3f == (esr / 0x400_0000) % 0x40,
        (esr >> 16) & 0x1f == (esr / 0x1_0000) % 32,
        (esr >> 22) & 3 == (esr / 0x40_0000) % 4,
        1usize << 0u64 == 1,
        1usize << 1u64 == 2,
        1usize << 2u64 == 4,
        1usize << 3u64 == 8,
{
}

/// The access of a data abort: in the page that the hardware reports, at the offset of the
/// faulting address; of one, two, four or eight bytes; a write has what the named register
/// holds, and zero for the zero register.
pub proof fn lemma_abort_access(x: Seq<u64>, esr: u64, hpfar: u64, far: u64)
    requires
        hpfar & 0xf == 0,
        hpfar < 0x100_0000_0000_0000,
    ensures
        ({
            let access = crate::arch::aarch64::trap::abort_access(x, esr, hpfar, far);
            let ipa = (hpfar / 0x10) * 0x1000 + far % 0x1000;
            let register = (esr / 0x1_0000) % 32;
            let width = (esr / 0x40_0000) % 4;
            &&& ipa <= usize::MAX ==> access.address == ipa
            &&& access.is_write <==> esr & 0x40 != 0
            &&& width == 0 ==> access.size == 1
            &&& width == 1 ==> access.size == 2
            &&& width == 2 ==> access.size == 4
            &&& width == 3 ==> access.size == 8
            &&& access.is_write && register != 31 ==> access.value == x[register as int]
            &&& !access.is_write || register == 31 ==> access.value == 0
        }),
{
    lemma_syndrome_bits(esr, hpfar, far);
}

proof fn lemma_sign_bits(value: u64)
    by (bit_vector)
    ensures
        ((((value << 24u64) as i32) as u64) >> 24u64) as u8 == value as u8,
        ((((value << 24u64) as i32) as u64) >> 24u64) as i32 == (value as i8) as i32,
        ((((value << 16u64) as i32) as u64) >> 16u64) as u16 == value as u16,
        ((((value << 16u64) as i32) as u64) >> 16u64) as i32 == (value as i16) as i32,
        ((((value << 0u64) as i32) as u64) >> 0u64) as i64 == (value as i32) as i64,
{
}

/// A guest's load changes the register that it names, and no other; one into the zero
/// register changes none, and neither does a store.  What is loaded is the value of the
/// access, extended by its sign in a word if the instruction says so.
pub proof fn lemma_load(frame: TrapFrameView, esr: u64, value: u64)
    requires
        frame.x.len() == 31,
    ensures
        ({
            let after = frame.loaded(esr, value);
            let register = (esr / 0x1_0000) % 32;
            let width = (esr / 0x40_0000) % 4;
            let loads = esr & 0x40 == 0 && register != 31;
            let is_signed = esr & 0x20_0000 != 0;
            &&& after == (TrapFrameView { x: after.x, ..frame })
            &&& after.x.len() == 31
            &&& forall|i: int|
                0 <= i < 31 && (!loads || i != register) ==> #[trigger] after.x[i] == frame.x[i]
            &&& loads && !is_signed ==> after.x[register as int] == value
            &&& loads && is_signed && width == 0 ==> after.x[register as int] as i32 == (
            value as i8) as i32
            &&& loads && is_signed && width == 1 ==> after.x[register as int] as i32 == (
            value as i16) as i32
            &&& loads && is_signed && width == 2 ==> after.x[register as int] as i64 == (
            value as i32) as i64
        }),
{
    lemma_syndrome_bits(esr, 0, 0);
    lemma_sign_bits(value);
}

/// A guest finds the result of a hypercall as a signed number: what the call returned, or
/// minus the number of the error.
pub proof fn lemma_hvc_value(result: HvResult<usize>)
    ensures
        ({
            let value = crate::arch::aarch64::trap::hvc_value(result);
            &&& result is Ok && result->Ok_0 <= 0x7fff_ffff ==> value == result->Ok_0
            &&& result is Err ==> {
                let number = u64::MAX - value + 1;
                &&& number == 1 || number == 12 || number == 14 || number == 16 || number == 22
                &&& number == 1 <==> result->Err_0.num is EPERM
                &&& number == 12 <==> result->Err_0.num is ENOMEM
                &&& number == 14 <==> result->Err_0.num is EFAULT
                &&& number == 16 <==> result->Err_0.num is EBUSY
                &&& number == 22 <==> result->Err_0.num is EINVAL
            }
        }),
{
    assert((-1i64) as u64 == 0xffff_ffff_ffff_ffff && (-12i64) as u64 == 0xffff_ffff_ffff_fff4
        && (-14i64) as u64 == 0xffff_ffff_ffff_fff2 && (-16i64) as u64 == 0xffff_ffff_ffff_fff0
        && (-22i64) as u64 == 0xffff_ffff_ffff_ffea) by (bit_vector);
}

/// Injecting interrupts into a guest changes nothing about vCPUs but what is pending.
proof fn lemma_entry_keeps(sys: Sys, cpu: usize, irqs: Seq<PendingIrq>, arrives: bool)
    ensures
        ({
            let after = sys.all_entered(cpu, irqs, arrives);
            &&& after.hv.cpus == sys.hv.cpus
            &&& after.hw.el2 == sys.hw.el2
            &&& forall|id: usize|
                (#[trigger] after.hv.vcpus[id]).state == sys.hv.vcpus[id].state
                    && after.hv.vcpus[id].arch == sys.hv.vcpus[id].arch
        }),
    decreases irqs.len(),
{
    if irqs.len() > 0 {
        let irq = irqs[0];
        let rest = irqs.subrange(1, irqs.len() as int);
        let masked = Sys { hw: sys.hw.timer_masked(), ..sys };
        if irq.irq_id == 27 && !irq.is_hardware {
            if arrives {
                lemma_entry_keeps(sys, cpu, rest, arrives);
            } else {
                lemma_entry_keeps(
                    masked.injected(cpu, irq.irq_id, irq.is_hardware),
                    cpu,
                    rest,
                    arrives,
                );
            }
        } else {
            lemma_entry_keeps(
                sys.injected(cpu, irq.irq_id, irq.is_hardware),
                cpu,
                rest,
                arrives,
            );
        }
    }
}

proof fn lemma_entered(sys: Sys, cpu: usize, id: usize)
    requires
        sys.hv.wf(),
        sys.hv.vcpus.contains_key(id),
    ensures
        ({
            let after = sys.about_to_enter(cpu, id);
            &&& after.hv.cpus == sys.hv.cpus
            &&& after.hv.vcpus[id].state == sys.hv.vcpus[id].state
            &&& after.hv.vcpus[id].arch == sys.hv.vcpus[id].arch
            &&& after.hw.el2.tpidr_el2 + 272 == sys.hv.vcpus[id].arch.stack_top
        }),
{
    let vcpu = sys.hv.vcpus[id];
    crate::hypervisor::lemma_vcpu_ok(sys.hv, id);
    lemma_entry_keeps(
        Sys { hv: sys.hv.with_vcpu(id, vcpu.drained()), ..sys },
        cpu,
        vcpu.pending,
        crate::arch::aarch64::trap::timer_interrupts(sys.hw.el1.cntv_ctl_el0),
    );
}

/// A pCPU that leaves the hypervisor enters its current vCPU, with the frame on top of
/// that vCPU's stack.  If it was to schedule, it has done so: the vCPU that it enters then
/// runs; or the pCPU is idle, and no vCPU is ready.
pub proof fn lemma_exit(sys: Sys, cpu: usize)
    requires
        sys.hv.wf(),
        crate::laws::ready::none_lost(sys.hv),
        cpu < sys.hv.cpus.len(),
        sys.hv.cpus[cpu as int].need_resched || sys.hv.cpus[cpu as int].current_vcpu is Some,
        sys.hv.cpus[cpu as int].sched.current is Some ==> sys.hv.cpus[cpu as int].current_vcpu
            == sys.hv.cpus[cpu as int].sched.current,
    ensures
        ({
            let (after, step) = sys.exited(cpu);
            let pc = sys.hv.cpus[cpu as int];
            let now = after.hv.cpus[cpu as int];
            &&& step !is Retry
            &&& step is Enter ==> {
                let id = now.current_vcpu->0;
                &&& now.current_vcpu is Some
                &&& step->trapframe_ptr + 272 == after.hv.vcpus[id].arch.stack_top
                &&& after.hw.el2.tpidr_el2 == step->trapframe_ptr
                &&& pc.need_resched ==> after.hv.vcpus[id].state == VCpuState::Running
                &&& !pc.need_resched ==> Some(id) == pc.current_vcpu && after.hv.vcpus[id].state
                    == sys.hv.vcpus[id].state
            }
            &&& step is Idle ==> pc.need_resched && now.sched.ready_count() == 0
        }),
{
    crate::hypervisor::lemma_cpu_ok(sys.hv, cpu);
    let pc = sys.hv.cpus[cpu as int];
    if pc.need_resched {
        crate::laws::turns::lemma_arrivals_queued(sys.hv, cpu);
        crate::laws::ready::lemma_schedule_loses_none(sys, cpu);
        let ready = Sys { hv: sys.hv.incoming_drained(cpu).resched_taken(cpu), ..sys };
        let sched = ready.hv.cpus[cpu as int].sched;
        let (done, outcome) = sys.scheduled(cpu);
        let left = ready.vacated(cpu);
        let zone = match sched.current {
            Some(prev) => Some(ready.hv.vcpus[prev].zone),
            None => None,
        };
        if sched.current is Some {
            crate::laws::turns::lemma_vacated(ready, cpu, sched.current->0);
        }
        crate::laws::lemma_dispatch_runs_or_waits(left, cpu, zone);
        crate::laws::waiting::lemma_dispatch_keeps(left, cpu, zone);
        if outcome !is Idle {
            let id = done.hv.cpus[cpu as int].current_vcpu->0;
            crate::hypervisor::lemma_cpu_ok(done.hv, cpu);
            lemma_entered(done, cpu, id);
        }
    } else {
        lemma_entered(sys, cpu, pc.current_vcpu->0);
    }
}

/// A virtual timer's interrupt that waited is not raised twice: unless the timer raises it
/// by itself on entry, an enabled timer is masked when the interrupt is injected.
pub proof fn lemma_entry_masks_timer(sys: Sys, cpu: usize, irqs: Seq<PendingIrq>)
    requires
        irqs.contains(PendingIrq { irq_id: 27, is_hardware: false }) || (
        sys.hw.el1.cntv_ctl_el0 & 1 != 0 && sys.hw.el1.cntv_ctl_el0 & 2 != 0),
    ensures
        ({
            let ctl = sys.all_entered(cpu, irqs, false).hw.el1.cntv_ctl_el0;
            ctl & 1 != 0 ==> ctl & 2 != 0
        }),
    decreases irqs.len(),
{
    if irqs.len() > 0 {
        let irq = irqs[0];
        let rest = irqs.subrange(1, irqs.len() as int);
        let ctl = sys.hw.el1.cntv_ctl_el0;
        let timer = PendingIrq { irq_id: 27, is_hardware: false };
        crate::laws::lemma_second_bit(ctl);
        let masked = Sys { hw: sys.hw.timer_masked(), ..sys };
        if irq == timer {
            let next = masked.injected(cpu, 27, false);
            if ctl & 1 != 0 {
                lemma_entry_masks_timer(next, cpu, rest);
            } else {
                lemma_disabled_stays(next, cpu, rest);
            }
        } else {
            if irqs.contains(timer) {
                let k = choose|k: int| 0 <= k < irqs.len() && irqs[k] == timer;
                assert(rest[k - 1] == timer);
            }
            lemma_entry_masks_timer(
                sys.injected(cpu, irq.irq_id, irq.is_hardware),
                cpu,
                rest,
            );
        }
    }
}

proof fn lemma_disabled_stays(sys: Sys, cpu: usize, irqs: Seq<PendingIrq>)
    requires
        sys.hw.el1.cntv_ctl_el0 & 1 == 0,
    ensures
        sys.all_entered(cpu, irqs, false).hw.el1.cntv_ctl_el0 & 1 == 0,
    decreases irqs.len(),
{
    if irqs.len() > 0 {
        let irq = irqs[0];
        let rest = irqs.subrange(1, irqs.len() as int);
        let masked = Sys { hw: sys.hw.timer_masked(), ..sys };
        lemma_disabled_stays(sys.injected(cpu, irq.irq_id, irq.is_hardware), cpu, rest);
        lemma_disabled_stays(masked.injected(cpu, irq.irq_id, irq.is_hardware), cpu, rest);
    }
}

} // verus!

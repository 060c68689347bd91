//! What a guest's traps lead to.
//!
//! The caller passes the syndrome registers and the registers of the guest that
//! trapped.  It performs what a handler's result asks for, and ends with
//! [`arch_handle_exit`].

use vstd::prelude::*;
use crate::arch::aarch64::timer::el2_timer_arm_at;
use crate::arch::aarch64::vcpu::{
    arch_wakeup_vcpu, ArchVCpuView, El1SysRegs, GicStateView, TrapFrame, TrapFrameView, CNTV_ENABLE,
    CNTV_IMASK, CNTV_ISTATUS, STACK_ALIGN,
};
use crate::cpu_data::PerCpuView;
use crate::device::irqchip::gicv3::{inject_irq, is_lr_free, read_lr};
use crate::error::HvResult;
use crate::event::{send_event, IPI_EVENT_RESCHED, IPI_EVENT_SHUTDOWN};
use crate::hardware::{El2Regs, Hardware, HardwareView};
use crate::hypercall::SGI_IPI_ID;
use crate::hypervisor::{HvView, Hypervisor, Sys};
use crate::memory::MMIOAccess;
use crate::scheduler::{schedule, SchedOutcome};
use crate::vcpu::{drain_incoming_vcpus, PendingIrq, VCpuState, VCpuView, CNTV_IRQ};
use crate::zone::{GuestMpidr, ZoneInner, ZoneInnerView};

verus! {

// Why a pCPU left its guest.
pub const EXIT_REASON_EL2_ABORT: u64 = 0x0;

pub const EXIT_REASON_EL2_IRQ: u64 = 0x1;

pub const EXIT_REASON_EL1_ABORT: u64 = 0x2;

pub const EXIT_REASON_EL1_IRQ: u64 = 0x3;

pub const EXIT_REASON_EL1_AARCH32_ABORT: u64 = 0x4;

pub const EXIT_REASON_EL1_AARCH32_IRQ: u64 = 0x5;

// The kinds of secure monitor call.
pub const SMC_TYPE_MASK: u64 = 0x3f00_0000;

pub const ARCH_SC: u64 = 0x0;

pub const SIP_SC: u64 = 0x0200_0000;

pub const STANDARD_SC: u64 = 0x0400_0000;

pub const TOS_SC_START: u64 = 0x3200_0000;

pub const TOS_SC_END: u64 = 0x3f00_0000;

// PSCI.
pub const PSCI_VERSION: u64 = 0x8400_0000;

pub const PSCI_CPU_SUSPEND_32: u64 = 0x8400_0001;

pub const PSCI_CPU_OFF_32: u64 = 0x8400_0002;

pub const PSCI_CPU_ON_32: u64 = 0x8400_0003;

pub const PSCI_AFFINITY_INFO_32: u64 = 0x8400_0004;

pub const PSCI_MIG_INFO_TYPE: u64 = 0x8400_0006;

pub const PSCI_SYSTEM_OFF: u64 = 0x8400_0008;

pub const PSCI_FEATURES: u64 = 0x8400_000a;

pub const PSCI_CPU_SUSPEND_64: u64 = 0xc400_0001;

pub const PSCI_CPU_OFF_64: u64 = 0xc400_0002;

pub const PSCI_CPU_ON_64: u64 = 0xc400_0003;

pub const PSCI_AFFINITY_INFO_64: u64 = 0xc400_0004;

pub const PSCI_VERSION_1_1: u64 = 0x10001;

pub const PSCI_TOS_NOT_PRESENT_MP: u64 = 2;

// The calling convention itself.
pub const SMCCC_VERSION: u64 = 0x8000_0000;

pub const SMCCC_ARCH_FEATURES: u64 = 0x8000_0001;

pub const ARM_SMCCC_VERSION_1_1: u64 = 0x10001;

/// What a call that is not supported returns.
pub const NOT_SUPPORTED: u64 = 0xffff_ffff_ffff_ffff;

/// What PSCI `CPU_ON` returns for a CPU that is on already.
pub const CPU_ON_ALREADY: u64 = 0xffff_ffff_ffff_fffc;

/// How a trap was dealt with.
#[derive(Debug, Clone, Copy, PartialEq, Eq, Structural)]
pub enum TrapReturn {
    TrapHandled,
    TrapUnhandled,
    TrapForbidden,
}

/// Why a pCPU left its guest.
#[derive(Debug, Clone, Copy, PartialEq, Eq, Structural)]
pub enum ExitKind {
    /// An interrupt came while the guest ran.
    GuestIrq,
    /// The guest trapped.
    GuestTrap,
    /// The hypervisor itself trapped.
    HypervisorTrap,
    /// An interrupt came while the hypervisor ran.
    HypervisorIrq,
    Unsupported,
}

/// The kinds of trap that are handled.
#[derive(Debug, Clone, Copy, PartialEq, Eq, Structural)]
pub enum TrapKind {
    Hvc,
    Smc,
    Sysreg,
    WfiOrWfe,
    DataAbort,
    InstrAbort,
    Unsupported,
}

// ---------------------------------------------------------------------------
// Decoding
// ---------------------------------------------------------------------------

/// The kind of an exit.
pub open spec fn exit_kind_of(exit_reason: u64) -> ExitKind {
    if exit_reason == EXIT_REASON_EL1_IRQ || exit_reason == EXIT_REASON_EL1_AARCH32_IRQ {
        ExitKind::GuestIrq
    } else if exit_reason == EXIT_REASON_EL1_ABORT || exit_reason
        == EXIT_REASON_EL1_AARCH32_ABORT {
        ExitKind::GuestTrap
    } else if exit_reason == EXIT_REASON_EL2_ABORT {
        ExitKind::HypervisorTrap
    } else if exit_reason == EXIT_REASON_EL2_IRQ {
        ExitKind::HypervisorIrq
    } else {
        ExitKind::Unsupported
    }
}

/// Tells the kinds of exit apart.
pub fn exit_kind(exit_reason: u64) -> (res: ExitKind)
    ensures
        res == exit_kind_of(exit_reason),
{
    if exit_reason == EXIT_REASON_EL1_IRQ || exit_reason == EXIT_REASON_EL1_AARCH32_IRQ {
        ExitKind::GuestIrq
    } else if exit_reason == EXIT_REASON_EL1_ABORT || exit_reason
        == EXIT_REASON_EL1_AARCH32_ABORT {
        ExitKind::GuestTrap
    } else if exit_reason == EXIT_REASON_EL2_ABORT {
        ExitKind::HypervisorTrap
    } else if exit_reason == EXIT_REASON_EL2_IRQ {
        ExitKind::HypervisorIrq
    } else {
        ExitKind::Unsupported
    }
}

/// The exception class of a syndrome.
pub open spec fn esr_class(esr: u64) -> u64 {
    (esr >> 26) & 0x3f
}

/// The kind of trap of a syndrome.
pub open spec fn trap_kind_of(esr: u64) -> TrapKind {
    let class = esr_class(esr);
    if class == 0x16 {
        TrapKind::Hvc
    } else if class == 0x17 {
        TrapKind::Smc
    } else if class == 0x18 {
        TrapKind::Sysreg
    } else if class == 0x01 {
        TrapKind::WfiOrWfe
    } else if class == 0x24 {
        TrapKind::DataAbort
    } else if class == 0x20 {
        TrapKind::InstrAbort
    } else {
        TrapKind::Unsupported
    }
}

/// Tells the kinds of trap of a guest apart.
pub fn arch_handle_trap_el1(esr: u64) -> (res: TrapKind)
    ensures
        res == trap_kind_of(esr),
{
    let class: u64 = (esr >> 26) & 0x3f;
    if class == 0x16 {
        TrapKind::Hvc
    } else if class == 0x17 {
        TrapKind::Smc
    } else if class == 0x18 {
        TrapKind::Sysreg
    } else if class == 0x01 {
        TrapKind::WfiOrWfe
    } else if class == 0x24 {
        TrapKind::DataAbort
    } else if class == 0x20 {
        TrapKind::InstrAbort
    } else {
        TrapKind::Unsupported
    }
}

impl TrapFrameView {
    /// The guest goes on after the instruction that trapped: 2 bytes on if it was a
    /// 16-bit instruction, else 4.
    pub open spec fn skipped(self, esr: u64) -> TrapFrameView {
        TrapFrameView {
            elr: self.elr.wrapping_add(
                if (esr >> 25) & 1 == 0 {
                    2
                } else {
                    4
                },
            ),
            ..self
        }
    }
}

/// Lets the guest go on after the instruction that trapped.
pub fn arch_skip_instruction(regs: &mut TrapFrame, esr: u64)
    ensures
        final(regs)@ == old(regs)@.skipped(esr),
{
    let ins: u64 = if (esr >> 25) & 1 == 0 {
        2
    } else {
        4
    };
    regs.elr = regs.elr.wrapping_add(ins);
}

// ---------------------------------------------------------------------------
// Returning to a guest
// ---------------------------------------------------------------------------

/// How the pCPU goes on.
#[derive(Debug, Clone, Copy, PartialEq, Eq, Structural)]
pub enum VmReturn {
    /// Return to the guest whose registers lie at `trapframe_ptr`.
    Enter { trapframe_ptr: usize },
    /// Try again.
    Retry,
    /// Wait for an interrupt, then go on with [`crate::scheduler::idle_resume`].
    Idle { prev_zone: Option<usize> },
}

/// The virtual timer will interrupt by itself: it is enabled, not masked and has
/// expired.
pub open spec fn timer_interrupts(cntv_ctl: u64) -> bool {
    &&& cntv_ctl & CNTV_ENABLE != 0
    &&& cntv_ctl & CNTV_IMASK == 0
    &&& cntv_ctl & CNTV_ISTATUS != 0
}

impl HardwareView {
    /// An enabled virtual timer is masked.
    pub open spec fn timer_masked(self) -> HardwareView {
        let ctl = self.el1.cntv_ctl_el0;
        if ctl & CNTV_ENABLE != 0 {
            self.with_cntv_ctl(ctl | CNTV_IMASK)
        } else {
            self
        }
    }
}

impl Sys {
    /// What was pending for a vCPU goes to the list registers.  The virtual timer's
    /// interrupt is left out if the timer interrupts by itself; otherwise the timer
    /// is masked while its interrupt is on its way.
    pub open spec fn all_entered(self, cpu: usize, irqs: Seq<PendingIrq>, arrives: bool) -> Sys
        decreases irqs.len(),
    {
        if irqs.len() == 0 {
            self
        } else {
            let irq = irqs[0];
            let rest = irqs.subrange(1, irqs.len() as int);
            if irq.irq_id == CNTV_IRQ && !irq.is_hardware {
                if arrives {
                    self.all_entered(cpu, rest, arrives)
                } else {
                    (Sys { hw: self.hw.timer_masked(), ..self }).injected(
                        cpu,
                        irq.irq_id,
                        irq.is_hardware,
                    ).all_entered(cpu, rest, arrives)
                }
            } else {
                self.injected(cpu, irq.irq_id, irq.is_hardware).all_entered(cpu, rest, arrives)
            }
        }
    }

    /// vCPU `id` is about to be entered: what is pending for it was injected.
    pub open spec fn about_to_enter(self, cpu: usize, id: usize) -> Sys {
        let vcpu = self.hv.vcpus[id];
        let entered = (Sys { hv: self.hv.with_vcpu(id, vcpu.drained()), ..self }).all_entered(
            cpu,
            vcpu.pending,
            timer_interrupts(self.hw.el1.cntv_ctl_el0),
        );
        Sys {
            hw: HardwareView {
                el2: El2Regs {
                    tpidr_el2: (vcpu.arch.stack_top
                        - crate::arch::aarch64::vcpu::TRAP_FRAME_SIZE) as u64,
                    ..entered.hw.el2
                },
                ..entered.hw
            },
            ..entered
        }
    }

    /// The pCPU returns to its guest, or runs the scheduler if it has none.
    pub open spec fn vm_returned(self, cpu: usize) -> (Sys, VmReturn) {
        match self.hv.cpus[cpu as int].current_vcpu {
            Some(id) => (
                self.about_to_enter(cpu, id),
                VmReturn::Enter {
                    trapframe_ptr: (self.hv.vcpus[id].arch.stack_top
                        - crate::arch::aarch64::vcpu::TRAP_FRAME_SIZE) as usize,
                },
            ),
            None => {
                let (sched, outcome) = self.scheduled(cpu);
                (
                    sched,
                    match outcome {
                        SchedOutcome::Idle { prev_zone } => VmReturn::Idle { prev_zone },
                        _ => VmReturn::Retry,
                    },
                )
            },
        }
    }

    /// An exit was dealt with: the scheduler runs if it was asked for, and the pCPU
    /// returns to its guest.
    pub open spec fn exited(self, cpu: usize) -> (Sys, VmReturn) {
        if self.hv.cpus[cpu as int].need_resched {
            let (sched, outcome) = self.scheduled(cpu);
            match outcome {
                SchedOutcome::Idle { prev_zone } => (sched, VmReturn::Idle { prev_zone }),
                _ => sched.vm_returned(cpu),
            }
        } else {
            self.vm_returned(cpu)
        }
    }
}

/// Injects what is pending for the current vCPU and returns to it.  This is the only
/// place where a vCPU that is entered gets what was pending for it.
pub fn vcpu_vmreturn(hv: &mut Hypervisor, cpu: usize, hw: &mut Hardware) -> (res: VmReturn)
    requires
        old(hv)@.wf(),
        cpu < old(hv)@.cpus.len(),
    ensures
        (Sys { hv: final(hv)@, hw: final(hw)@ }, res) == (Sys {
            hv: old(hv)@,
            hw: old(hw)@,
        }).vm_returned(cpu),
        res matches VmReturn::Enter { trapframe_ptr } ==> trapframe_ptr % STACK_ALIGN == 0,
        final(hv)@.wf(),
        final(hv)@.cpus.len() == old(hv)@.cpus.len(),
{
    proof {
        crate::hypervisor::lemma_cpu_ok(hv@, cpu);
    }
    let vcpu: usize = match hv.cpu(cpu).current_vcpu {
        Some(vcpu) => vcpu,
        None => {
            return match schedule(hv, cpu, hw) {
                SchedOutcome::Idle { prev_zone } => VmReturn::Idle { prev_zone },
                SchedOutcome::Kept => VmReturn::Retry,
                SchedOutcome::Switched => VmReturn::Retry,
            };
        },
    };
    let cntv_ctl: u64 = hw.regs.el1.cntv_ctl_el0;
    let arrives: bool = cntv_ctl & CNTV_ENABLE != 0 && cntv_ctl & CNTV_IMASK == 0 && cntv_ctl
        & CNTV_ISTATUS != 0;
    proof {
        crate::hypervisor::lemma_vcpu_ok(hv@, vcpu);
        crate::hypervisor::lemma_wf_vcpu(hv@, vcpu, hv@.vcpus[vcpu].drained());
    }
    let trapframe_ptr: usize = hv.vcpu(vcpu).arch.trapframe_ptr();
    let pending: Vec<PendingIrq> = hv.vcpu_mut(vcpu).drain_pending_irqs();
    let ghost goal = (Sys { hv: hv@, hw: hw@ }).all_entered(cpu, pending@, arrives);
    assert(pending@.subrange(0, pending@.len() as int) =~= pending@);
    let mut i: usize = 0;
    while i < pending.len()
        invariant
            i <= pending@.len(),
            hv@.wf(),
            cpu < hv@.cpus.len(),
            hv@.cpus.len() == old(hv)@.cpus.len(),
            goal == (Sys { hv: hv@, hw: hw@ }).all_entered(
                cpu,
                pending@.subrange(i as int, pending@.len() as int),
                arrives,
            ),
        decreases pending@.len() - i,
    {
        let irq: PendingIrq = pending[i];
        proof {
            let rest = pending@.subrange(i as int, pending@.len() as int);
            assert(rest[0] == irq);
            assert(rest.subrange(1, rest.len() as int) =~= pending@.subrange(
                i + 1,
                pending@.len() as int,
            ));
        }
        i = i + 1;
        if irq.irq_id == CNTV_IRQ && !irq.is_hardware {
            if arrives {
                continue;
            }
            let ctl: u64 = hw.regs.el1.cntv_ctl_el0;
            if ctl & CNTV_ENABLE != 0 {
                hw.write_cntv_ctl(ctl | CNTV_IMASK);
            }
        }
        let written: bool = inject_irq(hv, cpu, hw, irq.irq_id, irq.is_hardware);
    }
    hw.regs.el2.tpidr_el2 = trapframe_ptr as u64;
    VmReturn::Enter { trapframe_ptr }
}

/// Ends the handling of an exit: runs the scheduler if another vCPU is to be
/// selected, and returns to the guest.
pub fn arch_handle_exit(hv: &mut Hypervisor, cpu: usize, hw: &mut Hardware) -> (res: VmReturn)
    requires
        old(hv)@.wf(),
        cpu < old(hv)@.cpus.len(),
    ensures
        (Sys { hv: final(hv)@, hw: final(hw)@ }, res) == (Sys {
            hv: old(hv)@,
            hw: old(hw)@,
        }).exited(cpu),
        res matches VmReturn::Enter { trapframe_ptr } ==> trapframe_ptr % STACK_ALIGN == 0,
        final(hv)@.wf(),
        final(hv)@.cpus.len() == old(hv)@.cpus.len(),
{
    if hv.cpu(cpu).need_resched {
        if let SchedOutcome::Idle { prev_zone } = schedule(hv, cpu, hw) {
            return VmReturn::Idle { prev_zone };
        }
    }
    vcpu_vmreturn(hv, cpu, hw)
}

// ---------------------------------------------------------------------------
// Waiting for an interrupt
// ---------------------------------------------------------------------------

/// What a guest's WFI or WFE leads to.
#[derive(Debug, Clone, Copy, PartialEq, Eq, Structural)]
pub enum WfiStep {
    /// The guest's exit is dealt with.
    Done,
    /// The pCPU waits for an interrupt; then the caller calls [`wfi_resume`].
    Wait,
}

impl HardwareView {
    /// A list register holds something for the guest.
    pub open spec fn lr_in_use(self) -> bool {
        exists|i: int|
            0 <= i < self.lr_count() && !crate::device::irqchip::gicv3::lr_free(
                #[trigger] self.ich.lr[i],
            )
    }
}

impl Sys {
    /// Something is there for the guest that waits.
    pub open spec fn wait_is_over(self, id: usize) -> bool {
        self.hv.vcpus[id].pending.len() > 0 || self.hw.lr_in_use()
    }

    /// A guest waits for an interrupt.  A vCPU that is alone on its pCPU makes the
    /// pCPU wait until its timer expires, unless it has; any other vCPU blocks and
    /// makes room.
    pub open spec fn wfi_trapped(self, cpu: usize, esr: u64) -> (Sys, WfiStep) {
        let pc = self.hv.cpus[cpu as int];
        match pc.current_vcpu {
            Some(id) => {
                let alone = pc.sched.ready_count() == 0 && pc.sched.blocked.len() == 0;
                if esr & 1 != 0 || self.wait_is_over(id) {
                    (self, WfiStep::Done)
                } else if alone && self.hw.el1.cntv_ctl_el0 & 0x5 == 0x5 {
                    (self, WfiStep::Done)
                } else if alone {
                    let target = self.hw.el1.cntv_cval_el0.wrapping_add(self.hw.el1.cntvoff_el2);
                    (
                        Sys { hw: self.hw.with_el2_timer_at(target, self.hv.tick), ..self },
                        WfiStep::Wait,
                    )
                } else {
                    (
                        Sys {
                            hv: self.hv.tried(id, VCpuState::Running, VCpuState::Blocked).resched(
                                cpu,
                            ),
                            ..self
                        },
                        WfiStep::Done,
                    )
                }
            },
            None => (self, WfiStep::Done),
        }
    }
}

/// Whether a list register holds something for the guest.
fn any_lr_in_use(hw: &Hardware) -> (res: bool)
    ensures
        res == hw@.lr_in_use(),
{
    let vtr: u64 = hw.regs.ich.vtr;
    proof {
        crate::device::irqchip::gicv3::lemma_lr_num(vtr);
    }
    let count: usize = ((vtr & 0xf) + 1) as usize;
    let mut i: usize = 0;
    while i < count
        invariant
            i <= count <= 16,
            count == hw@.lr_count(),
            forall|k: int|
                0 <= k < i ==> crate::device::irqchip::gicv3::lr_free(#[trigger] hw@.ich.lr[k]),
        decreases count - i,
    {
        if !is_lr_free(read_lr(hw, i)) {
            return true;
        }
        i = i + 1;
    }
    false
}

/// Handles a guest's WFI or WFE.  In any case the guest goes on after the
/// instruction.
pub fn handle_wfi_trap(
    hv: &mut Hypervisor,
    cpu: usize,
    hw: &mut Hardware,
    regs: &mut TrapFrame,
    esr: u64,
) -> (res: WfiStep)
    requires
        old(hv)@.wf(),
        cpu < old(hv)@.cpus.len(),
    ensures
        (Sys { hv: final(hv)@, hw: final(hw)@ }, res) == (Sys {
            hv: old(hv)@,
            hw: old(hw)@,
        }).wfi_trapped(cpu, esr),
        final(regs)@ == old(regs)@.skipped(esr),
        final(hv)@.wf(),
        final(hv)@.cpus.len() == old(hv)@.cpus.len(),
{
    arch_skip_instruction(regs, esr);
    proof {
        crate::hypervisor::lemma_cpu_ok(hv@, cpu);
    }
    let vcpu: usize = match hv.cpu(cpu).current_vcpu {
        Some(vcpu) => vcpu,
        None => {
            return WfiStep::Done;
        },
    };
    if esr & 1 != 0 {
        return WfiStep::Done;
    }
    if hv.vcpu(vcpu).has_pending_irqs() || any_lr_in_use(hw) {
        return WfiStep::Done;
    }
    if hv.cpu(cpu).scheduler.no_other_vcpus() {
        if hw.regs.el1.cntv_ctl_el0 & 0x5 == 0x5 {
            WfiStep::Done
        } else {
            let target: u64 = hw.regs.el1.cntv_cval_el0.wrapping_add(hw.regs.el1.cntvoff_el2);
            el2_timer_arm_at(hv, hw, target);
            WfiStep::Wait
        }
    } else {
        let moved: bool = hv.transition(vcpu, VCpuState::Running, VCpuState::Blocked);
        hv.set_resched(cpu);
        WfiStep::Done
    }
}

impl HvView {
    /// A pCPU that waited for its guest was interrupted: if vCPUs have arrived or
    /// become ready meanwhile, it schedules.
    pub open spec fn wfi_resumed(self, cpu: usize) -> HvView {
        let drained = self.incoming_drained(cpu);
        if drained.cpus[cpu as int].sched.ready_count() > 0 {
            drained.resched(cpu)
        } else {
            drained
        }
    }
}

/// Goes on after a pCPU that waited for its guest was interrupted.
pub fn wfi_resume(hv: &mut Hypervisor, cpu: usize)
    requires
        old(hv)@.wf(),
        cpu < old(hv)@.cpus.len(),
    ensures
        final(hv)@ == old(hv)@.wfi_resumed(cpu),
        final(hv)@.wf(),
        final(hv)@.cpus.len() == old(hv)@.cpus.len(),
{
    drain_incoming_vcpus(hv, cpu);
    if !hv.cpu(cpu).scheduler.is_empty() {
        hv.set_resched(cpu);
    }
}

// ---------------------------------------------------------------------------
// Data aborts
// ---------------------------------------------------------------------------

/// The register of a data abort's access.
pub open spec fn abort_register(esr: u64) -> u64 {
    (esr >> 16) & 0x1f
}

/// The size of a data abort's access, in bytes.
pub open spec fn abort_size(esr: u64) -> usize {
    1usize << ((esr >> 22) & 0x3)
}

/// A value that was loaded, extended by its sign within the low word and moved back.
pub open spec fn sign_extended(value: u64, size: usize) -> u64 {
    let shift = (32 - 8 * size) as u64;
    (((value << shift) as i32) as u64) >> shift
}

/// The access that a data abort's syndrome describes.
pub open spec fn abort_access(x: Seq<u64>, esr: u64, hpfar: u64, far: u64) -> MMIOAccess {
    MMIOAccess {
        address: ((far & 0xfff) | (hpfar << 8)) as usize,
        size: abort_size(esr),
        is_write: (esr >> 6) & 1 != 0,
        value: if (esr >> 6) & 1 != 0 && abort_register(esr) != 31 {
            x[abort_register(esr) as int]
        } else {
            0
        },
    }
}

/// Facts about the fields of a syndrome.
proof fn lemma_esr_fields(esr: u64)
    ensures
        abort_register(esr) <= 31,
        (esr >> 5) & 0x1f <= 31,
        abort_size(esr) == 1 || abort_size(esr) == 2 || abort_size(esr) == 4 || abort_size(esr)
            == 8,
        abort_size(esr) == 8 <==> (esr >> 22) & 0x3 == 3,
        (esr >> 22) & 0x3 <= 3,
{
    assert((esr >> 16) & 0x1f <= 31 && (esr >> 5) & 0x1f <= 31 && (esr >> 22) & 0x3 <= 3)
        by (bit_vector);
    let sas = (esr >> 22) & 0x3;
    assert(1usize << 0u64 == 1 && 1usize << 1u64 == 2 && 1usize << 2u64 == 4 && 1usize << 3u64
        == 8) by (bit_vector);
}

/// Works out the access that a guest was stopped at.
pub fn dabt_access(regs: &TrapFrame, esr: u64, hpfar: u64, far: u64) -> (res: MMIOAccess)
    ensures
        res == abort_access(regs@.x, esr, hpfar, far),
{
    proof {
        lemma_esr_fields(esr);
    }
    let is_write: bool = (esr >> 6) & 1 != 0;
    let srt: u64 = (esr >> 16) & 0x1f;
    let sas: u64 = (esr >> 22) & 0x3;
    MMIOAccess {
        address: ((far & 0xfff) | (hpfar << 8)) as usize,
        size: 1usize << sas,
        is_write,
        value: if is_write && srt != 31 {
            regs.x[srt as usize]
        } else {
            0
        },
    }
}

impl TrapFrameView {
    /// The guest's load has got `value`.
    pub open spec fn loaded(self, esr: u64, value: u64) -> TrapFrameView {
        if (esr >> 6) & 1 == 0 && abort_register(esr) != 31 {
            self.with_x(
                abort_register(esr) as int,
                if (esr >> 21) & 1 != 0 {
                    sign_extended(value, abort_size(esr))
                } else {
                    value
                },
            )
        } else {
            self
        }
    }
}

/// Ends a data abort, given how the access went and what a load returned.  A failed
/// access is an error of the guest's zone.
pub fn handle_dabt(
    hv: &mut Hypervisor,
    cpu: usize,
    regs: &mut TrapFrame,
    esr: u64,
    result: HvResult<u64>,
)
    requires
        old(hv)@.wf(),
        cpu < old(hv)@.cpus.len(),
        result is Err ==> old(hv)@.has_zone(cpu) && !old(hv)@.in_root_zone(cpu),
        result is Ok && (esr >> 6) & 1 == 0 && abort_register(esr) != 31 && (esr >> 21) & 1 != 0
            ==> (esr >> 22) & 0x3 != 3,
    ensures
        match result {
            Ok(value) => {
                &&& final(hv)@ == old(hv)@
                &&& final(regs)@ == old(regs)@.loaded(esr, value).skipped(esr)
            },
            Err(_) => {
                &&& final(hv)@ == old(hv)@.zone_failed(cpu)
                &&& final(regs)@ == old(regs)@.skipped(esr)
            },
        },
        final(hv)@.wf(),
        final(hv)@.cpus.len() == old(hv)@.cpus.len(),
{
    proof {
        lemma_esr_fields(esr);
    }
    match result {
        Ok(value) => {
            let is_write: bool = (esr >> 6) & 1 != 0;
            let srt: u64 = (esr >> 16) & 0x1f;
            if !is_write && srt != 31 {
                let mut loaded: u64 = value;
                if (esr >> 21) & 1 != 0 {
                    let size: usize = 1usize << ((esr >> 22) & 0x3);
                    let shift: u64 = (32 - 8 * size) as u64;
                    loaded = (((value << shift) as i32) as u64) >> shift;
                }
                regs.x[srt as usize] = loaded;
            }
        },
        Err(_) => {
            crate::zone::zone_error(hv, cpu);
        },
    }
    arch_skip_instruction(regs, esr);
}

// ---------------------------------------------------------------------------
// SGIs of guests
// ---------------------------------------------------------------------------

/// The guest `MPIDR` of bit `aff0` of an SGI's target list.
pub open spec fn sgi_mpidr(val: u64, aff0: u64) -> GuestMpidr {
    GuestMpidr::of(
        (((val >> 44) & 0xf) << 32) | (((val >> 32) & 0xff) << 16) | (((val >> 16) & 0xff) << 8)
            | aff0,
    )
}

/// The vCPUs that the first `n` bits of an SGI's target list name.
pub open spec fn listed_targets(zone: ZoneInnerView, val: u64, n: nat) -> Seq<usize>
    decreases n,
{
    if n == 0 {
        Seq::empty()
    } else {
        let before = listed_targets(zone, val, (n - 1) as nat);
        let aff0 = (n - 1) as u64;
        match zone.vcpu_at(sgi_mpidr(val, aff0)) {
            Some(id) if (val & 0xffff) & (1u64 << aff0) != 0 => before.push(id),
            _ => before,
        }
    }
}

/// The vCPUs of a list but one.
pub open spec fn all_but(ids: Seq<usize>, sender: usize) -> Seq<usize>
    decreases ids.len(),
{
    if ids.len() == 0 {
        Seq::empty()
    } else {
        let before = all_but(ids.drop_last(), sender);
        if ids.last() != sender {
            before.push(ids.last())
        } else {
            before
        }
    }
}

/// The vCPUs that an SGI is for: all of the zone but the sender, or those that the
/// target list names.
pub open spec fn sgi_targets(zone: ZoneInnerView, val: u64, sender: usize) -> Seq<usize> {
    if (val >> 40) & 1 == 1 {
        all_but(zone.vcpus, sender)
    } else {
        listed_targets(zone, val, 16)
    }
}

impl Sys {
    /// An SGI was delivered to a vCPU: injected if it runs here, else made pending.
    /// A blocked vCPU of this pCPU is woken, and the pCPU of any vCPU that did not
    /// run here is made to look.
    pub open spec fn sgi_delivered(self, cpu: usize, id: usize, sgi: usize) -> Sys {
        let vcpu = self.hv.vcpus[id];
        let home = vcpu.affinity->0;
        let pended = Sys { hv: self.hv.irq_pended(id, sgi, false), ..self };
        if self.hv.cpus[cpu as int].current_vcpu == Some(id) && vcpu.state == VCpuState::Running {
            self.injected(cpu, sgi, false)
        } else {
            match vcpu.state {
                VCpuState::Blocked => if home == cpu {
                    Sys { hv: pended.hv.woken(cpu, id).resched(cpu), ..pended }
                } else {
                    pended.sent(home, SGI_IPI_ID as usize, IPI_EVENT_RESCHED)
                },
                VCpuState::Ready => if home == cpu {
                    Sys { hv: pended.hv.resched(cpu), ..pended }
                } else {
                    (Sys { hv: pended.hv.resched(home), ..pended }).sent(
                        home,
                        SGI_IPI_ID as usize,
                        IPI_EVENT_RESCHED,
                    )
                },
                VCpuState::Running => (Sys { hv: pended.hv.resched(home), ..pended }).sent(
                    home,
                    SGI_IPI_ID as usize,
                    IPI_EVENT_RESCHED,
                ),
                VCpuState::Stopped => self,
            }
        }
    }

    /// An SGI was delivered to several vCPUs, in order.
    pub open spec fn sgi_delivered_to(self, cpu: usize, targets: Seq<usize>, sgi: usize) -> Sys
        decreases targets.len(),
    {
        if targets.len() == 0 {
            self
        } else {
            self.sgi_delivered(cpu, targets[0], sgi).sgi_delivered_to(
                cpu,
                targets.subrange(1, targets.len() as int),
                sgi,
            )
        }
    }

    /// A guest has written an SGI register.
    pub open spec fn guest_sgi_sent(self, cpu: usize, val: u64, sgi: usize) -> Sys {
        match self.hv.cpus[cpu as int].current_vcpu {
            Some(sender) => {
                let zone = self.hv.zones[self.hv.vcpus[sender].zone].inner;
                self.sgi_delivered_to(cpu, sgi_targets(zone, val, sender), sgi)
            },
            None => self,
        }
    }
}

/// Delivers an SGI of a guest to one vCPU.
pub fn deliver_sgi_to_vcpu(
    hv: &mut Hypervisor,
    cpu: usize,
    hw: &mut Hardware,
    vcpu: usize,
    sgi_id: usize,
)
    requires
        old(hv)@.wf(),
        cpu < old(hv)@.cpus.len(),
        old(hv)@.vcpus.contains_key(vcpu),
    ensures
        (Sys { hv: final(hv)@, hw: final(hw)@ }) == (Sys {
            hv: old(hv)@,
            hw: old(hw)@,
        }).sgi_delivered(cpu, vcpu, sgi_id),
        final(hv)@.wf(),
        final(hv)@.cpus.len() == old(hv)@.cpus.len(),
        final(hv)@.vcpus.dom() == old(hv)@.vcpus.dom(),
{
    proof {
        crate::hypervisor::lemma_vcpu_ok(hv@, vcpu);
        crate::hypervisor::lemma_cpu_ok(hv@, cpu);
    }
    let state: VCpuState = hv.vcpu(vcpu).state();
    let home: usize = hv.vcpu(vcpu).get_pcpu_affinity();
    let is_current: bool = match hv.cpu(cpu).current_vcpu {
        Some(current) => current == vcpu,
        None => false,
    };
    if is_current && state == VCpuState::Running {
        let written: bool = inject_irq(hv, cpu, hw, sgi_id, false);
        assert(hv@.vcpus.dom() =~= old(hv)@.vcpus.dom());
        return;
    }
    match state {
        VCpuState::Blocked => {
            hv.push_irq(vcpu, sgi_id, false);
            if home == cpu {
                let woken: bool = hv.wake(cpu, vcpu);
                hv.set_resched(cpu);
            } else {
                send_event(hv, hw, home, SGI_IPI_ID as usize, IPI_EVENT_RESCHED);
            }
        },
        VCpuState::Ready => {
            hv.push_irq(vcpu, sgi_id, false);
            hv.set_resched(home);
            if home != cpu {
                send_event(hv, hw, home, SGI_IPI_ID as usize, IPI_EVENT_RESCHED);
            }
        },
        VCpuState::Running => {
            hv.push_irq(vcpu, sgi_id, false);
            hv.set_resched(home);
            send_event(hv, hw, home, SGI_IPI_ID as usize, IPI_EVENT_RESCHED);
        },
        VCpuState::Stopped => {},
    }
    assert(hv@.vcpus.dom() =~= old(hv)@.vcpus.dom());
}

/// The vCPUs that an SGI is for.
fn find_sgi_targets(zone: &ZoneInner, val: u64, sender: usize) -> (res: Vec<usize>)
    ensures
        res@ == sgi_targets(zone@, val, sender),
        forall|i: int| 0 <= i < res@.len() ==> zone@.vcpus.contains(#[trigger] res@[i]),
{
    let mut targets: Vec<usize> = Vec::new();
    if (val >> 40) & 1 == 1 {
        let all = zone.vcpus();
        let mut i: usize = 0;
        while i < all.len()
            invariant
                i <= all@.len(),
                all@ == zone@.vcpus,
                targets@ == all_but(all@.subrange(0, i as int), sender),
                forall|k: int|
                    0 <= k < targets@.len() ==> zone@.vcpus.contains(#[trigger] targets@[k]),
            decreases all@.len() - i,
        {
            let id: usize = all[i];
            proof {
                assert(all@.subrange(0, i + 1).drop_last() =~= all@.subrange(0, i as int));
                assert(zone@.vcpus.contains(all@[i as int]));
            }
            if id != sender {
                targets.push(id);
            }
            i = i + 1;
        }
        assert(all@.subrange(0, i as int) =~= all@);
    } else {
        let aff3: u64 = (val >> 44) & 0xf;
        let aff2: u64 = (val >> 32) & 0xff;
        let aff1: u64 = (val >> 16) & 0xff;
        let target_list: u64 = val & 0xffff;
        let mut aff0: u64 = 0;
        while aff0 < 16
            invariant
                aff0 <= 16,
                aff3 == (val >> 44) & 0xf,
                aff2 == (val >> 32) & 0xff,
                aff1 == (val >> 16) & 0xff,
                target_list == val & 0xffff,
                targets@ == listed_targets(zone@, val, aff0 as nat),
                forall|k: int|
                    0 <= k < targets@.len() ==> zone@.vcpus.contains(#[trigger] targets@[k]),
            decreases 16 - aff0,
        {
            if target_list & (1u64 << aff0) != 0 {
                let mpidr = GuestMpidr::new((aff3 << 32) | (aff2 << 16) | (aff1 << 8) | aff0);
                if let Some(id) = zone.get_vcpu_by_guest_mpidr(mpidr) {
                    targets.push(id);
                }
            }
            aff0 = aff0 + 1;
        }
    }
    targets
}

/// Emulates a guest's write to an SGI register.  The targets in it are virtual, and
/// may not be running, so the SGI is delivered in software.
pub fn handle_guest_sgi(
    hv: &mut Hypervisor,
    cpu: usize,
    hw: &mut Hardware,
    val: u64,
    sgi_id: usize,
)
    requires
        old(hv)@.wf(),
        cpu < old(hv)@.cpus.len(),
    ensures
        (Sys { hv: final(hv)@, hw: final(hw)@ }) == (Sys {
            hv: old(hv)@,
            hw: old(hw)@,
        }).guest_sgi_sent(cpu, val, sgi_id),
        final(hv)@.wf(),
        final(hv)@.cpus.len() == old(hv)@.cpus.len(),
{
    proof {
        crate::hypervisor::lemma_cpu_ok(hv@, cpu);
    }
    let sender: usize = match hv.cpu(cpu).current_vcpu {
        Some(sender) => sender,
        None => {
            return;
        },
    };
    proof {
        crate::hypervisor::lemma_vcpu_ok(hv@, sender);
        crate::hypervisor::lemma_zone_ok(hv@, hv@.vcpus[sender].zone);
    }
    let zone_id: usize = hv.vcpu(sender).zone_id();
    let targets: Vec<usize> = find_sgi_targets(hv.zone(zone_id).read(), val, sender);
    let ghost goal = (Sys { hv: hv@, hw: hw@ }).sgi_delivered_to(cpu, targets@, sgi_id);
    proof {
        let zone = hv@.zones[zone_id].inner;
        assert forall|i: int| 0 <= i < targets@.len() implies hv@.vcpus.contains_key(
            #[trigger] targets@[i],
        ) by {
            let k = choose|k: int| 0 <= k < zone.vcpus.len() && zone.vcpus[k] == targets@[i];
            assert(hv@.vcpus.contains_key(zone.vcpus[k]));
        }
    }
    assert(targets@.subrange(0, targets@.len() as int) =~= targets@);
    let mut i: usize = 0;
    while i < targets.len()
        invariant
            i <= targets@.len(),
            hv@.wf(),
            cpu < hv@.cpus.len(),
            hv@.cpus.len() == old(hv)@.cpus.len(),
            forall|k: int|
                0 <= k < targets@.len() ==> hv@.vcpus.contains_key(#[trigger] targets@[k]),
            goal == (Sys { hv: hv@, hw: hw@ }).sgi_delivered_to(
                cpu,
                targets@.subrange(i as int, targets@.len() as int),
                sgi_id,
            ),
        decreases targets@.len() - i,
    {
        proof {
            let rest = targets@.subrange(i as int, targets@.len() as int);
            assert(rest[0] == targets@[i as int]);
            assert(rest.subrange(1, rest.len() as int) =~= targets@.subrange(
                i + 1,
                targets@.len() as int,
            ));
        }
        let ghost dom = hv@.vcpus.dom();
        deliver_sgi_to_vcpu(hv, cpu, hw, targets[i], sgi_id);
        assert forall|k: int| 0 <= k < targets@.len() implies hv@.vcpus.contains_key(
            #[trigger] targets@[k],
        ) by {
            assert(dom.contains(targets@[k]));
        }
        i = i + 1;
    }
}

/// Handles a guest's access to a trapped system register: it has written an SGI
/// register.
pub fn handle_sysreg(
    hv: &mut Hypervisor,
    cpu: usize,
    hw: &mut Hardware,
    regs: &mut TrapFrame,
    esr: u64,
)
    requires
        old(hv)@.wf(),
        cpu < old(hv)@.cpus.len(),
        (esr >> 5) & 0x1f != 31,
    ensures
        ({
            let val = old(regs)@.x[((esr >> 5) & 0x1f) as int];
            (Sys { hv: final(hv)@, hw: final(hw)@ }) == (Sys {
                hv: old(hv)@,
                hw: old(hw)@,
            }).guest_sgi_sent(cpu, val, ((val >> 24) & 0xf) as usize)
        }),
        final(regs)@ == old(regs)@.skipped(esr),
        final(hv)@.wf(),
        final(hv)@.cpus.len() == old(hv)@.cpus.len(),
{
    proof {
        lemma_esr_fields(esr);
    }
    let rt: u64 = (esr >> 5) & 0x1f;
    let val: u64 = regs.x[rt as usize];
    let sgi_id: usize = ((val >> 24) & 0xf) as usize;
    handle_guest_sgi(hv, cpu, hw, val, sgi_id);
    arch_skip_instruction(regs, esr);
}

// ---------------------------------------------------------------------------
// Calls of guests
// ---------------------------------------------------------------------------

/// The value that a guest sees for the result of a hypercall.
pub open spec fn hvc_value(result: HvResult<usize>) -> u64 {
    match result {
        Ok(value) => ((value as i32) as i64) as u64,
        Err(error) => ((-error.errno()) as i64) as u64,
    }
}

/// Ends a hypercall: the guest finds its result in its first register.
pub fn handle_hvc(regs: &mut TrapFrame, result: HvResult<usize>)
    ensures
        final(regs)@ == old(regs)@.with_x(0, hvc_value(result)),
{
    let value: i32 = match result {
        Ok(value) => value as i32,
        Err(error) => error.code(),
    };
    regs.x[0] = (value as i64) as u64;
}

/// What a secure monitor call of a guest leads to.
#[derive(Debug, Clone, Copy, PartialEq, Eq, Structural)]
pub enum SmcStep {
    /// The call is dealt with.
    Done,
    /// The call goes to the firmware; the caller then calls [`smc_forwarded`].
    Forward,
    /// The guest's system is to be turned off: the caller calls
    /// [`psci_system_off`].
    SystemOff,
}

/// What a PSCI call leads to.
#[derive(Debug, Clone, Copy, PartialEq, Eq, Structural)]
pub enum PsciStep {
    Return(u64),
    SystemOff,
}

/// A secure monitor call goes to the firmware.
pub open spec fn smc_forwards(code: u64) -> bool {
    let kind = code & SMC_TYPE_MASK;
    (TOS_SC_START <= kind <= TOS_SC_END) || kind == SIP_SC
}

/// What PSCI `FEATURES` returns.
pub open spec fn psci_features(code: u64) -> u64 {
    if code == PSCI_VERSION || code == PSCI_CPU_SUSPEND_32 || code == PSCI_CPU_SUSPEND_64 || code
        == PSCI_CPU_OFF_32 || code == PSCI_CPU_ON_32 || code == PSCI_CPU_ON_64 || code
        == PSCI_AFFINITY_INFO_32 || code == PSCI_AFFINITY_INFO_64 || code == PSCI_FEATURES || code
        == SMCCC_VERSION {
        0
    } else {
        NOT_SUPPORTED
    }
}

/// What a call of the architecture's own kind returns.
pub open spec fn arch_smc_result(code: u64) -> u64 {
    if code == SMCCC_VERSION {
        ARM_SMCCC_VERSION_1_1
    } else {
        NOT_SUPPORTED
    }
}

/// A PSCI call is about the zone that owns the pCPU.
pub open spec fn psci_needs_zone(code: u64) -> bool {
    ||| code == PSCI_AFFINITY_INFO_32
    ||| code == PSCI_AFFINITY_INFO_64
    ||| code == PSCI_CPU_ON_32
    ||| code == PSCI_CPU_ON_64
    ||| code == PSCI_SYSTEM_OFF
}

impl VCpuView {
    /// The vCPU as PSCI `CPU_ON` finds it after a reset, about to start at `entry`.
    pub open spec fn reset_to(self, entry: u64, context: u64, vtr: u64) -> VCpuView {
        VCpuView {
            arch: ArchVCpuView {
                el1_regs: El1SysRegs::at_reset(),
                gic_state: GicStateView::fresh(
                    crate::arch::aarch64::vcpu::vtr_lr_count(vtr),
                    vtr,
                ),
                frame: TrapFrameView::boot(entry, context),
                ..self.arch
            },
            ..self
        }
    }
}

impl HvView {
    /// The current vCPU of a pCPU was asked to leave the running state, and the pCPU
    /// schedules.
    pub open spec fn current_leaves(self, cpu: usize, to: VCpuState) -> HvView {
        match self.cpus[cpu as int].current_vcpu {
            Some(id) => self.tried(id, VCpuState::Running, to).resched(cpu),
            None => self,
        }
    }

    /// The vCPU with a guest `MPIDR` in the zone that owns a pCPU.
    pub open spec fn zone_vcpu_at(self, cpu: usize, raw: u64) -> Option<usize> {
        self.zones[self.cpus[cpu as int].zone->0].inner.vcpu_at(GuestMpidr::of(raw))
    }
}

impl Sys {
    /// What PSCI `CPU_ON` returns.
    pub open spec fn cpu_on_result(self, cpu: usize, mpidr: u64) -> u64 {
        match self.hv.zone_vcpu_at(cpu, mpidr) {
            Some(id) => if self.hv.vcpus[id].state == VCpuState::Stopped {
                0
            } else {
                CPU_ON_ALREADY
            },
            None => NOT_SUPPORTED,
        }
    }

    /// PSCI `CPU_ON`: a stopped vCPU of the zone is reset and started at `entry`.
    pub open spec fn cpu_turned_on(self, cpu: usize, mpidr: u64, entry: u64, context: u64) -> Sys {
        match self.hv.zone_vcpu_at(cpu, mpidr) {
            Some(id) => if self.hv.vcpus[id].state == VCpuState::Stopped {
                (Sys {
                    hv: self.hv.with_vcpu(
                        id,
                        self.hv.vcpus[id].reset_to(entry, context, self.hw.ich.vtr),
                    ),
                    ..self
                }).started(cpu, id)
            } else {
                self
            },
            None => self,
        }
    }

    /// A PSCI call with the guest's registers `x`.
    pub open spec fn psci_called(self, cpu: usize, code: u64, x: Seq<u64>) -> (Sys, PsciStep) {
        if code == PSCI_VERSION {
            (self, PsciStep::Return(PSCI_VERSION_1_1))
        } else if code == PSCI_CPU_SUSPEND_32 || code == PSCI_CPU_SUSPEND_64 {
            (
                Sys { hv: self.hv.current_leaves(cpu, VCpuState::Blocked), ..self },
                PsciStep::Return(0),
            )
        } else if code == PSCI_CPU_OFF_32 || code == PSCI_CPU_OFF_64 {
            (
                Sys { hv: self.hv.current_leaves(cpu, VCpuState::Stopped), ..self },
                PsciStep::Return(0),
            )
        } else if code == PSCI_AFFINITY_INFO_32 || code == PSCI_AFFINITY_INFO_64 {
            (
                self,
                PsciStep::Return(
                    match self.hv.zone_vcpu_at(cpu, x[1]) {
                        Some(id) => if self.hv.vcpus[id].state == VCpuState::Stopped {
                            1
                        } else {
                            0
                        },
                        None => 1,
                    },
                ),
            )
        } else if code == PSCI_MIG_INFO_TYPE {
            (self, PsciStep::Return(PSCI_TOS_NOT_PRESENT_MP))
        } else if code == PSCI_FEATURES {
            (self, PsciStep::Return(psci_features(x[1])))
        } else if code == PSCI_CPU_ON_32 || code == PSCI_CPU_ON_64 {
            (
                self.cpu_turned_on(cpu, x[1], x[2], x[3]),
                PsciStep::Return(self.cpu_on_result(cpu, x[1])),
            )
        } else if code == PSCI_SYSTEM_OFF {
            (self, PsciStep::SystemOff)
        } else {
            (self, PsciStep::Return(0))
        }
    }
}

/// Answers PSCI `FEATURES`.
pub fn psci_emulate_features_info(code: u64) -> (res: u64)
    ensures
        res == psci_features(code),
{
    if code == PSCI_VERSION || code == PSCI_CPU_SUSPEND_32 || code == PSCI_CPU_SUSPEND_64 || code
        == PSCI_CPU_OFF_32 || code == PSCI_CPU_ON_32 || code == PSCI_CPU_ON_64 || code
        == PSCI_AFFINITY_INFO_32 || code == PSCI_AFFINITY_INFO_64 || code == PSCI_FEATURES || code
        == SMCCC_VERSION {
        0
    } else {
        NOT_SUPPORTED
    }
}

/// Answers a call of the architecture's own kind.
pub fn handle_arch_smc(code: u64) -> (res: u64)
    ensures
        res == arch_smc_result(code),
{
    if code == SMCCC_VERSION {
        ARM_SMCCC_VERSION_1_1
    } else {
        NOT_SUPPORTED
    }
}

/// Emulates PSCI `CPU_ON`.  The target is named by the `MPIDR` that the guest sees.
pub fn psci_emulate_cpu_on(
    hv: &mut Hypervisor,
    cpu: usize,
    hw: &mut Hardware,
    regs: &TrapFrame,
) -> (res: u64)
    requires
        old(hv)@.wf(),
        cpu < old(hv)@.cpus.len(),
        old(hv)@.has_zone(cpu),
    ensures
        res == (Sys { hv: old(hv)@, hw: old(hw)@ }).cpu_on_result(cpu, regs@.x[1]),
        (Sys { hv: final(hv)@, hw: final(hw)@ }) == (Sys {
            hv: old(hv)@,
            hw: old(hw)@,
        }).cpu_turned_on(cpu, regs@.x[1], regs@.x[2], regs@.x[3]),
        final(hv)@.wf(),
        final(hv)@.cpus.len() == old(hv)@.cpus.len(),
{
    let mpidr = GuestMpidr::new(regs.x[1]);
    let entry: u64 = regs.x[2];
    let context_id: u64 = regs.x[3];
    proof {
        crate::hypervisor::lemma_cpu_ok(hv@, cpu);
    }
    let zone_id: usize = hv.cpu(cpu).zone.unwrap();
    let vcpu: usize = match hv.zone(zone_id).read().get_vcpu_by_guest_mpidr(mpidr) {
        Some(vcpu) => vcpu,
        None => {
            return NOT_SUPPORTED;
        },
    };
    proof {
        crate::hypervisor::lemma_zone_ok(hv@, zone_id);
        let zone = hv@.zones[zone_id].inner;
        let k = choose|k: int| 0 <= k < zone.vcpus.len() && zone.vcpus[k] == vcpu;
        assert(hv@.vcpus.contains_key(zone.vcpus[k]));
        crate::hypervisor::lemma_vcpu_ok(hv@, vcpu);
        crate::hypervisor::lemma_wf_vcpu(
            hv@,
            vcpu,
            hv@.vcpus[vcpu].reset_to(entry, context_id, hw@.ich.vtr),
        );
    }
    if hv.vcpu(vcpu).state() != VCpuState::Stopped {
        return CPU_ON_ALREADY;
    }
    let target = hv.vcpu_mut(vcpu);
    target.arch.reset_el1_regs();
    target.arch.reset_gic_state(hw);
    *target.arch.trapframe() = TrapFrame::boot(entry, context_id);
    let started: isize = arch_wakeup_vcpu(hv, cpu, hw, vcpu);
    if started == 0 {
        0
    } else {
        CPU_ON_ALREADY
    }
}

/// Emulates a PSCI call.
pub fn handle_psci_smc(
    hv: &mut Hypervisor,
    cpu: usize,
    hw: &mut Hardware,
    regs: &TrapFrame,
    code: u64,
) -> (res: PsciStep)
    requires
        old(hv)@.wf(),
        cpu < old(hv)@.cpus.len(),
        psci_needs_zone(code) ==> old(hv)@.has_zone(cpu),
    ensures
        (Sys { hv: final(hv)@, hw: final(hw)@ }, res) == (Sys {
            hv: old(hv)@,
            hw: old(hw)@,
        }).psci_called(cpu, code, regs@.x),
        final(hv)@.wf(),
        final(hv)@.cpus.len() == old(hv)@.cpus.len(),
{
    proof {
        crate::hypervisor::lemma_cpu_ok(hv@, cpu);
    }
    if code == PSCI_VERSION {
        PsciStep::Return(PSCI_VERSION_1_1)
    } else if code == PSCI_CPU_SUSPEND_32 || code == PSCI_CPU_SUSPEND_64 {
        if let Some(vcpu) = hv.cpu(cpu).current_vcpu {
            let moved: bool = hv.transition(vcpu, VCpuState::Running, VCpuState::Blocked);
            hv.set_resched(cpu);
        }
        PsciStep::Return(0)
    } else if code == PSCI_CPU_OFF_32 || code == PSCI_CPU_OFF_64 {
        if let Some(vcpu) = hv.cpu(cpu).current_vcpu {
            let moved: bool = hv.transition(vcpu, VCpuState::Running, VCpuState::Stopped);
            hv.set_resched(cpu);
        }
        PsciStep::Return(0)
    } else if code == PSCI_AFFINITY_INFO_32 || code == PSCI_AFFINITY_INFO_64 {
        let zone_id: usize = hv.cpu(cpu).zone.unwrap();
        let found: Option<usize> = hv.zone(zone_id).read().get_vcpu_by_guest_mpidr(
            GuestMpidr::new(regs.x[1]),
        );
        PsciStep::Return(
            match found {
                Some(vcpu) => {
                    proof {
                        crate::hypervisor::lemma_zone_ok(hv@, zone_id);
                        let zone = hv@.zones[zone_id].inner;
                        let k = choose|k: int| 0 <= k < zone.vcpus.len() && zone.vcpus[k] == vcpu;
                        assert(hv@.vcpus.contains_key(zone.vcpus[k]));
                    }
                    if hv.vcpu(vcpu).state() == VCpuState::Stopped {
                        1
                    } else {
                        0
                    }
                },
                None => 1,
            },
        )
    } else if code == PSCI_MIG_INFO_TYPE {
        PsciStep::Return(PSCI_TOS_NOT_PRESENT_MP)
    } else if code == PSCI_FEATURES {
        PsciStep::Return(psci_emulate_features_info(regs.x[1]))
    } else if code == PSCI_CPU_ON_32 || code == PSCI_CPU_ON_64 {
        PsciStep::Return(psci_emulate_cpu_on(hv, cpu, hw, regs))
    } else if code == PSCI_SYSTEM_OFF {
        PsciStep::SystemOff
    } else {
        PsciStep::Return(0)
    }
}

/// Handles a secure monitor call of a guest.
pub fn handle_smc(
    hv: &mut Hypervisor,
    cpu: usize,
    hw: &mut Hardware,
    regs: &mut TrapFrame,
    esr: u64,
) -> (res: SmcStep)
    requires
        old(hv)@.wf(),
        cpu < old(hv)@.cpus.len(),
        old(regs)@.x[0] & SMC_TYPE_MASK == STANDARD_SC && psci_needs_zone(old(regs)@.x[0]) ==> old(
            hv,
        )@.has_zone(cpu),
    ensures
        ({
            let code = old(regs)@.x[0];
            let kind = code & SMC_TYPE_MASK;
            let start = Sys { hv: old(hv)@, hw: old(hw)@ };
            let end = Sys { hv: final(hv)@, hw: final(hw)@ };
            if kind == ARCH_SC {
                &&& end == start
                &&& res == SmcStep::Done
                &&& final(regs)@ == old(regs)@.with_x(0, arch_smc_result(code)).skipped(esr)
            } else if kind == STANDARD_SC {
                let (called, step) = start.psci_called(cpu, code, old(regs)@.x);
                &&& end == called
                &&& match step {
                    PsciStep::Return(value) => {
                        &&& res == SmcStep::Done
                        &&& final(regs)@ == old(regs)@.with_x(0, value).skipped(esr)
                    },
                    PsciStep::SystemOff => {
                        &&& res == SmcStep::SystemOff
                        &&& final(regs)@ == old(regs)@
                    },
                }
            } else if smc_forwards(code) {
                &&& end == start
                &&& res == SmcStep::Forward
                &&& final(regs)@ == old(regs)@
            } else {
                &&& end == start
                &&& res == SmcStep::Done
                &&& final(regs)@ == old(regs)@.with_x(0, 0).skipped(esr)
            }
        }),
        final(hv)@.wf(),
        final(hv)@.cpus.len() == old(hv)@.cpus.len(),
{
    let code: u64 = regs.x[0];
    let kind: u64 = code & SMC_TYPE_MASK;
    let result: u64 = if kind == ARCH_SC {
        handle_arch_smc(code)
    } else if kind == STANDARD_SC {
        match handle_psci_smc(hv, cpu, hw, regs, code) {
            PsciStep::Return(value) => value,
            PsciStep::SystemOff => {
                return SmcStep::SystemOff;
            },
        }
    } else if (TOS_SC_START <= kind && kind <= TOS_SC_END) || kind == SIP_SC {
        return SmcStep::Forward;
    } else {
        0
    };
    regs.x[0] = result;
    arch_skip_instruction(regs, esr);
    SmcStep::Done
}

/// Ends a call that went to the firmware, which returned `ret`.
pub fn smc_forwarded(regs: &mut TrapFrame, esr: u64, ret: [u64; 4])
    ensures
        final(regs)@ == old(regs)@.with_x(0, ret@[0]).with_x(1, ret@[1]).with_x(2, ret@[2]).with_x(
            3,
            ret@[3],
        ).skipped(esr),
{
    regs.x[0] = ret[0];
    regs.x[1] = ret[1];
    regs.x[2] = ret[2];
    regs.x[3] = ret[3];
    arch_skip_instruction(regs, esr);
}

// ---------------------------------------------------------------------------
// Turning a zone off
// ---------------------------------------------------------------------------

impl Sys {
    /// A pCPU of a zone that turns itself off was told to shut down.
    pub open spec fn cpu_shutting_down(self, cpu: usize) -> Sys {
        (Sys {
            hv: self.hv.with_cpu(cpu, PerCpuView { zone: None, ..self.hv.cpus[cpu as int] }),
            ..self
        }).sent(cpu, SGI_IPI_ID as usize, IPI_EVENT_SHUTDOWN)
    }

    /// The first `n` of the listed pCPUs, but for `this`, were told to shut down.
    pub open spec fn cpus_shutting_down(self, members: Seq<usize>, n: nat, this: usize) -> Sys
        decreases n,
    {
        if n == 0 {
            self
        } else {
            let before = self.cpus_shutting_down(members, (n - 1) as nat, this);
            if members[n - 1] == this {
                before
            } else {
                before.cpu_shutting_down(members[n - 1])
            }
        }
    }

    /// The zone that owns a pCPU was turned off: its other pCPUs were told, and it is
    /// gone.
    pub open spec fn system_off(self, cpu: usize) -> Sys {
        let zone = self.hv.cpus[cpu as int].zone->0;
        let members = self.hv.zones[zone].inner.cpu_set.members();
        let told = self.cpus_shutting_down(members, members.len(), cpu);
        Sys {
            hv: told.hv.with_cpu(
                cpu,
                PerCpuView { zone: None, ..told.hv.cpus[cpu as int] },
            ).zone_dropped(zone),
            ..told
        }
    }
}

/// Turns off the zone that owns the pCPU.  Nothing but its pCPUs may refer to the zone.
/// Returns whether it was the root zone, in which case the machine is turned off.
pub fn psci_system_off(hv: &mut Hypervisor, cpu: usize, hw: &mut Hardware) -> (res: bool)
    requires
        old(hv)@.wf(),
        cpu < old(hv)@.cpus.len(),
        old(hv)@.has_zone(cpu),
        old(hv)@.zone_list.contains(old(hv)@.cpus[cpu as int].zone->0),
        forall|id: usize| #[trigger]
            old(hv)@.vcpus.contains_key(id) ==> Some(old(hv)@.vcpus[id].zone) != old(
                hv,
            )@.cpus[cpu as int].zone,
    ensures
        res == old(hv)@.in_root_zone(cpu),
        (Sys { hv: final(hv)@, hw: final(hw)@ }) == (Sys { hv: old(hv)@, hw: old(hw)@ }).system_off(
            cpu,
        ),
        final(hv)@.wf(),
{
    proof {
        crate::hypervisor::lemma_cpu_ok(hv@, cpu);
    }
    let zone_id: usize = hv.cpu(cpu).zone.unwrap();
    let is_root: bool = crate::zone::is_this_root_zone(hv, cpu);
    let ghost start = Sys { hv: hv@, hw: hw@ };
    let ghost set = hv@.zones[zone_id].inner.cpu_set;
    proof {
        crate::hypercall::lemma_members_in_range(hv@, zone_id);
        set.lemma_members_below(64);
    }
    let members: Vec<usize> = hv.zone(zone_id).cpu_set().to_vec();
    let mut i: usize = 0;
    while i < members.len()
        invariant
            i <= members@.len(),
            hv@.wf(),
            cpu < hv@.cpus.len(),
            hv@.cpus.len() == start.hv.cpus.len(),
            hv@ == (HvView { cpus: hv@.cpus, events: hv@.events, ..start.hv }),
            forall|k: int| 0 <= k < members@.len() ==> #[trigger] members@[k] < hv@.cpus.len(),
            forall|k: int|
                0 <= k < i && members@[k] != cpu ==> hv@.cpus[#[trigger] members@[k] as int].zone
                    is None,
            forall|c: int|
                0 <= c < hv@.cpus.len() ==> (#[trigger] hv@.cpus[c]).zone is None
                    || hv@.cpus[c].zone == start.hv.cpus[c].zone,
            (Sys { hv: hv@, hw: hw@ }) == start.cpus_shutting_down(members@, i as nat, cpu),
        decreases members@.len() - i,
    {
        let other: usize = members[i];
        if other != cpu {
            proof {
                crate::hypervisor::lemma_cpu_ok(hv@, other);
                crate::hypervisor::lemma_wf_cpu(
                    hv@,
                    other,
                    PerCpuView { zone: None, ..hv@.cpus[other as int] },
                );
            }
            hv.cpu_mut(other).zone = None;
            send_event(hv, hw, other, SGI_IPI_ID as usize, IPI_EVENT_SHUTDOWN);
        }
        i = i + 1;
    }
    proof {
        crate::hypervisor::lemma_cpu_ok(hv@, cpu);
        crate::hypervisor::lemma_wf_cpu(hv@, cpu, PerCpuView { zone: None, ..hv@.cpus[cpu as int] });
    }
    hv.cpu_mut(cpu).zone = None;
    proof {
        crate::hypervisor::lemma_wf_sizes(start.hv);
        assert forall|c: int| 0 <= c < hv@.cpus.len() implies (#[trigger] hv@.cpus[c]).zone != Some(
            zone_id,
        ) by {
            if hv@.cpus[c].zone == Some(zone_id) {
                crate::hypervisor::lemma_cpu_ok(start.hv, c as usize);
                assert(set.has(c as usize));
                assert(set.members().contains(c as usize));
                let k = choose|k: int| 0 <= k < members@.len() && members@[k] == c;
                assert(hv@.cpus[members@[k] as int].zone is None);
            }
        }
        assert(hv@.zone_unused(zone_id));
    }
    crate::zone::remove_zone(hv, zone_id);
    is_root
}

} // verus!

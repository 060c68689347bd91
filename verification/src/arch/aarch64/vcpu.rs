//! AArch64 vCPU state: the guest's register frame, its EL1 system registers and
//! the state of its virtual interrupt controller.

use vstd::prelude::*;
use crate::arch::aarch64::timer::{EL2_TIMER_BIT, EL2_TIMER_PRIORITY};
use crate::device::irqchip::gicv3::gicr::{
    GICR_ICENABLER, GICR_ICFGR, GICR_IGROUPR, GICR_IPRIORITYR, GICR_ISENABLER, GICR_SGI_BASE,
    PER_GICR_SIZE,
};
use crate::hardware::{El2Regs, Hardware, HardwareView, IchView, Op, MAX_GIC_LRS};
use crate::hypervisor::{Hypervisor, Sys};
use crate::vcpu::{deliver_vcpu_to_pcpu, enqueue_vcpu_on_affinity_pcpu, VCpu, VCpuState};

verus! {

/// `SCTLR_EL1` at reset: bits 11, 20, 22, 23, 28 and 29.
pub const SCTLR_EL1_RESET: u64 = 0x30d0_0800;

/// `CNTV_CTL_EL0`: the timer is enabled.
pub const CNTV_ENABLE: u64 = 1;

/// `CNTV_CTL_EL0`: the timer's interrupt is masked.
pub const CNTV_IMASK: u64 = 2;

/// `CNTV_CTL_EL0`: the timer has expired.
pub const CNTV_ISTATUS: u64 = 4;

/// The EL1 system registers of a vCPU, which every context switch saves and
/// restores.
#[derive(Debug, Clone, Copy, PartialEq, Eq, Structural)]
pub struct El1SysRegs {
    pub sctlr_el1: u64,
    pub ttbr0_el1: u64,
    pub ttbr1_el1: u64,
    pub tcr_el1: u64,
    pub esr_el1: u64,
    pub far_el1: u64,
    pub mair_el1: u64,
    pub amair_el1: u64,
    pub vbar_el1: u64,
    pub contextidr_el1: u64,
    pub cpacr_el1: u64,
    pub csselr_el1: u64,
    pub sp_el0: u64,
    pub sp_el1: u64,
    pub spsr_el1: u64,
    pub elr_el1: u64,
    pub afsr0_el1: u64,
    pub afsr1_el1: u64,
    pub par_el1: u64,
    pub tpidr_el0: u64,
    pub tpidr_el1: u64,
    pub tpidrro_el0: u64,
    pub cntvoff_el2: u64,
    pub cntp_ctl_el0: u64,
    pub cntp_cval_el0: u64,
    pub cntv_ctl_el0: u64,
    pub cntv_cval_el0: u64,
    pub cntkctl_el1: u64,
}

impl El1SysRegs {
    /// The values at reset.
    pub open spec fn at_reset() -> El1SysRegs {
        El1SysRegs {
            sctlr_el1: SCTLR_EL1_RESET,
            ttbr0_el1: 0,
            ttbr1_el1: 0,
            tcr_el1: 0,
            esr_el1: 0,
            far_el1: 0,
            mair_el1: 0,
            amair_el1: 0,
            vbar_el1: 0,
            contextidr_el1: 0,
            cpacr_el1: 0,
            csselr_el1: 0,
            sp_el0: 0,
            sp_el1: 0,
            spsr_el1: 0,
            elr_el1: 0,
            afsr0_el1: 0,
            afsr1_el1: 0,
            par_el1: 0,
            tpidr_el0: 0,
            tpidr_el1: 0,
            tpidrro_el0: 0,
            cntvoff_el2: 0,
            cntp_ctl_el0: 0,
            cntp_cval_el0: 0,
            cntv_ctl_el0: 0,
            cntv_cval_el0: 0,
            cntkctl_el1: 0,
        }
    }

    /// What is kept of the registers of a vCPU that leaves a pCPU: all of them,
    /// with the virtual timer masked if it is enabled.
    pub open spec fn masked(self) -> El1SysRegs {
        if self.cntv_ctl_el0 & CNTV_ENABLE != 0 {
            El1SysRegs { cntv_ctl_el0: self.cntv_ctl_el0 | CNTV_IMASK, ..self }
        } else {
            self
        }
    }

    /// What a pCPU gets for a vCPU that comes back: all registers as they were
    /// kept, with the virtual timer masked exactly if it is enabled and was seen
    /// to have expired.
    pub open spec fn unmasked(self) -> El1SysRegs {
        if self.cntv_ctl_el0 & CNTV_ENABLE != 0 && self.cntv_ctl_el0 & CNTV_ISTATUS != 0 {
            El1SysRegs { cntv_ctl_el0: self.cntv_ctl_el0 | CNTV_IMASK, ..self }
        } else {
            El1SysRegs { cntv_ctl_el0: self.cntv_ctl_el0 & !CNTV_IMASK, ..self }
        }
    }

    /// The values at reset.
    pub fn reset() -> (res: Self)
        ensures
            res == Self::at_reset(),
    {
        El1SysRegs {
            sctlr_el1: SCTLR_EL1_RESET,
            ttbr0_el1: 0,
            ttbr1_el1: 0,
            tcr_el1: 0,
            esr_el1: 0,
            far_el1: 0,
            mair_el1: 0,
            amair_el1: 0,
            vbar_el1: 0,
            contextidr_el1: 0,
            cpacr_el1: 0,
            csselr_el1: 0,
            sp_el0: 0,
            sp_el1: 0,
            spsr_el1: 0,
            elr_el1: 0,
            afsr0_el1: 0,
            afsr1_el1: 0,
            par_el1: 0,
            tpidr_el0: 0,
            tpidr_el1: 0,
            tpidrro_el0: 0,
            cntvoff_el2: 0,
            cntp_ctl_el0: 0,
            cntp_cval_el0: 0,
            cntv_ctl_el0: 0,
            cntv_cval_el0: 0,
            cntkctl_el1: 0,
        }
    }

    /// Saves the registers of the pCPU.  An enabled virtual timer is masked, both
    /// in what is saved and on the pCPU: its counter runs on, and it must not
    /// interrupt a pCPU that has no vCPU to deliver to.
    pub fn save_from_hardware(&mut self, hw: &mut Hardware)
        ensures
            *final(self) == old(hw)@.el1.masked(),
            final(hw)@ == old(hw)@.with_cntv_ctl(old(hw)@.el1.masked().cntv_ctl_el0),
    {
        *self = hw.regs.el1;
        let cntv_ctl: u64 = hw.regs.el1.cntv_ctl_el0;
        if cntv_ctl & CNTV_ENABLE != 0 {
            let masked: u64 = cntv_ctl | CNTV_IMASK;
            hw.write_cntv_ctl(masked);
            self.cntv_ctl_el0 = masked;
        }
    }

    /// Restores the registers to the pCPU.  A virtual timer that has expired stays
    /// masked, since its interrupt reaches the guest through the pending queue;
    /// any other timer is unmasked.  The performance monitor is turned off.
    pub fn restore_to_hardware(&self, hw: &mut Hardware)
        ensures
            final(hw)@ == (HardwareView {
                el1: self.unmasked(),
                el2: El2Regs { pmcr_el0: 0, ..old(hw)@.el2 },
                ..old(hw)@
            }),
    {
        hw.regs.el1 = *self;
        let cntv_ctl: u64 = self.cntv_ctl_el0;
        if cntv_ctl & CNTV_ENABLE != 0 && cntv_ctl & CNTV_ISTATUS != 0 {
            hw.regs.el1.cntv_ctl_el0 = cntv_ctl | CNTV_IMASK;
        } else {
            hw.regs.el1.cntv_ctl_el0 = cntv_ctl & !CNTV_IMASK;
        }
        hw.regs.el2.pmcr_el0 = 0;
    }
}

impl Default for El1SysRegs {
    fn default() -> (res: Self)
        ensures
            res == El1SysRegs::at_reset(),
    {
        El1SysRegs::reset()
    }
}

/// A vCPU's own view of the SGI and PPI registers of its redistributor.  Several
/// vCPUs share one physical redistributor; each has its own shadow.
#[derive(Debug, Clone, Copy)]
pub struct VirtualGicrState {
    pub isenabler: u32,
    pub ipriorityr: [u32; 8],
    pub icfgr: [u32; 2],
    pub ispendr: u32,
    pub isactiver: u32,
    pub igroupr: u32,
    pub initialized: bool,
}

/// The value of a [`VirtualGicrState`].
#[verifier::ext_equal]
pub struct VirtualGicrView {
    pub isenabler: u32,
    pub ipriorityr: Seq<u32>,
    pub icfgr: Seq<u32>,
    pub ispendr: u32,
    pub isactiver: u32,
    pub igroupr: u32,
    pub initialized: bool,
}

impl View for VirtualGicrState {
    type V = VirtualGicrView;

    open spec fn view(&self) -> VirtualGicrView {
        VirtualGicrView {
            isenabler: self.isenabler,
            ipriorityr: self.ipriorityr@,
            icfgr: self.icfgr@,
            ispendr: self.ispendr,
            isactiver: self.isactiver,
            igroupr: self.igroupr,
            initialized: self.initialized,
        }
    }
}

impl VirtualGicrView {
    /// A shadow that its guest has not written to.
    pub open spec fn untouched() -> VirtualGicrView {
        VirtualGicrView {
            isenabler: 0,
            ipriorityr: Seq::new(8, |i: int| 0u32),
            icfgr: Seq::new(2, |i: int| 0u32),
            ispendr: 0,
            isactiver: 0,
            igroupr: 0,
            initialized: false,
        }
    }
}

impl Default for VirtualGicrState {
    fn default() -> (res: Self)
        ensures
            res@ == VirtualGicrView::untouched(),
    {
        VirtualGicrState {
            isenabler: 0,
            ipriorityr: [0; 8],
            icfgr: [0; 2],
            ispendr: 0,
            isactiver: 0,
            igroupr: 0,
            initialized: false,
        }
    }
}

/// `ICH_VMCR_EL2` of a new vCPU: all priorities allowed, group 1 enabled.
pub const ICH_VMCR_NEW: u64 = 0xff00_0002;

/// The virtual CPU interface of a vCPU that is not running.
#[derive(Debug, Clone, Copy)]
pub struct GicState {
    pub ich_lr: [u64; 16],
    pub ich_vmcr: u64,
    pub ich_hcr: u64,
    pub ich_ap1r: [u64; 4],
    /// The number of list registers that the hardware has.
    pub lr_count: usize,
    /// The number of preemption bits that the hardware has.
    pub pri_bits: usize,
    /// The vCPU's redistributor shadow.
    pub vgicr: VirtualGicrState,
}

/// The value of a [`GicState`].
#[verifier::ext_equal]
pub struct GicStateView {
    pub ich_lr: Seq<u64>,
    pub ich_vmcr: u64,
    pub ich_hcr: u64,
    pub ich_ap1r: Seq<u64>,
    pub lr_count: usize,
    pub pri_bits: usize,
    pub vgicr: VirtualGicrView,
}

impl View for GicState {
    type V = GicStateView;

    open spec fn view(&self) -> GicStateView {
        GicStateView {
            ich_lr: self.ich_lr@,
            ich_vmcr: self.ich_vmcr,
            ich_hcr: self.ich_hcr,
            ich_ap1r: self.ich_ap1r@,
            lr_count: self.lr_count,
            pri_bits: self.pri_bits,
            vgicr: self.vgicr@,
        }
    }
}

/// The number of list registers that a value of `ICH_VTR_EL2` reports.
pub open spec fn vtr_lr_count(vtr: u64) -> usize {
    ((vtr & 0x1f) + 1) as usize
}

/// The number of preemption bits that a value of `ICH_VTR_EL2` reports.
pub open spec fn vtr_pri_bits(vtr: u64) -> usize {
    (((vtr >> 26) & 0x7) + 1) as usize
}

impl GicStateView {
    /// A new vCPU on hardware with the given `ICH_VTR_EL2` and list registers.
    pub open spec fn fresh(lr_count: usize, vtr: u64) -> GicStateView {
        GicStateView {
            ich_lr: Seq::new(16, |i: int| 0u64),
            ich_vmcr: ICH_VMCR_NEW,
            ich_hcr: 1,
            ich_ap1r: Seq::new(4, |i: int| 0u64),
            lr_count,
            pri_bits: vtr_pri_bits(vtr),
            vgicr: VirtualGicrView::untouched(),
        }
    }

    /// Active-priority register `i` exists on the hardware.
    pub open spec fn has_ap1r(self, i: int) -> bool {
        i == 0 || (i == 1 && self.pri_bits >= 6) || (2 <= i < 4 && self.pri_bits >= 7)
    }

    /// The state after saving from the given hardware: each register that the
    /// hardware has is taken over, the others keep their value.
    pub open spec fn saved(self, ich: IchView) -> GicStateView {
        GicStateView {
            ich_lr: Seq::new(16, |i: int| if i < self.lr_count { ich.lr[i] } else { self.ich_lr[i] }),
            ich_vmcr: ich.vmcr,
            ich_hcr: ich.hcr,
            ich_ap1r: Seq::new(4, |i: int| if self.has_ap1r(i) { ich.ap1r[i] } else { self.ich_ap1r[i] }),
            ..self
        }
    }

    /// The hardware after restoring this state to it.
    pub open spec fn restored(self, ich: IchView) -> IchView {
        IchView {
            vmcr: self.ich_vmcr,
            hcr: self.ich_hcr,
            lr: Seq::new(16, |i: int| if i < self.lr_count { self.ich_lr[i] } else { ich.lr[i] }),
            ap1r: Seq::new(4, |i: int| if self.has_ap1r(i) { self.ich_ap1r[i] } else { ich.ap1r[i] }),
            ..ich
        }
    }
}

impl Default for GicState {
    fn default() -> (res: Self)
        ensures
            res@ == (GicStateView {
                ich_lr: Seq::new(16, |i: int| 0u64),
                ich_vmcr: 0,
                ich_hcr: 0,
                ich_ap1r: Seq::new(4, |i: int| 0u64),
                lr_count: 0,
                pri_bits: 5,
                vgicr: VirtualGicrView::untouched(),
            }),
    {
        GicState {
            ich_lr: [0; 16],
            ich_vmcr: 0,
            ich_hcr: 0,
            ich_ap1r: [0; 4],
            lr_count: 0,
            pri_bits: 5,
            vgicr: VirtualGicrState::default(),
        }
    }
}

impl GicState {
    /// The state of a new vCPU: its virtual interface is on, all priorities are
    /// allowed and group 1 is enabled.
    pub fn new_with_lr_count(lr_count: usize, hw: &Hardware) -> (res: Self)
        ensures
            res@ == GicStateView::fresh(lr_count, hw@.ich.vtr),
    {
        let mut state = GicState::default();
        state.lr_count = lr_count;
        state.pri_bits = detect_gic_pri_bits(hw);
        state.ich_hcr = 1;
        state.ich_vmcr = ICH_VMCR_NEW;
        state
    }

    /// Saves the virtual interface of the pCPU.
    pub fn save_from_hardware(&mut self, hw: &Hardware)
        ensures
            final(self)@ == old(self)@.saved(hw@.ich),
    {
        self.ich_vmcr = hw.regs.ich.vmcr;
        self.ich_hcr = hw.regs.ich.hcr;
        self.ich_ap1r[0] = hw.regs.ich.ap1r[0];
        if self.pri_bits >= 6 {
            self.ich_ap1r[1] = hw.regs.ich.ap1r[1];
        }
        if self.pri_bits >= 7 {
            self.ich_ap1r[2] = hw.regs.ich.ap1r[2];
            self.ich_ap1r[3] = hw.regs.ich.ap1r[3];
        }
        let ghost before = *self;
        let mut i: usize = 0;
        while i < MAX_GIC_LRS && i < self.lr_count
            invariant
                i <= MAX_GIC_LRS,
                i <= self.lr_count,
                self.ich_lr@.len() == 16,
                before.ich_lr@ == old(self).ich_lr@,
                forall|j: int|
                    0 <= j < 16 ==> #[trigger] self.ich_lr@[j] == (if j < i {
                        hw.regs.ich.lr@[j]
                    } else {
                        old(self).ich_lr@[j]
                    }),
                self@ == (GicStateView { ich_lr: self.ich_lr@, ..before@ }),
            decreases MAX_GIC_LRS - i,
        {
            self.ich_lr[i] = hw.regs.ich.lr[i];
            i = i + 1;
        }
        assert(self@.ich_lr =~= old(self)@.saved(hw@.ich).ich_lr);
        assert(self@.ich_ap1r =~= old(self)@.saved(hw@.ich).ich_ap1r);
    }

    /// Restores the virtual interface to the pCPU.
    pub fn restore_to_hardware(&self, hw: &mut Hardware)
        ensures
            final(hw)@ == (HardwareView { ich: self@.restored(old(hw)@.ich), ..old(hw)@ }),
    {
        hw.regs.ich.vmcr = self.ich_vmcr;
        hw.regs.ich.hcr = self.ich_hcr;
        hw.regs.ich.ap1r[0] = self.ich_ap1r[0];
        if self.pri_bits >= 6 {
            hw.regs.ich.ap1r[1] = self.ich_ap1r[1];
        }
        if self.pri_bits >= 7 {
            hw.regs.ich.ap1r[2] = self.ich_ap1r[2];
            hw.regs.ich.ap1r[3] = self.ich_ap1r[3];
        }
        let ghost before = hw@;
        let mut i: usize = 0;
        while i < MAX_GIC_LRS && i < self.lr_count
            invariant
                i <= MAX_GIC_LRS,
                i <= self.lr_count,
                before.ich.lr == old(hw)@.ich.lr,
                forall|j: int|
                    0 <= j < 16 ==> #[trigger] hw.regs.ich.lr@[j] == (if j < i {
                        self.ich_lr@[j]
                    } else {
                        old(hw).regs.ich.lr@[j]
                    }),
                hw@ == (HardwareView { ich: IchView { lr: hw@.ich.lr, ..before.ich }, ..before }),
            decreases MAX_GIC_LRS - i,
        {
            hw.regs.ich.lr[i] = self.ich_lr[i];
            i = i + 1;
        }
        assert(hw@.ich.lr =~= self@.restored(old(hw)@.ich).lr);
        assert(hw@.ich.ap1r =~= self@.restored(old(hw)@.ich).ap1r);
    }
}

/// `x & 0x1f` and `(x >> 26) & 7` fit where they are used.
proof fn lemma_vtr_fields(vtr: u64)
    by (bit_vector)
    ensures
        vtr & 0x1f <= 0x1f,
        (vtr >> 26) & 0x7 <= 0x7,
{
}

/// The number of list registers that the hardware reports.
pub fn detect_gic_lr_count(hw: &Hardware) -> (res: usize)
    ensures
        res == vtr_lr_count(hw@.ich.vtr),
        1 <= res <= 32,
{
    let vtr: u64 = hw.regs.ich.vtr;
    proof {
        lemma_vtr_fields(vtr);
    }
    ((vtr & 0x1f) + 1) as usize
}

/// The number of preemption bits that the hardware reports.
pub fn detect_gic_pri_bits(hw: &Hardware) -> (res: usize)
    ensures
        res == vtr_pri_bits(hw@.ich.vtr),
        1 <= res <= 8,
{
    let vtr: u64 = hw.regs.ich.vtr;
    proof {
        lemma_vtr_fields(vtr);
    }
    (((vtr >> 26) & 0x7) + 1) as usize
}

/// The guest registers of a vCPU, laid out as the trap entry code stores them at
/// the top of the vCPU's stack.
#[derive(Debug, Clone, Copy)]
pub struct TrapFrame {
    pub x: [u64; 31],
    pub elr: u64,
    pub spsr: u64,
}

/// The size that the trap entry code reserves for a [`TrapFrame`]: 34 words, the
/// last of them padding, which keeps the stack pointer 16-byte aligned.
pub const TRAP_FRAME_SIZE: usize = 272;

/// What the stack pointer is a multiple of.
pub const STACK_ALIGN: usize = 16;

/// `SPSR_EL2` of a vCPU that starts: EL1h with all interrupts masked.
pub const SPSR_EL1H_MASKED: u64 = 0x3c5;

/// The value of a [`TrapFrame`].
#[verifier::ext_equal]
pub struct TrapFrameView {
    pub x: Seq<u64>,
    pub elr: u64,
    pub spsr: u64,
}

impl View for TrapFrame {
    type V = TrapFrameView;

    open spec fn view(&self) -> TrapFrameView {
        TrapFrameView { x: self.x@, elr: self.elr, spsr: self.spsr }
    }
}

impl TrapFrameView {
    /// The frame of a vCPU that starts at `entry` with `x0` in its first register.
    pub open spec fn boot(entry: u64, x0: u64) -> TrapFrameView {
        TrapFrameView {
            x: Seq::new(31, |i: int| if i == 0 { x0 } else { 0u64 }),
            elr: entry,
            spsr: SPSR_EL1H_MASKED,
        }
    }

    /// The same frame with another value in register `i`.
    pub open spec fn with_x(self, i: int, value: u64) -> TrapFrameView {
        TrapFrameView { x: self.x.update(i, value), ..self }
    }
}

impl Default for TrapFrame {
    fn default() -> (res: Self)
        ensures
            res@ == (TrapFrameView { x: Seq::new(31, |i: int| 0u64), elr: 0, spsr: 0 }),
    {
        TrapFrame { x: [0; 31], elr: 0, spsr: 0 }
    }
}

impl TrapFrame {
    /// The frame of a vCPU that starts at `entry` with `x0` in its first register.
    pub fn boot(entry: u64, x0: u64) -> (res: Self)
        ensures
            res@ == TrapFrameView::boot(entry, x0),
    {
        let mut frame = TrapFrame { x: [0; 31], elr: entry, spsr: SPSR_EL1H_MASKED };
        frame.x[0] = x0;
        frame
    }
}

/// The architecture state of a vCPU.
#[derive(Debug, Clone, Copy)]
pub struct ArchVCpu {
    /// The address just past the vCPU's private stack.
    pub stack_top: usize,
    /// The guest registers, which lie at the top of the stack.
    pub frame: TrapFrame,
    pub el1_regs: El1SysRegs,
    pub gic_state: GicState,
}

/// The value of an [`ArchVCpu`].
#[verifier::ext_equal]
pub struct ArchVCpuView {
    pub stack_top: usize,
    pub frame: TrapFrameView,
    pub el1_regs: El1SysRegs,
    pub gic_state: GicStateView,
}

impl View for ArchVCpu {
    type V = ArchVCpuView;

    open spec fn view(&self) -> ArchVCpuView {
        ArchVCpuView {
            stack_top: self.stack_top,
            frame: self.frame@,
            el1_regs: self.el1_regs,
            gic_state: self.gic_state@,
        }
    }
}

impl ArchVCpuView {
    /// A new vCPU on hardware with the given `ICH_VTR_EL2`.
    pub open spec fn fresh(stack_top: usize, vtr: u64) -> ArchVCpuView {
        ArchVCpuView {
            stack_top,
            frame: TrapFrameView { x: Seq::new(31, |i: int| 0u64), elr: 0, spsr: 0 },
            el1_regs: El1SysRegs::at_reset(),
            gic_state: GicStateView::fresh(vtr_lr_count(vtr), vtr),
        }
    }

    /// The stack takes the frame.
    pub open spec fn wf(self) -> bool {
        stack_fits(self.stack_top)
    }
}

/// A stack that ends at `top` has room for the frame, and the frame at its top has an
/// address that the stack pointer may hold.
pub open spec fn stack_fits(top: usize) -> bool {
    top >= TRAP_FRAME_SIZE && top % STACK_ALIGN == 0
}

impl ArchVCpu {
    /// A new vCPU whose stack, all zero, ends at `stack_top`.
    pub fn new(stack_top: usize, hw: &Hardware) -> (res: Self)
        ensures
            res@ == ArchVCpuView::fresh(stack_top, hw@.ich.vtr),
    {
        let lr_count: usize = detect_gic_lr_count(hw);
        ArchVCpu {
            stack_top,
            frame: TrapFrame::default(),
            el1_regs: El1SysRegs::reset(),
            gic_state: GicState::new_with_lr_count(lr_count, hw),
        }
    }

    /// The guest registers.
    pub fn trapframe(&mut self) -> (res: &mut TrapFrame)
        ensures
            res@ == old(self)@.frame,
            final(self)@ == (ArchVCpuView { frame: final(res)@, ..old(self)@ }),
    {
        &mut self.frame
    }

    /// The address of the guest registers, from which the return to the guest
    /// loads them and which it leaves in the stack pointer.
    pub fn trapframe_ptr(&self) -> (res: usize)
        requires
            self@.wf(),
        ensures
            res == self@.stack_top - TRAP_FRAME_SIZE,
            res % STACK_ALIGN == 0,
    {
        self.stack_top - TRAP_FRAME_SIZE
    }

    /// Saves the pCPU's registers as those of this vCPU.
    pub fn save(&mut self, hw: &mut Hardware)
        ensures
            final(self)@ == (ArchVCpuView {
                el1_regs: old(hw)@.el1.masked(),
                gic_state: old(self)@.gic_state.saved(old(hw)@.ich),
                ..old(self)@
            }),
            final(hw)@ == old(hw)@.with_cntv_ctl(old(hw)@.el1.masked().cntv_ctl_el0),
    {
        self.el1_regs.save_from_hardware(hw);
        self.gic_state.save_from_hardware(hw);
    }

    /// Puts the EL1 registers back to their values at reset.
    pub fn reset_el1_regs(&mut self)
        ensures
            final(self)@ == (ArchVCpuView { el1_regs: El1SysRegs::at_reset(), ..old(self)@ }),
    {
        self.el1_regs = El1SysRegs::reset();
    }

    /// Puts the virtual interrupt controller back to its initial state.
    pub fn reset_gic_state(&mut self, hw: &Hardware)
        ensures
            final(self)@ == (ArchVCpuView {
                gic_state: GicStateView::fresh(vtr_lr_count(hw@.ich.vtr), hw@.ich.vtr),
                ..old(self)@
            }),
    {
        let lr_count: usize = detect_gic_lr_count(hw);
        self.gic_state = GicState::new_with_lr_count(lr_count, hw);
    }
}

// ---------------------------------------------------------------------------
// Redistributor registers
// ---------------------------------------------------------------------------

/// The private interrupts that belong to the hypervisor: the EL2 timer's, the
/// maintenance interrupt and the SGI for events.
pub const HV_PRIVATE_IRQS: u32 = 0x600_0080;

/// The operations that let the EL2 timer's interrupt through, whatever the guest
/// asked for.
pub open spec fn el2_timer_ops(gicr_base: usize) -> Seq<Op> {
    seq![
        Op::Write32 {
            addr: (gicr_base + GICR_SGI_BASE + GICR_ISENABLER) as usize,
            word: EL2_TIMER_BIT,
        },
        Op::Write8 {
            addr: (gicr_base + GICR_SGI_BASE + GICR_IPRIORITYR + 26) as usize,
            byte: EL2_TIMER_PRIORITY,
        },
    ]
}

/// The operations that write the first `n` priority registers.
pub open spec fn priority_ops(gicr_base: usize, priorities: Seq<u32>, n: int) -> Seq<Op>
    decreases n,
{
    if n <= 0 {
        Seq::empty()
    } else {
        priority_ops(gicr_base, priorities, n - 1).push(
            Op::Write32 {
                addr: (gicr_base + GICR_SGI_BASE + GICR_IPRIORITYR + (n - 1) * 4) as usize,
                word: priorities[n - 1],
            },
        )
    }
}

/// The operations that write a vCPU's redistributor shadow back.  The interrupts of
/// the hypervisor are not among those that are disabled, and the EL2 timer's is
/// enabled and keeps its priority.
pub open spec fn vgicr_ops(gicr_base: usize, vgicr: VirtualGicrView) -> Seq<Op> {
    if !vgicr.initialized {
        el2_timer_ops(gicr_base)
    } else {
        let sgi_base = gicr_base + GICR_SGI_BASE;
        el2_timer_ops(gicr_base).push(
            Op::Write32 { addr: (sgi_base + GICR_IGROUPR) as usize, word: vgicr.igroupr },
        ).push(
            Op::Write32 { addr: (sgi_base + GICR_ICENABLER) as usize, word: !HV_PRIVATE_IRQS },
        ).push(
            Op::Write32 {
                addr: (sgi_base + GICR_ISENABLER) as usize,
                word: vgicr.isenabler | EL2_TIMER_BIT,
            },
        ) + priority_ops(gicr_base, vgicr.ipriorityr, 8).push(
            Op::Write8 {
                addr: (sgi_base + GICR_IPRIORITYR + 26) as usize,
                byte: EL2_TIMER_PRIORITY,
            },
        ).push(
            Op::Write32 { addr: (sgi_base + GICR_ICFGR + 4) as usize, word: vgicr.icfgr[1] },
        )
    }
}

/// Writes a vCPU's redistributor shadow back to the redistributor of its pCPU.  The
/// EL2 timer's interrupt is let through even if the guest has written nothing yet.
pub fn restore_vgicr(hv: &Hypervisor, vcpu: &VCpu, hw: &mut Hardware)
    requires
        hv@.wf(),
        vcpu@.affinity matches Some(cpu) && cpu < hv@.cpus.len(),
    ensures
        final(hw)@ == old(hw)@.all_ops(
            vgicr_ops(
                hv@.gicr_bases[vcpu@.affinity->0 as int],
                vcpu@.arch.gic_state.vgicr,
            ),
        ),
{
    proof {
        crate::hypervisor::lemma_wf_sizes(hv@);
    }
    let pcpu: usize = vcpu.get_pcpu_affinity();
    let base: usize = hv.gicr_base(pcpu);
    assert(hv@.gicr_bases[pcpu as int] + PER_GICR_SIZE <= usize::MAX);
    let sgi_base: usize = base + GICR_SGI_BASE;
    let vgicr = &vcpu.arch.gic_state.vgicr;
    let ghost start = hw@;
    hw.push(Op::Write32 { addr: sgi_base + GICR_ISENABLER, word: EL2_TIMER_BIT });
    hw.push(Op::Write8 { addr: sgi_base + GICR_IPRIORITYR + 26, byte: EL2_TIMER_PRIORITY });
    assert(hw@ == start.all_ops(el2_timer_ops(base)));
    if !vgicr.initialized {
        return;
    }
    hw.push(Op::Write32 { addr: sgi_base + GICR_IGROUPR, word: vgicr.igroupr });
    hw.push(Op::Write32 { addr: sgi_base + GICR_ICENABLER, word: !HV_PRIVATE_IRQS });
    hw.push(
        Op::Write32 { addr: sgi_base + GICR_ISENABLER, word: vgicr.isenabler | EL2_TIMER_BIT },
    );
    let ghost middle = hw@;
    let mut i: usize = 0;
    assert(hw@ == middle.all_ops(priority_ops(base, vgicr@.ipriorityr, 0)));
    while i < 8
        invariant
            i <= 8,
            sgi_base == base + GICR_SGI_BASE,
            base + PER_GICR_SIZE <= usize::MAX,
            hw@ == middle.all_ops(priority_ops(base, vgicr@.ipriorityr, i as int)),
        decreases 8 - i,
    {
        let ghost before = hw@;
        hw.push(
            Op::Write32 { addr: sgi_base + GICR_IPRIORITYR + i * 4, word: vgicr.ipriorityr[i] },
        );
        i = i + 1;
        assert(hw@.ops =~= middle.ops + priority_ops(base, vgicr@.ipriorityr, i as int));
    }
    hw.push(Op::Write8 { addr: sgi_base + GICR_IPRIORITYR + 26, byte: EL2_TIMER_PRIORITY });
    hw.push(Op::Write32 { addr: sgi_base + GICR_ICFGR + 4, word: vgicr.icfgr[1] });
    assert(hw@.ops =~= start.ops + vgicr_ops(base, vgicr@));
}

// ---------------------------------------------------------------------------
// Starting a vCPU
// ---------------------------------------------------------------------------

/// What PSCI answers if a CPU is on already.
pub const PSCI_ALREADY_ON: isize = -4;

impl Sys {
    /// A stopped vCPU was started: it is ready, and on its way to its pCPU.
    pub open spec fn started(self, cpu: usize, id: usize) -> Sys {
        if !self.hv.vcpus[id].moves(VCpuState::Stopped, VCpuState::Ready) {
            self
        } else {
            let ready = Sys {
                hv: self.hv.tried(id, VCpuState::Stopped, VCpuState::Ready),
                ..self
            };
            let target = self.hv.vcpus[id].affinity->0;
            if target != cpu {
                ready.delivered(target, id)
            } else {
                ready.placed(cpu, id)
            }
        }
    }
}

/// Starts a stopped vCPU and hands it to the pCPU that it is bound to.  Returns 0, or
/// [`PSCI_ALREADY_ON`] if it is not stopped.
pub fn arch_wakeup_vcpu(hv: &mut Hypervisor, cpu: usize, hw: &mut Hardware, vcpu: usize) -> (res:
    isize)
    requires
        old(hv)@.wf(),
        cpu < old(hv)@.cpus.len(),
        old(hv)@.vcpus.contains_key(vcpu),
    ensures
        res == (if old(hv)@.vcpus[vcpu].state == VCpuState::Stopped {
            0
        } else {
            PSCI_ALREADY_ON
        }),
        (Sys { hv: final(hv)@, hw: final(hw)@ }) == (Sys { hv: old(hv)@, hw: old(hw)@ }).started(
            cpu,
            vcpu,
        ),
        final(hv)@.wf(),
        final(hv)@.cpus.len() == old(hv)@.cpus.len(),
{
    proof {
        crate::hypervisor::lemma_vcpu_ok(hv@, vcpu);
    }
    if !hv.transition(vcpu, VCpuState::Stopped, VCpuState::Ready) {
        assert(hv@ =~= old(hv)@);
        return PSCI_ALREADY_ON;
    }
    let target: usize = hv.vcpu(vcpu).get_pcpu_affinity();
    if target != cpu {
        deliver_vcpu_to_pcpu(hv, hw, target, vcpu);
    } else {
        enqueue_vcpu_on_affinity_pcpu(hv, cpu, hw, vcpu);
    }
    0
}

} // verus!

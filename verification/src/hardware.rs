//! The hardware as the hypervisor sees it from one pCPU: the values of its
//! system registers, and the operations it has asked for.
//!
//! The caller loads the registers before it calls into the library.  Afterwards
//! it writes them back and then performs the operations, in order.

use vstd::prelude::*;
use crate::arch::aarch64::vcpu::El1SysRegs;

verus! {

/// The number of list registers that the architecture has room for.
pub const MAX_GIC_LRS: usize = 16;

/// The registers of the virtual CPU interface (`ICH_*_EL2`).
#[derive(Debug, Clone, Copy)]
pub struct IchRegs {
    pub vtr: u64,
    pub vmcr: u64,
    pub hcr: u64,
    pub ap1r: [u64; 4],
    pub lr: [u64; 16],
}

/// The value of an [`IchRegs`].
#[verifier::ext_equal]
pub struct IchView {
    pub vtr: u64,
    pub vmcr: u64,
    pub hcr: u64,
    pub ap1r: Seq<u64>,
    pub lr: Seq<u64>,
}

impl View for IchRegs {
    type V = IchView;

    open spec fn view(&self) -> IchView {
        IchView {
            vtr: self.vtr,
            vmcr: self.vmcr,
            hcr: self.hcr,
            ap1r: self.ap1r@,
            lr: self.lr@,
        }
    }
}

/// The registers of the physical CPU interface (`ICC_*_EL1`).
#[derive(Debug, Clone, Copy, PartialEq, Eq, Structural)]
pub struct IccRegs {
    pub ctlr: u64,
    pub pmr: u64,
    pub igrpen1: u64,
}

/// The system counter and the EL2 physical timer.
#[derive(Debug, Clone, Copy, PartialEq, Eq, Structural)]
pub struct TimerRegs {
    pub cntpct_el0: u64,
    pub cntfrq_el0: u64,
    pub cnthp_tval_el2: u64,
    pub cnthp_ctl_el2: u64,
}

/// Identification and control registers that EL2 uses.
#[derive(Debug, Clone, Copy, PartialEq, Eq, Structural)]
pub struct El2Regs {
    pub mpidr_el1: u64,
    pub vmpidr_el2: u64,
    pub tpidr_el2: u64,
    pub pmcr_el0: u64,
}

/// The system registers of one pCPU.
#[derive(Debug, Clone, Copy)]
pub struct CpuRegs {
    pub el1: El1SysRegs,
    pub ich: IchRegs,
    pub icc: IccRegs,
    pub timer: TimerRegs,
    pub el2: El2Regs,
}

/// An operation that the caller performs on the hypervisor's behalf.
#[derive(Debug, Clone, Copy, PartialEq, Eq, Structural)]
pub enum Op {
    /// Drop the priority of an interrupt (write `ICC_EOIR1_EL1`).
    Eoir { irq: usize },
    /// Deactivate an interrupt (write `ICC_DIR_EL1`).
    Dir { irq: usize },
    /// Raise an SGI on a pCPU.
    RaiseSgi { cpu: usize, sgi: usize },
    /// Hand the finished virtio requests of this pCPU to its guest.
    HandleVirtioIrq,
    /// Act on an event that is specific to the architecture.
    ArchEvent { event: usize },
    /// Write a byte to a device register.
    Write8 { addr: usize, byte: u8 },
    /// Write a word to a device register.
    Write32 { addr: usize, word: u32 },
    /// Turn stage-2 translation on for this pCPU.
    ActivateVmm,
    /// Switch this pCPU to the stage-2 tables with the given root.
    ActivateGpm { root: usize },
    /// Drop what the translation service holds for a zone.
    GitsReset { zone_id: usize },
    /// Take the PCI devices of a zone back.
    ReleaseDevices { zone_id: usize },
    /// Let the SGI for events through on this pCPU.
    EnableIpi,
    /// Turn affinity routing on in the distributor.
    EnableAffinityRouting,
    /// Let interrupts through on this pCPU.
    EnableIrqs,
}

/// The registers of this pCPU and the operations asked for so far.
pub struct Hardware {
    pub regs: CpuRegs,
    pub ops: Vec<Op>,
}

/// The value of a [`Hardware`].
#[verifier::ext_equal]
pub struct HardwareView {
    pub el1: El1SysRegs,
    pub ich: IchView,
    pub icc: IccRegs,
    pub timer: TimerRegs,
    pub el2: El2Regs,
    pub ops: Seq<Op>,
}

impl View for Hardware {
    type V = HardwareView;

    open spec fn view(&self) -> HardwareView {
        HardwareView {
            el1: self.regs.el1,
            ich: self.regs.ich@,
            icc: self.regs.icc,
            timer: self.regs.timer,
            el2: self.regs.el2,
            ops: self.ops@,
        }
    }
}

impl HardwareView {
    /// The same hardware with one more operation asked for.
    pub open spec fn op(self, op: Op) -> HardwareView {
        HardwareView { ops: self.ops.push(op), ..self }
    }

    /// The same hardware with further operations asked for.
    pub open spec fn all_ops(self, ops: Seq<Op>) -> HardwareView {
        HardwareView { ops: self.ops + ops, ..self }
    }

    /// The same hardware with another value in `CNTV_CTL_EL0`.
    pub open spec fn with_cntv_ctl(self, value: u64) -> HardwareView {
        HardwareView { el1: El1SysRegs { cntv_ctl_el0: value, ..self.el1 }, ..self }
    }

    /// The same hardware with another value in `ICH_HCR_EL2`.
    pub open spec fn with_hcr(self, value: u64) -> HardwareView {
        HardwareView { ich: IchView { hcr: value, ..self.ich }, ..self }
    }

    /// The same hardware with another value in list register `id`.
    pub open spec fn with_lr(self, id: int, value: u64) -> HardwareView {
        HardwareView { ich: IchView { lr: self.ich.lr.update(id, value), ..self.ich }, ..self }
    }

    /// The same hardware with the EL2 timer set to fire after `tval` counts.
    pub open spec fn with_el2_timer(self, tval: u64) -> HardwareView {
        HardwareView {
            timer: TimerRegs { cnthp_tval_el2: tval, cnthp_ctl_el2: 1, ..self.timer },
            ..self
        }
    }
}

impl Hardware {
    /// A pCPU with the given registers, of which nothing has been asked yet.
    pub fn new(regs: CpuRegs) -> (res: Self)
        ensures
            res.regs == regs,
            res@.ops == Seq::<Op>::empty(),
    {
        Hardware { regs, ops: Vec::new() }
    }

    /// Asks for one operation.
    pub fn push(&mut self, op: Op)
        ensures
            final(self)@ == old(self)@.op(op),
    {
        self.ops.push(op);
    }

    /// Writes `CNTV_CTL_EL0`.
    pub fn write_cntv_ctl(&mut self, value: u64)
        ensures
            final(self)@ == old(self)@.with_cntv_ctl(value),
    {
        self.regs.el1.cntv_ctl_el0 = value;
    }

    /// Writes `ICH_HCR_EL2`.
    pub fn write_hcr(&mut self, value: u64)
        ensures
            final(self)@ == old(self)@.with_hcr(value),
    {
        self.regs.ich.hcr = value;
    }

    /// Sets the EL2 timer to fire after `tval` counts.
    pub fn write_el2_timer(&mut self, tval: u64)
        ensures
            final(self)@ == old(self)@.with_el2_timer(tval),
    {
        self.regs.timer.cnthp_tval_el2 = tval;
        self.regs.timer.cnthp_ctl_el2 = 1;
    }
}

} // verus!

//! The GICv3: list registers, interrupt routing and interrupt handling.

use vstd::prelude::*;
use crate::event::{check_events, send_event, EventOutcome, IPI_EVENT_RESCHED};
use crate::hardware::{Hardware, HardwareView, IccRegs, IchView, Op};
use crate::hypercall::SGI_IPI_ID;
use crate::hypervisor::{HvView, Hypervisor, Sys};
use crate::vcpu::{PendingIrq, VCpuState, CNTV_IRQ};
use crate::zone::{Zone, ZoneView};
use self::gicd::{GICD_FRAME_SIZE, GICD_ICACTIVER, GICD_ICENABLER};
use self::gicr::PER_GICR_SIZE;

pub mod gicd;
pub mod gicr;
pub mod gits;
pub mod vgic;

verus! {

/// The interrupt that says that list registers have become free.
pub const MAINTENACE_INTERRUPT: u64 = 25;

/// The interrupt of the EL2 physical timer, which drives the scheduler.
pub const EL2_TIMER_IRQ: usize = 26;

/// `ICH_HCR_EL2`: interrupt when at most one list register is in use.
pub const ICH_HCR_UIE: u64 = 2;

/// The bits of a list register that hold the virtual interrupt.
pub const LR_VIRTIRQ_MASK: u64 = 0xffff_ffff;

/// A list register whose end of interrupt is reported by a maintenance interrupt.
pub const LR_EOI: u64 = 0x200_0000_0000;

/// A list register in group 1.
pub const LR_GROUP1: u64 = 0x1000_0000_0000_0000;

/// A list register that is tied to a physical interrupt.
pub const LR_HW: u64 = 0x2000_0000_0000_0000;

/// A list register whose interrupt is pending.
pub const LR_PENDING: u64 = 0x4000_0000_0000_0000;

/// What a read of `ICC_IAR1_EL1` gives if no interrupt is pending.
pub const IAR_SPURIOUS: usize = 0x3ff;

/// Where the interrupt controller is.
#[derive(Debug, Clone, Copy, PartialEq, Eq, Structural)]
pub struct Gic {
    pub gicd_base: usize,
    pub gicr_base: usize,
    pub gicd_size: usize,
    pub gicr_size: usize,
    pub gits_base: usize,
    pub gits_size: usize,
}

/// The interrupt controller that a configuration names.
#[derive(Debug, Clone, Copy, PartialEq, Eq, Structural)]
pub enum GicConfig {
    Gicv2,
    Gicv3(Gic),
}

// ---------------------------------------------------------------------------
// List registers
// ---------------------------------------------------------------------------

/// The number of list registers in use, as `ICH_VTR_EL2` reports it.
pub open spec fn lr_num(vtr: u64) -> int {
    (vtr & 0xf) + 1
}

/// A list register can be overwritten: it holds no interrupt, and no end of
/// interrupt that is still to be reported.  `ICH_ELRSR_EL2` has its bit set.
pub open spec fn lr_free(lr: u64) -> bool {
    lr >> 62 == 0 && (lr & LR_HW != 0 || lr & LR_EOI == 0)
}

/// One of the first `n` list registers holds interrupt `irq`.
pub open spec fn lr_holds(lrs: Seq<u64>, n: int, irq: usize) -> bool {
    exists|i: int|
        0 <= i < n && !lr_free(#[trigger] lrs[i]) && lrs[i] & LR_VIRTIRQ_MASK == irq as u64
}

/// The first list register at or after `from` that is free; `n` if there is none.
pub open spec fn lr_first_free(lrs: Seq<u64>, n: int, from: int) -> int
    decreases n - from,
{
    if from >= n {
        n
    } else if lr_free(lrs[from]) {
        from
    } else {
        lr_first_free(lrs, n, from + 1)
    }
}

/// The list register for a pending interrupt.  A physical interrupt that is not an
/// SGI is tied to its list register.
pub open spec fn lr_value(irq: usize, is_hardware: bool) -> u64 {
    let base = irq as u64 | LR_GROUP1 | LR_PENDING;
    if (irq as u32) >= 16 && is_hardware {
        base | LR_HW | ((irq as u64) << 32)
    } else {
        base
    }
}

/// Facts about the fields of a register.
pub proof fn lemma_lr_num(vtr: u64)
    by (bit_vector)
    ensures
        vtr & 0xf <= 0xf,
{
}

/// [`lr_first_free`] finds the first free list register.
pub proof fn lemma_lr_first_free(lrs: Seq<u64>, n: int, from: int)
    requires
        0 <= from <= n,
    ensures
        from <= lr_first_free(lrs, n, from) <= n,
        lr_first_free(lrs, n, from) < n ==> lr_free(lrs[lr_first_free(lrs, n, from)]),
        forall|i: int| from <= i < lr_first_free(lrs, n, from) ==> !lr_free(#[trigger] lrs[i]),
    decreases n - from,
{
    if from < n && !lr_free(lrs[from]) {
        lemma_lr_first_free(lrs, n, from + 1);
    }
}

/// Reads a list register.
pub fn read_lr(hw: &Hardware, id: usize) -> (res: u64)
    requires
        id < 16,
    ensures
        res == hw@.ich.lr[id as int],
{
    hw.regs.ich.lr[id]
}

/// Writes a list register.
pub fn write_lr(hw: &mut Hardware, id: usize, val: u64)
    requires
        id < 16,
    ensures
        final(hw)@ == old(hw)@.with_lr(id as int, val),
{
    hw.regs.ich.lr[id] = val;
}

/// Whether a list register can be overwritten.
pub fn is_lr_free(lr: u64) -> (res: bool)
    ensures
        res == lr_free(lr),
{
    lr >> 62 == 0 && (lr & LR_HW != 0 || lr & LR_EOI == 0)
}

/// Whether an interrupt is a shared peripheral interrupt.
pub fn is_spi(irqn: u32) -> (res: bool)
    ensures
        res == (32 <= irqn < 1020),
{
    irqn > 31 && irqn < 1020
}

/// Whether an interrupt is software-generated.
pub fn is_sgi(irqn: u32) -> (res: bool)
    ensures
        res == (irqn < 16),
{
    irqn < 16
}

// ---------------------------------------------------------------------------
// Injection
// ---------------------------------------------------------------------------

impl HardwareView {
    /// The number of list registers.
    pub open spec fn lr_count(self) -> int {
        lr_num(self.ich.vtr)
    }

    /// The hardware with the underflow interrupt on or off.
    pub open spec fn with_uie(self, on: bool) -> HardwareView {
        if on {
            self.with_hcr(self.ich.hcr | ICH_HCR_UIE)
        } else {
            self.with_hcr(self.ich.hcr & !ICH_HCR_UIE)
        }
    }
}

impl Sys {
    /// An injection puts the interrupt in a list register, or finds it in one.
    pub open spec fn injects(self, irq: usize) -> bool {
        let n = self.hw.lr_count();
        lr_holds(self.hw.ich.lr, n, irq) || lr_first_free(self.hw.ich.lr, n, 0) < n
    }

    /// An interrupt was injected into the guest on pCPU `cpu`.  If a list register
    /// holds it already, nothing changes; otherwise it goes to the first free list
    /// register; if there is none, it waits for the vCPU that the scheduler runs,
    /// and the underflow interrupt is turned on.
    pub open spec fn injected(self, cpu: usize, irq: usize, is_hardware: bool) -> Sys {
        let n = self.hw.lr_count();
        let free = lr_first_free(self.hw.ich.lr, n, 0);
        if lr_holds(self.hw.ich.lr, n, irq) {
            self
        } else if free < n {
            Sys { hw: self.hw.with_lr(free, lr_value(irq, is_hardware)), ..self }
        } else {
            Sys {
                hv: match self.hv.cpus[cpu as int].sched.current {
                    Some(id) => self.hv.irq_pended(id, irq, is_hardware),
                    None => self.hv,
                },
                hw: self.hw.with_uie(true),
            }
        }
    }
}

/// Turns the underflow interrupt on or off.
fn enable_maintenace_interrupt(hw: &mut Hardware, is_enable: bool)
    ensures
        final(hw)@ == old(hw)@.with_uie(is_enable),
{
    let hcr: u64 = hw.regs.ich.hcr;
    if is_enable {
        hw.write_hcr(hcr | ICH_HCR_UIE);
    } else {
        hw.write_hcr(hcr & !ICH_HCR_UIE);
    }
}

/// Injects a virtual interrupt into the guest on this pCPU.  Returns whether a list
/// register holds it.
pub fn inject_irq(
    hv: &mut Hypervisor,
    cpu: usize,
    hw: &mut Hardware,
    irq_id: usize,
    is_hardware: bool,
) -> (res: bool)
    requires
        old(hv)@.wf(),
        cpu < old(hv)@.cpus.len(),
    ensures
        (Sys { hv: final(hv)@, hw: final(hw)@ }) == (Sys { hv: old(hv)@, hw: old(hw)@ }).injected(
            cpu,
            irq_id,
            is_hardware,
        ),
        res == (Sys { hv: old(hv)@, hw: old(hw)@ }).injects(irq_id),
        final(hv)@.wf(),
        final(hv)@.cpus.len() == old(hv)@.cpus.len(),
{
    let vtr: u64 = hw.regs.ich.vtr;
    proof {
        lemma_lr_num(vtr);
        crate::hypervisor::lemma_cpu_ok(hv@, cpu);
    }
    let count: usize = ((vtr & 0xf) + 1) as usize;
    let mut free: Option<usize> = None;
    let mut i: usize = 0;
    while i < count
        invariant
            i <= count <= 16,
            hw@ == old(hw)@,
            hv@ == old(hv)@,
            old(hv)@.wf(),
            count == hw@.lr_count(),
            forall|k: int|
                0 <= k < i ==> lr_free(#[trigger] hw@.ich.lr[k]) || hw@.ich.lr[k] & LR_VIRTIRQ_MASK
                    != irq_id as u64,
            match free {
                Some(f) => f < i && lr_first_free(hw@.ich.lr, count as int, 0) == f,
                None => lr_first_free(hw@.ich.lr, count as int, 0) == lr_first_free(
                    hw@.ich.lr,
                    count as int,
                    i as int,
                ),
            },
        decreases count - i,
    {
        let lr: u64 = read_lr(hw, i);
        if is_lr_free(lr) {
            if free.is_none() {
                free = Some(i);
            }
        } else if lr & LR_VIRTIRQ_MASK == irq_id as u64 {
            return true;
        }
        i = i + 1;
    }
    match free {
        None => {
            if let Some(vcpu) = hv.cpu(cpu).scheduler.current {
                hv.push_irq(vcpu, irq_id, is_hardware);
            }
            enable_maintenace_interrupt(hw, true);
            false
        },
        Some(id) => {
            let mut val: u64 = irq_id as u64 | LR_GROUP1 | LR_PENDING;
            if !is_sgi(irq_id as u32) && is_hardware {
                val = val | LR_HW | ((irq_id as u64) << 32);
            }
            write_lr(hw, id, val);
            true
        },
    }
}

impl Sys {
    /// Interrupts were injected one after the other; `deferred` grows by those that
    /// found no list register.
    pub open spec fn all_injected(
        self,
        cpu: usize,
        irqs: Seq<PendingIrq>,
        deferred: Seq<PendingIrq>,
    ) -> (Sys, Seq<PendingIrq>)
        decreases irqs.len(),
    {
        if irqs.len() == 0 {
            (self, deferred)
        } else {
            self.injected(cpu, irqs[0].irq_id, irqs[0].is_hardware).all_injected(
                cpu,
                irqs.subrange(1, irqs.len() as int),
                if self.injects(irqs[0].irq_id) {
                    deferred
                } else {
                    deferred.push(irqs[0])
                },
            )
        }
    }

    /// The maintenance interrupt was handled: what is pending for the vCPU that the
    /// scheduler runs goes to the list registers, and the underflow interrupt stays
    /// on exactly if not all of it found a place.
    pub open spec fn maintained(self, cpu: usize) -> Sys {
        match self.hv.cpus[cpu as int].sched.current {
            None => Sys { hw: self.hw.with_uie(false), ..self },
            Some(id) => {
                let pending = self.hv.vcpus[id].pending;
                let drained = Sys {
                    hv: self.hv.with_vcpu(id, self.hv.vcpus[id].drained()),
                    ..self
                };
                let (tried, deferred) = drained.all_injected(cpu, pending, Seq::empty());
                Sys {
                    hv: tried.hv.irqs_pended(id, deferred),
                    hw: tried.hw.with_uie(deferred.len() > 0),
                }
            },
        }
    }
}

impl HvView {
    /// Interrupts became pending for a vCPU, in order.
    pub open spec fn irqs_pended(self, id: usize, irqs: Seq<PendingIrq>) -> HvView
        decreases irqs.len(),
    {
        if irqs.len() == 0 {
            self
        } else {
            self.irq_pended(id, irqs[0].irq_id, irqs[0].is_hardware).irqs_pended(
                id,
                irqs.subrange(1, irqs.len() as int),
            )
        }
    }

    /// The vCPU that a shared interrupt is routed to, if that is another one than
    /// the vCPU that runs on pCPU `cpu`.
    pub open spec fn routed_elsewhere(self, cpu: usize, irq: usize) -> Option<usize> {
        let pc = self.cpus[cpu as int];
        match pc.zone {
            Some(zone) => match self.zones[zone].inner.irq_target(irq) {
                Some(target) => if irq >= 32 && pc.current_vcpu != Some(target)
                    && self.zones[zone].inner.vcpus.contains(target) {
                    Some(target)
                } else {
                    None
                },
                None => None,
            },
            None => None,
        }
    }

    /// An interrupt is pending for a vCPU that does not run; if it is blocked, it
    /// is woken and pCPU `cpu` schedules.
    pub open spec fn irq_pended_and_woken(
        self,
        cpu: usize,
        id: usize,
        irq: usize,
        is_hardware: bool,
    ) -> HvView {
        let pended = self.irq_pended(id, irq, is_hardware);
        if self.vcpus[id].state == VCpuState::Blocked {
            pended.woken(cpu, id).resched(cpu)
        } else {
            pended
        }
    }
}

impl Sys {
    /// Routing an interrupt puts it in a list register, or finds it in one.
    pub open spec fn routes(self, cpu: usize, irq: usize) -> bool {
        &&& self.hv.routed_elsewhere(cpu, irq) is None
        &&& self.hv.cpus[cpu as int].current_vcpu matches Some(id)
            && self.hv.vcpus[id].state == VCpuState::Running
            && self.injects(irq)
    }

    /// An interrupt that came to pCPU `cpu` was routed to its vCPU: injected if that
    /// vCPU runs here, else made pending.  A blocked vCPU of this pCPU is woken; a
    /// vCPU of another pCPU is left to that pCPU, which is sent an event.
    pub open spec fn routed(self, cpu: usize, irq: usize, is_hardware: bool) -> Sys {
        match self.hv.routed_elsewhere(cpu, irq) {
            Some(target) => {
                let home = self.hv.vcpus[target].affinity->0;
                if home == cpu {
                    Sys {
                        hv: self.hv.irq_pended_and_woken(cpu, target, irq, is_hardware),
                        ..self
                    }
                } else {
                    (Sys { hv: self.hv.irq_pended(target, irq, is_hardware), ..self }).sent(
                        home,
                        SGI_IPI_ID as usize,
                        IPI_EVENT_RESCHED,
                    )
                }
            },
            None => match self.hv.cpus[cpu as int].current_vcpu {
                Some(id) => if self.hv.vcpus[id].state == VCpuState::Running {
                    self.injected(cpu, irq, is_hardware)
                } else {
                    Sys { hv: self.hv.irq_pended_and_woken(cpu, id, irq, is_hardware), ..self }
                },
                None => self,
            },
        }
    }
}

/// Handles the maintenance interrupt: list registers have become free, so what is
/// pending for the running vCPU is injected.
fn handle_maintenace_interrupt(hv: &mut Hypervisor, cpu: usize, hw: &mut Hardware)
    requires
        old(hv)@.wf(),
        cpu < old(hv)@.cpus.len(),
    ensures
        (Sys { hv: final(hv)@, hw: final(hw)@ }) == (Sys {
            hv: old(hv)@,
            hw: old(hw)@,
        }).maintained(cpu),
        final(hv)@.wf(),
        final(hv)@.cpus.len() == old(hv)@.cpus.len(),
{
    let ghost start = Sys { hv: hv@, hw: hw@ };
    proof {
        crate::hypervisor::lemma_cpu_ok(hv@, cpu);
    }
    let vcpu: usize = match hv.cpu(cpu).scheduler.current {
        Some(vcpu) => vcpu,
        None => {
            enable_maintenace_interrupt(hw, false);
            return;
        },
    };
    proof {
        crate::hypervisor::lemma_vcpu_ok(hv@, vcpu);
        crate::hypervisor::lemma_wf_vcpu(hv@, vcpu, hv@.vcpus[vcpu].drained());
    }
    let pending: Vec<PendingIrq> = hv.vcpu_mut(vcpu).drain_pending_irqs();
    let mut deferred: Vec<PendingIrq> = Vec::new();
    let ghost goal = (Sys { hv: hv@, hw: hw@ }).all_injected(cpu, pending@, Seq::empty());
    let mut i: usize = 0;
    assert(pending@.subrange(0, pending@.len() as int) =~= pending@);
    while i < pending.len()
        invariant
            i <= pending@.len(),
            hv@.wf(),
            cpu < hv@.cpus.len(),
            hv@.cpus.len() == old(hv)@.cpus.len(),
            hv@.vcpus.contains_key(vcpu),
            goal == (Sys { hv: hv@, hw: hw@ }).all_injected(
                cpu,
                pending@.subrange(i as int, pending@.len() as int),
                deferred@,
            ),
        decreases pending@.len() - i,
    {
        let irq: PendingIrq = pending[i];
        proof {
            let rest = pending@.subrange(i as int, pending@.len() as int);
            assert(rest[0] == irq);
            assert(rest.subrange(1, rest.len() as int) =~= pending@.subrange(
                i + 1,
                pending@.len() as int,
            ));
            crate::hypervisor::lemma_cpu_ok(hv@, cpu);
        }
        let ghost here = Sys { hv: hv@, hw: hw@ };
        if !inject_irq(hv, cpu, hw, irq.irq_id, irq.is_hardware) {
            deferred.push(irq);
        }
        assert((Sys { hv: hv@, hw: hw@ }) == here.injected(cpu, irq.irq_id, irq.is_hardware));
        i = i + 1;
    }
    assert(goal == (Sys { hv: hv@, hw: hw@ }, deferred@));
    let ghost tried = hv@;
    if deferred.len() == 0 {
        enable_maintenace_interrupt(hw, false);
        assert(hv@ == tried.irqs_pended(vcpu, deferred@));
    } else {
        let mut k: usize = 0;
        assert(deferred@.subrange(0, deferred@.len() as int) =~= deferred@);
        while k < deferred.len()
            invariant
                k <= deferred@.len(),
                hv@.wf(),
                hv@.cpus.len() == old(hv)@.cpus.len(),
                hv@.vcpus.contains_key(vcpu),
                tried.irqs_pended(vcpu, deferred@) == hv@.irqs_pended(
                    vcpu,
                    deferred@.subrange(k as int, deferred@.len() as int),
                ),
            decreases deferred@.len() - k,
        {
            let irq: PendingIrq = deferred[k];
            proof {
                let rest = deferred@.subrange(k as int, deferred@.len() as int);
                assert(rest[0] == irq);
                assert(rest.subrange(1, rest.len() as int) =~= deferred@.subrange(
                    k + 1,
                    deferred@.len() as int,
                ));
            }
            hv.push_irq(vcpu, irq.irq_id, irq.is_hardware);
            k = k + 1;
        }
        enable_maintenace_interrupt(hw, true);
    }
}

/// Makes an interrupt pending for a vCPU of this pCPU that does not run.  If it is
/// blocked, it is woken and the pCPU schedules.
fn pend_and_wake(
    hv: &mut Hypervisor,
    cpu: usize,
    vcpu: usize,
    irq_id: usize,
    is_hardware: bool,
)
    requires
        old(hv)@.wf(),
        cpu < old(hv)@.cpus.len(),
        crate::hypervisor::bound(old(hv)@.vcpus, vcpu, cpu),
    ensures
        final(hv)@ == old(hv)@.irq_pended_and_woken(cpu, vcpu, irq_id, is_hardware),
        final(hv)@.wf(),
        final(hv)@.cpus.len() == old(hv)@.cpus.len(),
{
    hv.push_irq(vcpu, irq_id, is_hardware);
    if hv.vcpu(vcpu).state() == VCpuState::Blocked {
        if hv.wake(cpu, vcpu) {
            hv.set_resched(cpu);
        }
    }
}

/// Routes an interrupt that came to this pCPU to the vCPU that it is for.  SGIs and
/// PPIs are for the vCPU that runs here; a shared interrupt is for the vCPU that
/// the zone has routed it to.  Returns whether a list register holds it.
pub fn schedule_inject_irq(
    hv: &mut Hypervisor,
    cpu: usize,
    hw: &mut Hardware,
    irq_id: usize,
    is_hardware: bool,
) -> (res: bool)
    requires
        old(hv)@.wf(),
        cpu < old(hv)@.cpus.len(),
    ensures
        (Sys { hv: final(hv)@, hw: final(hw)@ }) == (Sys { hv: old(hv)@, hw: old(hw)@ }).routed(
            cpu,
            irq_id,
            is_hardware,
        ),
        res == (Sys { hv: old(hv)@, hw: old(hw)@ }).routes(cpu, irq_id),
        final(hv)@.wf(),
        final(hv)@.cpus.len() == old(hv)@.cpus.len(),
{
    proof {
        crate::hypervisor::lemma_cpu_ok(hv@, cpu);
    }
    if irq_id >= 32 {
        if let Some(zone_id) = hv.cpu(cpu).zone {
            proof {
                crate::hypervisor::lemma_zone_ok(hv@, zone_id);
            }
            let zone = hv.zone(zone_id);
            if let Some(target) = zone.read().irq_target(irq_id) {
                let is_current: bool = match hv.cpu(cpu).current_vcpu {
                    Some(vcpu) => vcpu == target,
                    None => false,
                };
                if !is_current && zone.read().has_vcpu(target) {
                    assert(hv@.vcpus.contains_key(target));
                    proof {
                        crate::hypervisor::lemma_vcpu_ok(hv@, target);
                    }
                    let home: usize = hv.vcpu(target).get_pcpu_affinity();
                    if home == cpu {
                        pend_and_wake(hv, cpu, target, irq_id, is_hardware);
                    } else {
                        hv.push_irq(target, irq_id, is_hardware);
                        send_event(hv, hw, home, SGI_IPI_ID as usize, IPI_EVENT_RESCHED);
                    }
                    return false;
                }
            }
        }
    }
    if let Some(vcpu) = hv.cpu(cpu).current_vcpu {
        if hv.vcpu(vcpu).state() == VCpuState::Running {
            return inject_irq(hv, cpu, hw, irq_id, is_hardware);
        }
        pend_and_wake(hv, cpu, vcpu, irq_id, is_hardware);
        return false;
    }
    false
}

// ---------------------------------------------------------------------------
// Interrupts
// ---------------------------------------------------------------------------

/// What follows from an interrupt.
#[derive(Debug, Clone, Copy, PartialEq, Eq, Structural)]
pub enum IrqStep {
    /// No interrupt was pending.
    Done,
    /// The interrupt was handled; the next one can be acknowledged.
    Handled,
    /// The pCPU starts its zone's guest.
    Run,
    /// The pCPU goes idle.
    Idle,
}

/// An interrupt is deactivated by the hypervisor itself: SGIs, the maintenance
/// interrupt and the EL2 timer.  All others are deactivated when their guest ends
/// them.
pub open spec fn hypervisor_deactivates(irq: usize) -> bool {
    irq < 16 || irq == 25 || irq == EL2_TIMER_IRQ
}

impl HardwareView {
    /// The priority of an interrupt was dropped, and the interrupt deactivated if
    /// that is up to the hypervisor.
    pub open spec fn deactivated(self, irq: usize) -> HardwareView {
        let dropped = self.op(Op::Eoir { irq });
        if hypervisor_deactivates(irq) {
            dropped.op(Op::Dir { irq })
        } else {
            dropped
        }
    }
}

impl Sys {
    /// An SGI was handled: it is an event for the hypervisor, or else for the guest.
    pub open spec fn sgi_handled(self, cpu: usize, irq: usize) -> (Sys, IrqStep) {
        let quiet = Sys { hw: self.hw.deactivated(irq), ..self };
        if irq == SGI_IPI_ID {
            let (checked, outcome) = quiet.events_checked(cpu, false);
            match outcome {
                EventOutcome::Run => (checked, IrqStep::Run),
                EventOutcome::Idle => (checked, IrqStep::Idle),
                EventOutcome::Done { handled } => if handled {
                    (checked, IrqStep::Handled)
                } else {
                    (checked.routed(cpu, irq, false), IrqStep::Handled)
                },
            }
        } else {
            (quiet.routed(cpu, irq, false), IrqStep::Handled)
        }
    }

    /// A guest's PPI or SPI was handled.  The virtual timer's interrupt stays active
    /// until its guest ends it; if no list register holds it, it is deactivated here
    /// and the timer is masked, since it would fire again at once.
    pub open spec fn device_irq_handled(self, cpu: usize, irq: usize) -> Sys {
        let routed = self.routed(cpu, irq, true);
        let quiet = routed.hw.deactivated(irq);
        if irq == CNTV_IRQ && !self.routes(cpu, irq) {
            Sys {
                hw: quiet.op(Op::Dir { irq }).with_cntv_ctl(
                    quiet.el1.cntv_ctl_el0 | crate::arch::aarch64::vcpu::CNTV_IMASK,
                ),
                ..routed
            }
        } else {
            Sys { hw: quiet, ..routed }
        }
    }

    /// An acknowledged interrupt was handled.
    pub open spec fn irq_handled(self, cpu: usize, irq: usize) -> (Sys, IrqStep) {
        if irq < 8 {
            self.sgi_handled(cpu, irq)
        } else if irq < 16 {
            (Sys { hw: self.hw.deactivated(irq), ..self }, IrqStep::Handled)
        } else if irq == EL2_TIMER_IRQ {
            let ticked = self.ticked(cpu);
            (Sys { hw: ticked.hw.deactivated(irq), ..ticked }, IrqStep::Handled)
        } else if irq == 25 {
            let maintained = self.maintained(cpu);
            (Sys { hw: maintained.hw.deactivated(irq), ..maintained }, IrqStep::Handled)
        } else {
            (self.device_irq_handled(cpu, irq), IrqStep::Handled)
        }
    }
}

/// The interrupt that a read of `ICC_IAR1_EL1` acknowledged.
pub fn pending_irq(iar: usize) -> (res: Option<usize>)
    ensures
        res == (if iar == IAR_SPURIOUS {
            None
        } else {
            Some(iar)
        }),
{
    if iar == IAR_SPURIOUS {
        None
    } else {
        Some(iar)
    }
}

/// Drops the priority of an interrupt, and deactivates it if that is up to the
/// hypervisor.
fn deactivate_irq(hw: &mut Hardware, irq_id: usize)
    ensures
        final(hw)@ == old(hw)@.deactivated(irq_id),
{
    hw.push(Op::Eoir { irq: irq_id });
    if irq_id < 16 || irq_id == MAINTENACE_INTERRUPT as usize || irq_id == EL2_TIMER_IRQ {
        hw.push(Op::Dir { irq: irq_id });
    }
}

/// Handles one interrupt, given what the read of `ICC_IAR1_EL1` returned.  The caller
/// goes on with the next one for as long as the result is `Handled`.
pub fn gicv3_handle_irq_el1(
    hv: &mut Hypervisor,
    cpu: usize,
    hw: &mut Hardware,
    iar: usize,
) -> (res: IrqStep)
    requires
        old(hv)@.wf(),
        cpu < old(hv)@.cpus.len(),
    ensures
        iar == IAR_SPURIOUS ==> {
            &&& res == IrqStep::Done
            &&& final(hv)@ == old(hv)@
            &&& final(hw)@ == old(hw)@
        },
        iar != IAR_SPURIOUS ==> (Sys { hv: final(hv)@, hw: final(hw)@ }, res) == (Sys {
            hv: old(hv)@,
            hw: old(hw)@,
        }).irq_handled(cpu, iar),
        final(hv)@.wf(),
        final(hv)@.cpus.len() == old(hv)@.cpus.len(),
{
    let ghost start = Sys { hv: hv@, hw: hw@ };
    let irq_id: usize = match pending_irq(iar) {
        Some(irq_id) => irq_id,
        None => {
            return IrqStep::Done;
        },
    };
    if irq_id < 8 {
        deactivate_irq(hw, irq_id);
        let mut ipi_handled: bool = false;
        if irq_id == SGI_IPI_ID as usize {
            match check_events(hv, cpu, hw) {
                EventOutcome::Run => {
                    return IrqStep::Run;
                },
                EventOutcome::Idle => {
                    return IrqStep::Idle;
                },
                EventOutcome::Done { handled } => {
                    ipi_handled = handled;
                },
            }
        }
        if !ipi_handled {
            let written: bool = schedule_inject_irq(hv, cpu, hw, irq_id, false);
        }
    } else if irq_id < 16 {
        deactivate_irq(hw, irq_id);
    } else if irq_id == EL2_TIMER_IRQ {
        crate::arch::aarch64::timer::sched_tick_handler(hv, cpu, hw);
        deactivate_irq(hw, irq_id);
    } else if irq_id == MAINTENACE_INTERRUPT as usize {
        handle_maintenace_interrupt(hv, cpu, hw);
        deactivate_irq(hw, irq_id);
    } else {
        let lr_written: bool = schedule_inject_irq(hv, cpu, hw, irq_id, true);
        deactivate_irq(hw, irq_id);
        if irq_id == CNTV_IRQ && !lr_written {
            hw.push(Op::Dir { irq: irq_id });
            let cntv_ctl: u64 = hw.regs.el1.cntv_ctl_el0;
            hw.write_cntv_ctl(cntv_ctl | crate::arch::aarch64::vcpu::CNTV_IMASK);
        }
    }
    IrqStep::Handled
}

// ---------------------------------------------------------------------------
// Setting up
// ---------------------------------------------------------------------------

/// `ICC_CTLR_EL1`: an end of interrupt drops the priority only.
pub const ICC_CTLR_EOIMODE: u64 = 2;

/// `ICC_PMR_EL1` while the hypervisor runs.
pub const ICC_PMR_OPEN: u64 = 0xf0;

impl HardwareView {
    /// Active-priority register `i` is there to be cleared.
    pub open spec fn clears_ap1r(self, i: int) -> bool {
        let bits = (self.ich.vtr >> 29) + 1;
        (i == 0 && bits >= 5) || (i == 1 && bits >= 6) || (2 <= i < 4 && bits > 6)
    }

    /// Nothing is pending or active for a guest.
    pub open spec fn pending_cleared(self) -> HardwareView {
        HardwareView {
            ich: IchView {
                lr: Seq::new(
                    16,
                    |i: int|
                        if i < self.lr_count() {
                            0
                        } else {
                            self.ich.lr[i]
                        },
                ),
                ap1r: Seq::new(
                    4,
                    |i: int|
                        if self.clears_ap1r(i) {
                            0
                        } else {
                            self.ich.ap1r[i]
                        },
                ),
                ..self.ich
            },
            ..self
        }
    }

    /// The CPU interface is set up: an end of interrupt only drops the priority, all
    /// but the lowest priorities get through, group 1 is on, and the virtual interface
    /// is on and empty, with the priority mask that the physical one had.
    pub open spec fn gicc_set_up(self) -> HardwareView {
        let cleared = self.pending_cleared();
        HardwareView {
            icc: IccRegs { ctlr: ICC_CTLR_EOIMODE, pmr: ICC_PMR_OPEN, igrpen1: 1 },
            ich: IchView { vmcr: ((self.icc.pmr & 0xff) << 24) | 2, hcr: 1, ..cleared.ich },
            ..cleared
        }
    }

    /// The interrupts of a zone are disabled and inactive, and the translation service
    /// has dropped what it held for the zone.
    pub open spec fn irqchip_reset(self, gic: Gic, zone: ZoneView) -> HardwareView {
        let reset = self.all_ops(reset_ops(gic.gicd_base, zone.inner.irq_bitmap, 32));
        if gic.gits_size != 0 {
            reset.op(Op::GitsReset { zone_id: zone.id })
        } else {
            reset
        }
    }
}

/// The operations that disable and deactivate the shared interrupts in the words of a
/// bitmap below `n`.
pub open spec fn reset_ops(gicd_base: usize, bitmap: Seq<u32>, n: int) -> Seq<Op>
    decreases n,
{
    if n <= 1 {
        Seq::empty()
    } else {
        reset_ops(gicd_base, bitmap, n - 1).push(
            Op::Write32 {
                addr: (gicd_base + GICD_ICENABLER + (n - 1) * 4) as usize,
                word: bitmap[n - 1],
            },
        ).push(
            Op::Write32 {
                addr: (gicd_base + GICD_ICACTIVER + (n - 1) * 4) as usize,
                word: bitmap[n - 1],
            },
        )
    }
}

/// Clears the list registers and the active priorities.
fn gicv3_clear_pending_irqs(hw: &mut Hardware)
    ensures
        final(hw)@ == old(hw)@.pending_cleared(),
{
    let vtr: u64 = hw.regs.ich.vtr;
    proof {
        lemma_lr_num(vtr);
        assert(vtr >> 29 <= 0x7_ffff_ffff) by (bit_vector);
    }
    let count: usize = ((vtr & 0xf) + 1) as usize;
    let mut i: usize = 0;
    while i < count
        invariant
            i <= count <= 16,
            count == old(hw)@.lr_count(),
            hw@.ich.lr.len() == 16,
            forall|k: int|
                0 <= k < 16 ==> #[trigger] hw@.ich.lr[k] == if k < i {
                    0
                } else {
                    old(hw)@.ich.lr[k]
                },
            hw@ == (HardwareView { ich: IchView { lr: hw@.ich.lr, ..old(hw)@.ich }, ..old(hw)@ }),
        decreases count - i,
    {
        write_lr(hw, i, 0);
        i = i + 1;
    }
    let num_priority_bits: u64 = (vtr >> 29) + 1;
    if num_priority_bits >= 5 {
        hw.regs.ich.ap1r[0] = 0;
    }
    if num_priority_bits >= 6 {
        hw.regs.ich.ap1r[1] = 0;
    }
    if num_priority_bits > 6 {
        hw.regs.ich.ap1r[2] = 0;
        hw.regs.ich.ap1r[3] = 0;
    }
    assert(hw@.ich.lr =~= old(hw)@.pending_cleared().ich.lr);
    assert(hw@.ich.ap1r =~= old(hw)@.pending_cleared().ich.ap1r);
}

/// Sets the CPU interface up.
pub fn gicc_init(hw: &mut Hardware)
    ensures
        final(hw)@ == old(hw)@.gicc_set_up(),
{
    let pmr: u64 = hw.regs.icc.pmr;
    hw.regs.icc = IccRegs { ctlr: ICC_CTLR_EOIMODE, pmr: ICC_PMR_OPEN, igrpen1: 1 };
    gicv3_clear_pending_irqs(hw);
    hw.regs.ich.vmcr = ((pmr & 0xff) << 24) | 2;
    hw.regs.ich.hcr = 1;
}

/// Where the distributor is.
pub fn host_gicd_base(gic: &Gic) -> (res: usize)
    ensures
        res == gic.gicd_base,
{
    gic.gicd_base
}

/// Where the redistributor of a pCPU is.
pub fn host_gicr_base(hv: &Hypervisor, id: usize) -> (res: usize)
    requires
        id < hv@.gicr_bases.len(),
    ensures
        res == hv@.gicr_bases[id as int],
{
    hv.gicr_base(id)
}

/// Where the translation service is.
pub fn host_gits_base(gic: &Gic) -> (res: usize)
    ensures
        res == gic.gits_base,
{
    gic.gits_base
}

/// The size of the distributor.
pub fn host_gicd_size(gic: &Gic) -> (res: usize)
    ensures
        res == gic.gicd_size,
{
    gic.gicd_size
}

/// The size of all redistributors.
pub fn host_gicr_size(gic: &Gic) -> (res: usize)
    ensures
        res == gic.gicr_size,
{
    gic.gicr_size
}

/// The size of the translation service.
pub fn host_gits_size(gic: &Gic) -> (res: usize)
    ensures
        res == gic.gits_size,
{
    gic.gits_size
}

/// The first pCPU at or after `from` with the given affinity; their number if there is
/// none.
pub open spec fn affinity_position(affinities: Seq<u64>, affinity: u64, from: int) -> int
    decreases affinities.len() - from,
{
    if from < 0 || from >= affinities.len() {
        affinities.len() as int
    } else if affinities[from] == affinity {
        from
    } else {
        affinity_position(affinities, affinity, from + 1)
    }
}

/// The affinity that a redistributor's type register reports.
pub open spec fn typer_affinity(typer: u64) -> u64 {
    (typer & 0xffff_ffff_0000_0000) >> 32
}

/// Where the redistributors of the pCPUs are, as far as the first `n` frames tell.
/// Each frame belongs to the pCPU whose affinity it reports.
pub open spec fn gicr_bases_found(
    gicr_base: usize,
    typers: Seq<u64>,
    affinities: Seq<u64>,
    n: nat,
) -> Seq<usize>
    decreases n,
{
    if n == 0 {
        Seq::new(affinities.len(), |i: int| 0usize)
    } else {
        let before = gicr_bases_found(gicr_base, typers, affinities, (n - 1) as nat);
        let cpu = affinity_position(affinities, typer_affinity(typers[n - 1]), 0);
        if cpu < affinities.len() {
            before.update(cpu, (gicr_base + (n - 1) * PER_GICR_SIZE) as usize)
        } else {
            before
        }
    }
}

/// Finds the redistributor of each pCPU, given the type registers of as many frames as
/// there are pCPUs, and the affinities of the pCPUs.  Returns `None` if a frame belongs
/// to no pCPU.
pub fn find_gicr_bases(gicr_base: usize, typers: &Vec<u64>, affinities: &Vec<u64>) -> (res: Option<
    Vec<usize>,
>)
    requires
        typers@.len() == affinities@.len(),
        gicr_base + typers@.len() * PER_GICR_SIZE <= usize::MAX,
    ensures
        match res {
            Some(bases) => {
                &&& bases@ == gicr_bases_found(gicr_base, typers@, affinities@, typers@.len())
                &&& forall|i: int|
                    0 <= i < typers@.len() ==> affinities@.contains(
                        typer_affinity(#[trigger] typers@[i]),
                    )
            },
            None => exists|i: int|
                0 <= i < typers@.len() && !affinities@.contains(
                    typer_affinity(#[trigger] typers@[i]),
                ),
        },
{
    let n: usize = affinities.len();
    let mut bases: Vec<usize> = Vec::new();
    let mut k: usize = 0;
    while k < n
        invariant
            k <= n,
            bases@ == Seq::new(k as nat, |i: int| 0usize),
        decreases n - k,
    {
        bases.push(0);
        k = k + 1;
        assert(bases@ =~= Seq::new(k as nat, |i: int| 0usize));
    }
    let mut frame: usize = 0;
    while frame < n
        invariant
            frame <= n,
            n == affinities@.len(),
            n == typers@.len(),
            bases@.len() == n,
            gicr_base + typers@.len() * PER_GICR_SIZE <= usize::MAX,
            bases@ == gicr_bases_found(gicr_base, typers@, affinities@, frame as nat),
            forall|i: int|
                0 <= i < frame ==> affinities@.contains(typer_affinity(#[trigger] typers@[i])),
        decreases n - frame,
    {
        let affinity: u64 = (typers[frame] & 0xffff_ffff_0000_0000) >> 32;
        assert(affinity == typer_affinity(typers@[frame as int]));
        assert(frame * PER_GICR_SIZE <= typers@.len() * PER_GICR_SIZE) by (nonlinear_arith)
            requires
                frame <= typers@.len(),
        ;
        let base: usize = gicr_base + frame * PER_GICR_SIZE;
        let mut cpu: usize = 0;
        while cpu < n && affinities[cpu] != affinity
            invariant
                cpu <= n,
                n == affinities@.len(),
                forall|i: int| 0 <= i < cpu ==> #[trigger] affinities@[i] != affinity,
                affinity_position(affinities@, affinity, 0) == affinity_position(
                    affinities@,
                    affinity,
                    cpu as int,
                ),
            decreases n - cpu,
        {
            cpu = cpu + 1;
        }
        if cpu >= n {
            assert(!affinities@.contains(affinity));
            return None;
        }
        assert(affinities@[cpu as int] == affinity);
        bases[cpu] = base;
        frame = frame + 1;
    }
    Some(bases)
}

/// Takes the interrupt controller from a configuration.  Returns it and whether it has
/// a translation service to be set up.
pub fn primary_init_early(config: &GicConfig) -> (res: (Gic, bool))
    requires
        config is Gicv3,
    ensures
        *config == GicConfig::Gicv3(res.0),
        res.1 == (res.0.gits_base != 0 && res.0.gits_size != 0),
{
    match *config {
        GicConfig::Gicv3(gic) => (gic, gic.gits_base != 0 && gic.gits_size != 0),
        GicConfig::Gicv2 => (
            Gic {
                gicd_base: 0,
                gicr_base: 0,
                gicd_size: 0,
                gicr_size: 0,
                gits_base: 0,
                gits_size: 0,
            },
            false,
        ),
    }
}

/// Asks for affinity routing and for interrupts to be let through.
pub fn primary_init_late(hw: &mut Hardware)
    ensures
        final(hw)@ == old(hw)@.op(Op::EnableAffinityRouting).op(Op::EnableIrqs),
{
    hw.push(Op::EnableAffinityRouting);
    hw.push(Op::EnableIrqs);
}

/// Sets a pCPU's part of the interrupt controller up.
pub fn percpu_init(hw: &mut Hardware)
    ensures
        final(hw)@ == old(hw)@.gicc_set_up().op(Op::EnableIpi),
{
    gicc_init(hw);
    hw.push(Op::EnableIpi);
}

impl Zone {
    /// Disables and deactivates the shared interrupts of the zone, and has the
    /// translation service drop what it holds for it.
    pub fn arch_irqchip_reset(&self, gic: &Gic, hw: &mut Hardware)
        requires
            gic.gicd_base + GICD_FRAME_SIZE <= usize::MAX,
        ensures
            final(hw)@ == old(hw)@.irqchip_reset(*gic, self@),
    {
        let ghost bitmap = self@.inner.irq_bitmap;
        let mut idx: usize = 1;
        assert(hw@ == old(hw)@.all_ops(reset_ops(gic.gicd_base, bitmap, 1)));
        while idx < 32
            invariant
                1 <= idx <= 32,
                bitmap == self@.inner.irq_bitmap,
                gic.gicd_base + GICD_FRAME_SIZE <= usize::MAX,
                hw@ == old(hw)@.all_ops(reset_ops(gic.gicd_base, bitmap, idx as int)),
            decreases 32 - idx,
        {
            let mask: u32 = self.read().irq_bitmap()[idx];
            hw.push(Op::Write32 { addr: gic.gicd_base + GICD_ICENABLER + idx * 4, word: mask });
            hw.push(Op::Write32 { addr: gic.gicd_base + GICD_ICACTIVER + idx * 4, word: mask });
            idx = idx + 1;
            assert(hw@.ops =~= old(hw)@.ops + reset_ops(gic.gicd_base, bitmap, idx as int));
        }
        if gic.gits_size != 0 {
            hw.push(Op::GitsReset { zone_id: self.id() });
        }
    }
}

} // verus!

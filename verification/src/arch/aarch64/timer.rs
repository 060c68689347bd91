//! The EL2 physical timer, which drives the scheduler.

use vstd::prelude::*;
use crate::arch::aarch64::vcpu::{CNTV_ENABLE, CNTV_IMASK, CNTV_ISTATUS};
use crate::cpu_data::PerCpuView;
use crate::device::irqchip::gicv3::gicr::{GICR_IPRIORITYR, GICR_ISENABLER, GICR_SGI_BASE};
use crate::hardware::{Hardware, HardwareView, Op, TimerRegs};
use crate::hypervisor::{HvView, Hypervisor, Sys};
use crate::scheduler::SchedView;
use crate::vcpu::CNTV_IRQ;

verus! {

/// The length of a scheduling tick, in microseconds.
pub const SCHED_TICK_PERIOD_US: u64 = 10_000;

/// The priority of the EL2 timer's interrupt.
pub const EL2_TIMER_PRIORITY: u8 = 0xa0;

/// The bit of the EL2 timer's interrupt in the enable register.
pub const EL2_TIMER_BIT: u32 = 0x400_0000;

impl HardwareView {
    /// The EL2 timer fires when the counter reaches `target`, or after a tick if
    /// that is sooner; at once if the counter is there already.
    pub open spec fn with_el2_timer_at(self, target: u64, tick: u64) -> HardwareView {
        let now = self.timer.cntpct_el0;
        self.with_el2_timer(
            if target > now {
                if target - now < tick {
                    (target - now) as u64
                } else {
                    tick
                }
            } else {
                1
            },
        )
    }

    /// The EL2 timer is off.
    pub open spec fn without_el2_timer(self) -> HardwareView {
        HardwareView { timer: TimerRegs { cnthp_ctl_el2: 0, ..self.timer }, ..self }
    }
}

/// The number of counts in `us` microseconds at `freq` counts a second.
pub open spec fn counts_in(freq: u64, us: u64) -> int {
    freq * us / 1_000_000
}

/// The physical counter.
pub fn current_cntpct(hw: &Hardware) -> (res: u64)
    ensures
        res == hw@.timer.cntpct_el0,
{
    hw.regs.timer.cntpct_el0
}

/// The length of a scheduling tick, in counts.
pub fn tick_period_cnt(hv: &Hypervisor) -> (res: u64)
    ensures
        res == hv@.tick,
{
    hv.tick()
}

/// Sets the length of a tick, lets the timer's interrupt through and starts the
/// timer.
pub fn el2_timer_init(hv: &mut Hypervisor, cpu: usize, hw: &mut Hardware, tick_period_us: u64)
    requires
        old(hv)@.wf(),
        cpu < old(hv)@.cpus.len(),
        old(hw)@.timer.cntfrq_el0 * tick_period_us <= u64::MAX,
    ensures
        final(hv)@ == (HvView {
            tick: counts_in(old(hw)@.timer.cntfrq_el0, tick_period_us) as u64,
            ..old(hv)@
        }),
        final(hw)@ == old(hw)@.op(
            Op::Write32 {
                addr: (old(hv)@.gicr_bases[cpu as int] + GICR_SGI_BASE + GICR_ISENABLER) as usize,
                word: EL2_TIMER_BIT,
            },
        ).op(
            Op::Write8 {
                addr: (old(hv)@.gicr_bases[cpu as int] + GICR_SGI_BASE + GICR_IPRIORITYR
                    + 26) as usize,
                byte: EL2_TIMER_PRIORITY,
            },
        ).with_el2_timer(counts_in(old(hw)@.timer.cntfrq_el0, tick_period_us) as u64),
        final(hv)@.wf(),
        final(hv)@.cpus.len() == old(hv)@.cpus.len(),
{
    let freq: u64 = hw.regs.timer.cntfrq_el0;
    let tval: u64 = freq * tick_period_us / 1_000_000;
    proof {
        crate::hypervisor::lemma_wf_sizes(hv@);
        assert(hv@.gicr_bases[cpu as int] + crate::device::irqchip::gicv3::gicr::PER_GICR_SIZE
            <= usize::MAX);
    }
    hv.set_tick(tval);
    let sgi_base: usize = hv.gicr_base(cpu) + GICR_SGI_BASE;
    hw.push(Op::Write32 { addr: sgi_base + GICR_ISENABLER, word: EL2_TIMER_BIT });
    hw.push(Op::Write8 { addr: sgi_base + GICR_IPRIORITYR + 26, byte: EL2_TIMER_PRIORITY });
    hw.write_el2_timer(tval);
}

/// Starts the timer for one more tick.
pub fn el2_timer_rearm(hv: &Hypervisor, hw: &mut Hardware)
    ensures
        final(hw)@ == old(hw)@.with_el2_timer(hv@.tick),
{
    hw.write_el2_timer(hv.tick());
}

/// Turns the timer off.
pub fn el2_timer_disable(hw: &mut Hardware)
    ensures
        final(hw)@ == old(hw)@.without_el2_timer(),
{
    hw.regs.timer.cnthp_ctl_el2 = 0;
}

/// Starts the timer so that it fires when the physical counter reaches
/// `target_cntpct`, but no later than after a tick.
pub fn el2_timer_arm_at(hv: &Hypervisor, hw: &mut Hardware, target_cntpct: u64)
    ensures
        final(hw)@ == old(hw)@.with_el2_timer_at(target_cntpct, hv@.tick),
{
    let now: u64 = hw.regs.timer.cntpct_el0;
    let tval: u64 = hv.tick();
    let delta: u64 = if target_cntpct > now {
        if target_cntpct - now < tval {
            target_cntpct - now
        } else {
            tval
        }
    } else {
        1
    };
    hw.write_el2_timer(delta);
}

// ---------------------------------------------------------------------------
// Ticks
// ---------------------------------------------------------------------------

impl HvView {
    /// The timer of the running vCPU was checked: an expired timer that is masked
    /// cannot interrupt, so its interrupt is made pending.
    pub open spec fn running_checked(self, cpu: usize, cntv_ctl: u64) -> HvView {
        if cntv_ctl & CNTV_ENABLE != 0 && cntv_ctl & CNTV_IMASK != 0 && cntv_ctl & CNTV_ISTATUS
            != 0 {
            match self.cpus[cpu as int].sched.current {
                Some(id) => self.irq_pended(id, CNTV_IRQ, false),
                None => self,
            }
        } else {
            self
        }
    }

    /// A tick of the running vCPU's time slice is over; when none is left, the pCPU
    /// schedules.
    pub open spec fn slice_used(self, cpu: usize) -> HvView {
        let pc = self.cpus[cpu as int];
        if pc.sched.current is None {
            self
        } else {
            let left = if pc.sched.time_slice > 0 {
                (pc.sched.time_slice - 1) as usize
            } else {
                0
            };
            self.with_cpu(
                cpu,
                PerCpuView {
                    sched: SchedView { time_slice: left, ..pc.sched },
                    need_resched: pc.need_resched || left == 0,
                    ..pc
                },
            )
        }
    }
}

impl Sys {
    /// A scheduling tick.
    pub open spec fn ticked(self, cpu: usize) -> Sys {
        let now = self.hw.timer.cntpct_el0;
        Sys {
            hv: self.hv.blocked_checked(cpu, now).ready_checked(cpu, now).running_checked(
                cpu,
                self.hw.el1.cntv_ctl_el0,
            ).slice_used(cpu),
            hw: self.hw.with_el2_timer(self.hv.tick),
        }
    }
}

/// Handles a scheduling tick: wakes the blocked vCPUs whose timer has expired, makes
/// the timer interrupts of ready vCPUs pending, and uses up the running vCPU's time
/// slice.
pub fn sched_tick_handler(hv: &mut Hypervisor, cpu: usize, hw: &mut Hardware)
    requires
        old(hv)@.wf(),
        cpu < old(hv)@.cpus.len(),
    ensures
        (Sys { hv: final(hv)@, hw: final(hw)@ }) == (Sys { hv: old(hv)@, hw: old(hw)@ }).ticked(
            cpu,
        ),
        final(hv)@.wf(),
        final(hv)@.cpus.len() == old(hv)@.cpus.len(),
{
    let now: u64 = hw.regs.timer.cntpct_el0;
    hv.check_blocked(cpu, now);
    hv.check_ready(cpu, now);
    proof {
        crate::hypervisor::lemma_cpu_ok(hv@, cpu);
    }
    let cntv_ctl: u64 = hw.regs.el1.cntv_ctl_el0;
    if cntv_ctl & CNTV_ENABLE != 0 && cntv_ctl & CNTV_IMASK != 0 && cntv_ctl & CNTV_ISTATUS != 0 {
        if let Some(vcpu) = hv.cpu(cpu).scheduler.current {
            hv.push_irq(vcpu, CNTV_IRQ, false);
        }
    }
    let ghost before = hv@;
    proof {
        crate::hypervisor::lemma_cpu_ok(hv@, cpu);
        crate::hypervisor::lemma_wf_cpu(hv@, cpu, before.slice_used(cpu).cpus[cpu as int]);
    }
    if hv.cpu(cpu).scheduler.current.is_none() {
        el2_timer_rearm(hv, hw);
        return;
    }
    let this = hv.cpu_mut(cpu);
    if this.scheduler.time_slice_remaining > 0 {
        this.scheduler.time_slice_remaining = this.scheduler.time_slice_remaining - 1;
    }
    if this.scheduler.time_slice_remaining == 0 {
        this.need_resched = true;
    }
    assert(hv@ == before.slice_used(cpu));
    el2_timer_rearm(hv, hw);
}

} // verus!

//! The scheduler, the vCPUs' life cycle and the scheduling tick.

use hvisor::arch::aarch64::timer::{
    current_cntpct, el2_timer_arm_at, el2_timer_disable, el2_timer_init, el2_timer_rearm,
    sched_tick_handler, tick_period_cnt, SCHED_TICK_PERIOD_US,
};
use hvisor::arch::aarch64::vcpu::El1SysRegs;
use hvisor::cpu_data::PendingWake;
use hvisor::device::irqchip::gicv3::{Gic, GicConfig};
use hvisor::hardware::{
    CpuRegs, El2Regs, Hardware, IccRegs, IchRegs, Op, TimerRegs,
};
use hvisor::hypervisor::{Board, Hypervisor};
use hvisor::memory::Stage2PageTable;
use hvisor::scheduler::{
    idle_resume, init, schedule, vcpu_switch_in, vcpu_switch_out, PerCpuScheduler, SchedOutcome,
    NUM_PRIORITIES,
};
use hvisor::vcpu::{
    current_vcpu, deliver_vcpu_to_pcpu, drain_incoming_vcpus, drain_pending_wake_ids,
    enqueue_vcpu_on_affinity_pcpu, set_current_vcpu, PendingIrq, VCpu, VCpuIdPool, VCpuState,
    VCpuTable, CNTV_IRQ, DEFAULT_PRIORITY, MAX_PENDING_VIRQS,
};
use hvisor::zone::{add_zone, zone_create, MemoryRegion, ZoneConfig, ZoneSetup};

fn gic() -> Gic {
    Gic {
        gicd_base: 0x0800_0000,
        gicr_base: 0x080a_0000,
        gicd_size: 0x1_0000,
        gicr_size: 0x2_0000,
        gits_base: 0x0808_0000,
        gits_size: 0x2_0000,
    }
}

fn board() -> Board {
    Board {
        irq_wakeup_virtio_device: 77,
        max_devs: 8,
        max_wait_times: 3,
        config_size: 1000,
        legacy_config_size: 900,
    }
}

fn machine(cpus: usize) -> Hypervisor {
    let mut bases: Vec<usize> = Vec::new();
    for cpu in 0..cpus {
        bases.push(0x080a_0000 + cpu * 0x2_0000);
    }
    Hypervisor::new(cpus, gic(), bases, board())
}

fn hardware() -> Hardware {
    Hardware::new(CpuRegs {
        el1: El1SysRegs::default(),
        ich: IchRegs { vtr: 0x9000_0003, vmcr: 0, hcr: 1, ap1r: [0; 4], lr: [0; 16] },
        icc: IccRegs { ctlr: 0, pmr: 0, igrpen1: 0 },
        timer: TimerRegs {
            cntpct_el0: 5_000,
            cntfrq_el0: 1_000_000,
            cnthp_tval_el2: 0,
            cnthp_ctl_el2: 0,
        },
        el2: El2Regs { mpidr_el1: 0, vmpidr_el2: 0, tpidr_el2: 0, pmcr_el0: 0 },
    })
}

fn config(zone_id: u32, cpus: Vec<usize>) -> ZoneConfig {
    ZoneConfig {
        zone_id,
        name: [b'z'; 32],
        cpus,
        memory_regions: vec![MemoryRegion {
            physical_start: 0x8000_0000,
            virtual_start: 0x4000_0000,
            size: 0x1000_0000,
        }],
        interrupts: vec![0, 0x6],
        entry_point: 0x4040_0000,
        dtb_load_paddr: 0x8000_0100,
        is_aarch32: false,
        gic: GicConfig::Gicv3(gic()),
    }
}

fn setup(root: usize) -> ZoneSetup {
    ZoneSetup {
        tables: Ok(Stage2PageTable { root }),
        pre: Ok(()),
        iommu: Ok(None),
        post: Ok(()),
        reset: Ok(()),
        stack_tops: vec![0x1_0000 * root, 0x1_0000 * root + 0x4000, 0x1_0000 * root + 0x8000],
    }
}

/// A machine with one pCPU and one zone, whose vCPU is ready.
fn one_vcpu(hw: &Hardware) -> Hypervisor {
    let mut hv = machine(1);
    assert!(matches!(zone_create(&mut hv, hw, &config(0, vec![0]), &setup(1)), Ok(0)));
    add_zone(&mut hv, 0);
    hv.set_tick(1_000);
    hv
}

fn ready_vcpu(ids: &mut VCpuIdPool, hw: &Hardware, priority: u8) -> VCpu {
    let mut vcpu = VCpu::new(0, ids, 0x2_0000, hw);
    vcpu.set_pcpu_affinity(0);
    vcpu.priority = priority;
    assert_eq!(vcpu.transition(VCpuState::Stopped, VCpuState::Ready), Ok(()));
    vcpu
}

#[test]
fn identifiers_are_reused_oldest_first() {
    let mut ids = VCpuIdPool::new();
    assert_eq!(ids.free_vcpu_id(), 0);
    assert_eq!(ids.free_vcpu_id(), 1);
    assert_eq!(ids.free_vcpu_id(), 2);
    ids.reclaim_vcpu_id(1);
    ids.reclaim_vcpu_id(0);
    assert_eq!(ids.free_vcpu_id(), 1);
    assert_eq!(ids.free_vcpu_id(), 0);
    assert_eq!(ids.free_vcpu_id(), 3);
}

#[test]
fn states_have_numbers() {
    assert_eq!(VCpuState::from_u8(0), Some(VCpuState::Stopped));
    assert_eq!(VCpuState::from_u8(1), Some(VCpuState::Ready));
    assert_eq!(VCpuState::from_u8(2), Some(VCpuState::Running));
    assert_eq!(VCpuState::from_u8(3), Some(VCpuState::Blocked));
    assert_eq!(VCpuState::from_u8(4), None);
}

#[test]
fn a_stopped_vcpu_does_not_run_at_once() {
    let hw = hardware();
    let mut ids = VCpuIdPool::new();
    let mut vcpu = VCpu::new(3, &mut ids, 0x2_0000, &hw);
    assert_eq!(vcpu.zone_id(), 3);
    assert_eq!(vcpu.priority, DEFAULT_PRIORITY);
    assert_eq!(vcpu.transition(VCpuState::Stopped, VCpuState::Running), Err(()));
    assert_eq!(vcpu.state(), VCpuState::Stopped);
    assert_eq!(vcpu.transition(VCpuState::Ready, VCpuState::Running), Err(()));
    assert_eq!(vcpu.transition(VCpuState::Stopped, VCpuState::Ready), Ok(()));
    assert_eq!(vcpu.transition(VCpuState::Ready, VCpuState::Running), Ok(()));
    assert_eq!(vcpu.transition(VCpuState::Running, VCpuState::Blocked), Ok(()));
    assert_eq!(vcpu.transition(VCpuState::Blocked, VCpuState::Ready), Ok(()));
    vcpu.force_stop();
    assert_eq!(vcpu.state(), VCpuState::Stopped);
}

#[test]
fn only_the_timer_interrupt_is_merged() {
    let hw = hardware();
    let mut ids = VCpuIdPool::new();
    let mut vcpu = VCpu::new(0, &mut ids, 0x2_0000, &hw);
    assert!(!vcpu.has_pending_irqs());
    vcpu.push_pending_irq(CNTV_IRQ, true);
    vcpu.push_pending_irq(3, false);
    vcpu.push_pending_irq(3, false);
    vcpu.push_pending_irq(CNTV_IRQ, false);
    assert!(vcpu.has_pending_irqs());
    assert_eq!(
        vcpu.drain_pending_irqs(),
        vec![
            PendingIrq { irq_id: CNTV_IRQ, is_hardware: false },
            PendingIrq { irq_id: 3, is_hardware: false },
            PendingIrq { irq_id: 3, is_hardware: false },
        ]
    );
    assert!(!vcpu.has_pending_irqs());
}

#[test]
fn a_full_queue_drops_the_oldest() {
    let hw = hardware();
    let mut ids = VCpuIdPool::new();
    let mut vcpu = VCpu::new(0, &mut ids, 0x2_0000, &hw);
    for irq in 0..MAX_PENDING_VIRQS + 1 {
        vcpu.push_pending_irq(100 + irq, true);
    }
    let drained = vcpu.drain_pending_irqs();
    assert_eq!(drained.len(), MAX_PENDING_VIRQS);
    assert_eq!(drained[0].irq_id, 101);
    assert_eq!(drained[63].irq_id, 164);
}

#[test]
fn affinity_is_what_was_set() {
    let hw = hardware();
    let mut ids = VCpuIdPool::new();
    let mut vcpu = VCpu::new(0, &mut ids, 0x2_0000, &hw);
    vcpu.set_pcpu_affinity(2);
    assert_eq!(vcpu.get_pcpu_affinity(), 2);
    let mut hw = hw;
    vcpu.activate_gpm(&Stage2PageTable { root: 0x9000 }, &mut hw);
    assert_eq!(hw.ops, vec![Op::ActivateGpm { root: 0x9000 }]);
}

#[test]
fn the_highest_priority_comes_first_and_queues_are_fifo() {
    let hw = hardware();
    let mut ids = VCpuIdPool::new();
    let mut sched = PerCpuScheduler::new();
    assert!(sched.is_empty());
    assert!(sched.no_other_vcpus());
    assert_eq!(sched.run_queue.len(), NUM_PRIORITIES);
    for priority in [3, 2, 0, 2, 9] {
        let vcpu = ready_vcpu(&mut ids, &hw, priority);
        sched.enqueue(&vcpu);
    }
    assert_eq!(sched.len(), 5);
    assert!(sched.is_queued(4));
    assert_eq!(sched.pick_next(), Some(2));
    assert_eq!(sched.pick_next(), Some(1));
    assert_eq!(sched.pick_next(), Some(3));
    assert_eq!(sched.pick_next(), Some(0));
    assert_eq!(sched.pick_next(), Some(4));
    assert_eq!(sched.pick_next(), None);
}

#[test]
fn the_lowest_priority_does_not_starve() {
    let hw = hardware();
    let mut ids = VCpuIdPool::new();
    let low = ready_vcpu(&mut ids, &hw, 3);
    let normal = ready_vcpu(&mut ids, &hw, 2);
    let mut sched = PerCpuScheduler::new();
    sched.enqueue(&low);
    sched.enqueue(&normal);
    let mut picks = 0;
    loop {
        picks += 1;
        match sched.pick_next() {
            Some(1) => sched.enqueue(&normal),
            Some(0) => break,
            _ => panic!("nothing else is queued"),
        }
        assert!(picks < 20);
    }
    assert_eq!(picks, 11);
}

#[test]
fn boosting_moves_the_lowest_queue_up() {
    let hw = hardware();
    let mut ids = VCpuIdPool::new();
    let mut sched = PerCpuScheduler::new();
    for priority in [2, 3, 3] {
        let vcpu = ready_vcpu(&mut ids, &hw, priority);
        sched.enqueue(&vcpu);
    }
    sched.boost_starving_vcpus();
    assert_eq!(sched.run_queue[2], vec![0, 1, 2]);
    assert!(sched.run_queue[3].is_empty());
}

#[test]
fn clearing_forgets_vcpus() {
    let hw = hardware();
    let mut ids = VCpuIdPool::new();
    let mut table = VCpuTable::new();
    let mut sched = PerCpuScheduler::new();
    for zone in [1, 2, 1] {
        let mut vcpu = ready_vcpu(&mut ids, &hw, 2);
        vcpu.zone = zone;
        sched.enqueue(&vcpu);
        table.insert(vcpu);
    }
    sched.block_vcpu(2, 0, 0, 0, 0);
    sched.current = Some(0);
    sched.clear_zone(1, &table);
    assert_eq!(sched.len(), 1);
    assert!(sched.is_queued(1));
    assert!(!sched.has_blocked_vcpus());
    assert_eq!(sched.current, None);
    sched.clear_all();
    assert!(sched.is_empty());
    table.remove(1);
    assert!(!table.contains(1));
}

#[test]
fn overdue_vcpus_are_woken_by_the_blocked_check() {
    let hw = hardware();
    let mut ids = VCpuIdPool::new();
    let mut table = VCpuTable::new();
    let mut sched = PerCpuScheduler::new();
    for _ in 0..5 {
        let mut vcpu = ready_vcpu(&mut ids, &hw, 2);
        vcpu.state = VCpuState::Blocked;
        table.insert(vcpu);
    }
    // Expired; not yet; blocked for two ticks; blocked for one with something pending.
    sched.block_vcpu(0, 900, 1, 100, 990);
    sched.block_vcpu(1, 900, 1, 200, 990);
    sched.block_vcpu(2, 0, 0, 0, 799);
    sched.block_vcpu(3, 0, 0, 0, 900);
    table.get_mut(3).push_pending_irq(40, false);
    assert_eq!(sched.blocked_vcpu_count(), 4);
    assert_eq!(sched.earliest_blocked_timer_cntpct(), Some(1_000));
    sched.block_vcpu(4, 0, 0, 0, 990);
    let woken = sched.check_blocked_timers(&mut table, 1_000, 100);
    assert_eq!(woken, 3);
    let left: Vec<usize> = sched.blocked_vcpus.iter().map(|entry| entry.vcpu).collect();
    assert_eq!(left, vec![1, 4]);
    assert_eq!(sched.find_blocked(1), Some(1));
    assert_eq!(table.get(0).state(), VCpuState::Ready);
    assert_eq!(
        table.get_mut(0).drain_pending_irqs(),
        vec![PendingIrq { irq_id: CNTV_IRQ, is_hardware: false }]
    );
    assert_eq!(table.get(1).state(), VCpuState::Blocked);
    assert_eq!(table.get(2).state(), VCpuState::Ready);
    assert_eq!(table.get(3).state(), VCpuState::Ready);
    assert_eq!(sched.len(), 3);
}

#[test]
fn pending_interrupts_wake_blocked_vcpus() {
    let hw = hardware();
    let mut ids = VCpuIdPool::new();
    let mut table = VCpuTable::new();
    let mut sched = PerCpuScheduler::new();
    for _ in 0..2 {
        let mut vcpu = ready_vcpu(&mut ids, &hw, 2);
        vcpu.state = VCpuState::Blocked;
        sched.block_vcpu(vcpu.id, 0, 0, 0, 0);
        table.insert(vcpu);
    }
    table.get_mut(1).push_pending_irq(5, false);
    assert_eq!(sched.drain_pending_irq_wakeups(&mut table), 1);
    assert!(sched.is_queued(1));
    assert!(!sched.is_queued(0));
    assert!(sched.remove_blocked(0));
    assert!(!sched.remove_blocked(0));
    assert_eq!(sched.find_blocked(0), None);
    assert_eq!(sched.earliest_blocked_timer_cntpct(), None);
}

#[test]
fn timers_of_ready_vcpus_are_checked() {
    let hw = hardware();
    let mut ids = VCpuIdPool::new();
    let mut table = VCpuTable::new();
    let mut sched = PerCpuScheduler::new();
    for cval in [100, 300] {
        let mut vcpu = ready_vcpu(&mut ids, &hw, 2);
        vcpu.arch.el1_regs.cntv_ctl_el0 = 1;
        vcpu.arch.el1_regs.cntv_cval_el0 = cval;
        sched.enqueue(&vcpu);
        table.insert(vcpu);
    }
    sched.check_ready_timers(&mut table, 200);
    assert!(table.get(0).has_pending_irqs());
    assert!(!table.get(1).has_pending_irqs());
}

#[test]
fn the_timer_starts_and_stops() {
    let mut hv = machine(2);
    let mut hw = hardware();
    el2_timer_init(&mut hv, 1, &mut hw, SCHED_TICK_PERIOD_US);
    assert_eq!(tick_period_cnt(&hv), 10_000);
    assert_eq!(current_cntpct(&hw), 5_000);
    assert_eq!(hw.regs.timer.cnthp_tval_el2, 10_000);
    assert_eq!(hw.regs.timer.cnthp_ctl_el2, 1);
    assert_eq!(
        hw.ops,
        vec![
            Op::Write32 { addr: 0x080d_0100, word: 0x400_0000 },
            Op::Write8 { addr: 0x080d_041a, byte: 0xa0 },
        ]
    );
    el2_timer_disable(&mut hw);
    assert_eq!(hw.regs.timer.cnthp_ctl_el2, 0);
    el2_timer_arm_at(&hv, &mut hw, 6_500);
    assert_eq!(hw.regs.timer.cnthp_tval_el2, 1_500);
    el2_timer_arm_at(&hv, &mut hw, 50_000);
    assert_eq!(hw.regs.timer.cnthp_tval_el2, 10_000);
    el2_timer_arm_at(&hv, &mut hw, 5_000);
    assert_eq!(hw.regs.timer.cnthp_tval_el2, 1);
    el2_timer_rearm(&hv, &mut hw);
    assert_eq!(hw.regs.timer.cnthp_tval_el2, 10_000);
    init();
}

#[test]
fn a_lone_running_vcpu_goes_on() {
    let mut hw = hardware();
    let mut hv = one_vcpu(&hw);
    assert_eq!(schedule(&mut hv, 0, &mut hw), SchedOutcome::Switched);
    assert_eq!(current_vcpu(&hv, 0), 0);
    assert_eq!(hv.vcpu(0).state(), VCpuState::Running);
    hv.cpu_mut(0).scheduler.time_slice_remaining = 0;
    hv.cpu_mut(0).need_resched = true;
    assert_eq!(schedule(&mut hv, 0, &mut hw), SchedOutcome::Kept);
    assert_eq!(hv.cpu(0).scheduler.time_slice_remaining, 1);
    assert!(!hv.cpu(0).need_resched);
    assert_eq!(hw.regs.timer.cnthp_tval_el2, 1_000);
}

#[test]
fn a_blocked_vcpu_leaves_the_pcpu_idle_until_it_is_woken() {
    let mut hw = hardware();
    let mut hv = one_vcpu(&hw);
    assert_eq!(schedule(&mut hv, 0, &mut hw), SchedOutcome::Switched);
    hw.regs.el1.cntv_ctl_el0 = 1;
    hw.regs.el1.cntv_cval_el0 = 5_400;
    hv.vcpu_mut(0).state = VCpuState::Blocked;
    assert_eq!(schedule(&mut hv, 0, &mut hw), SchedOutcome::Idle { prev_zone: Some(0) });
    assert_eq!(hv.cpu(0).scheduler.current, None);
    assert_eq!(hv.cpu(0).scheduler.blocked_vcpu_count(), 1);
    let entry = hv.cpu(0).scheduler.blocked_vcpus[0];
    assert_eq!((entry.vcpu, entry.cntv_cval, entry.cntv_ctl), (0, 5_400, 3));
    assert_eq!((entry.cntvoff, entry.blocked_at_cnt), (0, 5_000));
    assert_eq!(hw.regs.timer.cnthp_tval_el2, 400);
    // The timer away from its vCPU stays silent.
    assert_eq!(hw.regs.el1.cntv_ctl_el0, 3);
    assert_eq!(hv.vcpu(0).arch.el1_regs.cntv_ctl_el0 & 3, 3);
    assert_eq!(
        idle_resume(&mut hv, 0, &mut hw, Some(0)),
        SchedOutcome::Idle { prev_zone: Some(0) }
    );
    hw.regs.timer.cntpct_el0 = 5_400;
    sched_tick_handler(&mut hv, 0, &mut hw);
    assert_eq!(hv.vcpu(0).state(), VCpuState::Ready);
    assert_eq!(idle_resume(&mut hv, 0, &mut hw, Some(0)), SchedOutcome::Switched);
    assert_eq!(hv.vcpu(0).state(), VCpuState::Running);
    assert!(hv.vcpu(0).has_pending_irqs());
}

#[test]
fn a_tick_uses_the_slice_up_and_watches_a_masked_timer() {
    let mut hw = hardware();
    let mut hv = one_vcpu(&hw);
    assert_eq!(schedule(&mut hv, 0, &mut hw), SchedOutcome::Switched);
    hw.regs.el1.cntv_ctl_el0 = 7;
    sched_tick_handler(&mut hv, 0, &mut hw);
    assert_eq!(hv.cpu(0).scheduler.time_slice_remaining, 0);
    assert!(hv.cpu(0).need_resched);
    assert_eq!(hw.regs.timer.cnthp_tval_el2, 1_000);
    assert_eq!(
        hv.vcpu_mut(0).drain_pending_irqs(),
        vec![PendingIrq { irq_id: CNTV_IRQ, is_hardware: false }]
    );
}

#[test]
fn registers_travel_with_their_vcpu() {
    let mut hw = hardware();
    let mut hv = one_vcpu(&hw);
    hw.regs.el1.ttbr0_el1 = 0x1234;
    hw.regs.el1.cntv_ctl_el0 = 1;
    hw.regs.el1.cntv_cval_el0 = 77;
    hw.regs.ich.lr[0] = 0x5000_0000_0000_0021;
    vcpu_switch_out(&mut hv, &mut hw, 0);
    assert_eq!(hv.vcpu(0).arch.el1_regs.ttbr0_el1, 0x1234);
    assert_eq!(hv.vcpu(0).arch.el1_regs.cntv_ctl_el0, 3);
    assert_eq!(hv.vcpu(0).arch.gic_state.ich_lr[0], 0x5000_0000_0000_0021);
    hw.regs.el1.ttbr0_el1 = 0;
    hw.regs.ich.lr[0] = 0;
    vcpu_switch_in(&hv, &mut hw, 0, None);
    assert_eq!(hw.regs.el1.ttbr0_el1, 0x1234);
    assert_eq!(hw.regs.el1.cntv_cval_el0, 77);
    assert_eq!(hw.regs.el1.cntv_ctl_el0, 1);
    assert_eq!(hw.regs.ich.lr[0], 0x5000_0000_0000_0021);
    assert!(hw.ops.contains(&Op::ActivateGpm { root: 1 }));
    // Within a zone the tables stay.
    let before = hw.ops.len();
    vcpu_switch_in(&hv, &mut hw, 0, Some(0));
    assert!(!hw.ops[before..].contains(&Op::ActivateGpm { root: 1 }));
}

#[test]
fn vcpus_travel_between_pcpus() {
    let mut hw = hardware();
    let mut hv = machine(2);
    assert!(zone_create(&mut hv, &hw, &config(0, vec![0, 1]), &setup(1)).is_ok());
    add_zone(&mut hv, 0);
    hv.vcpu_mut(1).state = VCpuState::Ready;
    enqueue_vcpu_on_affinity_pcpu(&mut hv, 0, &mut hw, 1);
    assert!(hv.cpu(1).scheduler.is_queued(1));
    assert!(hv.cpu(1).need_resched);
    assert_eq!(hw.ops, vec![Op::RaiseSgi { cpu: 1, sgi: 7 }]);
    hv.cpu_mut(1).scheduler = PerCpuScheduler::new();
    deliver_vcpu_to_pcpu(&mut hv, &mut hw, 1, 1);
    assert_eq!(hv.cpu(1).incoming_vcpus, vec![1]);
    assert!(!hv.cpu(1).scheduler.is_queued(1));
    drain_incoming_vcpus(&mut hv, 1);
    assert!(hv.cpu(1).incoming_vcpus.is_empty());
    assert!(hv.cpu(1).scheduler.is_queued(1));
    set_current_vcpu(&mut hv, 0, 0);
    assert_eq!(current_vcpu(&hv, 0), 0);
}

#[test]
fn a_wake_from_another_pcpu_is_not_lost() {
    let hw = hardware();
    let mut hv = one_vcpu(&hw);
    let mut sched = PerCpuScheduler::new();
    sched.block_vcpu(0, 0, 0, 0, 0);
    hv.vcpu_mut(0).state = VCpuState::Blocked;
    hv.cpu_mut(0).scheduler = sched;
    hv.cpu_mut(0)
        .pending_wake_ids
        .push_back(PendingWake { vcpu_id: 0, irq_id: 44, is_hardware: true });
    assert_eq!(drain_pending_wake_ids(&mut hv, 0), 1);
    assert_eq!(hv.vcpu(0).state(), VCpuState::Ready);
    assert!(hv.cpu(0).scheduler.is_queued(0));
    assert_eq!(
        hv.vcpu_mut(0).drain_pending_irqs(),
        vec![PendingIrq { irq_id: 44, is_hardware: true }]
    );
}

#[test]
fn no_ready_vcpu_is_lost_by_turns() {
    let mut hw = hardware();
    let mut hv = one_vcpu(&hw);
    // A second zone's vCPU comes to the same pCPU.
    hv.cpu_mut(0).zone = None;
    assert!(matches!(zone_create(&mut hv, &hw, &config(1, vec![0]), &setup(2)), Ok(1)));
    add_zone(&mut hv, 1);
    let mut runs = [0; 2];
    for _ in 0..10 {
        assert_eq!(schedule(&mut hv, 0, &mut hw), SchedOutcome::Switched);
        let running = current_vcpu(&hv, 0);
        let waiting = 1 - running;
        runs[running] += 1;
        assert_eq!(hv.vcpu(waiting).state(), VCpuState::Ready);
        assert!(hv.cpu(0).scheduler.is_queued(waiting));
        assert!(!hv.cpu(0).scheduler.is_queued(running));
        assert!(!hv.cpu(0).scheduler.has_blocked_vcpus());
        sched_tick_handler(&mut hv, 0, &mut hw);
        assert!(hv.cpu(0).need_resched);
    }
    assert_eq!(runs, [5, 5]);
    assert!(hw.ops.contains(&Op::ActivateGpm { root: 1 }));
    assert!(hw.ops.contains(&Op::ActivateGpm { root: 2 }));
}

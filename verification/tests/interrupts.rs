//! Events, injection, the interrupt controller and its emulation.

use hvisor::arch::aarch64::vcpu::{
    detect_gic_lr_count, detect_gic_pri_bits, restore_vgicr, El1SysRegs, GicState, VirtualGicrState,
};
use hvisor::device::irqchip::gicv3::vgic::{
    dist_reg_known, reg_range, restrict_bitmask_access, vgicr_shadow_access, vgicv3_dist_handler,
    vgicv3_its_handler, vgicv3_redist_handler, GicPlan, ItsReg,
};
use hvisor::device::irqchip::gicv3::{
    find_gicr_bases, gicc_init, gicv3_handle_irq_el1, host_gicd_base, host_gicd_size,
    host_gicr_base, host_gicr_size, host_gits_base, host_gits_size, inject_irq, is_lr_free, is_sgi,
    is_spi, pending_irq, percpu_init, primary_init_early, primary_init_late, read_lr,
    schedule_inject_irq, write_lr, Gic, GicConfig, IrqStep, LR_GROUP1, LR_HW, LR_PENDING,
};
use hvisor::event::{
    add_event, check_events, clear_events, dump_cpu_events, dump_events, fetch_event, handle_event,
    send_event, EventOutcome, EventStep, PercpuEvents, IPI_EVENT_CLEAR_INJECT_IRQ,
    IPI_EVENT_INCOMING_VCPU, IPI_EVENT_RESCHED, IPI_EVENT_SHUTDOWN, IPI_EVENT_VIRTIO_INJECT_IRQ,
    IPI_EVENT_WAKEUP, IPI_EVENT_WAKEUP_VIRTIO_DEVICE, IPI_EVENT_ZONE_SHUTDOWN,
};
use hvisor::hardware::{CpuRegs, El2Regs, Hardware, IccRegs, IchRegs, Op, TimerRegs};
use hvisor::hypervisor::{Board, Hypervisor};
use hvisor::memory::{MMIOAccess, MMIOHandler, Stage2PageTable};
use hvisor::scheduler::{schedule, SchedOutcome};
use hvisor::vcpu::{PendingIrq, VCpuState, CNTV_IRQ};
use hvisor::zone::{add_zone, zone_create, MemoryRegion, Zone, ZoneConfig, ZoneSetup};

fn gic() -> Gic {
    Gic {
        gicd_base: 0x0800_0000,
        gicr_base: 0x080a_0000,
        gicd_size: 0x1_0000,
        gicr_size: 0x2_0000,
        gits_base: 0x0808_0000,
        gits_size: 0x2_0000,
    }
}

fn board() -> Board {
    Board {
        irq_wakeup_virtio_device: 77,
        max_devs: 8,
        max_wait_times: 3,
        config_size: 1000,
        legacy_config_size: 900,
    }
}

fn machine(cpus: usize) -> Hypervisor {
    let mut bases: Vec<usize> = Vec::new();
    for cpu in 0..cpus {
        bases.push(0x080a_0000 + cpu * 0x2_0000);
    }
    Hypervisor::new(cpus, gic(), bases, board())
}

fn hardware() -> Hardware {
    Hardware::new(CpuRegs {
        el1: El1SysRegs::default(),
        ich: IchRegs { vtr: 0x9000_0003, vmcr: 0, hcr: 1, ap1r: [0; 4], lr: [0; 16] },
        icc: IccRegs { ctlr: 0, pmr: 0, igrpen1: 0 },
        timer: TimerRegs {
            cntpct_el0: 5_000,
            cntfrq_el0: 1_000_000,
            cnthp_tval_el2: 0,
            cnthp_ctl_el2: 0,
        },
        el2: El2Regs { mpidr_el1: 0, vmpidr_el2: 0, tpidr_el2: 0, pmcr_el0: 0 },
    })
}

fn config(zone_id: u32, cpus: Vec<usize>) -> ZoneConfig {
    ZoneConfig {
        zone_id,
        name: [b'z'; 32],
        cpus,
        memory_regions: vec![MemoryRegion {
            physical_start: 0x8000_0000,
            virtual_start: 0x4000_0000,
            size: 0x1000_0000,
        }],
        interrupts: vec![0, 0x6],
        entry_point: 0x4040_0000,
        dtb_load_paddr: 0x8000_0100,
        is_aarch32: false,
        gic: GicConfig::Gicv3(gic()),
    }
}

fn setup(root: usize) -> ZoneSetup {
    ZoneSetup {
        tables: Ok(Stage2PageTable { root }),
        pre: Ok(()),
        iommu: Ok(None),
        post: Ok(()),
        reset: Ok(()),
        stack_tops: vec![0x1_0000 * root, 0x1_0000 * root + 0x4000, 0x1_0000 * root + 0x8000],
    }
}

/// A machine with two pCPUs and one zone on both; vCPU 0 runs on pCPU 0, vCPU 1 is
/// stopped.
fn running(hw: &mut Hardware) -> Hypervisor {
    let mut hv = machine(2);
    assert!(zone_create(&mut hv, hw, &config(0, vec![0, 1]), &setup(1)).is_ok());
    add_zone(&mut hv, 0);
    hv.set_tick(1_000);
    assert_eq!(schedule(&mut hv, 0, hw), SchedOutcome::Switched);
    hw.ops.clear();
    hv
}

fn lr(irq: u64) -> u64 {
    irq | LR_GROUP1 | LR_PENDING
}

fn hardware_lr(irq: u64) -> u64 {
    lr(irq) | LR_HW | (irq << 32)
}

#[test]
fn events_are_handled_in_the_order_they_came() {
    let mut events = PercpuEvents::new(2);
    assert_eq!(events.len(), 2);
    assert_eq!(add_event(&mut events, 1, IPI_EVENT_RESCHED), Some(()));
    assert_eq!(add_event(&mut events, 1, IPI_EVENT_INCOMING_VCPU), Some(()));
    assert_eq!(add_event(&mut events, 2, IPI_EVENT_RESCHED), None);
    assert_eq!(dump_cpu_events(&mut events, 1), vec![7, 8]);
    assert_eq!(dump_cpu_events(&mut events, 0), vec![]);
    assert_eq!(dump_events(&mut events), vec![(1, vec![7, 8])]);
    assert_eq!(fetch_event(&mut events, 1), Some(7));
    assert_eq!(fetch_event(&mut events, 1), Some(8));
    assert_eq!(fetch_event(&mut events, 1), None);
    assert_eq!(fetch_event(&mut events, 5), None);
}

#[test]
fn a_shutdown_supersedes_other_events() {
    let mut events = PercpuEvents::new(1);
    assert_eq!(add_event(&mut events, 0, IPI_EVENT_RESCHED), Some(()));
    assert_eq!(add_event(&mut events, 0, IPI_EVENT_ZONE_SHUTDOWN), Some(()));
    assert_eq!(dump_cpu_events(&mut events, 0), vec![7, 9]);
    assert_eq!(add_event(&mut events, 0, IPI_EVENT_SHUTDOWN), Some(()));
    assert_eq!(dump_cpu_events(&mut events, 0), vec![1]);
    clear_events(&mut events, 0);
    assert_eq!(fetch_event(&mut events, 0), None);
}

#[test]
fn an_event_is_announced_by_an_sgi() {
    let mut hw = hardware();
    let mut hv = running(&mut hw);
    send_event(&mut hv, &mut hw, 1, 7, IPI_EVENT_WAKEUP);
    assert_eq!(hw.ops, vec![Op::RaiseSgi { cpu: 1, sgi: 7 }]);
    assert_eq!(check_events(&mut hv, 1, &mut hw), EventOutcome::Run);
    assert_eq!(check_events(&mut hv, 1, &mut hw), EventOutcome::Done { handled: false });
    send_event(&mut hv, &mut hw, 0, 7, IPI_EVENT_VIRTIO_INJECT_IRQ);
    assert_eq!(check_events(&mut hv, 0, &mut hw), EventOutcome::Done { handled: true });
    assert!(hw.ops.contains(&Op::HandleVirtioIrq));
    send_event(&mut hv, &mut hw, 0, 7, IPI_EVENT_SHUTDOWN);
    assert_eq!(check_events(&mut hv, 0, &mut hw), EventOutcome::Idle);
}

#[test]
fn each_event_has_its_effect() {
    let mut hw = hardware();
    let mut hv = running(&mut hw);
    assert_eq!(
        handle_event(&mut hv, 0, &mut hw, IPI_EVENT_WAKEUP_VIRTIO_DEVICE),
        EventStep::Handled
    );
    assert_eq!(hw.regs.ich.lr[0], lr(77));
    assert_eq!(handle_event(&mut hv, 0, &mut hw, IPI_EVENT_CLEAR_INJECT_IRQ), EventStep::Handled);
    assert_eq!(hw.ops, vec![Op::ArchEvent { event: 4 }]);
    assert_eq!(handle_event(&mut hv, 0, &mut hw, 55), EventStep::Ignored);
    hv.cpu_mut(0).need_resched = false;
    assert_eq!(handle_event(&mut hv, 0, &mut hw, IPI_EVENT_INCOMING_VCPU), EventStep::Handled);
    assert!(hv.cpu(0).need_resched);
    hv.cpu_mut(0).need_resched = false;
    assert_eq!(handle_event(&mut hv, 0, &mut hw, IPI_EVENT_RESCHED), EventStep::Handled);
    assert!(!hv.cpu(0).need_resched);
    hv.vcpu_mut(1).state = VCpuState::Blocked;
    hv.vcpu_mut(1).push_pending_irq(40, false);
    hv.cpu_mut(1).scheduler.block_vcpu(1, 0, 0, 0, 0);
    assert_eq!(handle_event(&mut hv, 1, &mut hw, IPI_EVENT_RESCHED), EventStep::Handled);
    assert!(hv.cpu(1).need_resched);
    assert_eq!(hv.vcpu(1).state(), VCpuState::Ready);
    hw.regs.el1.cntv_ctl_el0 = 1;
    hv.cpu_mut(0).power_on = true;
    assert_eq!(handle_event(&mut hv, 0, &mut hw, IPI_EVENT_ZONE_SHUTDOWN), EventStep::Idle);
    assert_eq!(hw.regs.el1.cntv_ctl_el0, 0);
    assert_eq!(hv.cpu(0).current_vcpu, None);
    assert_eq!(hv.cpu(0).scheduler.current, None);
    assert!(!hv.cpu(0).power_on);
}

#[test]
fn injections_fill_the_list_registers() {
    let mut hw = hardware();
    let mut hv = running(&mut hw);
    assert!(is_lr_free(read_lr(&hw, 0)));
    assert!(inject_irq(&mut hv, 0, &mut hw, 33, true));
    assert!(inject_irq(&mut hv, 0, &mut hw, 5, true));
    assert!(inject_irq(&mut hv, 0, &mut hw, 33, true));
    assert_eq!(hw.regs.ich.lr[0], 0x7000_0021_0000_0021);
    assert_eq!(hw.regs.ich.lr[0], hardware_lr(33));
    assert_eq!(hw.regs.ich.lr[1], 0x5000_0000_0000_0005);
    assert_eq!(hw.regs.ich.lr[2], 0);
    write_lr(&mut hw, 2, lr(40));
    assert!(!is_lr_free(read_lr(&hw, 2)));
    assert!(inject_irq(&mut hv, 0, &mut hw, 41, false));
    assert!(!inject_irq(&mut hv, 0, &mut hw, 42, false));
    assert_eq!(hw.regs.ich.hcr, 3);
    assert_eq!(
        hv.vcpu_mut(0).drain_pending_irqs(),
        vec![PendingIrq { irq_id: 42, is_hardware: false }]
    );
}

#[test]
fn interrupts_have_kinds() {
    assert!(is_sgi(15) && !is_sgi(16));
    assert!(!is_spi(31) && is_spi(32) && is_spi(1019) && !is_spi(1020));
    assert_eq!(pending_irq(0x3ff), None);
    assert_eq!(pending_irq(27), Some(27));
}

#[test]
fn the_priority_is_dropped_before_the_interrupt_ends() {
    let mut hw = hardware();
    let mut hv = running(&mut hw);
    assert_eq!(gicv3_handle_irq_el1(&mut hv, 0, &mut hw, 0x3ff), IrqStep::Done);
    assert_eq!(hw.ops, vec![]);
    assert_eq!(gicv3_handle_irq_el1(&mut hv, 0, &mut hw, 3), IrqStep::Handled);
    assert_eq!(hw.ops, vec![Op::Eoir { irq: 3 }, Op::Dir { irq: 3 }]);
    assert_eq!(hw.regs.ich.lr[0], lr(3));
    hw.ops.clear();
    assert_eq!(gicv3_handle_irq_el1(&mut hv, 0, &mut hw, 33), IrqStep::Handled);
    assert_eq!(hw.ops, vec![Op::Eoir { irq: 33 }]);
    assert_eq!(hw.regs.ich.lr[1], hardware_lr(33));
    hw.ops.clear();
    assert_eq!(gicv3_handle_irq_el1(&mut hv, 0, &mut hw, 12), IrqStep::Handled);
    assert_eq!(hw.ops, vec![Op::Eoir { irq: 12 }, Op::Dir { irq: 12 }]);
    assert_eq!(hw.regs.ich.lr[2], 0);
}

#[test]
fn a_timer_interrupt_without_room_masks_the_timer() {
    let mut hw = hardware();
    let mut hv = running(&mut hw);
    hw.regs.el1.cntv_ctl_el0 = 5;
    for i in 0..4 {
        hw.regs.ich.lr[i] = lr(100 + i as u64);
    }
    assert_eq!(gicv3_handle_irq_el1(&mut hv, 0, &mut hw, CNTV_IRQ), IrqStep::Handled);
    assert_eq!(hw.ops, vec![Op::Eoir { irq: 27 }, Op::Dir { irq: 27 }]);
    assert_eq!(hw.regs.el1.cntv_ctl_el0, 7);
    assert!(hv.vcpu(0).has_pending_irqs());
    // With room, the guest ends the interrupt itself.
    hw.ops.clear();
    hw.regs.ich.lr[3] = 0;
    hw.regs.el1.cntv_ctl_el0 = 5;
    assert_eq!(gicv3_handle_irq_el1(&mut hv, 0, &mut hw, CNTV_IRQ), IrqStep::Handled);
    assert_eq!(hw.ops, vec![Op::Eoir { irq: 27 }]);
    assert_eq!(hw.regs.el1.cntv_ctl_el0, 5);
    assert_eq!(hw.regs.ich.lr[3], hardware_lr(27));
}

#[test]
fn the_maintenance_interrupt_injects_what_waited() {
    let mut hw = hardware();
    let mut hv = running(&mut hw);
    hw.regs.ich.hcr = 3;
    hv.vcpu_mut(0).push_pending_irq(50, false);
    assert_eq!(gicv3_handle_irq_el1(&mut hv, 0, &mut hw, 25), IrqStep::Handled);
    assert_eq!(hw.regs.ich.lr[0], lr(50));
    assert_eq!(hw.regs.ich.hcr, 1);
    assert_eq!(hw.ops, vec![Op::Eoir { irq: 25 }, Op::Dir { irq: 25 }]);
}

#[test]
fn the_tick_comes_by_the_timer_interrupt() {
    let mut hw = hardware();
    let mut hv = running(&mut hw);
    assert_eq!(gicv3_handle_irq_el1(&mut hv, 0, &mut hw, 26), IrqStep::Handled);
    assert!(hv.cpu(0).need_resched);
    assert_eq!(hw.ops, vec![Op::Eoir { irq: 26 }, Op::Dir { irq: 26 }]);
}

#[test]
fn the_sgi_for_events_goes_to_the_guest_if_there_is_no_event() {
    let mut hw = hardware();
    let mut hv = running(&mut hw);
    assert_eq!(gicv3_handle_irq_el1(&mut hv, 0, &mut hw, 7), IrqStep::Handled);
    assert_eq!(hw.regs.ich.lr[0], lr(7));
    send_event(&mut hv, &mut hw, 0, 7, IPI_EVENT_RESCHED);
    hw.regs.ich.lr[0] = 0;
    assert_eq!(gicv3_handle_irq_el1(&mut hv, 0, &mut hw, 7), IrqStep::Handled);
    assert_eq!(hw.regs.ich.lr[0], 0);
    send_event(&mut hv, &mut hw, 0, 7, IPI_EVENT_WAKEUP);
    assert_eq!(gicv3_handle_irq_el1(&mut hv, 0, &mut hw, 7), IrqStep::Run);
    send_event(&mut hv, &mut hw, 0, 7, IPI_EVENT_SHUTDOWN);
    assert_eq!(gicv3_handle_irq_el1(&mut hv, 0, &mut hw, 7), IrqStep::Idle);
}

#[test]
fn a_shared_interrupt_goes_where_it_is_routed() {
    let mut hw = hardware();
    let mut hv = running(&mut hw);
    hv.vcpu_mut(1).state = VCpuState::Ready;
    hv.zone_mut(0).write().irq_target_vcpu[34] = Some(1);
    assert!(!schedule_inject_irq(&mut hv, 0, &mut hw, 34, true));
    assert_eq!(hw.regs.ich.lr[0], 0);
    assert_eq!(
        hv.vcpu_mut(1).drain_pending_irqs(),
        vec![PendingIrq { irq_id: 34, is_hardware: true }]
    );
    assert_eq!(hw.ops, vec![Op::RaiseSgi { cpu: 1, sgi: 7 }]);
    assert_eq!(fetch_event(hv.events_mut(), 1), Some(IPI_EVENT_RESCHED));
    assert!(schedule_inject_irq(&mut hv, 0, &mut hw, 33, true));
    assert_eq!(hw.regs.ich.lr[0], hardware_lr(33));
}

#[test]
fn the_interface_is_set_up_empty() {
    let mut hw = hardware();
    hw.regs.icc.pmr = 0x1a0;
    hw.regs.ich.lr = [9; 16];
    hw.regs.ich.ap1r = [9; 4];
    hw.regs.ich.vtr = 0xb000_0003;
    percpu_init(&mut hw);
    assert_eq!(hw.regs.icc, IccRegs { ctlr: 2, pmr: 0xf0, igrpen1: 1 });
    assert_eq!(hw.regs.ich.vmcr, 0xa000_0002);
    assert_eq!(hw.regs.ich.hcr, 1);
    assert_eq!(&hw.regs.ich.lr[..5], &[0, 0, 0, 0, 9]);
    assert_eq!(hw.regs.ich.ap1r, [0, 0, 9, 9]);
    assert_eq!(hw.ops, vec![Op::EnableIpi]);
    gicc_init(&mut hw);
    assert_eq!(hw.regs.ich.vmcr, 0xf000_0002);
    primary_init_late(&mut hw);
    assert_eq!(
        hw.ops,
        vec![Op::EnableIpi, Op::EnableAffinityRouting, Op::EnableIrqs]
    );
}

#[test]
fn redistributors_are_found_by_affinity() {
    let affinities = vec![0, 1, 0x100];
    let typers = vec![0x100u64 << 32, 0, (1u64 << 32) | 0x10];
    assert_eq!(
        find_gicr_bases(0x1000_0000, &typers, &affinities),
        Some(vec![0x1002_0000, 0x1004_0000, 0x1000_0000])
    );
    assert_eq!(find_gicr_bases(0x1000_0000, &vec![7u64 << 32], &vec![0]), None);
}

#[test]
fn the_controller_comes_from_the_configuration() {
    let (found, its) = primary_init_early(&GicConfig::Gicv3(gic()));
    assert!(its);
    assert_eq!(host_gicd_base(&found), 0x0800_0000);
    assert_eq!(host_gicd_size(&found), 0x1_0000);
    assert_eq!(host_gicr_size(&found), 0x2_0000);
    assert_eq!(host_gits_base(&found), 0x0808_0000);
    assert_eq!(host_gits_size(&found), 0x2_0000);
    let without = Gic { gits_size: 0, ..gic() };
    assert!(!primary_init_early(&GicConfig::Gicv3(without)).1);
    let hv = machine(2);
    assert_eq!(host_gicr_base(&hv, 1), 0x080c_0000);
    let mut hw = hardware();
    let zone = Zone::new(3, &[0; 32], Stage2PageTable { root: 1 }, None);
    zone.arch_irqchip_reset(&without, &mut hw);
    assert_eq!(hw.ops.len(), 62);
    assert_eq!(hw.ops[0], Op::Write32 { addr: 0x0800_0184, word: 0 });
    assert_eq!(hw.ops[1], Op::Write32 { addr: 0x0800_0384, word: 0 });
}

fn access(address: usize, write: Option<u64>) -> MMIOAccess {
    MMIOAccess { address, size: 4, is_write: write.is_some(), value: write.unwrap_or(0) }
}

#[test]
fn a_guest_reaches_the_bits_of_its_own_interrupts_only() {
    let mut hw = hardware();
    let mut hv = running(&mut hw);
    let base = 0x0800_0000;
    // The zone owns 33 and 34.
    let mut read = access(0x104, None);
    assert_eq!(
        vgicv3_dist_handler(&mut hv, 0, &mut read),
        GicPlan::Masked { base, mask: 0x6 }
    );
    let mut write = access(0x104, Some(0xffff_ffff));
    assert_eq!(vgicv3_dist_handler(&mut hv, 0, &mut write), GicPlan::Perform { base });
    assert_eq!(write.value, 0x6);
    let mut config = access(0xc08, Some(0));
    assert_eq!(
        vgicv3_dist_handler(&mut hv, 0, &mut config),
        GicPlan::Modify { base, mask: 0x3c }
    );
    let mut priority = access(0x420, Some(0));
    assert_eq!(
        vgicv3_dist_handler(&mut hv, 0, &mut priority),
        GicPlan::Modify { base, mask: 0x00ff_ff00 }
    );
    assert_eq!(GicPlan::merged(0x3c, 0xff, 0x4), 0xc7);
    let seen = GicPlan::Masked { base, mask: 0x6 }.finish(&read, 0xf);
    assert_eq!(seen, 0x6);
}

#[test]
fn an_access_leaves_the_bits_of_others_alone() {
    let mut zone = Zone::new(1, &[0; 32], Stage2PageTable { root: 1 }, None);
    zone.irq_bitmap_init(&[0, 0x5]);
    let held = 0xffff_0000;
    let mut read = access(0x84, None);
    let plan = restrict_bitmask_access(zone.read(), &mut read, 1, 1, false, 0x1000);
    assert_eq!(plan, GicPlan::Masked { base: 0x1000, mask: 0x5 });
    assert_eq!(plan.written(&read, held), None);
    assert_eq!(plan.finish(&read, 0xf), 0x5);
    let mut poke = access(0x104, Some(0xff));
    let plan = restrict_bitmask_access(zone.read(), &mut poke, 1, 1, true, 0x1000);
    assert_eq!(plan.written(&poke, held), Some(0x5));
    // Two bits for each interrupt: 32 has the lowest, 34 those from bit 4 on.
    let mut write = access(0xc08, Some(0xffff_ffff));
    let plan = restrict_bitmask_access(zone.read(), &mut write, 2, 2, false, 0x1000);
    assert_eq!(plan, GicPlan::Modify { base: 0x1000, mask: 0x33 });
    assert_eq!(plan.written(&write, held), Some(0xffff_0033));
    assert_eq!(write, access(0xc08, Some(0xffff_ffff)));
}

#[test]
fn routing_names_vcpus_to_the_guest_and_pcpus_to_the_hardware() {
    let mut hw = hardware();
    let mut hv = running(&mut hw);
    let base = 0x0800_0000;
    let mut route = access(0x6000 + 33 * 8, Some(1));
    assert_eq!(
        vgicv3_dist_handler(&mut hv, 0, &mut route),
        GicPlan::Substitute { base, host: 1 }
    );
    assert_eq!(hv.zone(0).read().irq_target(33), Some(1));
    let mut any = access(0x6000 + 33 * 8, Some(0x8000_0000));
    assert_eq!(
        vgicv3_dist_handler(&mut hv, 0, &mut any),
        GicPlan::Substitute { base, host: 0x8000_0000 }
    );
    assert_eq!(hv.zone(0).read().irq_target(33), None);
    let mut foreign = access(0x6000 + 40 * 8, Some(1));
    assert_eq!(vgicv3_dist_handler(&mut hv, 0, &mut foreign), GicPlan::Done);
    let mut ctlr = access(0, None);
    assert_eq!(vgicv3_dist_handler(&mut hv, 0, &mut ctlr), GicPlan::Perform { base });
    let mut ctlr = access(0, Some(3));
    assert_eq!(vgicv3_dist_handler(&mut hv, 0, &mut ctlr), GicPlan::Done);
    assert!(dist_reg_known(0x6000));
    assert!(!dist_reg_known(0x40));
    assert_eq!(reg_range(0x80, 32, 4), 0x80..0x100);
}

#[test]
fn a_redistributor_shadow_keeps_what_was_written() {
    let mut hw = hardware();
    let mut hv = running(&mut hw);
    // vCPU 1 does not run here: nothing goes to the hardware.
    let mut enable = access(0x1_0100, Some(0x0000_0f00));
    assert_eq!(vgicv3_redist_handler(&mut hv, 0, &mut enable, 1), GicPlan::Done);
    let mut read = access(0x1_0100, None);
    assert_eq!(vgicv3_redist_handler(&mut hv, 0, &mut read, 1), GicPlan::Done);
    assert_eq!(read.value, 0xf00);
    let mut group = access(0x1_0080, Some(0));
    assert_eq!(vgicv3_redist_handler(&mut hv, 0, &mut group, 1), GicPlan::Done);
    let shadow = hv.vcpu(1).arch.gic_state.vgicr;
    assert_eq!(shadow.igroupr, 0x400_0000);
    assert!(shadow.initialized);
    let mut direct = VirtualGicrState::default();
    let mut config = access(0x1_0c04, Some(5));
    vgicr_shadow_access(&mut direct, &mut config, 0x1_0c04);
    assert_eq!(direct.icfgr, [0, 5]);
}

#[test]
fn a_guest_cannot_disable_the_hypervisors_interrupts() {
    let mut hw = hardware();
    let mut hv = running(&mut hw);
    let mut enable = access(0x1_0100, Some(0xffff_ffff));
    assert_eq!(
        vgicv3_redist_handler(&mut hv, 0, &mut enable, 0),
        GicPlan::Perform { base: 0x080a_0000 }
    );
    let mut disable = access(0x1_0180, Some(0xffff_ffff));
    assert_eq!(
        vgicv3_redist_handler(&mut hv, 0, &mut disable, 0),
        GicPlan::Perform { base: 0x080a_0000 }
    );
    assert_eq!(disable.value, 0xf9ff_ff7f);
    assert_eq!(hv.vcpu(0).arch.gic_state.vgicr.isenabler, 0x0600_0080);
}

#[test]
fn redistributors_are_numbered_within_the_zone() {
    let mut hw = hardware();
    let mut hv = running(&mut hw);
    let mut typer = access(8, None);
    typer.size = 8;
    let plan = vgicv3_redist_handler(&mut hv, 0, &mut typer, 1);
    assert_eq!(plan, GicPlan::Typer { base: 0x080c_0000, index: 1, last: true });
    assert_eq!(plan.finish(&typer, 0x1234_5678_00ab_cd00), 0x1_0000_0110);
    let mut high = access(0xc, None);
    let plan = vgicv3_redist_handler(&mut hv, 0, &mut high, 1);
    assert_eq!(plan.finish(&high, 0), 1);
    let mut ctlr = access(0, None);
    assert_eq!(
        vgicv3_redist_handler(&mut hv, 0, &mut ctlr, 0),
        GicPlan::Masked { base: 0x080a_0000, mask: !0x3 }
    );
    let mut lpi = access(0xa0, Some(8195));
    assert_eq!(
        vgicv3_redist_handler(&mut hv, 0, &mut lpi, 0),
        GicPlan::EnableLpi { lpi: 3 }
    );
    let mut prop = access(0x70, Some(0));
    assert_eq!(vgicv3_redist_handler(&mut hv, 0, &mut prop, 0), GicPlan::SetPropBaser { value: 0 });
    let mut sync = access(0xc0, Some(9));
    assert_eq!(vgicv3_redist_handler(&mut hv, 0, &mut sync, 0), GicPlan::Done);
    assert_eq!(sync.value, 0);
    // A vCPU that is not in the zone has no redistributor here, whatever is written.
    let mut strange = access(0xa0, Some(9));
    assert_eq!(vgicv3_redist_handler(&mut hv, 0, &mut strange, 6), GicPlan::Done);
}

#[test]
fn translation_tables_of_other_zones_stay_virtual() {
    let mut hw = hardware();
    let mut hv = running(&mut hw);
    assert_eq!(
        vgicv3_its_handler(&hv, 0, &access(0x80, None)),
        GicPlan::ItsRead { zone_id: 0, reg: ItsReg::Cbaser }
    );
    assert_eq!(
        vgicv3_its_handler(&hv, 0, &access(0x80, Some(6))),
        GicPlan::ItsSet { zone_id: 0, reg: ItsReg::Cbaser, value: 6 }
    );
    assert_eq!(
        vgicv3_its_handler(&hv, 0, &access(0x100, Some(0x8000_0000_4000_1007))),
        GicPlan::ItsSetTable {
            zone_id: 0,
            reg: ItsReg::DtBaser,
            value: 0x8000_0000_4000_1007,
            base: 0x0808_0000,
            table: 0x4000_1000,
        }
    );
    assert_eq!(
        vgicv3_its_handler(&hv, 0, &access(0x100, None)),
        GicPlan::ItsRead { zone_id: 0, reg: ItsReg::DtBaser }
    );
    assert_eq!(
        vgicv3_its_handler(&hv, 0, &access(0x88, Some(1))),
        GicPlan::ItsSet { zone_id: 0, reg: ItsReg::Cwriter, value: 1 }
    );
    assert_eq!(
        vgicv3_its_handler(&hv, 0, &access(0x90, Some(1))),
        GicPlan::ItsRead { zone_id: 0, reg: ItsReg::Creadr }
    );
    assert_eq!(
        vgicv3_its_handler(&hv, 0, &access(0, None)),
        GicPlan::Perform { base: 0x0808_0000 }
    );
    hv.zone_mut(0).id = 2;
    assert_eq!(
        vgicv3_its_handler(&hv, 0, &access(0x108, Some(1))),
        GicPlan::ItsSet { zone_id: 2, reg: ItsReg::CtBaser, value: 1 }
    );
    assert_eq!(
        GicPlan::translated(0x8000_0000_4000_1007, Some(0x9000_0000)),
        0x8000_0000_9000_0007
    );
    assert_eq!(GicPlan::translated(5, None), 5);
}

#[test]
fn a_virtual_controller_is_registered_for_a_zone() {
    let mut zone = Zone::new(1, &[0; 32], Stage2PageTable { root: 1 }, None);
    zone.irq_bitmap_init(&[0, 0x10]);
    zone.irq_bitmap_init(&[0, 0x1]);
    assert!(zone.read().irq_in_zone(32) && zone.read().irq_in_zone(36));
    zone.write().vcpus = vec![4, 5];
    zone.write().vcpu_base = 4;
    zone.vgicv3_mmio_init(&GicConfig::Gicv3(gic()));
    let found = zone.read().find_mmio_region(0x0800_0100, 4);
    assert_eq!(found.map(|region| region.1), Some(MMIOHandler::GicDistributor));
    let found = zone.read().find_mmio_region(0x0808_0100, 4);
    assert_eq!(found.map(|region| region.1), Some(MMIOHandler::GicIts));
    let found = zone.read().find_mmio_region(0x080c_0100, 4);
    assert_eq!(
        found.map(|region| (region.1, region.2)),
        Some((MMIOHandler::GicRedistributor, 5))
    );
}

#[test]
fn the_interface_of_a_vcpu_is_kept() {
    let mut hw = hardware();
    assert_eq!(detect_gic_lr_count(&hw), 4);
    assert_eq!(detect_gic_pri_bits(&hw), 5);
    let mut state = GicState::new_with_lr_count(4, &hw);
    assert_eq!(state.ich_vmcr, 0xff00_0002);
    assert_eq!(state.ich_hcr, 1);
    hw.regs.ich.lr[3] = 0x77;
    hw.regs.ich.lr[4] = 0x88;
    hw.regs.ich.vmcr = 0x5;
    hw.regs.ich.ap1r = [1, 2, 3, 4];
    state.save_from_hardware(&hw);
    hw.regs.ich.lr[3] = 0;
    hw.regs.ich.vmcr = 0;
    hw.regs.ich.ap1r = [0; 4];
    state.restore_to_hardware(&mut hw);
    assert_eq!(hw.regs.ich.lr[3], 0x77);
    assert_eq!(hw.regs.ich.vmcr, 0x5);
    assert_eq!(hw.regs.ich.ap1r, [1, 0, 0, 0]);
    assert_eq!(GicState::default().lr_count, 0);
}

#[test]
fn a_redistributor_shadow_is_restored_to_the_hardware() {
    let mut hw = hardware();
    let mut hv = running(&mut hw);
    hv.vcpu_mut(0).arch.gic_state.vgicr.initialized = true;
    hv.vcpu_mut(0).arch.gic_state.vgicr.isenabler = 0x800_0000;
    hv.vcpu_mut(0).arch.gic_state.vgicr.ipriorityr[6] = 0x1111_1111;
    hv.vcpu_mut(0).arch.gic_state.vgicr.icfgr = [2, 3];
    restore_vgicr(&hv, hv.vcpu(0), &mut hw);
    assert_eq!(hw.ops.len(), 15);
    assert_eq!(hw.ops[0], Op::Write32 { addr: 0x080b_0100, word: 0x0400_0000 });
    assert_eq!(hw.ops[1], Op::Write8 { addr: 0x080b_041a, byte: 0xa0 });
    assert_eq!(hw.ops[2], Op::Write32 { addr: 0x080b_0080, word: 0 });
    assert_eq!(hw.ops[3], Op::Write32 { addr: 0x080b_0180, word: 0xf9ff_ff7f });
    assert_eq!(hw.ops[4], Op::Write32 { addr: 0x080b_0100, word: 0x0c00_0000 });
    assert_eq!(hw.ops[11], Op::Write32 { addr: 0x080b_0418, word: 0x1111_1111 });
    assert_eq!(hw.ops[13], Op::Write8 { addr: 0x080b_041a, byte: 0xa0 });
    assert_eq!(hw.ops[14], Op::Write32 { addr: 0x080b_0c04, word: 3 });
    // A guest that has written nothing leaves the EL2 timer on all the same.
    hw.ops.clear();
    restore_vgicr(&hv, hv.vcpu(1), &mut hw);
    assert_eq!(
        hw.ops,
        vec![
            Op::Write32 { addr: 0x080d_0100, word: 0x0400_0000 },
            Op::Write8 { addr: 0x080d_041a, byte: 0xa0 },
        ]
    );
}

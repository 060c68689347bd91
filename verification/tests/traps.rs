//! Traps of guests and returning to them.

use hvisor::arch::aarch64::trap::{
    arch_handle_exit, arch_handle_trap_el1, arch_skip_instruction, dabt_access,
    deliver_sgi_to_vcpu, exit_kind, handle_arch_smc, handle_dabt, handle_guest_sgi, handle_hvc,
    handle_psci_smc, handle_smc, handle_sysreg, handle_wfi_trap, psci_emulate_cpu_on,
    psci_emulate_features_info, psci_system_off, smc_forwarded, vcpu_vmreturn, wfi_resume,
    ExitKind, PsciStep, SmcStep, TrapKind, VmReturn, WfiStep, PSCI_AFFINITY_INFO_64,
    PSCI_CPU_OFF_32, PSCI_CPU_ON_64, PSCI_SYSTEM_OFF, PSCI_VERSION,
};
use hvisor::arch::aarch64::vcpu::{
    arch_wakeup_vcpu, ArchVCpu, El1SysRegs, TrapFrame, STACK_ALIGN, TRAP_FRAME_SIZE,
};
use hvisor::device::irqchip::gicv3::{Gic, GicConfig};
use hvisor::error::{HvError, HvErrorNum};
use hvisor::event::fetch_event;
use hvisor::hardware::{CpuRegs, El2Regs, Hardware, IccRegs, IchRegs, Op, TimerRegs};
use hvisor::hypervisor::{Board, Hypervisor};
use hvisor::memory::{MMIOAccess, Stage2PageTable};
use hvisor::scheduler::{schedule, SchedOutcome};
use hvisor::vcpu::{PendingIrq, VCpuState, CNTV_IRQ};
use hvisor::zone::{add_zone, zone_create, MemoryRegion, Zone, ZoneConfig, ZoneSetup};

fn gic() -> Gic {
    Gic {
        gicd_base: 0x0800_0000,
        gicr_base: 0x080a_0000,
        gicd_size: 0x1_0000,
        gicr_size: 0x2_0000,
        gits_base: 0x0808_0000,
        gits_size: 0x2_0000,
    }
}

fn board() -> Board {
    Board {
        irq_wakeup_virtio_device: 77,
        max_devs: 8,
        max_wait_times: 3,
        config_size: 1000,
        legacy_config_size: 900,
    }
}

fn machine(cpus: usize) -> Hypervisor {
    let mut bases: Vec<usize> = Vec::new();
    for cpu in 0..cpus {
        bases.push(0x080a_0000 + cpu * 0x2_0000);
    }
    Hypervisor::new(cpus, gic(), bases, board())
}

fn hardware() -> Hardware {
    Hardware::new(CpuRegs {
        el1: El1SysRegs::default(),
        ich: IchRegs { vtr: 0x9000_0003, vmcr: 0, hcr: 1, ap1r: [0; 4], lr: [0; 16] },
        icc: IccRegs { ctlr: 0, pmr: 0, igrpen1: 0 },
        timer: TimerRegs {
            cntpct_el0: 5_000,
            cntfrq_el0: 1_000_000,
            cnthp_tval_el2: 0,
            cnthp_ctl_el2: 0,
        },
        el2: El2Regs { mpidr_el1: 0, vmpidr_el2: 0, tpidr_el2: 0, pmcr_el0: 0 },
    })
}

fn config(zone_id: u32, cpus: Vec<usize>) -> ZoneConfig {
    ZoneConfig {
        zone_id,
        name: [b'z'; 32],
        cpus,
        memory_regions: vec![MemoryRegion {
            physical_start: 0x8000_0000,
            virtual_start: 0x4000_0000,
            size: 0x1000_0000,
        }],
        interrupts: vec![0, 0x6],
        entry_point: 0x4040_0000,
        dtb_load_paddr: 0x8000_0100,
        is_aarch32: false,
        gic: GicConfig::Gicv3(gic()),
    }
}

fn setup(root: usize) -> ZoneSetup {
    ZoneSetup {
        tables: Ok(Stage2PageTable { root }),
        pre: Ok(()),
        iommu: Ok(None),
        post: Ok(()),
        reset: Ok(()),
        stack_tops: vec![0x1_0000 * root, 0x1_0000 * root + 0x4000, 0x1_0000 * root + 0x8000],
    }
}

/// A machine with two pCPUs and one zone on both; vCPU 0 runs on pCPU 0, vCPU 1 is
/// stopped.
fn running(hw: &mut Hardware) -> Hypervisor {
    let mut hv = machine(2);
    assert!(zone_create(&mut hv, hw, &config(0, vec![0, 1]), &setup(1)).is_ok());
    add_zone(&mut hv, 0);
    hv.set_tick(1_000);
    assert_eq!(schedule(&mut hv, 0, hw), SchedOutcome::Switched);
    hw.ops.clear();
    hv
}

const LONG: u64 = 1 << 25;

#[test]
fn exits_and_traps_have_kinds() {
    assert_eq!(exit_kind(0), ExitKind::HypervisorTrap);
    assert_eq!(exit_kind(1), ExitKind::HypervisorIrq);
    assert_eq!(exit_kind(2), ExitKind::GuestTrap);
    assert_eq!(exit_kind(3), ExitKind::GuestIrq);
    assert_eq!(exit_kind(4), ExitKind::GuestTrap);
    assert_eq!(exit_kind(5), ExitKind::GuestIrq);
    assert_eq!(exit_kind(6), ExitKind::Unsupported);
    assert_eq!(arch_handle_trap_el1(0x16 << 26), TrapKind::Hvc);
    assert_eq!(arch_handle_trap_el1(0x17 << 26), TrapKind::Smc);
    assert_eq!(arch_handle_trap_el1(0x18 << 26), TrapKind::Sysreg);
    assert_eq!(arch_handle_trap_el1(0x01 << 26), TrapKind::WfiOrWfe);
    assert_eq!(arch_handle_trap_el1(0x24 << 26), TrapKind::DataAbort);
    assert_eq!(arch_handle_trap_el1(0x20 << 26), TrapKind::InstrAbort);
    assert_eq!(arch_handle_trap_el1(0), TrapKind::Unsupported);
}

#[test]
fn an_instruction_has_two_or_four_bytes() {
    let mut regs = TrapFrame::default();
    arch_skip_instruction(&mut regs, LONG);
    assert_eq!(regs.elr, 4);
    arch_skip_instruction(&mut regs, 0);
    assert_eq!(regs.elr, 6);
    regs.elr = u64::MAX;
    arch_skip_instruction(&mut regs, 0);
    assert_eq!(regs.elr, 1);
}

#[test]
fn a_guest_is_entered_with_what_was_pending() {
    let mut hw = hardware();
    let mut hv = running(&mut hw);
    hv.vcpu_mut(0).push_pending_irq(5, false);
    hv.vcpu_mut(0).push_pending_irq(CNTV_IRQ, false);
    hw.regs.el1.cntv_ctl_el0 = 1;
    assert_eq!(
        vcpu_vmreturn(&mut hv, 0, &mut hw),
        VmReturn::Enter { trapframe_ptr: 0x1_0000 - TRAP_FRAME_SIZE }
    );
    assert_eq!(hw.regs.ich.lr[0], 0x5000_0000_0000_0005);
    assert_eq!(hw.regs.ich.lr[1], 0x5000_0000_0000_001b);
    assert_eq!(hw.regs.el1.cntv_ctl_el0, 3);
    assert_eq!(hw.regs.el2.tpidr_el2, 0x1_0000 - 272);
    assert!(!hv.vcpu(0).has_pending_irqs());
    // A timer that interrupts by itself needs no help.
    hv.vcpu_mut(0).push_pending_irq(CNTV_IRQ, false);
    hw.regs.el1.cntv_ctl_el0 = 5;
    hw.regs.ich.lr = [0; 16];
    vcpu_vmreturn(&mut hv, 0, &mut hw);
    assert_eq!(hw.regs.ich.lr[0], 0);
    assert_eq!(hw.regs.el1.cntv_ctl_el0, 5);
}

#[test]
fn entering_a_guest_loses_no_interrupt() {
    let mut hw = hardware();
    let mut hv = running(&mut hw);
    for irq in 40..46 {
        hv.vcpu_mut(0).push_pending_irq(irq, false);
    }
    vcpu_vmreturn(&mut hv, 0, &mut hw);
    for i in 0..4 {
        assert_eq!(hw.regs.ich.lr[i] & 0xffff_ffff, 40 + i as u64);
    }
    assert_eq!(
        hv.vcpu_mut(0).drain_pending_irqs(),
        vec![
            PendingIrq { irq_id: 44, is_hardware: false },
            PendingIrq { irq_id: 45, is_hardware: false },
        ]
    );
    assert_eq!(hw.regs.ich.hcr & 2, 2);
}

#[test]
fn a_pcpu_without_a_guest_schedules() {
    let mut hw = hardware();
    let mut hv = running(&mut hw);
    assert_eq!(vcpu_vmreturn(&mut hv, 1, &mut hw), VmReturn::Idle { prev_zone: None });
    hv.vcpu_mut(1).state = VCpuState::Ready;
    hv.cpu_mut(1).incoming_vcpus.push_back(1);
    assert_eq!(vcpu_vmreturn(&mut hv, 1, &mut hw), VmReturn::Retry);
    assert_eq!(
        vcpu_vmreturn(&mut hv, 1, &mut hw),
        VmReturn::Enter { trapframe_ptr: 0x1_4000 - 272 }
    );
}

#[test]
fn an_exit_schedules_if_asked_to() {
    let mut hw = hardware();
    let mut hv = running(&mut hw);
    hv.vcpu_mut(0).state = VCpuState::Blocked;
    hv.cpu_mut(0).need_resched = true;
    assert_eq!(arch_handle_exit(&mut hv, 0, &mut hw), VmReturn::Idle { prev_zone: Some(0) });
    assert_eq!(hv.cpu(0).scheduler.find_blocked(0), Some(0));
}

#[test]
fn a_lone_guest_waits_on_its_pcpu() {
    let mut hw = hardware();
    let mut hv = running(&mut hw);
    let mut regs = TrapFrame::default();
    hw.regs.el1.cntv_ctl_el0 = 1;
    hw.regs.el1.cntv_cval_el0 = 5_200;
    hw.regs.el1.cntvoff_el2 = 100;
    assert_eq!(handle_wfi_trap(&mut hv, 0, &mut hw, &mut regs, LONG), WfiStep::Wait);
    assert_eq!(regs.elr, 4);
    assert_eq!(hw.regs.timer.cnthp_tval_el2, 300);
    wfi_resume(&mut hv, 0);
    assert!(!hv.cpu(0).need_resched);
    hv.vcpu_mut(0).push_pending_irq(4, false);
    assert_eq!(handle_wfi_trap(&mut hv, 0, &mut hw, &mut regs, LONG), WfiStep::Done);
    assert_eq!(hv.vcpu(0).state(), VCpuState::Running);
    // WFE does not wait.
    hv.vcpu_mut(0).drain_pending_irqs();
    assert_eq!(handle_wfi_trap(&mut hv, 0, &mut hw, &mut regs, LONG | 1), WfiStep::Done);
    hw.regs.el1.cntv_ctl_el0 = 5;
    assert_eq!(handle_wfi_trap(&mut hv, 0, &mut hw, &mut regs, LONG), WfiStep::Done);
    assert_eq!(regs.elr, 16);
}

#[test]
fn a_guest_that_shares_its_pcpu_blocks() {
    let mut hw = hardware();
    let mut hv = running(&mut hw);
    let mut regs = TrapFrame::default();
    hv.cpu_mut(0).scheduler.block_vcpu(1, 0, 0, 0, 0);
    assert_eq!(handle_wfi_trap(&mut hv, 0, &mut hw, &mut regs, LONG), WfiStep::Done);
    assert_eq!(hv.vcpu(0).state(), VCpuState::Blocked);
    assert!(hv.cpu(0).need_resched);
}

#[test]
fn an_abort_describes_an_access() {
    let mut regs = TrapFrame::default();
    regs.x[3] = 0xabcd;
    let write = (2 << 22) | (3 << 16) | (1 << 6);
    assert_eq!(
        dabt_access(&regs, write, 0x8_0000, 0xffff_0104),
        MMIOAccess { address: 0x800_0104, size: 4, is_write: true, value: 0xabcd }
    );
    let zero = (3 << 22) | (31 << 16) | (1 << 6);
    assert_eq!(dabt_access(&regs, zero, 0, 0).value, 0);
    assert_eq!(dabt_access(&regs, zero, 0, 0).size, 8);
    assert!(!dabt_access(&regs, 3 << 16, 0, 0).is_write);
}

#[test]
fn a_load_fills_its_register() {
    let mut hw = hardware();
    let mut hv = running(&mut hw);
    let mut regs = TrapFrame::default();
    handle_dabt(&mut hv, 0, &mut regs, LONG | (2 << 22) | (3 << 16), Ok(0x55));
    assert_eq!(regs.x[3], 0x55);
    assert_eq!(regs.elr, 4);
    handle_dabt(&mut hv, 0, &mut regs, LONG | (1 << 21) | (3 << 16), Ok(0x80));
    assert_eq!(regs.x[3], 0xff_ffff_ff80);
    handle_dabt(&mut hv, 0, &mut regs, LONG | (1 << 6) | (4 << 16), Ok(9));
    assert_eq!(regs.x[4], 0);
    // A store of eight bytes, or a load that goes nowhere, extends nothing.
    let wide = LONG | (1 << 21) | (3 << 22);
    handle_dabt(&mut hv, 0, &mut regs, wide | (1 << 6) | (4 << 16), Ok(9));
    handle_dabt(&mut hv, 0, &mut regs, wide | (31 << 16), Ok(9));
    assert_eq!(regs.x[4], 0);
    assert_eq!(regs.elr, 20);
}

#[test]
fn a_failed_access_is_an_error_of_the_zone() {
    let mut hw = hardware();
    let mut hv = running(&mut hw);
    assert_eq!(zone_create(&mut hv, &hw, &config(3, vec![]), &setup(2)), Ok(3));
    add_zone(&mut hv, 3);
    hv.cpu_mut(1).zone = Some(3);
    let mut regs = TrapFrame::default();
    let failed = Err(HvError::new(HvErrorNum::EINVAL));
    handle_dabt(&mut hv, 1, &mut regs, LONG, failed);
    assert!(hv.zone(3).is_err());
    assert_eq!(regs.elr, 4);
}

#[test]
fn an_sgi_reaches_its_target() {
    let mut hw = hardware();
    let mut hv = running(&mut hw);
    // To itself: a list register.
    deliver_sgi_to_vcpu(&mut hv, 0, &mut hw, 0, 2);
    assert_eq!(hw.regs.ich.lr[0], 0x5000_0000_0000_0002);
    // To a stopped vCPU: nowhere.
    deliver_sgi_to_vcpu(&mut hv, 0, &mut hw, 1, 2);
    assert!(!hv.vcpu(1).has_pending_irqs());
    // To a ready vCPU elsewhere: it is pending, and its pCPU is told.
    hv.vcpu_mut(1).state = VCpuState::Ready;
    handle_guest_sgi(&mut hv, 0, &mut hw, 1 << 40, 3);
    assert_eq!(
        hv.vcpu_mut(1).drain_pending_irqs(),
        vec![PendingIrq { irq_id: 3, is_hardware: false }]
    );
    assert!(hv.cpu(1).need_resched);
    assert_eq!(hw.ops, vec![Op::RaiseSgi { cpu: 1, sgi: 7 }]);
    assert_eq!(hw.regs.ich.lr[1], 0);
}

#[test]
fn an_sgi_register_names_targets_and_number() {
    let mut hw = hardware();
    let mut hv = running(&mut hw);
    hv.vcpu_mut(1).state = VCpuState::Blocked;
    let mut regs = TrapFrame::default();
    regs.x[7] = (9 << 24) | 0x2;
    handle_sysreg(&mut hv, 0, &mut hw, &mut regs, LONG | (7 << 5));
    assert_eq!(regs.elr, 4);
    assert_eq!(
        hv.vcpu_mut(1).drain_pending_irqs(),
        vec![PendingIrq { irq_id: 9, is_hardware: false }]
    );
    assert_eq!(fetch_event(hv.events_mut(), 1), Some(7));
}

#[test]
fn a_hypercall_returns_its_result() {
    let mut regs = TrapFrame::default();
    handle_hvc(&mut regs, Ok(5));
    assert_eq!(regs.x[0], 5);
    handle_hvc(&mut regs, Err(HvError::new(HvErrorNum::EINVAL)));
    assert_eq!(regs.x[0], (-22i64) as u64);
    assert_eq!(regs.elr, 0);
}

#[test]
fn secure_monitor_calls_are_sorted() {
    let mut hw = hardware();
    let mut hv = running(&mut hw);
    let mut regs = TrapFrame::default();
    regs.x[0] = 0x8000_0000;
    assert_eq!(handle_smc(&mut hv, 0, &mut hw, &mut regs, LONG), SmcStep::Done);
    assert_eq!((regs.x[0], regs.elr), (0x10001, 4));
    regs.x[0] = 0x8200_0000;
    assert_eq!(handle_smc(&mut hv, 0, &mut hw, &mut regs, LONG), SmcStep::Forward);
    assert_eq!(regs.elr, 4);
    smc_forwarded(&mut regs, LONG, [1, 2, 3, 4]);
    assert_eq!((&regs.x[..4], regs.elr), (&[1, 2, 3, 4][..], 8));
    regs.x[0] = 0xb200_0000;
    assert_eq!(handle_smc(&mut hv, 0, &mut hw, &mut regs, LONG), SmcStep::Forward);
    regs.x[0] = 0x8100_0000;
    assert_eq!(handle_smc(&mut hv, 0, &mut hw, &mut regs, LONG), SmcStep::Done);
    assert_eq!(regs.x[0], 0);
    regs.x[0] = PSCI_SYSTEM_OFF;
    assert_eq!(handle_smc(&mut hv, 0, &mut hw, &mut regs, LONG), SmcStep::SystemOff);
    assert_eq!(handle_arch_smc(0x8000_0001), u64::MAX);
    assert_eq!(psci_emulate_features_info(PSCI_CPU_ON_64), 0);
    assert_eq!(psci_emulate_features_info(PSCI_SYSTEM_OFF), u64::MAX);
}

#[test]
fn psci_calls_are_emulated() {
    let mut hw = hardware();
    let mut hv = running(&mut hw);
    let mut regs = TrapFrame::default();
    assert_eq!(
        handle_psci_smc(&mut hv, 0, &mut hw, &regs, PSCI_VERSION),
        PsciStep::Return(0x10001)
    );
    assert_eq!(
        handle_psci_smc(&mut hv, 0, &mut hw, &regs, 0x8400_0006),
        PsciStep::Return(2)
    );
    regs.x[1] = 1;
    assert_eq!(
        handle_psci_smc(&mut hv, 0, &mut hw, &regs, PSCI_AFFINITY_INFO_64),
        PsciStep::Return(1)
    );
    regs.x[1] = 0;
    assert_eq!(
        handle_psci_smc(&mut hv, 0, &mut hw, &regs, PSCI_AFFINITY_INFO_64),
        PsciStep::Return(0)
    );
    assert_eq!(handle_psci_smc(&mut hv, 0, &mut hw, &regs, 0x8400_0099), PsciStep::Return(0));
    assert_eq!(
        handle_psci_smc(&mut hv, 0, &mut hw, &regs, PSCI_CPU_OFF_32),
        PsciStep::Return(0)
    );
    assert_eq!(hv.vcpu(0).state(), VCpuState::Stopped);
    assert!(hv.cpu(0).need_resched);
}

#[test]
fn cpu_on_starts_a_stopped_vcpu() {
    let mut hw = hardware();
    let mut hv = running(&mut hw);
    let mut regs = TrapFrame::default();
    regs.x[1] = 0x8000_0001;
    regs.x[2] = 0x4100_0000;
    regs.x[3] = 0x99;
    hv.vcpu_mut(1).arch.el1_regs.ttbr0_el1 = 5;
    assert_eq!(psci_emulate_cpu_on(&mut hv, 0, &mut hw, &regs), 0);
    assert_eq!(hv.vcpu(1).state(), VCpuState::Ready);
    assert_eq!(hv.vcpu(1).arch.frame.elr, 0x4100_0000);
    assert_eq!(hv.vcpu(1).arch.frame.x[0], 0x99);
    assert_eq!(hv.vcpu(1).arch.el1_regs, El1SysRegs::reset());
    assert_eq!(hv.vcpu(1).arch.el1_regs.sctlr_el1, 0x30d0_0800);
    assert_eq!(hv.cpu(1).incoming_vcpus, vec![1]);
    assert_eq!(fetch_event(hv.events_mut(), 1), Some(8));
    assert_eq!(psci_emulate_cpu_on(&mut hv, 0, &mut hw, &regs), (-4i64) as u64);
    assert_eq!(arch_wakeup_vcpu(&mut hv, 0, &mut hw, 1), -4);
    regs.x[1] = 7;
    assert_eq!(psci_emulate_cpu_on(&mut hv, 0, &mut hw, &regs), u64::MAX);
}

#[test]
fn turning_a_zone_off_tells_its_pcpus() {
    let mut hw = hardware();
    let mut hv = machine(3);
    assert!(zone_create(&mut hv, &hw, &config(0, vec![0]), &setup(1)).is_ok());
    add_zone(&mut hv, 0);
    let mut zone = Zone::new(1, &[0; 32], Stage2PageTable { root: 2 }, None);
    zone.write().cpu_set_mut().set_bit(1);
    zone.write().cpu_set_mut().set_bit(2);
    hv.insert_zone(zone);
    add_zone(&mut hv, 1);
    hv.cpu_mut(1).zone = Some(1);
    hv.cpu_mut(2).zone = Some(1);
    assert!(!psci_system_off(&mut hv, 2, &mut hw));
    assert_eq!(hw.ops, vec![Op::RaiseSgi { cpu: 1, sgi: 7 }]);
    assert_eq!(fetch_event(hv.events_mut(), 1), Some(1));
    assert_eq!(hv.cpu(1).zone, None);
    assert_eq!(hv.cpu(2).zone, None);
    assert_eq!(hv.zone_list(), &vec![0]);
}

#[test]
fn a_timer_away_from_its_vcpu_is_silent() {
    let mut hw = hardware();
    hw.regs.el1.cntv_ctl_el0 = 5;
    hw.regs.el1.vbar_el1 = 0x800;
    let mut saved = El1SysRegs::default();
    saved.save_from_hardware(&mut hw);
    assert_eq!(saved.cntv_ctl_el0, 7);
    assert_eq!(saved.vbar_el1, 0x800);
    assert_eq!(hw.regs.el1.cntv_ctl_el0, 7);
    saved.restore_to_hardware(&mut hw);
    assert_eq!(hw.regs.el1.cntv_ctl_el0, 7);
    saved.cntv_ctl_el0 = 3;
    saved.restore_to_hardware(&mut hw);
    assert_eq!(hw.regs.el1.cntv_ctl_el0, 1);
}

#[test]
fn a_new_vcpu_has_its_frame_below_its_stack() {
    let mut hw = hardware();
    let mut arch = ArchVCpu::new(0x9000, &hw);
    assert_eq!(arch.trapframe_ptr(), 0x9000 - 272);
    assert_eq!(arch.trapframe_ptr() % STACK_ALIGN, 0);
    arch.trapframe().x[1] = 3;
    assert_eq!(arch.frame.x[1], 3);
    hw.regs.el1.tcr_el1 = 8;
    hw.regs.ich.lr[1] = 6;
    arch.save(&mut hw);
    assert_eq!(arch.el1_regs.tcr_el1, 8);
    assert_eq!(arch.gic_state.ich_lr[1], 6);
    arch.reset_el1_regs();
    arch.reset_gic_state(&hw);
    assert_eq!(arch.el1_regs.tcr_el1, 0);
    assert_eq!(arch.gic_state.ich_lr[1], 0);
    let frame = TrapFrame::boot(0x40, 0x50);
    assert_eq!((frame.elr, frame.x[0], frame.spsr), (0x40, 0x50, 0x3c5));
}

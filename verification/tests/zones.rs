//! Zones: their tables, starting them and taking them down.

use hvisor::arch::aarch64::vcpu::El1SysRegs;
use hvisor::cpu_data::{CpuSet, PerCpu, INVALID_ADDRESS};
use hvisor::device::irqchip::gicv3::{Gic, GicConfig};
use hvisor::error::{HvError, HvErrorNum};
use hvisor::event::{fetch_event, IPI_EVENT_RESCHED, IPI_EVENT_ZONE_SHUTDOWN};
use hvisor::hardware::{CpuRegs, El2Regs, Hardware, IccRegs, IchRegs, Op, TimerRegs};
use hvisor::hypercall::{HyperCall, HyperCallCode, HyperCallStep};
use hvisor::hypervisor::{Board, Hypervisor};
use hvisor::keyed::KeyedList;
use hvisor::memory::{MMIOHandler, MMIORegion, Stage2PageTable};
use hvisor::vcpu::VCpuState;
use hvisor::zone::{
    add_zone, all_zones_info, are_cpus_taken, find_zone, is_this_root_zone, remove_zone, root_zone,
    this_zone_id, zone_create, zone_error, AtuConfig, GuestMpidr, MemoryRegion, VirtualAtuConfigs,
    VirtualRootComplex, Zone, ZoneConfig, ZoneSetup,
};

fn gic() -> Gic {
    Gic {
        gicd_base: 0x0800_0000,
        gicr_base: 0x080a_0000,
        gicd_size: 0x1_0000,
        gicr_size: 0x2_0000,
        gits_base: 0x0808_0000,
        gits_size: 0x2_0000,
    }
}

fn machine(cpus: usize) -> Hypervisor {
    let mut bases: Vec<usize> = Vec::new();
    for cpu in 0..cpus {
        bases.push(0x080a_0000 + cpu * 0x2_0000);
    }
    let board = Board {
        irq_wakeup_virtio_device: 77,
        max_devs: 4,
        max_wait_times: 3,
        config_size: 1000,
        legacy_config_size: 900,
    };
    Hypervisor::new(cpus, gic(), bases, board)
}

fn hardware() -> Hardware {
    Hardware::new(CpuRegs {
        el1: El1SysRegs::default(),
        ich: IchRegs { vtr: 0x9000_0003, vmcr: 0, hcr: 1, ap1r: [0; 4], lr: [0; 16] },
        icc: IccRegs { ctlr: 0, pmr: 0, igrpen1: 0 },
        timer: TimerRegs {
            cntpct_el0: 5_000,
            cntfrq_el0: 1_000_000,
            cnthp_tval_el2: 0,
            cnthp_ctl_el2: 0,
        },
        el2: El2Regs { mpidr_el1: 0, vmpidr_el2: 0, tpidr_el2: 0, pmcr_el0: 0 },
    })
}

fn config(zone_id: u32, cpus: Vec<usize>) -> ZoneConfig {
    ZoneConfig {
        zone_id,
        name: [b'a' + zone_id as u8; 32],
        cpus,
        memory_regions: vec![MemoryRegion {
            physical_start: 0x8000_0000,
            virtual_start: 0x4000_0000,
            size: 0x1000_0000,
        }],
        interrupts: vec![0, 0x6],
        entry_point: 0x4040_0000,
        dtb_load_paddr: 0x8000_0100,
        is_aarch32: false,
        gic: GicConfig::Gicv3(gic()),
    }
}

fn setup() -> ZoneSetup {
    ZoneSetup {
        tables: Ok(Stage2PageTable { root: 0x7000 }),
        pre: Ok(()),
        iommu: Ok(None),
        post: Ok(()),
        reset: Ok(()),
        stack_tops: vec![0x1_0000, 0x2_0000, 0x3_0000],
    }
}

fn error(num: HvErrorNum) -> HvError {
    HvError::new(num)
}

/// A machine with a root zone on its first pCPU.
fn rooted(cpus: usize) -> Hypervisor {
    let hw = hardware();
    let mut hv = machine(cpus);
    assert_eq!(zone_create(&mut hv, &hw, &config(0, vec![0]), &setup()), Ok(0));
    add_zone(&mut hv, 0);
    hv
}

#[test]
fn test_add_and_remove_zone() {
    let mut hv = machine(1);
    let zone_count = 50;
    let zone_count_before = hv.zone_list().len();
    for i in 0..zone_count {
        let zone = Zone::new(i, &[i as u8; 32], Stage2PageTable { root: 0x1000 * (i + 1) }, None);
        hv.insert_zone(zone);
        add_zone(&mut hv, i);
    }
    assert_eq!(hv.zone_list().len(), zone_count_before + zone_count);
    for i in 0..zone_count {
        assert!(hv.is_zone_unused(i));
        remove_zone(&mut hv, i);
    }
    assert_eq!(hv.zone_list().len(), zone_count_before);
}

#[test]
fn errors_have_negative_codes() {
    assert_eq!(error(HvErrorNum::EPERM).code(), -1);
    assert_eq!(error(HvErrorNum::ENOMEM).code(), -12);
    assert_eq!(error(HvErrorNum::EFAULT).code(), -14);
    assert_eq!(error(HvErrorNum::EBUSY).code(), -16);
    assert_eq!(error(HvErrorNum::EINVAL).code(), -22);
}

#[test]
fn cpu_sets_list_their_members() {
    let mut set = CpuSet::new(0);
    assert_eq!(set.first_cpu(), None);
    set.set_bit(63);
    set.set_bit(5);
    set.set_bit(0);
    assert_eq!(set.bitmap, 0x8000_0000_0000_0021);
    assert!(set.contains_cpu(63));
    assert!(!set.contains_cpu(64));
    assert_eq!(set.to_vec(), vec![0, 5, 63]);
    assert_eq!(set.first_cpu(), Some(0));
}

#[test]
fn a_new_pcpu_has_no_addresses() {
    let pcpu = PerCpu::new(3);
    assert_eq!(pcpu.id, 3);
    assert_eq!(pcpu.cpu_on_entry, INVALID_ADDRESS);
    assert_eq!(pcpu.dtb_ipa, INVALID_ADDRESS);
    assert!(!pcpu.power_on);
}

#[test]
fn keyed_lists_keep_the_newest() {
    let mut list: KeyedList<u8> = KeyedList::new();
    assert_eq!(list.insert(4, 1), None);
    assert_eq!(list.insert(9, 2), None);
    assert_eq!(list.insert(4, 3), Some(1));
    assert_eq!(list.get(4), Some(&3));
    if let Some(value) = list.get_mut(9) {
        *value = 7;
    }
    assert_eq!(list.get(9), Some(&7));
    list.remove(4);
    assert!(!list.contains(4));
    assert_eq!(list.get(4), None);
}

#[test]
fn guest_mpidrs_keep_the_affinity_only() {
    assert_eq!(GuestMpidr::new(0x8000_0102).0, 0x0000_0102);
    assert_eq!(GuestMpidr::new(0xffff_ffff_ffff_ffff).0, 0xff_00ff_ffff);
    let once = GuestMpidr::new(0x81_4000_0203);
    assert_eq!(GuestMpidr::new(once.0).0, once.0);
}

#[test]
fn address_windows_are_found_by_their_bases() {
    let mut atus = VirtualAtuConfigs::new();
    assert_eq!(atus.insert_atu(0x1000, AtuConfig { id: 1 }), None);
    assert_eq!(atus.get_or_insert_atu(0x1000, || AtuConfig { id: 9 }).id, 1);
    assert_eq!(atus.get_or_insert_atu(0x2000, || AtuConfig { id: 2 }).id, 2);
    atus.insert_io_base_mapping(0x30, 0x2000);
    atus.insert_cfg_base_mapping(0x40, 0x1000);
    assert_eq!(atus.get_ecam_by_io_base(0x30), Some(0x2000));
    assert_eq!(atus.get_atu_by_io_base(0x30), Some(&AtuConfig { id: 2 }));
    assert_eq!(atus.get_atu_by_io_base(0x31), None);
    assert_eq!(atus.get_ecam_by_cfg_base(0x40), Some(0x1000));
    assert_eq!(atus.get_atu_by_cfg_base(0x40), Some(&AtuConfig { id: 1 }));
    if let Some(atu) = atus.get_atu_by_ecam_mut(0x1000) {
        atu.id = 5;
    }
    assert_eq!(atus.get_atu_by_ecam(0x1000), Some(&AtuConfig { id: 5 }));
    assert_eq!(atus.insert_atu(0x1000, AtuConfig { id: 6 }), Some(AtuConfig { id: 5 }));
}

#[test]
fn regions_are_found_by_their_addresses() {
    let mut zone = Zone::new(1, &[0; 32], Stage2PageTable { root: 0x1000 }, None);
    let inner = zone.write();
    inner.mmio_region_register(0x1000, 0x100, MMIOHandler::Device(3), 8);
    inner.mmio_region_register(0x2000, 0x100, MMIOHandler::GicIts, 0);
    assert_eq!(
        inner.find_mmio_region(0x10f8, 8),
        Some((MMIORegion { start: 0x1000, size: 0x100 }, MMIOHandler::Device(3), 8))
    );
    assert_eq!(inner.find_mmio_region(0x10fc, 8), None);
    assert!(MMIORegion { start: 0x1000, size: 0x100 }.contains_region(0x1000, 4));
    inner.mmio_region_remove(0x1000);
    assert_eq!(inner.find_mmio_region(0x1000, 4), None);
    assert!(inner.find_mmio_region(0x2000, 4).is_some());
}

#[test]
fn accessors_reach_the_fields() {
    let mut zone = Zone::new(
        4,
        &[b'n'; 32],
        Stage2PageTable { root: 0x1000 },
        Some(Stage2PageTable { root: 0x2000 }),
    );
    assert_eq!(zone.id(), 4);
    assert_eq!(zone.name(), [b'n'; 32]);
    assert!(!zone.is_err());
    zone.set_err();
    assert!(zone.is_err());
    let inner = zone.write();
    inner.set_cpu_num(2);
    inner.cpu_set_mut().set_bit(1);
    inner.irq_bitmap_mut()[1] = 0x10;
    inner.gpm_mut().root = 0x3000;
    if let Some(table) = inner.iommu_pt_mut() {
        table.root = 0x4000;
    }
    *inner.vpci_bus_mut() = VirtualRootComplex { id: Some(2) };
    assert_eq!(inner.atu_configs_mut().insert_atu(1, AtuConfig { id: 1 }), None);
    let inner = zone.read();
    assert_eq!(inner.cpu_num(), 2);
    assert_eq!(inner.cpu_set().to_vec(), vec![1]);
    assert_eq!(inner.irq_bitmap()[1], 0x10);
    assert!(inner.irq_in_zone(36));
    assert!(!inner.irq_in_zone(35));
    assert_eq!(inner.gpm().root, 0x3000);
    assert_eq!(inner.iommu_pt().map(|table| table.root), Some(0x4000));
    assert_eq!(inner.vpci_bus().id, Some(2));
    assert!(inner.atu_configs().get_atu_by_ecam(1).is_some());
    assert_eq!(inner.irq_target(1023), None);
    assert_eq!(inner.irq_target(1024), None);
    assert_eq!(zone.cpu_set().first_cpu(), Some(1));
    assert_eq!(VirtualRootComplex::new().id, None);
}

#[test]
fn a_created_zone_owns_its_pcpus() {
    let hw = hardware();
    let mut hv = rooted(3);
    assert!(are_cpus_taken(&hv, &vec![2, 0]));
    assert!(!are_cpus_taken(&hv, &vec![2, 1]));
    assert_eq!(zone_create(&mut hv, &hw, &config(1, vec![2, 1]), &setup()), Ok(1));
    let zone = hv.zone(1);
    assert_eq!(zone.read().vcpus(), &vec![1, 2]);
    assert_eq!(zone.vcpu_base(), 1);
    assert_eq!(zone.read().vcpu_base(), 1);
    assert!(zone.read().has_vcpu(2));
    assert!(!zone.read().has_vcpu(0));
    assert_eq!(zone.read().get_vcpu_by_guest_mpidr(GuestMpidr::new(0x8000_0001)), Some(2));
    assert_eq!(zone.read().get_vcpu_by_guest_mpidr(GuestMpidr::new(2)), None);
    assert!(zone.read().irq_in_zone(33));
    assert_eq!(
        zone.read().find_mmio_region(0x080c_0000, 4).map(|found| (found.1, found.2)),
        Some((MMIOHandler::GicRedistributor, 2))
    );
    assert_eq!(hv.vcpu(1).state(), VCpuState::Ready);
    assert_eq!(hv.vcpu(1).arch.frame.elr, 0x4040_0000);
    assert_eq!(hv.vcpu(1).arch.frame.x[0], 0x4000_0100);
    assert_eq!(hv.vcpu(1).arch.frame.spsr, 0x3c5);
    assert_eq!(hv.vcpu(2).state(), VCpuState::Stopped);
    assert_eq!(hv.vcpu(2).get_pcpu_affinity(), 2);
    assert!(hv.cpu(1).boot_cpu);
    assert!(!hv.cpu(2).boot_cpu);
    assert_eq!(this_zone_id(&hv, 2), 1);
    assert!(hv.cpu(1).scheduler.is_queued(1));
}

#[test]
fn creating_a_zone_can_fail() {
    let hw = hardware();
    let mut hv = rooted(2);
    assert_eq!(
        zone_create(&mut hv, &hw, &config(0, vec![1]), &setup()),
        Err(error(HvErrorNum::EINVAL))
    );
    assert_eq!(
        zone_create(&mut hv, &hw, &config(1, vec![1, 0]), &setup()),
        Err(error(HvErrorNum::EBUSY))
    );
    // A request that is refused need not fit.
    let mut poor = config(0, vec![7]);
    poor.gic = GicConfig::Gicv2;
    let none = ZoneSetup { stack_tops: vec![], ..setup() };
    assert_eq!(zone_create(&mut hv, &hw, &poor, &none), Err(error(HvErrorNum::EINVAL)));
    let mut taken = config(1, vec![0]);
    taken.gic = GicConfig::Gicv2;
    assert_eq!(zone_create(&mut hv, &hw, &taken, &none), Err(error(HvErrorNum::EBUSY)));
    let mut short = setup();
    short.tables = Err(error(HvErrorNum::ENOMEM));
    assert_eq!(
        zone_create(&mut hv, &hw, &config(1, vec![1]), &short),
        Err(error(HvErrorNum::ENOMEM))
    );
    let mut refused = setup();
    refused.post = Err(error(HvErrorNum::EFAULT));
    assert_eq!(
        zone_create(&mut hv, &hw, &config(1, vec![1]), &refused),
        Err(error(HvErrorNum::EFAULT))
    );
    assert_eq!(hv.zone_list(), &vec![0]);
    assert!(!hv.has_zone_id(1));
}

#[test]
fn zones_are_found_and_listed() {
    let hw = hardware();
    let mut hv = rooted(2);
    assert_eq!(root_zone(&hv), 0);
    assert_eq!(find_zone(&hv, 0), Some(0));
    assert_eq!(find_zone(&hv, 1), None);
    assert_eq!(zone_create(&mut hv, &hw, &config(1, vec![1]), &setup()), Ok(1));
    add_zone(&mut hv, 1);
    assert!(is_this_root_zone(&hv, 0));
    assert!(!is_this_root_zone(&hv, 1));
    zone_error(&mut hv, 1);
    let infos = all_zones_info(&hv);
    assert_eq!(infos.len(), 2);
    assert_eq!((infos[1].zone_id, infos[1].cpus, infos[1].is_err), (1, 2, 1));
    assert_eq!((infos[0].cpus, infos[0].is_err, infos[1].name[0]), (1, 0, b'b'));
}

#[test]
fn hypercalls_have_numbers() {
    assert_eq!(HyperCallCode::from_number(0), Some(HyperCallCode::HvVirtioInit));
    assert_eq!(HyperCallCode::from_number(86), Some(HyperCallCode::HvVirtioGetIrq));
    assert_eq!(HyperCallCode::from_number(20), Some(HyperCallCode::HvClearInjectIrq));
    assert_eq!(HyperCallCode::from_number(7), None);
    let mut hv = rooted(3);
    let mut hw = hardware();
    let call = HyperCall::new(0);
    assert_eq!(call.hypercall(&mut hv, &mut hw, 7), HyperCallStep::Done(Ok(0)));
    assert_eq!(
        call.hypercall(&mut hv, &mut hw, 2),
        HyperCallStep::Serve(HyperCallCode::HvZoneStart)
    );
    hv.cpu_mut(2).power_on = true;
    assert_eq!(call.hypercall(&mut hv, &mut hw, 20), HyperCallStep::Done(Ok(0)));
    assert_eq!(hw.ops, vec![Op::RaiseSgi { cpu: 2, sgi: 7 }]);
    assert_eq!(fetch_event(hv.events_mut(), 2), Some(4));
}

#[test]
fn virtio_requests_are_for_the_root_zone() {
    let mut hw = hardware();
    let mut hv = rooted(2);
    assert_eq!(zone_create(&mut hv, &hw, &config(1, vec![1]), &setup()), Ok(1));
    add_zone(&mut hv, 1);
    let call = HyperCall::new(0);
    let other = HyperCall::new(1);
    assert_eq!(other.hv_virtio_init(&mut hv, 0x9000), Err(error(HvErrorNum::EPERM)));
    assert_eq!(hv.virtio.base_addr, None);
    assert_eq!(call.hv_virtio_init(&mut hv, 0x9000), Ok(0));
    assert_eq!(hv.virtio.base_addr, Some(0x9000));
    assert_eq!(other.hv_virtio_inject_irq(&hv), Err(error(HvErrorNum::EPERM)));
    assert_eq!(call.hv_virtio_inject_irq(&hv), Ok(0));
    call.virtio_response(&mut hv, &mut hw, 40, 1, 1);
    call.virtio_response(&mut hv, &mut hw, 40, 1, 1);
    call.virtio_response(&mut hv, &mut hw, 41, 9, 1);
    assert_eq!(hv.virtio_irqs(1), &vec![40]);
    assert_eq!(hw.ops, vec![Op::RaiseSgi { cpu: 1, sgi: 7 }]);
    assert_eq!(fetch_event(hv.events_mut(), 1), Some(2));
    assert_eq!(fetch_event(hv.events_mut(), 1), None);
}

#[test]
fn starting_a_zone_can_be_refused() {
    let mut hw = hardware();
    let mut hv = rooted(2);
    let call = HyperCall::new(0);
    assert_eq!(
        call.hv_zone_start(&mut hv, &mut hw, 10, &config(1, vec![1]), &setup()),
        Err(error(HvErrorNum::EINVAL))
    );
    assert_eq!(zone_create(&mut hv, &hw, &config(1, vec![1]), &setup()), Ok(1));
    add_zone(&mut hv, 1);
    assert_eq!(
        HyperCall::new(1).hv_zone_start(&mut hv, &mut hw, 1000, &config(2, vec![1]), &setup()),
        Err(error(HvErrorNum::EPERM))
    );
    assert_eq!(
        call.hv_zone_start(&mut hv, &mut hw, 900, &config(2, vec![1]), &setup()),
        Err(error(HvErrorNum::EBUSY))
    );
}

#[test]
fn a_zone_that_is_taken_down_leaves_nothing() {
    let mut hw = hardware();
    let mut hv = rooted(3);
    let call = HyperCall::new(0);
    let started = call.hv_zone_start(&mut hv, &mut hw, 1000, &config(1, vec![1, 2]), &setup());
    assert_eq!(started, Ok(0));
    assert_eq!(hv.zone_list(), &vec![0, 1]);
    assert!(hv.cpu(1).power_on && hv.cpu(2).power_on);
    assert!(hv.cpu(1).need_resched);
    assert_eq!(fetch_event(hv.events_mut(), 1), Some(IPI_EVENT_RESCHED));
    assert_eq!(hw.ops, vec![Op::RaiseSgi { cpu: 1, sgi: 7 }]);

    assert_eq!(
        call.hv_zone_shutdown(&mut hv, &mut hw, 0),
        Err(error(HvErrorNum::EINVAL))
    );
    assert_eq!(
        call.hv_zone_shutdown(&mut hv, &mut hw, 5),
        Err(error(HvErrorNum::EINVAL))
    );
    assert_eq!(
        HyperCall::new(1).hv_zone_shutdown(&mut hv, &mut hw, 1),
        Err(error(HvErrorNum::EPERM))
    );
    assert_eq!(call.hv_zone_shutdown(&mut hv, &mut hw, 1), Ok(0));
    assert_eq!(fetch_event(hv.events_mut(), 1), Some(IPI_EVENT_ZONE_SHUTDOWN));
    assert_eq!(fetch_event(hv.events_mut(), 2), Some(IPI_EVENT_ZONE_SHUTDOWN));
    assert_eq!(hv.cpu(2).cpu_on_entry, INVALID_ADDRESS);
    assert_eq!(call.zone_stopped(&hv, 1, 0), (false, 1));
    hv.cpu_mut(1).power_on = false;
    assert_eq!(call.zone_stopped(&hv, 1, 0), (false, 2));
    hv.cpu_mut(2).power_on = false;
    assert_eq!(call.zone_stopped(&hv, 1, 0), (true, 2));
    assert!(hv.is_none_incoming(1));
    call.zone_shutdown_finish(&mut hv, &mut hw, 1);
    assert_eq!(hv.zone_list(), &vec![0]);
    assert!(!hv.has_zone_id(1));
    assert!(!hv.vcpus.contains(1) && !hv.vcpus.contains(2));
    assert_eq!(hv.cpu(1).zone, None);
    assert!(hv.cpu(1).scheduler.is_empty());
    assert_eq!(hv.vcpu(0).state(), VCpuState::Ready);
    assert!(hv.cpu(0).scheduler.is_queued(0));
    assert_eq!(hv.ids.free_vcpu_id(), 1);
    assert_eq!(hv.ids.free_vcpu_id(), 2);
    assert_eq!(hv.ids.free_vcpu_id(), 3);
    assert_eq!(hw.ops.last(), Some(&Op::ReleaseDevices { zone_id: 1 }));
    assert!(hw.ops.contains(&Op::GitsReset { zone_id: 1 }));
    // The interrupts of the zone, 33 and 34, are off.
    assert!(hw.ops.contains(&Op::Write32 { addr: 0x0800_0184, word: 0x6 }));
}

#[test]
fn waiting_for_a_zone_has_an_end() {
    let mut hw = hardware();
    let mut hv = rooted(2);
    let call = HyperCall::new(0);
    assert_eq!(
        call.hv_zone_start(&mut hv, &mut hw, 900, &config(1, vec![1]), &setup()),
        Ok(0)
    );
    assert_eq!(call.zone_stopped(&hv, 1, 2), (false, 3));
    assert_eq!(call.zone_stopped(&hv, 1, 3), (true, 4));
}

#[test]
fn the_zone_list_has_a_limit() {
    let hw = hardware();
    let mut hv = rooted(2);
    assert_eq!(zone_create(&mut hv, &hw, &config(1, vec![1]), &setup()), Ok(1));
    add_zone(&mut hv, 1);
    let call = HyperCall::new(0);
    assert!(matches!(
        call.hv_zone_list(&hv, true, 4),
        Err(HvError { num: HvErrorNum::EINVAL })
    ));
    assert!(matches!(call.hv_zone_list(&hv, false, 0), Ok(infos) if infos.is_empty()));
    match call.hv_zone_list(&hv, false, 1) {
        Ok(infos) => assert_eq!(infos.len(), 1),
        Err(_) => panic!("there is room for the list"),
    }
    match call.hv_zone_list(&hv, false, 9) {
        Ok(infos) => assert_eq!(infos[1].zone_id, 1),
        Err(_) => panic!("there is room for the list"),
    }
}

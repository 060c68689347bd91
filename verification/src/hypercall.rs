//! Requests of guests to the hypervisor.
//!
//! Most requests are open to the root zone only.  The caller translates the guest
//! addresses in a request and copies what they point to.

use vstd::prelude::*;
use crate::cpu_data::{PerCpuView, INVALID_ADDRESS};
use crate::error::{HvError, HvErrorNum, HvResult};
use crate::event::{
    send_event, IPI_EVENT_CLEAR_INJECT_IRQ, IPI_EVENT_RESCHED, IPI_EVENT_VIRTIO_INJECT_IRQ,
    IPI_EVENT_ZONE_SHUTDOWN,
};
use crate::hardware::{Hardware, Op};
use crate::hypervisor::{HvView, Hypervisor, Sys};
use crate::memory::PAGE_SIZE;
use crate::zone::{
    add_zone, all_zones_info, find_zone, is_this_root_zone, remove_zone, zone_create, ZoneConfig,
    ZoneInfo, ZoneSetup,
};

verus! {

/// The SGI by which pCPUs tell each other of events.
pub const SGI_IPI_ID: u64 = 7;

/// What a hypercall returns.
pub type HyperCallResult = HvResult<usize>;

/// The hypercalls.
#[derive(Debug, Clone, Copy, PartialEq, Eq, Structural)]
pub enum HyperCallCode {
    HvVirtioInit,
    HvVirtioInjectIrq,
    HvVirtioGetIrq,
    HvZoneStart,
    HvZoneShutdown,
    HvZoneList,
    HvClearInjectIrq,
    HvIvcInfo,
    HvConfigCheck,
}

impl HyperCallCode {
    /// The number of a hypercall.
    pub open spec fn number(self) -> u64 {
        match self {
            HyperCallCode::HvVirtioInit => 0,
            HyperCallCode::HvVirtioInjectIrq => 1,
            HyperCallCode::HvVirtioGetIrq => 86,
            HyperCallCode::HvZoneStart => 2,
            HyperCallCode::HvZoneShutdown => 3,
            HyperCallCode::HvZoneList => 4,
            HyperCallCode::HvClearInjectIrq => 20,
            HyperCallCode::HvIvcInfo => 5,
            HyperCallCode::HvConfigCheck => 6,
        }
    }

    /// The hypercall with the given number.
    pub fn from_number(code: u64) -> (res: Option<HyperCallCode>)
        ensures
            match res {
                Some(call) => call.number() == code,
                None => forall|call: HyperCallCode| #[trigger] call.number() != code,
            },
    {
        match code {
            0 => Some(HyperCallCode::HvVirtioInit),
            1 => Some(HyperCallCode::HvVirtioInjectIrq),
            86 => Some(HyperCallCode::HvVirtioGetIrq),
            2 => Some(HyperCallCode::HvZoneStart),
            3 => Some(HyperCallCode::HvZoneShutdown),
            4 => Some(HyperCallCode::HvZoneList),
            20 => Some(HyperCallCode::HvClearInjectIrq),
            5 => Some(HyperCallCode::HvIvcInfo),
            6 => Some(HyperCallCode::HvConfigCheck),
            _ => None,
        }
    }
}

/// What a hypercall leads to.
#[derive(Debug, Clone, Copy, PartialEq, Eq)]
pub enum HyperCallStep {
    /// The call is dealt with.
    Done(HyperCallResult),
    /// The caller serves the call: of those that [`HyperCall`] has a method for, with
    /// that method.
    Serve(HyperCallCode),
}

/// A hypercall made on a pCPU.
#[derive(Debug, Clone, Copy, PartialEq, Eq, Structural)]
pub struct HyperCall {
    pub cpu: usize,
}

// ---------------------------------------------------------------------------
// What hypercalls do
// ---------------------------------------------------------------------------

impl HvView {
    /// The root zone can be told apart: the pCPU has a zone and a zone is registered.
    pub open spec fn knows_root(self, cpu: usize) -> bool {
        self.has_zone(cpu) && self.zone_list.len() > 0
    }

    /// The first `n` of the listed pCPUs are on.
    pub open spec fn powered_on(self, members: Seq<usize>, n: nat) -> HvView
        decreases n,
    {
        if n == 0 {
            self
        } else {
            let before = self.powered_on(members, (n - 1) as nat);
            let cpu = members[n - 1];
            before.with_cpu(cpu, PerCpuView { power_on: true, ..before.cpus[cpu as int] })
        }
    }
}

impl Sys {
    /// The pCPUs from 1 to `n` that are on were told to clear their injected
    /// interrupts.
    pub open spec fn inject_cleared(self, n: nat) -> Sys
        decreases n,
    {
        if n <= 1 {
            self
        } else {
            let before = self.inject_cleared((n - 1) as nat);
            if before.hv.cpus[n - 1].power_on {
                before.sent((n - 1) as usize, SGI_IPI_ID as usize, IPI_EVENT_CLEAR_INJECT_IRQ)
            } else {
                before
            }
        }
    }

    /// A virtio interrupt waits for a pCPU, which was told unless it waited already.
    pub open spec fn virtio_irq_queued(self, target: usize, irq: u32) -> Sys {
        let waiting = self.hv.virtio.irqs[target as int];
        if waiting.contains(irq) {
            self
        } else {
            (Sys { hv: self.hv.with_virtio_irqs(target, waiting.push(irq)), ..self }).sent(
                target,
                SGI_IPI_ID as usize,
                IPI_EVENT_VIRTIO_INJECT_IRQ,
            )
        }
    }

    /// A created zone was started: it is registered, its pCPUs are on, and the first
    /// of them was told to run the vCPU that starts the guest.
    pub open spec fn zone_launched(self, zone: usize) -> Sys {
        let members = self.hv.zones[zone].inner.cpu_set.members();
        let boot_cpu = members[0];
        let listed = HvView { zone_list: self.hv.zone_list.push(zone), ..self.hv };
        (Sys {
            hv: listed.powered_on(members, members.len()).enqueued(
                boot_cpu,
                self.hv.zones[zone].inner.vcpu_base,
            ).resched(boot_cpu),
            ..self
        }).sent(boot_cpu, SGI_IPI_ID as usize, IPI_EVENT_RESCHED)
    }

    /// A pCPU of a zone that is taken down was told to stop.
    pub open spec fn cpu_stopping(self, cpu: usize) -> Sys {
        let pc = self.hv.cpus[cpu as int];
        let told = (Sys {
            hv: self.hv.with_cpu(cpu, PerCpuView { cpu_on_entry: INVALID_ADDRESS, ..pc }),
            ..self
        }).sent(cpu, SGI_IPI_ID as usize, IPI_EVENT_ZONE_SHUTDOWN);
        Sys { hv: told.hv.with_virtio_irqs(cpu, Seq::empty()), ..told }
    }

    /// The first `n` of the listed pCPUs were told to stop.
    pub open spec fn cpus_stopping(self, members: Seq<usize>, n: nat) -> Sys
        decreases n,
    {
        if n == 0 {
            self
        } else {
            self.cpus_stopping(members, (n - 1) as nat).cpu_stopping(members[n - 1])
        }
    }

    /// A zone was taken down: its pCPUs are free, its vCPUs and the zone itself are
    /// gone, its interrupts are off, and the identifiers of its vCPUs can be used
    /// again.
    pub open spec fn zone_taken_down(self, zone: usize) -> Sys {
        let inner = self.hv.zones[zone].inner;
        let members = inner.cpu_set.members();
        Sys {
            hv: self.hv.cpus_released(members, members.len()).vcpus_dropped(zone).zone_dropped(
                zone,
            ).ids_reclaimed(inner.vcpus, inner.vcpus.len()),
            hw: self.hw.irqchip_reset(self.hv.gic, self.hv.zones[zone]).op(
                Op::ReleaseDevices { zone_id: zone },
            ),
        }
    }
}

/// Why a request that is open to the root zone only is refused.
pub open spec fn root_only_error(hv: HvView, cpu: usize) -> Option<HvError> {
    if hv.in_root_zone(cpu) {
        None
    } else {
        Some(HvError { num: HvErrorNum::EPERM })
    }
}

/// Why a request to start a zone is refused before the zone is looked at: it does not
/// come from the root zone, or its configuration has neither of the two sizes.
pub open spec fn start_error(hv: HvView, cpu: usize, config_size: u64) -> Option<HvError> {
    if !hv.in_root_zone(cpu) {
        Some(HvError { num: HvErrorNum::EPERM })
    } else if config_size != hv.board.config_size && config_size != hv.board.legacy_config_size {
        Some(HvError { num: HvErrorNum::EINVAL })
    } else {
        None
    }
}

/// Why a request to take a zone down is refused: it does not come from the root zone,
/// or names the root zone's identifier or none that is registered.
pub open spec fn shutdown_error(hv: HvView, cpu: usize, zone_id: usize) -> Option<HvError> {
    if !hv.in_root_zone(cpu) {
        Some(HvError { num: HvErrorNum::EPERM })
    } else if zone_id == 0 || !hv.zone_list.contains(zone_id) {
        Some(HvError { num: HvErrorNum::EINVAL })
    } else {
        None
    }
}

/// One pass over the pCPUs of a zone that is taken down: whether one of them, from
/// position `i` on, is still on and has not been asked too often; and how often pCPUs
/// have been asked.
pub open spec fn wait_pass(
    cpus: Seq<PerCpuView>,
    members: Seq<usize>,
    i: int,
    count: int,
    max_wait: int,
) -> (bool, int)
    decreases members.len() - i,
{
    if i < 0 || i >= members.len() {
        (false, count)
    } else if cpus[members[i] as int].power_on && count + 1 <= max_wait {
        (true, count + 1)
    } else {
        wait_pass(cpus, members, i + 1, count + 1, max_wait)
    }
}

impl HyperCall {
    /// A hypercall made on a pCPU.
    pub fn new(cpu: usize) -> (res: Self)
        ensures
            res.cpu == cpu,
    {
        HyperCall { cpu }
    }

    /// Decodes a hypercall.  A number that is not known is answered with 0.
    pub fn hypercall(&self, hv: &mut Hypervisor, hw: &mut Hardware, code: u64) -> (res:
        HyperCallStep)
        requires
            old(hv)@.wf(),
        ensures
            (forall|call: HyperCallCode| #[trigger] call.number() != code) ==> {
                &&& res == HyperCallStep::Done(HyperCallResult::Ok(0))
                &&& final(hv)@ == old(hv)@
                &&& final(hw)@ == old(hw)@
            },
            forall|call: HyperCallCode|
                #[trigger] call.number() == code && call != HyperCallCode::HvClearInjectIrq ==> {
                    &&& res == HyperCallStep::Serve(call)
                    &&& final(hv)@ == old(hv)@
                    &&& final(hw)@ == old(hw)@
                },
            code == HyperCallCode::HvClearInjectIrq.number() ==> {
                &&& res == HyperCallStep::Done(HyperCallResult::Ok(0))
                &&& (Sys { hv: final(hv)@, hw: final(hw)@ }) == (Sys {
                    hv: old(hv)@,
                    hw: old(hw)@,
                }).inject_cleared(old(hv)@.cpus.len())
            },
            final(hv)@.wf(),
            final(hv)@.cpus.len() == old(hv)@.cpus.len(),
    {
        let call: HyperCallCode = match HyperCallCode::from_number(code) {
            Some(call) => call,
            None => {
                return HyperCallStep::Done(Ok(0));
            },
        };
        if call != HyperCallCode::HvClearInjectIrq {
            return HyperCallStep::Serve(call);
        }
        let n: usize = hv.cpu_count();
        let mut i: usize = 1;
        proof {
            crate::hypervisor::lemma_wf_sizes(hv@);
        }
        while i < n
            invariant
                1 <= i <= n,
                hv@.wf(),
                hv@.cpus.len() == n,
                n == old(hv)@.cpus.len(),
                (Sys { hv: hv@, hw: hw@ }) == (Sys { hv: old(hv)@, hw: old(hw)@ }).inject_cleared(
                    i as nat,
                ),
            decreases n - i,
        {
            if hv.cpu(i).power_on {
                send_event(hv, hw, i, SGI_IPI_ID as usize, IPI_EVENT_CLEAR_INJECT_IRQ);
            }
            i = i + 1;
        }
        HyperCallStep::Done(Ok(0))
    }

    /// Sets the page that the root zone and the hypervisor share, given its physical
    /// address.
    pub fn hv_virtio_init(&self, hv: &mut Hypervisor, shared_region_addr_pa: usize) -> (res:
        HyperCallResult)
        requires
            old(hv)@.wf(),
            self.cpu < old(hv)@.cpus.len(),
            old(hv)@.knows_root(self.cpu),
            old(hv)@.in_root_zone(self.cpu) ==> shared_region_addr_pa % PAGE_SIZE == 0,
        ensures
            match root_only_error(old(hv)@, self.cpu) {
                Some(error) => res == HyperCallResult::Err(error) && final(hv)@ == old(hv)@,
                None => {
                    &&& res == HyperCallResult::Ok(0)
                    &&& final(hv)@.virtio.base_addr == Some(shared_region_addr_pa)
                    &&& final(hv)@ == (HvView { virtio: final(hv)@.virtio, ..old(hv)@ })
                    &&& final(hv)@.virtio.irqs == old(hv)@.virtio.irqs
                },
            },
            final(hv)@.wf(),
    {
        if !is_this_root_zone(hv, self.cpu) {
            return Err(HvError::new(HvErrorNum::EPERM));
        }
        hv.set_virtio_base(shared_region_addr_pa);
        Ok(0)
    }

    /// Whether the caller may hand over finished virtio requests.
    pub fn hv_virtio_inject_irq(&self, hv: &Hypervisor) -> (res: HyperCallResult)
        requires
            self.cpu < hv@.cpus.len(),
            hv@.knows_root(self.cpu),
        ensures
            res == (match root_only_error(hv@, self.cpu) {
                Some(error) => HyperCallResult::Err(error),
                None => HyperCallResult::Ok(0),
            }),
    {
        if !is_this_root_zone(hv, self.cpu) {
            return Err(HvError::new(HvErrorNum::EPERM));
        }
        Ok(0)
    }

    /// Hands one finished virtio request over: its interrupt is to be injected on the
    /// pCPU `target_cpu` of its zone.  A request of a zone that is not registered is
    /// passed over.  There must be room in the pCPU's list.
    pub fn virtio_response(
        &self,
        hv: &mut Hypervisor,
        hw: &mut Hardware,
        irq_id: u32,
        target_zone: usize,
        target_cpu: usize,
    )
        requires
            old(hv)@.wf(),
            old(hv)@.zone_list.contains(target_zone) ==> {
                let waiting = old(hv)@.virtio.irqs[target_cpu as int];
                &&& target_cpu < old(hv)@.cpus.len()
                &&& waiting.contains(irq_id) || waiting.len() + 1 < old(hv)@.board.max_devs
            },
        ensures
            (Sys { hv: final(hv)@, hw: final(hw)@ }) == (if old(hv)@.zone_list.contains(
                target_zone,
            ) {
                (Sys { hv: old(hv)@, hw: old(hw)@ }).virtio_irq_queued(target_cpu, irq_id)
            } else {
                Sys { hv: old(hv)@, hw: old(hw)@ }
            }),
            final(hv)@.wf(),
    {
        if find_zone(hv, target_zone).is_none() {
            return;
        }
        proof {
            crate::hypervisor::lemma_wf_sizes(hv@);
        }
        let waiting = hv.virtio_irqs(target_cpu);
        let mut i: usize = 0;
        while i < waiting.len()
            invariant
                i <= waiting@.len(),
                waiting@ == hv@.virtio.irqs[target_cpu as int],
                hv@ == old(hv)@,
                hw@ == old(hw)@,
                old(hv)@.wf(),
                old(hv)@.zone_list.contains(target_zone),
                forall|k: int| 0 <= k < i ==> #[trigger] waiting@[k] != irq_id,
            decreases waiting@.len() - i,
        {
            if waiting[i] == irq_id {
                return;
            }
            i = i + 1;
        }
        hv.virtio_irqs_mut(target_cpu).push(irq_id);
        proof {
            crate::hypervisor::lemma_wf_aside(old(hv)@, hv@);
        }
        send_event(hv, hw, target_cpu, SGI_IPI_ID as usize, IPI_EVENT_VIRTIO_INJECT_IRQ);
    }

    /// Starts a zone, given the size that the guest says its configuration has, the
    /// configuration, and what the caller has set up.
    pub fn hv_zone_start(
        &self,
        hv: &mut Hypervisor,
        hw: &mut Hardware,
        config_size: u64,
        config: &ZoneConfig,
        setup: &ZoneSetup,
    ) -> (res: HyperCallResult)
        requires
            old(hv)@.wf(),
            self.cpu < old(hv)@.cpus.len(),
            old(hv)@.knows_root(self.cpu),
            start_error(old(hv)@, self.cpu, config_size) is None ==> {
                &&& old(hv)@.asks_for_cpus(*config, *setup) ==> old(hv)@.cpus_exist(config.cpus@)
                &&& old(hv)@.create_error(*config, *setup) is None ==> {
                    &&& old(hv)@.has_room(*config, *setup)
                    &&& config.cpus@.len() > 0
                }
            },
        ensures
            match start_error(old(hv)@, self.cpu, config_size) {
                Some(error) => {
                    &&& res == HyperCallResult::Err(error)
                    &&& final(hv)@ == old(hv)@
                    &&& final(hw)@ == old(hw)@
                },
                None => match old(hv)@.create_error(*config, *setup) {
                    Some(error) => {
                        &&& res == HyperCallResult::Err(error)
                        &&& final(hv)@ == old(hv)@
                        &&& final(hw)@ == old(hw)@
                    },
                    None => {
                        &&& res == HyperCallResult::Ok(0)
                        &&& (Sys { hv: final(hv)@, hw: final(hw)@ }) == (Sys {
                            hv: old(hv)@.zone_created(*config, *setup, old(hw)@.ich.vtr),
                            hw: old(hw)@,
                        }).zone_launched(config.zone_id as usize)
                    },
                },
            },
            final(hv)@.wf(),
            final(hv)@.cpus.len() == old(hv)@.cpus.len(),
    {
        if !is_this_root_zone(hv, self.cpu) {
            return Err(HvError::new(HvErrorNum::EPERM));
        }
        if config_size != hv.board().config_size && config_size != hv.board().legacy_config_size {
            return Err(HvError::new(HvErrorNum::EINVAL));
        }
        let zone: usize = match zone_create(hv, hw, config, setup) {
            Ok(zone) => zone,
            Err(error) => {
                return Err(error);
            },
        };
        self.launch_zone(hv, hw, zone);
        Ok(0)
    }

    /// Registers a created zone, turns its pCPUs on and has the first of them run the
    /// vCPU that starts the guest.
    fn launch_zone(&self, hv: &mut Hypervisor, hw: &mut Hardware, zone: usize)
        requires
            old(hv)@.wf(),
            old(hv)@.zones.contains_key(zone),
            !old(hv)@.zone_list.contains(zone),
            old(hv)@.zones[zone].inner.cpu_set.members().len() > 0,
            crate::hypervisor::bound(
                old(hv)@.vcpus,
                old(hv)@.zones[zone].inner.vcpu_base,
                old(hv)@.zones[zone].inner.cpu_set.members()[0],
            ),
        ensures
            (Sys { hv: final(hv)@, hw: final(hw)@ }) == (Sys {
                hv: old(hv)@,
                hw: old(hw)@,
            }).zone_launched(zone),
            final(hv)@.wf(),
            final(hv)@.cpus.len() == old(hv)@.cpus.len(),
    {
        proof {
            crate::hypervisor::lemma_zone_ok(hv@, zone);
            lemma_members_in_range(hv@, zone);
        }
        let members: Vec<usize> = hv.zone(zone).cpu_set().to_vec();
        let vcpu_base: usize = hv.zone(zone).vcpu_base();
        add_zone(hv, zone);
        let ghost listed = hv@;
        let mut i: usize = 0;
        while i < members.len()
            invariant
                i <= members@.len(),
                hv@.wf(),
                hv@ == (HvView { cpus: hv@.cpus, ..listed }),
                hv@.cpus.len() == listed.cpus.len(),
                forall|k: int| 0 <= k < members@.len() ==> #[trigger] members@[k] < hv@.cpus.len(),
                hv@ == listed.powered_on(members@, i as nat),
            decreases members@.len() - i,
        {
            let cpu: usize = members[i];
            proof {
                crate::hypervisor::lemma_cpu_ok(hv@, cpu);
                crate::hypervisor::lemma_wf_cpu(
                    hv@,
                    cpu,
                    PerCpuView { power_on: true, ..hv@.cpus[cpu as int] },
                );
            }
            hv.cpu_mut(cpu).power_on = true;
            i = i + 1;
        }
        let boot_cpu: usize = members[0];
        hv.enqueue(boot_cpu, vcpu_base);
        hv.set_resched(boot_cpu);
        send_event(hv, hw, boot_cpu, SGI_IPI_ID as usize, IPI_EVENT_RESCHED);
    }

    /// Begins to take a zone down: its pCPUs are told to stop.  The caller then waits
    /// with [`Self::zone_stopped`] and ends with [`Self::zone_shutdown_finish`].
    pub fn hv_zone_shutdown(&self, hv: &mut Hypervisor, hw: &mut Hardware, zone_id: usize) -> (res:
        HyperCallResult)
        requires
            old(hv)@.wf(),
            self.cpu < old(hv)@.cpus.len(),
            old(hv)@.knows_root(self.cpu),
        ensures
            match shutdown_error(old(hv)@, self.cpu, zone_id) {
                Some(error) => {
                    &&& res == HyperCallResult::Err(error)
                    &&& final(hv)@ == old(hv)@
                    &&& final(hw)@ == old(hw)@
                },
                None => {
                    let members = old(hv)@.zones[zone_id].inner.cpu_set.members();
                    &&& res == HyperCallResult::Ok(0)
                    &&& (Sys { hv: final(hv)@, hw: final(hw)@ }) == (Sys {
                        hv: old(hv)@,
                        hw: old(hw)@,
                    }).cpus_stopping(members, members.len())
                },
            },
            final(hv)@.wf(),
            final(hv)@.cpus.len() == old(hv)@.cpus.len(),
    {
        if !is_this_root_zone(hv, self.cpu) {
            return Err(HvError::new(HvErrorNum::EPERM));
        }
        if zone_id == 0 {
            return Err(HvError::new(HvErrorNum::EINVAL));
        }
        if find_zone(hv, zone_id).is_none() {
            return Err(HvError::new(HvErrorNum::EINVAL));
        }
        proof {
            let k = choose|k: int| 0 <= k < hv@.zone_list.len() && hv@.zone_list[k] == zone_id;
            crate::hypervisor::lemma_listed_zone(hv@, k);
            crate::hypervisor::lemma_zone_ok(hv@, zone_id);
            lemma_members_in_range(hv@, zone_id);
        }
        let members: Vec<usize> = hv.zone(zone_id).cpu_set().to_vec();
        let mut i: usize = 0;
        while i < members.len()
            invariant
                i <= members@.len(),
                hv@.wf(),
                hv@.cpus.len() == old(hv)@.cpus.len(),
                forall|k: int| 0 <= k < members@.len() ==> #[trigger] members@[k] < hv@.cpus.len(),
                (Sys { hv: hv@, hw: hw@ }) == (Sys { hv: old(hv)@, hw: old(hw)@ }).cpus_stopping(
                    members@,
                    i as nat,
                ),
            decreases members@.len() - i,
        {
            let cpu: usize = members[i];
            let ghost here = Sys { hv: hv@, hw: hw@ };
            proof {
                crate::hypervisor::lemma_cpu_ok(hv@, cpu);
                crate::hypervisor::lemma_wf_cpu(
                    hv@,
                    cpu,
                    PerCpuView { cpu_on_entry: INVALID_ADDRESS, ..hv@.cpus[cpu as int] },
                );
            }
            hv.cpu_mut(cpu).cpu_on_entry = INVALID_ADDRESS;
            send_event(hv, hw, cpu, SGI_IPI_ID as usize, IPI_EVENT_ZONE_SHUTDOWN);
            proof {
                crate::hypervisor::lemma_wf_sizes(hv@);
                crate::hypervisor::lemma_wf_aside(hv@, hv@.with_virtio_irqs(cpu, Seq::empty()));
            }
            hv.virtio_irqs_mut(cpu).clear();
            assert((Sys { hv: hv@, hw: hw@ }) == here.cpu_stopping(cpu));
            i = i + 1;
        }
        Ok(0)
    }

    /// Asks the pCPUs of a zone that is taken down whether they have stopped.  `count`
    /// is how often pCPUs have been asked so far.  Returns whether the wait is over,
    /// and the new count.  A pCPU that has been asked too often is not waited for.
    pub fn zone_stopped(&self, hv: &Hypervisor, zone_id: usize, count: usize) -> (res: (
        bool,
        usize,
    ))
        requires
            hv@.wf(),
            hv@.zones.contains_key(zone_id),
            count < usize::MAX - 64,
        ensures
            ({
                let pass = wait_pass(
                    hv@.cpus,
                    hv@.zones[zone_id].inner.cpu_set.members(),
                    0,
                    count as int,
                    hv@.board.max_wait_times as int,
                );
                res.0 == !pass.0 && res.1 == pass.1
            }),
    {
        proof {
            crate::hypervisor::lemma_zone_ok(hv@, zone_id);
            lemma_members_in_range(hv@, zone_id);
            hv@.zones[zone_id].inner.cpu_set.lemma_members_count(64);
        }
        let members: Vec<usize> = hv.zone(zone_id).cpu_set().to_vec();
        let max_wait: usize = hv.board().max_wait_times;
        let ghost goal = wait_pass(hv@.cpus, members@, 0, count as int, max_wait as int);
        let mut asked: usize = count;
        let mut i: usize = 0;
        while i < members.len()
            invariant
                i <= members@.len() <= 64,
                asked == count + i,
                count < usize::MAX - 64,
                forall|k: int| 0 <= k < members@.len() ==> #[trigger] members@[k] < hv@.cpus.len(),
                goal == wait_pass(hv@.cpus, members@, i as int, asked as int, max_wait as int),
                members@ == hv@.zones[zone_id].inner.cpu_set.members(),
                max_wait == hv@.board.max_wait_times,
                goal == wait_pass(hv@.cpus, members@, 0, count as int, max_wait as int),
            decreases members@.len() - i,
        {
            let power_on: bool = hv.cpu(members[i]).power_on;
            asked = asked + 1;
            if power_on && asked <= max_wait {
                return (false, asked);
            }
            i = i + 1;
        }
        (true, asked)
    }

    /// Ends taking a zone down, once its pCPUs have stopped.
    pub fn zone_shutdown_finish(&self, hv: &mut Hypervisor, hw: &mut Hardware, zone_id: usize)
        requires
            old(hv)@.wf(),
            old(hv)@.zone_list.contains(zone_id),
            old(hv)@.none_incoming(zone_id),
        ensures
            (Sys { hv: final(hv)@, hw: final(hw)@ }) == (Sys {
                hv: old(hv)@,
                hw: old(hw)@,
            }).zone_taken_down(zone_id),
            final(hv)@.wf(),
            !final(hv)@.zone_list.contains(zone_id),
    {
        proof {
            let k = choose|k: int| 0 <= k < hv@.zone_list.len() && hv@.zone_list[k] == zone_id;
            crate::hypervisor::lemma_listed_zone(hv@, k);
            crate::hypervisor::lemma_zone_ok(hv@, zone_id);
            lemma_members_in_range(hv@, zone_id);
            hv@.zones[zone_id].inner.cpu_set.lemma_members_below(64);
            crate::hypervisor::lemma_wf_sizes(hv@);
        }
        let members: Vec<usize> = hv.zone(zone_id).cpu_set().to_vec();
        let ghost start = hv@;
        let mut i: usize = 0;
        while i < members.len()
            invariant
                i <= members@.len(),
                hv@.wf(),
                hv@.cpus.len() == start.cpus.len(),
                hv@ == (HvView { cpus: hv@.cpus, ..start }),
                forall|k: int| 0 <= k < members@.len() ==> #[trigger] members@[k] < hv@.cpus.len(),
                forall|k: int|
                    0 <= k < i ==> {
                        let pc = hv@.cpus[#[trigger] members@[k] as int];
                        &&& pc.sched == pc.sched.cleared()
                        &&& pc.current_vcpu is None
                        &&& pc.zone is None
                    },
                forall|c: int|
                    0 <= c < hv@.cpus.len() ==> (#[trigger] hv@.cpus[c]).incoming
                        == start.cpus[c].incoming,
                forall|c: int|
                    0 <= c < hv@.cpus.len() ==> (#[trigger] hv@.cpus[c]).zone is None
                        || hv@.cpus[c].zone == start.cpus[c].zone,
                hv@ == start.cpus_released(members@, i as nat),
            decreases members@.len() - i,
        {
            let ghost before = hv@;
            hv.release_cpu(members[i]);
            i = i + 1;
        }
        proof {
            let set = hv@.zones[zone_id].inner.cpu_set;
            assert forall|cpu: usize| #![trigger set.has(cpu)] set.has(cpu) implies {
                let pc = hv@.cpus[cpu as int];
                &&& pc.sched == pc.sched.cleared()
                &&& pc.current_vcpu is None
                &&& pc.zone is None
            } by {
                assert(set.members().contains(cpu));
                let k = choose|k: int| 0 <= k < members@.len() && members@[k] == cpu;
                assert(hv@.cpus[members@[k] as int].zone is None);
            }
            assert forall|cpu: int, i: int|
                0 <= cpu < hv@.cpus.len() && 0 <= i
                    < hv@.cpus[cpu].incoming.len() implies hv@.vcpus[#[trigger] hv@.cpus[cpu].incoming[i]].zone
                != zone_id by {
                assert(start.vcpus[start.cpus[cpu].incoming[i]].zone != zone_id);
            }
        }
        let ids: Vec<usize> = hv.drop_vcpus(zone_id);
        hv.zone(zone_id).arch_irqchip_reset(&hv.gic(), hw);
        proof {
            let after = hv@;
            assert forall|c: int| 0 <= c < after.cpus.len() implies (#[trigger] after.cpus[c]).zone
                != Some(zone_id) by {
                if after.cpus[c].zone == Some(zone_id) {
                    crate::hypervisor::lemma_cpu_ok(after, c as usize);
                    assert(after.zones[zone_id].inner.cpu_set.has(c as usize));
                }
            }
            assert(after.zone_unused(zone_id));
            crate::hypervisor::lemma_zone_dropped_wf(after, zone_id);
        }
        hw.push(Op::ReleaseDevices { zone_id });
        remove_zone(hv, zone_id);
        proof {
            let list = start.zones[zone_id].inner.vcpus;
            assert forall|i: int| 0 <= i < ids@.len() implies hv@.ids.in_use(#[trigger] ids@[i])
                && !hv@.vcpus.contains_key(ids@[i]) by {
                assert(start.vcpus.contains_key(list[i]));
                crate::hypervisor::lemma_vcpu_ok(start, list[i]);
            }
        }
        hv.reclaim_ids(&ids);
    }

    /// Lists zones to a guest: as many of the registered ones as there is room for.
    pub fn hv_zone_list(&self, hv: &Hypervisor, is_null: bool, cnt: usize) -> (res: HvResult<
        Vec<ZoneInfo>,
    >)
        requires
            hv@.wf(),
        ensures
            match res {
                Ok(infos) => {
                    &&& !is_null
                    &&& infos@.len() == if cnt <= hv@.zone_list.len() {
                        cnt as nat
                    } else {
                        hv@.zone_list.len()
                    }
                    &&& forall|i: int|
                        0 <= i < infos@.len() ==> (#[trigger] infos@[i]).describes(
                            hv@.zones[hv@.zone_list[i]],
                        )
                },
                Err(error) => is_null && error.num == HvErrorNum::EINVAL,
            },
    {
        if is_null {
            return Err(HvError::new(HvErrorNum::EINVAL));
        }
        let mut infos: Vec<ZoneInfo> = all_zones_info(hv);
        if cnt < infos.len() {
            infos.truncate(cnt);
        }
        Ok(infos)
    }
}

/// The members of a zone are pCPUs that exist.
pub proof fn lemma_members_in_range(hv: HvView, zone: usize)
    requires
        hv.wf(),
        hv.zones.contains_key(zone),
    ensures
        forall|i: int|
            0 <= i < hv.zones[zone].inner.cpu_set.members().len()
                ==> #[trigger] hv.zones[zone].inner.cpu_set.members()[i] < hv.cpus.len(),
{
    crate::hypervisor::lemma_zone_ok(hv, zone);
    let set = hv.zones[zone].inner.cpu_set;
    set.lemma_members_below(64);
    assert forall|i: int| 0 <= i < set.members().len() implies #[trigger] set.members()[i]
        < hv.cpus.len() by {
        assert(set.members().contains(set.members()[i]));
    }
}

} // verus!

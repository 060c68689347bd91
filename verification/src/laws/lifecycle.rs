//! How zones are started, told to stop and taken down.

use vstd::prelude::*;
use crate::cpu_data::PerCpuView;
use crate::error::HvErrorNum;
use crate::hardware::Op;
use crate::hypervisor::{HvView, Sys};
use crate::scheduler::SchedView;
use crate::vcpu::VCpuView;
use crate::zone::{ZoneConfig, ZoneSetup};

verus! {

// ---------------------------------------------------------------------------
// Refusals
// ---------------------------------------------------------------------------

/// A zone is made exactly if nothing with its number runs, none of its pCPUs belongs to
/// another zone and everything could be set up for it.  A number that is in use is
/// refused before anything else, and a pCPU that is taken before the devices are set up.
pub proof fn lemma_creation_refused(hv: HvView, config: ZoneConfig, setup: ZoneSetup)
    ensures
        ({
            let error = hv.create_error(config, setup);
            let is_listed = exists|i: int|
                0 <= i < hv.zone_list.len() && #[trigger] hv.zone_list[i]
                    == config.zone_id as usize;
            let is_taken = exists|i: int|
                0 <= i < config.cpus@.len()
                    && hv.cpus[#[trigger] config.cpus@[i] as int].zone is Some;
            &&& error is None <==> !is_listed && !is_taken && setup.tables is Ok && setup.pre is Ok
                && setup.iommu is Ok && setup.post is Ok && setup.reset is Ok
            &&& is_listed ==> error is Some && error->0.num == HvErrorNum::EINVAL
            &&& !is_listed && setup.tables is Ok && is_taken ==> error is Some && error->0.num
                == HvErrorNum::EBUSY
            &&& !is_listed && setup.tables is Err ==> error == Some(setup.tables->Err_0)
            &&& !is_listed && setup.tables is Ok && !is_taken && error is Some ==> {
                ||| setup.pre is Err && error == Some(setup.pre->Err_0)
                ||| setup.pre is Ok && setup.iommu is Err && error == Some(setup.iommu->Err_0)
                ||| setup.pre is Ok && setup.iommu is Ok && setup.post is Err && error == Some(
                    setup.post->Err_0,
                )
                ||| setup.pre is Ok && setup.iommu is Ok && setup.post is Ok && setup.reset is Err
                    && error == Some(setup.reset->Err_0)
            }
        }),
{
}

/// Only the root zone, the first that was started, may manage zones.  It may shut down any
/// zone that is there but itself, and start one with a configuration of a known size.
pub proof fn lemma_only_root_manages(hv: HvView, cpu: usize, zone: usize, config_size: u64)
    ensures
        ({
            let is_root = hv.zone_list.len() > 0 && hv.cpus[cpu as int].zone == Some(
                hv.zone_list[0],
            );
            let root_only = crate::hypercall::root_only_error(hv, cpu);
            let start = crate::hypercall::start_error(hv, cpu, config_size);
            let shutdown = crate::hypercall::shutdown_error(hv, cpu, zone);
            &&& root_only is None <==> is_root
            &&& start is None <==> is_root && (config_size == hv.board.config_size || config_size
                == hv.board.legacy_config_size)
            &&& shutdown is None <==> is_root && zone != 0 && hv.zone_list.contains(zone)
            &&& !is_root ==> {
                &&& root_only->0.num == HvErrorNum::EPERM
                &&& start->0.num == HvErrorNum::EPERM
                &&& shutdown->0.num == HvErrorNum::EPERM
            }
            &&& is_root && start is Some ==> start->0.num == HvErrorNum::EINVAL
            &&& is_root && shutdown is Some ==> shutdown->0.num == HvErrorNum::EINVAL
        }),
{
}

// ---------------------------------------------------------------------------
// Starting
// ---------------------------------------------------------------------------

proof fn lemma_powered(hv: HvView, members: Seq<usize>, n: nat, c: int)
    requires
        n <= members.len(),
        forall|i: int| 0 <= i < members.len() ==> #[trigger] members[i] < hv.cpus.len(),
        0 <= c < hv.cpus.len(),
    ensures
        ({
            let after = hv.powered_on(members, n);
            &&& after == (HvView { cpus: after.cpus, ..hv })
            &&& after.cpus.len() == hv.cpus.len()
            &&& after.cpus[c] == (PerCpuView { power_on: after.cpus[c].power_on, ..hv.cpus[c] })
            &&& after.cpus[c].power_on <==> hv.cpus[c].power_on || exists|i: int|
                0 <= i < n && #[trigger] members[i] == c
        }),
    decreases n,
{
    if n > 0 {
        lemma_powered(hv, members, (n - 1) as nat, c);
        lemma_powered(hv, members, (n - 1) as nat, members[n - 1] as int);
        if exists|i: int| 0 <= i < n - 1 && #[trigger] members[i] == c {
            let i = choose|i: int| 0 <= i < n - 1 && #[trigger] members[i] == c;
            assert(members[i] == c);
        }
        if members[n - 1] != c && exists|i: int| 0 <= i < n && #[trigger] members[i] == c {
            let i = choose|i: int| 0 <= i < n && #[trigger] members[i] == c;
            assert(0 <= i < n - 1);
        }
    }
}

/// A zone that is launched is the last in the list; all its pCPUs are on, and no others
/// that were not; its first vCPU waits for its turn on its first pCPU, which is told to
/// schedule.  Nothing else changes.
pub proof fn lemma_launched(sys: Sys, zone: usize, c: usize)
    requires
        sys.hv.wf(),
        sys.hv.zones.contains_key(zone),
        sys.hv.zones[zone].inner.cpu_set.members().len() > 0,
        c < sys.hv.cpus.len(),
    ensures
        ({
            let after = sys.zone_launched(zone);
            let inner = sys.hv.zones[zone].inner;
            let first = inner.cpu_set.members()[0];
            let before = sys.hv.cpus[c as int];
            let now = after.hv.cpus[c as int];
            &&& after.hv.zone_list == sys.hv.zone_list.push(zone)
            &&& now.power_on <==> before.power_on || inner.cpu_set.has(c)
            &&& now.zone == before.zone
            &&& now.current_vcpu == before.current_vcpu
            &&& now.cpu_on_entry == before.cpu_on_entry
            &&& c != first ==> now.sched == before.sched && now.need_resched
                == before.need_resched && after.hv.events[c as int] == sys.hv.events[c as int]
            &&& c == first ==> {
                &&& now.sched.queued(inner.vcpu_base)
                &&& now.need_resched
                &&& crate::laws::routing::told_to_schedule(after, first)
            }
            &&& inner.cpu_set.has(first)
            &&& inner.cpu_set.has(c) ==> first <= c
            &&& after.hv.vcpus == sys.hv.vcpus
            &&& after.hv.zones == sys.hv.zones
        }),
{
    let inner = sys.hv.zones[zone].inner;
    let members = inner.cpu_set.members();
    let first = members[0];
    crate::hypervisor::lemma_wf_sizes(sys.hv);
    crate::hypervisor::lemma_cpu_ok(sys.hv, c);
    crate::hypercall::lemma_members_in_range(sys.hv, zone);
    inner.cpu_set.lemma_members_below(64);
    assert(members.contains(first));
    let listed = HvView { zone_list: sys.hv.zone_list.push(zone), ..sys.hv };
    lemma_powered(listed, members, members.len(), c as int);
    lemma_powered(listed, members, members.len(), first as int);
    let on = listed.powered_on(members, members.len());
    crate::hypervisor::lemma_cpu_ok(sys.hv, first);
    crate::laws::ready::lemma_enqueued(
        on.cpus[first as int].sched,
        inner.vcpu_base,
        on.vcpus[inner.vcpu_base].priority,
    );
    if inner.cpu_set.has(c) {
        assert(members.contains(c));
        let i = choose|i: int| 0 <= i < members.len() && members[i] == c;
        assert(members[i] == c);
    } else if exists|i: int| 0 <= i < members.len() && #[trigger] members[i] == c {
        let i = choose|i: int| 0 <= i < members.len() && #[trigger] members[i] == c;
        assert(members.contains(members[i]));
    }
}

// ---------------------------------------------------------------------------
// Stopping
// ---------------------------------------------------------------------------

/// What stopping has done for pCPU `c`: nothing, or it was told and forgets its guest.
spec fn stop_told(sys: Sys, after: Sys, c: int) -> bool {
    let before = sys.hv.cpus[c];
    let now = after.hv.cpus[c];
    &&& now == (PerCpuView { cpu_on_entry: u64::MAX, ..before })
    &&& after.hv.events[c].len() > 0
    &&& after.hv.events[c].last() == 9
    &&& after.hv.virtio.irqs[c].len() == 0
    &&& exists|k: int|
        sys.hw.ops.len() <= k < after.hw.ops.len() && #[trigger] after.hw.ops[k] == (Op::RaiseSgi {
            cpu: c as usize,
            sgi: 7,
        })
}

proof fn lemma_stopping(sys: Sys, members: Seq<usize>, n: nat, c: int)
    requires
        n <= members.len(),
        sys.hv.events.len() == sys.hv.cpus.len(),
        sys.hv.virtio.irqs.len() == sys.hv.cpus.len(),
        forall|i: int| 0 <= i < members.len() ==> #[trigger] members[i] < sys.hv.cpus.len(),
        0 <= c < sys.hv.cpus.len(),
    ensures
        ({
            let after = sys.cpus_stopping(members, n);
            &&& after.hv == (HvView {
                cpus: after.hv.cpus,
                events: after.hv.events,
                virtio: after.hv.virtio,
                ..sys.hv
            })
            &&& after.hv.cpus.len() == sys.hv.cpus.len()
            &&& after.hv.events.len() == sys.hv.events.len()
            &&& after.hv.virtio.irqs.len() == sys.hv.virtio.irqs.len()
            &&& after.hw.ops.len() == sys.hw.ops.len() + n
            &&& if exists|i: int| 0 <= i < n && #[trigger] members[i] == c {
                stop_told(sys, after, c)
            } else {
                &&& after.hv.cpus[c] == sys.hv.cpus[c]
                &&& after.hv.events[c] == sys.hv.events[c]
                &&& after.hv.virtio.irqs[c] == sys.hv.virtio.irqs[c]
            }
        }),
    decreases n,
{
    if n > 0 {
        lemma_stopping(sys, members, (n - 1) as nat, c);
        let before = sys.cpus_stopping(members, (n - 1) as nat);
        let after = sys.cpus_stopping(members, n);
        let was = exists|i: int| 0 <= i < n - 1 && #[trigger] members[i] == c;
        let is = exists|i: int| 0 <= i < n && #[trigger] members[i] == c;
        if is && members[n - 1] != c {
            let i = choose|i: int| 0 <= i < n && #[trigger] members[i] == c;
            assert(0 <= i < n - 1 && members[i] == c);
        }
        if was {
            let i = choose|i: int| 0 <= i < n - 1 && #[trigger] members[i] == c;
            assert(0 <= i < n && members[i] == c);
            let k = choose|k: int|
                sys.hw.ops.len() <= k < before.hw.ops.len() && #[trigger] before.hw.ops[k] == (
                Op::RaiseSgi { cpu: c as usize, sgi: 7 });
            assert(after.hw.ops[k] == before.hw.ops[k]);
        }
        if members[n - 1] == c {
            assert(after.hw.ops[after.hw.ops.len() - 1] == (Op::RaiseSgi {
                cpu: c as usize,
                sgi: 7,
            }));
        }
    }
}

/// Each pCPU of a zone that is shut down is told, has no entry point and no virtio
/// interrupt waiting any more; no other pCPU notices.
pub proof fn lemma_each_cpu_told(sys: Sys, zone: usize, c: usize)
    requires
        sys.hv.wf(),
        sys.hv.zones.contains_key(zone),
        c < sys.hv.cpus.len(),
    ensures
        ({
            let inner = sys.hv.zones[zone].inner;
            let members = inner.cpu_set.members();
            let after = sys.cpus_stopping(members, members.len());
            if inner.cpu_set.has(c) {
                &&& after.hv.cpus[c as int].cpu_on_entry == u64::MAX
                &&& after.hv.events[c as int].len() > 0
                &&& after.hv.events[c as int].last() == 9
                &&& after.hv.virtio.irqs[c as int].len() == 0
                &&& exists|k: int|
                    sys.hw.ops.len() <= k < after.hw.ops.len() && #[trigger] after.hw.ops[k] == (
                    Op::RaiseSgi { cpu: c, sgi: 7 })
            } else {
                &&& after.hv.cpus[c as int] == sys.hv.cpus[c as int]
                &&& after.hv.events[c as int] == sys.hv.events[c as int]
                &&& after.hv.virtio.irqs[c as int] == sys.hv.virtio.irqs[c as int]
            }
        }),
{
    let inner = sys.hv.zones[zone].inner;
    let members = inner.cpu_set.members();
    crate::hypervisor::lemma_wf_sizes(sys.hv);
    crate::hypercall::lemma_members_in_range(sys.hv, zone);
    inner.cpu_set.lemma_members_below(64);
    lemma_stopping(sys, members, members.len(), c as int);
    if inner.cpu_set.has(c) {
        assert(members.contains(c));
        let i = choose|i: int| 0 <= i < members.len() && members[i] == c;
        assert(members[i] == c);
    } else if exists|i: int| 0 <= i < members.len() && #[trigger] members[i] == c {
        let i = choose|i: int| 0 <= i < members.len() && #[trigger] members[i] == c;
        assert(members.contains(members[i]));
    }
}

/// Waiting for the pCPUs of a zone to stop ends when all are off; a pass through them
/// stops at the first that is still on, as long as the wait has not been too long.
pub proof fn lemma_wait_pass(
    cpus: Seq<PerCpuView>,
    members: Seq<usize>,
    i: int,
    count: int,
    max_wait: int,
)
    requires
        0 <= i <= members.len(),
    ensures
        ({
            let (again, counted) = crate::hypercall::wait_pass(cpus, members, i, count, max_wait);
            if again {
                exists|k: int|
                    i <= k < members.len() && cpus[#[trigger] members[k] as int].power_on && counted
                        == count + (k - i) + 1 && counted <= max_wait && forall|j: int|
                        i <= j < k ==> !cpus[#[trigger] members[j] as int].power_on
            } else {
                &&& counted == count + (members.len() - i)
                &&& forall|k: int|
                    i <= k < members.len() && cpus[#[trigger] members[k] as int].power_on
                        ==> count + (k - i) + 1 > max_wait
            }
        }),
    decreases members.len() - i,
{
    if i < members.len() {
        if cpus[members[i] as int].power_on && count + 1 <= max_wait {
            assert(cpus[members[i] as int].power_on);
        } else {
            lemma_wait_pass(cpus, members, i + 1, count + 1, max_wait);
            let (again, counted) = crate::hypercall::wait_pass(cpus, members, i, count, max_wait);
            if again {
                let k = choose|k: int|
                    i + 1 <= k < members.len() && cpus[#[trigger] members[k] as int].power_on
                        && counted == count + 1 + (k - (i + 1)) + 1 && counted <= max_wait
                        && forall|j: int|
                        i + 1 <= j < k ==> !cpus[#[trigger] members[j] as int].power_on;
                assert(cpus[members[k] as int].power_on);
            }
        }
    }
}

proof fn lemma_filtered<A>(s: Seq<A>, keep: spec_fn(A) -> bool, x: A)
    ensures
        s.filter(keep).contains(x) <==> s.contains(x) && keep(x),
{
    if s.contains(x) && keep(x) {
        let k = choose|k: int| 0 <= k < s.len() && s[k] == x;
        s.lemma_filter_contains(keep, k);
    }
    if s.filter(keep).contains(x) {
        let k = choose|k: int| 0 <= k < s.filter(keep).len() && s.filter(keep)[k] == x;
        s.lemma_filter_pred(keep, k);
        s.lemma_filter_contains_rev(keep, x);
    }
}

/// A scheduler that forgets a zone has none of its vCPUs any more, in whatever place, and
/// keeps all others.
pub proof fn lemma_zone_forgotten(
    sched: SchedView,
    zone: usize,
    vcpus: Map<usize, VCpuView>,
    id: usize,
)
    requires
        sched.run_queue.len() == 4,
    ensures
        ({
            let after = sched.without_zone(zone, vcpus);
            &&& after.queued(id) <==> sched.queued(id) && vcpus[id].zone != zone
            &&& after.waits(id) <==> sched.waits(id) && vcpus[id].zone != zone
            &&& after.current == Some(id) <==> sched.current == Some(id) && vcpus[id].zone != zone
        }),
{
    let keep = |id: usize| vcpus[id].zone != zone;
    let left = |e: crate::scheduler::BlockedVCpuEntry| vcpus[e.vcpu].zone != zone;
    let after = sched.without_zone(zone, vcpus);
    lemma_filtered(sched.run_queue[0], keep, id);
    lemma_filtered(sched.run_queue[1], keep, id);
    lemma_filtered(sched.run_queue[2], keep, id);
    lemma_filtered(sched.run_queue[3], keep, id);
    if sched.waits(id) && vcpus[id].zone != zone {
        let k = choose|k: int|
            0 <= k < sched.blocked.len() && (#[trigger] sched.blocked[k]).vcpu == id;
        lemma_filtered(sched.blocked, left, sched.blocked[k]);
        let j = choose|j: int|
            0 <= j < after.blocked.len() && after.blocked[j] == sched.blocked[k];
        assert(after.blocked[j].vcpu == id);
    }
    if after.waits(id) {
        let k = choose|k: int|
            0 <= k < after.blocked.len() && (#[trigger] after.blocked[k]).vcpu == id;
        lemma_filtered(sched.blocked, left, after.blocked[k]);
        assert(after.blocked.contains(after.blocked[k]));
        let j = choose|j: int|
            0 <= j < sched.blocked.len() && sched.blocked[j] == after.blocked[k];
        assert(sched.blocked[j].vcpu == id);
    }
}

/// Taking a zone down disables the interrupts that it had and gives its devices back.
pub proof fn lemma_taken_down_devices(sys: Sys, zone: usize, i: int)
    requires
        sys.hv.gic.gicd_base + 0x10000 <= usize::MAX,
        1 <= i < 32,
    ensures
        ({
            let after = sys.zone_taken_down(zone).hw;
            let asked = after.ops.subrange(sys.hw.ops.len() as int, after.ops.len() as int);
            let base = sys.hv.gic.gicd_base;
            let word = sys.hv.zones[zone].inner.irq_bitmap[i];
            &&& after.ops.last() == (Op::ReleaseDevices { zone_id: zone })
            &&& asked.contains(Op::Write32 { addr: (base + 0x180 + 4 * i) as usize, word })
            &&& asked.contains(Op::Write32 { addr: (base + 0x380 + 4 * i) as usize, word })
        }),
{
    crate::laws::controller::lemma_reset(sys.hw, sys.hv.gic, sys.hv.zones[zone], i);
    let reset = sys.hw.irqchip_reset(sys.hv.gic, sys.hv.zones[zone]);
    let first = reset.ops.subrange(sys.hw.ops.len() as int, reset.ops.len() as int);
    let after = sys.zone_taken_down(zone).hw;
    let asked = after.ops.subrange(sys.hw.ops.len() as int, after.ops.len() as int);
    assert(asked =~= first.push(Op::ReleaseDevices { zone_id: zone }));
    let base = sys.hv.gic.gicd_base;
    let word = sys.hv.zones[zone].inner.irq_bitmap[i];
    let a = Op::Write32 { addr: (base + 0x180 + 4 * i) as usize, word };
    let b = Op::Write32 { addr: (base + 0x380 + 4 * i) as usize, word };
    let j = choose|j: int| 0 <= j < first.len() && first[j] == a;
    let k = choose|k: int| 0 <= k < first.len() && first[k] == b;
    assert(asked[j] == a);
    assert(asked[k] == b);
}

// ---------------------------------------------------------------------------
// A zone that turns itself off
// ---------------------------------------------------------------------------

proof fn lemma_shutting_down(sys: Sys, members: Seq<usize>, n: nat, this: usize, c: int)
    requires
        n <= members.len(),
        sys.hv.events.len() == sys.hv.cpus.len(),
        forall|i: int| 0 <= i < members.len() ==> #[trigger] members[i] < sys.hv.cpus.len(),
        0 <= c < sys.hv.cpus.len(),
    ensures
        ({
            let after = sys.cpus_shutting_down(members, n, this);
            &&& after.hv == (HvView {
                cpus: after.hv.cpus,
                events: after.hv.events,
                ..sys.hv
            })
            &&& after.hv.cpus.len() == sys.hv.cpus.len()
            &&& after.hv.events.len() == sys.hv.events.len()
            &&& sys.hw.ops.len() <= after.hw.ops.len()
            &&& if c != this && exists|i: int| 0 <= i < n && #[trigger] members[i] == c {
                &&& after.hv.cpus[c] == (PerCpuView { zone: None, ..sys.hv.cpus[c] })
                &&& after.hv.events[c] == seq![1usize]
                &&& exists|k: int|
                    sys.hw.ops.len() <= k < after.hw.ops.len() && #[trigger] after.hw.ops[k] == (
                    Op::RaiseSgi { cpu: c as usize, sgi: 7 })
            } else {
                &&& after.hv.cpus[c] == sys.hv.cpus[c]
                &&& after.hv.events[c] == sys.hv.events[c]
            }
        }),
    decreases n,
{
    if n > 0 {
        lemma_shutting_down(sys, members, (n - 1) as nat, this, c);
        let before = sys.cpus_shutting_down(members, (n - 1) as nat, this);
        let after = sys.cpus_shutting_down(members, n, this);
        let was = exists|i: int| 0 <= i < n - 1 && #[trigger] members[i] == c;
        let is = exists|i: int| 0 <= i < n && #[trigger] members[i] == c;
        if is && members[n - 1] != c {
            let i = choose|i: int| 0 <= i < n && #[trigger] members[i] == c;
            assert(0 <= i < n - 1 && members[i] == c);
        }
        if was {
            let i = choose|i: int| 0 <= i < n - 1 && #[trigger] members[i] == c;
            assert(0 <= i < n && members[i] == c);
            if c != this {
                let k = choose|k: int|
                    sys.hw.ops.len() <= k < before.hw.ops.len() && #[trigger] before.hw.ops[k] == (
                    Op::RaiseSgi { cpu: c as usize, sgi: 7 });
                assert(after.hw.ops[k] == before.hw.ops[k]);
            }
        }
        if members[n - 1] == c && c != this {
            assert(after.hw.ops[after.hw.ops.len() - 1] == (Op::RaiseSgi {
                cpu: c as usize,
                sgi: 7,
            }));
        }
    }
}

/// A zone that turns itself off is gone.  Its pCPUs belong to no zone, and each but the
/// one that asked is told to shut down, at once.
pub proof fn lemma_system_off(sys: Sys, cpu: usize, c: usize)
    requires
        sys.hv.wf(),
        cpu < sys.hv.cpus.len(),
        sys.hv.has_zone(cpu),
        c < sys.hv.cpus.len(),
    ensures
        ({
            let zone = sys.hv.cpus[cpu as int].zone->0;
            let set = sys.hv.zones[zone].inner.cpu_set;
            let after = sys.system_off(cpu);
            let now = after.hv.cpus[c as int];
            &&& !after.hv.zones.contains_key(zone)
            &&& !after.hv.zone_list.contains(zone)
            &&& set.has(c) ==> now.zone is None
            &&& c != cpu && set.has(c) ==> {
                &&& after.hv.events[c as int] == seq![1usize]
                &&& exists|k: int|
                    sys.hw.ops.len() <= k < after.hw.ops.len() && #[trigger] after.hw.ops[k] == (
                    Op::RaiseSgi { cpu: c, sgi: 7 })
            }
            &&& c == cpu || !set.has(c) ==> after.hv.events[c as int] == sys.hv.events[c as int]
            &&& !set.has(c) ==> now == sys.hv.cpus[c as int]
            &&& forall|other: usize|
                other != zone && #[trigger] sys.hv.zones.contains_key(other)
                    ==> after.hv.zones.contains_key(other) && after.hv.zones[other]
                    == sys.hv.zones[other]
        }),
{
    crate::hypervisor::lemma_cpu_ok(sys.hv, cpu);
    crate::hypervisor::lemma_wf_sizes(sys.hv);
    let zone = sys.hv.cpus[cpu as int].zone->0;
    let set = sys.hv.zones[zone].inner.cpu_set;
    let members = set.members();
    crate::hypercall::lemma_members_in_range(sys.hv, zone);
    set.lemma_members_below(64);
    lemma_shutting_down(sys, members, members.len(), cpu, c as int);
    lemma_shutting_down(sys, members, members.len(), cpu, cpu as int);
    if set.has(c) {
        assert(members.contains(c));
        let i = choose|i: int| 0 <= i < members.len() && members[i] == c;
        assert(members[i] == c);
    } else if exists|i: int| 0 <= i < members.len() && #[trigger] members[i] == c {
        let i = choose|i: int| 0 <= i < members.len() && #[trigger] members[i] == c;
        assert(members.contains(members[i]));
    }
    let told = sys.cpus_shutting_down(members, members.len(), cpu);
    let after = sys.system_off(cpu);
    if c != cpu && set.has(c) {
        let k = choose|k: int|
            sys.hw.ops.len() <= k < told.hw.ops.len() && #[trigger] told.hw.ops[k] == (
            Op::RaiseSgi { cpu: c, sgi: 7 });
        assert(after.hw.ops[k] == told.hw.ops[k]);
    }
    let list = sys.hv.zone_list;
    let at = crate::hypervisor::id_position(list, zone, 0);
    crate::hypervisor::lemma_id_position(list, zone, 0);
    assert(!after.hv.zone_list.contains(zone)) by {
        if after.hv.zone_list.contains(zone) {
            let i = choose|i: int|
                0 <= i < after.hv.zone_list.len() && after.hv.zone_list[i] == zone;
            if at < list.len() {
                let j = if i < at {
                    i
                } else {
                    i + 1
                };
                assert(list[j] == list[at]);
            }
        }
    }
}

// ---------------------------------------------------------------------------
// Virtio
// ---------------------------------------------------------------------------

/// An interrupt that a virtual device raises for a pCPU waits there, once however often it
/// is raised, and the pCPU is told the first time.
pub proof fn lemma_virtio_irq(sys: Sys, target: usize, irq: u32)
    requires
        sys.hv.wf(),
        target < sys.hv.cpus.len(),
        sys.hv.virtio.irqs[target as int].no_duplicates(),
    ensures
        ({
            let before = sys.hv.virtio.irqs[target as int];
            let after = sys.virtio_irq_queued(target, irq);
            let now = after.hv.virtio.irqs[target as int];
            &&& now.contains(irq)
            &&& now.no_duplicates()
            &&& forall|i: int| 0 <= i < before.len() ==> #[trigger] now[i] == before[i]
            &&& before.contains(irq) ==> after == sys
            &&& !before.contains(irq) ==> {
                &&& now.len() == before.len() + 1
                &&& after.hv.events[target as int].len() > 0
                &&& after.hv.events[target as int].last() == 2
                &&& after.hw.ops == sys.hw.ops.push(Op::RaiseSgi { cpu: target, sgi: 7 })
            }
            &&& forall|other: int|
                0 <= other < sys.hv.cpus.len() && other != target
                    ==> #[trigger] after.hv.virtio.irqs[other] == sys.hv.virtio.irqs[other]
            &&& after.hv.cpus == sys.hv.cpus
            &&& after.virtio_irq_queued(target, irq) == after
        }),
{
    crate::hypervisor::lemma_wf_sizes(sys.hv);
    let before = sys.hv.virtio.irqs[target as int];
    let now = sys.virtio_irq_queued(target, irq).hv.virtio.irqs[target as int];
    if !before.contains(irq) {
        assert(now[before.len() as int] == irq);
    }
}

/// Clearing an injected interrupt is asked of every pCPU that is on, but the first.
pub proof fn lemma_inject_cleared(sys: Sys, n: nat, c: int)
    requires
        sys.hv.wf(),
        n <= sys.hv.cpus.len(),
        0 <= c < sys.hv.cpus.len(),
    ensures
        ({
            let after = sys.inject_cleared(n);
            &&& after.hv == (HvView { events: after.hv.events, ..sys.hv })
            &&& after.hv.events.len() == sys.hv.events.len()
            &&& sys.hw.ops.len() <= after.hw.ops.len()
            &&& if 1 <= c < n && sys.hv.cpus[c].power_on {
                &&& after.hv.events[c] == sys.hv.events[c].push(4)
                &&& exists|k: int|
                    sys.hw.ops.len() <= k < after.hw.ops.len() && #[trigger] after.hw.ops[k] == (
                    Op::RaiseSgi { cpu: c as usize, sgi: 7 })
            } else {
                after.hv.events[c] == sys.hv.events[c]
            }
        }),
    decreases n,
{
    crate::hypervisor::lemma_wf_sizes(sys.hv);
    if n > 1 {
        lemma_inject_cleared(sys, (n - 1) as nat, c);
        let before = sys.inject_cleared((n - 1) as nat);
        let after = sys.inject_cleared(n);
        if 1 <= c < n - 1 && sys.hv.cpus[c].power_on {
            let k = choose|k: int|
                sys.hw.ops.len() <= k < before.hw.ops.len() && #[trigger] before.hw.ops[k] == (
                Op::RaiseSgi { cpu: c as usize, sgi: 7 });
            assert(after.hw.ops[k] == before.hw.ops[k]);
        }
        if c == n - 1 && sys.hv.cpus[c].power_on {
            assert(after.hw.ops[after.hw.ops.len() - 1] == (Op::RaiseSgi {
                cpu: c as usize,
                sgi: 7,
            }));
        }
    }
}

/// The hypercalls' numbers.
pub proof fn lemma_hypercall_numbers(code: crate::hypercall::HyperCallCode)
    ensures
        match code {
            crate::hypercall::HyperCallCode::HvVirtioInit => code.number() == 0,
            crate::hypercall::HyperCallCode::HvVirtioInjectIrq => code.number() == 1,
            crate::hypercall::HyperCallCode::HvZoneStart => code.number() == 2,
            crate::hypercall::HyperCallCode::HvZoneShutdown => code.number() == 3,
            crate::hypercall::HyperCallCode::HvZoneList => code.number() == 4,
            crate::hypercall::HyperCallCode::HvIvcInfo => code.number() == 5,
            crate::hypercall::HyperCallCode::HvConfigCheck => code.number() == 6,
            crate::hypercall::HyperCallCode::HvClearInjectIrq => code.number() == 20,
            crate::hypercall::HyperCallCode::HvVirtioGetIrq => code.number() == 86,
        },
{
}

} // verus!

//! Starting a zone and taking it down.

use vstd::prelude::*;
use crate::arch::aarch64::vcpu::TrapFrameView;
use crate::cpu_data::PerCpuView;
use crate::hypervisor::{HvView, Sys};
use crate::zone::{ZoneConfig, ZoneSetup, ZoneView};

verus! {

pub proof fn lemma_given(
    hv: HvView,
    zone: usize,
    members: Seq<usize>,
    n: nat,
    entry: u64,
    dtb_ipa: u64,
    is_aarch32: bool,
)
    requires
        n <= members.len(),
        forall|i: int| 0 <= i < members.len() ==> #[trigger] members[i] < hv.cpus.len(),
    ensures
        ({
            let given = hv.cpus_given(zone, members, n, entry, dtb_ipa, is_aarch32);
            &&& given == (HvView { cpus: given.cpus, ..hv })
            &&& given.cpus.len() == hv.cpus.len()
            &&& forall|c: int|
                0 <= c < hv.cpus.len() ==> (#[trigger] given.cpus[c]).sched == hv.cpus[c].sched
                    && given.cpus[c].incoming == hv.cpus[c].incoming
        }),
    decreases n,
{
    if n > 0 {
        lemma_given(hv, zone, members, (n - 1) as nat, entry, dtb_ipa, is_aarch32);
    }
}

/// `after` holds the vCPUs that `before` holds.
pub open spec fn keeps(before: PerCpuView, after: PerCpuView) -> bool {
    &&& after.sched.wf()
    &&& after.incoming == before.incoming
    &&& forall|id: usize| before.sched.queued(id) ==> #[trigger] after.sched.queued(id)
}

/// What making the vCPUs of a zone changes: `after` has the vCPUs of `before` and those
/// in the zone's list, which were not in use.
pub open spec fn vcpus_added(before: HvView, after: HvView, zone: usize, n: nat) -> bool {
    let list = after.zones[zone].inner.vcpus;
    &&& after.ids.wf()
    &&& after.ids.next <= before.ids.next + n
    &&& list.len() == n
    &&& forall|i: int, j: int| 0 <= i < j < list.len() ==> #[trigger] list[i] < #[trigger] list[j]
    &&& forall|id: usize| #[trigger] list.contains(id) ==> !before.ids.in_use(id)
    &&& forall|id: usize| #[trigger]
        after.ids.in_use(id) <==> before.ids.in_use(id) || list.contains(id)
    &&& forall|id: usize| #[trigger]
        after.vcpus.contains_key(id) <==> before.vcpus.contains_key(id) || list.contains(id)
    &&& forall|id: usize| #[trigger]
        before.vcpus.contains_key(id) ==> after.vcpus[id] == before.vcpus[id]
    &&& forall|id: usize| #[trigger] list.contains(id) ==> after.vcpus[id].zone == zone
    &&& after.zones.dom() == before.zones.dom()
    &&& forall|z: usize|
        z != zone && #[trigger] before.zones.contains_key(z) ==> after.zones[z] == before.zones[z]
    &&& after.zones[zone].inner.cpu_set == before.zones[zone].inner.cpu_set
    &&& after.zone_list == before.zone_list
    &&& after.cpus.len() == before.cpus.len()
    &&& forall|c: int| 0 <= c < before.cpus.len() ==> keeps(before.cpus[c], #[trigger] after.cpus[c])
    &&& forall|id: usize, home: usize| #[trigger]
        crate::laws::ready::lost(after, id, home) ==> !list.contains(id)
}

pub proof fn lemma_created(
    hv: HvView,
    zone: usize,
    members: Seq<usize>,
    n: nat,
    stack_tops: Seq<usize>,
    boot: TrapFrameView,
    vtr: u64,
)
    requires
        hv.ids.wf(),
        hv.ids.next + n < usize::MAX,
        hv.zones.contains_key(zone),
        hv.zones[zone].inner.vcpus.len() == 0,
        forall|id: usize| #[trigger] hv.vcpus.contains_key(id) ==> hv.ids.in_use(id),
        n <= members.len(),
        forall|i: int| 0 <= i < members.len() ==> #[trigger] members[i] < hv.cpus.len(),
        forall|c: int| 0 <= c < hv.cpus.len() ==> (#[trigger] hv.cpus[c]).sched.wf(),
    ensures
        vcpus_added(hv, hv.vcpus_created(zone, members, n, stack_tops, boot, vtr), zone, n),
    decreases n,
{
    let after = hv.vcpus_created(zone, members, n, stack_tops, boot, vtr);
    if n > 0 {
        lemma_created(hv, zone, members, (n - 1) as nat, stack_tops, boot, vtr);
        let before = hv.vcpus_created(zone, members, (n - 1) as nat, stack_tops, boot, vtr);
        let id = before.ids.head();
        let list = before.zones[zone].inner.vcpus;
        let longer = after.zones[zone].inner.vcpus;
        crate::vcpu::lemma_id_taken(before.ids);
        assert(!before.ids.in_use(id));
        assert(!list.contains(id)) by {
            if list.contains(id) {
                assert(before.ids.in_use(id));
            }
        }
        crate::hypervisor::lemma_ascending_with(list, id);
        assert(longer == crate::hypervisor::ascending_with(list, id));
        assert(after.ids == before.ids.taken());
        assert(!hv.vcpus.contains_key(id)) by {
            if hv.vcpus.contains_key(id) {
                assert(hv.ids.in_use(id));
                assert(before.ids.in_use(id));
            }
        }
        assert(!hv.ids.in_use(id)) by {
            if hv.ids.in_use(id) {
                assert(before.ids.in_use(id));
            }
        }
        assert forall|other: usize| #[trigger] after.ids.in_use(other) <==> hv.ids.in_use(other)
            || longer.contains(other) by {
            assert(before.ids.taken().in_use(other) <==> before.ids.in_use(other) || other == id);
        }
        assert(after.zones.dom() =~= hv.zones.dom());
        let cpu = members[n - 1];
        let pc = before.cpus[cpu as int];
        let priority = after.vcpus[id].priority;
        assert(keeps(hv.cpus[cpu as int], pc));
        crate::laws::ready::lemma_enqueued(pc.sched, id, priority);
        assert forall|c: int| 0 <= c < hv.cpus.len() implies keeps(
            hv.cpus[c],
            #[trigger] after.cpus[c],
        ) by {
            assert(keeps(hv.cpus[c], before.cpus[c]));
        }
        assert forall|other: usize, home: usize| #[trigger]
            crate::laws::ready::lost(after, other, home) implies !longer.contains(other) by {
            if other != id && list.contains(other) {
                assert(after.vcpus[other] == before.vcpus[other]);
                assert(crate::laws::ready::lost(before, other, home));
            }
        }
    }
}

proof fn lemma_powered_on(hv: HvView, members: Seq<usize>, n: nat)
    requires
        n <= members.len(),
        forall|i: int| 0 <= i < members.len() ==> #[trigger] members[i] < hv.cpus.len(),
    ensures
        ({
            let on = hv.powered_on(members, n);
            &&& on == (HvView { cpus: on.cpus, ..hv })
            &&& on.cpus.len() == hv.cpus.len()
            &&& forall|c: int|
                0 <= c < hv.cpus.len() ==> (#[trigger] on.cpus[c]).sched == hv.cpus[c].sched
                    && on.cpus[c].incoming == hv.cpus[c].incoming
        }),
    decreases n,
{
    if n > 0 {
        lemma_powered_on(hv, members, (n - 1) as nat);
    }
}

proof fn lemma_released(hv: HvView, members: Seq<usize>, n: nat)
    requires
        n <= members.len(),
        forall|i: int| 0 <= i < members.len() ==> #[trigger] members[i] < hv.cpus.len(),
    ensures
        ({
            let released = hv.cpus_released(members, n);
            &&& released == (HvView { cpus: released.cpus, ..hv })
            &&& released.cpus.len() == hv.cpus.len()
            &&& forall|c: int|
                0 <= c < hv.cpus.len() && !members.contains(c as usize)
                    ==> #[trigger] released.cpus[c] == hv.cpus[c]
        }),
    decreases n,
{
    if n > 0 {
        lemma_released(hv, members, (n - 1) as nat);
        assert(members.contains(members[n - 1]));
    }
}

/// The pCPUs that a new zone gets exist.
pub proof fn lemma_members_exist(hv: HvView, config: ZoneConfig, setup: ZoneSetup)
    requires
        hv.wf(),
        hv.has_room(config, setup),
    ensures
        ({
            let members = crate::zone::cpu_set_of(config.cpus@).members();
            &&& forall|i: int| 0 <= i < members.len() ==> #[trigger] members[i] < hv.cpus.len()
        }),
{
    let set = crate::zone::cpu_set_of(config.cpus@);
    crate::hypervisor::lemma_wf_sizes(hv);
    assert forall|i: int| 0 <= i < config.cpus@.len() implies #[trigger] config.cpus@[i]
        < crate::cpu_data::CPU_SET_BITS by {
        assert(config.cpus@[i] < hv.cpus.len());
    }
    crate::zone::lemma_cpu_set_of(config.cpus@);
    set.lemma_members_below(64);
    assert forall|i: int| 0 <= i < set.members().len() implies #[trigger] set.members()[i]
        < hv.cpus.len() by {
        let cpu = set.members()[i];
        assert(set.members().contains(cpu));
        assert(set.has(cpu));
        assert(config.cpus@.contains(cpu));
        let k = choose|k: int| 0 <= k < config.cpus@.len() && config.cpus@[k] == cpu;
        assert(config.cpus@[k] < hv.cpus.len());
    }
}

/// The state in which the vCPUs of a new zone are made.
pub open spec fn prepared(hv: HvView, config: ZoneConfig, setup: ZoneSetup) -> HvView {
    let zone = config.zone_id as usize;
    let members = crate::zone::cpu_set_of(config.cpus@).members();
    hv.with_zone(zone, HvView::bare_zone(config, setup)).cpus_given(
        zone,
        members,
        members.len(),
        config.entry_point,
        crate::zone::dtb_ipa_of(config.memory_regions@, config.dtb_load_paddr),
        config.is_aarch32,
    )
}

pub proof fn lemma_zone_created(hv: HvView, config: ZoneConfig, setup: ZoneSetup, vtr: u64)
    requires
        hv.wf(),
        hv.has_room(config, setup),
    ensures
        ({
            let zone = config.zone_id as usize;
            let members = crate::zone::cpu_set_of(config.cpus@).members();
            let start = prepared(hv, config, setup);
            let created = hv.zone_created(config, setup, vtr);
            &&& start == (HvView {
                cpus: start.cpus,
                ..hv.with_zone(zone, HvView::bare_zone(config, setup))
            })
            &&& start.cpus.len() == hv.cpus.len()
            &&& forall|c: int|
                0 <= c < hv.cpus.len() ==> (#[trigger] start.cpus[c]).sched == hv.cpus[c].sched
                    && start.cpus[c].incoming == hv.cpus[c].incoming
            &&& vcpus_added(start, created, zone, members.len())
        }),
{
    let zone = config.zone_id as usize;
    let members = crate::zone::cpu_set_of(config.cpus@).members();
    let bare = hv.with_zone(zone, HvView::bare_zone(config, setup));
    let dtb_ipa = crate::zone::dtb_ipa_of(config.memory_regions@, config.dtb_load_paddr);
    let start = prepared(hv, config, setup);
    crate::hypervisor::lemma_wf_sizes(hv);
    lemma_members_exist(hv, config, setup);
    lemma_given(
        bare,
        zone,
        members,
        members.len(),
        config.entry_point,
        dtb_ipa,
        config.is_aarch32,
    );
    assert forall|id: usize| #[trigger] start.vcpus.contains_key(id) implies start.ids.in_use(
        id,
    ) by {
        crate::hypervisor::lemma_vcpu_ok(hv, id);
    }
    assert forall|c: int| 0 <= c < start.cpus.len() implies (#[trigger] start.cpus[c]).sched.wf() by {
        crate::hypervisor::lemma_cpu_ok(hv, c as usize);
    }
    let boot = TrapFrameView::boot(config.entry_point, dtb_ipa);
    lemma_created(start, zone, members, members.len(), setup.stack_tops@, boot, vtr);
    let made = start.vcpus_created(zone, members, members.len(), setup.stack_tops@, boot, vtr);
    let created = hv.zone_created(config, setup, vtr);
    crate::device::irqchip::gicv3::vgic::lemma_vgic_keeps(made.zones[zone].inner, config.gic);
    assert(created == made.with_zone(
        zone,
        ZoneView { inner: made.zones[zone].inner.with_vgic(config.gic), ..made.zones[zone] },
    ));
    assert(created.zones.dom() =~= start.zones.dom());
    assert(created.zones[zone].inner.vcpus == made.zones[zone].inner.vcpus);
    assert forall|id: usize, home: usize| #[trigger]
        crate::laws::ready::lost(created, id, home) implies !created.zones[zone].inner.vcpus.contains(
        id,
    ) by {
        assert(crate::laws::ready::lost(made, id, home));
    }
}

/// Starting a zone and taking it down again changes neither zones nor vCPUs nor which
/// identifiers are in use: what the start took is all given back.
pub proof fn lemma_start_and_take_down(sys: Sys, config: ZoneConfig, setup: ZoneSetup)
    requires
        sys.hv.wf(),
        sys.hv.has_room(config, setup),
        sys.hv.create_error(config, setup) is None,
        config.cpus@.len() > 0,
    ensures
        ({
            let zone = config.zone_id as usize;
            let created = sys.hv.zone_created(config, setup, sys.hw.ich.vtr);
            let started = (Sys { hv: created, ..sys }).zone_launched(zone);
            let after = started.zone_taken_down(zone).hv;
            &&& started.hv.zone_list.contains(zone)
            &&& after.zones == sys.hv.zones
            &&& after.zone_list == sys.hv.zone_list
            &&& after.vcpus == sys.hv.vcpus
            &&& forall|id: usize| #[trigger] after.ids.in_use(id) <==> sys.hv.ids.in_use(id)
        }),
{
    let hv = sys.hv;
    let zone = config.zone_id as usize;
    let vtr = sys.hw.ich.vtr;
    let start = prepared(hv, config, setup);
    let created = hv.zone_created(config, setup, vtr);
    let started = (Sys { hv: created, ..sys }).zone_launched(zone);
    let list = created.zones[zone].inner.vcpus;
    let members = created.zones[zone].inner.cpu_set.members();
    lemma_zone_created(hv, config, setup, vtr);
    lemma_members_exist(hv, config, setup);
    assert(members == crate::zone::cpu_set_of(config.cpus@).members());
    let listed = HvView { zone_list: created.zone_list.push(zone), ..created };
    lemma_powered_on(listed, members, members.len());
    assert(started.hv == (HvView {
        cpus: started.hv.cpus,
        events: started.hv.events,
        ..listed
    }));
    assert(started.hv.zone_list[hv.zone_list.len() as int] == zone);
    lemma_released(started.hv, members, members.len());
    let released = started.hv.cpus_released(members, members.len());
    let dropped = released.vcpus_dropped(zone).zone_dropped(zone);
    crate::hypervisor::lemma_id_position(started.hv.zone_list, zone, 0);
    let at = crate::hypervisor::id_position(started.hv.zone_list, zone, 0);
    assert(at == hv.zone_list.len()) by {
        if at < hv.zone_list.len() {
            assert(started.hv.zone_list[at] == hv.zone_list[at]);
            assert(hv.zone_list.contains(zone));
        }
    }
    assert(dropped.zone_list =~= hv.zone_list);
    assert(dropped.zones =~= hv.zones);
    assert forall|id: usize| #[trigger] hv.vcpus.contains_key(id) implies hv.vcpus[id].zone
        != zone by {
        crate::hypervisor::lemma_vcpu_ok(hv, id);
    }
    assert(released.vcpus == created.vcpus);
    assert forall|id: usize| #[trigger] dropped.vcpus.contains_key(id) <==> hv.vcpus.contains_key(
        id,
    ) by {
        assert(created.vcpus.contains_key(id) <==> start.vcpus.contains_key(id) || list.contains(
            id,
        ));
        if hv.vcpus.contains_key(id) {
            assert(start.vcpus.contains_key(id));
            assert(created.vcpus[id] == hv.vcpus[id]);
        }
    }
    assert(dropped.vcpus =~= hv.vcpus);
    assert forall|i: int| 0 <= i < list.len() implies dropped.ids.in_use(#[trigger] list[i]) by {
        assert(list.contains(list[i]));
    }
    crate::laws::lemma_ids_reclaimed(dropped, list, list.len());
    assert(list.subrange(0, list.len() as int) =~= list);
}

/// Starting a zone loses no ready vCPU: the new zone's first vCPU is queued where it is
/// bound, and the vCPUs of other zones stay where they are.
pub proof fn lemma_start_loses_none(sys: Sys, config: ZoneConfig, setup: ZoneSetup)
    requires
        sys.hv.wf(),
        sys.hv.has_room(config, setup),
        sys.hv.create_error(config, setup) is None,
        config.cpus@.len() > 0,
        crate::laws::ready::none_lost(sys.hv),
    ensures
        ({
            let zone = config.zone_id as usize;
            let created = sys.hv.zone_created(config, setup, sys.hw.ich.vtr);
            crate::laws::ready::none_lost((Sys { hv: created, ..sys }).zone_launched(zone).hv)
        }),
{
    let hv = sys.hv;
    let zone = config.zone_id as usize;
    let vtr = sys.hw.ich.vtr;
    let start = prepared(hv, config, setup);
    let created = hv.zone_created(config, setup, vtr);
    let after = (Sys { hv: created, ..sys }).zone_launched(zone).hv;
    let members = created.zones[zone].inner.cpu_set.members();
    lemma_zone_created(hv, config, setup, vtr);
    lemma_members_exist(hv, config, setup);
    assert(members == crate::zone::cpu_set_of(config.cpus@).members());
    let listed = HvView { zone_list: created.zone_list.push(zone), ..created };
    lemma_powered_on(listed, members, members.len());
    let on = listed.powered_on(members, members.len());
    assert(members.len() > 0) by {
        assert forall|i: int| 0 <= i < config.cpus@.len() implies #[trigger] config.cpus@[i]
            < crate::cpu_data::CPU_SET_BITS by {
            crate::hypervisor::lemma_wf_sizes(hv);
        }
        crate::zone::lemma_cpu_set_of(config.cpus@);
        let set = crate::zone::cpu_set_of(config.cpus@);
        set.lemma_members_below(64);
        assert(config.cpus@.contains(config.cpus@[0]));
        assert(set.has(config.cpus@[0]));
        assert(members.contains(config.cpus@[0]));
    }
    let boot_cpu = members[0];
    let boot = created.zones[zone].inner.vcpu_base;
    let pc = on.cpus[boot_cpu as int];
    assert(keeps(start.cpus[boot_cpu as int], created.cpus[boot_cpu as int]));
    crate::laws::ready::lemma_enqueued(pc.sched, boot, on.vcpus[boot].priority);
    assert forall|id: usize, home: usize| !#[trigger] crate::laws::ready::lost(after, id, home) by {
        if crate::laws::ready::lost(after, id, home) {
            assert(keeps(start.cpus[home as int], created.cpus[home as int]));
            assert(crate::laws::ready::lost(created, id, home));
            assert(start.vcpus.contains_key(id));
            assert(crate::laws::ready::lost(hv, id, home));
        }
    }
}

/// Taking a zone down loses no ready vCPU of another zone, as long as none of them is
/// bound to a pCPU of that zone.
pub proof fn lemma_take_down_loses_none(sys: Sys, zone: usize)
    requires
        sys.hv.wf(),
        sys.hv.zones.contains_key(zone),
        crate::laws::ready::none_lost(sys.hv),
        forall|id: usize| #[trigger]
            sys.hv.vcpus.contains_key(id) && sys.hv.vcpus[id].zone != zone
                ==> !sys.hv.zones[zone].inner.cpu_set.has(sys.hv.vcpus[id].affinity->0),
    ensures
        crate::laws::ready::none_lost(sys.zone_taken_down(zone).hv),
{
    let hv = sys.hv;
    let inner = hv.zones[zone].inner;
    let members = inner.cpu_set.members();
    let after = sys.zone_taken_down(zone).hv;
    crate::hypervisor::lemma_zone_ok(hv, zone);
    inner.cpu_set.lemma_members_below(64);
    assert forall|i: int| 0 <= i < members.len() implies #[trigger] members[i] < hv.cpus.len() by {
        assert(members.contains(members[i]));
    }
    lemma_released(hv, members, members.len());
    let dropped = hv.cpus_released(members, members.len()).vcpus_dropped(zone).zone_dropped(zone);
    lemma_reclaim_changes_ids(dropped, inner.vcpus, inner.vcpus.len());
    assert forall|id: usize, home: usize| !#[trigger] crate::laws::ready::lost(after, id, home) by {
        if crate::laws::ready::lost(after, id, home) {
            assert(hv.vcpus.contains_key(id) && hv.vcpus[id].zone != zone);
            assert(!members.contains(home));
            assert(after.cpus[home as int] == hv.cpus[home as int]);
            assert(crate::laws::ready::lost(hv, id, home));
        }
    }
}

proof fn lemma_reclaim_changes_ids(hv: HvView, ids: Seq<usize>, n: nat)
    ensures
        hv.ids_reclaimed(ids, n) == (HvView { ids: hv.ids_reclaimed(ids, n).ids, ..hv }),
    decreases n,
{
    if n > 0 {
        lemma_reclaim_changes_ids(hv, ids, (n - 1) as nat);
    }
}

} // verus!

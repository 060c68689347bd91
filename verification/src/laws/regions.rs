//! Which handler a guest's access to a device goes to.

use vstd::prelude::*;
use crate::device::irqchip::gicv3::GicConfig;
use crate::memory::{MMIOConfig, MMIOHandler, MMIORegion};
use crate::zone::ZoneInnerView;

verus! {

/// An access lies in a region.
pub open spec fn lies_in(region: MMIORegion, addr: usize, size: usize) -> bool {
    region.start <= addr && addr + size <= region.start + region.size
}

/// No two regions start at the same address.
pub open spec fn starts_differ(mmio: Seq<MMIOConfig>) -> bool {
    forall|i: int, j: int|
        0 <= i < j < mmio.len() ==> (#[trigger] mmio[i]).region.start != (
        #[trigger] mmio[j]).region.start
}

proof fn lemma_covering(mmio: Seq<MMIOConfig>, addr: usize, size: usize, from: int)
    requires
        0 <= from <= mmio.len(),
    ensures
        match crate::zone::region_covering(mmio, addr, size, from) {
            Some((region, handler, arg)) => exists|k: int|
                from <= k < mmio.len() && lies_in((#[trigger] mmio[k]).region, addr, size)
                    && mmio[k].region == region && mmio[k].handler == handler && mmio[k].arg == arg
                    && forall|j: int|
                    from <= j < k ==> !lies_in((#[trigger] mmio[j]).region, addr, size),
            None => forall|k: int|
                from <= k < mmio.len() ==> !lies_in((#[trigger] mmio[k]).region, addr, size),
        },
    decreases mmio.len() - from,
{
    if from < mmio.len() {
        if lies_in(mmio[from].region, addr, size) {
            assert(lies_in(mmio[from].region, addr, size));
        } else {
            lemma_covering(mmio, addr, size, from + 1);
        }
    }
}

/// An access goes to the first of the registered regions that it lies in, and nowhere if
/// it lies in none; where regions do not overlap, that is the region it lies in.
pub proof fn lemma_access_finds_its_region(
    zone: ZoneInnerView,
    addr: usize,
    size: usize,
    k: int,
)
    requires
        0 <= k < zone.mmio.len(),
        lies_in(zone.mmio[k].region, addr, size),
        forall|j: int|
            0 <= j < zone.mmio.len() && j != k ==> !lies_in(
                (#[trigger] zone.mmio[j]).region,
                addr,
                size,
            ),
    ensures
        crate::zone::region_covering(zone.mmio, addr, size, 0) == Some(
            (zone.mmio[k].region, zone.mmio[k].handler, zone.mmio[k].arg),
        ),
{
    lemma_covering(zone.mmio, addr, size, 0);
}

/// An access that lies in no region is not handled.
pub proof fn lemma_stray_access(zone: ZoneInnerView, addr: usize, size: usize)
    ensures
        crate::zone::region_covering(zone.mmio, addr, size, 0) is None <==> forall|k: int|
            0 <= k < zone.mmio.len() ==> !lies_in((#[trigger] zone.mmio[k]).region, addr, size),
{
    lemma_covering(zone.mmio, addr, size, 0);
}

proof fn lemma_position(mmio: Seq<MMIOConfig>, start: usize, from: int)
    requires
        0 <= from <= mmio.len(),
    ensures
        ({
            let at = crate::zone::region_position(mmio, start, from);
            &&& from <= at <= mmio.len()
            &&& at < mmio.len() ==> mmio[at].region.start == start
            &&& forall|j: int| from <= j < at ==> (#[trigger] mmio[j]).region.start != start
        }),
    decreases mmio.len() - from,
{
    if from < mmio.len() && mmio[from].region.start != start {
        lemma_position(mmio, start, from + 1);
    }
}

/// Registering a region adds it, after those that are there, unless one starts at the same
/// address: then that one keeps its place and its size and gets the new handler.  Every
/// other region stays as it is, and so does the rest of the zone.
pub proof fn lemma_registered(
    zone: ZoneInnerView,
    start: usize,
    size: usize,
    handler: MMIOHandler,
    arg: usize,
)
    requires
        starts_differ(zone.mmio),
    ensures
        ({
            let after = zone.with_region(start, size, handler, arg);
            let is_known = exists|k: int|
                0 <= k < zone.mmio.len() && (#[trigger] zone.mmio[k]).region.start == start;
            &&& starts_differ(after.mmio)
            &&& after == (ZoneInnerView { mmio: after.mmio, ..zone })
            &&& after.mmio.len() == zone.mmio.len() + if is_known {
                0int
            } else {
                1
            }
            &&& forall|k: int|
                0 <= k < zone.mmio.len() ==> #[trigger] after.mmio[k] == if zone.mmio[k].region.start
                    == start {
                    MMIOConfig { region: zone.mmio[k].region, handler, arg }
                } else {
                    zone.mmio[k]
                }
            &&& !is_known ==> after.mmio.last() == (MMIOConfig {
                region: MMIORegion { start, size },
                handler,
                arg,
            })
        }),
{
    lemma_position(zone.mmio, start, 0);
    let at = crate::zone::region_position(zone.mmio, start, 0);
    let after = zone.with_region(start, size, handler, arg);
    assert forall|i: int, j: int| 0 <= i < j < after.mmio.len() implies (
    #[trigger] after.mmio[i]).region.start != (#[trigger] after.mmio[j]).region.start by {
        if j < zone.mmio.len() {
            assert(zone.mmio[i].region.start != zone.mmio[j].region.start);
        } else {
            assert(zone.mmio[i].region.start != start);
        }
    }
    if at < zone.mmio.len() {
        assert(zone.mmio[at].region.start == start);
    }
}

/// A region that was removed is gone, and every other one is left, in the same order.
pub proof fn lemma_removed(zone: ZoneInnerView, start: usize)
    requires
        starts_differ(zone.mmio),
    ensures
        ({
            let after = zone.without_region(start);
            &&& after == (ZoneInnerView { mmio: after.mmio, ..zone })
            &&& after.mmio == zone.mmio.filter(|c: MMIOConfig| c.region.start != start)
        }),
{
    lemma_position(zone.mmio, start, 0);
    let at = crate::zone::region_position(zone.mmio, start, 0);
    let keep = |c: MMIOConfig| c.region.start != start;
    if at < zone.mmio.len() {
        let head = zone.mmio.subrange(0, at);
        let tail = zone.mmio.subrange(at + 1, zone.mmio.len() as int);
        assert(zone.mmio =~= head + seq![zone.mmio[at]] + tail);
        lemma_all_kept(head, keep);
        assert forall|i: int| 0 <= i < tail.len() implies keep(#[trigger] tail[i]) by {
            assert(tail[i] == zone.mmio[at + 1 + i]);
            assert(zone.mmio[at].region.start != zone.mmio[at + 1 + i].region.start);
        }
        lemma_all_kept(tail, keep);
        let one = seq![zone.mmio[at]];
        assert(one.filter(keep) =~= Seq::<MMIOConfig>::empty()) by {
            reveal(Seq::filter);
            assert(one.drop_last() =~= Seq::<MMIOConfig>::empty());
            assert(one.drop_last().filter(keep) =~= Seq::<MMIOConfig>::empty());
        }
        Seq::filter_distributes_over_add(head + one, tail, keep);
        Seq::filter_distributes_over_add(head, one, keep);
        assert(zone.mmio.remove(at) =~= head + tail);
        assert(head + Seq::<MMIOConfig>::empty() =~= head);
    } else {
        lemma_all_kept(zone.mmio, keep);
    }
}

proof fn lemma_all_kept(s: Seq<MMIOConfig>, keep: spec_fn(MMIOConfig) -> bool)
    requires
        forall|i: int| 0 <= i < s.len() ==> keep(#[trigger] s[i]),
    ensures
        s.filter(keep) == s,
    decreases s.len(),
{
    reveal(Seq::filter);
    if s.len() > 0 {
        let rest = s.drop_last();
        assert forall|i: int| 0 <= i < rest.len() implies keep(#[trigger] rest[i]) by {
            assert(rest[i] == s[i]);
        }
        lemma_all_kept(rest, keep);
        assert(keep(s[s.len() - 1]));
        assert(s =~= rest.push(s.last()));
    } else {
        assert(s.filter(keep) =~= s);
    }
}

proof fn lemma_redistributors(zone: ZoneInnerView, gicr_base: usize, n: nat)
    requires
        starts_differ(zone.mmio),
        gicr_base + n * 0x20000 <= usize::MAX,
        zone.vcpu_base + n <= usize::MAX,
        forall|i: int|
            0 <= i < zone.mmio.len() ==> !(gicr_base <= (#[trigger] zone.mmio[i]).region.start
                < gicr_base + n * 0x20000),
    ensures
        ({
            let after = zone.with_redistributors(gicr_base, n);
            &&& starts_differ(after.mmio)
            &&& after == (ZoneInnerView { mmio: after.mmio, ..zone })
            &&& after.mmio.len() == zone.mmio.len() + n
            &&& forall|i: int| 0 <= i < zone.mmio.len() ==> #[trigger] after.mmio[i] == zone.mmio[i]
            &&& forall|i: int|
                zone.mmio.len() <= i < after.mmio.len() ==> {
                    let number = i - zone.mmio.len();
                    #[trigger] after.mmio[i] == (MMIOConfig {
                        region: MMIORegion {
                            start: (gicr_base + number * 0x20000) as usize,
                            size: 0x20000,
                        },
                        handler: MMIOHandler::GicRedistributor,
                        arg: (zone.vcpu_base + number) as usize,
                    })
                }
        }),
    decreases n,
{
    if n > 0 {
        let m = (n - 1) as nat;
        lemma_redistributors(zone, gicr_base, m);
        let before = zone.with_redistributors(gicr_base, m);
        let start = (gicr_base + m * 0x20000) as usize;
        let arg = (zone.vcpu_base + m) as usize;
        lemma_registered(before, start, 0x20000, MMIOHandler::GicRedistributor, arg);
        assert forall|i: int| 0 <= i < before.mmio.len() implies (
        #[trigger] before.mmio[i]).region.start != start by {
            if i < zone.mmio.len() {
                assert(before.mmio[i] == zone.mmio[i]);
            }
        }
    }
}

/// The virtual interrupt controller of a zone: an access to the distributor, to the
/// translation service or to the redistributor of the zone's `k`th vCPU goes there, and
/// the latter with that vCPU's identifier.
pub proof fn lemma_vgic_registered(zone: ZoneInnerView, config: GicConfig, k: int)
    requires
        zone.mmio.len() == 0,
        config is Gicv3,
        ({
            let gic = config->Gicv3_0;
            let n = zone.vcpus.len();
            &&& gic.gicd_base != gic.gits_base
            &&& gic.gicr_base + n * 0x20000 <= usize::MAX
            &&& zone.vcpu_base + n <= usize::MAX
            &&& !(gic.gicr_base <= gic.gicd_base < gic.gicr_base + n * 0x20000)
            &&& !(gic.gicr_base <= gic.gits_base < gic.gicr_base + n * 0x20000)
        }),
        0 <= k < zone.vcpus.len(),
    ensures
        ({
            let gic = config->Gicv3_0;
            let mmio = zone.with_vgic(config).mmio;
            &&& mmio.len() == zone.vcpus.len() + 2
            &&& mmio[0] == (MMIOConfig {
                region: MMIORegion { start: gic.gicd_base, size: gic.gicd_size },
                handler: MMIOHandler::GicDistributor,
                arg: 0,
            })
            &&& mmio[1] == (MMIOConfig {
                region: MMIORegion { start: gic.gits_base, size: gic.gits_size },
                handler: MMIOHandler::GicIts,
                arg: 0,
            })
            &&& mmio[k + 2] == (MMIOConfig {
                region: MMIORegion {
                    start: (gic.gicr_base + k * 0x20000) as usize,
                    size: 0x20000,
                },
                handler: MMIOHandler::GicRedistributor,
                arg: (zone.vcpu_base + k) as usize,
            })
        }),
{
    let gic = config->Gicv3_0;
    let first = zone.with_region(gic.gicd_base, gic.gicd_size, MMIOHandler::GicDistributor, 0);
    lemma_registered(zone, gic.gicd_base, gic.gicd_size, MMIOHandler::GicDistributor, 0);
    lemma_registered(first, gic.gits_base, gic.gits_size, MMIOHandler::GicIts, 0);
    let second = first.with_region(gic.gits_base, gic.gits_size, MMIOHandler::GicIts, 0);
    assert(first.mmio[0].region.start == gic.gicd_base);
    lemma_redistributors(second, gic.gicr_base, zone.vcpus.len());
    let after = zone.with_vgic(config);
    assert(after.mmio[k + 2] == second.with_redistributors(
        gic.gicr_base,
        zone.vcpus.len(),
    ).mmio[k + 2]);
}

} // verus!

//! Each vCPU has its place.
//!
//! A scheduler has a vCPU in a run queue, in the blocked list or running.  Changing
//! turns and waking vCPUs move them between these places, and neither lose nor double
//! any.

use vstd::prelude::*;
use vstd::multiset::Multiset;
use crate::hypervisor::{HvView, Sys};
use crate::scheduler::{
    BlockedVCpuEntry, SchedOutcome, SchedView, WakeView, DEFAULT_TIME_SLICE,
};
use crate::vcpu::{VCpuState, VCpuView, CNTV_IRQ};

verus! {

/// All vCPUs in the blocked list, each as often as it is there.
pub open spec fn blocked_vcpus(sched: SchedView) -> Multiset<usize> {
    sched.blocked.map_values(|entry: BlockedVCpuEntry| entry.vcpu).to_multiset()
}

/// In how many places a scheduler has vCPU `id`.
pub open spec fn places(sched: SchedView, id: usize) -> nat {
    crate::laws::ready_vcpus(sched).count(id) + blocked_vcpus(sched).count(id)
        + if sched.current == Some(id) {
        1nat
    } else {
        0nat
    }
}

// ---------------------------------------------------------------------------
// Queues
// ---------------------------------------------------------------------------

proof fn lemma_enqueued_once(sched: SchedView, id: usize, priority: u8)
    requires
        sched.wf(),
    ensures
        crate::laws::ready_vcpus(sched.enqueued(id, priority)) == crate::laws::ready_vcpus(
            sched,
        ).insert(id),
        sched.enqueued(id, priority).ready_count() == sched.ready_count() + 1,
{
    broadcast use vstd::multiset::group_multiset_axioms;

    let p = crate::scheduler::queue_of(priority);
    sched.run_queue[p].to_multiset_ensures();
    assert(crate::laws::ready_vcpus(sched.enqueued(id, priority)) =~= crate::laws::ready_vcpus(
        sched,
    ).insert(id));
}

pub proof fn lemma_ready_is_queued(sched: SchedView, id: usize)
    ensures
        crate::laws::ready_vcpus(sched).count(id) > 0 <==> sched.queued(id),
{
    broadcast use vstd::multiset::group_multiset_axioms;

    sched.run_queue[0].to_multiset_ensures();
    sched.run_queue[1].to_multiset_ensures();
    sched.run_queue[2].to_multiset_ensures();
    sched.run_queue[3].to_multiset_ensures();
}

pub proof fn lemma_blocked_is_waiting(sched: SchedView, id: usize)
    ensures
        blocked_vcpus(sched).count(id) > 0 <==> sched.waits(id),
{
    let ids = sched.blocked.map_values(|entry: BlockedVCpuEntry| entry.vcpu);
    ids.to_multiset_ensures();
    if sched.waits(id) {
        let k = choose|k: int|
            0 <= k < sched.blocked.len() && #[trigger] sched.blocked[k].vcpu == id;
        assert(ids[k] == id);
    }
    if ids.contains(id) {
        let k = choose|k: int| 0 <= k < ids.len() && ids[k] == id;
        assert(sched.blocked[k].vcpu == id);
    }
}

proof fn lemma_blocked_once(sched: SchedView, entry: BlockedVCpuEntry)
    ensures
        blocked_vcpus(sched.with_blocked(entry)) == blocked_vcpus(sched).insert(entry.vcpu),
{
    let of = |entry: BlockedVCpuEntry| entry.vcpu;
    let ids = sched.blocked.map_values(of);
    assert(sched.with_blocked(entry).blocked.map_values(of) =~= ids.push(entry.vcpu));
    ids.to_multiset_ensures();
}

// ---------------------------------------------------------------------------
// Waking
// ---------------------------------------------------------------------------

/// A blocked vCPU is due: its timer has expired, or it has waited long enough.
pub open spec fn due(
    entry: BlockedVCpuEntry,
    vcpus: Map<usize, VCpuView>,
    now: u64,
    tick: u64,
) -> bool {
    entry.expired(now) || entry.timed_out(vcpus[entry.vcpu].pending.len() > 0, now, tick)
}

/// A vCPU after it was woken, with the timer's interrupt pending if its timer has
/// expired.
pub open spec fn woken_vcpu(vcpu: VCpuView, expired: bool) -> VCpuView {
    if expired {
        vcpu.with_irq(CNTV_IRQ, false).with_state(VCpuState::Ready)
    } else {
        vcpu.with_state(VCpuState::Ready)
    }
}

/// The entries from position `i` on are of distinct vCPUs, which are blocked.
pub open spec fn properly_blocked(w: WakeView, i: int) -> bool {
    &&& forall|k: int|
        i <= k < w.sched.blocked.len() ==> w.vcpus[(#[trigger] w.sched.blocked[k]).vcpu].state
            == VCpuState::Blocked
    &&& forall|j: int, k: int|
        i <= j < k < w.sched.blocked.len() ==> (#[trigger] w.sched.blocked[j]).vcpu != (
        #[trigger] w.sched.blocked[k]).vcpu
}

/// An entry from position `i` on is of vCPU `id` and due.
pub open spec fn is_due(w: WakeView, now: u64, tick: u64, i: int, id: usize) -> bool {
    exists|k: int|
        i <= k < w.sched.blocked.len() && (#[trigger] w.sched.blocked[k]).vcpu == id && due(
            w.sched.blocked[k],
            w.vcpus,
            now,
            tick,
        )
}

/// The entries that are not due, in order.
pub open spec fn not_due(
    blocked: Seq<BlockedVCpuEntry>,
    vcpus: Map<usize, VCpuView>,
    now: u64,
    tick: u64,
) -> Seq<BlockedVCpuEntry> {
    blocked.filter(|entry: BlockedVCpuEntry| !due(entry, vcpus, now, tick))
}

proof fn lemma_filter_same<A>(s: Seq<A>, p: spec_fn(A) -> bool, q: spec_fn(A) -> bool)
    requires
        forall|i: int| 0 <= i < s.len() ==> p(#[trigger] s[i]) == q(s[i]),
    ensures
        s.filter(p) == s.filter(q),
    decreases s.len(),
{
    reveal(Seq::filter);
    if s.len() > 0 {
        let rest = s.drop_last();
        assert forall|i: int| 0 <= i < rest.len() implies p(#[trigger] rest[i]) == q(rest[i]) by {
            assert(rest[i] == s[i]);
        }
        lemma_filter_same(rest, p, q);
        assert(p(s[s.len() - 1]) == q(s[s.len() - 1]));
    }
}

proof fn lemma_filter_first<A>(s: Seq<A>, keep: spec_fn(A) -> bool)
    requires
        s.len() > 0,
    ensures
        s.filter(keep) == if keep(s[0]) {
            seq![s[0]] + s.subrange(1, s.len() as int).filter(keep)
        } else {
            s.subrange(1, s.len() as int).filter(keep)
        },
{
    reveal(Seq::filter);
    let rest = s.subrange(1, s.len() as int);
    assert(s =~= seq![s[0]] + rest);
    Seq::filter_distributes_over_add(seq![s[0]], rest, keep);
    let one = seq![s[0]];
    assert(one.drop_last() =~= Seq::<A>::empty());
    assert(one.drop_last().filter(keep) =~= Seq::<A>::empty());
    assert(one.filter(keep) =~= if keep(s[0]) {
        one
    } else {
        Seq::empty()
    });
}

/// What going through the blocked list from position `i` on does.
spec fn checked_right(w: WakeView, now: u64, tick: u64, i: int) -> bool {
    let after = w.timers_checked(now, tick, i);
    let blocked = w.sched.blocked;
    &&& after.sched.blocked == blocked.subrange(0, i) + not_due(
        blocked.subrange(i, blocked.len() as int),
        w.vcpus,
        now,
        tick,
    )
    &&& after.woken + after.sched.blocked.len() == w.woken + blocked.len()
    &&& after.sched.ready_count() + after.sched.blocked.len() == w.sched.ready_count()
        + blocked.len()
    &&& after.sched.wf()
    &&& after.sched.current == w.sched.current
    &&& forall|k: int|
        i <= k < blocked.len() ==> {
            let entry = #[trigger] blocked[k];
            after.vcpus[entry.vcpu] == if due(entry, w.vcpus, now, tick) {
                woken_vcpu(w.vcpus[entry.vcpu], entry.expired(now))
            } else {
                w.vcpus[entry.vcpu]
            }
        }
    &&& forall|id: usize|
        !is_due(w, now, tick, i, id) ==> #[trigger] after.vcpus[id] == w.vcpus[id]
    &&& forall|id: usize| #[trigger]
        crate::laws::ready_vcpus(after.sched).count(id) == crate::laws::ready_vcpus(w.sched).count(
            id,
        ) + if is_due(w, now, tick, i, id) {
            1nat
        } else {
            0nat
        }
}

/// Which vCPUs are due, before and after the one at position `i` was woken.
proof fn lemma_due_without_first(w: WakeView, now: u64, tick: u64, i: int, id: usize)
    requires
        0 <= i < w.sched.blocked.len(),
        properly_blocked(w, i),
        due(w.sched.blocked[i], w.vcpus, now, tick),
    ensures
        ({
            let entry = w.sched.blocked[i];
            let next = w.wake_at(i, entry.expired(now));
            is_due(next, now, tick, i, id) <==> id != entry.vcpu && is_due(w, now, tick, i, id)
        }),
{
    let blocked = w.sched.blocked;
    let entry = blocked[i];
    let next = w.wake_at(i, entry.expired(now));
    if is_due(w, now, tick, i, id) && id != entry.vcpu {
        let k = choose|k: int|
            i <= k < blocked.len() && (#[trigger] blocked[k]).vcpu == id && due(
                blocked[k],
                w.vcpus,
                now,
                tick,
            );
        assert(next.sched.blocked[k - 1] == blocked[k]);
    }
    if is_due(next, now, tick, i, id) {
        let k = choose|k: int|
            i <= k < next.sched.blocked.len() && (#[trigger] next.sched.blocked[k]).vcpu == id
                && due(next.sched.blocked[k], next.vcpus, now, tick);
        assert(next.sched.blocked[k] == blocked[k + 1]);
        assert(blocked[i].vcpu != blocked[k + 1].vcpu);
    }
}

/// What stays blocked, before and after the vCPU at position `i` was woken.
proof fn lemma_not_due_without_first(w: WakeView, now: u64, tick: u64, i: int)
    requires
        0 <= i < w.sched.blocked.len(),
        properly_blocked(w, i),
        due(w.sched.blocked[i], w.vcpus, now, tick),
    ensures
        ({
            let blocked = w.sched.blocked;
            let next = w.wake_at(i, blocked[i].expired(now));
            let left = next.sched.blocked;
            &&& left == blocked.remove(i)
            &&& left.subrange(0, i) == blocked.subrange(0, i)
            &&& not_due(left.subrange(i, left.len() as int), next.vcpus, now, tick) == not_due(
                blocked.subrange(i, blocked.len() as int),
                w.vcpus,
                now,
                tick,
            )
        }),
{
    let blocked = w.sched.blocked;
    let next = w.wake_at(i, blocked[i].expired(now));
    let left = next.sched.blocked;
    let rest = blocked.subrange(i + 1, blocked.len() as int);
    let tail = blocked.subrange(i, blocked.len() as int);
    assert(left.subrange(i, left.len() as int) =~= rest);
    assert(left.subrange(0, i) =~= blocked.subrange(0, i));
    assert(tail.subrange(1, tail.len() as int) =~= rest);
    lemma_filter_first(tail, |e: BlockedVCpuEntry| !due(e, w.vcpus, now, tick));
    assert forall|k: int| 0 <= k < rest.len() implies !due(#[trigger] rest[k], w.vcpus, now, tick)
        == !due(rest[k], next.vcpus, now, tick) by {
        assert(rest[k] == blocked[i + 1 + k]);
        assert(blocked[i].vcpu != blocked[i + 1 + k].vcpu);
    }
    lemma_filter_same(
        rest,
        |e: BlockedVCpuEntry| !due(e, w.vcpus, now, tick),
        |e: BlockedVCpuEntry| !due(e, next.vcpus, now, tick),
    );
}

/// Waking the vCPU at position `i` queues it once.
proof fn lemma_woken_once(w: WakeView, timer: bool, i: int)
    requires
        0 <= i < w.sched.blocked.len(),
        w.sched.wf(),
        w.vcpus[w.sched.blocked[i].vcpu].state == VCpuState::Blocked,
    ensures
        ({
            let id = w.sched.blocked[i].vcpu;
            let next = w.wake_at(i, timer);
            &&& next.sched.wf()
            &&& next.sched.current == w.sched.current
            &&& next.sched.ready_count() == w.sched.ready_count() + 1
            &&& next.woken == w.woken + 1
            &&& next.vcpus == w.vcpus.insert(id, woken_vcpu(w.vcpus[id], timer))
            &&& forall|other: usize| #[trigger]
                crate::laws::ready_vcpus(next.sched).count(other) == crate::laws::ready_vcpus(
                    w.sched,
                ).count(other) + if other == id {
                    1nat
                } else {
                    0nat
                }
        }),
{
    broadcast use vstd::multiset::group_multiset_axioms;

    let id = w.sched.blocked[i].vcpu;
    let free = w.sched.without_blocked_at(i);
    lemma_enqueued_once(free, id, w.vcpus[id].priority);
    assert(crate::laws::ready_vcpus(free) == crate::laws::ready_vcpus(w.sched));
}

proof fn lemma_one_checked(w: WakeView, now: u64, tick: u64, i: int)
    requires
        0 <= i < w.sched.blocked.len(),
        w.sched.wf(),
        properly_blocked(w, i),
        due(w.sched.blocked[i], w.vcpus, now, tick),
        ({
            let next = w.wake_at(i, w.sched.blocked[i].expired(now));
            checked_right(next, now, tick, i)
        }),
    ensures
        checked_right(w, now, tick, i),
{
    let entry = w.sched.blocked[i];
    let blocked = w.sched.blocked;
    let next = w.wake_at(i, entry.expired(now));
    let after = w.timers_checked(now, tick, i);
    assert(after == next.timers_checked(now, tick, i));
    lemma_not_due_without_first(w, now, tick, i);
    lemma_woken_once(w, entry.expired(now), i);
    assert(is_due(w, now, tick, i, entry.vcpu)) by {
        assert(blocked[i].vcpu == entry.vcpu);
    }
    assert forall|id: usize| #[trigger]
        crate::laws::ready_vcpus(after.sched).count(id) == crate::laws::ready_vcpus(w.sched).count(
            id,
        ) + if is_due(w, now, tick, i, id) {
            1nat
        } else {
            0nat
        } by {
        lemma_due_without_first(w, now, tick, i, id);
        assert(crate::laws::ready_vcpus(next.sched).count(id) >= 0);
    }
    assert forall|id: usize| !is_due(w, now, tick, i, id) implies #[trigger] after.vcpus[id]
        == w.vcpus[id] by {
        lemma_due_without_first(w, now, tick, i, id);
        assert(next.vcpus[id] == w.vcpus[id]);
    }
    assert forall|k: int| i <= k < blocked.len() implies after.vcpus[(#[trigger] blocked[k]).vcpu]
        == if due(blocked[k], w.vcpus, now, tick) {
        woken_vcpu(w.vcpus[blocked[k].vcpu], blocked[k].expired(now))
    } else {
        w.vcpus[blocked[k].vcpu]
    } by {
        if k > i {
            assert(next.sched.blocked[k - 1] == blocked[k]);
            assert(blocked[i].vcpu != blocked[k].vcpu);
        } else {
            lemma_due_without_first(w, now, tick, i, entry.vcpu);
        }
    }
}

proof fn lemma_all_checked(w: WakeView, now: u64, tick: u64, i: int)
    requires
        0 <= i <= w.sched.blocked.len(),
        w.sched.wf(),
        properly_blocked(w, i),
    ensures
        checked_right(w, now, tick, i),
    decreases w.sched.blocked.len() - i,
{
    let blocked = w.sched.blocked;
    let tail = blocked.subrange(i, blocked.len() as int);
    if i == blocked.len() {
        reveal(Seq::filter);
        assert(tail =~= Seq::empty());
        assert(blocked.subrange(0, i) + Seq::<BlockedVCpuEntry>::empty() =~= blocked);
    } else if due(blocked[i], w.vcpus, now, tick) {
        let entry = blocked[i];
        let next = w.wake_at(i, entry.expired(now));
        assert(w.vcpus[entry.vcpu].state == VCpuState::Blocked);
        assert(properly_blocked(next, i)) by {
            assert forall|k: int|
                i <= k
                    < next.sched.blocked.len() implies next.vcpus[(#[trigger] next.sched.blocked[k]).vcpu].state
                == VCpuState::Blocked by {
                assert(next.sched.blocked[k] == blocked[k + 1]);
                assert(blocked[i].vcpu != blocked[k + 1].vcpu);
            }
            assert forall|j: int, k: int| i <= j < k < next.sched.blocked.len() implies (
            #[trigger] next.sched.blocked[j]).vcpu != (#[trigger] next.sched.blocked[k]).vcpu by {
                assert(next.sched.blocked[j] == blocked[j + 1]);
                assert(next.sched.blocked[k] == blocked[k + 1]);
            }
        }
        lemma_all_checked(next, now, tick, i);
        lemma_one_checked(w, now, tick, i);
    } else {
        lemma_all_checked(w, now, tick, i + 1);
        let rest = blocked.subrange(i + 1, blocked.len() as int);
        assert(tail.subrange(1, tail.len() as int) =~= rest);
        lemma_filter_first(tail, |e: BlockedVCpuEntry| !due(e, w.vcpus, now, tick));
        assert(blocked.subrange(0, i + 1) + not_due(rest, w.vcpus, now, tick)
            =~= blocked.subrange(0, i) + not_due(tail, w.vcpus, now, tick));
        assert forall|id: usize| is_due(w, now, tick, i, id) <==> is_due(
            w,
            now,
            tick,
            i + 1,
            id,
        ) by {
            if is_due(w, now, tick, i, id) {
                let k = choose|k: int|
                    i <= k < blocked.len() && (#[trigger] blocked[k]).vcpu == id && due(
                        blocked[k],
                        w.vcpus,
                        now,
                        tick,
                    );
                assert(k != i);
            }
        }
        let after = w.timers_checked(now, tick, i);
        assert(!is_due(w, now, tick, i + 1, blocked[i].vcpu)) by {
            if is_due(w, now, tick, i + 1, blocked[i].vcpu) {
                let k = choose|k: int|
                    i + 1 <= k < blocked.len() && (#[trigger] blocked[k]).vcpu == blocked[i].vcpu
                        && due(blocked[k], w.vcpus, now, tick);
                assert(blocked[i].vcpu != blocked[k].vcpu);
            }
        }
        assert(after.vcpus[blocked[i].vcpu] == w.vcpus[blocked[i].vcpu]);
    }
}

/// A tick wakes exactly the blocked vCPUs that are due.  As many are woken as leave the
/// blocked list and as join the run queues, each of them once; they are ready, with the
/// timer's interrupt pending if their timer has expired.  The entries that are left keep
/// their order, and no other vCPU changes.
pub proof fn lemma_tick_wakes_exactly(w: WakeView, now: u64, tick: u64)
    requires
        w.sched.wf(),
        w.woken == 0,
        properly_blocked(w, 0),
    ensures
        ({
            let after = w.timers_checked(now, tick, 0);
            let blocked = w.sched.blocked;
            &&& after.woken == blocked.len() - after.sched.blocked.len()
            &&& after.woken == after.sched.ready_count() - w.sched.ready_count()
            &&& after.sched.blocked == not_due(blocked, w.vcpus, now, tick)
            &&& after.sched.current == w.sched.current
            &&& forall|k: int|
                0 <= k < after.sched.blocked.len() ==> !(
                #[trigger] after.sched.blocked[k]).expired(now)
            &&& forall|k: int|
                0 <= k < blocked.len() && due(#[trigger] blocked[k], w.vcpus, now, tick)
                    ==> after.vcpus[blocked[k].vcpu] == woken_vcpu(
                    w.vcpus[blocked[k].vcpu],
                    blocked[k].expired(now),
                )
            &&& forall|id: usize|
                !is_due(w, now, tick, 0, id) ==> #[trigger] after.vcpus[id] == w.vcpus[id]
            &&& forall|id: usize| #[trigger]
                crate::laws::ready_vcpus(after.sched).count(id) == crate::laws::ready_vcpus(
                    w.sched,
                ).count(id) + if is_due(w, now, tick, 0, id) {
                    1nat
                } else {
                    0nat
                }
        }),
{
    let blocked = w.sched.blocked;
    lemma_all_checked(w, now, tick, 0);
    crate::laws::lemma_tick_wakes_overdue(w, now, tick);
    assert(blocked.subrange(0, blocked.len() as int) =~= blocked);
    assert(blocked.subrange(0, 0) + not_due(blocked, w.vcpus, now, tick) =~= not_due(
        blocked,
        w.vcpus,
        now,
        tick,
    ));
}

// ---------------------------------------------------------------------------
// Changing turns
// ---------------------------------------------------------------------------

proof fn lemma_arrived(hv: HvView, cpu: usize, arrivals: Seq<usize>)
    requires
        cpu < hv.cpus.len(),
        hv.cpus[cpu as int].sched.wf(),
    ensures
        ({
            let after = hv.arrived(cpu, arrivals);
            let pc = after.cpus[cpu as int];
            &&& after == (HvView { cpus: hv.cpus.update(cpu as int, pc), ..hv })
            &&& pc.sched.wf()
            &&& pc == hv.cpus[cpu as int].with_sched(pc.sched)
            &&& pc.sched.current == hv.cpus[cpu as int].sched.current
            &&& crate::laws::ready_vcpus(pc.sched) == crate::laws::ready_vcpus(
                hv.cpus[cpu as int].sched,
            ).add(arrivals.to_multiset())
        }),
    decreases arrivals.len(),
{
    broadcast use vstd::multiset::group_multiset_axioms;

    arrivals.to_multiset_ensures();
    let sched = hv.cpus[cpu as int].sched;
    if arrivals.len() == 0 {
        assert(arrivals.to_multiset() =~= Multiset::empty());
        assert(crate::laws::ready_vcpus(sched).add(arrivals.to_multiset())
            =~= crate::laws::ready_vcpus(sched));
        assert(hv.cpus.update(cpu as int, hv.cpus[cpu as int]) =~= hv.cpus);
    } else {
        let id = arrivals[0];
        let rest = arrivals.subrange(1, arrivals.len() as int);
        let next = hv.moved_to_queue(cpu, id);
        let free = sched.without_blocked(id);
        lemma_enqueued_once(free, id, hv.vcpus[id].priority);
        assert(crate::laws::ready_vcpus(free) == crate::laws::ready_vcpus(sched));
        lemma_arrived(next, cpu, rest);
        assert(arrivals.remove(0) =~= rest);
        let after = hv.arrived(cpu, arrivals);
        assert(after.cpus =~= hv.cpus.update(cpu as int, after.cpus[cpu as int]));
        assert(arrivals.contains(id));
        assert(crate::laws::ready_vcpus(after.cpus[cpu as int].sched)
            =~= crate::laws::ready_vcpus(sched).add(arrivals.to_multiset()));
    }
}

/// Every vCPU that was sent to a pCPU joins its run queues, once for each time that it
/// was sent; none is on its way any more, and nothing changes on other pCPUs.
pub proof fn lemma_arrivals_queued(hv: HvView, cpu: usize)
    requires
        cpu < hv.cpus.len(),
        hv.cpus[cpu as int].sched.wf(),
    ensures
        ({
            let after = hv.incoming_drained(cpu);
            let pc = after.cpus[cpu as int];
            &&& pc.incoming.len() == 0
            &&& pc == (crate::cpu_data::PerCpuView {
                sched: pc.sched,
                incoming: Seq::empty(),
                ..hv.cpus[cpu as int]
            })
            &&& pc.sched.wf()
            &&& pc.sched.current == hv.cpus[cpu as int].sched.current
            &&& crate::laws::ready_vcpus(pc.sched) == crate::laws::ready_vcpus(
                hv.cpus[cpu as int].sched,
            ).add(hv.cpus[cpu as int].incoming.to_multiset())
            &&& after == (HvView { cpus: hv.cpus.update(cpu as int, pc), ..hv })
        }),
{
    let pc = hv.cpus[cpu as int];
    let emptied = hv.with_cpu(cpu, crate::cpu_data::PerCpuView { incoming: Seq::empty(), ..pc });
    lemma_arrived(emptied, cpu, pc.incoming);
    let after = hv.incoming_drained(cpu);
    assert(after.cpus =~= hv.cpus.update(cpu as int, after.cpus[cpu as int]));
}

/// The entry in the blocked list of a vCPU that leaves a pCPU with these registers.
pub open spec fn blocked_entry(sys: Sys, id: usize) -> BlockedVCpuEntry {
    BlockedVCpuEntry {
        vcpu: id,
        cntv_cval: sys.hw.el1.cntv_cval_el0,
        cntv_ctl: sys.hw.el1.masked().cntv_ctl_el0,
        cntvoff: sys.hw.el1.cntvoff_el2,
        blocked_at_cnt: sys.hw.timer.cntpct_el0,
    }
}

/// vCPU `prev` leaves its pCPU: if it ran it waits for its next turn, if it is blocked
/// it is in the blocked list with the values of its timer, and if it is stopped it is
/// nowhere.
pub proof fn lemma_vacated(sys: Sys, cpu: usize, prev: usize)
    requires
        cpu < sys.hv.cpus.len(),
        sys.hv.cpus[cpu as int].sched.wf(),
        sys.hv.cpus[cpu as int].sched.current == Some(prev),
        sys.hv.vcpus.contains_key(prev),
    ensures
        ({
            let before = sys.hv.cpus[cpu as int].sched;
            let after = sys.vacated(cpu);
            let pc = after.hv.cpus[cpu as int];
            let state = sys.hv.vcpus[prev].state;
            let stays = state == VCpuState::Running || state == VCpuState::Ready;
            &&& after.hv == (HvView {
                cpus: sys.hv.cpus.update(cpu as int, pc),
                vcpus: sys.hv.vcpus.insert(prev, after.hv.vcpus[prev]),
                ..sys.hv
            })
            &&& pc == sys.hv.cpus[cpu as int].with_sched(pc.sched)
            &&& pc.sched.wf()
            &&& pc.sched.current is None
            &&& after.hv.vcpus[prev] == sys.hv.vcpus[prev].saved(sys.hw).with_state(
                if state == VCpuState::Running {
                    VCpuState::Ready
                } else {
                    state
                },
            )
            &&& crate::laws::ready_vcpus(pc.sched) == if stays {
                crate::laws::ready_vcpus(before).insert(prev)
            } else {
                crate::laws::ready_vcpus(before)
            }
            &&& pc.sched.ready_count() >= before.ready_count()
            &&& pc.sched.blocked == if state == VCpuState::Blocked {
                before.blocked.push(blocked_entry(sys, prev))
            } else {
                before.blocked
            }
        }),
{
    let before = sys.hv.cpus[cpu as int].sched;
    let alone = SchedView { current: None, ..before };
    let after = sys.vacated(cpu);
    lemma_enqueued_once(alone, prev, sys.hv.vcpus[prev].priority);
    assert(crate::laws::ready_vcpus(alone) == crate::laws::ready_vcpus(before));
    let saved = sys.hv.vcpus[prev].saved(sys.hw);
    assert(saved.with_state(saved.state) == saved);
    assert(after.hv.cpus =~= sys.hv.cpus.update(cpu as int, after.hv.cpus[cpu as int]));
    assert(after.hv.vcpus =~= sys.hv.vcpus.insert(prev, after.hv.vcpus[prev]));
}

/// The scheduler changes turns.  `start` is the scheduler once what was sent to the pCPU
/// has arrived; a vCPU runs on it and others are ready.  Then another turn begins: the
/// vCPU that is selected runs, with a full time slice, and is in no queue.  The one that
/// ran before waits for its next turn, is in the blocked list alone with the values that
/// its timer had, or is stopped and nowhere.  Every other vCPU stays in as many places as it was, and nothing changes
/// on other pCPUs.
pub proof fn lemma_turns_change(sys: Sys, cpu: usize, prev: usize)
    requires
        sys.hv.wf(),
        cpu < sys.hv.cpus.len(),
        ({
            let start = sys.hv.incoming_drained(cpu);
            let sched = start.cpus[cpu as int].sched;
            &&& sched.current == Some(prev)
            &&& sched.ready_count() > 0
            &&& forall|id: usize| #[trigger]
                sched.queued(id) ==> start.vcpus[id].state == VCpuState::Ready
        }),
    ensures
        ({
            let start = sys.hv.incoming_drained(cpu).cpus[cpu as int].sched;
            let (after, outcome) = sys.scheduled(cpu);
            let pc = after.hv.cpus[cpu as int];
            let next = pc.sched.current->0;
            let state = sys.hv.vcpus[prev].state;
            let stays = state == VCpuState::Running || state == VCpuState::Ready;
            &&& outcome == SchedOutcome::Switched
            &&& pc.sched.current is Some
            &&& pc.current_vcpu == Some(next)
            &&& after.hv.vcpus[next].state == VCpuState::Running
            &&& pc.sched.time_slice == DEFAULT_TIME_SLICE
            &&& !pc.need_resched
            &&& pc.incoming.len() == 0
            &&& crate::laws::ready_vcpus(pc.sched).insert(next) == if stays {
                crate::laws::ready_vcpus(start).insert(prev)
            } else {
                crate::laws::ready_vcpus(start)
            }
            &&& pc.sched.blocked == if state == VCpuState::Blocked {
                start.blocked.push(blocked_entry(sys, prev))
            } else {
                start.blocked
            }
            &&& next != prev ==> after.hv.vcpus[prev] == sys.hv.vcpus[prev].saved(
                sys.hw,
            ).with_state(
                if stays {
                    VCpuState::Ready
                } else {
                    state
                },
            )
            &&& forall|id: usize|
                id != prev && id != next ==> #[trigger] after.hv.vcpus[id] == sys.hv.vcpus[id]
            &&& forall|id: usize| #[trigger]
                places(pc.sched, id) == if id == prev && state == VCpuState::Stopped {
                    places(start, id) - 1
                } else {
                    places(start, id) as int
                }
            &&& places(start, next) == 1 ==> !pc.sched.queued(next) && !pc.sched.waits(next)
            &&& places(start, prev) == 1 && next != prev ==> {
                &&& pc.sched.queued(prev) == stays
                &&& pc.sched.waits(prev) == (state == VCpuState::Blocked)
            }
            &&& !stays ==> next != prev
            &&& forall|other: int|
                0 <= other < sys.hv.cpus.len() && other != cpu ==> #[trigger] after.hv.cpus[other]
                    == sys.hv.cpus[other]
        }),
{
    broadcast use vstd::multiset::group_multiset_axioms;

    crate::hypervisor::lemma_cpu_ok(sys.hv, cpu);
    lemma_arrivals_queued(sys.hv, cpu);
    let drained = sys.hv.incoming_drained(cpu);
    let ready = Sys { hv: drained.resched_taken(cpu), ..sys };
    let start = drained.cpus[cpu as int].sched;
    assert(ready.hv.cpus[cpu as int].sched == start);
    lemma_vacated(ready, cpu, prev);
    let left = ready.vacated(cpu);
    let sched = left.hv.cpus[cpu as int].sched;
    crate::scheduler::lemma_pick_count(sched);
    crate::laws::lemma_selection_conserves(sched);
    let next = sched.picked()->0;
    assert(crate::laws::ready_vcpus(sched).count(next) > 0);
    lemma_ready_is_queued(start, next);
    assert(next == prev || start.queued(next));
    assert(left.hv.vcpus[next].moves(VCpuState::Ready, VCpuState::Running));
    let (after, outcome) = sys.scheduled(cpu);
    let pc = after.hv.cpus[cpu as int];
    assert(pc.sched.current == Some(next));
    let picked = sched.after_pick();
    assert(pc.sched.run_queue == picked.run_queue);
    assert(pc.sched.blocked == sched.blocked);
    let state = sys.hv.vcpus[prev].state;
    if state == VCpuState::Blocked {
        lemma_blocked_once(start, blocked_entry(sys, prev));
    }
    assert forall|id: usize| #[trigger] places(pc.sched, id) == if id == prev && state
        == VCpuState::Stopped {
        places(start, id) - 1
    } else {
        places(start, id) as int
    } by {
        assert(crate::laws::ready_vcpus(pc.sched).insert(next).count(id)
            == crate::laws::ready_vcpus(pc.sched).count(id) + if id == next {
            1nat
        } else {
            0nat
        });
    }
    lemma_ready_is_queued(pc.sched, next);
    lemma_ready_is_queued(pc.sched, prev);
    lemma_blocked_is_waiting(pc.sched, next);
    lemma_blocked_is_waiting(pc.sched, prev);
    assert(crate::laws::ready_vcpus(pc.sched).insert(next).count(prev)
        == crate::laws::ready_vcpus(pc.sched).count(prev) + if prev == next {
        1nat
    } else {
        0nat
    });
    if state == VCpuState::Blocked {
        assert(blocked_vcpus(pc.sched).count(prev) > 0);
    }
}

} // verus!

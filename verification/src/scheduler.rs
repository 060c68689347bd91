//! The scheduler of one pCPU: four run queues, one for each priority, served
//! round-robin, and the list of vCPUs that wait for an interrupt.

use vstd::prelude::*;
use std::collections::VecDeque;
use crate::arch::aarch64::timer::{el2_timer_arm_at, el2_timer_disable, el2_timer_rearm};
use crate::arch::aarch64::vcpu::{restore_vgicr, ArchVCpuView, CNTV_ENABLE, CNTV_IMASK};
use crate::cpu_data::PerCpuView;
use crate::hardware::{El2Regs, Hardware, HardwareView, Op};
use crate::hypervisor::{HvView, Hypervisor, Sys};
use crate::vcpu::{
    drain_incoming_vcpus, VCpu, VCpuState, VCpuTable, VCpuView, CNTV_IRQ,
};
use crate::zone::ZoneView;

verus! {

/// The number of priorities; 0 is the highest.
pub const NUM_PRIORITIES: usize = 4;

/// The time slice of a vCPU, in ticks.
pub const DEFAULT_TIME_SLICE: usize = 1;

/// After this many selections the lowest priority is raised.
pub const STARVATION_THRESHOLD: usize = 10;

/// After this many ticks a blocked vCPU is woken, come what may.
pub const BLOCKED_TIMEOUT_TICKS: u64 = 2;

/// A vCPU that waits for an interrupt, with its virtual timer.
#[derive(Debug, Clone, Copy, PartialEq, Eq, Structural)]
pub struct BlockedVCpuEntry {
    pub vcpu: usize,
    /// `CNTV_CVAL_EL0`: when the timer expires, in virtual time.
    pub cntv_cval: u64,
    /// `CNTV_CTL_EL0`: whether it is enabled.
    pub cntv_ctl: u64,
    /// `CNTVOFF_EL2`: what virtual time is behind physical time.
    pub cntvoff: u64,
    /// The physical count when the vCPU was blocked.
    pub blocked_at_cnt: u64,
}

impl BlockedVCpuEntry {
    /// The vCPU's timer is enabled.  Masking does not count: the hypervisor masks
    /// the timers of vCPUs that are not running.
    pub open spec fn armed(self) -> bool {
        self.cntv_ctl & CNTV_ENABLE != 0
    }

    /// The vCPU's timer has expired at physical count `now`.
    pub open spec fn expired(self, now: u64) -> bool {
        self.armed() && now.wrapping_sub(self.cntvoff) >= self.cntv_cval
    }

    /// The physical count at which the vCPU's timer expires.
    pub open spec fn deadline(self) -> u64 {
        self.cntv_cval.wrapping_add(self.cntvoff)
    }

    /// The vCPU has waited long enough at physical count `now`: for one tick if
    /// something is pending for it, or for [`BLOCKED_TIMEOUT_TICKS`].
    pub open spec fn timed_out(self, has_pending: bool, now: u64, tick: u64) -> bool {
        ||| has_pending && now >= self.blocked_at_cnt.wrapping_add(tick)
        ||| now >= self.blocked_at_cnt.wrapping_add(tick.wrapping_mul(BLOCKED_TIMEOUT_TICKS))
    }
}

/// The scheduler of one pCPU.  vCPUs are known by their identifiers.
pub struct PerCpuScheduler {
    /// The run queues, from the highest to the lowest priority.
    pub run_queue: [VecDeque<usize>; 4],
    /// The vCPU that runs on this pCPU.
    pub current: Option<usize>,
    /// The ticks that are left of its time slice.
    pub time_slice_remaining: usize,
    /// The selections since the lowest priority was last served or raised.
    pub starvation_counter: usize,
    /// The vCPUs that wait for an interrupt.
    pub blocked_vcpus: VecDeque<BlockedVCpuEntry>,
}

/// The value of a [`PerCpuScheduler`].
#[verifier::ext_equal]
pub struct SchedView {
    pub run_queue: Seq<Seq<usize>>,
    pub current: Option<usize>,
    pub time_slice: usize,
    pub starvation: usize,
    pub blocked: Seq<BlockedVCpuEntry>,
}

impl View for PerCpuScheduler {
    type V = SchedView;

    open spec fn view(&self) -> SchedView {
        SchedView {
            run_queue: Seq::new(4, |p: int| self.run_queue@[p]@),
            current: self.current,
            time_slice: self.time_slice_remaining,
            starvation: self.starvation_counter,
            blocked: self.blocked_vcpus@,
        }
    }
}

/// The queue of a vCPU with the given priority.
pub open spec fn queue_of(priority: u8) -> int {
    if priority < 4 {
        priority as int
    } else {
        3
    }
}

/// The first position at or after `from` at which `list` holds vCPU `id`; the
/// list's length if there is none.
pub open spec fn blocked_position(list: Seq<BlockedVCpuEntry>, id: usize, from: int) -> int
    decreases list.len() - from,
{
    if from < 0 || from >= list.len() {
        list.len() as int
    } else if list[from].vcpu == id {
        from
    } else {
        blocked_position(list, id, from + 1)
    }
}

/// [`blocked_position`] finds the first match.
pub proof fn lemma_blocked_position(list: Seq<BlockedVCpuEntry>, id: usize, from: int)
    requires
        0 <= from <= list.len(),
    ensures
        from <= blocked_position(list, id, from) <= list.len(),
        blocked_position(list, id, from) < list.len() ==> list[blocked_position(
            list,
            id,
            from,
        )].vcpu == id,
        forall|i: int|
            from <= i < blocked_position(list, id, from) ==> #[trigger] list[i].vcpu != id,
    decreases list.len() - from,
{
    if from < list.len() && list[from].vcpu != id {
        lemma_blocked_position(list, id, from + 1);
    }
}

/// The virtual timer of a vCPU in a run queue is due: enabled, not masked,
/// expired at physical count `now`, with nothing pending for the vCPU.
pub open spec fn ready_timer_due(vcpu: VCpuView, now: u64) -> bool {
    &&& vcpu.arch.el1_regs.cntv_ctl_el0 & CNTV_ENABLE != 0
    &&& vcpu.arch.el1_regs.cntv_ctl_el0 & CNTV_IMASK == 0
    &&& now >= vcpu.arch.el1_regs.cntv_cval_el0.wrapping_add(vcpu.arch.el1_regs.cntvoff_el2)
    &&& vcpu.pending.len() == 0
}

impl SchedView {
    /// A scheduler without vCPUs.
    pub open spec fn idle() -> SchedView {
        SchedView {
            run_queue: Seq::new(4, |p: int| Seq::<usize>::empty()),
            current: None,
            time_slice: DEFAULT_TIME_SLICE,
            starvation: 0,
            blocked: Seq::empty(),
        }
    }

    /// There are four queues, and the starvation counter is in its range.
    pub open spec fn wf(self) -> bool {
        self.run_queue.len() == 4 && self.starvation < STARVATION_THRESHOLD
    }

    /// vCPU `id` is in a run queue.
    pub open spec fn queued(self, id: usize) -> bool {
        ||| self.run_queue[0].contains(id)
        ||| self.run_queue[1].contains(id)
        ||| self.run_queue[2].contains(id)
        ||| self.run_queue[3].contains(id)
    }

    /// vCPU `id` is in the blocked list.
    pub open spec fn waits(self, id: usize) -> bool {
        exists|i: int| 0 <= i < self.blocked.len() && #[trigger] self.blocked[i].vcpu == id
    }

    /// vCPU `id` is somewhere in this scheduler.
    pub open spec fn knows(self, id: usize) -> bool {
        self.queued(id) || self.waits(id) || self.current == Some(id)
    }

    /// The number of vCPUs in the run queues.
    pub open spec fn ready_count(self) -> nat {
        self.run_queue[0].len() + self.run_queue[1].len() + self.run_queue[2].len()
            + self.run_queue[3].len()
    }

    /// The scheduler with a vCPU at the end of the queue of its priority.
    pub open spec fn enqueued(self, id: usize, priority: u8) -> SchedView {
        let p = queue_of(priority);
        SchedView { run_queue: self.run_queue.update(p, self.run_queue[p].push(id)), ..self }
    }

    /// The scheduler with the lowest priority moved behind the one above it.
    pub open spec fn boosted(self) -> SchedView {
        SchedView {
            run_queue: self.run_queue.update(2, self.run_queue[2] + self.run_queue[3]).update(
                3,
                Seq::empty(),
            ),
            ..self
        }
    }

    /// The scheduler after it has counted one selection.
    pub open spec fn counted(self) -> SchedView {
        if self.starvation + 1 >= STARVATION_THRESHOLD {
            SchedView { starvation: 0, ..self.boosted() }
        } else {
            SchedView { starvation: (self.starvation + 1) as usize, ..self }
        }
    }

    /// The highest priority that has a vCPU waiting; 4 if there is none.
    pub open spec fn top(self) -> int {
        if self.run_queue[0].len() > 0 {
            0
        } else if self.run_queue[1].len() > 0 {
            1
        } else if self.run_queue[2].len() > 0 {
            2
        } else if self.run_queue[3].len() > 0 {
            3
        } else {
            4
        }
    }

    /// The vCPU that is selected next: the oldest of the highest priority.
    pub open spec fn picked(self) -> Option<usize> {
        let s = self.counted();
        if s.top() < 4 {
            Some(s.run_queue[s.top()][0])
        } else {
            None
        }
    }

    /// The scheduler after a selection.
    pub open spec fn after_pick(self) -> SchedView {
        let s = self.counted();
        let p = s.top();
        if p < 4 {
            SchedView {
                run_queue: s.run_queue.update(
                    p,
                    s.run_queue[p].subrange(1, s.run_queue[p].len() as int),
                ),
                starvation: if p == 3 {
                    0
                } else {
                    s.starvation
                },
                ..s
            }
        } else {
            s
        }
    }

    /// The scheduler without any vCPU of a zone.
    pub open spec fn without_zone(self, zone: usize, vcpus: Map<usize, VCpuView>) -> SchedView {
        SchedView {
            run_queue: Seq::new(
                4,
                |p: int| self.run_queue[p].filter(|id: usize| vcpus[id].zone != zone),
            ),
            blocked: self.blocked.filter(|e: BlockedVCpuEntry| vcpus[e.vcpu].zone != zone),
            current: match self.current {
                Some(id) => if vcpus[id].zone == zone {
                    None
                } else {
                    Some(id)
                },
                None => None,
            },
            ..self
        }
    }

    /// The scheduler without any vCPU.
    pub open spec fn cleared(self) -> SchedView {
        SchedView {
            run_queue: Seq::new(4, |p: int| Seq::<usize>::empty()),
            blocked: Seq::empty(),
            current: None,
            ..self
        }
    }

    /// The scheduler with one more blocked vCPU.
    pub open spec fn with_blocked(self, entry: BlockedVCpuEntry) -> SchedView {
        SchedView { blocked: self.blocked.push(entry), ..self }
    }

    /// The scheduler with the entry at position `i` taken off the blocked list.
    pub open spec fn without_blocked_at(self, i: int) -> SchedView {
        SchedView { blocked: self.blocked.remove(i), ..self }
    }

    /// The scheduler with the first entry of vCPU `id` taken off the blocked list.
    pub open spec fn without_blocked(self, id: usize) -> SchedView {
        let at = blocked_position(self.blocked, id, 0);
        if at < self.blocked.len() {
            self.without_blocked_at(at)
        } else {
            self
        }
    }

    /// Every vCPU of the blocked list is in the table.
    pub open spec fn blocked_known(self, vcpus: Map<usize, VCpuView>) -> bool {
        forall|i: int|
            0 <= i < self.blocked.len() ==> vcpus.contains_key(
                (#[trigger] self.blocked[i]).vcpu,
            )
    }

    /// Every vCPU of the run queues is in the table.
    pub open spec fn queued_known(self, vcpus: Map<usize, VCpuView>) -> bool {
        forall|p: int, i: int|
            0 <= p < 4 && 0 <= i < self.run_queue[p].len() ==> vcpus.contains_key(
                #[trigger] self.run_queue[p][i],
            )
    }
}

/// A scheduler and the table of vCPUs, and how many vCPUs have been woken.
#[verifier::ext_equal]
pub struct WakeView {
    pub sched: SchedView,
    pub vcpus: Map<usize, VCpuView>,
    pub woken: nat,
}

impl WakeView {
    /// Takes the entry at position `i` off the blocked list, with the virtual
    /// timer's interrupt made pending if `timer` says so.  If the vCPU is blocked,
    /// it becomes ready and joins its run queue.
    pub open spec fn wake_at(self, i: int, timer: bool) -> WakeView {
        let id = self.sched.blocked[i].vcpu;
        let vcpu = if timer {
            self.vcpus[id].with_irq(CNTV_IRQ, false)
        } else {
            self.vcpus[id]
        };
        let rest = self.sched.without_blocked_at(i);
        if vcpu.moves(VCpuState::Blocked, VCpuState::Ready) {
            WakeView {
                sched: rest.enqueued(id, vcpu.priority),
                vcpus: self.vcpus.insert(id, vcpu.with_state(VCpuState::Ready)),
                woken: self.woken + 1,
            }
        } else {
            WakeView { sched: rest, vcpus: self.vcpus.insert(id, vcpu), ..self }
        }
    }

    /// Goes through the blocked list from position `i` on: wakes, with the timer's
    /// interrupt, each vCPU whose timer has expired, and without it each that has
    /// waited long enough.
    pub open spec fn timers_checked(self, now: u64, tick: u64, i: int) -> WakeView
        decreases self.sched.blocked.len() - i,
    {
        if i < 0 || i >= self.sched.blocked.len() {
            self
        } else {
            let entry = self.sched.blocked[i];
            if entry.expired(now) {
                self.wake_at(i, true).timers_checked(now, tick, i)
            } else if entry.timed_out(self.vcpus[entry.vcpu].pending.len() > 0, now, tick) {
                self.wake_at(i, false).timers_checked(now, tick, i)
            } else {
                self.timers_checked(now, tick, i + 1)
            }
        }
    }

    /// Goes through the blocked list from position `i` on and wakes each vCPU that
    /// has something pending.
    pub open spec fn pending_woken(self, i: int) -> WakeView
        decreases self.sched.blocked.len() - i,
    {
        if i < 0 || i >= self.sched.blocked.len() {
            self
        } else if self.vcpus[self.sched.blocked[i].vcpu].pending.len() > 0 {
            self.wake_at(i, false).pending_woken(i)
        } else {
            self.pending_woken(i + 1)
        }
    }
}

/// Extending a prefix by one element extends its filtered form by that element,
/// if it passes.
proof fn lemma_filter_prefix<A>(s: Seq<A>, i: int, keep: spec_fn(A) -> bool)
    requires
        0 <= i < s.len(),
    ensures
        s.subrange(0, i + 1).filter(keep) == if keep(s[i]) {
            s.subrange(0, i).filter(keep).push(s[i])
        } else {
            s.subrange(0, i).filter(keep)
        },
{
    reveal(Seq::filter);
    assert(s.subrange(0, i + 1).drop_last() =~= s.subrange(0, i));
}

/// Keeps the vCPUs of a queue that are not of `zone`.
fn retain_other_zones(queue: &mut VecDeque<usize>, zone: usize, vcpus: &VCpuTable)
    requires
        forall|i: int| 0 <= i < old(queue)@.len() ==> vcpus@.contains_key(#[trigger] old(queue)@[i]),
    ensures
        final(queue)@ == old(queue)@.filter(|id: usize| vcpus@[id].zone != zone),
{
    let ghost all = queue@;
    let ghost keep = |id: usize| vcpus@[id].zone != zone;
    let n: usize = queue.len();
    let mut i: usize = 0;
    assert(all.subrange(0, 0).filter(keep) =~= Seq::empty()) by {
        reveal(Seq::filter);
    }
    assert(queue@ =~= all.subrange(0, n as int) + all.subrange(0, 0).filter(keep));
    while i < n
        invariant
            i <= n,
            n == all.len(),
            keep == (|id: usize| vcpus@[id].zone != zone),
            forall|k: int| 0 <= k < all.len() ==> vcpus@.contains_key(#[trigger] all[k]),
            queue@ == all.subrange(i as int, n as int) + all.subrange(0, i as int).filter(keep),
        decreases n - i,
    {
        proof {
            lemma_filter_prefix(all, i as int, keep);
            assert(queue@[0] == all[i as int]);
        }
        if let Some(id) = queue.pop_front() {
            if vcpus.get(id).zone_id() != zone {
                queue.push_back(id);
            }
        }
        i = i + 1;
        assert(queue@ =~= all.subrange(i as int, n as int) + all.subrange(0, i as int).filter(keep));
    }
    assert(all.subrange(0, n as int) =~= all);
    assert(queue@ =~= all.filter(keep));
}

impl PerCpuScheduler {
    /// A scheduler without vCPUs.
    pub fn new() -> (res: Self)
        ensures
            res@ == SchedView::idle(),
            res@.wf(),
    {
        PerCpuScheduler {
            run_queue: [VecDeque::new(), VecDeque::new(), VecDeque::new(), VecDeque::new()],
            current: None,
            time_slice_remaining: DEFAULT_TIME_SLICE,
            starvation_counter: 0,
            blocked_vcpus: VecDeque::new(),
        }
    }

    /// Puts a vCPU at the end of the queue of its priority.
    pub fn enqueue(&mut self, vcpu: &VCpu)
        ensures
            final(self)@ == old(self)@.enqueued(vcpu@.id, vcpu@.priority),
    {
        let prio: usize = if (vcpu.priority as usize) < NUM_PRIORITIES {
            vcpu.priority as usize
        } else {
            NUM_PRIORITIES - 1
        };
        self.run_queue[prio].push_back(vcpu.id);
        assert(self@.run_queue =~= old(self)@.enqueued(vcpu@.id, vcpu@.priority).run_queue);
    }

    /// Moves the vCPUs of the lowest priority behind those of the one above it.
    pub fn boost_starving_vcpus(&mut self)
        ensures
            final(self)@ == old(self)@.boosted(),
    {
        while self.run_queue[3].len() > 0
            invariant
                self.run_queue@[2]@ + self.run_queue@[3]@ == old(self).run_queue@[2]@ + old(
                    self,
                ).run_queue@[3]@,
                self.run_queue@[0]@ == old(self).run_queue@[0]@,
                self.run_queue@[1]@ == old(self).run_queue@[1]@,
                self@ == (SchedView { run_queue: self@.run_queue, ..old(self)@ }),
            decreases self.run_queue@[3]@.len(),
        {
            if let Some(id) = self.run_queue[3].pop_front() {
                self.run_queue[2].push_back(id);
            }
            assert(self.run_queue@[2]@ + self.run_queue@[3]@ =~= old(self).run_queue@[2]@ + old(
                self,
            ).run_queue@[3]@);
        }
        assert(self.run_queue@[3]@ =~= Seq::empty());
        assert(self.run_queue@[2]@ + self.run_queue@[3]@ =~= self.run_queue@[2]@);
        assert forall|p: int| 0 <= p < 4 implies self@.run_queue[p] == old(
            self,
        )@.boosted().run_queue[p] by {
            assert(old(self)@.run_queue[p] == old(self).run_queue@[p]@);
        }
        assert(self@.run_queue =~= old(self)@.boosted().run_queue);
    }

    /// Selects the oldest vCPU of the highest priority that has one.  Every
    /// [`STARVATION_THRESHOLD`] selections the lowest priority is raised first.
    pub fn pick_next(&mut self) -> (res: Option<usize>)
        requires
            old(self)@.wf(),
        ensures
            res == old(self)@.picked(),
            final(self)@ == old(self)@.after_pick(),
            final(self)@.wf(),
    {
        self.starvation_counter = self.starvation_counter + 1;
        if self.starvation_counter >= STARVATION_THRESHOLD {
            self.boost_starving_vcpus();
            self.starvation_counter = 0;
        }
        assert(self@ == old(self)@.counted());
        let ghost s = self@;
        let mut prio: usize = 0;
        while prio < NUM_PRIORITIES
            invariant
                prio <= NUM_PRIORITIES,
                self@ == s,
                s == old(self)@.counted(),
                s.wf(),
                forall|p: int| 0 <= p < prio ==> (#[trigger] s.run_queue[p]).len() == 0,
            decreases NUM_PRIORITIES - prio,
        {
            assert(s.run_queue[prio as int] == self.run_queue@[prio as int]@);
            if self.run_queue[prio].len() > 0 {
                let id = self.run_queue[prio].pop_front();
                if prio == NUM_PRIORITIES - 1 {
                    self.starvation_counter = 0;
                }
                assert(self@.run_queue =~= old(self)@.after_pick().run_queue);
                return id;
            }
            prio = prio + 1;
        }
        None
    }

    /// Whether the run queues are all empty.
    pub fn is_empty(&self) -> (res: bool)
        ensures
            res == (self@.ready_count() == 0),
    {
        self.run_queue[0].len() == 0 && self.run_queue[1].len() == 0 && self.run_queue[2].len()
            == 0 && self.run_queue[3].len() == 0
    }

    /// Whether this pCPU has no vCPU but the current one.
    pub fn no_other_vcpus(&self) -> (res: bool)
        ensures
            res == (self@.ready_count() == 0 && self@.blocked.len() == 0),
    {
        self.is_empty() && !self.has_blocked_vcpus()
    }

    /// The number of vCPUs in the run queues.
    pub fn len(&self) -> (res: usize)
        requires
            self@.ready_count() <= usize::MAX,
        ensures
            res == self@.ready_count(),
    {
        self.run_queue[0].len() + self.run_queue[1].len() + self.run_queue[2].len()
            + self.run_queue[3].len()
    }

    /// Removes all vCPUs of a zone.
    pub fn clear_zone(&mut self, zone_id: usize, vcpus: &VCpuTable)
        requires
            old(self)@.queued_known(vcpus@),
            old(self)@.blocked_known(vcpus@),
            old(self)@.current matches Some(id) ==> vcpus@.contains_key(id),
        ensures
            final(self)@ == old(self)@.without_zone(zone_id, vcpus@),
    {
        proof {
            assert forall|p: int, i: int|
                0 <= p < 4 && 0 <= i < old(self).run_queue@[p]@.len() implies vcpus@.contains_key(
                #[trigger] old(self).run_queue@[p]@[i],
            ) by {
                assert(old(self)@.run_queue[p][i] == old(self).run_queue@[p]@[i]);
            }
        }
        retain_other_zones(&mut self.run_queue[0], zone_id, vcpus);
        retain_other_zones(&mut self.run_queue[1], zone_id, vcpus);
        retain_other_zones(&mut self.run_queue[2], zone_id, vcpus);
        retain_other_zones(&mut self.run_queue[3], zone_id, vcpus);
        let ghost all = self.blocked_vcpus@;
        let ghost keep = |e: BlockedVCpuEntry| vcpus@[e.vcpu].zone != zone_id;
        let ghost queues = self.run_queue;
        let n: usize = self.blocked_vcpus.len();
        let mut i: usize = 0;
        assert(all.subrange(0, 0).filter(keep) =~= Seq::empty()) by {
            reveal(Seq::filter);
        }
        assert(self.blocked_vcpus@ =~= all.subrange(0, n as int) + all.subrange(0, 0).filter(keep));
        while i < n
            invariant
                i <= n,
                n == all.len(),
                all == old(self)@.blocked,
                keep == (|e: BlockedVCpuEntry| vcpus@[e.vcpu].zone != zone_id),
                old(self)@.blocked_known(vcpus@),
                self.blocked_vcpus@ == all.subrange(i as int, n as int) + all.subrange(
                    0,
                    i as int,
                ).filter(keep),
                self.run_queue == queues,
                self.current == old(self).current,
                self.time_slice_remaining == old(self).time_slice_remaining,
                self.starvation_counter == old(self).starvation_counter,
            decreases n - i,
        {
            proof {
                lemma_filter_prefix(all, i as int, keep);
                assert(self.blocked_vcpus@[0] == all[i as int]);
            }
            if let Some(entry) = self.blocked_vcpus.pop_front() {
                if vcpus.get(entry.vcpu).zone_id() != zone_id {
                    self.blocked_vcpus.push_back(entry);
                }
            }
            i = i + 1;
            assert(self.blocked_vcpus@ =~= all.subrange(i as int, n as int) + all.subrange(
                0,
                i as int,
            ).filter(keep));
        }
        assert(all.subrange(0, n as int) =~= all);
        if let Some(id) = self.current {
            if vcpus.get(id).zone_id() == zone_id {
                self.current = None;
            }
        }
        assert(self@.run_queue =~= old(self)@.without_zone(zone_id, vcpus@).run_queue);
        assert(self@.blocked =~= old(self)@.without_zone(zone_id, vcpus@).blocked);
    }

    /// Removes all vCPUs.
    pub fn clear_all(&mut self)
        ensures
            final(self)@ == old(self)@.cleared(),
    {
        self.run_queue[0].clear();
        self.run_queue[1].clear();
        self.run_queue[2].clear();
        self.run_queue[3].clear();
        self.blocked_vcpus.clear();
        self.current = None;
        assert(self@.run_queue =~= old(self)@.cleared().run_queue);
    }

    /// Adds a vCPU to the blocked list at physical count `now`, with its saved
    /// virtual timer.
    pub fn block_vcpu(&mut self, vcpu: usize, cntv_cval: u64, cntv_ctl: u64, cntvoff: u64, now: u64)
        ensures
            final(self)@ == old(self)@.with_blocked(
                BlockedVCpuEntry { vcpu, cntv_cval, cntv_ctl, cntvoff, blocked_at_cnt: now },
            ),
    {
        self.blocked_vcpus.push_back(
            BlockedVCpuEntry { vcpu, cntv_cval, cntv_ctl, cntvoff, blocked_at_cnt: now },
        );
    }

    /// Takes the entry at position `i` off the blocked list and wakes its vCPU, with
    /// the virtual timer's interrupt if `timer` says so.  Returns whether the vCPU
    /// became ready.
    fn wake_at(&mut self, vcpus: &mut VCpuTable, i: usize, timer: bool) -> (res: bool)
        requires
            i < old(self)@.blocked.len(),
            old(vcpus)@.contains_key(old(self)@.blocked[i as int].vcpu),
            old(vcpus)@[old(self)@.blocked[i as int].vcpu].id == old(self)@.blocked[i as int].vcpu,
        ensures
            ({
                let before = WakeView { sched: old(self)@, vcpus: old(vcpus)@, woken: 0 };
                let after = before.wake_at(i as int, timer);
                &&& final(self)@ == after.sched
                &&& final(vcpus)@ == after.vcpus
                &&& res == (after.woken == 1)
            }),
    {
        if let Some(entry) = self.blocked_vcpus.remove(i) {
            let id: usize = entry.vcpu;
            let vcpu = vcpus.get_mut(id);
            if timer {
                vcpu.push_pending_irq(CNTV_IRQ, false);
            }
            if vcpu.transition(VCpuState::Blocked, VCpuState::Ready).is_ok() {
                self.enqueue(vcpus.get(id));
                return true;
            }
        }
        false
    }

    /// Wakes the blocked vCPUs whose virtual timer has expired at physical count
    /// `current_cnt`, and those that have waited long enough.  `one_tick` is the
    /// length of a tick.  Returns how many became ready.
    pub fn check_blocked_timers(
        &mut self,
        vcpus: &mut VCpuTable,
        current_cnt: u64,
        one_tick: u64,
    ) -> (woken: usize)
        requires
            old(self)@.blocked_known(old(vcpus)@),
            forall|id: usize| #[trigger]
                old(vcpus)@.contains_key(id) ==> old(vcpus)@[id].id == id,
        ensures
            ({
                let before = WakeView { sched: old(self)@, vcpus: old(vcpus)@, woken: 0 };
                let after = before.timers_checked(current_cnt, one_tick, 0);
                &&& final(self)@ == after.sched
                &&& final(vcpus)@ == after.vcpus
                &&& woken == after.woken
            }),
    {
        let ghost goal = (WakeView {
            sched: old(self)@,
            vcpus: old(vcpus)@,
            woken: 0,
        }).timers_checked(current_cnt, one_tick, 0);
        let total: usize = self.blocked_vcpus.len();
        let mut woken: usize = 0;
        let mut i: usize = 0;
        while i < self.blocked_vcpus.len()
            invariant
                i <= self@.blocked.len(),
                self@.blocked_known(vcpus@),
                forall|id: usize| #[trigger] vcpus@.contains_key(id) ==> vcpus@[id].id == id,
                goal == (WakeView {
                    sched: self@,
                    vcpus: vcpus@,
                    woken: woken as nat,
                }).timers_checked(current_cnt, one_tick, i as int),
                woken + self@.blocked.len() <= total,
            decreases self@.blocked.len() - i,
        {
            let ghost here = WakeView { sched: self@, vcpus: vcpus@, woken: woken as nat };
            let entry: BlockedVCpuEntry = self.blocked_vcpus[i];
            let timer_enabled: bool = entry.cntv_ctl & CNTV_ENABLE != 0;
            let virtual_cnt: u64 = current_cnt.wrapping_sub(entry.cntvoff);
            let timer_expired: bool = timer_enabled && virtual_cnt >= entry.cntv_cval;
            let waited: bool = current_cnt >= entry.blocked_at_cnt.wrapping_add(one_tick);
            let waited_out: bool = current_cnt >= entry.blocked_at_cnt.wrapping_add(
                one_tick.wrapping_mul(BLOCKED_TIMEOUT_TICKS),
            );
            let has_pending: bool = vcpus.get(entry.vcpu).has_pending_irqs();
            if timer_expired {
                let ghost next = here.wake_at(i as int, true);
                if self.wake_at(vcpus, i, true) {
                    woken = woken + 1;
                }
                assert(next =~= (WakeView { sched: self@, vcpus: vcpus@, woken: woken as nat }));
            } else if (waited && has_pending) || waited_out {
                let ghost next = here.wake_at(i as int, false);
                if self.wake_at(vcpus, i, false) {
                    woken = woken + 1;
                }
                assert(next =~= (WakeView { sched: self@, vcpus: vcpus@, woken: woken as nat }));
            } else {
                i = i + 1;
            }
        }
        woken
    }

    /// Wakes the blocked vCPUs that have something pending.  Returns how many became
    /// ready.
    pub fn drain_pending_irq_wakeups(&mut self, vcpus: &mut VCpuTable) -> (woken: usize)
        requires
            old(self)@.blocked_known(old(vcpus)@),
            forall|id: usize| #[trigger]
                old(vcpus)@.contains_key(id) ==> old(vcpus)@[id].id == id,
        ensures
            ({
                let before = WakeView { sched: old(self)@, vcpus: old(vcpus)@, woken: 0 };
                let after = before.pending_woken(0);
                &&& final(self)@ == after.sched
                &&& final(vcpus)@ == after.vcpus
                &&& woken == after.woken
            }),
    {
        let ghost goal = (WakeView {
            sched: old(self)@,
            vcpus: old(vcpus)@,
            woken: 0,
        }).pending_woken(0);
        let total: usize = self.blocked_vcpus.len();
        let mut woken: usize = 0;
        let mut i: usize = 0;
        while i < self.blocked_vcpus.len()
            invariant
                i <= self@.blocked.len(),
                self@.blocked_known(vcpus@),
                forall|id: usize| #[trigger] vcpus@.contains_key(id) ==> vcpus@[id].id == id,
                goal == (WakeView {
                    sched: self@,
                    vcpus: vcpus@,
                    woken: woken as nat,
                }).pending_woken(i as int),
                woken + self@.blocked.len() <= total,
            decreases self@.blocked.len() - i,
        {
            let ghost here = WakeView { sched: self@, vcpus: vcpus@, woken: woken as nat };
            if vcpus.get(self.blocked_vcpus[i].vcpu).has_pending_irqs() {
                let ghost next = here.wake_at(i as int, false);
                if self.wake_at(vcpus, i, false) {
                    woken = woken + 1;
                }
                assert(next =~= (WakeView { sched: self@, vcpus: vcpus@, woken: woken as nat }));
            } else {
                i = i + 1;
            }
        }
        woken
    }

    /// Makes the virtual timer's interrupt pending for each vCPU in a run queue
    /// whose timer is due at physical count `current_cnt`.
    pub fn check_ready_timers(&self, vcpus: &mut VCpuTable, current_cnt: u64)
        requires
            self@.queued_known(old(vcpus)@),
        ensures
            final(vcpus)@ == Map::new(
                |id: usize| old(vcpus)@.contains_key(id),
                |id: usize|
                    if self@.queued(id) && ready_timer_due(old(vcpus)@[id], current_cnt) {
                        old(vcpus)@[id].with_irq(CNTV_IRQ, false)
                    } else {
                        old(vcpus)@[id]
                    },
            ),
    {
        let ghost all = old(vcpus)@;
        let mut prio: usize = 0;
        while prio < NUM_PRIORITIES
            invariant
                prio <= NUM_PRIORITIES,
                self@.queued_known(all),
                vcpus@ == self@.timers_made_pending(all, current_cnt, prio as int, 0),
            decreases NUM_PRIORITIES - prio,
        {
            let mut i: usize = 0;
            assert(self@.run_queue[prio as int] == self.run_queue@[prio as int]@);
            while i < self.run_queue[prio].len()
                invariant
                    prio < NUM_PRIORITIES,
                    i <= self@.run_queue[prio as int].len(),
                    self@.run_queue[prio as int] == self.run_queue@[prio as int]@,
                    self@.queued_known(all),
                    vcpus@ == self@.timers_made_pending(all, current_cnt, prio as int, i as int),
                decreases self@.run_queue[prio as int].len() - i,
            {
                let id: usize = self.run_queue[prio][i];
                proof {
                    assert(self@.run_queue[prio as int][i as int] == id);
                    assert(all.contains_key(id));
                    lemma_pending_made(all[id]);
                }
                let vcpu = vcpus.get(id);
                let ctl: u64 = vcpu.arch.el1_regs.cntv_ctl_el0;
                let deadline: u64 = vcpu.arch.el1_regs.cntv_cval_el0.wrapping_add(
                    vcpu.arch.el1_regs.cntvoff_el2,
                );
                let ghost before = vcpus@;
                if ctl & CNTV_ENABLE != 0 && ctl & CNTV_IMASK == 0 && current_cnt >= deadline
                    && !vcpu.has_pending_irqs() {
                    vcpus.get_mut(id).push_pending_irq(CNTV_IRQ, false);
                }
                i = i + 1;
                assert(vcpus@ =~= self@.timers_made_pending(
                    all,
                    current_cnt,
                    prio as int,
                    i as int,
                ));
            }
            prio = prio + 1;
            assert(vcpus@ =~= self@.timers_made_pending(all, current_cnt, prio as int, 0));
        }
        assert forall|id: usize| self@.queued(id) <==> self@.queued_before(id, 4, 0) by {
            lemma_queued_at(self@, id);
        }
    }

    /// Takes a vCPU off the blocked list.  Returns whether it was there.
    pub fn remove_blocked(&mut self, vcpu_id: usize) -> (res: bool)
        ensures
            res == old(self)@.waits(vcpu_id),
            final(self)@ == old(self)@.without_blocked(vcpu_id),
    {
        proof {
            lemma_blocked_position(self@.blocked, vcpu_id, 0);
        }
        let mut i: usize = 0;
        while i < self.blocked_vcpus.len()
            invariant
                i <= self@.blocked.len(),
                self@ == old(self)@,
                blocked_position(self@.blocked, vcpu_id, 0) == blocked_position(
                    self@.blocked,
                    vcpu_id,
                    i as int,
                ),
            decreases self@.blocked.len() - i,
        {
            if self.blocked_vcpus[i].vcpu == vcpu_id {
                let removed = self.blocked_vcpus.remove(i);
                return true;
            }
            i = i + 1;
        }
        false
    }

    /// Finds a vCPU in the blocked list.
    pub fn find_blocked(&self, vcpu_id: usize) -> (res: Option<usize>)
        ensures
            res == (if self@.waits(vcpu_id) {
                Some(vcpu_id)
            } else {
                None
            }),
    {
        let mut i: usize = 0;
        while i < self.blocked_vcpus.len()
            invariant
                i <= self@.blocked.len(),
                forall|k: int| 0 <= k < i ==> (#[trigger] self@.blocked[k]).vcpu != vcpu_id,
            decreases self@.blocked.len() - i,
        {
            if self.blocked_vcpus[i].vcpu == vcpu_id {
                assert(self@.blocked[i as int].vcpu == vcpu_id);
                return Some(vcpu_id);
            }
            i = i + 1;
        }
        None
    }

    /// Whether a vCPU is in a run queue.
    pub fn is_queued(&self, vcpu_id: usize) -> (res: bool)
        ensures
            res == self@.queued(vcpu_id),
    {
        let mut prio: usize = 0;
        while prio < NUM_PRIORITIES
            invariant
                prio <= NUM_PRIORITIES,
                forall|p: int|
                    0 <= p < prio ==> !(#[trigger] self@.run_queue[p]).contains(vcpu_id),
            decreases NUM_PRIORITIES - prio,
        {
            let mut i: usize = 0;
            assert(self@.run_queue[prio as int] == self.run_queue@[prio as int]@);
            while i < self.run_queue[prio].len()
                invariant
                    prio < NUM_PRIORITIES,
                    i <= self@.run_queue[prio as int].len(),
                    self@.run_queue[prio as int] == self.run_queue@[prio as int]@,
                    forall|k: int|
                        0 <= k < i ==> #[trigger] self@.run_queue[prio as int][k] != vcpu_id,
                decreases self@.run_queue[prio as int].len() - i,
            {
                if self.run_queue[prio][i] == vcpu_id {
                    assert(self@.run_queue[prio as int][i as int] == vcpu_id);
                    return true;
                }
                i = i + 1;
            }
            prio = prio + 1;
        }
        false
    }

    /// Whether any vCPU is blocked.
    pub fn has_blocked_vcpus(&self) -> (res: bool)
        ensures
            res == (self@.blocked.len() > 0),
    {
        self.blocked_vcpus.len() > 0
    }

    /// The number of blocked vCPUs.
    pub fn blocked_vcpu_count(&self) -> (res: usize)
        ensures
            res == self@.blocked.len(),
    {
        self.blocked_vcpus.len()
    }

    /// The physical count at which the first timer of a blocked vCPU expires.
    pub fn earliest_blocked_timer_cntpct(&self) -> (res: Option<u64>)
        ensures
            res == first_deadline(self@.blocked),
    {
        let mut best: Option<u64> = None;
        let mut i: usize = 0;
        while i < self.blocked_vcpus.len()
            invariant
                i <= self@.blocked.len(),
                best == first_deadline(self@.blocked.subrange(0, i as int)),
            decreases self@.blocked.len() - i,
        {
            let entry: BlockedVCpuEntry = self.blocked_vcpus[i];
            assert(self@.blocked.subrange(0, i + 1).drop_last() =~= self@.blocked.subrange(
                0,
                i as int,
            ));
            if entry.cntv_ctl & CNTV_ENABLE != 0 {
                let deadline: u64 = entry.cntv_cval.wrapping_add(entry.cntvoff);
                best = match best {
                    Some(t) => if t <= deadline {
                        Some(t)
                    } else {
                        Some(deadline)
                    },
                    None => Some(deadline),
                };
            }
            i = i + 1;
        }
        assert(self@.blocked.subrange(0, i as int) =~= self@.blocked);
        best
    }
}

/// A vCPU is in a run queue if and only if it has a place there.
pub proof fn lemma_queued_at(sched: SchedView, id: usize)
    ensures
        sched.queued(id) <==> exists|p: int, i: int|
            0 <= p < 4 && 0 <= i < sched.run_queue[p].len() && #[trigger] sched.run_queue[p][i]
                == id,
{
    if sched.queued(id) {
        if sched.run_queue[0].contains(id) {
            let i = choose|i: int| 0 <= i < sched.run_queue[0].len() && sched.run_queue[0][i] == id;
            assert(sched.run_queue[0][i] == id);
        } else if sched.run_queue[1].contains(id) {
            let i = choose|i: int| 0 <= i < sched.run_queue[1].len() && sched.run_queue[1][i] == id;
            assert(sched.run_queue[1][i] == id);
        } else if sched.run_queue[2].contains(id) {
            let i = choose|i: int| 0 <= i < sched.run_queue[2].len() && sched.run_queue[2][i] == id;
            assert(sched.run_queue[2][i] == id);
        } else {
            let i = choose|i: int| 0 <= i < sched.run_queue[3].len() && sched.run_queue[3][i] == id;
            assert(sched.run_queue[3][i] == id);
        }
    }
}

impl SchedView {
    /// vCPU `id` is in one of the first `prio` queues, or among the first `i` of
    /// the next.
    spec fn queued_before(self, id: usize, prio: int, i: int) -> bool {
        exists|p: int, k: int|
            0 <= p < 4 && 0 <= k < self.run_queue[p].len() && #[trigger] self.run_queue[p][k] == id
                && (p < prio || (p == prio && k < i))
    }

    /// `all` with the timer interrupts made pending that
    /// [`PerCpuScheduler::check_ready_timers`] has got to.
    spec fn timers_made_pending(
        self,
        all: Map<usize, VCpuView>,
        now: u64,
        prio: int,
        i: int,
    ) -> Map<usize, VCpuView> {
        Map::new(
            |id: usize| all.contains_key(id),
            |id: usize|
                if self.queued_before(id, prio, i) && ready_timer_due(all[id], now) {
                    all[id].with_irq(CNTV_IRQ, false)
                } else {
                    all[id]
                },
        )
    }
}

/// Once the timer's interrupt is pending for a vCPU, its timer is not due.
proof fn lemma_pending_made(vcpu: VCpuView)
    ensures
        vcpu.pending.len() == 0 ==> vcpu.with_irq(CNTV_IRQ, false).pending.len() > 0,
{
    crate::vcpu::lemma_irq_position(vcpu.pending, CNTV_IRQ, 0);
}

// ---------------------------------------------------------------------------
// Context switch
// ---------------------------------------------------------------------------

/// How a run of the scheduler ended.
#[derive(Debug, Clone, Copy, PartialEq, Eq, Structural)]
pub enum SchedOutcome {
    /// The running vCPU goes on.
    Kept,
    /// Another vCPU, or the same one again, was switched in.
    Switched,
    /// No vCPU is ready: the caller waits for an interrupt and then calls
    /// [`idle_resume`].  `prev_zone` is the zone whose stage-2 tables are in use.
    Idle { prev_zone: Option<usize> },
}

/// The virtual `MPIDR` of a vCPU: that of the pCPU, with the vCPU's index in its zone
/// in the lowest field.
pub open spec fn virtual_mpidr(phys: u64, id: usize, base: usize) -> u64 {
    let index: usize = if id >= base {
        (id - base) as usize
    } else {
        0
    };
    (phys & !0xff) | (index as u64 & 0xff)
}

impl HardwareView {
    /// The hardware after a vCPU was switched in.  The stage-2 tables are switched
    /// unless the vCPU before it was of the same zone.
    pub open spec fn switched_in(
        self,
        vcpu: VCpuView,
        zone: ZoneView,
        gicr_base: usize,
        prev_zone: Option<usize>,
    ) -> HardwareView {
        let restored = HardwareView {
            el1: vcpu.arch.el1_regs.unmasked(),
            ich: vcpu.arch.gic_state.restored(self.ich),
            el2: El2Regs {
                pmcr_el0: 0,
                vmpidr_el2: virtual_mpidr(self.el2.mpidr_el1, vcpu.id, zone.inner.vcpu_base),
                ..self.el2
            },
            ..self.all_ops(
                crate::arch::aarch64::vcpu::vgicr_ops(gicr_base, vcpu.arch.gic_state.vgicr),
            )
        };
        if prev_zone == Some(vcpu.zone) {
            restored
        } else {
            restored.op(Op::ActivateVmm).op(Op::ActivateGpm { root: zone.inner.gpm.root })
        }
    }
}

impl VCpuView {
    /// The vCPU after the pCPU's registers were saved as its own.
    pub open spec fn saved(self, hw: HardwareView) -> VCpuView {
        VCpuView {
            arch: ArchVCpuView {
                el1_regs: hw.el1.masked(),
                gic_state: self.arch.gic_state.saved(hw.ich),
                ..self.arch
            },
            ..self
        }
    }
}

impl Sys {
    /// A vCPU was switched out: the pCPU's registers are its own.
    pub open spec fn switched_out(self, id: usize) -> Sys {
        Sys {
            hv: self.hv.with_vcpu(id, self.hv.vcpus[id].saved(self.hw)),
            hw: self.hw.with_cntv_ctl(self.hw.el1.masked().cntv_ctl_el0),
        }
    }

    /// A vCPU was switched in.
    pub open spec fn switched_in(self, id: usize, prev_zone: Option<usize>) -> Sys {
        let vcpu = self.hv.vcpus[id];
        Sys {
            hw: self.hw.switched_in(
                vcpu,
                self.hv.zones[vcpu.zone],
                self.hv.gicr_bases[vcpu.affinity->0 as int],
                prev_zone,
            ),
            ..self
        }
    }
}

/// Saves the context of a vCPU that leaves the pCPU.
pub fn vcpu_switch_out(hv: &mut Hypervisor, hw: &mut Hardware, vcpu: usize)
    requires
        old(hv)@.wf(),
        old(hv)@.vcpus.contains_key(vcpu),
    ensures
        (Sys { hv: final(hv)@, hw: final(hw)@ }) == (Sys {
            hv: old(hv)@,
            hw: old(hw)@,
        }).switched_out(vcpu),
        final(hv)@.wf(),
{
    proof {
        crate::hypervisor::lemma_vcpu_ok(hv@, vcpu);
        crate::hypervisor::lemma_wf_vcpu(hv@, vcpu, hv@.vcpus[vcpu].saved(hw@));
    }
    hv.vcpu_mut(vcpu).arch.save(hw);
}

/// Restores the context of a vCPU that comes to the pCPU: its system registers, its
/// virtual interrupt controller and its redistributor registers, the `MPIDR` that it
/// sees, and its zone's stage-2 tables.  What is pending for it is left for the
/// return to the guest.
pub fn vcpu_switch_in(
    hv: &Hypervisor,
    hw: &mut Hardware,
    vcpu: usize,
    prev_zone_id: Option<usize>,
)
    requires
        hv@.wf(),
        hv@.vcpus.contains_key(vcpu),
    ensures
        (Sys { hv: hv@, hw: final(hw)@ }) == (Sys { hv: hv@, hw: old(hw)@ }).switched_in(
            vcpu,
            prev_zone_id,
        ),
{
    proof {
        crate::hypervisor::lemma_vcpu_ok(hv@, vcpu);
        crate::hypervisor::lemma_wf_sizes(hv@);
    }
    let next = hv.vcpu(vcpu);
    next.arch.el1_regs.restore_to_hardware(hw);
    next.arch.gic_state.restore_to_hardware(hw);
    restore_vgicr(hv, next, hw);
    let zone = hv.zone(next.zone_id());
    let base: usize = zone.vcpu_base();
    let index: usize = if next.id >= base {
        next.id - base
    } else {
        0
    };
    let phys: u64 = hw.regs.el2.mpidr_el1;
    hw.regs.el2.vmpidr_el2 = (phys & !0xff) | (index as u64 & 0xff);
    let same_zone: bool = match prev_zone_id {
        Some(prev) => prev == next.zone_id(),
        None => false,
    };
    if !same_zone {
        hw.push(Op::ActivateVmm);
        next.activate_gpm(zone.read().gpm(), hw);
    }
}

// ---------------------------------------------------------------------------
// Scheduling
// ---------------------------------------------------------------------------

/// The earliest of the deadlines of the armed timers in a blocked list.
pub open spec fn first_deadline(blocked: Seq<BlockedVCpuEntry>) -> Option<u64>
    decreases blocked.len(),
{
    if blocked.len() == 0 {
        None
    } else {
        let rest = first_deadline(blocked.drop_last());
        let last = blocked.last();
        if !last.armed() {
            rest
        } else {
            match rest {
                Some(t) if t <= last.deadline() => Some(t),
                _ => Some(last.deadline()),
            }
        }
    }
}

/// [`first_deadline`] is the deadline of an armed timer, and no armed timer has an
/// earlier one; there is none if no timer is armed.
pub proof fn lemma_first_deadline(blocked: Seq<BlockedVCpuEntry>)
    ensures
        match first_deadline(blocked) {
            Some(t) => {
                &&& exists|i: int|
                    0 <= i < blocked.len() && (#[trigger] blocked[i]).armed()
                        && blocked[i].deadline() == t
                &&& forall|i: int|
                    0 <= i < blocked.len() && (#[trigger] blocked[i]).armed() ==> t
                        <= blocked[i].deadline()
            },
            None => forall|i: int| 0 <= i < blocked.len() ==> !(#[trigger] blocked[i]).armed(),
        },
    decreases blocked.len(),
{
    if blocked.len() > 0 {
        let rest = blocked.drop_last();
        lemma_first_deadline(rest);
        assert forall|i: int| 0 <= i < rest.len() implies rest[i] == #[trigger] blocked[i] by {}
        let n = blocked.len() - 1;
        if blocked[n].armed() {
            assert(blocked[n].deadline() == blocked[n].deadline());
        }
        if let Some(t) = first_deadline(rest) {
            let i = choose|i: int|
                0 <= i < rest.len() && (#[trigger] rest[i]).armed() && rest[i].deadline() == t;
            assert(blocked[i].armed() && blocked[i].deadline() == t);
        }
    }
}

/// A selection takes one vCPU off the run queues, if there is one.
pub proof fn lemma_pick_count(sched: SchedView)
    requires
        sched.wf(),
    ensures
        sched.after_pick().wf(),
        sched.picked() is Some ==> sched.after_pick().ready_count() + 1 == sched.ready_count(),
        sched.picked() is None <==> sched.ready_count() == 0,
        sched.picked() is None ==> sched.after_pick().ready_count() == 0,
{
}

impl HvView {
    /// The vCPU that left the pCPU was put where its state says: a running or ready
    /// one back in its run queue, a blocked one in the blocked list with its timer,
    /// a stopped one nowhere.
    pub open spec fn stowed(self, cpu: usize, id: usize, now: u64) -> HvView {
        let vcpu = self.vcpus[id];
        match vcpu.state {
            VCpuState::Running => self.tried(
                id,
                VCpuState::Running,
                VCpuState::Ready,
            ).enqueued(cpu, id),
            VCpuState::Ready => self.enqueued(cpu, id),
            VCpuState::Blocked => self.with_sched(
                cpu,
                self.cpus[cpu as int].sched.with_blocked(
                    BlockedVCpuEntry {
                        vcpu: id,
                        cntv_cval: vcpu.arch.el1_regs.cntv_cval_el0,
                        cntv_ctl: vcpu.arch.el1_regs.cntv_ctl_el0,
                        cntvoff: vcpu.arch.el1_regs.cntvoff_el2,
                        blocked_at_cnt: now,
                    },
                ),
            ),
            VCpuState::Stopped => self,
        }
    }

    /// vCPU `id` runs on a pCPU, with a full time slice.
    pub open spec fn running(self, cpu: usize, id: usize) -> HvView {
        let moved = self.tried(id, VCpuState::Ready, VCpuState::Running);
        let pc = moved.cpus[cpu as int];
        moved.with_cpu(
            cpu,
            PerCpuView {
                sched: SchedView { current: Some(id), time_slice: DEFAULT_TIME_SLICE, ..pc.sched },
                current_vcpu: Some(id),
                ..pc
            },
        )
    }

    /// A vCPU was selected on a pCPU, or none.
    pub open spec fn selected(self, cpu: usize) -> HvView {
        self.with_sched(cpu, self.cpus[cpu as int].sched.after_pick())
    }

    /// No vCPU runs on a pCPU.
    pub open spec fn without_current(self, cpu: usize) -> HvView {
        self.with_sched(cpu, SchedView { current: None, ..self.cpus[cpu as int].sched })
    }

    /// The request to select another vCPU on a pCPU was noted.
    pub open spec fn resched_taken(self, cpu: usize) -> HvView {
        self.with_cpu(cpu, PerCpuView { need_resched: false, ..self.cpus[cpu as int] })
    }
}

impl Sys {
    /// The EL2 timer is set for a pCPU that waits: for the first timer of a blocked
    /// vCPU; for a tick, if there are blocked vCPUs without a timer; else it is off.
    pub open spec fn wait_prepared(self, cpu: usize) -> Sys {
        let sched = self.hv.cpus[cpu as int].sched;
        Sys {
            hw: match first_deadline(sched.blocked) {
                Some(target) => self.hw.with_el2_timer_at(target, self.hv.tick),
                None => if sched.blocked.len() > 0 {
                    self.hw.with_el2_timer(self.hv.tick)
                } else {
                    self.hw.without_el2_timer()
                },
            },
            ..self
        }
    }

    /// A ready vCPU was switched in.
    pub open spec fn entered(self, cpu: usize, id: usize, prev_zone: Option<usize>) -> Sys {
        let switched = (Sys { hv: self.hv.running(cpu, id), ..self }).switched_in(id, prev_zone);
        Sys { hw: switched.hw.with_el2_timer(self.hv.tick), ..switched }
    }

    /// The oldest vCPU of the highest priority was switched in.  A selected vCPU that
    /// is not ready is passed over.  If there is none, the pCPU waits.
    pub open spec fn dispatched(self, cpu: usize, prev_zone: Option<usize>) -> (Sys, SchedOutcome)
        decreases self.hv.cpus[cpu as int].sched.ready_count(),
        when cpu < self.hv.cpus.len() && self.hv.cpus[cpu as int].sched.wf()
    {
        let sched = self.hv.cpus[cpu as int].sched;
        let selected = Sys { hv: self.hv.selected(cpu), ..self };
        proof {
            lemma_pick_count(sched);
        }
        match sched.picked() {
            None => (selected.wait_prepared(cpu), SchedOutcome::Idle { prev_zone }),
            Some(id) => if self.hv.vcpus[id].moves(VCpuState::Ready, VCpuState::Running) {
                (selected.entered(cpu, id, prev_zone), SchedOutcome::Switched)
            } else {
                selected.dispatched(cpu, prev_zone)
            },
        }
    }

    /// The vCPU that ran was switched out and stowed.
    pub open spec fn vacated(self, cpu: usize) -> Sys {
        match self.hv.cpus[cpu as int].sched.current {
            Some(id) => {
                let out = (Sys { hv: self.hv.without_current(cpu), ..self }).switched_out(id);
                Sys { hv: out.hv.stowed(cpu, id, self.hw.timer.cntpct_el0), ..out }
            },
            None => Sys { hv: self.hv.without_current(cpu), ..self },
        }
    }

    /// The scheduler ran on a pCPU.  A running vCPU that is alone there goes on;
    /// otherwise it makes room, and the next vCPU is switched in.
    pub open spec fn scheduled(self, cpu: usize) -> (Sys, SchedOutcome) {
        let ready = Sys { hv: self.hv.incoming_drained(cpu).resched_taken(cpu), ..self };
        let sched = ready.hv.cpus[cpu as int].sched;
        if sched.ready_count() == 0 && sched.blocked.len() == 0
            && (sched.current matches Some(id) && ready.hv.vcpus[id].state
            == VCpuState::Running) {
            (
                Sys {
                    hv: ready.hv.with_sched(
                        cpu,
                        SchedView { time_slice: DEFAULT_TIME_SLICE, ..sched },
                    ),
                    hw: ready.hw.with_el2_timer(self.hv.tick),
                },
                SchedOutcome::Kept,
            )
        } else {
            let prev_zone = match sched.current {
                Some(id) => Some(ready.hv.vcpus[id].zone),
                None => None,
            };
            ready.vacated(cpu).dispatched(cpu, prev_zone)
        }
    }

    /// A pCPU that waited has been interrupted.
    pub open spec fn resumed(self, cpu: usize, prev_zone: Option<usize>) -> (Sys, SchedOutcome) {
        let ready = Sys { hv: self.hv.incoming_drained(cpu), ..self };
        let sched = ready.hv.cpus[cpu as int].sched;
        if sched.picked() is None && ready.hv.cpus[cpu as int].need_resched {
            (Sys { hv: ready.hv.selected(cpu).resched_taken(cpu), ..ready }).dispatched(
                cpu,
                prev_zone,
            )
        } else {
            ready.dispatched(cpu, prev_zone)
        }
    }
}

/// Puts the vCPU that left the pCPU where its state says.
fn stow(hv: &mut Hypervisor, cpu: usize, id: usize, now: u64)
    requires
        old(hv)@.wf(),
        cpu < old(hv)@.cpus.len(),
        crate::hypervisor::bound(old(hv)@.vcpus, id, cpu),
    ensures
        final(hv)@ == old(hv)@.stowed(cpu, id, now),
        final(hv)@.wf(),
        final(hv)@.cpus.len() == old(hv)@.cpus.len(),
{
    let state: VCpuState = hv.vcpu(id).state();
    match state {
        VCpuState::Running => {
            let moved: bool = hv.transition(id, VCpuState::Running, VCpuState::Ready);
            hv.enqueue(cpu, id);
        },
        VCpuState::Ready => {
            hv.enqueue(cpu, id);
        },
        VCpuState::Blocked => {
            let vcpu = hv.vcpu(id);
            let cval: u64 = vcpu.arch.el1_regs.cntv_cval_el0;
            let ctl: u64 = vcpu.arch.el1_regs.cntv_ctl_el0;
            let off: u64 = vcpu.arch.el1_regs.cntvoff_el2;
            proof {
                let pc = hv@.cpus[cpu as int];
                crate::hypervisor::lemma_cpu_ok(hv@, cpu);
                crate::hypervisor::lemma_wf_cpu(
                    hv@,
                    cpu,
                    hv@.stowed(cpu, id, now).cpus[cpu as int],
                );
            }
            hv.cpu_mut(cpu).scheduler.block_vcpu(id, cval, ctl, off, now);
        },
        VCpuState::Stopped => {},
    }
}

/// Sets the EL2 timer for a pCPU that waits.
fn prepare_wait(hv: &Hypervisor, cpu: usize, hw: &mut Hardware)
    requires
        cpu < hv@.cpus.len(),
    ensures
        (Sys { hv: hv@, hw: final(hw)@ }) == (Sys { hv: hv@, hw: old(hw)@ }).wait_prepared(cpu),
{
    let sched = &hv.cpu(cpu).scheduler;
    match sched.earliest_blocked_timer_cntpct() {
        Some(target) => {
            el2_timer_arm_at(hv, hw, target);
        },
        None => {
            if sched.has_blocked_vcpus() {
                el2_timer_rearm(hv, hw);
            } else {
                el2_timer_disable(hw);
            }
        },
    }
}

/// Switches a ready vCPU in.
fn enter(hv: &mut Hypervisor, cpu: usize, hw: &mut Hardware, id: usize, prev_zone: Option<usize>)
    requires
        old(hv)@.wf(),
        cpu < old(hv)@.cpus.len(),
        crate::hypervisor::bound(old(hv)@.vcpus, id, cpu),
    ensures
        (Sys { hv: final(hv)@, hw: final(hw)@ }) == (Sys { hv: old(hv)@, hw: old(hw)@ }).entered(
            cpu,
            id,
            prev_zone,
        ),
        final(hv)@.wf(),
        final(hv)@.cpus.len() == old(hv)@.cpus.len(),
{
    let moved: bool = hv.transition(id, VCpuState::Ready, VCpuState::Running);
    proof {
        crate::hypervisor::lemma_cpu_ok(hv@, cpu);
        crate::hypervisor::lemma_wf_cpu(
            hv@,
            cpu,
            old(hv)@.running(cpu, id).cpus[cpu as int],
        );
    }
    let this = hv.cpu_mut(cpu);
    this.scheduler.time_slice_remaining = DEFAULT_TIME_SLICE;
    this.scheduler.current = Some(id);
    this.current_vcpu = Some(id);
    assert(hv@ == old(hv)@.running(cpu, id));
    vcpu_switch_in(hv, hw, id, prev_zone);
    el2_timer_rearm(hv, hw);
}

/// Selects a vCPU.
fn select(hv: &mut Hypervisor, cpu: usize) -> (res: Option<usize>)
    requires
        old(hv)@.wf(),
        cpu < old(hv)@.cpus.len(),
    ensures
        res == old(hv)@.cpus[cpu as int].sched.picked(),
        final(hv)@ == old(hv)@.selected(cpu),
        final(hv)@.wf(),
        final(hv)@.cpus.len() == old(hv)@.cpus.len(),
        res matches Some(id) ==> crate::hypervisor::bound(final(hv)@.vcpus, id, cpu),
{
    proof {
        let pc = hv@.cpus[cpu as int];
        crate::hypervisor::lemma_cpu_ok(hv@, cpu);
        crate::hypervisor::lemma_pick_bound(pc.sched, hv@.vcpus, cpu);
        crate::hypervisor::lemma_wf_cpu(hv@, cpu, pc.with_sched(pc.sched.after_pick()));
    }
    hv.cpu_mut(cpu).scheduler.pick_next()
}

/// Switches in the oldest vCPU of the highest priority, or prepares the pCPU to wait.
fn dispatch(hv: &mut Hypervisor, cpu: usize, hw: &mut Hardware, prev_zone: Option<usize>) -> (res:
    SchedOutcome)
    requires
        old(hv)@.wf(),
        cpu < old(hv)@.cpus.len(),
    ensures
        (Sys { hv: final(hv)@, hw: final(hw)@ }, res) == (Sys {
            hv: old(hv)@,
            hw: old(hw)@,
        }).dispatched(cpu, prev_zone),
        final(hv)@.wf(),
        final(hv)@.cpus.len() == old(hv)@.cpus.len(),
{
    loop
        invariant
            hv@.wf(),
            cpu < hv@.cpus.len(),
            hv@.cpus.len() == old(hv)@.cpus.len(),
            (Sys { hv: hv@, hw: hw@ }).dispatched(cpu, prev_zone) == (Sys {
                hv: old(hv)@,
                hw: old(hw)@,
            }).dispatched(cpu, prev_zone),
        decreases hv@.cpus[cpu as int].sched.ready_count(),
    {
        proof {
            crate::hypervisor::lemma_cpu_ok(hv@, cpu);
            lemma_pick_count(hv@.cpus[cpu as int].sched);
        }
        match select(hv, cpu) {
            None => {
                prepare_wait(hv, cpu, hw);
                return SchedOutcome::Idle { prev_zone };
            },
            Some(id) => {
                if hv.vcpu(id).state() == VCpuState::Ready {
                    enter(hv, cpu, hw, id, prev_zone);
                    return SchedOutcome::Switched;
                }
            },
        }
    }
}

/// Runs the scheduler: lets the running vCPU go on if it is alone on the pCPU, and
/// otherwise switches to the next vCPU.
pub fn schedule(hv: &mut Hypervisor, cpu: usize, hw: &mut Hardware) -> (res: SchedOutcome)
    requires
        old(hv)@.wf(),
        cpu < old(hv)@.cpus.len(),
    ensures
        (Sys { hv: final(hv)@, hw: final(hw)@ }, res) == (Sys {
            hv: old(hv)@,
            hw: old(hw)@,
        }).scheduled(cpu),
        final(hv)@.wf(),
        final(hv)@.cpus.len() == old(hv)@.cpus.len(),
{
    drain_incoming_vcpus(hv, cpu);
    proof {
        crate::hypervisor::lemma_cpu_ok(hv@, cpu);
        crate::hypervisor::lemma_wf_cpu(
            hv@,
            cpu,
            PerCpuView { need_resched: false, ..hv@.cpus[cpu as int] },
        );
    }
    hv.cpu_mut(cpu).need_resched = false;
    let ghost ready = Sys { hv: hv@, hw: hw@ };
    proof {
        crate::hypervisor::lemma_cpu_ok(hv@, cpu);
    }
    let current: Option<usize> = hv.cpu(cpu).scheduler.current;
    let alone: bool = hv.cpu(cpu).scheduler.no_other_vcpus();
    if let Some(id) = current {
        if alone && hv.vcpu(id).state() == VCpuState::Running {
            proof {
                let pc = hv@.cpus[cpu as int];
                crate::hypervisor::lemma_wf_cpu(
                    hv@,
                    cpu,
                    pc.with_sched(SchedView { time_slice: DEFAULT_TIME_SLICE, ..pc.sched }),
                );
            }
            hv.cpu_mut(cpu).scheduler.time_slice_remaining = DEFAULT_TIME_SLICE;
            el2_timer_rearm(hv, hw);
            proof {
                lemma_drained_keeps_tick(old(hv)@, cpu);
            }
            return SchedOutcome::Kept;
        }
    }
    proof {
        let pc = hv@.cpus[cpu as int];
        crate::hypervisor::lemma_wf_cpu(
            hv@,
            cpu,
            pc.with_sched(SchedView { current: None, ..pc.sched }),
        );
    }
    hv.cpu_mut(cpu).scheduler.current = None;
    let mut prev_zone: Option<usize> = None;
    if let Some(id) = current {
        let now: u64 = hw.regs.timer.cntpct_el0;
        vcpu_switch_out(hv, hw, id);
        prev_zone = Some(hv.vcpu(id).zone_id());
        stow(hv, cpu, id, now);
    }
    assert((Sys { hv: hv@, hw: hw@ }) == ready.vacated(cpu));
    dispatch(hv, cpu, hw, prev_zone)
}

/// Goes on after a pCPU without ready vCPUs was interrupted.
pub fn idle_resume(
    hv: &mut Hypervisor,
    cpu: usize,
    hw: &mut Hardware,
    prev_zone: Option<usize>,
) -> (res: SchedOutcome)
    requires
        old(hv)@.wf(),
        cpu < old(hv)@.cpus.len(),
    ensures
        (Sys { hv: final(hv)@, hw: final(hw)@ }, res) == (Sys {
            hv: old(hv)@,
            hw: old(hw)@,
        }).resumed(cpu, prev_zone),
        final(hv)@.wf(),
        final(hv)@.cpus.len() == old(hv)@.cpus.len(),
{
    drain_incoming_vcpus(hv, cpu);
    proof {
        crate::hypervisor::lemma_cpu_ok(hv@, cpu);
        lemma_pick_count(hv@.cpus[cpu as int].sched);
    }
    if hv.cpu(cpu).scheduler.is_empty() && hv.cpu(cpu).need_resched {
        let none: Option<usize> = select(hv, cpu);
        proof {
            crate::hypervisor::lemma_cpu_ok(hv@, cpu);
            crate::hypervisor::lemma_wf_cpu(
                hv@,
                cpu,
                PerCpuView { need_resched: false, ..hv@.cpus[cpu as int] },
            );
        }
        hv.cpu_mut(cpu).need_resched = false;
    }
    dispatch(hv, cpu, hw, prev_zone)
}

/// vCPUs that join run queues leave the length of a tick alone.
proof fn lemma_drained_keeps_tick(hv: HvView, cpu: usize)
    ensures
        hv.incoming_drained(cpu).tick == hv.tick,
{
    let pc = hv.cpus[cpu as int];
    lemma_arrived_keeps_tick(
        hv.with_cpu(cpu, PerCpuView { incoming: Seq::empty(), ..pc }),
        cpu,
        pc.incoming,
    );
}

proof fn lemma_arrived_keeps_tick(hv: HvView, cpu: usize, arrivals: Seq<usize>)
    ensures
        hv.arrived(cpu, arrivals).tick == hv.tick,
    decreases arrivals.len(),
{
    if arrivals.len() > 0 {
        lemma_arrived_keeps_tick(
            hv.moved_to_queue(cpu, arrivals[0]),
            cpu,
            arrivals.subrange(1, arrivals.len() as int),
        );
    }
}

/// The schedulers start with their pCPUs; there is nothing else to set up.
pub fn init() {
}

} // verus!

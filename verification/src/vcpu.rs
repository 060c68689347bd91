//! Virtual CPUs: identity, life cycle, pending interrupts and pCPU affinity.
//!
//! A vCPU belongs to a zone and is bound to one pCPU, whose scheduler runs it in
//! turn with the other vCPUs that are bound there.

use vstd::prelude::*;
use std::collections::VecDeque;
use crate::arch::aarch64::vcpu::{ArchVCpu, ArchVCpuView};
use crate::hardware::{Hardware, Op};
use crate::memory::Stage2PageTable;
use crate::cpu_data::{PendingWake, PerCpuView};
use crate::event::{send_event, IPI_EVENT_INCOMING_VCPU, IPI_EVENT_RESCHED};
use crate::hypercall::SGI_IPI_ID;
use crate::hypervisor::{HvView, Hypervisor, Sys};

verus! {

/// The interrupt of the virtual timer.
pub const CNTV_IRQ: usize = 27;

/// The most interrupts that can be pending for a vCPU.
pub const MAX_PENDING_VIRQS: usize = 64;

/// The priority of a new vCPU.
pub const DEFAULT_PRIORITY: u8 = 2;

// ---------------------------------------------------------------------------
// Identifiers
// ---------------------------------------------------------------------------

/// The vCPU identifiers: a counter, and those that were given back.
pub struct VCpuIdPool {
    /// The lowest identifier that was never given out.
    pub next: usize,
    /// Identifiers that were given back, in the order in which they came.
    pub free: VecDeque<usize>,
}

/// The value of a [`VCpuIdPool`].
#[verifier::ext_equal]
pub struct VCpuIdPoolView {
    pub next: usize,
    pub free: Seq<usize>,
}

impl View for VCpuIdPool {
    type V = VCpuIdPoolView;

    open spec fn view(&self) -> VCpuIdPoolView {
        VCpuIdPoolView { next: self.next, free: self.free@ }
    }
}

impl VCpuIdPoolView {
    /// The identifier that the pool gives out next.
    pub open spec fn head(self) -> usize {
        if self.free.len() > 0 {
            self.free[0]
        } else {
            self.next
        }
    }

    /// The pool can give an identifier out.
    pub open spec fn available(self) -> bool {
        self.free.len() > 0 || self.next < usize::MAX
    }

    /// The pool after it gave [`Self::head`] out.
    pub open spec fn taken(self) -> VCpuIdPoolView {
        if self.free.len() > 0 {
            VCpuIdPoolView { free: self.free.subrange(1, self.free.len() as int), ..self }
        } else {
            VCpuIdPoolView { next: (self.next + 1) as usize, ..self }
        }
    }

    /// The pool after an identifier was given back.
    pub open spec fn reclaimed(self, id: usize) -> VCpuIdPoolView {
        VCpuIdPoolView { free: self.free.push(id), ..self }
    }

    /// Identifier `id` is in use: it was given out and not given back.
    pub open spec fn in_use(self, id: usize) -> bool {
        id < self.next && !self.free.contains(id)
    }

    /// What was given back had been given out, and no identifier was given back
    /// twice.
    pub open spec fn wf(self) -> bool {
        &&& forall|i: int| 0 <= i < self.free.len() ==> #[trigger] self.free[i] < self.next
        &&& self.free.no_duplicates()
    }
}

impl VCpuIdPool {
    /// A pool that has not given anything out.
    pub fn new() -> (res: Self)
        ensures
            res@.next == 0,
            res@.free == Seq::<usize>::empty(),
            res@.wf(),
    {
        VCpuIdPool { next: 0, free: VecDeque::new() }
    }

    /// Gives an identifier out: the one that was given back first, or else a new one.
    pub fn free_vcpu_id(&mut self) -> (id: usize)
        requires
            old(self)@.available(),
        ensures
            id == old(self)@.head(),
            final(self)@ == old(self)@.taken(),
    {
        match self.free.pop_front() {
            Some(id) => id,
            None => {
                let id: usize = self.next;
                self.next = id + 1;
                id
            },
        }
    }

    /// Takes an identifier back.
    pub fn reclaim_vcpu_id(&mut self, id: usize)
        ensures
            final(self)@ == old(self)@.reclaimed(id),
    {
        self.free.push_back(id);
    }
}

/// The identifier that a pool gives out is not in use, and is the only one that
/// comes into use; the pool stays in order.
pub proof fn lemma_id_taken(pool: VCpuIdPoolView)
    requires
        pool.wf(),
        pool.available(),
    ensures
        pool.taken().wf(),
        !pool.in_use(pool.head()),
        forall|id: usize| #[trigger]
            pool.taken().in_use(id) <==> pool.in_use(id) || id == pool.head(),
{
    if pool.free.len() > 0 {
        let rest = pool.free.subrange(1, pool.free.len() as int);
        assert(pool.free =~= seq![pool.free[0]] + rest);
        assert(pool.free.contains(pool.free[0]));
        assert forall|i: int, j: int| 0 <= i < rest.len() && 0 <= j < rest.len() && i != j implies rest[i]
            != rest[j] by {
            assert(rest[i] == pool.free[i + 1] && rest[j] == pool.free[j + 1]);
        }
        assert forall|i: int| 0 <= i < rest.len() implies #[trigger] rest[i] < pool.next by {
            assert(rest[i] == pool.free[i + 1]);
        }
        assert forall|id: usize| #[trigger]
            pool.taken().in_use(id) <==> pool.in_use(id) || id == pool.head() by {
            if rest.contains(id) {
                let i = choose|i: int| 0 <= i < rest.len() && rest[i] == id;
                assert(pool.free[i + 1] == id);
                assert(pool.free.contains(id));
                assert(id != pool.free[0]);
            }
            if pool.free.contains(id) && id != pool.head() {
                let i = choose|i: int| 0 <= i < pool.free.len() && pool.free[i] == id;
                assert(rest[i - 1] == id);
            }
        }
    } else {
        assert forall|id: usize| #[trigger]
            pool.taken().in_use(id) <==> pool.in_use(id) || id == pool.head() by {
            assert(!pool.free.contains(id));
        }
    }
}

/// An identifier that is given back is no longer in use, and no other changes;
/// the pool stays in order.
pub proof fn lemma_id_reclaimed(pool: VCpuIdPoolView, id: usize)
    requires
        pool.wf(),
        pool.in_use(id),
    ensures
        pool.reclaimed(id).wf(),
        forall|other: usize| #[trigger]
            pool.reclaimed(id).in_use(other) <==> pool.in_use(other) && other != id,
{
    let after = pool.free.push(id);
    assert forall|other: usize| #[trigger]
        pool.reclaimed(id).in_use(other) <==> pool.in_use(other) && other != id by {
        if after.contains(other) {
            let i = choose|i: int| 0 <= i < after.len() && after[i] == other;
            if i < pool.free.len() {
                assert(pool.free.contains(other));
            }
        }
        if pool.free.contains(other) {
            let i = choose|i: int| 0 <= i < pool.free.len() && pool.free[i] == other;
            assert(after[i] == other);
        }
        assert(after[pool.free.len() as int] == id);
    }
    assert forall|i: int, j: int| 0 <= i < after.len() && 0 <= j < after.len() && i != j implies after[i]
        != after[j] by {
        if i == pool.free.len() {
            assert(pool.free.contains(pool.free[j]));
        } else if j == pool.free.len() {
            assert(pool.free.contains(pool.free[i]));
        }
    }
}

// ---------------------------------------------------------------------------
// Life cycle
// ---------------------------------------------------------------------------

/// The states of a vCPU.
#[derive(Debug, Clone, Copy, PartialEq, Eq, Structural)]
pub enum VCpuState {
    /// Not started yet, or turned off.  In no run queue.
    Stopped,
    /// In the run queue of a pCPU, waiting for its turn.
    Ready,
    /// Executing on a pCPU.
    Running,
    /// Waiting for an interrupt.  In no run queue.
    Blocked,
}

impl VCpuState {
    /// A vCPU may go from this state to `to`.
    pub open spec fn allows(self, to: VCpuState) -> bool {
        match self {
            VCpuState::Stopped => to is Ready,
            VCpuState::Ready => to is Running || to is Stopped,
            VCpuState::Running => to is Ready || to is Blocked || to is Stopped,
            VCpuState::Blocked => to is Ready || to is Stopped,
        }
    }

    /// The state with the given number.
    pub fn from_u8(v: u8) -> (res: Option<Self>)
        ensures
            res == (match v {
                0 => Some(VCpuState::Stopped),
                1 => Some(VCpuState::Ready),
                2 => Some(VCpuState::Running),
                3 => Some(VCpuState::Blocked),
                _ => None,
            }),
    {
        match v {
            0 => Some(VCpuState::Stopped),
            1 => Some(VCpuState::Ready),
            2 => Some(VCpuState::Running),
            3 => Some(VCpuState::Blocked),
            _ => None,
        }
    }

    /// Whether a vCPU may go from this state to `to`.
    pub fn can_transition_to(self, to: VCpuState) -> (res: bool)
        ensures
            res == self.allows(to),
    {
        match (self, to) {
            (VCpuState::Stopped, VCpuState::Ready) => true,
            (VCpuState::Ready, VCpuState::Running) => true,
            (VCpuState::Running, VCpuState::Ready) => true,
            (VCpuState::Running, VCpuState::Blocked) => true,
            (VCpuState::Running, VCpuState::Stopped) => true,
            (VCpuState::Blocked, VCpuState::Ready) => true,
            (VCpuState::Blocked, VCpuState::Stopped) => true,
            (VCpuState::Ready, VCpuState::Stopped) => true,
            _ => false,
        }
    }
}

// ---------------------------------------------------------------------------
// Pending interrupts
// ---------------------------------------------------------------------------

/// A virtual interrupt that waits to be delivered to a vCPU.
#[derive(Debug, Clone, Copy, PartialEq, Eq, Structural)]
pub struct PendingIrq {
    pub irq_id: usize,
    pub is_hardware: bool,
}

/// The first position at or after `from` at which `queue` holds interrupt `irq`;
/// the queue's length if there is none.
pub open spec fn irq_position(queue: Seq<PendingIrq>, irq: usize, from: int) -> int
    decreases queue.len() - from,
{
    if from < 0 || from >= queue.len() {
        queue.len() as int
    } else if queue[from].irq_id == irq {
        from
    } else {
        irq_position(queue, irq, from + 1)
    }
}

/// A queue after one more interrupt became pending.  The virtual timer's
/// interrupt takes the place of one that is pending already; any other interrupt
/// goes to the end, and the oldest makes room for it if the queue is full.
pub open spec fn pending_after(queue: Seq<PendingIrq>, irq: PendingIrq) -> Seq<PendingIrq> {
    let at = irq_position(queue, irq.irq_id, 0);
    if irq.irq_id == CNTV_IRQ && at < queue.len() {
        queue.update(at, irq)
    } else if queue.len() >= MAX_PENDING_VIRQS {
        queue.subrange(1, queue.len() as int).push(irq)
    } else {
        queue.push(irq)
    }
}

/// A queue that a vCPU can have: not too long, the virtual timer's interrupt in
/// it at most once.
pub open spec fn pending_wf(queue: Seq<PendingIrq>) -> bool {
    &&& queue.len() <= MAX_PENDING_VIRQS
    &&& forall|i: int, j: int|
        0 <= i < j < queue.len() && #[trigger] queue[i].irq_id == CNTV_IRQ
            ==> #[trigger] queue[j].irq_id != CNTV_IRQ
}

/// [`irq_position`] finds the first match.
pub proof fn lemma_irq_position(queue: Seq<PendingIrq>, irq: usize, from: int)
    requires
        0 <= from <= queue.len(),
    ensures
        from <= irq_position(queue, irq, from) <= queue.len(),
        irq_position(queue, irq, from) < queue.len() ==> queue[irq_position(
            queue,
            irq,
            from,
        )].irq_id == irq,
        forall|i: int|
            from <= i < irq_position(queue, irq, from) ==> #[trigger] queue[i].irq_id != irq,
    decreases queue.len() - from,
{
    if from < queue.len() && queue[from].irq_id != irq {
        lemma_irq_position(queue, irq, from + 1);
    }
}

/// Whatever becomes pending, the queue stays one that a vCPU can have, and the
/// interrupt is in it.
pub proof fn lemma_pending_after(queue: Seq<PendingIrq>, irq: PendingIrq)
    requires
        pending_wf(queue),
    ensures
        pending_wf(pending_after(queue, irq)),
        pending_after(queue, irq).contains(irq),
        pending_after(queue, irq).len() > 0,
{
    lemma_irq_position(queue, irq.irq_id, 0);
    let at = irq_position(queue, irq.irq_id, 0);
    let after = pending_after(queue, irq);
    if irq.irq_id == CNTV_IRQ && at < queue.len() {
        assert(after[at] == irq);
    } else {
        assert(after[after.len() - 1] == irq);
    }
    assert forall|i: int, j: int|
        0 <= i < j < after.len() && #[trigger] after[i].irq_id == CNTV_IRQ implies #[trigger] after[j].irq_id
        != CNTV_IRQ by {
        if irq.irq_id == CNTV_IRQ && at < queue.len() {
            assert(queue[i].irq_id == after[i].irq_id && queue[j].irq_id == after[j].irq_id);
        } else if queue.len() >= MAX_PENDING_VIRQS {
            assert(queue[i + 1].irq_id == after[i].irq_id);
            if j < after.len() - 1 {
                assert(queue[j + 1].irq_id == after[j].irq_id);
            }
        } else {
            assert(queue[i].irq_id == after[i].irq_id);
            if j < after.len() - 1 {
                assert(queue[j].irq_id == after[j].irq_id);
            }
        }
    }
}

/// While the queue has room, no interrupt other than the virtual timer's is
/// merged with one that is pending already: it adds an entry of its own behind
/// the others.
pub proof fn lemma_pending_not_merged(queue: Seq<PendingIrq>, irq: PendingIrq)
    requires
        queue.len() < MAX_PENDING_VIRQS,
        irq.irq_id != CNTV_IRQ,
    ensures
        pending_after(queue, irq) == queue.push(irq),
{
}

// ---------------------------------------------------------------------------
// vCPUs
// ---------------------------------------------------------------------------

/// A virtual CPU.
pub struct VCpu {
    pub id: usize,
    /// The zone that the vCPU belongs to.
    pub zone: usize,
    pub arch: ArchVCpu,
    pub state: VCpuState,
    /// Scheduling priority, from 0, the highest, to 3, the lowest.
    pub priority: u8,
    /// The pCPU that the vCPU is bound to.
    pub pcpu_affinity: Option<usize>,
    /// Interrupts to be put in list registers when the guest is next entered.
    pub pending_virqs: VecDeque<PendingIrq>,
    /// How often the vCPU has trapped.
    pub exit_count: u64,
}

/// The value of a [`VCpu`].
#[verifier::ext_equal]
pub struct VCpuView {
    pub id: usize,
    pub zone: usize,
    pub arch: ArchVCpuView,
    pub state: VCpuState,
    pub priority: u8,
    pub affinity: Option<usize>,
    pub pending: Seq<PendingIrq>,
    pub exit_count: u64,
}

impl View for VCpu {
    type V = VCpuView;

    open spec fn view(&self) -> VCpuView {
        VCpuView {
            id: self.id,
            zone: self.zone,
            arch: self.arch@,
            state: self.state,
            priority: self.priority,
            affinity: self.pcpu_affinity,
            pending: self.pending_virqs@,
            exit_count: self.exit_count,
        }
    }
}

impl VCpuView {
    /// A new vCPU.
    pub open spec fn fresh(id: usize, zone: usize, stack_top: usize, vtr: u64) -> VCpuView {
        VCpuView {
            id,
            zone,
            arch: ArchVCpuView::fresh(stack_top, vtr),
            state: VCpuState::Stopped,
            priority: DEFAULT_PRIORITY,
            affinity: None,
            pending: Seq::empty(),
            exit_count: 0,
        }
    }

    /// The vCPU in another state.
    pub open spec fn with_state(self, state: VCpuState) -> VCpuView {
        VCpuView { state, ..self }
    }

    /// A transition from `from` to `to` goes through.
    pub open spec fn moves(self, from: VCpuState, to: VCpuState) -> bool {
        self.state == from && from.allows(to)
    }

    /// The vCPU after a transition from `from` to `to` was tried.
    pub open spec fn tried(self, from: VCpuState, to: VCpuState) -> VCpuView {
        if self.moves(from, to) {
            self.with_state(to)
        } else {
            self
        }
    }

    /// The vCPU with one more interrupt pending.
    pub open spec fn with_irq(self, irq_id: usize, is_hardware: bool) -> VCpuView {
        VCpuView {
            pending: pending_after(self.pending, PendingIrq { irq_id, is_hardware }),
            ..self
        }
    }

    /// The vCPU with nothing pending.
    pub open spec fn drained(self) -> VCpuView {
        VCpuView { pending: Seq::empty(), ..self }
    }

    /// The vCPU's own parts are in order.
    pub open spec fn wf(self) -> bool {
        pending_wf(self.pending) && self.arch.wf()
    }
}

impl VCpu {
    /// A new vCPU of `zone`, stopped and bound to no pCPU, with the next free
    /// identifier.
    pub fn new(zone: usize, ids: &mut VCpuIdPool, stack_top: usize, hw: &Hardware) -> (res: Self)
        requires
            old(ids)@.available(),
        ensures
            res@ == VCpuView::fresh(old(ids)@.head(), zone, stack_top, hw@.ich.vtr),
            final(ids)@ == old(ids)@.taken(),
    {
        VCpu {
            id: ids.free_vcpu_id(),
            zone,
            arch: ArchVCpu::new(stack_top, hw),
            state: VCpuState::Stopped,
            priority: DEFAULT_PRIORITY,
            pcpu_affinity: None,
            pending_virqs: VecDeque::new(),
            exit_count: 0,
        }
    }

    /// Switches the pCPU to the stage-2 tables of the vCPU's zone.
    pub fn activate_gpm(&self, gpm: &Stage2PageTable, hw: &mut Hardware)
        ensures
            final(hw)@ == old(hw)@.op(Op::ActivateGpm { root: gpm.root }),
    {
        hw.push(Op::ActivateGpm { root: gpm.root });
    }

    /// The zone that the vCPU belongs to.
    pub fn zone_id(&self) -> (res: usize)
        ensures
            res == self@.zone,
    {
        self.zone
    }

    /// The current state.
    pub fn state(&self) -> (res: VCpuState)
        ensures
            res == self@.state,
    {
        self.state
    }

    /// Goes from `from` to `to`.  Fails, and changes nothing, if the transition is
    /// not allowed or the vCPU is not in state `from`.
    pub fn transition(&mut self, from: VCpuState, to: VCpuState) -> (res: Result<(), ()>)
        ensures
            res is Ok <==> old(self)@.moves(from, to),
            final(self)@ == old(self)@.tried(from, to),
    {
        if !from.can_transition_to(to) {
            return Err(());
        }
        if self.state != from {
            return Err(());
        }
        self.state = to;
        Ok(())
    }

    /// Stops the vCPU, whatever its state.
    pub fn force_stop(&mut self)
        ensures
            final(self)@ == old(self)@.with_state(VCpuState::Stopped),
    {
        self.state = VCpuState::Stopped;
    }

    /// Adds a pending interrupt.  The virtual timer's interrupt is level-triggered
    /// and is kept once; every other interrupt is kept as often as it comes.  A
    /// full queue drops its oldest entry.
    pub fn push_pending_irq(&mut self, irq_id: usize, is_hardware: bool)
        ensures
            final(self)@ == old(self)@.with_irq(irq_id, is_hardware),
    {
        let irq = PendingIrq { irq_id, is_hardware };
        let ghost queue = self.pending_virqs@;
        if irq_id == CNTV_IRQ {
            let mut at: usize = 0;
            while at < self.pending_virqs.len()
                invariant
                    at <= self.pending_virqs@.len(),
                    irq.irq_id == CNTV_IRQ,
                    irq == (PendingIrq { irq_id, is_hardware }),
                    *self == *old(self),
                    queue == old(self).pending_virqs@,
                    irq_position(queue, CNTV_IRQ, 0) == irq_position(queue, CNTV_IRQ, at as int),
                decreases self.pending_virqs@.len() - at,
            {
                if self.pending_virqs[at].irq_id == CNTV_IRQ {
                    let dropped = self.pending_virqs.remove(at);
                    self.pending_virqs.insert(at, irq);
                    assert(self.pending_virqs@ =~= queue.update(at as int, irq));
                    return;
                }
                at = at + 1;
            }
        }
        proof {
            lemma_irq_position(queue, irq_id, 0);
        }
        if self.pending_virqs.len() >= MAX_PENDING_VIRQS {
            let dropped = self.pending_virqs.pop_front();
        }
        self.pending_virqs.push_back(irq);
    }

    /// Removes and returns all pending interrupts, oldest first.
    pub fn drain_pending_irqs(&mut self) -> (res: Vec<PendingIrq>)
        ensures
            res@ == old(self)@.pending,
            final(self)@ == old(self)@.drained(),
    {
        let mut out: Vec<PendingIrq> = Vec::new();
        while self.pending_virqs.len() > 0
            invariant
                out@ + self.pending_virqs@ == old(self)@.pending,
                self@ == (VCpuView { pending: self.pending_virqs@, ..old(self)@ }),
            decreases self.pending_virqs@.len(),
        {
            if let Some(irq) = self.pending_virqs.pop_front() {
                out.push(irq);
            }
        }
        out
    }

    /// Whether anything is pending.
    pub fn has_pending_irqs(&self) -> (res: bool)
        ensures
            res == (self@.pending.len() > 0),
    {
        self.pending_virqs.len() > 0
    }

    /// Binds the vCPU to a pCPU.
    pub fn set_pcpu_affinity(&mut self, pcpu_id: usize)
        ensures
            final(self)@ == (VCpuView { affinity: Some(pcpu_id), ..old(self)@ }),
    {
        self.pcpu_affinity = Some(pcpu_id);
    }

    /// The pCPU that the vCPU is bound to.
    pub fn get_pcpu_affinity(&self) -> (res: usize)
        requires
            self@.affinity is Some,
        ensures
            Some(res) == self@.affinity,
    {
        match self.pcpu_affinity {
            Some(pcpu) => pcpu,
            None => 0,
        }
    }
}

// ---------------------------------------------------------------------------
// The table of all vCPUs
// ---------------------------------------------------------------------------

/// All vCPUs, each in the slot of its identifier.
pub struct VCpuTable {
    pub slots: Vec<Option<VCpu>>,
}

impl View for VCpuTable {
    type V = Map<usize, VCpuView>;

    open spec fn view(&self) -> Map<usize, VCpuView> {
        Map::new(
            |id: usize| id < self.slots@.len() && self.slots@[id as int] is Some,
            |id: usize| self.slots@[id as int]->0@,
        )
    }
}

impl VCpuTable {
    /// A table without vCPUs.
    pub fn new() -> (res: Self)
        ensures
            res@ == Map::<usize, VCpuView>::empty(),
    {
        VCpuTable { slots: Vec::new() }
    }

    /// Whether there is a vCPU with the given identifier.
    pub fn contains(&self, id: usize) -> (res: bool)
        ensures
            res == self@.contains_key(id),
    {
        id < self.slots.len() && self.slots[id].is_some()
    }

    /// The vCPU with the given identifier.
    pub fn get(&self, id: usize) -> (res: &VCpu)
        requires
            self@.contains_key(id),
        ensures
            res@ == self@[id],
    {
        self.slots[id].as_ref().unwrap()
    }

    /// The vCPU with the given identifier, to be changed.
    pub fn get_mut(&mut self, id: usize) -> (res: &mut VCpu)
        requires
            old(self)@.contains_key(id),
        ensures
            res@ == old(self)@[id],
            final(self)@ == old(self)@.insert(id, final(res)@),
    {
        self.slots[id].as_mut().unwrap()
    }

    /// Adds a vCPU, or replaces the one with its identifier.
    pub fn insert(&mut self, vcpu: VCpu)
        requires
            vcpu@.id < usize::MAX,
        ensures
            final(self)@ == old(self)@.insert(vcpu@.id, vcpu@),
    {
        let id: usize = vcpu.id;
        while self.slots.len() <= id
            invariant
                self@ == old(self)@,
                id < usize::MAX,
            decreases id + 1 - self.slots@.len(),
        {
            self.slots.push(None);
            assert(self@ =~= old(self)@);
        }
        self.slots[id] = Some(vcpu);
    }

    /// Removes the vCPU with the given identifier.
    pub fn remove(&mut self, id: usize)
        ensures
            final(self)@ == old(self)@.remove(id),
    {
        if id < self.slots.len() {
            self.slots[id] = None;
        }
        assert(self@ =~= old(self)@.remove(id));
    }
}

// ---------------------------------------------------------------------------
// vCPUs on their pCPUs
// ---------------------------------------------------------------------------

impl HvView {
    /// vCPUs that have arrived on a pCPU join its run queues, in order.
    pub open spec fn arrived(self, cpu: usize, arrivals: Seq<usize>) -> HvView
        decreases arrivals.len(),
    {
        if arrivals.len() == 0 {
            self
        } else {
            self.moved_to_queue(cpu, arrivals[0]).arrived(
                cpu,
                arrivals.subrange(1, arrivals.len() as int),
            )
        }
    }

    /// Everything that was sent to a pCPU has joined its run queues.
    pub open spec fn incoming_drained(self, cpu: usize) -> HvView {
        let pc = self.cpus[cpu as int];
        self.with_cpu(cpu, PerCpuView { incoming: Seq::empty(), ..pc }).arrived(cpu, pc.incoming)
    }

    /// A request to wake a vCPU was met: its interrupt is pending if the vCPU is
    /// blocked or ready on this pCPU, and the vCPU is woken if it is blocked.
    pub open spec fn wake_met(self, cpu: usize, wake: PendingWake) -> HvView {
        let sched = self.cpus[cpu as int].sched;
        if sched.waits(wake.vcpu_id) {
            self.irq_pended(wake.vcpu_id, wake.irq_id, wake.is_hardware).woken(cpu, wake.vcpu_id)
        } else if sched.queued(wake.vcpu_id) {
            self.irq_pended(wake.vcpu_id, wake.irq_id, wake.is_hardware)
        } else {
            self
        }
    }

    /// A request to wake a vCPU makes it ready.
    pub open spec fn wake_works(self, cpu: usize, wake: PendingWake) -> bool {
        self.cpus[cpu as int].sched.waits(wake.vcpu_id) && self.vcpus[wake.vcpu_id].state
            == VCpuState::Blocked
    }

    /// Requests to wake vCPUs were met, in order.
    pub open spec fn wakes_met(self, cpu: usize, wakes: Seq<PendingWake>) -> HvView
        decreases wakes.len(),
    {
        if wakes.len() == 0 {
            self
        } else {
            self.wake_met(cpu, wakes[0]).wakes_met(cpu, wakes.subrange(1, wakes.len() as int))
        }
    }

    /// How many of the requests make a vCPU ready.
    pub open spec fn wakes_working(self, cpu: usize, wakes: Seq<PendingWake>) -> nat
        decreases wakes.len(),
    {
        if wakes.len() == 0 {
            0
        } else {
            let rest = self.wake_met(cpu, wakes[0]).wakes_working(
                cpu,
                wakes.subrange(1, wakes.len() as int),
            );
            if self.wake_works(cpu, wakes[0]) {
                rest + 1
            } else {
                rest
            }
        }
    }

    /// All requests to wake vCPUs on a pCPU were met.
    pub open spec fn wake_ids_drained(self, cpu: usize) -> HvView {
        let pc = self.cpus[cpu as int];
        self.with_cpu(cpu, PerCpuView { wakes: Seq::empty(), ..pc }).wakes_met(cpu, pc.wakes)
    }

    /// How many vCPUs become ready when all requests on a pCPU are met.
    pub open spec fn wake_ids_working(self, cpu: usize) -> nat {
        let pc = self.cpus[cpu as int];
        self.with_cpu(cpu, PerCpuView { wakes: Seq::empty(), ..pc }).wakes_working(cpu, pc.wakes)
    }
}

impl Sys {
    /// A ready vCPU was put on the pCPU that it is bound to.
    pub open spec fn placed(self, cpu: usize, id: usize) -> Sys {
        let target = self.hv.vcpus[id].affinity->0;
        let placed = Sys { hv: self.hv.moved_to_queue(target, id).resched(target), ..self };
        if target != cpu {
            placed.sent(target, SGI_IPI_ID as usize, IPI_EVENT_RESCHED)
        } else {
            placed
        }
    }

    /// A vCPU was sent to a pCPU.
    pub open spec fn delivered(self, target: usize, id: usize) -> Sys {
        let pc = self.hv.cpus[target as int];
        (Sys {
            hv: self.hv.with_cpu(target, PerCpuView { incoming: pc.incoming.push(id), ..pc }),
            ..self
        }).sent(target, SGI_IPI_ID as usize, IPI_EVENT_INCOMING_VCPU)
    }
}

/// The vCPU that runs on a pCPU.
pub fn current_vcpu(hv: &Hypervisor, cpu: usize) -> (res: usize)
    requires
        cpu < hv@.cpus.len(),
        hv@.cpus[cpu as int].current_vcpu is Some,
    ensures
        Some(res) == hv@.cpus[cpu as int].current_vcpu,
{
    hv.cpu(cpu).current_vcpu.unwrap()
}

/// Says which vCPU runs on a pCPU.
pub fn set_current_vcpu(hv: &mut Hypervisor, cpu: usize, vcpu: usize)
    requires
        old(hv)@.wf(),
        cpu < old(hv)@.cpus.len(),
        crate::hypervisor::bound(old(hv)@.vcpus, vcpu, cpu),
    ensures
        final(hv)@ == old(hv)@.with_cpu(
            cpu,
            PerCpuView { current_vcpu: Some(vcpu), ..old(hv)@.cpus[cpu as int] },
        ),
        final(hv)@.wf(),
        final(hv)@.cpus.len() == old(hv)@.cpus.len(),
{
    proof {
        let pc = hv@.cpus[cpu as int];
        crate::hypervisor::lemma_cpu_ok(hv@, cpu);
        crate::hypervisor::lemma_wf_cpu(hv@, cpu, PerCpuView { current_vcpu: Some(vcpu), ..pc });
    }
    hv.cpu_mut(cpu).current_vcpu = Some(vcpu);
}

/// Puts a ready vCPU in the run queue of the pCPU that it is bound to, which is
/// told to schedule: by an event if it is another pCPU than this one.
pub fn enqueue_vcpu_on_affinity_pcpu(
    hv: &mut Hypervisor,
    cpu: usize,
    hw: &mut Hardware,
    vcpu: usize,
)
    requires
        old(hv)@.wf(),
        cpu < old(hv)@.cpus.len(),
        old(hv)@.vcpus.contains_key(vcpu),
    ensures
        (Sys { hv: final(hv)@, hw: final(hw)@ }) == (Sys { hv: old(hv)@, hw: old(hw)@ }).placed(
            cpu,
            vcpu,
        ),
        final(hv)@.wf(),
        final(hv)@.cpus.len() == old(hv)@.cpus.len(),
{
    proof {
        crate::hypervisor::lemma_vcpu_ok(hv@, vcpu);
    }
    let target: usize = hv.vcpu(vcpu).get_pcpu_affinity();
    let waited: bool = hv.unblock(target, vcpu);
    hv.enqueue(target, vcpu);
    hv.set_resched(target);
    if target != cpu {
        send_event(hv, hw, target, SGI_IPI_ID as usize, IPI_EVENT_RESCHED);
    }
}

/// Sends a vCPU to the pCPU that it is bound to.
pub fn deliver_vcpu_to_pcpu(
    hv: &mut Hypervisor,
    hw: &mut Hardware,
    target_pcpu: usize,
    vcpu: usize,
)
    requires
        old(hv)@.wf(),
        target_pcpu < old(hv)@.cpus.len(),
        crate::hypervisor::bound(old(hv)@.vcpus, vcpu, target_pcpu),
    ensures
        (Sys { hv: final(hv)@, hw: final(hw)@ }) == (Sys { hv: old(hv)@, hw: old(hw)@ }).delivered(
            target_pcpu,
            vcpu,
        ),
        final(hv)@.wf(),
        final(hv)@.cpus.len() == old(hv)@.cpus.len(),
{
    proof {
        let pc = hv@.cpus[target_pcpu as int];
        crate::hypervisor::lemma_cpu_ok(hv@, target_pcpu);
        crate::hypervisor::lemma_wf_cpu(
            hv@,
            target_pcpu,
            PerCpuView { incoming: pc.incoming.push(vcpu), ..pc },
        );
    }
    hv.cpu_mut(target_pcpu).incoming_vcpus.push_back(vcpu);
    send_event(hv, hw, target_pcpu, SGI_IPI_ID as usize, IPI_EVENT_INCOMING_VCPU);
}

/// Moves the vCPUs that were sent to a pCPU into its run queues.
pub fn drain_incoming_vcpus(hv: &mut Hypervisor, cpu: usize)
    requires
        old(hv)@.wf(),
        cpu < old(hv)@.cpus.len(),
    ensures
        final(hv)@ == old(hv)@.incoming_drained(cpu),
        final(hv)@.wf(),
        final(hv)@.cpus.len() == old(hv)@.cpus.len(),
{
    let ghost pc = hv@.cpus[cpu as int];
    let mut arrivals: VecDeque<usize> = VecDeque::new();
    proof {
        crate::hypervisor::lemma_cpu_ok(hv@, cpu);
        crate::hypervisor::lemma_wf_cpu(hv@, cpu, PerCpuView { incoming: Seq::empty(), ..pc });
    }
    std::mem::swap(&mut arrivals, &mut hv.cpu_mut(cpu).incoming_vcpus);
    assert(hv@ =~= old(hv)@.with_cpu(cpu, PerCpuView { incoming: Seq::empty(), ..pc }));
    assert(arrivals@ =~= pc.incoming);
    while arrivals.len() > 0
        invariant
            hv@.wf(),
            cpu < hv@.cpus.len(),
            hv@.cpus.len() == old(hv)@.cpus.len(),
            forall|i: int|
                0 <= i < arrivals@.len() ==> crate::hypervisor::bound(
                    hv@.vcpus,
                    #[trigger] arrivals@[i],
                    cpu,
                ),
            hv@.arrived(cpu, arrivals@) == old(hv)@.incoming_drained(cpu),
        decreases arrivals@.len(),
    {
        assert(crate::hypervisor::bound(hv@.vcpus, arrivals@[0], cpu));
        let ghost before = arrivals@;
        if let Some(vcpu) = arrivals.pop_front() {
            let waited: bool = hv.unblock(cpu, vcpu);
            hv.enqueue(cpu, vcpu);
            assert forall|i: int| 0 <= i < arrivals@.len() implies crate::hypervisor::bound(
                hv@.vcpus,
                #[trigger] arrivals@[i],
                cpu,
            ) by {
                assert(arrivals@[i] == before[i + 1]);
            }
        }
    }
}

/// Meets the requests of other pCPUs to wake vCPUs on this one.  Returns how many
/// vCPUs became ready.
pub fn drain_pending_wake_ids(hv: &mut Hypervisor, cpu: usize) -> (res: usize)
    requires
        old(hv)@.wf(),
        cpu < old(hv)@.cpus.len(),
    ensures
        final(hv)@ == old(hv)@.wake_ids_drained(cpu),
        res == old(hv)@.wake_ids_working(cpu),
        final(hv)@.wf(),
        final(hv)@.cpus.len() == old(hv)@.cpus.len(),
{
    let ghost pc = hv@.cpus[cpu as int];
    let mut wakes: VecDeque<PendingWake> = VecDeque::new();
    proof {
        crate::hypervisor::lemma_cpu_ok(hv@, cpu);
        crate::hypervisor::lemma_wf_cpu(hv@, cpu, PerCpuView { wakes: Seq::empty(), ..pc });
    }
    std::mem::swap(&mut wakes, &mut hv.cpu_mut(cpu).pending_wake_ids);
    assert(hv@ =~= old(hv)@.with_cpu(cpu, PerCpuView { wakes: Seq::empty(), ..pc }));
    assert(wakes@ =~= pc.wakes);
    let total: usize = wakes.len();
    let mut woken: usize = 0;
    while wakes.len() > 0
        invariant
            hv@.wf(),
            cpu < hv@.cpus.len(),
            hv@.cpus.len() == old(hv)@.cpus.len(),
            woken + wakes@.len() <= total,
            hv@.wakes_met(cpu, wakes@) == old(hv)@.wake_ids_drained(cpu),
            woken + hv@.wakes_working(cpu, wakes@) == old(hv)@.wake_ids_working(cpu),
        decreases wakes@.len(),
    {
        let ghost here = hv@;
        let ghost list = wakes@;
        if let Some(wake) = wakes.pop_front() {
            assert(wake == list[0]);
            let id: usize = wake.vcpu_id;
            proof {
                let sched = hv@.cpus[cpu as int].sched;
                crate::hypervisor::lemma_cpu_ok(hv@, cpu);
                if sched.waits(id) {
                    let i = choose|i: int|
                        0 <= i < sched.blocked.len() && #[trigger] sched.blocked[i].vcpu == id;
                    assert(crate::hypervisor::bound(hv@.vcpus, sched.blocked[i].vcpu, cpu));
                }
                crate::scheduler::lemma_queued_at(sched, id);
                if sched.queued(id) {
                    let (p, i) = choose|p: int, i: int|
                        0 <= p < 4 && 0 <= i < sched.run_queue[p].len()
                            && #[trigger] sched.run_queue[p][i] == id;
                    assert(crate::hypervisor::bound(hv@.vcpus, sched.run_queue[p][i], cpu));
                }
            }
            if hv.cpu(cpu).scheduler.find_blocked(id).is_some() {
                hv.push_irq(id, wake.irq_id, wake.is_hardware);
                if hv.wake(cpu, id) {
                    woken = woken + 1;
                }
            } else if hv.cpu(cpu).scheduler.is_queued(id) {
                hv.push_irq(id, wake.irq_id, wake.is_hardware);
            }
            assert(hv@ == here.wake_met(cpu, wake));
        }
    }
    woken
}

} // verus!

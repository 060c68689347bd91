//! Events that pCPUs send each other.

use vstd::prelude::*;
use std::collections::VecDeque;
use crate::arch::aarch64::vcpu::El1SysRegs;
use crate::cpu_data::{PendingWake, PerCpuView};
use crate::device::irqchip::gicv3::schedule_inject_irq;
use crate::hardware::{Hardware, HardwareView, Op};
use crate::hypervisor::{HvView, Hypervisor, Sys};
use crate::vcpu::{drain_incoming_vcpus, drain_pending_wake_ids};

verus! {

pub const IPI_EVENT_WAKEUP: usize = 0;

pub const IPI_EVENT_SHUTDOWN: usize = 1;

pub const IPI_EVENT_VIRTIO_INJECT_IRQ: usize = 2;

pub const IPI_EVENT_WAKEUP_VIRTIO_DEVICE: usize = 3;

pub const IPI_EVENT_CLEAR_INJECT_IRQ: usize = 4;

pub const IPI_EVENT_UPDATE_HART_LINE: usize = 5;

pub const IPI_EVENT_SEND_IPI: usize = 6;

/// Wake the blocked vCPUs that have something pending, and schedule.
pub const IPI_EVENT_RESCHED: usize = 7;

/// A vCPU has arrived from another pCPU.
pub const IPI_EVENT_INCOMING_VCPU: usize = 8;

/// The zone is being destroyed: forget its vCPUs and go idle.
pub const IPI_EVENT_ZONE_SHUTDOWN: usize = 9;

// ---------------------------------------------------------------------------
// Queues
// ---------------------------------------------------------------------------

/// The lock around an event queue, `spin::mutex::Mutex`.
#[verifier::external_type_specification]
#[verifier::external_body]
#[verifier::reject_recursive_types(T)]
#[verifier::reject_recursive_types(R)]
pub struct ExMutex<T: ?Sized, R>(spin::mutex::Mutex<T, R>);

/// How a lock waits, `spin::relax::Spin`.
#[verifier::external_type_specification]
#[verifier::external_body]
pub struct ExSpin(spin::relax::Spin);

/// The events in a locked queue, oldest first.
pub uninterp spec fn locked_events(
    queue: spin::mutex::Mutex<VecDeque<usize>, spin::relax::Spin>,
) -> Seq<usize>;

/// Calls `spin::mutex::Mutex::new`: the lock holds the value that it was made with,
/// here a queue without events.
#[verifier::external_body]
fn new_queue() -> (res: spin::mutex::Mutex<VecDeque<usize>, spin::relax::Spin>)
    ensures
        locked_events(res) == Seq::<usize>::empty(),
{
    spin::mutex::Mutex::new(VecDeque::new())
}

/// Calls `spin::mutex::Mutex::get_mut`: whoever has the lock to themselves reaches
/// the value that it holds, and what they leave there is what the lock then holds.
#[verifier::external_body]
fn queue_mut<'a>(
    queue: &'a mut spin::mutex::Mutex<VecDeque<usize>, spin::relax::Spin>,
) -> (res: &'a mut VecDeque<usize>)
    ensures
        res@ == locked_events(*old(queue)),
        locked_events(*final(queue)) == final(res)@,
{
    queue.get_mut()
}

/// The event queues of all pCPUs.
pub struct PercpuEvents {
    pub queues: Vec<spin::mutex::Mutex<VecDeque<usize>, spin::relax::Spin>>,
}

impl View for PercpuEvents {
    type V = Seq<Seq<usize>>;

    open spec fn view(&self) -> Seq<Seq<usize>> {
        Seq::new(self.queues@.len(), |cpu: int| locked_events(self.queues@[cpu]))
    }
}

/// A queue after an event was added.  A shutdown supersedes whatever came before
/// it: a pCPU that shuts down handles nothing more.
pub open spec fn event_added(queue: Seq<usize>, event: usize) -> Seq<usize> {
    if event == IPI_EVENT_SHUTDOWN {
        seq![event]
    } else {
        queue.push(event)
    }
}

/// All queues after an event was added to one of them.
pub open spec fn events_with(queues: Seq<Seq<usize>>, cpu: usize, event: usize) -> Seq<Seq<usize>> {
    if cpu < queues.len() {
        queues.update(cpu as int, event_added(queues[cpu as int], event))
    } else {
        queues
    }
}

/// All queues after the oldest event was taken off one of them.
pub open spec fn events_after_fetch(queues: Seq<Seq<usize>>, cpu: usize) -> Seq<Seq<usize>> {
    if cpu < queues.len() && queues[cpu as int].len() > 0 {
        queues.update(
            cpu as int,
            queues[cpu as int].subrange(1, queues[cpu as int].len() as int),
        )
    } else {
        queues
    }
}

/// The oldest event of a pCPU.
pub open spec fn event_at_front(queues: Seq<Seq<usize>>, cpu: usize) -> Option<usize> {
    if cpu < queues.len() && queues[cpu as int].len() > 0 {
        Some(queues[cpu as int][0])
    } else {
        None
    }
}

impl PercpuEvents {
    /// Empty queues for `cpus` pCPUs.
    pub fn new(cpus: usize) -> (res: Self)
        ensures
            res@ == Seq::new(cpus as nat, |cpu: int| Seq::<usize>::empty()),
    {
        let mut queues: Vec<spin::mutex::Mutex<VecDeque<usize>, spin::relax::Spin>> = Vec::new();
        let mut i: usize = 0;
        while i < cpus
            invariant
                i <= cpus,
                queues@.len() == i,
                forall|k: int| 0 <= k < i ==> locked_events(#[trigger] queues@[k]) == Seq::<
                    usize,
                >::empty(),
            decreases cpus - i,
        {
            queues.push(new_queue());
            i = i + 1;
        }
        PercpuEvents { queues }
    }

    /// The number of queues.
    pub fn len(&self) -> (res: usize)
        ensures
            res == self@.len(),
    {
        self.queues.len()
    }

    /// The queue of a pCPU.
    fn queue(&mut self, cpu: usize) -> (res: &mut VecDeque<usize>)
        requires
            cpu < old(self)@.len(),
        ensures
            res@ == old(self)@[cpu as int],
            final(self)@ == old(self)@.update(cpu as int, final(res)@),
    {
        queue_mut(&mut self.queues[cpu])
    }
}

/// Adds an event to the queue of a pCPU.  Returns `None` if there is no such pCPU.
pub fn add_event(events: &mut PercpuEvents, cpu: usize, event_id: usize) -> (res: Option<()>)
    ensures
        res is Some <==> cpu < old(events)@.len(),
        final(events)@ == events_with(old(events)@, cpu, event_id),
{
    if cpu >= events.len() {
        return None;
    }
    let ghost before = events@;
    let queue = events.queue(cpu);
    if event_id == IPI_EVENT_SHUTDOWN {
        queue.clear();
    }
    queue.push_back(event_id);
    assert(queue@ =~= event_added(before[cpu as int], event_id));
    Some(())
}

/// Takes the oldest event off the queue of a pCPU.
pub fn fetch_event(events: &mut PercpuEvents, cpu: usize) -> (res: Option<usize>)
    ensures
        res == event_at_front(old(events)@, cpu),
        final(events)@ == events_after_fetch(old(events)@, cpu),
{
    if cpu >= events.len() {
        return None;
    }
    let res = events.queue(cpu).pop_front();
    assert(events@ =~= events_after_fetch(old(events)@, cpu));
    res
}

/// The events that wait for a pCPU, oldest first.
pub fn dump_cpu_events(events: &mut PercpuEvents, cpu: usize) -> (res: Vec<usize>)
    ensures
        res@ == (if cpu < old(events)@.len() {
            old(events)@[cpu as int]
        } else {
            Seq::empty()
        }),
        final(events)@ == old(events)@,
{
    let mut out: Vec<usize> = Vec::new();
    if cpu < events.len() {
        let ghost before = events@;
        let queue = events.queue(cpu);
        let mut i: usize = 0;
        while i < queue.len()
            invariant
                i <= queue@.len(),
                queue@ == before[cpu as int],
                out@ == queue@.subrange(0, i as int),
            decreases queue@.len() - i,
        {
            out.push(queue[i]);
            i = i + 1;
            assert(out@ =~= queue@.subrange(0, i as int));
        }
        assert(out@ =~= before[cpu as int]);
    }
    out
}

/// The pCPUs that have events waiting, with those events, oldest first.
pub fn dump_events(events: &mut PercpuEvents) -> (res: Vec<(usize, Vec<usize>)>)
    ensures
        final(events)@ == old(events)@,
        forall|i: int|
            0 <= i < res@.len() ==> {
                &&& (#[trigger] res@[i]).0 < old(events)@.len()
                &&& res@[i].1@ == old(events)@[res@[i].0 as int]
                &&& res@[i].1@.len() > 0
            },
        forall|i: int, j: int| 0 <= i < j < res@.len() ==> (#[trigger] res@[i]).0 < (#[trigger] res@[j]).0,
        forall|cpu: int|
            0 <= cpu < old(events)@.len() && (#[trigger] old(events)@[cpu]).len() > 0 ==> exists|i: int|
                0 <= i < res@.len() && (#[trigger] res@[i]).0 == cpu,
{
    let mut out: Vec<(usize, Vec<usize>)> = Vec::new();
    let mut cpu: usize = 0;
    let n: usize = events.len();
    while cpu < n
        invariant
            cpu <= n,
            n == old(events)@.len(),
            events@ == old(events)@,
            forall|i: int|
                0 <= i < out@.len() ==> {
                    &&& (#[trigger] out@[i]).0 < cpu
                    &&& out@[i].1@ == old(events)@[out@[i].0 as int]
                    &&& out@[i].1@.len() > 0
                },
            forall|i: int, j: int|
                0 <= i < j < out@.len() ==> (#[trigger] out@[i]).0 < (#[trigger] out@[j]).0,
            forall|c: int|
                0 <= c < cpu && (#[trigger] old(events)@[c]).len() > 0 ==> exists|i: int|
                    0 <= i < out@.len() && (#[trigger] out@[i]).0 == c,
        decreases n - cpu,
    {
        let waiting: Vec<usize> = dump_cpu_events(events, cpu);
        let ghost before = out@;
        if waiting.len() > 0 {
            out.push((cpu, waiting));
            assert(out@[before.len() as int].0 == cpu);
        }
        proof {
            assert forall|c: int|
                0 <= c < cpu + 1 && (#[trigger] old(events)@[c]).len() > 0 implies exists|i: int|
                0 <= i < out@.len() && (#[trigger] out@[i]).0 == c by {
                if c < cpu {
                    let i = choose|i: int| 0 <= i < before.len() && (#[trigger] before[i]).0 == c;
                    assert(out@[i].0 == c);
                }
            }
        }
        cpu = cpu + 1;
    }
    out
}

/// Drops the events that wait for a pCPU.
pub fn clear_events(events: &mut PercpuEvents, cpu: usize)
    ensures
        final(events)@ == (if cpu < old(events)@.len() {
            old(events)@.update(cpu as int, Seq::empty())
        } else {
            old(events)@
        }),
{
    if cpu < events.len() {
        events.queue(cpu).clear();
    }
}

/// Sends an event to a pCPU: queues it there and raises an SGI.
pub fn send_event(
    hv: &mut Hypervisor,
    hw: &mut Hardware,
    cpu_id: usize,
    ipi_int_id: usize,
    event_id: usize,
)
    requires
        old(hv)@.wf(),
    ensures
        (Sys { hv: final(hv)@, hw: final(hw)@ }) == (Sys { hv: old(hv)@, hw: old(hw)@ }).sent(
            cpu_id,
            ipi_int_id,
            event_id,
        ),
        final(hv)@.wf(),
        final(hv)@.cpus.len() == old(hv)@.cpus.len(),
{
    let added: Option<()> = add_event(hv.events_mut(), cpu_id, event_id);
    hw.push(Op::RaiseSgi { cpu: cpu_id, sgi: ipi_int_id });
    proof {
        crate::hypervisor::lemma_wf_events(old(hv)@, events_with(old(hv)@.events, cpu_id, event_id));
    }
}

// ---------------------------------------------------------------------------
// Handling
// ---------------------------------------------------------------------------

/// How handling the events of a pCPU ended.
#[derive(Debug, Clone, Copy, PartialEq, Eq, Structural)]
pub enum EventOutcome {
    /// All events were handled; `handled` says whether any was meant for the
    /// hypervisor.
    Done { handled: bool },
    /// The pCPU starts its zone's guest.
    Run,
    /// The pCPU goes idle.
    Idle,
}

/// What one event asks for beyond the change of state.
#[derive(Debug, Clone, Copy, PartialEq, Eq, Structural)]
pub enum EventStep {
    /// Go on with the next event; this one was for the hypervisor.
    Handled,
    /// Go on with the next event; this one is unknown.
    Ignored,
    Run,
    Idle,
}

impl HvView {
    /// A pCPU was told to schedule: it meets the requests to wake vCPUs, wakes those
    /// that have something pending, and schedules if any became ready.
    pub open spec fn resched_handled(self, cpu: usize) -> HvView {
        let met = self.wake_ids_drained(cpu);
        let asked = if self.wake_ids_working(cpu) > 0 {
            met.resched(cpu)
        } else {
            met
        };
        asked.pending_checked(cpu)
    }

    /// A pCPU forgets all its vCPUs and is off.
    pub open spec fn shut_down(self, cpu: usize) -> HvView {
        let pc = self.cpus[cpu as int];
        self.with_cpu(
            cpu,
            PerCpuView {
                sched: pc.sched.cleared(),
                current_vcpu: None,
                power_on: false,
                ..pc
            },
        )
    }
}

impl HardwareView {
    /// The guest's timers are off, so that none of them interrupts a pCPU without a
    /// guest.
    pub open spec fn timers_cleared(self) -> HardwareView {
        HardwareView {
            el1: El1SysRegs {
                cntv_ctl_el0: 0,
                cntv_cval_el0: 0,
                cntvoff_el2: 0,
                cntp_ctl_el0: 0,
                cntp_cval_el0: 0,
                ..self.el1
            },
            ..self
        }
    }
}

impl Sys {
    /// One event was handled.
    pub open spec fn event_handled(self, cpu: usize, event: usize) -> (Sys, EventStep) {
        if event == IPI_EVENT_WAKEUP {
            (self, EventStep::Run)
        } else if event == IPI_EVENT_SHUTDOWN {
            (self, EventStep::Idle)
        } else if event == IPI_EVENT_VIRTIO_INJECT_IRQ {
            (Sys { hw: self.hw.op(Op::HandleVirtioIrq), ..self }, EventStep::Handled)
        } else if event == IPI_EVENT_WAKEUP_VIRTIO_DEVICE {
            (
                self.routed(cpu, self.hv.board.irq_wakeup_virtio_device, false),
                EventStep::Handled,
            )
        } else if event == IPI_EVENT_ZONE_SHUTDOWN {
            (
                Sys { hv: self.hv.shut_down(cpu), hw: self.hw.timers_cleared() },
                EventStep::Idle,
            )
        } else if event == IPI_EVENT_RESCHED {
            (Sys { hv: self.hv.resched_handled(cpu), ..self }, EventStep::Handled)
        } else if event == IPI_EVENT_INCOMING_VCPU {
            (
                Sys { hv: self.hv.incoming_drained(cpu).resched(cpu), ..self },
                EventStep::Handled,
            )
        } else if event == IPI_EVENT_CLEAR_INJECT_IRQ || event == IPI_EVENT_UPDATE_HART_LINE
            || event == IPI_EVENT_SEND_IPI {
            (Sys { hw: self.hw.op(Op::ArchEvent { event }), ..self }, EventStep::Handled)
        } else {
            (self, EventStep::Ignored)
        }
    }

    /// The oldest event of a pCPU was taken off its queue.
    pub open spec fn event_fetched(self, cpu: usize) -> Sys {
        Sys {
            hv: HvView { events: events_after_fetch(self.hv.events, cpu), ..self.hv },
            ..self
        }
    }

    /// The events of a pCPU were handled, oldest first, until none was left or the
    /// pCPU was sent elsewhere.
    pub open spec fn events_checked(self, cpu: usize, handled: bool) -> (Sys, EventOutcome)
        decreases self.hv.events[cpu as int].len(),
        when cpu < self.hv.events.len()
    {
        match event_at_front(self.hv.events, cpu) {
            None => (self, EventOutcome::Done { handled }),
            Some(event) => {
                let (next, step) = self.event_fetched(cpu).event_handled(cpu, event);
                proof {
                    lemma_event_keeps_queue(self.event_fetched(cpu), cpu, event);
                }
                match step {
                    EventStep::Run => (next, EventOutcome::Run),
                    EventStep::Idle => (next, EventOutcome::Idle),
                    EventStep::Handled => next.events_checked(cpu, true),
                    EventStep::Ignored => next.events_checked(cpu, handled),
                }
            },
        }
    }
}

/// Handling an event adds nothing to the queue of the pCPU that handles it.
pub proof fn lemma_event_keeps_queue(sys: Sys, cpu: usize, event: usize)
    requires
        cpu < sys.hv.events.len(),
    ensures
        sys.event_handled(cpu, event).0.hv.events[cpu as int] == sys.hv.events[cpu as int],
        sys.event_handled(cpu, event).0.hv.events.len() == sys.hv.events.len(),
{
    let hv = sys.hv;
    let pc = hv.cpus[cpu as int];
    lemma_arrived_keeps_events(
        hv.with_cpu(cpu, PerCpuView { incoming: Seq::empty(), ..pc }),
        cpu,
        pc.incoming,
    );
    lemma_wakes_keep_events(
        hv.with_cpu(cpu, PerCpuView { wakes: Seq::empty(), ..pc }),
        cpu,
        pc.wakes,
    );
}

/// vCPUs that join run queues leave the events alone.
proof fn lemma_arrived_keeps_events(hv: HvView, cpu: usize, arrivals: Seq<usize>)
    ensures
        hv.arrived(cpu, arrivals).events == hv.events,
    decreases arrivals.len(),
{
    if arrivals.len() > 0 {
        lemma_arrived_keeps_events(
            hv.moved_to_queue(cpu, arrivals[0]),
            cpu,
            arrivals.subrange(1, arrivals.len() as int),
        );
    }
}

/// Waking vCPUs leaves the events alone.
proof fn lemma_wakes_keep_events(hv: HvView, cpu: usize, wakes: Seq<PendingWake>)
    ensures
        hv.wakes_met(cpu, wakes).events == hv.events,
    decreases wakes.len(),
{
    if wakes.len() > 0 {
        lemma_wakes_keep_events(
            hv.wake_met(cpu, wakes[0]),
            cpu,
            wakes.subrange(1, wakes.len() as int),
        );
    }
}

/// Handles one event.
pub fn handle_event(hv: &mut Hypervisor, cpu: usize, hw: &mut Hardware, event: usize) -> (res:
    EventStep)
    requires
        old(hv)@.wf(),
        cpu < old(hv)@.cpus.len(),
    ensures
        (Sys { hv: final(hv)@, hw: final(hw)@ }, res) == (Sys {
            hv: old(hv)@,
            hw: old(hw)@,
        }).event_handled(cpu, event),
        final(hv)@.wf(),
        final(hv)@.cpus.len() == old(hv)@.cpus.len(),
{
    proof {
        crate::hypervisor::lemma_cpu_ok(hv@, cpu);
    }
    if event == IPI_EVENT_WAKEUP {
        EventStep::Run
    } else if event == IPI_EVENT_SHUTDOWN {
        EventStep::Idle
    } else if event == IPI_EVENT_VIRTIO_INJECT_IRQ {
        hw.push(Op::HandleVirtioIrq);
        EventStep::Handled
    } else if event == IPI_EVENT_WAKEUP_VIRTIO_DEVICE {
        let irq: usize = hv.board().irq_wakeup_virtio_device;
        let written: bool = schedule_inject_irq(hv, cpu, hw, irq, false);
        EventStep::Handled
    } else if event == IPI_EVENT_ZONE_SHUTDOWN {
        proof {
            crate::hypervisor::lemma_wf_cpu(
                hv@,
                cpu,
                hv@.shut_down(cpu).cpus[cpu as int],
            );
        }
        let this = hv.cpu_mut(cpu);
        this.scheduler.clear_all();
        this.current_vcpu = None;
        this.power_on = false;
        hw.regs.el1.cntv_ctl_el0 = 0;
        hw.regs.el1.cntv_cval_el0 = 0;
        hw.regs.el1.cntvoff_el2 = 0;
        hw.regs.el1.cntp_ctl_el0 = 0;
        hw.regs.el1.cntp_cval_el0 = 0;
        EventStep::Idle
    } else if event == IPI_EVENT_RESCHED {
        if drain_pending_wake_ids(hv, cpu) > 0 {
            hv.set_resched(cpu);
        }
        hv.check_pending(cpu);
        EventStep::Handled
    } else if event == IPI_EVENT_INCOMING_VCPU {
        drain_incoming_vcpus(hv, cpu);
        hv.set_resched(cpu);
        EventStep::Handled
    } else if event == IPI_EVENT_CLEAR_INJECT_IRQ || event == IPI_EVENT_UPDATE_HART_LINE || event
        == IPI_EVENT_SEND_IPI {
        hw.push(Op::ArchEvent { event });
        EventStep::Handled
    } else {
        EventStep::Ignored
    }
}

/// Handles the events of a pCPU, oldest first, until none is left or the pCPU is
/// sent elsewhere.
pub fn check_events(hv: &mut Hypervisor, cpu: usize, hw: &mut Hardware) -> (res: EventOutcome)
    requires
        old(hv)@.wf(),
        cpu < old(hv)@.cpus.len(),
    ensures
        (Sys { hv: final(hv)@, hw: final(hw)@ }, res) == (Sys {
            hv: old(hv)@,
            hw: old(hw)@,
        }).events_checked(cpu, false),
        final(hv)@.wf(),
        final(hv)@.cpus.len() == old(hv)@.cpus.len(),
{
    let ghost goal = (Sys { hv: hv@, hw: hw@ }).events_checked(cpu, false);
    let mut handled: bool = false;
    loop
        invariant
            hv@.wf(),
            cpu < hv@.cpus.len(),
            hv@.cpus.len() == old(hv)@.cpus.len(),
            goal == (Sys { hv: old(hv)@, hw: old(hw)@ }).events_checked(cpu, false),
            goal == (Sys { hv: hv@, hw: hw@ }).events_checked(cpu, handled),
        decreases hv@.events[cpu as int].len(),
    {
        let ghost here = Sys { hv: hv@, hw: hw@ };
        proof {
            crate::hypervisor::lemma_wf_sizes(hv@);
            crate::hypervisor::lemma_wf_events(
                hv@,
                events_after_fetch(hv@.events, cpu),
            );
        }
        let event: usize = match fetch_event(hv.events_mut(), cpu) {
            Some(event) => event,
            None => {
                return EventOutcome::Done { handled };
            },
        };
        assert((Sys { hv: hv@, hw: hw@ }) == here.event_fetched(cpu));
        proof {
            lemma_event_keeps_queue(here.event_fetched(cpu), cpu, event);
        }
        match handle_event(hv, cpu, hw, event) {
            EventStep::Run => {
                return EventOutcome::Run;
            },
            EventStep::Idle => {
                return EventOutcome::Idle;
            },
            EventStep::Handled => {
                handled = true;
            },
            EventStep::Ignored => {},
        }
    }
}

// ---------------------------------------------------------------------------
// Laws
// ---------------------------------------------------------------------------

/// Events are fetched in the order in which they were added: an event added to a
/// queue is fetched after everything that was there, and leaves the queues of the
/// other pCPUs alone.
pub proof fn lemma_events_fifo(queues: Seq<Seq<usize>>, cpu: usize, event: usize)
    requires
        cpu < queues.len(),
        event != IPI_EVENT_SHUTDOWN,
    ensures
        queues[cpu as int].len() > 0 ==> {
            &&& event_at_front(events_with(queues, cpu, event), cpu) == event_at_front(queues, cpu)
            &&& events_after_fetch(events_with(queues, cpu, event), cpu) == events_with(
                events_after_fetch(queues, cpu),
                cpu,
                event,
            )
        },
        queues[cpu as int].len() == 0 ==> {
            &&& event_at_front(events_with(queues, cpu, event), cpu) == Some(event)
            &&& events_after_fetch(events_with(queues, cpu, event), cpu) == queues
        },
        forall|other: int|
            0 <= other < queues.len() && other != cpu ==> #[trigger] events_with(
                queues,
                cpu,
                event,
            )[other] == queues[other],
{
    let added = events_with(queues, cpu, event);
    let queue = queues[cpu as int];
    if queue.len() > 0 {
        assert(queue.push(event).subrange(1, queue.len() as int + 1) =~= queue.subrange(
            1,
            queue.len() as int,
        ).push(event));
        assert(events_after_fetch(added, cpu) =~= events_with(
            events_after_fetch(queues, cpu),
            cpu,
            event,
        ));
    } else {
        assert(queue.push(event).subrange(1, 1) =~= queue);
        assert(events_after_fetch(added, cpu) =~= queues);
    }
}

/// A shutdown is the next event that its pCPU fetches, whatever waited before it,
/// and the last.
pub proof fn lemma_shutdown_supersedes(queues: Seq<Seq<usize>>, cpu: usize)
    requires
        cpu < queues.len(),
    ensures
        event_at_front(events_with(queues, cpu, IPI_EVENT_SHUTDOWN), cpu) == Some(
            IPI_EVENT_SHUTDOWN,
        ),
        events_after_fetch(events_with(queues, cpu, IPI_EVENT_SHUTDOWN), cpu)[cpu as int].len()
            == 0,
{
}

} // verus!

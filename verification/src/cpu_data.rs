//! Sets of pCPUs and the data kept for each pCPU.

use vstd::prelude::*;
use std::collections::VecDeque;
use crate::scheduler::{PerCpuScheduler, SchedView};

verus! {

/// The value of an address that is not set.
pub const INVALID_ADDRESS: u64 = u64::MAX;

/// The number of pCPUs that a [`CpuSet`] has room for.
pub const CPU_SET_BITS: usize = 64;

/// A set of pCPUs, one bit for each.
#[derive(Debug, Clone, Copy, PartialEq, Eq, Structural)]
pub struct CpuSet {
    pub bitmap: u64,
}

/// Setting one bit of a word leaves the others as they were.
proof fn lemma_set_bit(word: u64, bit: u64, other: u64)
    by (bit_vector)
    requires
        bit < 64,
        other < 64,
    ensures
        ((word | (1u64 << bit)) & (1u64 << other) != 0) <==> (bit == other || (word & (1u64 << other)
            != 0)),
{
}

/// No bit of zero is set.
proof fn lemma_zero_bit(other: u64)
    by (bit_vector)
    ensures
        0u64 & (1u64 << other) == 0,
{
}

/// The set without bits is empty.
pub proof fn lemma_empty_set(cpu: usize)
    ensures
        !(CpuSet { bitmap: 0 }).has(cpu),
{
    lemma_zero_bit(cpu as u64);
}

/// Setting a bit adds one pCPU.
pub proof fn lemma_added(set: CpuSet, cpu: usize, other: usize)
    requires
        cpu < CPU_SET_BITS,
    ensures
        (CpuSet { bitmap: set.bitmap | (1u64 << (cpu as u64)) }).has(other) <==> other == cpu
            || set.has(other),
{
    if other < CPU_SET_BITS {
        lemma_set_bit(set.bitmap, cpu as u64, other as u64);
    }
}

impl CpuSet {
    /// `cpu` is in the set.
    pub open spec fn has(self, cpu: usize) -> bool {
        cpu < CPU_SET_BITS && self.bitmap & (1u64 << (cpu as u64)) != 0
    }

    /// The members below `n`, in ascending order.
    pub open spec fn members_below(self, n: nat) -> Seq<usize>
        decreases n,
    {
        if n == 0 {
            Seq::empty()
        } else {
            let rest = self.members_below((n - 1) as nat);
            if self.has((n - 1) as usize) {
                rest.push((n - 1) as usize)
            } else {
                rest
            }
        }
    }

    /// All members, in ascending order.
    pub open spec fn members(self) -> Seq<usize> {
        self.members_below(CPU_SET_BITS as nat)
    }

    /// The members listed below `n` are those of the set, ascending, each once.
    pub proof fn lemma_members_below(self, n: nat)
        requires
            n <= CPU_SET_BITS,
        ensures
            forall|cpu: usize| #[trigger]
                self.members_below(n).contains(cpu) <==> self.has(cpu) && cpu < n,
            forall|i: int, j: int|
                0 <= i < j < self.members_below(n).len() ==> #[trigger] self.members_below(n)[i]
                    < #[trigger] self.members_below(n)[j],
        decreases n,
    {
        if n > 0 {
            let last = (n - 1) as usize;
            let rest = self.members_below((n - 1) as nat);
            self.lemma_members_below((n - 1) as nat);
            if self.has(last) {
                let all = rest.push(last);
                assert forall|cpu: usize| #[trigger] all.contains(cpu) <==> self.has(cpu) && cpu
                    < n by {
                    if all.contains(cpu) {
                        let i = choose|i: int| 0 <= i < all.len() && all[i] == cpu;
                        if i < rest.len() {
                            assert(rest[i] == cpu);
                            assert(rest.contains(cpu));
                        }
                    }
                    if self.has(cpu) && cpu < n {
                        if cpu == last {
                            assert(all[rest.len() as int] == cpu);
                        } else {
                            assert(rest.contains(cpu));
                            let i = choose|i: int| 0 <= i < rest.len() && rest[i] == cpu;
                            assert(all[i] == cpu);
                        }
                    }
                }
                assert forall|i: int, j: int| 0 <= i < j < all.len() implies #[trigger] all[i]
                    < #[trigger] all[j] by {
                    assert(rest.contains(rest[i]));
                }
            }
        }
    }

    /// There are no more members below `n` than `n`.
    pub proof fn lemma_members_count(self, n: nat)
        ensures
            self.members_below(n).len() <= n,
        decreases n,
    {
        if n > 0 {
            self.lemma_members_count((n - 1) as nat);
        }
    }

    /// A set that holds the pCPUs whose bits are set in `bitmap`.
    pub fn new(bitmap: u64) -> (res: Self)
        ensures
            res.bitmap == bitmap,
    {
        CpuSet { bitmap }
    }

    /// Adds a pCPU.
    pub fn set_bit(&mut self, cpu: usize)
        requires
            cpu < CPU_SET_BITS,
        ensures
            final(self).bitmap == old(self).bitmap | (1u64 << (cpu as u64)),
            forall|other: usize| #[trigger]
                final(self).has(other) <==> other == cpu || old(self).has(other),
    {
        self.bitmap = self.bitmap | (1u64 << (cpu as u64));
        proof {
            assert forall|other: usize| #[trigger]
                self.has(other) <==> other == cpu || old(self).has(other) by {
                lemma_added(*old(self), cpu, other);
            }
        }
    }

    /// Whether a pCPU is in the set.
    pub fn contains_cpu(&self, cpu: usize) -> (res: bool)
        ensures
            res == self.has(cpu),
    {
        cpu < CPU_SET_BITS && self.bitmap & (1u64 << (cpu as u64)) != 0
    }

    /// The members, in ascending order.
    pub fn to_vec(&self) -> (res: Vec<usize>)
        ensures
            res@ == self.members(),
    {
        let mut out: Vec<usize> = Vec::new();
        let mut cpu: usize = 0;
        while cpu < CPU_SET_BITS
            invariant
                cpu <= CPU_SET_BITS,
                out@ == self.members_below(cpu as nat),
            decreases CPU_SET_BITS - cpu,
        {
            if self.contains_cpu(cpu) {
                out.push(cpu);
            }
            cpu = cpu + 1;
        }
        out
    }

    /// The lowest member.
    pub fn first_cpu(&self) -> (res: Option<usize>)
        ensures
            match res {
                Some(cpu) => self.members().len() > 0 && cpu == self.members()[0],
                None => self.members().len() == 0,
            },
    {
        let all = self.to_vec();
        if all.len() > 0 {
            Some(all[0])
        } else {
            None
        }
    }
}

/// A request of another pCPU to wake a vCPU with an interrupt.
#[derive(Debug, Clone, Copy, PartialEq, Eq, Structural)]
pub struct PendingWake {
    pub vcpu_id: usize,
    pub irq_id: usize,
    pub is_hardware: bool,
}

/// What is kept for one pCPU.
pub struct PerCpu {
    pub id: usize,
    pub scheduler: PerCpuScheduler,
    /// The vCPU that the next return to a guest goes to.
    pub current_vcpu: Option<usize>,
    /// The zone that owns the pCPU.
    pub zone: Option<usize>,
    /// Another vCPU is to be selected before the next return to a guest.
    pub need_resched: bool,
    /// vCPUs that other pCPUs have sent here.
    pub incoming_vcpus: VecDeque<usize>,
    /// vCPUs that other pCPUs want to be woken.
    pub pending_wake_ids: VecDeque<PendingWake>,
    /// The pCPU starts its zone.
    pub boot_cpu: bool,
    /// Where the zone's guest starts.
    pub cpu_on_entry: u64,
    /// Where the guest finds its device tree.
    pub dtb_ipa: u64,
    pub power_on: bool,
    pub is_aarch32: bool,
}

/// The value of a [`PerCpu`].
#[verifier::ext_equal]
pub struct PerCpuView {
    pub id: usize,
    pub sched: SchedView,
    pub current_vcpu: Option<usize>,
    pub zone: Option<usize>,
    pub need_resched: bool,
    pub incoming: Seq<usize>,
    pub wakes: Seq<PendingWake>,
    pub boot_cpu: bool,
    pub cpu_on_entry: u64,
    pub dtb_ipa: u64,
    pub power_on: bool,
    pub is_aarch32: bool,
}

impl View for PerCpu {
    type V = PerCpuView;

    open spec fn view(&self) -> PerCpuView {
        PerCpuView {
            id: self.id,
            sched: self.scheduler@,
            current_vcpu: self.current_vcpu,
            zone: self.zone,
            need_resched: self.need_resched,
            incoming: self.incoming_vcpus@,
            wakes: self.pending_wake_ids@,
            boot_cpu: self.boot_cpu,
            cpu_on_entry: self.cpu_on_entry,
            dtb_ipa: self.dtb_ipa,
            power_on: self.power_on,
            is_aarch32: self.is_aarch32,
        }
    }
}

impl PerCpuView {
    /// A pCPU that runs nothing and belongs to no zone.
    pub open spec fn unused(id: usize) -> PerCpuView {
        PerCpuView {
            id,
            sched: SchedView::idle(),
            current_vcpu: None,
            zone: None,
            need_resched: false,
            incoming: Seq::empty(),
            wakes: Seq::empty(),
            boot_cpu: false,
            cpu_on_entry: INVALID_ADDRESS,
            dtb_ipa: INVALID_ADDRESS,
            power_on: false,
            is_aarch32: false,
        }
    }

    /// The same pCPU with another scheduler.
    pub open spec fn with_sched(self, sched: SchedView) -> PerCpuView {
        PerCpuView { sched, ..self }
    }
}

impl PerCpu {
    /// A pCPU that runs nothing and belongs to no zone.
    pub fn new(id: usize) -> (res: Self)
        ensures
            res@ == PerCpuView::unused(id),
    {
        PerCpu {
            id,
            scheduler: PerCpuScheduler::new(),
            current_vcpu: None,
            zone: None,
            need_resched: false,
            incoming_vcpus: VecDeque::new(),
            pending_wake_ids: VecDeque::new(),
            boot_cpu: false,
            cpu_on_entry: INVALID_ADDRESS,
            dtb_ipa: INVALID_ADDRESS,
            power_on: false,
            is_aarch32: false,
        }
    }
}

} // verus!

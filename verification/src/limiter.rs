//! The limit on the memory of a plugin instance.
use vstd::prelude::*;

use crate::stats;

verus! {

/// Watches the memory of a plugin instance and grants or refuses its growth.
pub struct MyLimiter {
    /// The largest size asked for since the last reset.
    pub max_allocation: usize,
    /// How large the memory may become.
    pub mem_limit_bytes: usize,
    /// The largest size asked for since the instance was made.
    pub wasm_mem_peak: usize,
    /// How often the memory was to grow since the last reset.
    pub grow_count: u64,
    /// By how many bytes it was to grow, all growths since the last reset
    /// together.
    pub grow_total_delta_bytes: u64,
}

/// By how much memory is to grow.
pub open spec fn growth(current: int, desired: int) -> int {
    if current < desired {
        desired - current
    } else {
        0
    }
}

impl MyLimiter {
    /// The limiter behind one more growth.
    pub open spec fn grown(self, current: int, desired: int) -> MyLimiter {
        MyLimiter {
            max_allocation: stats::larger(self.max_allocation as int, desired) as usize,
            wasm_mem_peak: stats::larger(self.wasm_mem_peak as int, desired) as usize,
            grow_count: (self.grow_count + 1) as u64,
            grow_total_delta_bytes: (self.grow_total_delta_bytes + growth(current, desired)) as u64,
            ..self
        }
    }

    /// The limiter behind a reset.
    pub open spec fn reset(self) -> MyLimiter {
        MyLimiter { max_allocation: 0, grow_count: 0, grow_total_delta_bytes: 0, ..self }
    }

    /// The limiter behind a number of events.
    pub open spec fn after(self, events: Seq<LimiterEvent>) -> MyLimiter
        decreases events.len(),
    {
        if events.len() == 0 {
            self
        } else {
            let before = self.after(events.drop_last());
            match events.last() {
                LimiterEvent::Growing { current, desired } => before.grown(
                    current as int,
                    desired as int,
                ),
                LimiterEvent::Reset => before.reset(),
            }
        }
    }

    /// Whether one more growth can be counted.
    pub open spec fn has_room(&self, current: int, desired: int) -> bool {
        &&& self.grow_count < u64::MAX
        &&& self.grow_total_delta_bytes + growth(current, desired) <= u64::MAX
    }

    /// A limiter that has seen no growth yet.
    pub fn new(mem_limit_bytes: usize) -> (res: MyLimiter)
        ensures
            res.mem_limit_bytes == mem_limit_bytes,
            res.max_allocation == 0,
            res.wasm_mem_peak == 0,
            res.grow_count == 0,
            res.grow_total_delta_bytes == 0,
    {
        MyLimiter {
            max_allocation: 0,
            mem_limit_bytes,
            wasm_mem_peak: 0,
            grow_count: 0,
            grow_total_delta_bytes: 0,
        }
    }

    /// Is told which stage an instance was used in. Nothing comes of it.
    pub fn print_max(&self, type_of_max: &str) {
        let _ = type_of_max;
    }

    /// Begins to count anew, for the next batch. The peak over the life of the
    /// instance stays.
    pub fn reset_batch_stats(&mut self)
        ensures
            *final(self) == old(self).reset(),
    {
        self.grow_count = 0;
        self.grow_total_delta_bytes = 0;
        self.max_allocation = 0;
    }

    /// Counts that memory is to grow, and says whether it may. A growth that is
    /// refused counts like any other.
    pub fn memory_growing(&mut self, current: usize, desired: usize, maximum: Option<usize>) -> (res:
        bool)
        requires
            old(self).has_room(current as int, desired as int),
        ensures
            res == (desired <= old(self).mem_limit_bytes),
            *final(self) == old(self).grown(current as int, desired as int),
    {
        let _ = maximum;
        if desired > self.wasm_mem_peak {
            self.wasm_mem_peak = desired;
        }
        if desired > self.max_allocation {
            self.max_allocation = desired;
        }
        self.grow_count += 1;
        self.grow_total_delta_bytes += desired.saturating_sub(current) as u64;
        desired <= self.mem_limit_bytes
    }

    /// Whether one more growth can be counted.
    pub fn can_count(&self, current: usize, desired: usize) -> (res: bool)
        ensures
            res == self.has_room(current as int, desired as int),
    {
        self.grow_count < u64::MAX && self.grow_total_delta_bytes.checked_add(
            desired.saturating_sub(current) as u64,
        ).is_some()
    }

    /// Says whether a table may grow, which is always so.
    pub fn table_growing(&mut self, current: usize, desired: usize, maximum: Option<usize>) -> (res:
        bool)
        ensures
            res,
            *final(self) == *old(self),
    {
        let _ = (current, desired, maximum);
        true
    }
}

/// What happens to a limiter.
#[derive(Clone, Copy, Debug, PartialEq, Eq, Structural)]
pub enum LimiterEvent {
    Growing { current: usize, desired: usize },
    Reset,
}

/// Whatever grows and however often the counts are reset, the peak is the
/// largest size that was ever asked for, and the limit stays what it was.
pub proof fn law_peak_outlives_resets(start: MyLimiter, events: Seq<LimiterEvent>)
    ensures
        forall|i: int|
            0 <= i < events.len() && (#[trigger] events[i]) is Growing ==> events[i]->desired
                <= start.after(events).wasm_mem_peak,
        start.wasm_mem_peak <= start.after(events).wasm_mem_peak,
        start.after(events).wasm_mem_peak == start.wasm_mem_peak || exists|i: int|
            0 <= i < events.len() && (#[trigger] events[i]) is Growing && events[i]->desired
                == start.after(events).wasm_mem_peak,
        start.after(events).mem_limit_bytes == start.mem_limit_bytes,
    decreases events.len(),
{
    if events.len() > 0 {
        let before = events.drop_last();
        law_peak_outlives_resets(start, before);
        assert(forall|i: int| 0 <= i < before.len() ==> before[i] == events[i]);
        assert(events[events.len() - 1] == events.last());
        let peak = start.after(events).wasm_mem_peak;
        if start.after(before).wasm_mem_peak == peak && peak != start.wasm_mem_peak {
            let i = choose|i: int|
                0 <= i < before.len() && (#[trigger] before[i]) is Growing && before[i]->desired
                    == peak;
            assert(events[i] == before[i]);
        }
    }
}

/// The growths since the last reset among a number of events, from the first on:
/// the size and the size asked for.
pub open spec fn growths_since_reset(events: Seq<LimiterEvent>) -> Seq<(usize, usize)>
    decreases events.len(),
{
    if events.len() == 0 {
        Seq::empty()
    } else {
        match events.last() {
            LimiterEvent::Growing { current, desired } => growths_since_reset(
                events.drop_last(),
            ).push((current, desired)),
            LimiterEvent::Reset => Seq::empty(),
        }
    }
}

/// By how much memory was to grow at each of a number of growths.
pub open spec fn deltas(growths: Seq<(usize, usize)>) -> Seq<int> {
    Seq::new(growths.len(), |i: int| growth(growths[i].0 as int, growths[i].1 as int))
}

/// The size asked for at each of a number of growths.
pub open spec fn sizes(growths: Seq<(usize, usize)>) -> Seq<int> {
    Seq::new(growths.len(), |i: int| growths[i].1 as int)
}

/// Where they can be held, the counts are how many growths there were since the
/// last reset, granted or not, by how much memory was to grow at all of them
/// together, and the largest size that was asked for among them.
pub proof fn law_counts_are_since_reset(start: MyLimiter, events: Seq<LimiterEvent>)
    requires
        start.grow_count == 0,
        start.grow_total_delta_bytes == 0,
        start.max_allocation == 0,
        growths_since_reset(events).len() <= u64::MAX,
        stats::sum(deltas(growths_since_reset(events))) <= u64::MAX,
    ensures
        start.after(events).grow_count == growths_since_reset(events).len(),
        start.after(events).grow_total_delta_bytes == stats::sum(
            deltas(growths_since_reset(events)),
        ),
        start.after(events).max_allocation == stats::peak(sizes(growths_since_reset(events))),
    decreases events.len(),
{
    let growths = growths_since_reset(events);
    if growths.len() == 0 {
        assert(deltas(growths) =~= Seq::empty());
        assert(sizes(growths) =~= Seq::empty());
    } else {
        let before = growths_since_reset(events.drop_last());
        assert(growths.drop_last() =~= before);
        assert(deltas(growths).drop_last() =~= deltas(before));
        assert(sizes(growths).drop_last() =~= sizes(before));
        law_counts_are_since_reset(start, events.drop_last());
    }
}

/// Memory that is to grow is counted by what is added to it, and by nothing where
/// it is not to become larger.
pub proof fn law_growth_is_what_is_added(current: int, desired: int)
    ensures
        current <= desired ==> current + growth(current, desired) == desired,
        desired <= current ==> growth(current, desired) == 0,
{
}

/// One more growth can be counted exactly where the counts behind it can be held.
pub proof fn law_room_for_a_growth(l: MyLimiter, current: usize, desired: usize, n: u64, sum: u64)
    requires
        n == l.grow_count + 1,
        sum - l.grow_total_delta_bytes == (if current < desired {
            desired - current
        } else {
            0
        }),
    ensures
        l.has_room(current as int, desired as int),
        l.grown(current as int, desired as int).grow_count == n,
        l.grown(current as int, desired as int).grow_total_delta_bytes == sum,
        l.grown(current as int, desired as int).mem_limit_bytes == l.mem_limit_bytes,
{
}

} // verus!

//! What each stage counts, batch by batch, and how counts are added up.
use vstd::prelude::*;

verus! {

/// The longest span of time that is counted, in nanoseconds: the largest
/// number of whole seconds in 64 bits, and the largest fraction of a second.
pub const MAX_ELAPSED_NS: u128 = 18446744073709551615999999999;

/// The larger of two numbers.
pub open spec fn larger(a: int, b: int) -> int {
    if a < b {
        b
    } else {
        a
    }
}

/// The sum of a list of numbers.
pub open spec fn sum(s: Seq<int>) -> int
    decreases s.len(),
{
    if s.len() == 0 {
        0
    } else {
        sum(s.drop_last()) + s.last()
    }
}

/// The largest of a list of numbers, and 0 where there is none.
pub open spec fn peak(s: Seq<int>) -> int
    decreases s.len(),
{
    if s.len() == 0 {
        0
    } else {
        larger(peak(s.drop_last()), s.last())
    }
}

/// The parts of one parse call's time, found by comparison with a parser that
/// does nothing.
#[derive(Clone, Copy, Debug, PartialEq, Eq, Structural)]
pub struct ParseDiffTiming {
    /// The time of the call of the parser that does nothing.
    pub noop_elapsed_ns: u64,
    /// The time that this parser itself reports.
    pub noop_component_ns: u64,
    /// The time to copy the input into the plugin.
    pub copy_in_ns: u64,
    /// The time that the real parser reports.
    pub guest_ns: u64,
    /// The time to copy the result out of the plugin.
    pub copy_out_ns: u64,
}

impl Default for ParseDiffTiming {
    fn default() -> (res: ParseDiffTiming)
        ensures
            res.noop_elapsed_ns == 0,
            res.noop_component_ns == 0,
            res.copy_in_ns == 0,
            res.guest_ns == 0,
            res.copy_out_ns == 0,
    {
        ParseDiffTiming {
            noop_elapsed_ns: 0,
            noop_component_ns: 0,
            copy_in_ns: 0,
            guest_ns: 0,
            copy_out_ns: 0,
        }
    }
}

/// What the parse stage has done.
#[derive(Clone, Copy, Debug, PartialEq, Eq, Structural)]
pub struct ParseStats {
    /// Batches parsed.
    pub total_batches: u64,
    /// Lines taken in.
    pub total_input_lines: u64,
    /// Bytes taken in.
    pub total_input_bytes: u64,
    /// Entries given out.
    pub total_output_entries: u64,
    /// Nanoseconds spent in parse calls.
    pub total_elapsed: u128,
    /// The largest usage that a plugin reported for one batch.
    pub go_heap_peak_max: u64,
    /// The largest linear memory of a plugin, in bytes.
    pub wasm_mem_peak_max: usize,
    /// How often a plugin asked for more memory.
    pub total_grow_count: u64,
    /// The bytes that it asked for in all.
    pub total_grow_delta_bytes: u64,
    /// Nanoseconds that plugins report of their own work.
    pub total_component_ns: u64,
    /// Batches that were compared with a parser that does nothing.
    pub total_diff_batches: u64,
    /// Nanoseconds spent in calls of that parser.
    pub total_noop_elapsed_ns: u64,
    /// Nanoseconds that it reports of its own work.
    pub total_noop_component_ns: u64,
    /// Nanoseconds spent on copying input into plugins.
    pub total_copy_in_ns: u64,
    /// Nanoseconds spent on copying results out of plugins.
    pub total_copy_out_ns: u64,
}

impl ParseStats {
    /// Nothing counted yet.
    pub open spec fn zero() -> ParseStats {
        ParseStats {
            total_batches: 0,
            total_input_lines: 0,
            total_input_bytes: 0,
            total_output_entries: 0,
            total_elapsed: 0,
            go_heap_peak_max: 0,
            wasm_mem_peak_max: 0,
            total_grow_count: 0,
            total_grow_delta_bytes: 0,
            total_component_ns: 0,
            total_diff_batches: 0,
            total_noop_elapsed_ns: 0,
            total_noop_component_ns: 0,
            total_copy_in_ns: 0,
            total_copy_out_ns: 0,
        }
    }

    /// The counts of both: sums, and the larger of two peaks.
    pub open spec fn plus(self, other: ParseStats) -> ParseStats {
        ParseStats {
            total_batches: (self.total_batches + other.total_batches) as u64,
            total_input_lines: (self.total_input_lines + other.total_input_lines) as u64,
            total_input_bytes: (self.total_input_bytes + other.total_input_bytes) as u64,
            total_output_entries: (self.total_output_entries + other.total_output_entries) as u64,
            total_elapsed: (self.total_elapsed + other.total_elapsed) as u128,
            go_heap_peak_max: larger(self.go_heap_peak_max as int, other.go_heap_peak_max as int) as u64,
            wasm_mem_peak_max: larger(self.wasm_mem_peak_max as int, other.wasm_mem_peak_max as int) as usize,
            total_grow_count: (self.total_grow_count + other.total_grow_count) as u64,
            total_grow_delta_bytes: (self.total_grow_delta_bytes + other.total_grow_delta_bytes) as u64,
            total_component_ns: (self.total_component_ns + other.total_component_ns) as u64,
            total_diff_batches: (self.total_diff_batches + other.total_diff_batches) as u64,
            total_noop_elapsed_ns: (self.total_noop_elapsed_ns + other.total_noop_elapsed_ns) as u64,
            total_noop_component_ns: (self.total_noop_component_ns + other.total_noop_component_ns) as u64,
            total_copy_in_ns: (self.total_copy_in_ns + other.total_copy_in_ns) as u64,
            total_copy_out_ns: (self.total_copy_out_ns + other.total_copy_out_ns) as u64,
        }
    }

    /// Whether the sums of both can be held.
    pub open spec fn has_room_for(self, other: ParseStats) -> bool {
        &&& self.total_batches + other.total_batches <= u64::MAX
        &&& self.total_input_lines + other.total_input_lines <= u64::MAX
        &&& self.total_input_bytes + other.total_input_bytes <= u64::MAX
        &&& self.total_output_entries + other.total_output_entries <= u64::MAX
        &&& self.total_elapsed + other.total_elapsed <= MAX_ELAPSED_NS
        &&& self.total_grow_count + other.total_grow_count <= u64::MAX
        &&& self.total_grow_delta_bytes + other.total_grow_delta_bytes <= u64::MAX
        &&& self.total_component_ns + other.total_component_ns <= u64::MAX
        &&& self.total_diff_batches + other.total_diff_batches <= u64::MAX
        &&& self.total_noop_elapsed_ns + other.total_noop_elapsed_ns <= u64::MAX
        &&& self.total_noop_component_ns + other.total_noop_component_ns <= u64::MAX
        &&& self.total_copy_in_ns + other.total_copy_in_ns <= u64::MAX
        &&& self.total_copy_out_ns + other.total_copy_out_ns <= u64::MAX
    }

    /// Whether the sums of both can be held.
    pub fn fits(&self, other: &ParseStats) -> (res: bool)
        ensures
            res == self.has_room_for(*other),
    {
        self.total_batches <= u64::MAX - other.total_batches
            && self.total_input_lines <= u64::MAX - other.total_input_lines
            && self.total_input_bytes <= u64::MAX - other.total_input_bytes
            && self.total_output_entries <= u64::MAX - other.total_output_entries
            && other.total_elapsed <= MAX_ELAPSED_NS
            && self.total_elapsed <= MAX_ELAPSED_NS - other.total_elapsed
            && self.total_grow_count <= u64::MAX - other.total_grow_count
            && self.total_grow_delta_bytes <= u64::MAX - other.total_grow_delta_bytes
            && self.total_component_ns <= u64::MAX - other.total_component_ns
            && self.total_diff_batches <= u64::MAX - other.total_diff_batches
            && self.total_noop_elapsed_ns <= u64::MAX - other.total_noop_elapsed_ns
            && self.total_noop_component_ns <= u64::MAX - other.total_noop_component_ns
            && self.total_copy_in_ns <= u64::MAX - other.total_copy_in_ns
            && self.total_copy_out_ns <= u64::MAX - other.total_copy_out_ns
    }

    /// Counts what `other` counted as well.
    pub fn merge(&mut self, other: &ParseStats)
        requires
            old(self).has_room_for(*other),
        ensures
            *final(self) == old(self).plus(*other),
    {
        self.total_batches += other.total_batches;
        self.total_input_lines += other.total_input_lines;
        self.total_input_bytes += other.total_input_bytes;
        self.total_output_entries += other.total_output_entries;
        self.total_elapsed += other.total_elapsed;
        if other.go_heap_peak_max > self.go_heap_peak_max {
            self.go_heap_peak_max = other.go_heap_peak_max;
        }
        if other.wasm_mem_peak_max > self.wasm_mem_peak_max {
            self.wasm_mem_peak_max = other.wasm_mem_peak_max;
        }
        self.total_grow_count += other.total_grow_count;
        self.total_grow_delta_bytes += other.total_grow_delta_bytes;
        self.total_component_ns += other.total_component_ns;
        self.total_diff_batches += other.total_diff_batches;
        self.total_noop_elapsed_ns += other.total_noop_elapsed_ns;
        self.total_noop_component_ns += other.total_noop_component_ns;
        self.total_copy_in_ns += other.total_copy_in_ns;
        self.total_copy_out_ns += other.total_copy_out_ns;
    }
}

impl Default for ParseStats {
    fn default() -> (res: ParseStats)
        ensures
            res == ParseStats::zero(),
    {
        ParseStats {
            total_batches: 0,
            total_input_lines: 0,
            total_input_bytes: 0,
            total_output_entries: 0,
            total_elapsed: 0,
            go_heap_peak_max: 0,
            wasm_mem_peak_max: 0,
            total_grow_count: 0,
            total_grow_delta_bytes: 0,
            total_component_ns: 0,
            total_diff_batches: 0,
            total_noop_elapsed_ns: 0,
            total_noop_component_ns: 0,
            total_copy_in_ns: 0,
            total_copy_out_ns: 0,
        }
    }
}

/// What the filter stage has done.
#[derive(Clone, Copy, Debug, PartialEq, Eq, Structural)]
pub struct FilterStats {
    /// Batches filtered.
    pub total_batches: u64,
    /// Entries taken in.
    pub total_input_entries: u64,
    /// Entries kept.
    pub total_kept_entries: u64,
    /// Entries dropped.
    pub total_dropped_entries: u64,
    /// Nanoseconds spent in filter calls.
    pub total_elapsed: u128,
    /// The largest linear memory of a plugin, in bytes.
    pub wasm_mem_peak_max: usize,
    /// Nanoseconds that plugins report of their own work.
    pub total_component_ns: u64,
}

impl FilterStats {
    /// Nothing counted yet.
    pub open spec fn zero() -> FilterStats {
        FilterStats {
            total_batches: 0,
            total_input_entries: 0,
            total_kept_entries: 0,
            total_dropped_entries: 0,
            total_elapsed: 0,
            wasm_mem_peak_max: 0,
            total_component_ns: 0,
        }
    }

    /// The counts of both: sums, and the larger of two peaks.
    pub open spec fn plus(self, other: FilterStats) -> FilterStats {
        FilterStats {
            total_batches: (self.total_batches + other.total_batches) as u64,
            total_input_entries: (self.total_input_entries + other.total_input_entries) as u64,
            total_kept_entries: (self.total_kept_entries + other.total_kept_entries) as u64,
            total_dropped_entries: (self.total_dropped_entries + other.total_dropped_entries) as u64,
            total_elapsed: (self.total_elapsed + other.total_elapsed) as u128,
            wasm_mem_peak_max: larger(self.wasm_mem_peak_max as int, other.wasm_mem_peak_max as int) as usize,
            total_component_ns: (self.total_component_ns + other.total_component_ns) as u64,
        }
    }

    /// Whether the sums of both can be held.
    pub open spec fn has_room_for(self, other: FilterStats) -> bool {
        &&& self.total_batches + other.total_batches <= u64::MAX
        &&& self.total_input_entries + other.total_input_entries <= u64::MAX
        &&& self.total_kept_entries + other.total_kept_entries <= u64::MAX
        &&& self.total_dropped_entries + other.total_dropped_entries <= u64::MAX
        &&& self.total_elapsed + other.total_elapsed <= MAX_ELAPSED_NS
        &&& self.total_component_ns + other.total_component_ns <= u64::MAX
    }

    /// Whether the sums of both can be held.
    pub fn fits(&self, other: &FilterStats) -> (res: bool)
        ensures
            res == self.has_room_for(*other),
    {
        self.total_batches <= u64::MAX - other.total_batches
            && self.total_input_entries <= u64::MAX - other.total_input_entries
            && self.total_kept_entries <= u64::MAX - other.total_kept_entries
            && self.total_dropped_entries <= u64::MAX - other.total_dropped_entries
            && other.total_elapsed <= MAX_ELAPSED_NS
            && self.total_elapsed <= MAX_ELAPSED_NS - other.total_elapsed
            && self.total_component_ns <= u64::MAX - other.total_component_ns
    }

    /// Counts what `other` counted as well.
    pub fn merge(&mut self, other: &FilterStats)
        requires
            old(self).has_room_for(*other),
        ensures
            *final(self) == old(self).plus(*other),
    {
        self.total_batches += other.total_batches;
        self.total_input_entries += other.total_input_entries;
        self.total_kept_entries += other.total_kept_entries;
        self.total_dropped_entries += other.total_dropped_entries;
        self.total_elapsed += other.total_elapsed;
        if other.wasm_mem_peak_max > self.wasm_mem_peak_max {
            self.wasm_mem_peak_max = other.wasm_mem_peak_max;
        }
        self.total_component_ns += other.total_component_ns;
    }
}

impl Default for FilterStats {
    fn default() -> (res: FilterStats)
        ensures
            res == FilterStats::zero(),
    {
        FilterStats {
            total_batches: 0,
            total_input_entries: 0,
            total_kept_entries: 0,
            total_dropped_entries: 0,
            total_elapsed: 0,
            wasm_mem_peak_max: 0,
            total_component_ns: 0,
        }
    }
}

/// What the format stage has done.
#[derive(Clone, Copy, Debug, PartialEq, Eq, Structural)]
pub struct FormatStats {
    /// Batches formatted.
    pub total_batches: u64,
    /// Entries taken in.
    pub total_input_entries: u64,
    /// Lines given out.
    pub total_output_lines: u64,
    /// Nanoseconds spent on formatting.
    pub total_elapsed: u128,
    /// The largest linear memory of a plugin, in bytes.
    pub wasm_mem_peak_max: usize,
    /// Nanoseconds that plugins report of their own work.
    pub total_component_ns: u64,
}

impl FormatStats {
    /// Nothing counted yet.
    pub open spec fn zero() -> FormatStats {
        FormatStats {
            total_batches: 0,
            total_input_entries: 0,
            total_output_lines: 0,
            total_elapsed: 0,
            wasm_mem_peak_max: 0,
            total_component_ns: 0,
        }
    }

    /// The counts of both: sums, and the larger of two peaks.
    pub open spec fn plus(self, other: FormatStats) -> FormatStats {
        FormatStats {
            total_batches: (self.total_batches + other.total_batches) as u64,
            total_input_entries: (self.total_input_entries + other.total_input_entries) as u64,
            total_output_lines: (self.total_output_lines + other.total_output_lines) as u64,
            total_elapsed: (self.total_elapsed + other.total_elapsed) as u128,
            wasm_mem_peak_max: larger(self.wasm_mem_peak_max as int, other.wasm_mem_peak_max as int) as usize,
            total_component_ns: (self.total_component_ns + other.total_component_ns) as u64,
        }
    }

    /// Whether the sums of both can be held.
    pub open spec fn has_room_for(self, other: FormatStats) -> bool {
        &&& self.total_batches + other.total_batches <= u64::MAX
        &&& self.total_input_entries + other.total_input_entries <= u64::MAX
        &&& self.total_output_lines + other.total_output_lines <= u64::MAX
        &&& self.total_elapsed + other.total_elapsed <= MAX_ELAPSED_NS
        &&& self.total_component_ns + other.total_component_ns <= u64::MAX
    }

    /// Whether the sums of both can be held.
    pub fn fits(&self, other: &FormatStats) -> (res: bool)
        ensures
            res == self.has_room_for(*other),
    {
        self.total_batches <= u64::MAX - other.total_batches
            && self.total_input_entries <= u64::MAX - other.total_input_entries
            && self.total_output_lines <= u64::MAX - other.total_output_lines
            && other.total_elapsed <= MAX_ELAPSED_NS
            && self.total_elapsed <= MAX_ELAPSED_NS - other.total_elapsed
            && self.total_component_ns <= u64::MAX - other.total_component_ns
    }

    /// Counts what `other` counted as well.
    pub fn merge(&mut self, other: &FormatStats)
        requires
            old(self).has_room_for(*other),
        ensures
            *final(self) == old(self).plus(*other),
    {
        self.total_batches += other.total_batches;
        self.total_input_entries += other.total_input_entries;
        self.total_output_lines += other.total_output_lines;
        self.total_elapsed += other.total_elapsed;
        if other.wasm_mem_peak_max > self.wasm_mem_peak_max {
            self.wasm_mem_peak_max = other.wasm_mem_peak_max;
        }
        self.total_component_ns += other.total_component_ns;
    }
}

impl Default for FormatStats {
    fn default() -> (res: FormatStats)
        ensures
            res == FormatStats::zero(),
    {
        FormatStats {
            total_batches: 0,
            total_input_entries: 0,
            total_output_lines: 0,
            total_elapsed: 0,
            wasm_mem_peak_max: 0,
            total_component_ns: 0,
        }
    }
}

/// What the transport stage has done.
#[derive(Clone, Copy, Debug, PartialEq, Eq, Structural)]
pub struct TransportStats {
    /// Batches sent in full.
    pub total_batches: u64,
    /// Lines sent.
    pub total_input_lines: u64,
    /// Bytes sent.
    pub total_input_bytes: u64,
    /// Bytes that the transport plugin itself reports.
    pub total_bytes_reported: u64,
    /// Nanoseconds spent on sending.
    pub total_elapsed: u128,
    /// The largest linear memory of a plugin, in bytes.
    pub wasm_mem_peak_max: usize,
}

impl TransportStats {
    /// Nothing counted yet.
    pub open spec fn zero() -> TransportStats {
        TransportStats {
            total_batches: 0,
            total_input_lines: 0,
            total_input_bytes: 0,
            total_bytes_reported: 0,
            total_elapsed: 0,
            wasm_mem_peak_max: 0,
        }
    }

    /// The counts of both: sums, and the larger of two peaks.
    pub open spec fn plus(self, other: TransportStats) -> TransportStats {
        TransportStats {
            total_batches: (self.total_batches + other.total_batches) as u64,
            total_input_lines: (self.total_input_lines + other.total_input_lines) as u64,
            total_input_bytes: (self.total_input_bytes + other.total_input_bytes) as u64,
            total_bytes_reported: (self.total_bytes_reported + other.total_bytes_reported) as u64,
            total_elapsed: (self.total_elapsed + other.total_elapsed) as u128,
            wasm_mem_peak_max: larger(self.wasm_mem_peak_max as int, other.wasm_mem_peak_max as int) as usize,
        }
    }

    /// Whether the sums of both can be held.
    pub open spec fn has_room_for(self, other: TransportStats) -> bool {
        &&& self.total_batches + other.total_batches <= u64::MAX
        &&& self.total_input_lines + other.total_input_lines <= u64::MAX
        &&& self.total_input_bytes + other.total_input_bytes <= u64::MAX
        &&& self.total_bytes_reported + other.total_bytes_reported <= u64::MAX
        &&& self.total_elapsed + other.total_elapsed <= MAX_ELAPSED_NS
    }

    /// Whether the sums of both can be held.
    pub fn fits(&self, other: &TransportStats) -> (res: bool)
        ensures
            res == self.has_room_for(*other),
    {
        self.total_batches <= u64::MAX - other.total_batches
            && self.total_input_lines <= u64::MAX - other.total_input_lines
            && self.total_input_bytes <= u64::MAX - other.total_input_bytes
            && self.total_bytes_reported <= u64::MAX - other.total_bytes_reported
            && other.total_elapsed <= MAX_ELAPSED_NS
            && self.total_elapsed <= MAX_ELAPSED_NS - other.total_elapsed
    }

    /// Counts what `other` counted as well.
    pub fn merge(&mut self, other: &TransportStats)
        requires
            old(self).has_room_for(*other),
        ensures
            *final(self) == old(self).plus(*other),
    {
        self.total_batches += other.total_batches;
        self.total_input_lines += other.total_input_lines;
        self.total_input_bytes += other.total_input_bytes;
        self.total_bytes_reported += other.total_bytes_reported;
        self.total_elapsed += other.total_elapsed;
        if other.wasm_mem_peak_max > self.wasm_mem_peak_max {
            self.wasm_mem_peak_max = other.wasm_mem_peak_max;
        }
    }
}

impl Default for TransportStats {
    fn default() -> (res: TransportStats)
        ensures
            res == TransportStats::zero(),
    {
        TransportStats {
            total_batches: 0,
            total_input_lines: 0,
            total_input_bytes: 0,
            total_bytes_reported: 0,
            total_elapsed: 0,
            wasm_mem_peak_max: 0,
        }
    }
}

/// The counts of several parse workers, added up in order.
pub open spec fn parse_total(s: Seq<ParseStats>) -> ParseStats
    decreases s.len(),
{
    if s.len() == 0 {
        ParseStats::zero()
    } else {
        parse_total(s.drop_last()).plus(s.last())
    }
}

/// Whether the counts of several parse workers can be added up.
pub open spec fn parse_summable(s: Seq<ParseStats>) -> bool
    decreases s.len(),
{
    s.len() > 0 ==> {
        &&& parse_summable(s.drop_last())
        &&& parse_total(s.drop_last()).has_room_for(s.last())
    }
}

/// The total over all parse workers holds the sum of each count and the
/// largest of each peak.
pub proof fn law_parse_total_is_sum(s: Seq<ParseStats>)
    requires
        parse_summable(s),
    ensures
        parse_total(s).total_batches == sum(s.map_values(|p: ParseStats| p.total_batches as int)),
        parse_total(s).total_input_lines == sum(s.map_values(|p: ParseStats| p.total_input_lines as int)),
        parse_total(s).total_input_bytes == sum(s.map_values(|p: ParseStats| p.total_input_bytes as int)),
        parse_total(s).total_output_entries == sum(s.map_values(|p: ParseStats| p.total_output_entries as int)),
        parse_total(s).total_elapsed == sum(s.map_values(|p: ParseStats| p.total_elapsed as int)),
        parse_total(s).go_heap_peak_max == peak(s.map_values(|p: ParseStats| p.go_heap_peak_max as int)),
        parse_total(s).wasm_mem_peak_max == peak(s.map_values(|p: ParseStats| p.wasm_mem_peak_max as int)),
        parse_total(s).total_grow_count == sum(s.map_values(|p: ParseStats| p.total_grow_count as int)),
        parse_total(s).total_grow_delta_bytes == sum(s.map_values(|p: ParseStats| p.total_grow_delta_bytes as int)),
        parse_total(s).total_component_ns == sum(s.map_values(|p: ParseStats| p.total_component_ns as int)),
        parse_total(s).total_diff_batches == sum(s.map_values(|p: ParseStats| p.total_diff_batches as int)),
        parse_total(s).total_noop_elapsed_ns == sum(s.map_values(|p: ParseStats| p.total_noop_elapsed_ns as int)),
        parse_total(s).total_noop_component_ns == sum(s.map_values(|p: ParseStats| p.total_noop_component_ns as int)),
        parse_total(s).total_copy_in_ns == sum(s.map_values(|p: ParseStats| p.total_copy_in_ns as int)),
        parse_total(s).total_copy_out_ns == sum(s.map_values(|p: ParseStats| p.total_copy_out_ns as int)),
    decreases s.len(),
{
    if s.len() > 0 {
        law_parse_total_is_sum(s.drop_last());
        assert(s.map_values(|p: ParseStats| p.total_batches as int).drop_last() =~= s.drop_last().map_values(
            |p: ParseStats| p.total_batches as int,
        ));
        assert(s.map_values(|p: ParseStats| p.total_input_lines as int).drop_last() =~= s.drop_last().map_values(
            |p: ParseStats| p.total_input_lines as int,
        ));
        assert(s.map_values(|p: ParseStats| p.total_input_bytes as int).drop_last() =~= s.drop_last().map_values(
            |p: ParseStats| p.total_input_bytes as int,
        ));
        assert(s.map_values(|p: ParseStats| p.total_output_entries as int).drop_last() =~= s.drop_last().map_values(
            |p: ParseStats| p.total_output_entries as int,
        ));
        assert(s.map_values(|p: ParseStats| p.total_elapsed as int).drop_last() =~= s.drop_last().map_values(
            |p: ParseStats| p.total_elapsed as int,
        ));
        assert(s.map_values(|p: ParseStats| p.go_heap_peak_max as int).drop_last() =~= s.drop_last().map_values(
            |p: ParseStats| p.go_heap_peak_max as int,
        ));
        assert(s.map_values(|p: ParseStats| p.wasm_mem_peak_max as int).drop_last() =~= s.drop_last().map_values(
            |p: ParseStats| p.wasm_mem_peak_max as int,
        ));
        assert(s.map_values(|p: ParseStats| p.total_grow_count as int).drop_last() =~= s.drop_last().map_values(
            |p: ParseStats| p.total_grow_count as int,
        ));
        assert(s.map_values(|p: ParseStats| p.total_grow_delta_bytes as int).drop_last() =~= s.drop_last().map_values(
            |p: ParseStats| p.total_grow_delta_bytes as int,
        ));
        assert(s.map_values(|p: ParseStats| p.total_component_ns as int).drop_last() =~= s.drop_last().map_values(
            |p: ParseStats| p.total_component_ns as int,
        ));
        assert(s.map_values(|p: ParseStats| p.total_diff_batches as int).drop_last() =~= s.drop_last().map_values(
            |p: ParseStats| p.total_diff_batches as int,
        ));
        assert(s.map_values(|p: ParseStats| p.total_noop_elapsed_ns as int).drop_last() =~= s.drop_last().map_values(
            |p: ParseStats| p.total_noop_elapsed_ns as int,
        ));
        assert(s.map_values(|p: ParseStats| p.total_noop_component_ns as int).drop_last() =~= s.drop_last().map_values(
            |p: ParseStats| p.total_noop_component_ns as int,
        ));
        assert(s.map_values(|p: ParseStats| p.total_copy_in_ns as int).drop_last() =~= s.drop_last().map_values(
            |p: ParseStats| p.total_copy_in_ns as int,
        ));
        assert(s.map_values(|p: ParseStats| p.total_copy_out_ns as int).drop_last() =~= s.drop_last().map_values(
            |p: ParseStats| p.total_copy_out_ns as int,
        ));
    }
}

/// The counts of several transport workers, added up in order.
pub open spec fn transport_total(s: Seq<TransportStats>) -> TransportStats
    decreases s.len(),
{
    if s.len() == 0 {
        TransportStats::zero()
    } else {
        transport_total(s.drop_last()).plus(s.last())
    }
}

/// Whether the counts of several transport workers can be added up.
pub open spec fn transport_summable(s: Seq<TransportStats>) -> bool
    decreases s.len(),
{
    s.len() > 0 ==> {
        &&& transport_summable(s.drop_last())
        &&& transport_total(s.drop_last()).has_room_for(s.last())
    }
}

/// The total over all transport workers holds the sum of each count and the
/// largest of each peak.
pub proof fn law_transport_total_is_sum(s: Seq<TransportStats>)
    requires
        transport_summable(s),
    ensures
        transport_total(s).total_batches == sum(s.map_values(|p: TransportStats| p.total_batches as int)),
        transport_total(s).total_input_lines == sum(s.map_values(|p: TransportStats| p.total_input_lines as int)),
        transport_total(s).total_input_bytes == sum(s.map_values(|p: TransportStats| p.total_input_bytes as int)),
        transport_total(s).total_bytes_reported == sum(s.map_values(|p: TransportStats| p.total_bytes_reported as int)),
        transport_total(s).total_elapsed == sum(s.map_values(|p: TransportStats| p.total_elapsed as int)),
        transport_total(s).wasm_mem_peak_max == peak(s.map_values(|p: TransportStats| p.wasm_mem_peak_max as int)),
    decreases s.len(),
{
    if s.len() > 0 {
        law_transport_total_is_sum(s.drop_last());
        assert(s.map_values(|p: TransportStats| p.total_batches as int).drop_last() =~= s.drop_last().map_values(
            |p: TransportStats| p.total_batches as int,
        ));
        assert(s.map_values(|p: TransportStats| p.total_input_lines as int).drop_last() =~= s.drop_last().map_values(
            |p: TransportStats| p.total_input_lines as int,
        ));
        assert(s.map_values(|p: TransportStats| p.total_input_bytes as int).drop_last() =~= s.drop_last().map_values(
            |p: TransportStats| p.total_input_bytes as int,
        ));
        assert(s.map_values(|p: TransportStats| p.total_bytes_reported as int).drop_last() =~= s.drop_last().map_values(
            |p: TransportStats| p.total_bytes_reported as int,
        ));
        assert(s.map_values(|p: TransportStats| p.total_elapsed as int).drop_last() =~= s.drop_last().map_values(
            |p: TransportStats| p.total_elapsed as int,
        ));
        assert(s.map_values(|p: TransportStats| p.wasm_mem_peak_max as int).drop_last() =~= s.drop_last().map_values(
            |p: TransportStats| p.wasm_mem_peak_max as int,
        ));
    }
}

/// The larger of two numbers is one of them, and neither is larger than it.
pub proof fn law_larger_is_the_larger(a: int, b: int)
    ensures
        larger(a, b) >= a,
        larger(a, b) >= b,
        larger(a, b) == a || larger(a, b) == b,
{
}

/// The sum of a list behind another is the sum of both, and that of one number
/// is the number.
pub proof fn law_sums_add_up(a: Seq<int>, b: Seq<int>, n: int)
    ensures
        sum(a + b) == sum(a) + sum(b),
        sum(seq![n]) == n,
    decreases b.len(),
{
    assert(seq![n].drop_last() =~= Seq::empty());
    reveal_with_fuel(sum, 2);
    if b.len() == 0 {
        assert(a + b =~= a);
    } else {
        assert((a + b).drop_last() =~= a + b.drop_last());
        law_sums_add_up(a, b.drop_last(), n);
    }
}

/// The largest of a list is no smaller than any number of it, and one of them
/// unless it is zero.
pub proof fn law_peak_is_the_largest(s: Seq<int>)
    ensures
        peak(s) >= 0,
        forall|i: int| 0 <= i < s.len() ==> #[trigger] s[i] <= peak(s),
        peak(s) == 0 || s.contains(peak(s)),
    decreases s.len(),
{
    if s.len() > 0 {
        let shorter = s.drop_last();
        law_peak_is_the_largest(shorter);
        assert forall|i: int| 0 <= i < s.len() implies #[trigger] s[i] <= peak(s) by {
            if i < shorter.len() {
                assert(shorter[i] == s[i]);
            }
        }
        if peak(s) != 0 {
            if peak(s) == s.last() {
                assert(s[s.len() - 1] == peak(s));
            } else {
                let i = choose|i: int| 0 <= i < shorter.len() && shorter[i] == peak(shorter);
                assert(s[i] == peak(s));
            }
        }
    }
}

/// What two filter stages counted, put together, is the sum of each count and
/// the larger of the peaks, and putting them together the other way round makes
/// no difference.
pub proof fn law_filter_counts_add_up(a: FilterStats, b: FilterStats)
    requires
        a.has_room_for(b),
    ensures
        a.plus(b).total_batches - b.total_batches == a.total_batches,
        a.plus(b).total_input_entries - b.total_input_entries == a.total_input_entries,
        a.plus(b).total_kept_entries - b.total_kept_entries == a.total_kept_entries,
        a.plus(b).total_dropped_entries - b.total_dropped_entries == a.total_dropped_entries,
        a.plus(b).total_elapsed - b.total_elapsed == a.total_elapsed,
        a.plus(b).total_component_ns - b.total_component_ns == a.total_component_ns,
        a.plus(b).wasm_mem_peak_max >= a.wasm_mem_peak_max,
        a.plus(b).wasm_mem_peak_max >= b.wasm_mem_peak_max,
        a.plus(b).wasm_mem_peak_max == a.wasm_mem_peak_max || a.plus(b).wasm_mem_peak_max
            == b.wasm_mem_peak_max,
        a.plus(b) == b.plus(a),
        b.has_room_for(a),
{
}

/// What two format stages counted, put together, is the sum of each count and
/// the larger of the peaks, and putting them together the other way round makes
/// no difference.
pub proof fn law_format_counts_add_up(a: FormatStats, b: FormatStats)
    requires
        a.has_room_for(b),
    ensures
        a.plus(b).total_batches - b.total_batches == a.total_batches,
        a.plus(b).total_input_entries - b.total_input_entries == a.total_input_entries,
        a.plus(b).total_output_lines - b.total_output_lines == a.total_output_lines,
        a.plus(b).total_elapsed - b.total_elapsed == a.total_elapsed,
        a.plus(b).total_component_ns - b.total_component_ns == a.total_component_ns,
        a.plus(b).wasm_mem_peak_max >= a.wasm_mem_peak_max,
        a.plus(b).wasm_mem_peak_max >= b.wasm_mem_peak_max,
        a.plus(b).wasm_mem_peak_max == a.wasm_mem_peak_max || a.plus(b).wasm_mem_peak_max
            == b.wasm_mem_peak_max,
        a.plus(b) == b.plus(a),
        b.has_room_for(a),
{
}

/// Where nothing was counted yet there is room for whatever is counted first,
/// and it is then all that is counted.
pub proof fn law_first_counts_are_all(
    p: ParseStats,
    fi: FilterStats,
    f: FormatStats,
    t: TransportStats,
)
    ensures
        p.total_elapsed <= MAX_ELAPSED_NS <==> ParseStats::zero().has_room_for(p),
        fi.total_elapsed <= MAX_ELAPSED_NS <==> FilterStats::zero().has_room_for(fi),
        f.total_elapsed <= MAX_ELAPSED_NS <==> FormatStats::zero().has_room_for(f),
        t.total_elapsed <= MAX_ELAPSED_NS <==> TransportStats::zero().has_room_for(t),
        ParseStats::zero().plus(p) == p,
        FilterStats::zero().plus(fi) == fi,
        FormatStats::zero().plus(f) == f,
        TransportStats::zero().plus(t) == t,
{
}

/// Where every sum of what two parse workers counted can be held there is room for it,
/// and the counts put together are those sums.
pub proof fn law_parse_sums_have_room(a: ParseStats, b: ParseStats, s: ParseStats)
    requires
        s.total_batches == a.total_batches + b.total_batches,
        s.total_input_lines == a.total_input_lines + b.total_input_lines,
        s.total_input_bytes == a.total_input_bytes + b.total_input_bytes,
        s.total_output_entries == a.total_output_entries + b.total_output_entries,
        s.total_elapsed == a.total_elapsed + b.total_elapsed,
        s.total_grow_count == a.total_grow_count + b.total_grow_count,
        s.total_grow_delta_bytes == a.total_grow_delta_bytes + b.total_grow_delta_bytes,
        s.total_component_ns == a.total_component_ns + b.total_component_ns,
        s.total_diff_batches == a.total_diff_batches + b.total_diff_batches,
        s.total_noop_elapsed_ns == a.total_noop_elapsed_ns + b.total_noop_elapsed_ns,
        s.total_noop_component_ns == a.total_noop_component_ns + b.total_noop_component_ns,
        s.total_copy_in_ns == a.total_copy_in_ns + b.total_copy_in_ns,
        s.total_copy_out_ns == a.total_copy_out_ns + b.total_copy_out_ns,
        s.total_elapsed <= MAX_ELAPSED_NS,
    ensures
        a.has_room_for(b),
        a.plus(b).total_batches == s.total_batches,
        a.plus(b).total_input_lines == s.total_input_lines,
        a.plus(b).total_input_bytes == s.total_input_bytes,
        a.plus(b).total_output_entries == s.total_output_entries,
        a.plus(b).total_elapsed == s.total_elapsed,
        a.plus(b).total_grow_count == s.total_grow_count,
        a.plus(b).total_grow_delta_bytes == s.total_grow_delta_bytes,
        a.plus(b).total_component_ns == s.total_component_ns,
        a.plus(b).total_diff_batches == s.total_diff_batches,
        a.plus(b).total_noop_elapsed_ns == s.total_noop_elapsed_ns,
        a.plus(b).total_noop_component_ns == s.total_noop_component_ns,
        a.plus(b).total_copy_in_ns == s.total_copy_in_ns,
        a.plus(b).total_copy_out_ns == s.total_copy_out_ns,
{
}

/// Where every sum of what two filter stages counted can be held there is room for it,
/// and the counts put together are those sums.
pub proof fn law_filter_sums_have_room(a: FilterStats, b: FilterStats, s: FilterStats)
    requires
        s.total_batches == a.total_batches + b.total_batches,
        s.total_input_entries == a.total_input_entries + b.total_input_entries,
        s.total_kept_entries == a.total_kept_entries + b.total_kept_entries,
        s.total_dropped_entries == a.total_dropped_entries + b.total_dropped_entries,
        s.total_elapsed == a.total_elapsed + b.total_elapsed,
        s.total_component_ns == a.total_component_ns + b.total_component_ns,
        s.total_elapsed <= MAX_ELAPSED_NS,
    ensures
        a.has_room_for(b),
        a.plus(b).total_batches == s.total_batches,
        a.plus(b).total_input_entries == s.total_input_entries,
        a.plus(b).total_kept_entries == s.total_kept_entries,
        a.plus(b).total_dropped_entries == s.total_dropped_entries,
        a.plus(b).total_elapsed == s.total_elapsed,
        a.plus(b).total_component_ns == s.total_component_ns,
{
}

/// Where every sum of what two format stages counted can be held there is room for it,
/// and the counts put together are those sums.
pub proof fn law_format_sums_have_room(a: FormatStats, b: FormatStats, s: FormatStats)
    requires
        s.total_batches == a.total_batches + b.total_batches,
        s.total_input_entries == a.total_input_entries + b.total_input_entries,
        s.total_output_lines == a.total_output_lines + b.total_output_lines,
        s.total_elapsed == a.total_elapsed + b.total_elapsed,
        s.total_component_ns == a.total_component_ns + b.total_component_ns,
        s.total_elapsed <= MAX_ELAPSED_NS,
    ensures
        a.has_room_for(b),
        a.plus(b).total_batches == s.total_batches,
        a.plus(b).total_input_entries == s.total_input_entries,
        a.plus(b).total_output_lines == s.total_output_lines,
        a.plus(b).total_elapsed == s.total_elapsed,
        a.plus(b).total_component_ns == s.total_component_ns,
{
}

/// Where every sum of what two transport workers counted can be held there is room for it,
/// and the counts put together are those sums.
pub proof fn law_transport_sums_have_room(a: TransportStats, b: TransportStats, s: TransportStats)
    requires
        s.total_batches == a.total_batches + b.total_batches,
        s.total_input_lines == a.total_input_lines + b.total_input_lines,
        s.total_input_bytes == a.total_input_bytes + b.total_input_bytes,
        s.total_bytes_reported == a.total_bytes_reported + b.total_bytes_reported,
        s.total_elapsed == a.total_elapsed + b.total_elapsed,
        s.total_elapsed <= MAX_ELAPSED_NS,
    ensures
        a.has_room_for(b),
        a.plus(b).total_batches == s.total_batches,
        a.plus(b).total_input_lines == s.total_input_lines,
        a.plus(b).total_input_bytes == s.total_input_bytes,
        a.plus(b).total_bytes_reported == s.total_bytes_reported,
        a.plus(b).total_elapsed == s.total_elapsed,
{
}

/// One worker more can be added up exactly where the others can and there is room
/// for what it counted.
pub proof fn law_one_worker_more(
    ps: Seq<ParseStats>,
    p: ParseStats,
    ts: Seq<TransportStats>,
    t: TransportStats,
)
    ensures
        parse_summable(ps.push(p)) <==> parse_summable(ps) && parse_total(ps).has_room_for(p),
        transport_summable(ts.push(t)) <==> transport_summable(ts) && transport_total(
            ts,
        ).has_room_for(t),
        parse_summable(Seq::empty()),
        transport_summable(Seq::empty()),
{
    assert(ps.push(p).drop_last() =~= ps);
    assert(ts.push(t).drop_last() =~= ts);
}

} // verus!

//! The transport stage: the lines of a batch are sent in chunks of a limited
//! number of bytes, one after the other, until one is refused.
use vstd::prelude::*;

use crate::bytes;
use crate::format_stage;
use crate::format_stage::FormattedBatch;
use crate::stats;
use crate::stats::TransportStats;

verus! {

/// Where the chunk ends to which `acc` bytes have been added before line `at`.
/// A line is added while the chunk has no byte yet or stays within `max`.
pub open spec fn chunk_stop(lines: Seq<Seq<u8>>, at: int, acc: int, max: int) -> int
    decreases lines.len() - at,
{
    if 0 <= at < lines.len() && (acc == 0 || acc + lines[at].len() <= max) {
        chunk_stop(lines, at + 1, acc + lines[at].len(), max)
    } else {
        at
    }
}

/// The bounds of the chunks in which lines are sent, from `start` on.
pub open spec fn send_chunks_from(lines: Seq<Seq<u8>>, start: int, max: int) -> Seq<(int, int)>
    decreases lines.len() - start,
{
    let end = chunk_stop(lines, start, 0, max);
    if 0 <= start < end <= lines.len() {
        seq![(start, end)] + send_chunks_from(lines, end, max)
    } else {
        Seq::empty()
    }
}

/// A run of lines that is sent in one call.
#[derive(Clone, Copy, Debug, PartialEq, Eq, Structural)]
pub struct SendChunk {
    /// The first line.
    pub start: usize,
    /// The line behind the last.
    pub end: usize,
    /// The length of the lines together.
    pub bytes: usize,
}

/// Whether a chunk is the one that is sent from line `start` on.
pub open spec fn is_chunk_at(c: SendChunk, lines: Seq<Seq<u8>>, start: int, max: int) -> bool {
    &&& c.start == start
    &&& c.end == chunk_stop(lines, start, 0, max)
    &&& c.bytes == bytes::total_len(lines.subrange(start, c.end as int))
}

/// A chunk takes at least one line, takes no line that is too much, and is over
/// the limit only with one line that has bytes.
pub proof fn lemma_chunk_stop(lines: Seq<Seq<u8>>, start: int, at: int, max: int)
    requires
        0 <= start <= at <= lines.len(),
        max >= 0,
    ensures
        ({
            let acc = bytes::total_len(lines.subrange(start, at)) as int;
            let end = chunk_stop(lines, at, acc, max);
            let bytes = bytes::total_len(lines.subrange(start, end));
            &&& at <= end <= lines.len()
            &&& at == start && start < lines.len() ==> start < end
            &&& end < lines.len() ==> bytes > 0 && bytes + lines[end].len() > max
            &&& (acc > max ==> forall|j: int|
                start <= j < at - 1 ==> (#[trigger] lines[j]).len() == 0) ==> (bytes > max
                ==> forall|j: int| start <= j < end - 1 ==> (#[trigger] lines[j]).len() == 0)
        }),
    decreases lines.len() - at,
{
    let acc = bytes::total_len(lines.subrange(start, at)) as int;
    if at < lines.len() && (acc == 0 || acc + lines[at].len() <= max) {
        assert(lines.subrange(start, at + 1).drop_last() =~= lines.subrange(start, at));
        lemma_chunk_stop(lines, start, at + 1, max);
        if acc == 0 {
            assert forall|j: int| start <= j < at implies (#[trigger] lines[j]).len() == 0 by {
                lemma_line_within(lines, start, at, j);
            }
        }
    }
}

proof fn lemma_line_within(lines: Seq<Seq<u8>>, start: int, at: int, j: int)
    requires
        0 <= start <= j < at <= lines.len(),
    ensures
        lines[j].len() <= bytes::total_len(lines.subrange(start, at)),
    decreases at,
{
    assert(lines.subrange(start, at).drop_last() =~= lines.subrange(start, at - 1));
    if j < at - 1 {
        lemma_line_within(lines, start, at - 1, j);
    }
}

proof fn lemma_send_chunks(lines: Seq<Seq<u8>>, start: int, max: int)
    requires
        0 <= start <= lines.len(),
        max >= 0,
    ensures
        format_stage::parts_joined(lines, send_chunks_from(lines, start, max)) == lines.subrange(
            start,
            lines.len() as int,
        ),
        forall|i: int|
            0 <= i < send_chunks_from(lines, start, max).len() ==> chunk_keeps_limit(
                lines,
                #[trigger] send_chunks_from(lines, start, max)[i],
                max,
            ),
    decreases lines.len() - start,
{
    let len = lines.len() as int;
    let bounds = send_chunks_from(lines, start, max);
    assert(lines.subrange(start, start) =~= Seq::empty());
    lemma_chunk_stop(lines, start, start, max);
    if start < len {
        let end = chunk_stop(lines, start, 0, max);
        let rest = send_chunks_from(lines, end, max);
        lemma_send_chunks(lines, end, max);
        assert(bounds.drop_first() =~= rest);
        assert(format_stage::parts_joined(lines, bounds) =~= lines.subrange(start, len));
        assert forall|i: int| 0 <= i < bounds.len() implies chunk_keeps_limit(
            lines,
            #[trigger] bounds[i],
            max,
        ) by {
            if i > 0 {
                assert(bounds[i] == rest[i - 1]);
            }
        }
    } else {
        assert(lines.subrange(start, len) =~= Seq::empty());
    }
}

/// What holds of the bounds of a chunk: it is not empty; where it is over the
/// limit, all its lines but the last are empty; and where a line comes behind
/// it, that line would have put it over the limit.
pub open spec fn chunk_keeps_limit(lines: Seq<Seq<u8>>, c: (int, int), max: int) -> bool {
    let bytes = bytes::total_len(lines.subrange(c.0, c.1));
    &&& 0 <= c.0 < c.1 <= lines.len()
    &&& bytes > max ==> forall|j: int| c.0 <= j < c.1 - 1 ==> (#[trigger] lines[j]).len() == 0
    &&& c.1 < lines.len() ==> bytes > 0 && bytes + lines[c.1].len() > max
}

/// The chunks in which a batch is sent hold all its lines, in order and once
/// each. No chunk is over the limit unless a single line is, and none could
/// have taken one line more.
pub proof fn law_send_chunks(lines: Seq<Seq<u8>>, max: int)
    requires
        max >= 0,
    ensures
        format_stage::parts_joined(lines, send_chunks_from(lines, 0, max)) == lines,
        forall|i: int|
            0 <= i < send_chunks_from(lines, 0, max).len() ==> chunk_keeps_limit(
                lines,
                #[trigger] send_chunks_from(lines, 0, max)[i],
                max,
            ),
{
    lemma_send_chunks(lines, 0, max);
    assert(lines.subrange(0, lines.len() as int) =~= lines);
}

/// How the call that sends one chunk ended.
#[derive(Clone, Copy, Debug, PartialEq, Eq, Structural)]
pub enum SendOutcome {
    /// The plugin sent it, and has reached this much memory.
    Sent { wasm_mem_peak: usize },
    /// The plugin refused it.
    Refused,
}

/// One batch on its way through the transport plugin.
#[derive(Clone, Copy, Debug, PartialEq, Eq, Structural)]
pub struct TransportRun {
    /// The lines sent so far; the next chunk begins behind them.
    pub lines_sent: usize,
    pub bytes_sent: usize,
    pub wasm_peak: usize,
    /// Whether no chunk was refused.
    pub ok: bool,
}

impl TransportRun {
    /// What was sent is the beginning of the batch.
    pub open spec fn well_formed(&self, batch: FormattedBatch) -> bool {
        &&& self.lines_sent <= batch@.len()
        &&& self.bytes_sent == bytes::total_len(batch@.subrange(0, self.lines_sent as int))
    }

    /// What the outcome of a chunk makes of a run.
    pub open spec fn advanced(self, c: SendChunk, outcome: SendOutcome) -> TransportRun {
        match outcome {
            SendOutcome::Sent { wasm_mem_peak } => TransportRun {
                lines_sent: c.end,
                bytes_sent: (self.bytes_sent + c.bytes) as usize,
                wasm_peak: stats::larger(self.wasm_peak as int, wasm_mem_peak as int) as usize,
                ok: self.ok,
            },
            SendOutcome::Refused => TransportRun { ok: false, ..self },
        }
    }

    /// A batch of which nothing is sent yet.
    pub fn new() -> (res: TransportRun)
        ensures
            res == (TransportRun { lines_sent: 0, bytes_sent: 0, wasm_peak: 0, ok: true }),
            forall|batch: FormattedBatch| #[trigger] res.well_formed(batch),
    {
        let res = TransportRun { lines_sent: 0, bytes_sent: 0, wasm_peak: 0, ok: true };
        assert forall|batch: FormattedBatch| #[trigger] res.well_formed(batch) by {
            assert(batch@.subrange(0, 0) =~= Seq::empty());
        }
        res
    }

    /// The chunk that is to be sent next: none once all lines are sent or a
    /// chunk was refused.
    pub fn next_chunk(&self, batch: &FormattedBatch, max_bytes: usize) -> (res: Option<SendChunk>)
        requires
            self.well_formed(*batch),
        ensures
            res is Some <==> self.ok && self.lines_sent < batch@.len(),
            res matches Some(c) ==> is_chunk_at(
                c,
                batch@,
                self.lines_sent as int,
                max_bytes as int,
            ) && self.lines_sent < c.end <= batch@.len(),
    {
        if !self.ok || self.lines_sent >= batch.lines.len() {
            return None;
        }
        let start: usize = self.lines_sent;
        let ghost lines = batch@;
        let ghost max = max_bytes as int;
        let mut end: usize = start;
        let mut acc: usize = 0;
        assert(lines.subrange(start as int, start as int) =~= Seq::empty());
        proof {
            lemma_chunk_stop(lines, start as int, start as int, max);
        }
        while end < batch.lines.len() && (acc == 0 || (acc <= max_bytes && batch.lines[end].len()
            <= max_bytes - acc))
            invariant
                start <= end <= lines.len(),
                lines == batch@,
                max == max_bytes,
                acc == bytes::total_len(lines.subrange(start as int, end as int)),
                chunk_stop(lines, end as int, acc as int, max) == chunk_stop(
                    lines,
                    start as int,
                    0,
                    max,
                ),
            decreases lines.len() - end,
        {
            assert(lines.subrange(start as int, end + 1).drop_last() =~= lines.subrange(
                start as int,
                end as int,
            ));
            acc += batch.lines[end].len();
            end += 1;
        }
        Some(SendChunk { start, end, bytes: acc })
    }

    /// Takes the outcome of the chunk that was to be sent next.
    pub fn take_outcome(
        &mut self,
        batch: &FormattedBatch,
        max_bytes: usize,
        chunk: SendChunk,
        outcome: SendOutcome,
    )
        requires
            batch.well_formed(),
            old(self).well_formed(*batch),
            old(self).ok,
            is_chunk_at(chunk, batch@, old(self).lines_sent as int, max_bytes as int),
        ensures
            final(self).well_formed(*batch),
            *final(self) == old(self).advanced(chunk, outcome),
    {
        match outcome {
            SendOutcome::Sent { wasm_mem_peak } => {
                proof {
                    let lines = batch@;
                    let start = self.lines_sent as int;
                    let end = chunk.end as int;
                    assert(lines.subrange(start, start) =~= Seq::empty());
                    lemma_chunk_stop(lines, start, start, max_bytes as int);
                    assert(lines.subrange(0, start) + lines.subrange(start, end) =~= lines.subrange(
                        0,
                        end,
                    ));
                    bytes::lemma_total_len_add(
                        lines.subrange(0, start),
                        lines.subrange(start, end),
                    );
                    bytes::lemma_total_len_part(lines, 0, end);
                }
                if wasm_mem_peak > self.wasm_peak {
                    self.wasm_peak = wasm_mem_peak;
                }
                self.lines_sent = chunk.end;
                self.bytes_sent += chunk.bytes;
            },
            SendOutcome::Refused => {
                self.ok = false;
            },
        }
    }

    /// What a batch counts for when nothing more of it is to be sent: nothing,
    /// where a chunk was refused or there was no line.
    pub fn finish(&self, elapsed: u128) -> (res: Option<TransportStats>)
        ensures
            res == (if self.ok && self.lines_sent > 0 {
                Some(
                    TransportStats {
                        total_batches: 1,
                        total_input_lines: self.lines_sent as u64,
                        total_input_bytes: self.bytes_sent as u64,
                        total_bytes_reported: 0,
                        total_elapsed: elapsed,
                        wasm_mem_peak_max: self.wasm_peak,
                    },
                )
            } else {
                None
            }),
    {
        if self.ok && self.lines_sent > 0 {
            Some(
                TransportStats {
                    total_batches: 1,
                    total_input_lines: self.lines_sent as u64,
                    total_input_bytes: self.bytes_sent as u64,
                    total_bytes_reported: 0,
                    total_elapsed: elapsed,
                    wasm_mem_peak_max: self.wasm_peak,
                },
            )
        } else {
            None
        }
    }
}

/// A batch of which every chunk is sent has all its lines and bytes counted.
pub proof fn law_whole_batch_counted(run: TransportRun, batch: FormattedBatch)
    requires
        batch.well_formed(),
        run.well_formed(batch),
        run.ok,
        !(run.lines_sent < batch@.len()),
    ensures
        run.lines_sent == batch@.len(),
        run.bytes_sent == batch.total_bytes,
{
    assert(batch@.subrange(0, run.lines_sent as int) =~= batch@);
}

/// A chunk that was sent is counted with all its lines and bytes; one that was
/// refused is not counted, and ends the batch: it stays refused. What was counted
/// before stays counted.
pub proof fn law_outcome_is_counted(run: TransportRun, c: SendChunk, outcome: SendOutcome)
    requires
        run.bytes_sent + c.bytes <= usize::MAX,
    ensures
        ({
            let after = run.advanced(c, outcome);
            &&& outcome matches SendOutcome::Sent { wasm_mem_peak } ==> {
                &&& after.ok == run.ok
                &&& after.lines_sent == c.end
                &&& after.bytes_sent - run.bytes_sent == c.bytes
                &&& after.wasm_peak >= run.wasm_peak
                &&& after.wasm_peak >= wasm_mem_peak
                &&& after.wasm_peak == run.wasm_peak || after.wasm_peak == wasm_mem_peak
            }
            &&& outcome is Refused ==> {
                &&& !after.ok
                &&& after.lines_sent == run.lines_sent
                &&& after.bytes_sent == run.bytes_sent
                &&& after.wasm_peak == run.wasm_peak
            }
        }),
{
}

/// The chunk that is sent next begins with the first line that was not sent, has
/// at least that line, knows its bytes, keeps to the limit unless a single line
/// breaks it, and ends only where the batch does or the next line would be too
/// much.
pub proof fn law_next_chunk(c: SendChunk, lines: Seq<Seq<u8>>, start: int, max: int)
    requires
        0 <= start < lines.len(),
        max >= 0,
        is_chunk_at(c, lines, start, max),
    ensures
        c.start == start,
        start < c.end <= lines.len(),
        c.bytes == bytes::joined(lines.subrange(start, c.end as int)).len(),
        c.bytes > max ==> forall|j: int|
            start <= j < c.end - 1 ==> (#[trigger] lines[j]).len() == 0,
        c.end < lines.len() ==> c.bytes + lines[c.end as int].len() > max && c.bytes > 0,
{
    assert(lines.subrange(start, start) =~= Seq::empty());
    lemma_chunk_stop(lines, start, start, max);
    bytes::law_joined_keeps_all(lines.subrange(start, c.end as int), Seq::empty(), Seq::empty());
}

/// What a run has counted as sent is the beginning of its batch: so many lines, and
/// the bytes of these.
pub proof fn law_run_counts_the_beginning(run: TransportRun, batch: FormattedBatch)
    requires
        run.well_formed(batch),
    ensures
        run.lines_sent <= batch.lines@.len(),
        run.bytes_sent == bytes::joined(batch@.take(run.lines_sent as int)).len(),
{
    let part = batch@.subrange(0, run.lines_sent as int);
    assert(part =~= batch@.take(run.lines_sent as int));
    bytes::law_joined_keeps_all(part, Seq::empty(), Seq::empty());
}

} // verus!

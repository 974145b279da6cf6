//! The parse stage: what a worker does with the answer of a parser plugin, how
//! often it tries again, and how a call's time is taken apart.
use vstd::prelude::*;

use crate::batch;
use crate::batch::Batch;
use crate::entry::{LogEntry, ParsedEntry};
use crate::stats::{ParseDiffTiming, ParseStats};
use crate::text;

verus! {

/// Entries on their way to the next stage.
pub struct ParsedBatch {
    pub entries: Vec<LogEntry>,
    pub seq: u64,
}

/// How many ids are set aside for each batch.
pub const IDS_PER_BATCH: u64 = 100_000;

/// The id of the entry at `index` of the batch numbered `seq`.
pub open spec fn entry_id(seq: int, index: int) -> int {
    seq * IDS_PER_BATCH + index
}

/// A parsed entry with its id.
pub open spec fn with_id(p: ParsedEntry, id: int) -> LogEntry {
    LogEntry {
        id: id as u64,
        timestamp: p.timestamp,
        level: p.level,
        message: p.message,
        tags: p.tags,
    }
}

/// The entries of the batch numbered `seq`, with their ids.
pub open spec fn with_ids(parsed: Seq<ParsedEntry>, seq: int) -> Seq<LogEntry> {
    Seq::new(parsed.len(), |i: int| with_id(parsed[i], entry_id(seq, i)))
}

/// Whether the ids of the first `len` entries of a batch can be held.
pub open spec fn ids_fit(seq: int, len: int) -> bool {
    len > 0 ==> entry_id(seq, len - 1) <= u64::MAX
}

/// Gives the entries of a batch their ids.
pub fn assign_ids(parsed: Vec<ParsedEntry>, seq: u64) -> (res: Vec<LogEntry>)
    requires
        ids_fit(seq as int, parsed@.len() as int),
    ensures
        res@ == with_ids(parsed@, seq as int),
{
    let mut entries: Vec<LogEntry> = Vec::new();
    let ghost all = parsed@;
    let total: usize = parsed.len();
    let mut index: usize = 0;
    for p in it: parsed.into_iter()
        invariant
            it.seq() == all,
            it.index() == index,
            all.len() == total,
            ids_fit(seq as int, all.len() as int),
            entries@ == with_ids(all, seq as int).subrange(0, it.index() as int),
    {
        assert(entry_id(seq as int, index as int) <= u64::MAX);
        let id: u64 = seq * IDS_PER_BATCH + index as u64;
        entries.push(
            LogEntry {
                id,
                timestamp: p.timestamp,
                level: p.level,
                message: p.message,
                tags: p.tags,
            },
        );
        assert(entries@ =~= with_ids(all, seq as int).subrange(0, index + 1));
        index += 1;
    }
    assert(entries@ =~= with_ids(all, seq as int));
    entries
}

/// Ids are the same only for the same entry of the same batch, over all
/// batches, as long as no batch has more entries than ids are set aside for.
pub proof fn law_ids_are_unique(seq1: int, index1: int, seq2: int, index2: int)
    requires
        0 <= index1 < IDS_PER_BATCH,
        0 <= index2 < IDS_PER_BATCH,
        entry_id(seq1, index1) == entry_id(seq2, index2),
    ensures
        seq1 == seq2,
        index1 == index2,
{
}

/// What was measured while a batch was parsed.
#[derive(Clone, Copy, Debug, PartialEq, Eq, Structural)]
pub struct ParseFigures {
    /// The nanoseconds of the parse call.
    pub elapsed: u128,
    /// The usage that the plugin reports.
    pub component_ns: u64,
    /// The parts of the call's time, where they were measured.
    pub diff: Option<ParseDiffTiming>,
    /// The memory that the plugin has reached.
    pub wasm_mem_peak: usize,
    /// How often the plugin asked for more memory.
    pub grow_count: u64,
    /// How much it asked for.
    pub grow_delta_bytes: u64,
}

/// What a parsed batch counts for.
pub open spec fn counts_of(
    input_lines: int,
    input_bytes: int,
    output_entries: int,
    f: ParseFigures,
) -> ParseStats {
    ParseStats {
        total_batches: 1,
        total_input_lines: input_lines as u64,
        total_input_bytes: input_bytes as u64,
        total_output_entries: output_entries as u64,
        total_elapsed: f.elapsed,
        go_heap_peak_max: f.component_ns,
        wasm_mem_peak_max: f.wasm_mem_peak,
        total_grow_count: f.grow_count,
        total_grow_delta_bytes: f.grow_delta_bytes,
        total_component_ns: f.component_ns,
        total_diff_batches: if f.diff is Some {
            1
        } else {
            0
        },
        total_noop_elapsed_ns: match f.diff {
            Some(d) => d.noop_elapsed_ns,
            None => 0,
        },
        total_noop_component_ns: match f.diff {
            Some(d) => d.noop_component_ns,
            None => 0,
        },
        total_copy_in_ns: match f.diff {
            Some(d) => d.copy_in_ns,
            None => 0,
        },
        total_copy_out_ns: match f.diff {
            Some(d) => d.copy_out_ns,
            None => 0,
        },
    }
}

fn batch_counts(
    input_lines: usize,
    input_bytes: usize,
    output_entries: usize,
    figures: &ParseFigures,
) -> (res: ParseStats)
    ensures
        res == counts_of(
            input_lines as int,
            input_bytes as int,
            output_entries as int,
            *figures,
        ),
{
    let diff = match figures.diff {
        Some(d) => d,
        None => ParseDiffTiming::default(),
    };
    ParseStats {
        total_batches: 1,
        total_input_lines: input_lines as u64,
        total_input_bytes: input_bytes as u64,
        total_output_entries: output_entries as u64,
        total_elapsed: figures.elapsed,
        go_heap_peak_max: figures.component_ns,
        wasm_mem_peak_max: figures.wasm_mem_peak,
        total_grow_count: figures.grow_count,
        total_grow_delta_bytes: figures.grow_delta_bytes,
        total_component_ns: figures.component_ns,
        total_diff_batches: if figures.diff.is_some() {
            1
        } else {
            0
        },
        total_noop_elapsed_ns: diff.noop_elapsed_ns,
        total_noop_component_ns: diff.noop_component_ns,
        total_copy_in_ns: diff.copy_in_ns,
        total_copy_out_ns: diff.copy_out_ns,
    }
}

/// Takes the answer of a parser plugin to a batch: the entries, or nothing
/// where the plugin refused the batch. Either way the batch is done with and
/// cleared. Gives what goes on to the next stage and what the batch counts for.
pub fn complete_parse_batch(
    batch: &mut Batch,
    seq: u64,
    answer: Option<Vec<ParsedEntry>>,
    figures: ParseFigures,
) -> (res: Option<(ParsedBatch, ParseStats)>)
    requires
        answer matches Some(parsed) ==> ids_fit(seq as int, parsed@.len() as int),
    ensures
        final(batch)@ == Seq::<Seq<char>>::empty(),
        final(batch).well_formed(),
        match answer {
            Some(parsed) => res matches Some((pb, counts)) && pb.seq == seq && pb.entries@
                == with_ids(parsed@, seq as int) && counts == counts_of(
                old(batch)@.len() as int,
                old(batch).bytes as int,
                parsed@.len() as int,
                figures,
            ),
            None => res is None,
        },
{
    let input_lines: usize = batch.len();
    let input_bytes: usize = batch.bytes;
    let res = match answer {
        Some(parsed) => {
            let entries = assign_ids(parsed, seq);
            let counts = batch_counts(input_lines, input_bytes, entries.len(), &figures);
            Some((ParsedBatch { entries, seq }, counts))
        },
        None => None,
    };
    batch.clear();
    res
}

/// The first tag of an entry as it is shown, and `-` where it has none.
pub open spec fn tag_preview(e: LogEntry) -> Seq<char> {
    if e.tags@.len() > 0 {
        e.tags@[0].0@ + "="@ + e.tags@[0].1@
    } else {
        "-"@
    }
}

/// The message that shows the first entry of a batch.
pub open spec fn parse_sample(worker_id: int, inst_id: int, e: LogEntry) -> Seq<char> {
    "[w"@ + text::decimal(worker_id as nat) + "-inst"@ + text::decimal(inst_id as nat)
        + "][測試log解析結果] time:"@ + e.timestamp@ + " / tag:"@ + tag_preview(e)
}

/// The message that shows the first entry of a batch, where there is one.
pub fn parse_sample_line(worker_id: usize, inst_id: u8, batch: &ParsedBatch) -> (res: Option<
    String,
>)
    ensures
        res is Some <==> batch.entries@.len() > 0,
        res matches Some(s) ==> s@ == parse_sample(
            worker_id as int,
            inst_id as int,
            batch.entries@[0],
        ),
{
    if batch.entries.len() == 0 {
        return None;
    }
    let sample: &LogEntry = &batch.entries[0];
    let tag = if sample.tags.len() > 0 {
        let mut shown = sample.tags[0].0.clone();
        shown.append("=");
        shown.append(sample.tags[0].1.as_str());
        shown
    } else {
        "-".to_string()
    };
    let mut out = "[w".to_string();
    text::push_decimal(&mut out, worker_id as u128);
    out.append("-inst");
    text::push_decimal(&mut out, inst_id as u128);
    out.append("][測試log解析結果] time:");
    out.append(sample.timestamp.as_str());
    out.append(" / tag:");
    out.append(tag.as_str());
    Some(out)
}

/// How often a batch is parsed again behind a plugin that was stopped.
pub const MAX_RETRIES: u32 = 3;

/// How one attempt at a batch ended.
#[derive(Clone, Copy, Debug, PartialEq, Eq, Structural)]
pub enum AttemptOutcome {
    /// There was no instance to parse with.
    NoInstance,
    /// The plugin gave entries.
    Parsed,
    /// The plugin refused the batch.
    Refused,
    /// The plugin was stopped.
    Trapped,
}

/// What a worker does with a batch behind an attempt.
#[derive(Clone, Copy, Debug, PartialEq, Eq, Structural)]
pub enum FlushAction {
    /// Try again.
    Retry,
    /// Send the entries on.
    SendOn,
    /// Pass over the batch.
    Skip,
    /// Count an error, keep the lines in the error file, pass over the batch.
    GiveUp,
}

/// The attempts at one batch.
#[derive(Clone, Copy, Debug, PartialEq, Eq, Structural)]
pub struct FlushAttempts {
    /// The attempts that have ended with a stopped plugin.
    pub attempt: u32,
    pub max_retries: u32,
}

impl FlushAttempts {
    /// What an attempt leads to.
    pub open spec fn action(self, outcome: AttemptOutcome) -> FlushAction {
        match outcome {
            AttemptOutcome::NoInstance => FlushAction::Skip,
            AttemptOutcome::Parsed => FlushAction::SendOn,
            AttemptOutcome::Refused => FlushAction::Skip,
            AttemptOutcome::Trapped => if self.attempt >= self.max_retries {
                FlushAction::GiveUp
            } else {
                FlushAction::Retry
            },
        }
    }

    /// The attempts behind one more.
    pub open spec fn advanced(self, outcome: AttemptOutcome) -> FlushAttempts {
        if self.action(outcome) is Retry {
            FlushAttempts { attempt: (self.attempt + 1) as u32, ..self }
        } else {
            self
        }
    }

    /// No attempt yet.
    pub fn new(max_retries: u32) -> (res: FlushAttempts)
        ensures
            res == (FlushAttempts { attempt: 0, max_retries }),
    {
        FlushAttempts { attempt: 0, max_retries }
    }

    /// Takes the outcome of an attempt, and says what comes of it.
    pub fn on_outcome(&mut self, outcome: AttemptOutcome) -> (res: FlushAction)
        ensures
            res == old(self).action(outcome),
            *final(self) == old(self).advanced(outcome),
    {
        match outcome {
            AttemptOutcome::NoInstance => FlushAction::Skip,
            AttemptOutcome::Parsed => FlushAction::SendOn,
            AttemptOutcome::Refused => FlushAction::Skip,
            AttemptOutcome::Trapped => {
                if self.attempt >= self.max_retries {
                    FlushAction::GiveUp
                } else {
                    self.attempt += 1;
                    FlushAction::Retry
                }
            },
        }
    }

    /// The attempts behind a number of outcomes.
    pub open spec fn after(self, outcomes: Seq<AttemptOutcome>) -> FlushAttempts
        decreases outcomes.len(),
    {
        if outcomes.len() == 0 {
            self
        } else {
            self.after(outcomes.drop_last()).advanced(outcomes.last())
        }
    }

    /// Whether the batch is tried again behind each of a number of outcomes.
    pub open spec fn all_retried(self, outcomes: Seq<AttemptOutcome>) -> bool
        decreases outcomes.len(),
    {
        outcomes.len() > 0 ==> {
            &&& self.all_retried(outcomes.drop_last())
            &&& self.after(outcomes.drop_last()).action(outcomes.last()) is Retry
        }
    }

    /// The attempts behind `n` in a row at which the plugin was stopped.
    pub open spec fn after_traps(self, n: nat) -> FlushAttempts
        decreases n,
    {
        if n == 0 {
            self
        } else {
            self.after_traps((n - 1) as nat).advanced(AttemptOutcome::Trapped)
        }
    }
}

/// A batch is tried again behind each of the first `max_retries` attempts at
/// which the plugin is stopped, and given up behind the next: no sooner, no
/// later.
pub proof fn law_retry_limit(max_retries: u32, n: nat)
    requires
        n <= max_retries,
    ensures
        ({
            let start = FlushAttempts { attempt: 0, max_retries };
            &&& start.after_traps(n).attempt == n
            &&& start.after_traps(n).action(AttemptOutcome::Trapped) is GiveUp <==> n
                == max_retries
            &&& start.after_traps(n).action(AttemptOutcome::Trapped) is Retry <==> n < max_retries
        }),
    decreases n,
{
    let start = FlushAttempts { attempt: 0, max_retries };
    if n > 0 {
        law_retry_limit(max_retries, (n - 1) as nat);
    }
    assert(start.after_traps(n).max_retries == max_retries) by {
        lemma_after_traps_limit(start, n);
    }
}

/// Whatever the attempts at a batch give, each of those behind which it is tried
/// again was one at which the plugin was stopped, and there are no more of them
/// than `max_retries`: a batch is always done with in the end.
pub proof fn law_batch_is_done_with(max_retries: u32, outcomes: Seq<AttemptOutcome>)
    requires
        (FlushAttempts { attempt: 0, max_retries }).all_retried(outcomes),
    ensures
        outcomes.len() <= max_retries,
        forall|i: int|
            0 <= i < outcomes.len() ==> #[trigger] outcomes[i] == AttemptOutcome::Trapped,
        (FlushAttempts { attempt: 0, max_retries }).after(outcomes).attempt == outcomes.len(),
        (FlushAttempts { attempt: 0, max_retries }).after(outcomes).max_retries == max_retries,
    decreases outcomes.len(),
{
    if outcomes.len() > 0 {
        let before = outcomes.drop_last();
        law_batch_is_done_with(max_retries, before);
        assert forall|i: int| 0 <= i < outcomes.len() implies #[trigger] outcomes[i]
            == AttemptOutcome::Trapped by {
            if i < before.len() {
                assert(before[i] == outcomes[i]);
            } else {
                assert(outcomes[i] == outcomes.last());
            }
        }
    }
}

proof fn lemma_after_traps_limit(start: FlushAttempts, n: nat)
    ensures
        start.after_traps(n).max_retries == start.max_retries,
    decreases n,
{
    if n > 0 {
        lemma_after_traps_limit(start, (n - 1) as nat);
    }
}

/// What an attempt at a batch gave.
pub enum ParseAnswer {
    /// There was no instance to parse with.
    NoInstance,
    /// The plugin gave entries, and this was measured.
    Parsed { entries: Vec<ParsedEntry>, figures: ParseFigures },
    /// The plugin refused the batch.
    Refused,
    /// The plugin was stopped.
    Trapped,
}

impl ParseAnswer {
    /// How the attempt ended.
    pub open spec fn spec_outcome(&self) -> AttemptOutcome {
        match *self {
            ParseAnswer::NoInstance => AttemptOutcome::NoInstance,
            ParseAnswer::Parsed { .. } => AttemptOutcome::Parsed,
            ParseAnswer::Refused => AttemptOutcome::Refused,
            ParseAnswer::Trapped => AttemptOutcome::Trapped,
        }
    }

    /// How the attempt ended.
    #[verifier::when_used_as_spec(spec_outcome)]
    pub fn outcome(&self) -> (res: AttemptOutcome)
        ensures
            res == self.spec_outcome(),
    {
        match self {
            ParseAnswer::NoInstance => AttemptOutcome::NoInstance,
            ParseAnswer::Parsed { .. } => AttemptOutcome::Parsed,
            ParseAnswer::Refused => AttemptOutcome::Refused,
            ParseAnswer::Trapped => AttemptOutcome::Trapped,
        }
    }
}

/// What a worker does next.
pub enum FlushStep {
    /// Try the same batch again.
    Retry,
    /// Send the entries on.
    SendOn(ParsedBatch),
    /// Go on to the next batch.
    Skip,
    /// Write this into the error file, then go on to the next batch.
    GiveUp(String),
}

/// The header of the error file.
pub open spec fn given_up_header() -> Seq<char> {
    "以下這批是OOM"@
}

/// A parse worker's counts.
pub struct ParseWorker {
    pub stats: ParseStats,
    /// The batches that were given up.
    pub error_count: u32,
}

impl ParseWorker {
    /// Whether what an answer brings can be numbered and counted.
    pub open spec fn has_room_for(
        &self,
        attempts: &FlushAttempts,
        batch: &Batch,
        seq: u64,
        answer: &ParseAnswer,
    ) -> bool {
        match *answer {
            ParseAnswer::Parsed { entries, figures } => {
                &&& ids_fit(seq as int, entries@.len() as int)
                &&& self.stats.has_room_for(
                    counts_of(
                        batch@.len() as int,
                        batch.bytes as int,
                        entries@.len() as int,
                        figures,
                    ),
                )
            },
            ParseAnswer::Trapped => attempts.action(answer.outcome()) is GiveUp ==> self.error_count
                < u32::MAX,
            _ => true,
        }
    }

    /// A worker that has parsed nothing yet.
    pub fn new() -> (res: ParseWorker)
        ensures
            res.stats == ParseStats::zero(),
            res.error_count == 0,
    {
        ParseWorker { stats: ParseStats::default(), error_count: 0 }
    }

    /// Takes the answer to an attempt at a batch, and says what to do next. Only a
    /// batch on which the plugin was stopped is tried again; it stays as it is
    /// until it is given up. What was parsed is counted, and so is a batch that
    /// is given up, whose lines are then written to the error file.
    pub fn take_answer(
        &mut self,
        attempts: &mut FlushAttempts,
        batch: &mut Batch,
        seq: u64,
        answer: ParseAnswer,
    ) -> (res: FlushStep)
        requires
            old(self).has_room_for(old(attempts), old(batch), seq, &answer),
        ensures
            *final(attempts) == old(attempts).advanced(answer.outcome()),
            match old(attempts).action(answer.outcome()) {
                FlushAction::Retry => res is Retry && *final(batch) == *old(batch) && *final(self)
                    == *old(self),
                FlushAction::Skip => res is Skip && *final(self) == *old(self),
                FlushAction::GiveUp => {
                    &&& res matches FlushStep::GiveUp(t) && t@ == given_up_header() + "\n"@
                        + ended_lines(old(batch)@)
                    &&& final(self).error_count == old(self).error_count + 1
                    &&& final(self).stats == old(self).stats
                },
                FlushAction::SendOn => answer matches ParseAnswer::Parsed { entries, figures } && {
                    &&& res matches FlushStep::SendOn(pb) && pb.seq == seq && pb.entries@
                        == with_ids(entries@, seq as int)
                    &&& final(self).stats == old(self).stats.plus(
                        counts_of(
                            old(batch)@.len() as int,
                            old(batch).bytes as int,
                            entries@.len() as int,
                            figures,
                        ),
                    )
                    &&& final(self).error_count == old(self).error_count
                },
            },
            !(old(attempts).action(answer.outcome()) is Retry) ==> final(batch)@ == Seq::<
                Seq<char>,
            >::empty() && final(batch).well_formed(),
    {
        let action = attempts.on_outcome(answer.outcome());
        match answer {
            ParseAnswer::Parsed { entries, figures } => {
                match complete_parse_batch(batch, seq, Some(entries), figures) {
                    Some((pb, counts)) => {
                        self.stats.merge(&counts);
                        FlushStep::SendOn(pb)
                    },
                    None => FlushStep::Skip,
                }
            },
            ParseAnswer::Trapped => {
                match action {
                    FlushAction::Retry => FlushStep::Retry,
                    _ => {
                        let told = error_file_text("以下這批是OOM", &batch.lines);
                        self.error_count += 1;
                        batch.clear();
                        FlushStep::GiveUp(told)
                    },
                }
            },
            _ => {
                batch.clear();
                FlushStep::Skip
            },
        }
    }

    /// Whether what an answer brings can be numbered and counted.
    pub fn can_take(
        &self,
        attempts: &FlushAttempts,
        batch: &Batch,
        seq: u64,
        answer: &ParseAnswer,
    ) -> (res: bool)
        ensures
            res == self.has_room_for(attempts, batch, seq, answer),
    {
        match answer {
            ParseAnswer::Parsed { entries, figures } => can_number(seq, entries.len())
                && self.stats.fits(
                &batch_counts(batch.len(), batch.bytes, entries.len(), figures),
            ),
            ParseAnswer::Trapped => attempts.attempt < attempts.max_retries || self.error_count
                < u32::MAX,
            _ => true,
        }
    }
}

fn can_number(seq: u64, len: usize) -> (res: bool)
    ensures
        res == ids_fit(seq as int, len as int),
{
    let first: u128 = seq as u128 * 100_000;
    assert(first == entry_id(seq as int, 0));
    len == 0 || first + (len - 1) as u128 <= u64::MAX as u128
}

/// A span of time in nanoseconds, cut off at what 64 bits hold.
pub fn duration_ns(duration: u128) -> (res: u64)
    ensures
        res == (if duration <= u64::MAX {
            duration as int
        } else {
            u64::MAX as int
        }),
{
    if duration <= u64::MAX as u128 {
        duration as u64
    } else {
        u64::MAX
    }
}

/// What is left of `a` without `b`.
pub open spec fn without(a: int, b: int) -> int {
    if b < a {
        a - b
    } else {
        0
    }
}

/// A span of time cut off at what 64 bits hold.
pub open spec fn cut_off(duration: int) -> int {
    if duration <= u64::MAX {
        duration
    } else {
        u64::MAX as int
    }
}

/// How the call of the parser that does nothing ended.
#[derive(Clone, Copy, Debug, PartialEq, Eq, Structural)]
pub enum NoopOutcome {
    /// It answered, and reports its own time.
    Answered { noop_component_ns: u64 },
    /// It refused the batch.
    Refused,
    /// It was stopped.
    Trapped,
}

/// What comes of the comparison with the parser that does nothing.
#[derive(Clone, Copy, Debug, PartialEq, Eq, Structural)]
pub struct NoopMeasure {
    /// Whether its instance goes back to the pool.
    pub keep_instance: bool,
    /// The parts of the real call's time.
    pub timing: Option<ParseDiffTiming>,
}

/// Takes the time of a parse call apart. The parser that does nothing spends
/// its time on taking in the input, but for what it reports itself. What the
/// real call took beyond that and beyond its own work went into giving out.
pub fn measure_noop_parse(
    outcome: NoopOutcome,
    noop_elapsed: u128,
    guest_ns: u64,
    real_elapsed: u128,
) -> (res: NoopMeasure)
    ensures
        res.keep_instance == !(outcome is Trapped),
        res.timing is Some <==> outcome is Answered,
        outcome matches NoopOutcome::Answered { noop_component_ns } ==> {
            let t = res.timing.unwrap();
            &&& t.noop_elapsed_ns == cut_off(noop_elapsed as int)
            &&& t.noop_component_ns == noop_component_ns
            &&& t.guest_ns == guest_ns
            &&& t.copy_in_ns == without(cut_off(noop_elapsed as int), noop_component_ns as int)
            &&& t.copy_out_ns == without(
                without(cut_off(real_elapsed as int), guest_ns as int),
                t.copy_in_ns as int,
            )
        },
{
    match outcome {
        NoopOutcome::Answered { noop_component_ns } => {
            let noop_elapsed_ns: u64 = duration_ns(noop_elapsed);
            let real_elapsed_ns: u64 = duration_ns(real_elapsed);
            let copy_in_ns: u64 = noop_elapsed_ns.saturating_sub(noop_component_ns);
            let copy_out_ns: u64 = real_elapsed_ns.saturating_sub(guest_ns).saturating_sub(
                copy_in_ns,
            );
            NoopMeasure {
                keep_instance: true,
                timing: Some(
                    ParseDiffTiming {
                        noop_elapsed_ns,
                        noop_component_ns,
                        copy_in_ns,
                        guest_ns,
                        copy_out_ns,
                    },
                ),
            }
        },
        NoopOutcome::Refused => NoopMeasure { keep_instance: true, timing: None },
        NoopOutcome::Trapped => NoopMeasure { keep_instance: false, timing: None },
    }
}

/// Copying in, the plugin's own work and copying out make up the whole call,
/// wherever the call took at least as long as the first two.
pub proof fn law_parts_make_up_the_call(
    noop_elapsed: int,
    noop_component_ns: int,
    guest_ns: int,
    real_elapsed: int,
)
    requires
        0 <= noop_component_ns,
        0 <= guest_ns,
        0 <= real_elapsed <= u64::MAX,
        guest_ns + without(cut_off(noop_elapsed), noop_component_ns) <= real_elapsed,
    ensures
        ({
            let copy_in = without(cut_off(noop_elapsed), noop_component_ns);
            let copy_out = without(without(cut_off(real_elapsed), guest_ns), copy_in);
            copy_in + guest_ns + copy_out == real_elapsed
        }),
{
}

/// Lines, each ended by a newline.
pub open spec fn ended_lines(lines: Seq<Seq<char>>) -> Seq<char>
    decreases lines.len(),
{
    if lines.len() == 0 {
        Seq::empty()
    } else {
        ended_lines(lines.drop_last()) + lines.last() + "\n"@
    }
}

/// What the error file holds: a header, then the lines that were given up.
pub fn error_file_text(header: &str, lines: &Vec<String>) -> (res: String)
    ensures
        res@ == header@ + "\n"@ + ended_lines(batch::texts(lines@)),
{
    let mut out = header.to_string();
    out.append("\n");
    let ghost head = out@;
    let ghost all = batch::texts(lines@);
    let mut i: usize = 0;
    assert(out@ =~= head + ended_lines(all.subrange(0, 0)));
    while i < lines.len()
        invariant
            i <= lines@.len(),
            all == batch::texts(lines@),
            out@ == head + ended_lines(all.subrange(0, i as int)),
        decreases lines@.len() - i,
    {
        out.append(lines[i].as_str());
        out.append("\n");
        assert(all.subrange(0, i + 1).drop_last() =~= all.subrange(0, i as int));
        i += 1;
        assert(out@ =~= head + ended_lines(all.subrange(0, i as int)));
    }
    assert(all.subrange(0, i as int) =~= all);
    out
}

/// Giving ids to entries changes nothing else of them: there are as many, in the
/// same order, each with its time, level, message and tags. The ids follow one
/// upon the other, from that of the batch on.
pub proof fn law_ids_change_nothing_else(parsed: Seq<ParsedEntry>, seq: int, i: int)
    requires
        seq >= 0,
        ids_fit(seq, parsed.len() as int),
        0 <= i < parsed.len(),
    ensures
        with_ids(parsed, seq).len() == parsed.len(),
        with_ids(parsed, seq)[i].timestamp == parsed[i].timestamp,
        with_ids(parsed, seq)[i].level == parsed[i].level,
        with_ids(parsed, seq)[i].message == parsed[i].message,
        with_ids(parsed, seq)[i].tags == parsed[i].tags,
        with_ids(parsed, seq)[i].id - i == seq * 100_000,
{
}

/// The ids of a batch can be held exactly where the last of them can, and then so
/// can all before it.
pub proof fn law_ids_fit_where_each_does(seq: int, len: int)
    requires
        seq >= 0,
        len >= 0,
    ensures
        ids_fit(seq, len) <==> forall|i: int|
            0 <= i < len ==> #[trigger] entry_id(seq, i) <= u64::MAX,
        ids_fit(seq, len) && len > 0 ==> ids_fit(seq, len - 1),
{
    if len > 0 {
        assert(ids_fit(seq, len) <==> entry_id(seq, len - 1) <= u64::MAX);
    }
}

/// A parsed batch counts for one batch, with all the lines and bytes that it had
/// and all the entries that came out of it, and with what was measured. The parts
/// of its time count where they were measured, and only there.
pub proof fn law_batch_counts_for_what_it_was(
    input_lines: usize,
    input_bytes: usize,
    output_entries: usize,
    f: ParseFigures,
)
    ensures
        ({
            let c = counts_of(
                input_lines as int,
                input_bytes as int,
                output_entries as int,
                f,
            );
            &&& c.total_batches == 1
            &&& c.total_input_lines == input_lines
            &&& c.total_input_bytes == input_bytes
            &&& c.total_output_entries == output_entries
            &&& c.total_elapsed == f.elapsed
            &&& c.total_component_ns == f.component_ns
            &&& c.go_heap_peak_max == f.component_ns
            &&& c.wasm_mem_peak_max == f.wasm_mem_peak
            &&& c.total_grow_count == f.grow_count
            &&& c.total_grow_delta_bytes == f.grow_delta_bytes
            &&& f.diff matches Some(d) ==> {
                &&& c.total_diff_batches == 1
                &&& c.total_noop_elapsed_ns == d.noop_elapsed_ns
                &&& c.total_noop_component_ns == d.noop_component_ns
                &&& c.total_copy_in_ns == d.copy_in_ns
                &&& c.total_copy_out_ns == d.copy_out_ns
            }
            &&& f.diff is None ==> {
                &&& c.total_diff_batches == 0
                &&& c.total_noop_elapsed_ns == 0
                &&& c.total_noop_component_ns == 0
                &&& c.total_copy_in_ns == 0
                &&& c.total_copy_out_ns == 0
            }
        }),
{
}

/// However often a batch was tried: what was parsed goes on, what was refused or
/// found no instance is passed over, and neither counts as an attempt. Only where
/// the plugin was stopped is it tried again or given up.
pub proof fn law_outcome_decides(a: FlushAttempts, outcome: AttemptOutcome)
    ensures
        a.action(outcome) is SendOn <==> outcome is Parsed,
        a.action(outcome) is Skip <==> outcome is Refused || outcome is NoInstance,
        a.action(outcome) is Retry <==> outcome is Trapped && a.attempt < a.max_retries,
        a.advanced(outcome).attempt == a.attempt + (a.action(outcome) is Retry) as int,
        a.advanced(outcome).max_retries == a.max_retries,
{
}

/// How an attempt ended is told as it was.
pub proof fn law_answer_is_told_as_it_was(answer: ParseAnswer)
    ensures
        answer.spec_outcome() is NoInstance <==> answer is NoInstance,
        answer.spec_outcome() is Parsed <==> answer is Parsed,
        answer.spec_outcome() is Refused <==> answer is Refused,
        answer.spec_outcome() is Trapped <==> answer is Trapped,
{
}

/// What is left of a time and what was taken from it make up the time, and nothing
/// is left where as much or more was taken. A time is cut off only where it cannot
/// be held.
pub proof fn law_what_is_left_of_a_time(a: int, b: int)
    requires
        0 <= b,
    ensures
        b <= a ==> without(a, b) + b == a,
        a <= b ==> without(a, b) == 0,
        a <= u64::MAX ==> cut_off(a) == a,
        a >= u64::MAX ==> cut_off(a) == u64::MAX,
{
}

/// Lines that are written to the error file are all there, in their order, each
/// with a newline behind it.
pub proof fn law_error_file_keeps_every_line(
    a: Seq<Seq<char>>,
    b: Seq<Seq<char>>,
    line: Seq<char>,
)
    ensures
        ended_lines(seq![line]) == line.push('\n'),
        ended_lines(a + b) == ended_lines(a) + ended_lines(b),
    decreases b.len(),
{
    reveal_strlit("\n");
    assert(seq![line].drop_last() =~= Seq::empty());
    assert(ended_lines(seq![line].drop_last()) =~= Seq::empty());
    assert(ended_lines(seq![line]) =~= line.push('\n'));
    if b.len() == 0 {
        assert(a + b =~= a);
        assert(ended_lines(a) + ended_lines(b) =~= ended_lines(a));
    } else {
        assert((a + b).drop_last() =~= a + b.drop_last());
        law_error_file_keeps_every_line(a, b.drop_last(), line);
        assert(ended_lines(a + b) =~= ended_lines(a) + ended_lines(b));
    }
}

/// The message that shows an entry tells the worker, the instance, the time of the
/// entry, and its first tag by name and value where it has one.
pub proof fn law_sample_tells_of_the_entry(worker_id: int, inst_id: int, e: LogEntry)
    ensures
        e.tags@.len() > 0 ==> tag_preview(e) == e.tags@[0].0@ + "="@ + e.tags@[0].1@,
        e.tags@.len() == 0 ==> tag_preview(e) == "-"@,
        text::in_order(
            parse_sample(worker_id, inst_id, e),
            seq![
                text::decimal(worker_id as nat),
                text::decimal(inst_id as nat),
                e.timestamp@,
                tag_preview(e),
            ],
        ),
{
    let (a, b, c, d) = (
        text::decimal(worker_id as nat),
        text::decimal(inst_id as nat),
        e.timestamp@,
        tag_preview(e),
    );
    let none = Seq::<Seq<char>>::empty();
    let end = Seq::<char>::empty();
    text::lemma_nothing_in_order(end);
    let r3 = " / tag:"@ + d;
    assert(r3 =~= " / tag:"@ + d + end);
    text::lemma_in_order(r3, " / tag:"@, d, end, none);
    let r2 = "][測試log解析結果] time:"@ + c + r3;
    text::lemma_in_order(r2, "][測試log解析結果] time:"@, c, r3, seq![d] + none);
    let r1 = "-inst"@ + b + r2;
    text::lemma_in_order(r1, "-inst"@, b, r2, seq![c] + (seq![d] + none));
    let all = parse_sample(worker_id, inst_id, e);
    assert(all =~= "[w"@ + a + r1);
    text::lemma_in_order(all, "[w"@, a, r1, seq![b] + (seq![c] + (seq![d] + none)));
    assert(seq![a] + (seq![b] + (seq![c] + (seq![d] + none))) =~= seq![a, b, c, d]);
}

/// Comparing with the parser that does nothing tells times exactly where that
/// parser answered, and gives its instance up only where it was stopped. The times
/// of copying in and of its own work make up its call.
pub proof fn law_noop_call_is_taken_apart(
    outcome: NoopOutcome,
    noop_elapsed: u128,
    guest_ns: u64,
    real_elapsed: u128,
    res: NoopMeasure,
)
    requires
        call_ensures(measure_noop_parse, (outcome, noop_elapsed, guest_ns, real_elapsed), res),
    ensures
        res.timing is Some <==> outcome is Answered,
        !res.keep_instance <==> outcome is Trapped,
        outcome matches NoopOutcome::Answered { noop_component_ns } ==> {
            let t = res.timing.unwrap();
            &&& t.guest_ns == guest_ns
            &&& t.noop_component_ns == noop_component_ns
            &&& noop_elapsed <= u64::MAX ==> t.noop_elapsed_ns == noop_elapsed
            &&& noop_component_ns <= noop_elapsed <= u64::MAX ==> t.copy_in_ns
                + noop_component_ns == noop_elapsed
            &&& real_elapsed <= u64::MAX && guest_ns + t.copy_in_ns <= real_elapsed ==> t.copy_in_ns
                + guest_ns + t.copy_out_ns == real_elapsed
        },
{
}

} // verus!

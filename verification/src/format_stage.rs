//! The format stage: entries go to the plugin in chunks, and the frames that
//! come back are put together into one batch of lines.
use vstd::prelude::*;

use crate::bytes;
use crate::frames;
use crate::frames::MalformedFrame;
use crate::stats;
use crate::stats::FormatStats;
use crate::text;

verus! {

/// Lines on their way to the transport stage.
pub struct FormattedBatch {
    pub lines: Vec<Vec<u8>>,
    pub seq: u64,
    /// The length of all lines together.
    pub total_bytes: usize,
}

impl FormattedBatch {
    /// The lines of the batch.
    pub open spec fn view(&self) -> Seq<Seq<u8>> {
        bytes::views(self.lines@)
    }

    /// The batch knows the length of its lines.
    pub open spec fn well_formed(&self) -> bool {
        self.total_bytes == bytes::total_len(self@)
    }
}

/// The end of the chunk that begins at `start`.
pub open spec fn chunk_end(start: int, len: int, max: int) -> int {
    if len - start <= max {
        len
    } else {
        start + max
    }
}

/// The bounds of the chunks of at most `max` that `len` items are cut into,
/// from `start` on.
pub open spec fn chunks_from(start: int, len: int, max: int) -> Seq<(int, int)>
    decreases len - start,
{
    if 0 <= start < len && max > 0 {
        let end = chunk_end(start, len, max);
        seq![(start, end)] + chunks_from(end, len, max)
    } else {
        Seq::empty()
    }
}

/// The numbers of a list of bounds.
pub open spec fn bounds_of(v: Seq<(usize, usize)>) -> Seq<(int, int)> {
    Seq::new(v.len(), |i: int| (v[i].0 as int, v[i].1 as int))
}

/// The bounds of the chunks in which `len` entries go to the format plugin.
pub fn format_chunks(len: usize, max_chunk: usize) -> (res: Vec<(usize, usize)>)
    requires
        max_chunk > 0,
    ensures
        bounds_of(res@) == chunks_from(0, len as int, max_chunk as int),
{
    let mut out: Vec<(usize, usize)> = Vec::new();
    let mut start: usize = 0;
    let ghost all = chunks_from(0, len as int, max_chunk as int);
    assert(bounds_of(out@) + all =~= all);
    while start < len
        invariant
            start <= len,
            max_chunk > 0,
            all == bounds_of(out@) + chunks_from(start as int, len as int, max_chunk as int),
        decreases len - start,
    {
        let end: usize = if len - start <= max_chunk {
            len
        } else {
            start + max_chunk
        };
        let ghost before = out@;
        out.push((start, end));
        assert(bounds_of(out@) =~= bounds_of(before).push((start as int, end as int)));
        assert(all =~= bounds_of(out@) + chunks_from(end as int, len as int, max_chunk as int));
        start = end;
    }
    assert(bounds_of(out@) =~= all);
    out
}

/// The parts of a list between bounds, one behind the other.
pub open spec fn parts_joined<T>(s: Seq<T>, bounds: Seq<(int, int)>) -> Seq<T>
    decreases bounds.len(),
{
    if bounds.len() == 0 {
        Seq::empty()
    } else {
        s.subrange(bounds[0].0, bounds[0].1) + parts_joined(s, bounds.drop_first())
    }
}

proof fn lemma_chunks_cover_from<T>(s: Seq<T>, start: int, max: int)
    requires
        0 <= start <= s.len(),
        max > 0,
    ensures
        parts_joined(s, chunks_from(start, s.len() as int, max)) == s.subrange(
            start,
            s.len() as int,
        ),
        forall|i: int|
            0 <= i < chunks_from(start, s.len() as int, max).len() ==> {
                let c = #[trigger] chunks_from(start, s.len() as int, max)[i];
                0 <= c.0 < c.1 <= s.len() && c.1 - c.0 <= max
            },
    decreases s.len() - start,
{
    let len = s.len() as int;
    let bounds = chunks_from(start, len, max);
    if start < len {
        let end = chunk_end(start, len, max);
        let rest = chunks_from(end, len, max);
        lemma_chunks_cover_from(s, end, max);
        assert(bounds.drop_first() =~= rest);
        assert(parts_joined(s, bounds) =~= s.subrange(start, len));
        assert forall|i: int| 0 <= i < bounds.len() implies {
            let c = #[trigger] bounds[i];
            0 <= c.0 < c.1 <= len && c.1 - c.0 <= max
        } by {
            if i > 0 {
                assert(bounds[i] == rest[i - 1]);
            }
        }
    } else {
        assert(s.subrange(start, len) =~= Seq::empty());
    }
}

/// The chunks of a batch hold all its entries, in order and once each, and no
/// chunk is empty or larger than the limit.
pub proof fn law_chunks_cover<T>(entries: Seq<T>, max: int)
    requires
        max > 0,
    ensures
        parts_joined(entries, chunks_from(0, entries.len() as int, max)) == entries,
        forall|i: int|
            0 <= i < chunks_from(0, entries.len() as int, max).len() ==> {
                let c = #[trigger] chunks_from(0, entries.len() as int, max)[i];
                0 <= c.0 < c.1 <= entries.len() && c.1 - c.0 <= max
            },
{
    lemma_chunks_cover_from(entries, 0, max);
    assert(entries.subrange(0, entries.len() as int) =~= entries);
}

/// How the call of the format plugin on one chunk ended.
pub enum ChunkOutcome {
    /// The plugin gave bytes, its own time, and the memory it has reached.
    Formatted { output: Vec<u8>, logic_ns: u64, wasm_mem_peak: usize },
    /// The plugin refused the chunk.
    PluginError,
    /// The plugin was stopped.
    Trap,
}

/// Whether a chunk came back whole.
pub open spec fn chunk_ok(outcome: ChunkOutcome) -> bool {
    outcome matches ChunkOutcome::Formatted { output, .. } && frames::malformed_from(
        output@,
        0,
    ) is None
}

/// The lines that a chunk came back with.
pub open spec fn chunk_lines(outcome: ChunkOutcome) -> Seq<Seq<u8>> {
    match outcome {
        ChunkOutcome::Formatted { output, .. } => frames::frames_from(output@, 0),
        _ => Seq::empty(),
    }
}

/// The bytes that a chunk came back with.
pub open spec fn chunk_size(outcome: ChunkOutcome) -> nat {
    match outcome {
        ChunkOutcome::Formatted { output, .. } => output@.len(),
        _ => 0,
    }
}

/// The time that the plugin reports of a chunk.
pub open spec fn chunk_ns(outcome: ChunkOutcome) -> int {
    match outcome {
        ChunkOutcome::Formatted { logic_ns, .. } => logic_ns as int,
        _ => 0,
    }
}

/// The memory that the plugin has reached in a chunk.
pub open spec fn chunk_peak(outcome: ChunkOutcome) -> int {
    match outcome {
        ChunkOutcome::Formatted { wasm_mem_peak, .. } => wasm_mem_peak as int,
        _ => 0,
    }
}

proof fn lemma_frames_fit(b: Seq<u8>, pos: int)
    requires
        0 <= pos <= b.len(),
    ensures
        bytes::total_len(frames::frames_from(b, pos)) <= b.len() - pos,
    decreases b.len() - pos,
{
    if pos + 4 <= b.len() && pos + 4 + frames::le32(b, pos) <= b.len() {
        let end = pos + 4 + frames::le32(b, pos);
        let first = seq![b.subrange(pos + 4, end)];
        lemma_frames_fit(b, end);
        bytes::lemma_total_len_add(first, frames::frames_from(b, end));
        assert(first.drop_last() =~= Seq::empty());
        assert(bytes::total_len(first) == end - pos - 4) by {
            assert(bytes::total_len(first.drop_last()) == 0);
        }
    }
}

/// One batch on its way through the format plugin.
pub struct FormatRun {
    pub seq: u64,
    pub entry_count: usize,
    pub lines: Vec<Vec<u8>>,
    pub total_bytes: usize,
    pub wasm_peak: usize,
    pub logic_ns: u64,
    pub ok: bool,
}

impl FormatRun {
    /// The run knows the length of its lines.
    pub open spec fn well_formed(&self) -> bool {
        self.total_bytes == bytes::total_len(bytes::views(self.lines@))
    }

    /// What a chunk makes of a run.
    pub open spec fn advanced(before: FormatRun, outcome: ChunkOutcome, after: FormatRun) -> bool {
        &&& after.seq == before.seq
        &&& after.entry_count == before.entry_count
        &&& bytes::views(after.lines@) == bytes::views(before.lines@) + chunk_lines(outcome)
        &&& after.wasm_peak == stats::larger(before.wasm_peak as int, chunk_peak(outcome))
        &&& after.logic_ns == before.logic_ns + chunk_ns(outcome)
        &&& after.ok == (before.ok && chunk_ok(outcome))
    }

    /// A batch of which no chunk has come back yet.
    pub fn new(seq: u64, entry_count: usize) -> (res: FormatRun)
        ensures
            res.well_formed(),
            res.seq == seq,
            res.entry_count == entry_count,
            bytes::views(res.lines@) == Seq::<Seq<u8>>::empty(),
            res.wasm_peak == 0,
            res.logic_ns == 0,
            res.ok,
    {
        let res = FormatRun {
            seq,
            entry_count,
            lines: Vec::new(),
            total_bytes: 0,
            wasm_peak: 0,
            logic_ns: 0,
            ok: true,
        };
        assert(bytes::views(res.lines@) =~= Seq::<Seq<u8>>::empty());
        res
    }

    /// Whether the outcome of the next chunk can be counted.
    pub fn can_take(&self, outcome: &ChunkOutcome) -> (res: bool)
        ensures
            res == (self.total_bytes + chunk_size(*outcome) <= usize::MAX && self.logic_ns
                + chunk_ns(*outcome) <= u64::MAX),
    {
        match outcome {
            ChunkOutcome::Formatted { output, logic_ns, .. } => output.len() <= usize::MAX
                - self.total_bytes && *logic_ns <= u64::MAX - self.logic_ns,
            _ => true,
        }
    }

    /// Takes the outcome of the next chunk, and gives the malformed frame in
    /// it, where there is one. A chunk that failed spoils the batch.
    pub fn take_chunk(&mut self, outcome: ChunkOutcome) -> (res: Option<MalformedFrame>)
        requires
            old(self).well_formed(),
            old(self).total_bytes + chunk_size(outcome) <= usize::MAX,
            old(self).logic_ns + chunk_ns(outcome) <= u64::MAX,
        ensures
            final(self).well_formed(),
            FormatRun::advanced(*old(self), outcome, *final(self)),
            match outcome {
                ChunkOutcome::Formatted { output, .. } => match frames::malformed_from(output@, 0) {
                    Some((declared, remaining)) => res matches Some(m) && m.declared == declared
                        && m.remaining == remaining,
                    None => res is None,
                },
                _ => res is None,
            },
    {
        let ghost before = bytes::views(self.lines@);
        match outcome {
            ChunkOutcome::Formatted { output, logic_ns, wasm_mem_peak } => {
                self.logic_ns += logic_ns;
                if wasm_mem_peak > self.wasm_peak {
                    self.wasm_peak = wasm_mem_peak;
                }
                let scan = frames::parse_frames(output.as_slice());
                let mut found = scan.frames;
                let ghost added = bytes::views(found@);
                proof {
                    lemma_frames_fit(output@, 0);
                    bytes::lemma_total_len_add(before, added);
                }
                let size: usize = bytes::sum_of_lengths(&found);
                self.lines.append(&mut found);
                self.total_bytes += size;
                assert(bytes::views(self.lines@) =~= before + added);
                if scan.malformed.is_some() {
                    self.ok = false;
                }
                scan.malformed
            },
            _ => {
                self.ok = false;
                assert(before + Seq::<Seq<u8>>::empty() =~= before);
                None
            },
        }
    }

    /// The batch that goes on, and what it counts for. A batch with a failed
    /// chunk, or without a line, does not go on and counts for nothing.
    pub fn finish(self, elapsed: u128) -> (res: Option<(FormattedBatch, FormatStats)>)
        requires
            self.well_formed(),
        ensures
            res is Some <==> self.ok && self.lines@.len() > 0,
            res matches Some((batch, counts)) ==> {
                &&& batch.lines == self.lines
                &&& batch.seq == self.seq
                &&& batch.well_formed()
                &&& counts == (FormatStats {
                    total_batches: 1,
                    total_input_entries: self.entry_count as u64,
                    total_output_lines: self.lines@.len() as u64,
                    total_elapsed: elapsed,
                    wasm_mem_peak_max: self.wasm_peak,
                    total_component_ns: self.logic_ns,
                })
            },
    {
        if self.ok && self.lines.len() > 0 {
            let counts = FormatStats {
                total_batches: 1,
                total_input_entries: self.entry_count as u64,
                total_output_lines: self.lines.len() as u64,
                total_elapsed: elapsed,
                wasm_mem_peak_max: self.wasm_peak,
                total_component_ns: self.logic_ns,
            };
            Some(
                (
                    FormattedBatch {
                        lines: self.lines,
                        seq: self.seq,
                        total_bytes: self.total_bytes,
                    },
                    counts,
                ),
            )
        } else {
            None
        }
    }
}

/// The lines of several chunks, one behind the other.
pub open spec fn all_chunk_lines(outcomes: Seq<ChunkOutcome>) -> Seq<Seq<u8>>
    decreases outcomes.len(),
{
    if outcomes.len() == 0 {
        Seq::empty()
    } else {
        all_chunk_lines(outcomes.drop_last()) + chunk_lines(outcomes.last())
    }
}

/// A run through all its chunks: state `i` is the run after `i` chunks.
pub open spec fn is_run(states: Seq<FormatRun>, outcomes: Seq<ChunkOutcome>) -> bool {
    &&& states.len() == outcomes.len() + 1
    &&& states[0].ok
    &&& bytes::views(states[0].lines@) == Seq::<Seq<u8>>::empty()
    &&& forall|i: int|
        #![trigger outcomes[i]]
        0 <= i < outcomes.len() ==> FormatRun::advanced(states[i], outcomes[i], states[i + 1])
}

/// A batch is good exactly when every one of its chunks came back whole, and
/// it holds the lines of all chunks in order.
pub proof fn law_batch_holds_all_chunks(states: Seq<FormatRun>, outcomes: Seq<ChunkOutcome>)
    requires
        is_run(states, outcomes),
    ensures
        bytes::views(states.last().lines@) == all_chunk_lines(outcomes),
        states.last().ok <==> (forall|i: int|
            0 <= i < outcomes.len() ==> chunk_ok(#[trigger] outcomes[i])),
    decreases outcomes.len(),
{
    if outcomes.len() > 0 {
        let n = outcomes.len() - 1;
        let fewer = outcomes.drop_last();
        let earlier = states.drop_last();
        assert forall|i: int| #![trigger fewer[i]] 0 <= i < fewer.len() implies FormatRun::advanced(
            earlier[i],
            fewer[i],
            earlier[i + 1],
        ) by {
            assert(fewer[i] == outcomes[i]);
        }
        law_batch_holds_all_chunks(earlier, fewer);
        assert(FormatRun::advanced(states[n], outcomes[n], states[n + 1]));
        assert(earlier.last() == states[n]);
        if states.last().ok {
            assert forall|i: int| 0 <= i < outcomes.len() implies chunk_ok(
                #[trigger] outcomes[i],
            ) by {
                if i < n {
                    assert(fewer[i] == outcomes[i]);
                }
            }
        } else if forall|i: int| 0 <= i < outcomes.len() ==> chunk_ok(#[trigger] outcomes[i]) {
            assert forall|i: int| 0 <= i < fewer.len() implies chunk_ok(#[trigger] fewer[i]) by {
                assert(fewer[i] == outcomes[i]);
            }
        }
    }
}

/// The number that spreads batches over their lines.
pub const SAMPLE_STEP: usize = 2654435761;

/// The line of a batch that is shown, picked by the number of the batch.
pub fn sample_index(seq: u64, output_lines: usize) -> (res: usize)
    requires
        output_lines > 0,
    ensures
        res < output_lines,
        res == ((seq as usize).wrapping_mul(SAMPLE_STEP).wrapping_add(output_lines))
            % output_lines,
{
    (seq as usize).wrapping_mul(SAMPLE_STEP).wrapping_add(output_lines) % output_lines
}

/// The text that bytes are shown as.
pub uninterp spec fn lossy_text(b: Seq<u8>) -> Seq<char>;

/// `String::from_utf8_lossy` of the standard library: the text of the bytes,
/// with a replacement character where they are not UTF-8. Bytes that are
/// UTF-8 throughout give the text that they encode.
#[verifier::external_body]
fn from_utf8_lossy(b: &[u8]) -> (res: String)
    ensures
        res@ == lossy_text(b@),
        vstd::utf8::valid_utf8(b@) ==> res@ == vstd::utf8::decode_utf8(b@),
{
    String::from_utf8_lossy(b).into_owned()
}

/// How many bytes of a line are shown.
pub const PREVIEW_BYTES: usize = 300;

/// Text without the newlines at its end.
pub open spec fn trimmed_end(s: Seq<char>) -> Seq<char>
    decreases s.len(),
{
    if s.len() > 0 && s.last() == '\n' {
        trimmed_end(s.drop_last())
    } else {
        s
    }
}

/// What is shown of a line: the text of its beginning without the newlines at
/// the end, and an ellipsis where the line goes on.
pub open spec fn preview(text: Seq<char>, line_len: int) -> Seq<char> {
    if line_len > PREVIEW_BYTES {
        trimmed_end(text) + "…"@
    } else {
        trimmed_end(text)
    }
}

/// The beginning of a line that is shown.
pub open spec fn preview_bytes(line: Seq<u8>) -> Seq<u8> {
    if line.len() > PREVIEW_BYTES {
        line.subrange(0, PREVIEW_BYTES as int)
    } else {
        line
    }
}

/// What is shown of a line of `line_len` bytes whose beginning reads `text`.
pub fn preview_of(text: &str, line_len: usize) -> (res: String)
    ensures
        res@ == preview(text@, line_len as int),
{
    let chars = text::chars_of(text);
    let mut end: usize = chars.len();
    assert(chars@.subrange(0, end as int) =~= chars@);
    while end > 0 && chars[end - 1] == '\n'
        invariant
            end <= chars@.len(),
            trimmed_end(chars@.subrange(0, end as int)) == trimmed_end(chars@),
        decreases end,
    {
        assert(chars@.subrange(0, end as int).drop_last() =~= chars@.subrange(0, end - 1));
        end -= 1;
    }
    let mut out = text::text_of(&chars, 0, end);
    if line_len > PREVIEW_BYTES {
        out.append("…");
    }
    out
}

/// The message that shows one line of a batch, with the text of the beginning
/// of that line.
pub open spec fn sample_message(
    seq: int,
    index: int,
    output_lines: int,
    line: Seq<u8>,
    text: Seq<char>,
) -> Seq<char> {
    "[format-sample] batch="@ + text::decimal(seq as nat) + " #"@ + text::decimal(
        (index + 1) as nat,
    ) + "/"@ + text::decimal(output_lines as nat) + ": "@ + preview(text, line.len() as int)
}

/// The message that shows one line of a batch.
pub fn sample_line(batch: &FormattedBatch) -> (res: String)
    requires
        batch.lines@.len() > 0,
    ensures
        ({
            let n = batch.lines@.len() as usize;
            let index = ((batch.seq as usize).wrapping_mul(SAMPLE_STEP).wrapping_add(n)) % n;
            let line = batch@[index as int];
            res@ == sample_message(
                batch.seq as int,
                index as int,
                n as int,
                line,
                lossy_text(preview_bytes(line)),
            )
        }),
{
    let count: usize = batch.lines.len();
    let index: usize = sample_index(batch.seq, count);
    let line: &Vec<u8> = &batch.lines[index];
    let shown = if line.len() > PREVIEW_BYTES {
        bytes::copy_range(line.as_slice(), 0, PREVIEW_BYTES)
    } else {
        bytes::copy_range(line.as_slice(), 0, line.len())
    };
    assert(shown@ =~= preview_bytes(line@));
    let text = from_utf8_lossy(shown.as_slice());
    let mut out = "[format-sample] batch=".to_string();
    text::push_decimal(&mut out, batch.seq as u128);
    out.append(" #");
    text::push_decimal(&mut out, index as u128 + 1);
    out.append("/");
    text::push_decimal(&mut out, count as u128);
    out.append(": ");
    let tail = preview_of(text.as_str(), line.len());
    out.append(tail.as_str());
    out
}

/// A chunk whose output is lines in frames adds exactly those lines to a run, all
/// of them and in their order, behind those that it has, and leaves the run as
/// good as it was. The time is added up and the largest memory kept.
pub proof fn law_framed_chunk_adds_its_lines(
    before: FormatRun,
    after: FormatRun,
    lines: Seq<Seq<u8>>,
    output: Vec<u8>,
    logic_ns: u64,
    wasm_mem_peak: usize,
)
    requires
        forall|i: int| 0 <= i < lines.len() ==> (#[trigger] lines[i]).len() < 0x1_0000_0000,
        output@ == frames::framed(lines),
        FormatRun::advanced(
            before,
            ChunkOutcome::Formatted { output, logic_ns, wasm_mem_peak },
            after,
        ),
    ensures
        chunk_lines(ChunkOutcome::Formatted { output, logic_ns, wasm_mem_peak }) == lines,
        after.lines@.len() == before.lines@.len() + lines.len(),
        forall|i: int|
            0 <= i < before.lines@.len() ==> (#[trigger] after.lines@[i])@ == before.lines@[i]@,
        forall|i: int|
            0 <= i < lines.len() ==> (#[trigger] after.lines@[before.lines@.len() + i])@
                == lines[i],
        after.ok == before.ok,
        after.seq == before.seq,
        after.entry_count == before.entry_count,
        after.logic_ns - before.logic_ns == logic_ns,
        after.wasm_peak >= before.wasm_peak,
        after.wasm_peak >= wasm_mem_peak,
        after.wasm_peak == before.wasm_peak || after.wasm_peak == wasm_mem_peak,
{
    frames::law_frames_read_back(lines);
    bytes::law_views_are_of_each_vector(before.lines@);
    bytes::law_views_are_of_each_vector(after.lines@);
    let (old_views, new_views) = (bytes::views(before.lines@), bytes::views(after.lines@));
    assert(new_views == old_views + lines);
    let n = before.lines@.len() as int;
    assert forall|i: int| 0 <= i < n implies (#[trigger] after.lines@[i])@ == before.lines@[i]@ by {
        assert(new_views[i] == old_views[i]);
    }
    assert forall|i: int| 0 <= i < lines.len() implies (#[trigger] after.lines@[n + i])@
        == lines[i] by {
        assert(new_views[n + i] == lines[i]);
    }
}

/// A chunk that failed, or whose output ends in a frame that is cut off, spoils the
/// batch; one that failed brings no line and counts for nothing else. What is
/// spoilt stays so.
pub proof fn law_failed_chunk_spoils_batch(
    before: FormatRun,
    outcome: ChunkOutcome,
    after: FormatRun,
    lines: Seq<Seq<u8>>,
    declared: u32,
    tail: Seq<u8>,
)
    requires
        FormatRun::advanced(before, outcome, after),
        forall|i: int| 0 <= i < lines.len() ==> (#[trigger] lines[i]).len() < 0x1_0000_0000,
        tail.len() < declared,
    ensures
        !before.ok ==> !after.ok,
        !(outcome is Formatted) ==> !after.ok && after.lines@.len() == before.lines@.len()
            && after.logic_ns == before.logic_ns && after.wasm_peak == before.wasm_peak,
        outcome matches ChunkOutcome::Formatted { output, .. } ==> (output@ == frames::framed(lines)
            + (frames::le32_bytes(declared as nat) + tail) ==> !after.ok && after.lines@.len()
            == before.lines@.len() + lines.len()),
{
    bytes::law_views_are_of_each_vector(before.lines@);
    bytes::law_views_are_of_each_vector(after.lines@);
    assert(bytes::views(after.lines@).len() == bytes::views(before.lines@).len() + chunk_lines(
        outcome,
    ).len());
    match outcome {
        ChunkOutcome::Formatted { output, .. } => {
            if output@ == frames::framed(lines) + (frames::le32_bytes(declared as nat) + tail) {
                frames::lemma_torn(lines, declared, tail);
            }
        },
        _ => {},
    }
}

proof fn lemma_chunk_at(start: int, len: int, max: int, i: int)
    requires
        0 <= start <= len,
        max > 0,
        0 <= i < chunks_from(start, len, max).len(),
    ensures
        chunks_from(start, len, max)[i].0 == start + i * max,
        chunks_from(start, len, max)[i].1 == (if start + (i + 1) * max < len {
            start + (i + 1) * max
        } else {
            len
        }),
        start + i * max < len,
    decreases len - start,
{
    let end = chunk_end(start, len, max);
    if i > 0 {
        assert(chunks_from(start, len, max)[i] == chunks_from(end, len, max)[i - 1]);
        lemma_chunk_at(end, len, max, i - 1);
        assert(end + (i - 1) * max == start + i * max && end + i * max == start + (i + 1) * max)
            by (nonlinear_arith)
            requires
                end == start + max,
        ;
    }
    assert(i == 0 ==> i * max == 0 && (i + 1) * max == max) by (nonlinear_arith);
}

/// Every chunk but the last is as large as it may be: the chunk numbered `i`
/// begins behind `i` full ones, and only the end of the batch cuts a chunk short.
pub proof fn law_chunks_are_full(len: int, max: int, i: int)
    requires
        0 <= len,
        max > 0,
        0 <= i < chunks_from(0, len, max).len(),
    ensures
        chunks_from(0, len, max)[i].0 == i * max,
        i < chunks_from(0, len, max).len() - 1 ==> chunks_from(0, len, max)[i].1 == (i + 1) * max,
        i == chunks_from(0, len, max).len() - 1 ==> chunks_from(0, len, max)[i].1 == len,
{
    let chunks = chunks_from(0, len, max);
    lemma_chunk_at(0, len, max, i);
    if i < chunks.len() - 1 {
        lemma_chunk_at(0, len, max, i + 1);
    } else {
        lemma_last_chunk(0, len, max);
    }
}

proof fn lemma_last_chunk(start: int, len: int, max: int)
    requires
        0 <= start < len,
        max > 0,
    ensures
        chunks_from(start, len, max).len() > 0,
        chunks_from(start, len, max).last().1 == len,
    decreases len - start,
{
    let end = chunk_end(start, len, max);
    if end < len {
        lemma_last_chunk(end, len, max);
        let rest = chunks_from(end, len, max);
        assert(chunks_from(start, len, max).last() == rest.last());
    } else {
        assert(chunks_from(end, len, max) =~= Seq::empty());
    }
}

/// Trimmed text is the beginning of the text up to newlines that end it, and ends
/// in none itself.
pub proof fn law_only_newlines_are_trimmed(s: Seq<char>)
    ensures
        trimmed_end(s).len() <= s.len(),
        trimmed_end(s) == s.take(trimmed_end(s).len() as int),
        forall|i: int| trimmed_end(s).len() <= i < s.len() ==> #[trigger] s[i] == '\n',
        trimmed_end(s).len() > 0 ==> trimmed_end(s).last() != '\n',
    decreases s.len(),
{
    if s.len() > 0 && s.last() == '\n' {
        let shorter = s.drop_last();
        law_only_newlines_are_trimmed(shorter);
        assert(s.take(trimmed_end(s).len() as int) =~= shorter.take(trimmed_end(s).len() as int));
        assert forall|i: int| trimmed_end(s).len() <= i < s.len() implies #[trigger] s[i]
            == '\n' by {
            if i < shorter.len() {
                assert(shorter[i] == s[i]);
            }
        }
    } else {
        assert(s.take(s.len() as int) =~= s);
    }
}

/// What is shown of a line is its beginning, of at most three hundred bytes, and
/// an ellipsis follows exactly where the line is longer.
pub proof fn law_preview_is_the_beginning(line: Seq<u8>, text: Seq<char>)
    ensures
        preview_bytes(line).len() <= 300,
        preview_bytes(line) == line.take(preview_bytes(line).len() as int),
        preview_bytes(line).len() < line.len() ==> preview_bytes(line).len() == 300,
        preview(text, line.len() as int) == trimmed_end(text) <==> preview_bytes(line) == line,
        preview(text, line.len() as int).take(trimmed_end(text).len() as int) == trimmed_end(text),
        preview(text, line.len() as int).len() <= trimmed_end(text).len() + 1,
{
    reveal_strlit("…");
    let shown = preview(text, line.len() as int);
    assert(preview_bytes(line) =~= line.take(preview_bytes(line).len() as int));
    assert(shown.take(trimmed_end(text).len() as int) =~= trimmed_end(text));
    if line.len() <= 300 {
        assert(preview_bytes(line) =~= line);
    } else {
        assert(shown.len() == trimmed_end(text).len() + 1);
    }
}

/// The message that shows a line tells the number of the batch, the place of the
/// line counted from one, how many lines there are, and what is shown of it.
pub proof fn law_sample_tells_where_it_is_from(
    seq: int,
    index: int,
    output_lines: int,
    line: Seq<u8>,
    text: Seq<char>,
)
    ensures
        text::in_order(
            sample_message(seq, index, output_lines, line, text),
            seq![
                text::decimal(seq as nat),
                text::decimal((index + 1) as nat),
                text::decimal(output_lines as nat),
                preview(text, line.len() as int),
            ],
        ),
{
    let (a, b, c, d) = (
        text::decimal(seq as nat),
        text::decimal((index + 1) as nat),
        text::decimal(output_lines as nat),
        preview(text, line.len() as int),
    );
    let none = Seq::<Seq<char>>::empty();
    let end = Seq::<char>::empty();
    text::lemma_nothing_in_order(end);
    let r3 = ": "@ + d;
    assert(r3 =~= ": "@ + d + end);
    text::lemma_in_order(r3, ": "@, d, end, none);
    let r2 = "/"@ + c + r3;
    text::lemma_in_order(r2, "/"@, c, r3, seq![d] + none);
    let r1 = " #"@ + b + r2;
    text::lemma_in_order(r1, " #"@, b, r2, seq![c] + (seq![d] + none));
    let all = sample_message(seq, index, output_lines, line, text);
    assert(all =~= "[format-sample] batch="@ + a + r1);
    text::lemma_in_order(
        all,
        "[format-sample] batch="@,
        a,
        r1,
        seq![b] + (seq![c] + (seq![d] + none)),
    );
    assert(seq![a] + (seq![b] + (seq![c] + (seq![d] + none))) =~= seq![a, b, c, d]);
}

/// A batch that goes on is told line by line and knows how many bytes its lines
/// have together.
pub proof fn law_batch_knows_its_lines(batch: FormattedBatch)
    requires
        batch.well_formed(),
    ensures
        batch@.len() == batch.lines@.len(),
        forall|i: int| 0 <= i < batch@.len() ==> #[trigger] batch@[i] == batch.lines@[i]@,
        batch.total_bytes == bytes::joined(batch@).len(),
{
    bytes::law_joined_keeps_all(batch@, Seq::empty(), Seq::empty());
}

/// Fewer than four bytes behind the frames of a chunk neither spoil the batch nor
/// add a line to it.
pub proof fn law_last_bytes_spoil_nothing(
    before: FormatRun,
    after: FormatRun,
    lines: Seq<Seq<u8>>,
    tail: Seq<u8>,
    output: Vec<u8>,
    logic_ns: u64,
    wasm_mem_peak: usize,
)
    requires
        forall|i: int| 0 <= i < lines.len() ==> (#[trigger] lines[i]).len() < 0x1_0000_0000,
        tail.len() < 4,
        output@ == frames::framed(lines) + tail,
        FormatRun::advanced(
            before,
            ChunkOutcome::Formatted { output, logic_ns, wasm_mem_peak },
            after,
        ),
    ensures
        after.ok == before.ok,
        bytes::views(after.lines@) == bytes::views(before.lines@) + lines,
{
    frames::law_last_bytes_are_left_alone(lines, tail);
}

} // verus!

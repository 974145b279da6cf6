//! What the forwarder reports: one line per batch and stage, and a summary at
//! the end. Figures that are fractions come as text, already rounded.
use vstd::prelude::*;

use crate::batch;
use crate::batch::FlushReason;
use crate::config::{BatchConfig, PipelineStages};
use crate::stats;
use crate::stats::{FilterStats, FormatStats, ParseStats, TransportStats};
use crate::text;

verus! {

/// A number in a column, at its right edge.
pub open spec fn right(n: int, width: nat) -> Seq<char> {
    text::pad_left(text::decimal(n as nat), width, ' ')
}

/// A number in a column, at its left edge.
pub open spec fn left(n: int, width: nat) -> Seq<char> {
    text::pad_right(text::decimal(n as nat), width, ' ')
}

/// A figure in a column, at its right edge.
pub open spec fn figure(s: Seq<char>, width: nat) -> Seq<char> {
    text::pad_left(s, width, ' ')
}

fn push_right(out: &mut String, n: u128, width: usize)
    ensures
        final(out)@ == old(out)@ + right(n as int, width as nat),
{
    text::push_padded_left(out, text::decimal_text(n).as_str(), width, ' ');
}

fn push_left(out: &mut String, n: u128, width: usize)
    ensures
        final(out)@ == old(out)@ + left(n as int, width as nat),
{
    text::push_padded_right(out, text::decimal_text(n).as_str(), width, ' ');
}

fn push_figure(out: &mut String, s: &str, width: usize)
    ensures
        final(out)@ == old(out)@ + figure(s@, width as nat),
{
    text::push_padded_left(out, s, width, ' ');
}

fn put(lines: &mut Vec<String>, line: String)
    ensures
        batch::texts(final(lines)@) == batch::texts(old(lines)@).push(line@),
{
    lines.push(line);
    assert(batch::texts(lines@) =~= batch::texts(old(lines)@).push(line@));
}

/// The stages that take part, in their order.
pub open spec fn stage_names(stages: PipelineStages) -> Seq<char> {
    "parse"@ + (if stages.filter {
        " → filter"@
    } else {
        ""@
    }) + (if stages.format {
        " → format"@
    } else {
        ""@
    }) + (if stages.transport {
        " → transport"@
    } else {
        ""@
    })
}

/// What is reported at the start.
pub open spec fn startup(
    cfg: BatchConfig,
    safe_data_budget: usize,
    percent: Seq<char>,
    stages: PipelineStages,
) -> Seq<Seq<char>> {
    seq![
        "=== WCM Log Forwarder ==="@,
        "Parse Batch Max Size "@ + text::decimal(cfg.max_batch_lines as nat),
        "Memory Limit : "@ + text::decimal(cfg.mem_limit_mb as nat) + " MB"@,
        "Safe Budget  : "@ + text::decimal((safe_data_budget / 1024) as nat) + " KB ("@ + percent
            + "% of limit)"@,
        "Stages       : "@ + stage_names(stages),
        "========================"@,
    ]
}

/// What is reported at the start. `percent` is the safe data ratio in percent,
/// rounded to a whole number.
pub fn print_startup(
    cfg: &BatchConfig,
    safe_data_budget: usize,
    percent: &str,
    stages: &PipelineStages,
) -> (res: Vec<String>)
    ensures
        batch::texts(res@) == startup(*cfg, safe_data_budget, percent@, *stages),
{
    let mut lines: Vec<String> = Vec::new();
    assert(batch::texts(lines@) =~= Seq::<Seq<char>>::empty());
    put(&mut lines, "=== WCM Log Forwarder ===".to_string());
    let mut size = "Parse Batch Max Size ".to_string();
    text::push_decimal(&mut size, cfg.max_batch_lines as u128);
    put(&mut lines, size);
    let mut limit = "Memory Limit : ".to_string();
    text::push_decimal(&mut limit, cfg.mem_limit_mb as u128);
    limit.append(" MB");
    put(&mut lines, limit);
    let mut budget = "Safe Budget  : ".to_string();
    text::push_decimal(&mut budget, (safe_data_budget / 1024) as u128);
    budget.append(" KB (");
    budget.append(percent);
    budget.append("% of limit)");
    put(&mut lines, budget);
    let mut names = "parse".to_string();
    names.append(
        if stages.filter {
            " → filter"
        } else {
            ""
        },
    );
    names.append(
        if stages.format {
            " → format"
        } else {
            ""
        },
    );
    names.append(
        if stages.transport {
            " → transport"
        } else {
            ""
        },
    );
    let mut all = "Stages       : ".to_string();
    all.append(names.as_str());
    put(&mut lines, all);
    put(&mut lines, "========================".to_string());
    lines
}

/// Why a batch was passed on, in a word.
pub open spec fn reason_word(reason: FlushReason) -> Seq<char> {
    if reason.eof {
        "eof  "@
    } else if reason.size {
        "size "@
    } else if reason.line_count {
        "lines"@
    } else {
        "time "@
    }
}

/// The head of a batch that was passed on.
pub open spec fn flush_header(
    seq: u64,
    lines: usize,
    size_kb: Seq<char>,
    age_ms: u128,
    reason: FlushReason,
) -> Seq<char> {
    "\n--- Flush #"@ + right(seq as int, 4) + " ["@ + reason_word(reason) + "] | "@ + right(
        lines as int,
        6,
    ) + " lines / "@ + figure(size_kb, 7) + "KB / age="@ + right(age_ms as int, 5) + "ms ---"@
}

/// The head of a batch that was passed on: its number, why, how many lines and
/// kilobytes it has, and for how many milliseconds it was filled.
pub fn print_flush_header(
    seq: u64,
    lines: usize,
    size_kb: &str,
    age_ms: u128,
    reason: &FlushReason,
) -> (res: String)
    ensures
        res@ == flush_header(seq, lines, size_kb@, age_ms, *reason),
{
    let why = if reason.eof {
        "eof  "
    } else if reason.size {
        "size "
    } else if reason.line_count {
        "lines"
    } else {
        "time "
    };
    let mut out = "\n--- Flush #".to_string();
    push_right(&mut out, seq as u128, 4);
    out.append(" [");
    out.append(why);
    out.append("] | ");
    push_right(&mut out, lines as u128, 6);
    out.append(" lines / ");
    push_figure(&mut out, size_kb, 7);
    out.append("KB / age=");
    push_right(&mut out, age_ms, 5);
    out.append("ms ---");
    out
}

/// The line of a batch that was parsed.
pub open spec fn parse_line(
    worker_id: usize,
    seq: u64,
    input_lines: usize,
    input_kb: Seq<char>,
    time_ms: Seq<char>,
    per_second: Seq<char>,
    output_entries: usize,
) -> Seq<char> {
    "[parse-w"@ + text::decimal(worker_id as nat) + " #"@ + right(seq as int, 4) + "]  In="@
        + right(input_lines as int, 6) + "/"@ + figure(input_kb, 7) + "KB  Time="@ + figure(
        time_ms,
        7,
    ) + "ms  "@ + figure(per_second, 7) + "/s  Out="@ + right(output_entries as int, 6)
}

/// The line of a batch that was parsed.
pub fn print_parse_batch(
    worker_id: usize,
    seq: u64,
    input_lines: usize,
    input_kb: &str,
    time_ms: &str,
    per_second: &str,
    output_entries: usize,
) -> (res: String)
    ensures
        res@ == parse_line(
            worker_id,
            seq,
            input_lines,
            input_kb@,
            time_ms@,
            per_second@,
            output_entries,
        ),
{
    let mut out = "[parse-w".to_string();
    text::push_decimal(&mut out, worker_id as u128);
    out.append(" #");
    push_right(&mut out, seq as u128, 4);
    out.append("]  In=");
    push_right(&mut out, input_lines as u128, 6);
    out.append("/");
    push_figure(&mut out, input_kb, 7);
    out.append("KB  Time=");
    push_figure(&mut out, time_ms, 7);
    out.append("ms  ");
    push_figure(&mut out, per_second, 7);
    out.append("/s  Out=");
    push_right(&mut out, output_entries as u128, 6);
    out
}

/// The line of a batch that was filtered.
pub open spec fn filter_line(
    seq: u64,
    input_entries: usize,
    kept: usize,
    drop_percent: Seq<char>,
    time_ms: Seq<char>,
    per_second: Seq<char>,
) -> Seq<char> {
    "[filter  #"@ + right(seq as int, 4) + "]  In="@ + right(input_entries as int, 6) + "  kept="@
        + right(kept as int, 6) + "  drop="@ + figure(drop_percent, 5) + "%  Time="@ + figure(
        time_ms,
        7,
    ) + "ms  "@ + figure(per_second, 7) + "/s"@
}

/// The line of a batch that was filtered.
pub fn print_filter_batch(
    seq: u64,
    input_entries: usize,
    kept: usize,
    drop_percent: &str,
    time_ms: &str,
    per_second: &str,
) -> (res: String)
    ensures
        res@ == filter_line(seq, input_entries, kept, drop_percent@, time_ms@, per_second@),
{
    let mut out = "[filter  #".to_string();
    push_right(&mut out, seq as u128, 4);
    out.append("]  In=");
    push_right(&mut out, input_entries as u128, 6);
    out.append("  kept=");
    push_right(&mut out, kept as u128, 6);
    out.append("  drop=");
    push_figure(&mut out, drop_percent, 5);
    out.append("%  Time=");
    push_figure(&mut out, time_ms, 7);
    out.append("ms  ");
    push_figure(&mut out, per_second, 7);
    out.append("/s");
    out
}

/// The line of a batch that was formatted.
pub open spec fn format_line(
    seq: u64,
    input_entries: usize,
    output_lines: usize,
    time_ms: Seq<char>,
    per_second: Seq<char>,
) -> Seq<char> {
    "[format  #"@ + right(seq as int, 4) + "]  In="@ + right(input_entries as int, 6) + "  Out="@
        + right(output_lines as int, 6) + "  Time="@ + figure(time_ms, 7) + "ms  "@ + figure(
        per_second,
        7,
    ) + "/s"@
}

/// The line of a batch that was formatted.
pub fn print_format_batch(
    seq: u64,
    input_entries: usize,
    output_lines: usize,
    time_ms: &str,
    per_second: &str,
) -> (res: String)
    ensures
        res@ == format_line(seq, input_entries, output_lines, time_ms@, per_second@),
{
    let mut out = "[format  #".to_string();
    push_right(&mut out, seq as u128, 4);
    out.append("]  In=");
    push_right(&mut out, input_entries as u128, 6);
    out.append("  Out=");
    push_right(&mut out, output_lines as u128, 6);
    out.append("  Time=");
    push_figure(&mut out, time_ms, 7);
    out.append("ms  ");
    push_figure(&mut out, per_second, 7);
    out.append("/s");
    out
}

/// The line of a batch that was sent.
pub open spec fn transport_line(
    seq: u64,
    input_lines: usize,
    input_kb: Seq<char>,
    mem_kb: Seq<char>,
    mem_percent: Seq<char>,
    time_ms: Seq<char>,
    per_second: Seq<char>,
) -> Seq<char> {
    "[transport #"@ + right(seq as int, 4) + "]  In="@ + right(input_lines as int, 6) + "/"@
        + figure(input_kb, 7) + "KB  Mem="@ + figure(mem_kb, 7) + "KB("@ + figure(mem_percent, 5)
        + "%)  Time="@ + figure(time_ms, 7) + "ms  "@ + figure(per_second, 7) + "/s"@
}

/// The line of a batch that was sent.
pub fn print_transport_batch(
    seq: u64,
    input_lines: usize,
    input_kb: &str,
    mem_kb: &str,
    mem_percent: &str,
    time_ms: &str,
    per_second: &str,
) -> (res: String)
    ensures
        res@ == transport_line(
            seq,
            input_lines,
            input_kb@,
            mem_kb@,
            mem_percent@,
            time_ms@,
            per_second@,
        ),
{
    let mut out = "[transport #".to_string();
    push_right(&mut out, seq as u128, 4);
    out.append("]  In=");
    push_right(&mut out, input_lines as u128, 6);
    out.append("/");
    push_figure(&mut out, input_kb, 7);
    out.append("KB  Mem=");
    push_figure(&mut out, mem_kb, 7);
    out.append("KB(");
    push_figure(&mut out, mem_percent, 5);
    out.append("%)  Time=");
    push_figure(&mut out, time_ms, 7);
    out.append("ms  ");
    push_figure(&mut out, per_second, 7);
    out.append("/s");
    out
}

/// What is reported of all parse workers together.
pub open spec fn aggregate(
    stats: ParseStats,
    workers: usize,
    errors: u32,
    wall_s: Seq<char>,
    per_second: Seq<char>,
) -> Seq<Seq<char>> {
    seq![
        "\n[parse-aggregate] workers="@ + text::decimal(workers as nat) + "  batches="@
            + text::decimal(stats.total_batches as nat) + "  entries="@ + text::decimal(
            stats.total_output_entries as nat,
        ) + "  errors="@ + text::decimal(errors as nat),
        "                  wall="@ + wall_s + "s  throughput="@ + per_second + " entries/s"@,
    ]
}

/// What is reported of all parse workers together.
pub fn print_parse_aggregate(
    stats: &ParseStats,
    workers: usize,
    errors: u32,
    wall_s: &str,
    per_second: &str,
) -> (res: Vec<String>)
    ensures
        batch::texts(res@) == aggregate(*stats, workers, errors, wall_s@, per_second@),
{
    let mut lines: Vec<String> = Vec::new();
    assert(batch::texts(lines@) =~= Seq::<Seq<char>>::empty());
    let mut counts = "\n[parse-aggregate] workers=".to_string();
    text::push_decimal(&mut counts, workers as u128);
    counts.append("  batches=");
    text::push_decimal(&mut counts, stats.total_batches as u128);
    counts.append("  entries=");
    text::push_decimal(&mut counts, stats.total_output_entries as u128);
    counts.append("  errors=");
    text::push_decimal(&mut counts, errors as u128);
    put(&mut lines, counts);
    let mut times = "                  wall=".to_string();
    times.append(wall_s);
    times.append("s  throughput=");
    times.append(per_second);
    times.append(" entries/s");
    put(&mut lines, times);
    lines
}

/// The time that a stage took, and what it did in a second.
pub struct StageFigures {
    pub elapsed_ms: String,
    pub per_second: String,
}

/// The figures of the summary.
pub struct SummaryFigures {
    pub filter: StageFigures,
    /// The part of the entries that was dropped, in percent.
    pub drop_percent: String,
    pub format: StageFigures,
    pub transport: StageFigures,
    pub overall: StageFigures,
}

/// How many of something, and the nanoseconds that they took. How many there are
/// in a second is made of the two.
#[derive(Clone, Copy, Debug, PartialEq, Eq, Structural)]
pub struct Measure {
    pub count: u64,
    pub nanos: u128,
}

/// A part of a whole that is at least one.
#[derive(Clone, Copy, Debug, PartialEq, Eq, Structural)]
pub struct Share {
    pub part: u64,
    pub whole: u64,
}

/// What the figures of the summary are made of. A stage that took no part has
/// none.
#[derive(Clone, Copy, Debug, PartialEq, Eq, Structural)]
pub struct SummaryMeasures {
    pub filter: Option<Measure>,
    pub dropped: Option<Share>,
    pub format: Option<Measure>,
    pub transport: Option<Measure>,
    pub overall: Measure,
}

/// What the part of the entries that a filter dropped is made of: where there
/// was no entry, none of one was dropped.
pub fn drop_share(fs: &FilterStats) -> (res: Share)
    ensures
        res.part == fs.total_dropped_entries,
        res.whole == stats::larger(fs.total_input_entries as int, 1),
{
    Share {
        part: fs.total_dropped_entries,
        whole: if fs.total_input_entries < 1 {
            1
        } else {
            fs.total_input_entries
        },
    }
}

/// What the figures of the summary are made of: the entries that the filter and
/// the format stage were given and the lines that the transport stage was given,
/// each over the time that the stage took, and the lines that came in over the
/// time of the whole.
pub fn summary_measures(
    p: &ParseStats,
    fi: Option<&FilterStats>,
    f: Option<&FormatStats>,
    t: Option<&TransportStats>,
    wall: u128,
) -> (res: SummaryMeasures)
    ensures
        match fi {
            Some(fs) => res.filter == Some(
                Measure { count: fs.total_input_entries, nanos: fs.total_elapsed },
            ) && res.dropped == Some(
                Share {
                    part: fs.total_dropped_entries,
                    whole: stats::larger(fs.total_input_entries as int, 1) as u64,
                },
            ),
            None => res.filter is None && res.dropped is None,
        },
        match f {
            Some(fs) => res.format == Some(
                Measure { count: fs.total_input_entries, nanos: fs.total_elapsed },
            ),
            None => res.format is None,
        },
        match t {
            Some(ts) => res.transport == Some(
                Measure { count: ts.total_input_lines, nanos: ts.total_elapsed },
            ),
            None => res.transport is None,
        },
        res.overall == (Measure { count: p.total_input_lines, nanos: wall }),
{
    SummaryMeasures {
        filter: match fi {
            Some(fs) => Some(Measure { count: fs.total_input_entries, nanos: fs.total_elapsed }),
            None => None,
        },
        dropped: match fi {
            Some(fs) => Some(drop_share(fs)),
            None => None,
        },
        format: match f {
            Some(fs) => Some(Measure { count: fs.total_input_entries, nanos: fs.total_elapsed }),
            None => None,
        },
        transport: match t {
            Some(ts) => Some(Measure { count: ts.total_input_lines, nanos: ts.total_elapsed }),
            None => None,
        },
        overall: Measure { count: p.total_input_lines, nanos: wall },
    }
}

/// What is measured of all parse workers together: the entries that came out of
/// them, over the time of the whole.
pub fn aggregate_measure(p: &ParseStats, wall: u128) -> (res: Measure)
    ensures
        res == (Measure { count: p.total_output_entries, nanos: wall }),
{
    Measure { count: p.total_output_entries, nanos: wall }
}

/// What is measured of filtering a batch: the entries that it had.
pub fn filter_measure(counts: &FilterStats) -> (res: Measure)
    ensures
        res == (Measure { count: counts.total_input_entries, nanos: counts.total_elapsed }),
{
    Measure { count: counts.total_input_entries, nanos: counts.total_elapsed }
}

/// What is measured of formatting a batch: the lines that came out of it.
pub fn format_measure(counts: &FormatStats) -> (res: Measure)
    ensures
        res == (Measure { count: counts.total_output_lines, nanos: counts.total_elapsed }),
{
    Measure { count: counts.total_output_lines, nanos: counts.total_elapsed }
}

/// What is measured of sending a batch: its lines.
pub fn transport_measure(counts: &TransportStats) -> (res: Measure)
    ensures
        res == (Measure { count: counts.total_input_lines, nanos: counts.total_elapsed }),
{
    Measure { count: counts.total_input_lines, nanos: counts.total_elapsed }
}

/// The line between two stages.
pub open spec fn rule() -> Seq<char> {
    "╠══════════════════════════════════════════════════════════╣"@
}

/// The line with the time that a stage took.
pub open spec fn time_line(f: StageFigures, unit: Seq<char>) -> Seq<char> {
    "║        │ elapsed="@ + f.elapsed_ms@ + "ms  throughput="@ + f.per_second@ + unit
}

/// What the summary tells of parsing.
pub open spec fn parse_counts(p: ParseStats) -> Seq<char> {
    "║ Parse  │ batches="@ + left(p.total_batches as int, 6) + " input="@ + left(
        p.total_input_lines as int,
        10,
    ) + " entries="@ + left(p.total_output_entries as int, 10)
}

/// What the summary tells of filtering.
pub open spec fn filter_part(fi: Option<&FilterStats>, g: SummaryFigures) -> Seq<Seq<char>> {
    match fi {
        Some(fs) => seq![
            "║ Filter │ batches="@ + left(fs.total_batches as int, 6) + " in="@ + left(
                fs.total_input_entries as int,
                10,
            ) + " kept="@ + left(fs.total_kept_entries as int, 10) + " dropped="@ + text::decimal(
                fs.total_dropped_entries as nat,
            ) + " ("@ + g.drop_percent@ + "%)"@,
            time_line(g.filter, " entries/s"@),
        ],
        None => seq!["║ Filter │ (disabled)                                           ║"@],
    }
}

/// What the summary tells of formatting.
pub open spec fn format_part(f: Option<&FormatStats>, g: SummaryFigures) -> Seq<Seq<char>> {
    match f {
        Some(fs) => seq![
            "║ Format │ batches="@ + left(fs.total_batches as int, 6) + " entries="@ + left(
                fs.total_input_entries as int,
                10,
            ) + " lines="@ + left(fs.total_output_lines as int, 10),
            time_line(g.format, " entries/s"@),
        ],
        None => seq!["║ Format │ (disabled)                                           ║"@],
    }
}

/// What the summary tells of sending.
pub open spec fn transport_part(t: Option<&TransportStats>, g: SummaryFigures) -> Seq<Seq<char>> {
    match t {
        Some(ts) => seq![
            "║ Trans  │ batches="@ + left(ts.total_batches as int, 6) + " lines="@ + left(
                ts.total_input_lines as int,
                10,
            ) + " bytes="@ + left(ts.total_input_bytes as int, 12),
            time_line(g.transport, " lines/s"@),
        ],
        None => seq!["║ Trans  │ (disabled)                                           ║"@],
    }
}

/// The lines that left the pipeline: those of the format stage, or the entries
/// where there is none.
pub open spec fn output_lines(p: ParseStats, f: Option<&FormatStats>) -> u64 {
    match f {
        Some(fs) => fs.total_output_lines,
        None => p.total_output_entries,
    }
}

/// What the summary tells of the whole pipeline.
pub open spec fn overall_part(
    p: ParseStats,
    f: Option<&FormatStats>,
    g: SummaryFigures,
) -> Seq<Seq<char>> {
    seq![
        "║ E2E    │ input="@ + text::decimal(p.total_input_lines as nat) + " lines → output="@
            + text::decimal(output_lines(p, f) as nat) + " lines"@,
        "║        │ wall="@ + g.overall.elapsed_ms@ + "ms  throughput="@ + g.overall.per_second@
            + " lines/s (all stages parallel)"@,
    ]
}

/// The summary.
pub open spec fn summary(
    p: ParseStats,
    fi: Option<&FilterStats>,
    f: Option<&FormatStats>,
    t: Option<&TransportStats>,
    g: SummaryFigures,
) -> Seq<Seq<char>> {
    seq![
        "\n╔══════════════════════════════════════════════════════════╗"@,
        "║                   Pipeline Summary                      ║"@,
        rule(),
        parse_counts(p),
        rule(),
    ] + filter_part(fi, g) + seq![rule()] + format_part(f, g) + seq![rule()] + transport_part(t, g)
        + seq![rule()] + overall_part(p, f, g) + seq![
        "╚══════════════════════════════════════════════════════════╝"@,
    ]
}

fn time_text(f: &StageFigures, unit: &str) -> (res: String)
    ensures
        res@ == time_line(*f, unit@),
{
    let mut out = "║        │ elapsed=".to_string();
    out.append(f.elapsed_ms.as_str());
    out.append("ms  throughput=");
    out.append(f.per_second.as_str());
    out.append(unit);
    out
}

fn put_rule(lines: &mut Vec<String>)
    ensures
        batch::texts(final(lines)@) == batch::texts(old(lines)@) + seq![rule()],
{
    put(lines, "╠══════════════════════════════════════════════════════════╣".to_string());
    assert(batch::texts(lines@) =~= batch::texts(old(lines)@) + seq![rule()]);
}

fn put_filter(lines: &mut Vec<String>, fi: Option<&FilterStats>, g: &SummaryFigures)
    ensures
        batch::texts(final(lines)@) == batch::texts(old(lines)@) + filter_part(fi, *g),
{
    match fi {
        Some(fs) => {
            let mut out = "║ Filter │ batches=".to_string();
            push_left(&mut out, fs.total_batches as u128, 6);
            out.append(" in=");
            push_left(&mut out, fs.total_input_entries as u128, 10);
            out.append(" kept=");
            push_left(&mut out, fs.total_kept_entries as u128, 10);
            out.append(" dropped=");
            text::push_decimal(&mut out, fs.total_dropped_entries as u128);
            out.append(" (");
            out.append(g.drop_percent.as_str());
            out.append("%)");
            put(lines, out);
            put(lines, time_text(&g.filter, " entries/s"));
        },
        None => {
            put(
                lines,
                "║ Filter │ (disabled)                                           ║".to_string(),
            );
        },
    }
    assert(batch::texts(lines@) =~= batch::texts(old(lines)@) + filter_part(fi, *g));
}

fn put_format(lines: &mut Vec<String>, f: Option<&FormatStats>, g: &SummaryFigures)
    ensures
        batch::texts(final(lines)@) == batch::texts(old(lines)@) + format_part(f, *g),
{
    match f {
        Some(fs) => {
            let mut out = "║ Format │ batches=".to_string();
            push_left(&mut out, fs.total_batches as u128, 6);
            out.append(" entries=");
            push_left(&mut out, fs.total_input_entries as u128, 10);
            out.append(" lines=");
            push_left(&mut out, fs.total_output_lines as u128, 10);
            put(lines, out);
            put(lines, time_text(&g.format, " entries/s"));
        },
        None => {
            put(
                lines,
                "║ Format │ (disabled)                                           ║".to_string(),
            );
        },
    }
    assert(batch::texts(lines@) =~= batch::texts(old(lines)@) + format_part(f, *g));
}

fn put_transport(lines: &mut Vec<String>, t: Option<&TransportStats>, g: &SummaryFigures)
    ensures
        batch::texts(final(lines)@) == batch::texts(old(lines)@) + transport_part(t, *g),
{
    match t {
        Some(ts) => {
            let mut out = "║ Trans  │ batches=".to_string();
            push_left(&mut out, ts.total_batches as u128, 6);
            out.append(" lines=");
            push_left(&mut out, ts.total_input_lines as u128, 10);
            out.append(" bytes=");
            push_left(&mut out, ts.total_input_bytes as u128, 12);
            put(lines, out);
            put(lines, time_text(&g.transport, " lines/s"));
        },
        None => {
            put(
                lines,
                "║ Trans  │ (disabled)                                           ║".to_string(),
            );
        },
    }
    assert(batch::texts(lines@) =~= batch::texts(old(lines)@) + transport_part(t, *g));
}

fn put_overall(
    lines: &mut Vec<String>,
    p: &ParseStats,
    f: Option<&FormatStats>,
    g: &SummaryFigures,
)
    ensures
        batch::texts(final(lines)@) == batch::texts(old(lines)@) + overall_part(*p, f, *g),
{
    let output: u64 = match f {
        Some(fs) => fs.total_output_lines,
        None => p.total_output_entries,
    };
    let mut counts = "║ E2E    │ input=".to_string();
    text::push_decimal(&mut counts, p.total_input_lines as u128);
    counts.append(" lines → output=");
    text::push_decimal(&mut counts, output as u128);
    counts.append(" lines");
    put(lines, counts);
    let mut times = "║        │ wall=".to_string();
    times.append(g.overall.elapsed_ms.as_str());
    times.append("ms  throughput=");
    times.append(g.overall.per_second.as_str());
    times.append(" lines/s (all stages parallel)");
    put(lines, times);
    assert(batch::texts(lines@) =~= batch::texts(old(lines)@) + overall_part(*p, f, *g));
}

/// The summary of all stages. A stage that took no part is marked as disabled.
pub fn print_pipeline_summary(
    p: &ParseStats,
    fi: Option<&FilterStats>,
    f: Option<&FormatStats>,
    t: Option<&TransportStats>,
    figures: &SummaryFigures,
) -> (res: Vec<String>)
    ensures
        batch::texts(res@) == summary(*p, fi, f, t, *figures),
{
    let mut lines: Vec<String> = Vec::new();
    assert(batch::texts(lines@) =~= Seq::<Seq<char>>::empty());
    put(
        &mut lines,
        "\n╔══════════════════════════════════════════════════════════╗".to_string(),
    );
    put(&mut lines, "║                   Pipeline Summary                      ║".to_string());
    put(&mut lines, "╠══════════════════════════════════════════════════════════╣".to_string());
    let mut parsed = "║ Parse  │ batches=".to_string();
    push_left(&mut parsed, p.total_batches as u128, 6);
    parsed.append(" input=");
    push_left(&mut parsed, p.total_input_lines as u128, 10);
    parsed.append(" entries=");
    push_left(&mut parsed, p.total_output_entries as u128, 10);
    put(&mut lines, parsed);
    put(&mut lines, "╠══════════════════════════════════════════════════════════╣".to_string());
    put_filter(&mut lines, fi, figures);
    put_rule(&mut lines);
    put_format(&mut lines, f, figures);
    put_rule(&mut lines);
    put_transport(&mut lines, t, figures);
    put_rule(&mut lines);
    put_overall(&mut lines, p, f, figures);
    let ghost before = batch::texts(lines@);
    put(&mut lines, "╚══════════════════════════════════════════════════════════╝".to_string());
    assert(batch::texts(lines@) =~= before + seq![
        "╚══════════════════════════════════════════════════════════╝"@,
    ]);
    lines
}

/// Whether a number fits a column.
pub open spec fn fits(n: int, width: nat) -> bool {
    text::decimal(n as nat).len() <= width
}

/// The lines of one stage are of the same length in all batches whose numbers
/// and figures fit their columns, so that columns stay aligned.
pub proof fn law_columns_stay_aligned(
    seq: u64,
    a: usize,
    b: usize,
    kb: Seq<char>,
    mem_kb: Seq<char>,
    percent: Seq<char>,
    time_ms: Seq<char>,
    per_second: Seq<char>,
)
    requires
        fits(seq as int, 4),
        fits(a as int, 6),
        fits(b as int, 6),
        kb.len() <= 7,
        mem_kb.len() <= 7,
        percent.len() <= 5,
        time_ms.len() <= 7,
        per_second.len() <= 7,
    ensures
        parse_line(0, seq, a, kb, time_ms, per_second, b).len() == 76,
        filter_line(seq, a, b, percent, time_ms, per_second).len() == 79,
        format_line(seq, a, b, time_ms, per_second).len() == 65,
        transport_line(seq, a, kb, mem_kb, percent, time_ms, per_second).len() == 88,
{
    reveal_strlit("[parse-w");
    reveal_strlit(" #");
    reveal_strlit("]  In=");
    reveal_strlit("/");
    reveal_strlit("KB  Time=");
    reveal_strlit("ms  ");
    reveal_strlit("/s  Out=");
    reveal_strlit("[filter  #");
    reveal_strlit("  kept=");
    reveal_strlit("  drop=");
    reveal_strlit("%  Time=");
    reveal_strlit("/s");
    reveal_strlit("[format  #");
    reveal_strlit("  Out=");
    reveal_strlit("  Time=");
    reveal_strlit("[transport #");
    reveal_strlit("KB  Mem=");
    reveal_strlit("KB(");
    reveal_strlit("%)  Time=");
}

/// The head of a batch tells its number, why it was passed on, its lines, its size and
/// its age, in this order.
pub proof fn law_flush_header_tells_all(
    seq: u64,
    lines: usize,
    size_kb: Seq<char>,
    age_ms: u128,
    reason: FlushReason,
)
    ensures
        text::in_order(
            flush_header(seq, lines, size_kb, age_ms, reason),
            seq![
                text::decimal(seq as nat),
                reason_word(reason),
                text::decimal(lines as nat),
                size_kb,
                text::decimal(age_ms as nat),
            ],
        ),
{
    let none = Seq::<Seq<char>>::empty();
    let p0 = text::decimal(seq as nat);
    let p1 = reason_word(reason);
    let p2 = text::decimal(lines as nat);
    let p3 = size_kb;
    let p4 = text::decimal(age_ms as nat);
    let h1 = "\n--- Flush #"@ + text::pad_left(p0, 4, ' ');
    let h2 = h1 + " ["@ + p1;
    let h3 = h2 + "] | "@ + text::pad_left(p2, 6, ' ');
    let h4 = h3 + " lines / "@ + text::pad_left(p3, 7, ' ');
    let h5 = h4 + "KB / age="@ + text::pad_left(p4, 5, ' ');
    let r5 = "ms ---"@;
    let r4 = "KB / age="@ + text::pad_left(p4, 5, ' ') + r5;
    let r3 = " lines / "@ + text::pad_left(p3, 7, ' ') + r4;
    let r2 = "] | "@ + text::pad_left(p2, 6, ' ') + r3;
    let r1 = " ["@ + p1 + r2;
    let line = flush_header(seq, lines, size_kb, age_ms, reason);
    assert(line =~= h5 + r5);
    text::lemma_put_together(h4, "KB / age="@, text::pad_left(p4, 5, ' '), r5);
    text::lemma_put_together(h3, " lines / "@, text::pad_left(p3, 7, ' '), r4);
    text::lemma_put_together(h2, "] | "@, text::pad_left(p2, 6, ' '), r3);
    text::lemma_put_together(h1, " ["@, p1, r2);
    text::lemma_nothing_in_order(r5);
    text::lemma_padded_in_order(r4, "KB / age="@, p4, 5, r5, none);
    let q4 = seq![p4] + none;
    text::lemma_padded_in_order(r3, " lines / "@, p3, 7, r4, q4);
    let q3 = seq![p3] + q4;
    text::lemma_padded_in_order(r2, "] | "@, p2, 6, r3, q3);
    let q2 = seq![p2] + q3;
    text::lemma_in_order(r1, " ["@, p1, r2, q2);
    let q1 = seq![p1] + q2;
    text::lemma_padded_in_order(line, "\n--- Flush #"@, p0, 4, r1, q1);
    let q0 = seq![p0] + q1;
    assert(q0 =~= seq![p0, p1, p2, p3, p4]);
}

/// The line of a batch that was parsed tells the worker, the number of the batch, its
/// lines, its size, the time, the rate and the entries, in this order.
pub proof fn law_parse_line_tells_all(
    worker_id: usize,
    seq: u64,
    input_lines: usize,
    input_kb: Seq<char>,
    time_ms: Seq<char>,
    per_second: Seq<char>,
    output_entries: usize,
)
    ensures
        text::in_order(
            parse_line(worker_id, seq, input_lines, input_kb, time_ms, per_second, output_entries),
            seq![
                text::decimal(worker_id as nat),
                text::decimal(seq as nat),
                text::decimal(input_lines as nat),
                input_kb,
                time_ms,
                per_second,
                text::decimal(output_entries as nat),
            ],
        ),
{
    let none = Seq::<Seq<char>>::empty();
    let p0 = text::decimal(worker_id as nat);
    let p1 = text::decimal(seq as nat);
    let p2 = text::decimal(input_lines as nat);
    let p3 = input_kb;
    let p4 = time_ms;
    let p5 = per_second;
    let p6 = text::decimal(output_entries as nat);
    let h1 = "[parse-w"@ + p0;
    let h2 = h1 + " #"@ + text::pad_left(p1, 4, ' ');
    let h3 = h2 + "]  In="@ + text::pad_left(p2, 6, ' ');
    let h4 = h3 + "/"@ + text::pad_left(p3, 7, ' ');
    let h5 = h4 + "KB  Time="@ + text::pad_left(p4, 7, ' ');
    let h6 = h5 + "ms  "@ + text::pad_left(p5, 7, ' ');
    let h7 = h6 + "/s  Out="@ + text::pad_left(p6, 6, ' ');
    let r7 = Seq::<char>::empty();
    let r6 = "/s  Out="@ + text::pad_left(p6, 6, ' ') + r7;
    let r5 = "ms  "@ + text::pad_left(p5, 7, ' ') + r6;
    let r4 = "KB  Time="@ + text::pad_left(p4, 7, ' ') + r5;
    let r3 = "/"@ + text::pad_left(p3, 7, ' ') + r4;
    let r2 = "]  In="@ + text::pad_left(p2, 6, ' ') + r3;
    let r1 = " #"@ + text::pad_left(p1, 4, ' ') + r2;
    let line = parse_line(worker_id, seq, input_lines, input_kb, time_ms, per_second, output_entries);
    assert(line =~= h7 + r7);
    text::lemma_put_together(h6, "/s  Out="@, text::pad_left(p6, 6, ' '), r7);
    text::lemma_put_together(h5, "ms  "@, text::pad_left(p5, 7, ' '), r6);
    text::lemma_put_together(h4, "KB  Time="@, text::pad_left(p4, 7, ' '), r5);
    text::lemma_put_together(h3, "/"@, text::pad_left(p3, 7, ' '), r4);
    text::lemma_put_together(h2, "]  In="@, text::pad_left(p2, 6, ' '), r3);
    text::lemma_put_together(h1, " #"@, text::pad_left(p1, 4, ' '), r2);
    text::lemma_nothing_in_order(r7);
    text::lemma_padded_in_order(r6, "/s  Out="@, p6, 6, r7, none);
    let q6 = seq![p6] + none;
    text::lemma_padded_in_order(r5, "ms  "@, p5, 7, r6, q6);
    let q5 = seq![p5] + q6;
    text::lemma_padded_in_order(r4, "KB  Time="@, p4, 7, r5, q5);
    let q4 = seq![p4] + q5;
    text::lemma_padded_in_order(r3, "/"@, p3, 7, r4, q4);
    let q3 = seq![p3] + q4;
    text::lemma_padded_in_order(r2, "]  In="@, p2, 6, r3, q3);
    let q2 = seq![p2] + q3;
    text::lemma_padded_in_order(r1, " #"@, p1, 4, r2, q2);
    let q1 = seq![p1] + q2;
    text::lemma_in_order(line, "[parse-w"@, p0, r1, q1);
    let q0 = seq![p0] + q1;
    assert(q0 =~= seq![p0, p1, p2, p3, p4, p5, p6]);
}

/// The line of a batch that was filtered tells its number, its entries, those kept, the
/// part dropped, the time and the rate, in this order.
pub proof fn law_filter_line_tells_all(
    seq: u64,
    input_entries: usize,
    kept: usize,
    drop_percent: Seq<char>,
    time_ms: Seq<char>,
    per_second: Seq<char>,
)
    ensures
        text::in_order(
            filter_line(seq, input_entries, kept, drop_percent, time_ms, per_second),
            seq![
                text::decimal(seq as nat),
                text::decimal(input_entries as nat),
                text::decimal(kept as nat),
                drop_percent,
                time_ms,
                per_second,
            ],
        ),
{
    let none = Seq::<Seq<char>>::empty();
    let p0 = text::decimal(seq as nat);
    let p1 = text::decimal(input_entries as nat);
    let p2 = text::decimal(kept as nat);
    let p3 = drop_percent;
    let p4 = time_ms;
    let p5 = per_second;
    let h1 = "[filter  #"@ + text::pad_left(p0, 4, ' ');
    let h2 = h1 + "]  In="@ + text::pad_left(p1, 6, ' ');
    let h3 = h2 + "  kept="@ + text::pad_left(p2, 6, ' ');
    let h4 = h3 + "  drop="@ + text::pad_left(p3, 5, ' ');
    let h5 = h4 + "%  Time="@ + text::pad_left(p4, 7, ' ');
    let h6 = h5 + "ms  "@ + text::pad_left(p5, 7, ' ');
    let r6 = "/s"@;
    let r5 = "ms  "@ + text::pad_left(p5, 7, ' ') + r6;
    let r4 = "%  Time="@ + text::pad_left(p4, 7, ' ') + r5;
    let r3 = "  drop="@ + text::pad_left(p3, 5, ' ') + r4;
    let r2 = "  kept="@ + text::pad_left(p2, 6, ' ') + r3;
    let r1 = "]  In="@ + text::pad_left(p1, 6, ' ') + r2;
    let line = filter_line(seq, input_entries, kept, drop_percent, time_ms, per_second);
    assert(line =~= h6 + r6);
    text::lemma_put_together(h5, "ms  "@, text::pad_left(p5, 7, ' '), r6);
    text::lemma_put_together(h4, "%  Time="@, text::pad_left(p4, 7, ' '), r5);
    text::lemma_put_together(h3, "  drop="@, text::pad_left(p3, 5, ' '), r4);
    text::lemma_put_together(h2, "  kept="@, text::pad_left(p2, 6, ' '), r3);
    text::lemma_put_together(h1, "]  In="@, text::pad_left(p1, 6, ' '), r2);
    text::lemma_nothing_in_order(r6);
    text::lemma_padded_in_order(r5, "ms  "@, p5, 7, r6, none);
    let q5 = seq![p5] + none;
    text::lemma_padded_in_order(r4, "%  Time="@, p4, 7, r5, q5);
    let q4 = seq![p4] + q5;
    text::lemma_padded_in_order(r3, "  drop="@, p3, 5, r4, q4);
    let q3 = seq![p3] + q4;
    text::lemma_padded_in_order(r2, "  kept="@, p2, 6, r3, q3);
    let q2 = seq![p2] + q3;
    text::lemma_padded_in_order(r1, "]  In="@, p1, 6, r2, q2);
    let q1 = seq![p1] + q2;
    text::lemma_padded_in_order(line, "[filter  #"@, p0, 4, r1, q1);
    let q0 = seq![p0] + q1;
    assert(q0 =~= seq![p0, p1, p2, p3, p4, p5]);
}

/// The line of a batch that was formatted tells its number, its entries, its lines, the
/// time and the rate, in this order.
pub proof fn law_format_line_tells_all(
    seq: u64,
    input_entries: usize,
    output_lines: usize,
    time_ms: Seq<char>,
    per_second: Seq<char>,
)
    ensures
        text::in_order(
            format_line(seq, input_entries, output_lines, time_ms, per_second),
            seq![
                text::decimal(seq as nat),
                text::decimal(input_entries as nat),
                text::decimal(output_lines as nat),
                time_ms,
                per_second,
            ],
        ),
{
    let none = Seq::<Seq<char>>::empty();
    let p0 = text::decimal(seq as nat);
    let p1 = text::decimal(input_entries as nat);
    let p2 = text::decimal(output_lines as nat);
    let p3 = time_ms;
    let p4 = per_second;
    let h1 = "[format  #"@ + text::pad_left(p0, 4, ' ');
    let h2 = h1 + "]  In="@ + text::pad_left(p1, 6, ' ');
    let h3 = h2 + "  Out="@ + text::pad_left(p2, 6, ' ');
    let h4 = h3 + "  Time="@ + text::pad_left(p3, 7, ' ');
    let h5 = h4 + "ms  "@ + text::pad_left(p4, 7, ' ');
    let r5 = "/s"@;
    let r4 = "ms  "@ + text::pad_left(p4, 7, ' ') + r5;
    let r3 = "  Time="@ + text::pad_left(p3, 7, ' ') + r4;
    let r2 = "  Out="@ + text::pad_left(p2, 6, ' ') + r3;
    let r1 = "]  In="@ + text::pad_left(p1, 6, ' ') + r2;
    let line = format_line(seq, input_entries, output_lines, time_ms, per_second);
    assert(line =~= h5 + r5);
    text::lemma_put_together(h4, "ms  "@, text::pad_left(p4, 7, ' '), r5);
    text::lemma_put_together(h3, "  Time="@, text::pad_left(p3, 7, ' '), r4);
    text::lemma_put_together(h2, "  Out="@, text::pad_left(p2, 6, ' '), r3);
    text::lemma_put_together(h1, "]  In="@, text::pad_left(p1, 6, ' '), r2);
    text::lemma_nothing_in_order(r5);
    text::lemma_padded_in_order(r4, "ms  "@, p4, 7, r5, none);
    let q4 = seq![p4] + none;
    text::lemma_padded_in_order(r3, "  Time="@, p3, 7, r4, q4);
    let q3 = seq![p3] + q4;
    text::lemma_padded_in_order(r2, "  Out="@, p2, 6, r3, q3);
    let q2 = seq![p2] + q3;
    text::lemma_padded_in_order(r1, "]  In="@, p1, 6, r2, q2);
    let q1 = seq![p1] + q2;
    text::lemma_padded_in_order(line, "[format  #"@, p0, 4, r1, q1);
    let q0 = seq![p0] + q1;
    assert(q0 =~= seq![p0, p1, p2, p3, p4]);
}

/// The line of a batch that was sent tells its number, its lines, its size, the memory of
/// the plugin, the time and the rate, in this order.
pub proof fn law_transport_line_tells_all(
    seq: u64,
    input_lines: usize,
    input_kb: Seq<char>,
    mem_kb: Seq<char>,
    mem_percent: Seq<char>,
    time_ms: Seq<char>,
    per_second: Seq<char>,
)
    ensures
        text::in_order(
            transport_line(seq, input_lines, input_kb, mem_kb, mem_percent, time_ms, per_second),
            seq![
                text::decimal(seq as nat),
                text::decimal(input_lines as nat),
                input_kb,
                mem_kb,
                mem_percent,
                time_ms,
                per_second,
            ],
        ),
{
    let none = Seq::<Seq<char>>::empty();
    let p0 = text::decimal(seq as nat);
    let p1 = text::decimal(input_lines as nat);
    let p2 = input_kb;
    let p3 = mem_kb;
    let p4 = mem_percent;
    let p5 = time_ms;
    let p6 = per_second;
    let h1 = "[transport #"@ + text::pad_left(p0, 4, ' ');
    let h2 = h1 + "]  In="@ + text::pad_left(p1, 6, ' ');
    let h3 = h2 + "/"@ + text::pad_left(p2, 7, ' ');
    let h4 = h3 + "KB  Mem="@ + text::pad_left(p3, 7, ' ');
    let h5 = h4 + "KB("@ + text::pad_left(p4, 5, ' ');
    let h6 = h5 + "%)  Time="@ + text::pad_left(p5, 7, ' ');
    let h7 = h6 + "ms  "@ + text::pad_left(p6, 7, ' ');
    let r7 = "/s"@;
    let r6 = "ms  "@ + text::pad_left(p6, 7, ' ') + r7;
    let r5 = "%)  Time="@ + text::pad_left(p5, 7, ' ') + r6;
    let r4 = "KB("@ + text::pad_left(p4, 5, ' ') + r5;
    let r3 = "KB  Mem="@ + text::pad_left(p3, 7, ' ') + r4;
    let r2 = "/"@ + text::pad_left(p2, 7, ' ') + r3;
    let r1 = "]  In="@ + text::pad_left(p1, 6, ' ') + r2;
    let line = transport_line(seq, input_lines, input_kb, mem_kb, mem_percent, time_ms, per_second);
    assert(line =~= h7 + r7);
    text::lemma_put_together(h6, "ms  "@, text::pad_left(p6, 7, ' '), r7);
    text::lemma_put_together(h5, "%)  Time="@, text::pad_left(p5, 7, ' '), r6);
    text::lemma_put_together(h4, "KB("@, text::pad_left(p4, 5, ' '), r5);
    text::lemma_put_together(h3, "KB  Mem="@, text::pad_left(p3, 7, ' '), r4);
    text::lemma_put_together(h2, "/"@, text::pad_left(p2, 7, ' '), r3);
    text::lemma_put_together(h1, "]  In="@, text::pad_left(p1, 6, ' '), r2);
    text::lemma_nothing_in_order(r7);
    text::lemma_padded_in_order(r6, "ms  "@, p6, 7, r7, none);
    let q6 = seq![p6] + none;
    text::lemma_padded_in_order(r5, "%)  Time="@, p5, 7, r6, q6);
    let q5 = seq![p5] + q6;
    text::lemma_padded_in_order(r4, "KB("@, p4, 5, r5, q5);
    let q4 = seq![p4] + q5;
    text::lemma_padded_in_order(r3, "KB  Mem="@, p3, 7, r4, q4);
    let q3 = seq![p3] + q4;
    text::lemma_padded_in_order(r2, "/"@, p2, 7, r3, q3);
    let q2 = seq![p2] + q3;
    text::lemma_padded_in_order(r1, "]  In="@, p1, 6, r2, q2);
    let q1 = seq![p1] + q2;
    text::lemma_padded_in_order(line, "[transport #"@, p0, 4, r1, q1);
    let q0 = seq![p0] + q1;
    assert(q0 =~= seq![p0, p1, p2, p3, p4, p5, p6]);
}

/// What is reported of all parse workers tells how many they are, their batches, their
/// entries and the batches that were given up, in this order.
pub proof fn law_aggregate_tells_counts(
    stats: ParseStats,
    workers: usize,
    errors: u32,
    wall_s: Seq<char>,
    per_second: Seq<char>,
)
    ensures
        text::in_order(
            aggregate(stats, workers, errors, wall_s, per_second)[0],
            seq![
                text::decimal(workers as nat),
                text::decimal(stats.total_batches as nat),
                text::decimal(stats.total_output_entries as nat),
                text::decimal(errors as nat),
            ],
        ),
{
    let none = Seq::<Seq<char>>::empty();
    let p0 = text::decimal(workers as nat);
    let p1 = text::decimal(stats.total_batches as nat);
    let p2 = text::decimal(stats.total_output_entries as nat);
    let p3 = text::decimal(errors as nat);
    let h1 = "\n[parse-aggregate] workers="@ + p0;
    let h2 = h1 + "  batches="@ + p1;
    let h3 = h2 + "  entries="@ + p2;
    let h4 = h3 + "  errors="@ + p3;
    let r4 = Seq::<char>::empty();
    let r3 = "  errors="@ + p3 + r4;
    let r2 = "  entries="@ + p2 + r3;
    let r1 = "  batches="@ + p1 + r2;
    let line = aggregate(stats, workers, errors, wall_s, per_second)[0];
    assert(line =~= h4 + r4);
    text::lemma_put_together(h3, "  errors="@, p3, r4);
    text::lemma_put_together(h2, "  entries="@, p2, r3);
    text::lemma_put_together(h1, "  batches="@, p1, r2);
    text::lemma_nothing_in_order(r4);
    text::lemma_in_order(r3, "  errors="@, p3, r4, none);
    let q3 = seq![p3] + none;
    text::lemma_in_order(r2, "  entries="@, p2, r3, q3);
    let q2 = seq![p2] + q3;
    text::lemma_in_order(r1, "  batches="@, p1, r2, q2);
    let q1 = seq![p1] + q2;
    text::lemma_in_order(line, "\n[parse-aggregate] workers="@, p0, r1, q1);
    let q0 = seq![p0] + q1;
    assert(q0 =~= seq![p0, p1, p2, p3]);
}

/// What is reported of all parse workers tells the time and the rate, in this order.
pub proof fn law_aggregate_tells_times(
    stats: ParseStats,
    workers: usize,
    errors: u32,
    wall_s: Seq<char>,
    per_second: Seq<char>,
)
    ensures
        text::in_order(
            aggregate(stats, workers, errors, wall_s, per_second)[1],
            seq![
                wall_s,
                per_second,
            ],
        ),
{
    let none = Seq::<Seq<char>>::empty();
    let p0 = wall_s;
    let p1 = per_second;
    let h1 = "                  wall="@ + p0;
    let h2 = h1 + "s  throughput="@ + p1;
    let r2 = " entries/s"@;
    let r1 = "s  throughput="@ + p1 + r2;
    let line = aggregate(stats, workers, errors, wall_s, per_second)[1];
    assert(line =~= h2 + r2);
    text::lemma_put_together(h1, "s  throughput="@, p1, r2);
    text::lemma_nothing_in_order(r2);
    text::lemma_in_order(r1, "s  throughput="@, p1, r2, none);
    let q1 = seq![p1] + none;
    text::lemma_in_order(line, "                  wall="@, p0, r1, q1);
    let q0 = seq![p0] + q1;
    assert(q0 =~= seq![p0, p1]);
}

/// The summary tells of parsing the batches, the lines and the entries, in this order.
pub proof fn law_summary_tells_of_parsing(p: ParseStats)
    ensures
        text::in_order(
            parse_counts(p),
            seq![
                text::decimal(p.total_batches as nat),
                text::decimal(p.total_input_lines as nat),
                text::decimal(p.total_output_entries as nat),
            ],
        ),
{
    let none = Seq::<Seq<char>>::empty();
    let p0 = text::decimal(p.total_batches as nat);
    let p1 = text::decimal(p.total_input_lines as nat);
    let p2 = text::decimal(p.total_output_entries as nat);
    let h1 = "║ Parse  │ batches="@ + text::pad_right(p0, 6, ' ');
    let h2 = h1 + " input="@ + text::pad_right(p1, 10, ' ');
    let h3 = h2 + " entries="@ + text::pad_right(p2, 10, ' ');
    let r3 = Seq::<char>::empty();
    let r2 = " entries="@ + text::pad_right(p2, 10, ' ') + r3;
    let r1 = " input="@ + text::pad_right(p1, 10, ' ') + r2;
    let line = parse_counts(p);
    assert(line =~= h3 + r3);
    text::lemma_put_together(h2, " entries="@, text::pad_right(p2, 10, ' '), r3);
    text::lemma_put_together(h1, " input="@, text::pad_right(p1, 10, ' '), r2);
    text::lemma_nothing_in_order(r3);
    text::lemma_padded_in_order(r2, " entries="@, p2, 10, r3, none);
    let q2 = seq![p2] + none;
    text::lemma_padded_in_order(r1, " input="@, p1, 10, r2, q2);
    let q1 = seq![p1] + q2;
    text::lemma_padded_in_order(line, "║ Parse  │ batches="@, p0, 6, r1, q1);
    let q0 = seq![p0] + q1;
    assert(q0 =~= seq![p0, p1, p2]);
}

/// The summary tells of filtering the batches, the entries, those kept and those dropped,
/// with the part that they are, in this order.
pub proof fn law_summary_tells_of_filtering(fs: FilterStats, g: SummaryFigures)
    ensures
        text::in_order(
            filter_part(Some(&fs), g)[0],
            seq![
                text::decimal(fs.total_batches as nat),
                text::decimal(fs.total_input_entries as nat),
                text::decimal(fs.total_kept_entries as nat),
                text::decimal(fs.total_dropped_entries as nat),
                g.drop_percent@,
            ],
        ),
{
    let none = Seq::<Seq<char>>::empty();
    let p0 = text::decimal(fs.total_batches as nat);
    let p1 = text::decimal(fs.total_input_entries as nat);
    let p2 = text::decimal(fs.total_kept_entries as nat);
    let p3 = text::decimal(fs.total_dropped_entries as nat);
    let p4 = g.drop_percent@;
    let h1 = "║ Filter │ batches="@ + text::pad_right(p0, 6, ' ');
    let h2 = h1 + " in="@ + text::pad_right(p1, 10, ' ');
    let h3 = h2 + " kept="@ + text::pad_right(p2, 10, ' ');
    let h4 = h3 + " dropped="@ + p3;
    let h5 = h4 + " ("@ + p4;
    let r5 = "%)"@;
    let r4 = " ("@ + p4 + r5;
    let r3 = " dropped="@ + p3 + r4;
    let r2 = " kept="@ + text::pad_right(p2, 10, ' ') + r3;
    let r1 = " in="@ + text::pad_right(p1, 10, ' ') + r2;
    let line = filter_part(Some(&fs), g)[0];
    assert(line =~= h5 + r5);
    text::lemma_put_together(h4, " ("@, p4, r5);
    text::lemma_put_together(h3, " dropped="@, p3, r4);
    text::lemma_put_together(h2, " kept="@, text::pad_right(p2, 10, ' '), r3);
    text::lemma_put_together(h1, " in="@, text::pad_right(p1, 10, ' '), r2);
    text::lemma_nothing_in_order(r5);
    text::lemma_in_order(r4, " ("@, p4, r5, none);
    let q4 = seq![p4] + none;
    text::lemma_in_order(r3, " dropped="@, p3, r4, q4);
    let q3 = seq![p3] + q4;
    text::lemma_padded_in_order(r2, " kept="@, p2, 10, r3, q3);
    let q2 = seq![p2] + q3;
    text::lemma_padded_in_order(r1, " in="@, p1, 10, r2, q2);
    let q1 = seq![p1] + q2;
    text::lemma_padded_in_order(line, "║ Filter │ batches="@, p0, 6, r1, q1);
    let q0 = seq![p0] + q1;
    assert(q0 =~= seq![p0, p1, p2, p3, p4]);
}

/// The summary tells of formatting the batches, the entries and the lines, in this order.
pub proof fn law_summary_tells_of_formatting(fs: FormatStats, g: SummaryFigures)
    ensures
        text::in_order(
            format_part(Some(&fs), g)[0],
            seq![
                text::decimal(fs.total_batches as nat),
                text::decimal(fs.total_input_entries as nat),
                text::decimal(fs.total_output_lines as nat),
            ],
        ),
{
    let none = Seq::<Seq<char>>::empty();
    let p0 = text::decimal(fs.total_batches as nat);
    let p1 = text::decimal(fs.total_input_entries as nat);
    let p2 = text::decimal(fs.total_output_lines as nat);
    let h1 = "║ Format │ batches="@ + text::pad_right(p0, 6, ' ');
    let h2 = h1 + " entries="@ + text::pad_right(p1, 10, ' ');
    let h3 = h2 + " lines="@ + text::pad_right(p2, 10, ' ');
    let r3 = Seq::<char>::empty();
    let r2 = " lines="@ + text::pad_right(p2, 10, ' ') + r3;
    let r1 = " entries="@ + text::pad_right(p1, 10, ' ') + r2;
    let line = format_part(Some(&fs), g)[0];
    assert(line =~= h3 + r3);
    text::lemma_put_together(h2, " lines="@, text::pad_right(p2, 10, ' '), r3);
    text::lemma_put_together(h1, " entries="@, text::pad_right(p1, 10, ' '), r2);
    text::lemma_nothing_in_order(r3);
    text::lemma_padded_in_order(r2, " lines="@, p2, 10, r3, none);
    let q2 = seq![p2] + none;
    text::lemma_padded_in_order(r1, " entries="@, p1, 10, r2, q2);
    let q1 = seq![p1] + q2;
    text::lemma_padded_in_order(line, "║ Format │ batches="@, p0, 6, r1, q1);
    let q0 = seq![p0] + q1;
    assert(q0 =~= seq![p0, p1, p2]);
}

/// The summary tells of sending the batches, the lines and the bytes, in this order.
pub proof fn law_summary_tells_of_sending(ts: TransportStats, g: SummaryFigures)
    ensures
        text::in_order(
            transport_part(Some(&ts), g)[0],
            seq![
                text::decimal(ts.total_batches as nat),
                text::decimal(ts.total_input_lines as nat),
                text::decimal(ts.total_input_bytes as nat),
            ],
        ),
{
    let none = Seq::<Seq<char>>::empty();
    let p0 = text::decimal(ts.total_batches as nat);
    let p1 = text::decimal(ts.total_input_lines as nat);
    let p2 = text::decimal(ts.total_input_bytes as nat);
    let h1 = "║ Trans  │ batches="@ + text::pad_right(p0, 6, ' ');
    let h2 = h1 + " lines="@ + text::pad_right(p1, 10, ' ');
    let h3 = h2 + " bytes="@ + text::pad_right(p2, 12, ' ');
    let r3 = Seq::<char>::empty();
    let r2 = " bytes="@ + text::pad_right(p2, 12, ' ') + r3;
    let r1 = " lines="@ + text::pad_right(p1, 10, ' ') + r2;
    let line = transport_part(Some(&ts), g)[0];
    assert(line =~= h3 + r3);
    text::lemma_put_together(h2, " bytes="@, text::pad_right(p2, 12, ' '), r3);
    text::lemma_put_together(h1, " lines="@, text::pad_right(p1, 10, ' '), r2);
    text::lemma_nothing_in_order(r3);
    text::lemma_padded_in_order(r2, " bytes="@, p2, 12, r3, none);
    let q2 = seq![p2] + none;
    text::lemma_padded_in_order(r1, " lines="@, p1, 10, r2, q2);
    let q1 = seq![p1] + q2;
    text::lemma_padded_in_order(line, "║ Trans  │ batches="@, p0, 6, r1, q1);
    let q0 = seq![p0] + q1;
    assert(q0 =~= seq![p0, p1, p2]);
}

/// The summary tells of a stage the time and the rate, in this order.
pub proof fn law_summary_tells_times(f: StageFigures, unit: Seq<char>)
    ensures
        text::in_order(
            time_line(f, unit),
            seq![
                f.elapsed_ms@,
                f.per_second@,
                unit,
            ],
        ),
{
    let none = Seq::<Seq<char>>::empty();
    let p0 = f.elapsed_ms@;
    let p1 = f.per_second@;
    let p2 = unit;
    let h1 = "║        │ elapsed="@ + p0;
    let h2 = h1 + "ms  throughput="@ + p1;
    let h3 = h2 + Seq::<char>::empty() + p2;
    let r3 = Seq::<char>::empty();
    let r2 = Seq::<char>::empty() + p2 + r3;
    let r1 = "ms  throughput="@ + p1 + r2;
    let line = time_line(f, unit);
    assert(line =~= h3 + r3);
    text::lemma_put_together(h2, Seq::<char>::empty(), p2, r3);
    text::lemma_put_together(h1, "ms  throughput="@, p1, r2);
    text::lemma_nothing_in_order(r3);
    text::lemma_in_order(r2, Seq::<char>::empty(), p2, r3, none);
    let q2 = seq![p2] + none;
    text::lemma_in_order(r1, "ms  throughput="@, p1, r2, q2);
    let q1 = seq![p1] + q2;
    text::lemma_in_order(line, "║        │ elapsed="@, p0, r1, q1);
    let q0 = seq![p0] + q1;
    assert(q0 =~= seq![p0, p1, p2]);
}

/// The summary tells of the whole pipeline the lines that came in and those that left it,
/// in this order.
pub proof fn law_summary_tells_of_the_whole(
    p: ParseStats,
    f: Option<&FormatStats>,
    g: SummaryFigures,
)
    ensures
        text::in_order(
            overall_part(p, f, g)[0],
            seq![
                text::decimal(p.total_input_lines as nat),
                text::decimal(output_lines(p, f) as nat),
            ],
        ),
{
    let none = Seq::<Seq<char>>::empty();
    let p0 = text::decimal(p.total_input_lines as nat);
    let p1 = text::decimal(output_lines(p, f) as nat);
    let h1 = "║ E2E    │ input="@ + p0;
    let h2 = h1 + " lines → output="@ + p1;
    let r2 = " lines"@;
    let r1 = " lines → output="@ + p1 + r2;
    let line = overall_part(p, f, g)[0];
    assert(line =~= h2 + r2);
    text::lemma_put_together(h1, " lines → output="@, p1, r2);
    text::lemma_nothing_in_order(r2);
    text::lemma_in_order(r1, " lines → output="@, p1, r2, none);
    let q1 = seq![p1] + none;
    text::lemma_in_order(line, "║ E2E    │ input="@, p0, r1, q1);
    let q0 = seq![p0] + q1;
    assert(q0 =~= seq![p0, p1]);
}

/// The summary tells of the whole pipeline the time and the rate, in this order.
pub proof fn law_summary_tells_times_of_the_whole(
    p: ParseStats,
    f: Option<&FormatStats>,
    g: SummaryFigures,
)
    ensures
        text::in_order(
            overall_part(p, f, g)[1],
            seq![
                g.overall.elapsed_ms@,
                g.overall.per_second@,
            ],
        ),
{
    let none = Seq::<Seq<char>>::empty();
    let p0 = g.overall.elapsed_ms@;
    let p1 = g.overall.per_second@;
    let h1 = "║        │ wall="@ + p0;
    let h2 = h1 + "ms  throughput="@ + p1;
    let r2 = " lines/s (all stages parallel)"@;
    let r1 = "ms  throughput="@ + p1 + r2;
    let line = overall_part(p, f, g)[1];
    assert(line =~= h2 + r2);
    text::lemma_put_together(h1, "ms  throughput="@, p1, r2);
    text::lemma_nothing_in_order(r2);
    text::lemma_in_order(r1, "ms  throughput="@, p1, r2, none);
    let q1 = seq![p1] + none;
    text::lemma_in_order(line, "║        │ wall="@, p0, r1, q1);
    let q0 = seq![p0] + q1;
    assert(q0 =~= seq![p0, p1]);
}

/// The start tells how large batches may be.
pub proof fn law_start_tells_batch_size(
    cfg: BatchConfig,
    budget: usize,
    percent: Seq<char>,
    stages: PipelineStages,
)
    ensures
        text::in_order(
            startup(cfg, budget, percent, stages)[1],
            seq![
                text::decimal(cfg.max_batch_lines as nat),
            ],
        ),
{
    let none = Seq::<Seq<char>>::empty();
    let p0 = text::decimal(cfg.max_batch_lines as nat);
    let h1 = "Parse Batch Max Size "@ + p0;
    let r1 = Seq::<char>::empty();
    let line = startup(cfg, budget, percent, stages)[1];
    assert(line =~= h1 + r1);
    text::lemma_nothing_in_order(r1);
    text::lemma_in_order(line, "Parse Batch Max Size "@, p0, r1, none);
    let q0 = seq![p0] + none;
    assert(q0 =~= seq![p0]);
}

/// The start tells how much memory a plugin may have.
pub proof fn law_start_tells_memory(
    cfg: BatchConfig,
    budget: usize,
    percent: Seq<char>,
    stages: PipelineStages,
)
    ensures
        text::in_order(
            startup(cfg, budget, percent, stages)[2],
            seq![
                text::decimal(cfg.mem_limit_mb as nat),
            ],
        ),
{
    let none = Seq::<Seq<char>>::empty();
    let p0 = text::decimal(cfg.mem_limit_mb as nat);
    let h1 = "Memory Limit : "@ + p0;
    let r1 = " MB"@;
    let line = startup(cfg, budget, percent, stages)[2];
    assert(line =~= h1 + r1);
    text::lemma_nothing_in_order(r1);
    text::lemma_in_order(line, "Memory Limit : "@, p0, r1, none);
    let q0 = seq![p0] + none;
    assert(q0 =~= seq![p0]);
}

/// The start tells the budget in kilobytes and the part of the memory that it is.
pub proof fn law_start_tells_budget(
    cfg: BatchConfig,
    budget: usize,
    percent: Seq<char>,
    stages: PipelineStages,
)
    ensures
        text::in_order(
            startup(cfg, budget, percent, stages)[3],
            seq![
                text::decimal((budget / 1024) as nat),
                percent,
            ],
        ),
{
    let none = Seq::<Seq<char>>::empty();
    let p0 = text::decimal((budget / 1024) as nat);
    let p1 = percent;
    let h1 = "Safe Budget  : "@ + p0;
    let h2 = h1 + " KB ("@ + p1;
    let r2 = "% of limit)"@;
    let r1 = " KB ("@ + p1 + r2;
    let line = startup(cfg, budget, percent, stages)[3];
    assert(line =~= h2 + r2);
    text::lemma_put_together(h1, " KB ("@, p1, r2);
    text::lemma_nothing_in_order(r2);
    text::lemma_in_order(r1, " KB ("@, p1, r2, none);
    let q1 = seq![p1] + none;
    text::lemma_in_order(line, "Safe Budget  : "@, p0, r1, q1);
    let q0 = seq![p0] + q1;
    assert(q0 =~= seq![p0, p1]);
}

/// The start tells the stages that take part, in their order, and no others: the
/// text is as long as their names with the arrows before them.
pub proof fn law_start_tells_stages(
    cfg: BatchConfig,
    budget: usize,
    percent: Seq<char>,
    stages: PipelineStages,
)
    ensures
        ({
            let told = startup(cfg, budget, percent, stages)[4];
            &&& startup(cfg, budget, percent, stages).len() == 6
            &&& told.len() == 20 + (if stages.filter {
                9int
            } else {
                0
            }) + (if stages.format {
                9int
            } else {
                0
            }) + (if stages.transport {
                12int
            } else {
                0
            })
            &&& text::in_order(told, seq!["parse"@])
            &&& stages.filter ==> text::in_order(told, seq!["parse"@, "filter"@])
            &&& stages.format ==> text::in_order(told, seq!["parse"@, "format"@])
            &&& stages.transport ==> text::in_order(told, seq!["parse"@, "transport"@])
            &&& stages.filter && stages.format && stages.transport ==> text::in_order(
                told,
                seq!["parse"@, "filter"@, "format"@, "transport"@],
            )
        }),
{
    reveal_strlit("Stages       : ");
    reveal_strlit("parse");
    reveal_strlit(" → filter");
    reveal_strlit(" → format");
    reveal_strlit(" → transport");
    reveal_strlit(" → ");
    reveal_strlit("filter");
    reveal_strlit("format");
    reveal_strlit("transport");
    reveal_strlit("");
    let told = startup(cfg, budget, percent, stages)[4];
    let none = Seq::<Seq<char>>::empty();
    let end = Seq::<char>::empty();
    let arrow = " → "@;
    let fi = if stages.filter {
        " → filter"@
    } else {
        ""@
    };
    let fo = if stages.format {
        " → format"@
    } else {
        ""@
    };
    let tr = if stages.transport {
        " → transport"@
    } else {
        ""@
    };
    assert(" → filter"@ =~= arrow + "filter"@);
    assert(" → format"@ =~= arrow + "format"@);
    assert(" → transport"@ =~= arrow + "transport"@);
    text::lemma_nothing_in_order(end);
    text::lemma_nothing_in_order(fi + fo + tr);
    assert(told =~= "Stages       : "@ + "parse"@ + (fi + fo + tr));
    text::lemma_in_order(told, "Stages       : "@, "parse"@, fi + fo + tr, none);
    assert(seq!["parse"@] + none =~= seq!["parse"@]);
    let last = seq!["transport"@] + none;
    if stages.transport {
        assert(tr =~= arrow + "transport"@ + end);
        text::lemma_in_order(tr, arrow, "transport"@, end, none);
        text::lemma_in_order_behind(fi + fo, tr, last);
        text::lemma_in_order(told, "Stages       : "@, "parse"@, fi + fo + tr, last);
        assert(seq!["parse"@] + last =~= seq!["parse"@, "transport"@]);
    }
    if stages.format {
        text::lemma_nothing_in_order(tr);
        let here = seq!["format"@] + none;
        text::lemma_in_order(fo + tr, arrow, "format"@, tr, none);
        text::lemma_in_order_behind(fi, fo + tr, here);
        assert(fi + (fo + tr) =~= fi + fo + tr);
        text::lemma_in_order(told, "Stages       : "@, "parse"@, fi + fo + tr, here);
        assert(seq!["parse"@] + here =~= seq!["parse"@, "format"@]);
    }
    if stages.filter {
        text::lemma_nothing_in_order(fo + tr);
        let here = seq!["filter"@] + none;
        assert(fi + fo + tr =~= arrow + "filter"@ + (fo + tr));
        text::lemma_in_order(fi + fo + tr, arrow, "filter"@, fo + tr, none);
        text::lemma_in_order(told, "Stages       : "@, "parse"@, fi + fo + tr, here);
        assert(seq!["parse"@] + here =~= seq!["parse"@, "filter"@]);
    }
    if stages.filter && stages.format && stages.transport {
        text::lemma_in_order(fo + tr, arrow, "format"@, tr, last);
        let two = seq!["format"@] + last;
        text::lemma_in_order(fi + fo + tr, arrow, "filter"@, fo + tr, two);
        let three = seq!["filter"@] + two;
        text::lemma_in_order(told, "Stages       : "@, "parse"@, fi + fo + tr, three);
        assert(seq!["parse"@] + three =~= seq!["parse"@, "filter"@, "format"@, "transport"@]);
    }
}

/// The word for why a batch was passed on is that of the end before all others,
/// that of the size before that of the lines, and that of the time where there is
/// no other reason.
pub proof fn law_reason_in_a_word(reason: FlushReason)
    ensures
        reason_word(reason).len() == 5,
        reason_word(reason) == "eof  "@ <==> reason.eof,
        reason_word(reason) == "size "@ <==> reason.size && !reason.eof,
        reason_word(reason) == "lines"@ <==> reason.line_count && !reason.size && !reason.eof,
        reason_word(reason) == "time "@ <==> !reason.line_count && !reason.size && !reason.eof,
{
    reveal_strlit("eof  ");
    reveal_strlit("size ");
    reveal_strlit("lines");
    reveal_strlit("time ");
    assert("eof  "@[0] == 'e' && "size "@[0] == 's' && "lines"@[0] == 'l' && "time "@[0] == 't');
}

/// The summary tells of parsing, of each stage behind it in its order, and of the
/// whole. A stage that took no part has one line, which is the same whatever was
/// counted; the others have a line of counts and one of times. What left the
/// pipeline are the lines that were formatted, or the entries where nothing was.
pub proof fn law_summary_has_its_parts(
    p: ParseStats,
    fi: Option<&FilterStats>,
    f: Option<&FormatStats>,
    t: Option<&TransportStats>,
    g: SummaryFigures,
)
    ensures
        ({
            let all = summary(p, fi, f, t, g);
            let lines_of = |took_part: bool|
                if took_part {
                    2int
                } else {
                    1
                };
            let (a, b, c) = (lines_of(fi is Some), lines_of(f is Some), lines_of(t is Some));
            &&& all.len() == 11 + a + b + c
            &&& all[3] == parse_counts(p)
            &&& all.subrange(5, 5 + a) == filter_part(fi, g)
            &&& all.subrange(6 + a, 6 + a + b) == format_part(f, g)
            &&& all.subrange(7 + a + b, 7 + a + b + c) == transport_part(t, g)
            &&& all.subrange(8 + a + b + c, 10 + a + b + c) == overall_part(p, f, g)
            &&& fi is Some ==> filter_part(fi, g)[1] == time_line(g.filter, " entries/s"@)
            &&& f is Some ==> format_part(f, g)[1] == time_line(g.format, " entries/s"@)
            &&& t is Some ==> transport_part(t, g)[1] == time_line(g.transport, " lines/s"@)
            &&& f matches Some(fs) ==> output_lines(p, f) == fs.total_output_lines
            &&& f is None ==> output_lines(p, f) == p.total_output_entries
        }),
{
    let all = summary(p, fi, f, t, g);
    let (a, b, c) = (
        filter_part(fi, g).len() as int,
        format_part(f, g).len() as int,
        transport_part(t, g).len() as int,
    );
    assert(all.subrange(5, 5 + a) =~= filter_part(fi, g));
    assert(all.subrange(6 + a, 6 + a + b) =~= format_part(f, g));
    assert(all.subrange(7 + a + b, 7 + a + b + c) =~= transport_part(t, g));
    assert(all.subrange(8 + a + b + c, 10 + a + b + c) =~= overall_part(p, f, g));
}

} // verus!

use wcm_base_log_forwarder::entry::{FilterResult, LogEntry, LogLevel};
use wcm_base_log_forwarder::filter_stage::{filter_batch, FilterOutcome};
use wcm_base_log_forwarder::format_stage::{
    format_chunks, preview_of, sample_index, sample_line, ChunkOutcome, FormatRun, FormattedBatch,
};
use wcm_base_log_forwarder::frames::parse_frames;
use wcm_base_log_forwarder::level_filter::do_filter;
use wcm_base_log_forwarder::entry::ParsedEntry;
use wcm_base_log_forwarder::parse_stage::{assign_ids, ParsedBatch};
use wcm_base_log_forwarder::transport_plugin::pack_bodies;
use wcm_base_log_forwarder::transport_stage::{SendOutcome, TransportRun};

fn entry(id: u64, level: LogLevel) -> LogEntry {
    LogEntry {
        id,
        timestamp: String::new(),
        level,
        message: format!("m{}", id),
        tags: Vec::new(),
    }
}

fn entries() -> Vec<LogEntry> {
    vec![
        entry(1, LogLevel::Debug),
        entry(2, LogLevel::Warn),
        entry(3, LogLevel::Info),
        entry(4, LogLevel::Emerg),
        entry(5, LogLevel::Error),
    ]
}

fn framed(lines: &[&[u8]]) -> Vec<u8> {
    let mut out = Vec::new();
    for l in lines {
        out.extend_from_slice(&(l.len() as u32).to_le_bytes());
        out.extend_from_slice(l);
    }
    out
}

#[test]
fn what_the_plugin_keeps_goes_on_in_order() {
    let results = vec![
        FilterResult { id: 5, keep: true },
        FilterResult { id: 1, keep: false },
        FilterResult { id: 2, keep: true },
        FilterResult { id: 9, keep: true },
    ];
    let outcome = FilterOutcome::Decided { results, component_ns: 7, wasm_mem_peak: 64 };
    let out = filter_batch(ParsedBatch { entries: entries(), seq: 3 }, outcome, 11);
    let forward = out.forward.unwrap();
    assert_eq!(forward.seq, 3);
    let ids: Vec<u64> = forward.entries.iter().map(|e| e.id).collect();
    assert_eq!(ids, vec![2, 5]);
    let counts = out.counts.unwrap();
    assert_eq!(counts.total_batches, 1);
    assert_eq!(counts.total_input_entries, 5);
    assert_eq!(counts.total_kept_entries, 2);
    assert_eq!(counts.total_dropped_entries, 3);
    assert_eq!(counts.total_elapsed, 11);
    assert_eq!(counts.total_component_ns, 7);
    assert_eq!(counts.wasm_mem_peak_max, 64);
}

#[test]
fn an_id_that_is_kept_once_is_kept() {
    let results = vec![
        FilterResult { id: 1, keep: true },
        FilterResult { id: 1, keep: false },
    ];
    let outcome = FilterOutcome::Decided { results, component_ns: 0, wasm_mem_peak: 0 };
    let out = filter_batch(ParsedBatch { entries: entries(), seq: 0 }, outcome, 0);
    assert_eq!(out.forward.unwrap().entries.len(), 1);
}

#[test]
fn a_batch_of_which_nothing_is_kept_does_not_go_on() {
    let outcome =
        FilterOutcome::Decided { results: Vec::new(), component_ns: 0, wasm_mem_peak: 0 };
    let out = filter_batch(ParsedBatch { entries: entries(), seq: 0 }, outcome, 0);
    assert!(out.forward.is_none());
    let counts = out.counts.unwrap();
    assert_eq!(counts.total_kept_entries, 0);
    assert_eq!(counts.total_dropped_entries, 5);
}

#[test]
fn a_failing_filter_loses_nothing() {
    for outcome in [FilterOutcome::PluginError, FilterOutcome::Trap] {
        let out = filter_batch(ParsedBatch { entries: entries(), seq: 8 }, outcome, 5);
        let forward = out.forward.unwrap();
        assert_eq!(forward.seq, 8);
        assert_eq!(forward.entries.len(), 5);
        assert!(out.counts.is_none());
    }
}

#[test]
fn level_filter_keeps_warnings_and_above() {
    let all = entries();
    let results = do_filter(&all).unwrap();
    let keeps: Vec<(u64, bool)> = results.iter().map(|r| (r.id, r.keep)).collect();
    assert_eq!(keeps, vec![(1, false), (2, true), (3, false), (4, true), (5, true)]);
    let outcome = FilterOutcome::Decided { results, component_ns: 0, wasm_mem_peak: 0 };
    let out = filter_batch(ParsedBatch { entries: all, seq: 0 }, outcome, 0);
    let levels: Vec<LogLevel> = out.forward.unwrap().entries.iter().map(|e| e.level).collect();
    assert_eq!(levels, vec![LogLevel::Warn, LogLevel::Emerg, LogLevel::Error]);
    assert!(do_filter(&Vec::new()).unwrap().is_empty());
}

#[test]
fn level_ranks_follow_severity() {
    let levels = [
        LogLevel::Debug,
        LogLevel::Info,
        LogLevel::Warn,
        LogLevel::Error,
        LogLevel::Crit,
        LogLevel::Alert,
        LogLevel::Emerg,
    ];
    for (i, l) in levels.iter().enumerate() {
        assert_eq!(l.rank(), i as u8);
    }
}

#[test]
fn frames_are_read_back() {
    let lines: [&[u8]; 3] = [b"one", b"", b"three"];
    let scan = parse_frames(&framed(&lines));
    assert!(scan.malformed.is_none());
    assert_eq!(scan.frames, vec![b"one".to_vec(), Vec::new(), b"three".to_vec()]);
    assert!(parse_frames(b"").frames.is_empty());
}

#[test]
fn trailing_bytes_too_short_for_a_length_are_passed_over() {
    let mut bytes = framed(&[b"ab"]);
    bytes.extend_from_slice(&[1, 2, 3]);
    let scan = parse_frames(&bytes);
    assert!(scan.malformed.is_none());
    assert_eq!(scan.frames, vec![b"ab".to_vec()]);
}

#[test]
fn a_frame_that_declares_too_much_is_malformed() {
    let mut bytes = framed(&[b"ab"]);
    bytes.extend_from_slice(&[5, 0, 0, 0, 1, 2]);
    let scan = parse_frames(&bytes);
    assert_eq!(scan.frames, vec![b"ab".to_vec()]);
    let m = scan.malformed.unwrap();
    assert_eq!(m.declared, 5);
    assert_eq!(m.remaining, 2);
}

#[test]
fn lengths_are_little_endian() {
    let mut bytes = vec![0, 1, 0, 0];
    bytes.extend(vec![7u8; 256]);
    assert_eq!(parse_frames(&bytes).frames, vec![vec![7u8; 256]]);
}

#[test]
fn entries_are_cut_into_chunks() {
    assert_eq!(format_chunks(0, 3), Vec::new());
    assert_eq!(format_chunks(3, 3), vec![(0, 3)]);
    assert_eq!(format_chunks(7, 3), vec![(0, 3), (3, 6), (6, 7)]);
    assert_eq!(format_chunks(2, usize::MAX), vec![(0, 2)]);
}

#[test]
fn chunks_are_put_together_into_one_batch() {
    let mut run = FormatRun::new(4, 3);
    let first = ChunkOutcome::Formatted {
        output: framed(&[b"a\n", b"bb\n"]),
        logic_ns: 5,
        wasm_mem_peak: 100,
    };
    let second =
        ChunkOutcome::Formatted { output: framed(&[b"ccc\n"]), logic_ns: 6, wasm_mem_peak: 70 };
    assert!(run.take_chunk(first).is_none());
    assert!(run.take_chunk(second).is_none());
    let (batch, counts) = run.finish(99).unwrap();
    assert_eq!(batch.lines, vec![b"a\n".to_vec(), b"bb\n".to_vec(), b"ccc\n".to_vec()]);
    assert_eq!(batch.seq, 4);
    assert_eq!(batch.total_bytes, 9);
    assert_eq!(counts.total_batches, 1);
    assert_eq!(counts.total_input_entries, 3);
    assert_eq!(counts.total_output_lines, 3);
    assert_eq!(counts.total_elapsed, 99);
    assert_eq!(counts.wasm_mem_peak_max, 100);
    assert_eq!(counts.total_component_ns, 11);
}

#[test]
fn one_bad_chunk_spoils_the_batch() {
    for bad in [ChunkOutcome::PluginError, ChunkOutcome::Trap] {
        let mut run = FormatRun::new(0, 2);
        run.take_chunk(ChunkOutcome::Formatted {
            output: framed(&[b"a"]),
            logic_ns: 0,
            wasm_mem_peak: 0,
        });
        assert!(run.take_chunk(bad).is_none());
        assert!(run.finish(0).is_none());
    }
    let mut run = FormatRun::new(0, 2);
    let told = run.take_chunk(ChunkOutcome::Formatted {
        output: vec![9, 0, 0, 0, 1],
        logic_ns: 0,
        wasm_mem_peak: 0,
    });
    let m = told.unwrap();
    assert_eq!((m.declared, m.remaining), (9, 1));
    assert!(run.finish(0).is_none());
}

#[test]
fn a_batch_without_lines_is_not_passed_on() {
    let mut run = FormatRun::new(0, 2);
    run.take_chunk(ChunkOutcome::Formatted {
        output: Vec::new(),
        logic_ns: 0,
        wasm_mem_peak: 0,
    });
    assert!(run.finish(0).is_none());
}

#[test]
fn the_sample_is_picked_by_the_batch_number() {
    assert_eq!(sample_index(0, 5), 0);
    let expected = 3usize.wrapping_mul(2654435761).wrapping_add(7) % 7;
    assert_eq!(sample_index(3, 7), expected);
}

#[test]
fn the_sample_line_shows_a_line() {
    let batch = FormattedBatch { lines: vec![b"hello\n\n".to_vec()], seq: 0, total_bytes: 7 };
    assert_eq!(sample_line(&batch), "[format-sample] batch=0 #1/1: hello");
    let long = FormattedBatch { lines: vec![vec![b'x'; 301]], seq: 2, total_bytes: 301 };
    assert_eq!(
        sample_line(&long),
        format!("[format-sample] batch=2 #1/1: {}…", "x".repeat(300))
    );
    let exact = FormattedBatch { lines: vec![vec![b'x'; 300]], seq: 2, total_bytes: 300 };
    assert_eq!(
        sample_line(&exact),
        format!("[format-sample] batch=2 #1/1: {}", "x".repeat(300))
    );
}

#[test]
fn bytes_that_are_no_text_are_shown_with_replacements() {
    let batch = FormattedBatch { lines: vec![vec![b'a', 0xFF, b'b']], seq: 0, total_bytes: 3 };
    assert_eq!(sample_line(&batch), "[format-sample] batch=0 #1/1: a\u{FFFD}b");
    let text = FormattedBatch { lines: vec!["測".as_bytes().to_vec()], seq: 0, total_bytes: 3 };
    assert_eq!(sample_line(&text), "[format-sample] batch=0 #1/1: 測");
}

#[test]
fn a_preview_drops_newlines_at_the_end_only() {
    assert_eq!(preview_of("a\nb\n\n", 5), "a\nb");
    assert_eq!(preview_of("\n\n", 2), "");
    assert_eq!(preview_of("abc", 400), "abc…");
}

fn formatted(lines: &[&str]) -> FormattedBatch {
    let lines: Vec<Vec<u8>> = lines.iter().map(|l| l.as_bytes().to_vec()).collect();
    let total_bytes = lines.iter().map(|l| l.len()).sum();
    FormattedBatch { lines, seq: 1, total_bytes }
}

fn chunks_of(batch: &FormattedBatch, max: usize) -> Vec<(usize, usize, usize)> {
    let mut run = TransportRun::new();
    let mut out = Vec::new();
    while let Some(c) = run.next_chunk(batch, max) {
        out.push((c.start, c.end, c.bytes));
        run.take_outcome(batch, max, c, SendOutcome::Sent { wasm_mem_peak: 1 });
    }
    out
}

#[test]
fn lines_are_sent_in_chunks_of_limited_size() {
    let batch = formatted(&["aaaa", "bb", "ccc", "d"]);
    assert_eq!(chunks_of(&batch, 6), vec![(0, 2, 6), (2, 4, 4)]);
    assert_eq!(chunks_of(&batch, 100), vec![(0, 4, 10)]);
    assert_eq!(chunks_of(&batch, 3), vec![(0, 1, 4), (1, 2, 2), (2, 3, 3), (3, 4, 1)]);
    assert_eq!(chunks_of(&formatted(&[]), 3), Vec::new());
}

#[test]
fn empty_lines_do_not_fill_a_chunk() {
    let batch = formatted(&["", "", "aaaa", "b"]);
    assert_eq!(chunks_of(&batch, 2), vec![(0, 3, 4), (3, 4, 1)]);
}

#[test]
fn a_batch_counts_once_all_of_it_was_sent() {
    let batch = formatted(&["aaaa", "bb", "ccc"]);
    let mut run = TransportRun::new();
    let c = run.next_chunk(&batch, 4).unwrap();
    run.take_outcome(&batch, 4, c, SendOutcome::Sent { wasm_mem_peak: 10 });
    let c = run.next_chunk(&batch, 4).unwrap();
    run.take_outcome(&batch, 4, c, SendOutcome::Sent { wasm_mem_peak: 30 });
    let c = run.next_chunk(&batch, 4).unwrap();
    run.take_outcome(&batch, 4, c, SendOutcome::Sent { wasm_mem_peak: 20 });
    assert!(run.next_chunk(&batch, 4).is_none());
    let counts = run.finish(77).unwrap();
    assert_eq!(counts.total_batches, 1);
    assert_eq!(counts.total_input_lines, 3);
    assert_eq!(counts.total_input_bytes, 9);
    assert_eq!(counts.total_bytes_reported, 0);
    assert_eq!(counts.total_elapsed, 77);
    assert_eq!(counts.wasm_mem_peak_max, 30);
}

#[test]
fn a_refused_chunk_ends_the_batch() {
    let batch = formatted(&["aaaa", "bb", "ccc"]);
    let mut run = TransportRun::new();
    let c = run.next_chunk(&batch, 4).unwrap();
    run.take_outcome(&batch, 4, c, SendOutcome::Sent { wasm_mem_peak: 10 });
    let c = run.next_chunk(&batch, 4).unwrap();
    run.take_outcome(&batch, 4, c, SendOutcome::Refused);
    assert!(run.next_chunk(&batch, 4).is_none());
    assert!(run.finish(1).is_none());
}

#[test]
fn warnings_of_a_parsed_batch_pass_the_filter() {
    let parsed: Vec<ParsedEntry> = [LogLevel::Info, LogLevel::Alert, LogLevel::Debug, LogLevel::Warn]
        .iter()
        .map(|l| ParsedEntry {
            timestamp: String::new(),
            level: *l,
            message: String::new(),
            tags: Vec::new(),
            targettag: String::new(),
        })
        .collect();
    let entries = assign_ids(parsed, 2);
    let results = do_filter(&entries).unwrap();
    let outcome = FilterOutcome::Decided { results, component_ns: 0, wasm_mem_peak: 0 };
    let out = filter_batch(ParsedBatch { entries, seq: 2 }, outcome, 0);
    let ids: Vec<u64> = out.forward.unwrap().entries.iter().map(|e| e.id).collect();
    assert_eq!(ids, vec![200_001, 200_003]);
    let counts = out.counts.unwrap();
    assert_eq!(
        counts.total_kept_entries + counts.total_dropped_entries,
        counts.total_input_entries
    );
}

#[test]
fn all_lines_of_a_batch_are_posted() {
    let texts: Vec<String> = (0..30).map(|i| "ab".repeat(i % 6)).collect();
    let refs: Vec<&str> = texts.iter().map(String::as_str).collect();
    let batch = formatted(&refs);
    let mut whole = Vec::new();
    for t in &texts {
        whole.extend_from_slice(t.as_bytes());
        whole.push(b'\n');
    }
    for (max, limit) in [(10, 0), (10, 7), (25, 12), (1000, 4096)] {
        let mut posted = Vec::new();
        for (start, end, _) in chunks_of(&batch, max) {
            posted.extend(pack_bodies(&batch.lines[start..end].to_vec(), limit).concat());
        }
        assert_eq!(posted, whole);
    }
}

#[test]
fn chunks_that_cannot_be_counted_are_told() {
    let mut run = FormatRun::new(1, 2);
    let chunk = |logic_ns| ChunkOutcome::Formatted {
        output: framed(&[b"ab"]),
        logic_ns,
        wasm_mem_peak: 0,
    };
    assert!(run.can_take(&chunk(u64::MAX)));
    run.take_chunk(chunk(u64::MAX - 1));
    assert!(run.can_take(&chunk(1)));
    assert!(!run.can_take(&chunk(2)));
    assert!(run.can_take(&ChunkOutcome::Trap));
    run.total_bytes = usize::MAX;
    assert!(!run.can_take(&chunk(0)));
}

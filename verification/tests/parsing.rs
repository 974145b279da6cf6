use wcm_base_log_forwarder::batch::Batch;
use wcm_base_log_forwarder::entry::{LogLevel, ParsedEntry};
use wcm_base_log_forwarder::parse_stage::{
    assign_ids, complete_parse_batch, duration_ns, error_file_text, measure_noop_parse,
    parse_sample_line, AttemptOutcome, FlushAction, FlushAttempts, FlushStep, NoopOutcome,
    ParseAnswer, ParseFigures, ParseWorker, ParsedBatch, IDS_PER_BATCH, MAX_RETRIES,
};
use wcm_base_log_forwarder::pool::{ParseInstance, ParsePool};
use wcm_base_log_forwarder::stats::ParseDiffTiming;

fn parsed(message: &str) -> ParsedEntry {
    ParsedEntry {
        timestamp: "t".to_string(),
        level: LogLevel::Warn,
        message: message.to_string(),
        tags: vec![("k".to_string(), "v".to_string())],
        targettag: "A".to_string(),
    }
}

fn figures() -> ParseFigures {
    ParseFigures {
        elapsed: 1_500,
        component_ns: 900,
        diff: None,
        wasm_mem_peak: 4096,
        grow_count: 2,
        grow_delta_bytes: 128,
    }
}

fn batch_of(lines: &[&str]) -> Batch {
    let mut batch = Batch::new();
    for l in lines {
        batch.push(l.to_string());
    }
    batch
}

#[test]
fn ids_are_counted_on_from_the_batch_number() {
    let entries = assign_ids(vec![parsed("a"), parsed("b")], 3);
    assert_eq!(entries[0].id, 300_000);
    assert_eq!(entries[1].id, 300_001);
    assert_eq!(entries[1].message, "b");
    assert_eq!(entries[1].level, LogLevel::Warn);
    assert_eq!(entries[1].tags, vec![("k".to_string(), "v".to_string())]);
    assert!(assign_ids(Vec::new(), u64::MAX).is_empty());
}

#[test]
fn ids_of_different_batches_differ() {
    let last_of_first = 0 * IDS_PER_BATCH + (IDS_PER_BATCH - 1);
    let first_of_second = assign_ids(vec![parsed("a")], 1)[0].id;
    assert_ne!(last_of_first, first_of_second);
    assert_eq!(first_of_second, 100_000);
}

#[test]
fn a_parsed_batch_goes_on_and_is_counted() {
    let mut batch = batch_of(&["one", "two!"]);
    let diff = ParseDiffTiming {
        noop_elapsed_ns: 10,
        noop_component_ns: 1,
        copy_in_ns: 9,
        guest_ns: 900,
        copy_out_ns: 591,
    };
    let f = ParseFigures { diff: Some(diff), ..figures() };
    let (pb, counts) =
        complete_parse_batch(&mut batch, 5, Some(vec![parsed("a"), parsed("b")]), f).unwrap();
    assert_eq!(pb.seq, 5);
    assert_eq!(pb.entries.len(), 2);
    assert_eq!(pb.entries[1].id, 500_001);
    assert_eq!(counts.total_batches, 1);
    assert_eq!(counts.total_input_lines, 2);
    assert_eq!(counts.total_input_bytes, 7);
    assert_eq!(counts.total_output_entries, 2);
    assert_eq!(counts.total_elapsed, 1_500);
    assert_eq!(counts.total_component_ns, 900);
    assert_eq!(counts.go_heap_peak_max, 900);
    assert_eq!(counts.wasm_mem_peak_max, 4096);
    assert_eq!(counts.total_grow_count, 2);
    assert_eq!(counts.total_grow_delta_bytes, 128);
    assert_eq!(counts.total_diff_batches, 1);
    assert_eq!(counts.total_noop_elapsed_ns, 10);
    assert_eq!(counts.total_noop_component_ns, 1);
    assert_eq!(counts.total_copy_in_ns, 9);
    assert_eq!(counts.total_copy_out_ns, 591);
    assert!(batch.is_empty());
}

#[test]
fn a_refused_batch_is_cleared_and_counts_for_nothing() {
    let mut batch = batch_of(&["one"]);
    assert!(complete_parse_batch(&mut batch, 5, None, figures()).is_none());
    assert!(batch.is_empty());
}

#[test]
fn the_first_entry_is_shown_with_its_first_tag() {
    let entries = assign_ids(vec![parsed("a")], 0);
    let line = parse_sample_line(2, 9, &ParsedBatch { entries, seq: 0 }).unwrap();
    assert_eq!(line, "[w2-inst9][測試log解析結果] time:t / tag:k=v");
    let mut bare = assign_ids(vec![parsed("a")], 0);
    bare[0].tags.clear();
    let line = parse_sample_line(0, 1, &ParsedBatch { entries: bare, seq: 0 }).unwrap();
    assert_eq!(line, "[w0-inst1][測試log解析結果] time:t / tag:-");
    assert!(parse_sample_line(0, 1, &ParsedBatch { entries: Vec::new(), seq: 0 }).is_none());
}

#[test]
fn only_a_stopped_plugin_is_tried_again() {
    let mut a = FlushAttempts::new(MAX_RETRIES);
    assert_eq!(a.on_outcome(AttemptOutcome::NoInstance), FlushAction::Skip);
    assert_eq!(a.on_outcome(AttemptOutcome::Refused), FlushAction::Skip);
    assert_eq!(a.on_outcome(AttemptOutcome::Parsed), FlushAction::SendOn);
    assert_eq!(a.attempt, 0);
    for _ in 0..3 {
        assert_eq!(a.on_outcome(AttemptOutcome::Trapped), FlushAction::Retry);
    }
    assert_eq!(a.on_outcome(AttemptOutcome::Trapped), FlushAction::GiveUp);
}

#[test]
fn worker_keeps_the_batch_until_it_gives_up() {
    let mut worker = ParseWorker::new();
    let mut attempts = FlushAttempts::new(MAX_RETRIES);
    let mut batch = batch_of(&["first", "second"]);
    for _ in 0..3 {
        let answer = ParseAnswer::Trapped;
        assert!(worker.can_take(&attempts, &batch, 4, &answer));
        assert!(matches!(
            worker.take_answer(&mut attempts, &mut batch, 4, answer),
            FlushStep::Retry
        ));
        assert_eq!(batch.lines, vec!["first", "second"]);
    }
    match worker.take_answer(&mut attempts, &mut batch, 4, ParseAnswer::Trapped) {
        FlushStep::GiveUp(text) => assert_eq!(text, "以下這批是OOM\nfirst\nsecond\n"),
        _ => panic!("the batch should be given up"),
    }
    assert_eq!(worker.error_count, 1);
    assert_eq!(worker.stats.total_batches, 0);
    assert!(batch.is_empty());
}

#[test]
fn worker_sends_on_what_was_parsed_after_a_retry() {
    let mut worker = ParseWorker::new();
    let mut attempts = FlushAttempts::new(MAX_RETRIES);
    let mut batch = batch_of(&["first"]);
    worker.take_answer(&mut attempts, &mut batch, 1, ParseAnswer::Trapped);
    let answer = ParseAnswer::Parsed { entries: vec![parsed("m")], figures: figures() };
    assert!(worker.can_take(&attempts, &batch, 1, &answer));
    match worker.take_answer(&mut attempts, &mut batch, 1, answer) {
        FlushStep::SendOn(pb) => assert_eq!(pb.entries[0].id, 100_000),
        _ => panic!("the entries should go on"),
    }
    assert_eq!(worker.stats.total_batches, 1);
    assert_eq!(worker.stats.total_input_lines, 1);
    assert_eq!(worker.error_count, 0);
    assert!(batch.is_empty());
}

#[test]
fn worker_passes_over_what_cannot_be_parsed() {
    let mut worker = ParseWorker::new();
    for answer in [ParseAnswer::NoInstance, ParseAnswer::Refused] {
        let mut attempts = FlushAttempts::new(MAX_RETRIES);
        let mut batch = batch_of(&["x"]);
        assert!(matches!(
            worker.take_answer(&mut attempts, &mut batch, 0, answer),
            FlushStep::Skip
        ));
        assert!(batch.is_empty());
    }
    assert_eq!(worker.error_count, 0);
    assert_eq!(worker.stats.total_batches, 0);
}

#[test]
fn worker_tells_what_it_cannot_number() {
    let worker = ParseWorker::new();
    let batch = batch_of(&["x"]);
    let answer = ParseAnswer::Parsed { entries: vec![parsed("m")], figures: figures() };
    let attempts = FlushAttempts::new(MAX_RETRIES);
    assert!(!worker.can_take(&attempts, &batch, u64::MAX, &answer));
    assert!(worker.can_take(&attempts, &batch, 1000, &answer));
    let full = ParseWorker { stats: worker.stats, error_count: u32::MAX };
    assert!(full.can_take(&attempts, &batch, 0, &ParseAnswer::Trapped));
    let last = FlushAttempts { attempt: MAX_RETRIES, max_retries: MAX_RETRIES };
    assert!(!full.can_take(&last, &batch, 0, &ParseAnswer::Trapped));
}

#[test]
fn error_file_holds_header_and_lines() {
    assert_eq!(error_file_text("head", &vec!["a".to_string(), "".to_string()]), "head\na\n\n");
    assert_eq!(error_file_text("head", &Vec::new()), "head\n");
}

#[test]
fn long_times_are_cut_off() {
    assert_eq!(duration_ns(5), 5);
    assert_eq!(duration_ns(u64::MAX as u128), u64::MAX);
    assert_eq!(duration_ns(u64::MAX as u128 + 1), u64::MAX);
}

#[test]
fn the_parts_of_a_call_make_up_its_time() {
    let m = measure_noop_parse(NoopOutcome::Answered { noop_component_ns: 20 }, 100, 500, 700);
    assert!(m.keep_instance);
    let t = m.timing.unwrap();
    assert_eq!(t.noop_elapsed_ns, 100);
    assert_eq!(t.noop_component_ns, 20);
    assert_eq!(t.copy_in_ns, 80);
    assert_eq!(t.guest_ns, 500);
    assert_eq!(t.copy_out_ns, 120);
    assert_eq!(t.copy_in_ns + t.guest_ns + t.copy_out_ns, 700);
}

#[test]
fn parts_of_a_call_never_go_below_nothing() {
    let m = measure_noop_parse(NoopOutcome::Answered { noop_component_ns: 200 }, 100, 900, 700);
    let t = m.timing.unwrap();
    assert_eq!(t.copy_in_ns, 0);
    assert_eq!(t.copy_out_ns, 0);
}

#[test]
fn only_a_stopped_noop_instance_is_given_up() {
    let refused = measure_noop_parse(NoopOutcome::Refused, 1, 1, 1);
    assert!(refused.keep_instance && refused.timing.is_none());
    let trapped = measure_noop_parse(NoopOutcome::Trapped, 1, 1, 1);
    assert!(!trapped.keep_instance && trapped.timing.is_none());
}

#[test]
fn pool_hands_out_the_oldest_instance() {
    let mut pool: ParsePool<&str> = ParsePool::new(3, 0);
    assert_eq!(pool.wanted(), 3);
    assert_eq!(
        pool.pre_warmed(),
        Err("parse pool: failed to pre-warm any instance".to_string())
    );
    pool.replenish(vec!["a", "b", "c"]);
    assert!(pool.pre_warmed().is_ok());
    assert_eq!(pool.wanted(), 0);
    let first = pool.acquire().unwrap();
    assert_eq!((first.id, first.body), (1, "a"));
    assert_eq!(pool.wanted(), 1);
    assert_eq!(pool.discard_and_replenish(first), 1);
    pool.replenish(vec!["d"]);
    let ids: Vec<u8> = pool.ready.iter().map(|i| i.id).collect();
    assert_eq!(ids, vec![2, 3, 4]);
}

#[test]
fn pool_takes_instances_back() {
    let mut pool: ParsePool<u32> = ParsePool::new(2, 0);
    pool.replenish(vec![10, 20]);
    let a = pool.acquire().unwrap();
    assert_eq!(pool.release(a, true), 0);
    let b = pool.acquire().unwrap();
    assert_eq!(b.body, 20);
    assert_eq!(pool.release(b, false), 1);
    let c = pool.acquire().unwrap();
    assert_eq!(c.body, 10);
    assert!(pool.acquire().is_none());
    let emergency = pool.create_one(30);
    assert_eq!(emergency.id, 3);
    pool.release_without_reset(c);
    assert_eq!(pool.wanted(), 1);
    assert_eq!(pool.ready.len(), 1);
}

#[test]
fn instance_numbers_begin_anew() {
    let mut pool: ParsePool<()> = ParsePool::new(2, 254);
    pool.replenish(vec![(), ()]);
    let ids: Vec<u8> = pool.ready.iter().map(|i: &ParseInstance<()>| i.id).collect();
    assert_eq!(ids, vec![255, 0]);
}

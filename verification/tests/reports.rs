use wcm_base_log_forwarder::batch::FlushReason;
use wcm_base_log_forwarder::config::{BatchConfig, PipelineStages};
use wcm_base_log_forwarder::pipeline::{
    can_join_parse_workers, can_join_transport_workers, join_parse_workers, join_transport_workers,
    plan_stages, JoinFault, StageMode, WorkerEnd,
};
use wcm_base_log_forwarder::report::{
    aggregate_measure, drop_share, filter_measure, format_measure, print_filter_batch,
    print_flush_header, print_format_batch, print_parse_aggregate, print_parse_batch,
    print_pipeline_summary, print_startup, print_transport_batch, summary_measures,
    transport_measure, Measure, Share, StageFigures, SummaryFigures, SummaryMeasures,
};
use wcm_base_log_forwarder::stats::{
    FilterStats, FormatStats, ParseDiffTiming, ParseStats, TransportStats, MAX_ELAPSED_NS,
};
use wcm_base_log_forwarder::tail_input::{tail_step, trim_line, TailAction, TailEvent};

#[test]
fn startup_tells_the_settings() {
    let cfg = BatchConfig::default();
    let stages = PipelineStages { filter: true, format: false, transport: true };
    assert_eq!(
        print_startup(&cfg, 134_217_728, "50", &stages),
        vec![
            "=== WCM Log Forwarder ===",
            "Parse Batch Max Size 50000",
            "Memory Limit : 256 MB",
            "Safe Budget  : 131072 KB (50% of limit)",
            "Stages       : parse → filter → transport",
            "========================",
        ]
    );
    let none = PipelineStages { filter: false, format: false, transport: false };
    assert_eq!(print_startup(&cfg, 0, "50", &none)[4], "Stages       : parse");
    let all = PipelineStages { filter: true, format: true, transport: true };
    assert_eq!(
        print_startup(&cfg, 0, "50", &all)[4],
        "Stages       : parse → filter → format → transport"
    );
}

#[test]
fn flush_headers_tell_the_first_reason() {
    let reason = |size, time, line_count, eof| FlushReason { size, time, line_count, eof };
    let kb = 1536.0f64 / 1024.0;
    let text = format!("{:.0}", kb);
    let cases = [
        (reason(true, true, true, true), "eof  "),
        (reason(true, true, true, false), "size "),
        (reason(false, true, true, false), "lines"),
        (reason(false, true, false, false), "time "),
    ];
    for (r, why) in cases {
        assert_eq!(
            print_flush_header(7, 12, &text, 345, &r),
            format!(
                "\n--- Flush #{:>4} [{}] | {:>6} lines / {:>7.0}KB / age={:>5}ms ---",
                7, why, 12, kb, 345
            )
        );
    }
}

#[test]
fn batch_lines_are_laid_out_in_columns() {
    assert_eq!(
        print_parse_batch(0, 12, 345, "67", "8.9", "1234", 5),
        format!(
            "[parse-w{} #{:>4}]  In={:>6}/{:>7.0}KB  Time={:>7.1}ms  {:>7.0}/s  Out={:>6}",
            0, 12, 345, 67.0, 8.9, 1234.0, 5
        )
    );
    assert_eq!(
        print_filter_batch(12, 345, 67, "80.6", "8.9", "1234"),
        format!(
            "[filter  #{:>4}]  In={:>6}  kept={:>6}  drop={:>5.1}%  Time={:>7.1}ms  {:>7.0}/s",
            12, 345, 67, 80.6, 8.9, 1234.0
        )
    );
    assert_eq!(
        print_format_batch(12, 345, 67, "8.9", "1234"),
        format!(
            "[format  #{:>4}]  In={:>6}  Out={:>6}  Time={:>7.1}ms  {:>7.0}/s",
            12, 345, 67, 8.9, 1234.0
        )
    );
    assert_eq!(
        print_transport_batch(12, 345, "67", "89", "1.5", "8.9", "1234"),
        format!(
            "[{:<9} #{:>4}]  In={:>6}/{:>7.0}KB  Mem={:>7.0}KB({:>5.1}%)  Time={:>7.1}ms  {:>7.0}/s",
            "transport", 12, 345, 67.0, 89.0, 1.5, 8.9, 1234.0
        )
    );
}

#[test]
fn batch_lines_stay_aligned() {
    let a = print_parse_batch(0, 1, 2, "3", "4.0", "5", 6);
    let b = print_parse_batch(0, 9999, 999_999, "9999999", "99999.9", "9999999", 999_999);
    assert_eq!(a.len(), 76);
    assert_eq!(b.len(), 76);
    assert_eq!(print_filter_batch(1, 2, 3, "4.0", "5.0", "6").len(), 79);
    assert_eq!(print_format_batch(1, 2, 3, "4.0", "5").len(), 65);
    assert_eq!(print_transport_batch(1, 2, "3", "4", "5.0", "6.0", "7").len(), 88);
}

fn figures() -> SummaryFigures {
    let f = |ms: &str, s: &str| StageFigures { elapsed_ms: ms.to_string(), per_second: s.to_string() };
    SummaryFigures {
        filter: f("1.00", "2"),
        drop_percent: "33.3".to_string(),
        format: f("3.00", "4"),
        transport: f("5.00", "6"),
        overall: f("7.00", "8"),
    }
}

#[test]
fn the_aggregate_tells_of_all_workers() {
    let mut p = ParseStats::default();
    p.total_batches = 3;
    p.total_output_entries = 40;
    assert_eq!(
        print_parse_aggregate(&p, 1, 2, "1.500", "27"),
        vec![
            "\n[parse-aggregate] workers=1  batches=3  entries=40  errors=2",
            "                  wall=1.500s  throughput=27 entries/s",
        ]
    );
}

#[test]
fn the_summary_tells_of_every_stage() {
    let mut p = ParseStats::default();
    p.total_batches = 1;
    p.total_input_lines = 100;
    p.total_output_entries = 90;
    let mut fi = FilterStats::default();
    fi.total_batches = 2;
    fi.total_input_entries = 90;
    fi.total_kept_entries = 60;
    fi.total_dropped_entries = 30;
    let mut f = FormatStats::default();
    f.total_batches = 3;
    f.total_input_entries = 60;
    f.total_output_lines = 59;
    let mut t = TransportStats::default();
    t.total_batches = 4;
    t.total_input_lines = 59;
    t.total_input_bytes = 1234;
    let lines = print_pipeline_summary(&p, Some(&fi), Some(&f), Some(&t), &figures());
    let rule = "╠══════════════════════════════════════════════════════════╣".to_string();
    assert_eq!(
        lines,
        vec![
            "\n╔══════════════════════════════════════════════════════════╗".to_string(),
            "║                   Pipeline Summary                      ║".to_string(),
            rule.clone(),
            format!("║ Parse  │ batches={:<6} input={:<10} entries={:<10}", 1, 100, 90),
            rule.clone(),
            format!(
                "║ Filter │ batches={:<6} in={:<10} kept={:<10} dropped={} ({:.1}%)",
                2, 90, 60, 30, 33.3
            ),
            "║        │ elapsed=1.00ms  throughput=2 entries/s".to_string(),
            rule.clone(),
            format!("║ Format │ batches={:<6} entries={:<10} lines={:<10}", 3, 60, 59),
            "║        │ elapsed=3.00ms  throughput=4 entries/s".to_string(),
            rule.clone(),
            format!("║ Trans  │ batches={:<6} lines={:<10} bytes={:<12}", 4, 59, 1234),
            "║        │ elapsed=5.00ms  throughput=6 lines/s".to_string(),
            rule.clone(),
            "║ E2E    │ input=100 lines → output=59 lines".to_string(),
            "║        │ wall=7.00ms  throughput=8 lines/s (all stages parallel)".to_string(),
            "╚══════════════════════════════════════════════════════════╝".to_string(),
        ]
    );
}

#[test]
fn disabled_stages_are_marked() {
    let mut p = ParseStats::default();
    p.total_input_lines = 10;
    p.total_output_entries = 9;
    let lines = print_pipeline_summary(&p, None, None, None, &figures());
    assert_eq!(lines.len(), 14);
    assert_eq!(lines[5], "║ Filter │ (disabled)                                           ║");
    assert_eq!(lines[7], "║ Format │ (disabled)                                           ║");
    assert_eq!(lines[9], "║ Trans  │ (disabled)                                           ║");
    assert_eq!(lines[11], "║ E2E    │ input=10 lines → output=9 lines");
}

#[test]
fn stages_that_take_no_part_still_take_what_comes() {
    let on = PipelineStages { filter: true, format: true, transport: true };
    let off = PipelineStages { filter: false, format: false, transport: false };
    let p = plan_stages(true, &on);
    assert_eq!(
        (p.parse, p.filter, p.format, p.transport),
        (StageMode::Run, StageMode::Run, StageMode::Run, StageMode::Run)
    );
    let p = plan_stages(false, &off);
    assert_eq!(
        (p.parse, p.filter, p.format, p.transport),
        (StageMode::Drain, StageMode::Bridge, StageMode::Drain, StageMode::Drain)
    );
}

fn parse_stats(n: u64, peak: usize) -> ParseStats {
    let mut s = ParseStats::default();
    s.total_batches = n;
    s.total_input_lines = 10 * n;
    s.total_elapsed = 7;
    s.wasm_mem_peak_max = peak;
    s.go_heap_peak_max = peak as u64 + 1;
    s
}

#[test]
fn parse_workers_are_added_up() {
    let ends: Vec<WorkerEnd<(ParseStats, u32), String>> = vec![
        WorkerEnd::Finished((parse_stats(1, 50), 2)),
        WorkerEnd::Finished((parse_stats(4, 20), 3)),
    ];
    match join_parse_workers(ends) {
        Ok((s, errors)) => {
            assert_eq!(s.total_batches, 5);
            assert_eq!(s.total_input_lines, 50);
            assert_eq!(s.total_elapsed, 14);
            assert_eq!(s.wasm_mem_peak_max, 50);
            assert_eq!(s.go_heap_peak_max, 51);
            assert_eq!(errors, 5);
        }
        Err(_) => panic!("all workers finished"),
    }
}

#[test]
fn the_first_worker_that_fails_decides() {
    let ends: Vec<WorkerEnd<(ParseStats, u32), String>> = vec![
        WorkerEnd::Finished((parse_stats(1, 1), 0)),
        WorkerEnd::Panicked,
        WorkerEnd::Failed("later".to_string()),
    ];
    match join_parse_workers(ends) {
        Err(JoinFault::Panicked(t)) => assert_eq!(t, "parse worker 1 panicked"),
        _ => panic!("a panic should be told"),
    }
    let ends: Vec<WorkerEnd<TransportStats, String>> =
        vec![WorkerEnd::Failed("first".to_string()), WorkerEnd::Panicked];
    match join_transport_workers(ends) {
        Err(JoinFault::Failed(e)) => assert_eq!(e, "first"),
        _ => panic!("a failure should be told"),
    }
    let ends: Vec<WorkerEnd<TransportStats, String>> = vec![WorkerEnd::Panicked];
    match join_transport_workers(ends) {
        Err(JoinFault::Panicked(t)) => assert_eq!(t, "transport worker panicked"),
        _ => panic!("a panic should be told"),
    }
}

#[test]
fn transport_workers_are_added_up() {
    let mut a = TransportStats::default();
    a.total_batches = 1;
    a.total_input_bytes = 5;
    a.total_bytes_reported = 6;
    a.wasm_mem_peak_max = 9;
    let mut b = a;
    b.wasm_mem_peak_max = 12;
    let ends: Vec<WorkerEnd<TransportStats, String>> =
        vec![WorkerEnd::Finished(a), WorkerEnd::Finished(b)];
    let total = join_transport_workers(ends).ok().unwrap();
    assert_eq!(total.total_batches, 2);
    assert_eq!(total.total_input_bytes, 10);
    assert_eq!(total.total_bytes_reported, 12);
    assert_eq!(total.wasm_mem_peak_max, 12);
}

#[test]
fn sums_that_cannot_be_held_are_told() {
    let mut a = FilterStats::default();
    let mut b = FilterStats::default();
    assert!(a.fits(&b));
    a.total_elapsed = MAX_ELAPSED_NS;
    b.total_elapsed = 1;
    assert!(!a.fits(&b));
    b.total_elapsed = 0;
    a.total_batches = u64::MAX;
    b.total_batches = 1;
    assert!(!a.fits(&b));
    let mut f = FormatStats::default();
    f.total_output_lines = 3;
    let mut g = f;
    g.wasm_mem_peak_max = 8;
    assert!(f.fits(&g));
    f.merge(&g);
    assert_eq!((f.total_output_lines, f.wasm_mem_peak_max), (6, 8));
    assert_eq!(ParseDiffTiming::default().guest_ns, 0);
}

#[test]
fn lines_of_a_file_lose_their_ends() {
    assert_eq!(trim_line("abc\n"), "abc");
    assert_eq!(trim_line("abc\r\n"), "abc");
    assert_eq!(trim_line("abc\r"), "abc\r");
    assert_eq!(trim_line("abc"), "abc");
    assert_eq!(trim_line("\r\r\n"), "\r");
    assert_eq!(trim_line(""), "");
}

#[test]
fn following_a_file_waits_and_sends() {
    assert!(matches!(tail_step(TailEvent::OpenFailed), TailAction::Wait(1000)));
    assert!(matches!(tail_step(TailEvent::EndOfFile), TailAction::Wait(50)));
    assert!(matches!(tail_step(TailEvent::ReadFailed), TailAction::Wait(100)));
    match tail_step(TailEvent::Line("x\r\n".to_string())) {
        TailAction::Send(s) => assert_eq!(s, "x"),
        _ => panic!("the line should be sent"),
    }
    assert!(matches!(tail_step(TailEvent::Line("\n".to_string())), TailAction::ReadOn));
    assert!(matches!(tail_step(TailEvent::Line("\r\n".to_string())), TailAction::ReadOn));
}

#[test]
fn figures_are_made_of_the_counts_of_their_stage() {
    let mut p = ParseStats::default();
    p.total_input_lines = 100;
    p.total_output_entries = 90;
    p.total_elapsed = 1;
    let mut fi = FilterStats::default();
    fi.total_input_entries = 90;
    fi.total_kept_entries = 60;
    fi.total_dropped_entries = 30;
    fi.total_elapsed = 2;
    let mut f = FormatStats::default();
    f.total_input_entries = 60;
    f.total_output_lines = 59;
    f.total_elapsed = 3;
    let mut t = TransportStats::default();
    t.total_input_lines = 58;
    t.total_input_bytes = 1234;
    t.total_elapsed = 4;
    let measure = |count, nanos| Measure { count, nanos };
    assert_eq!(
        summary_measures(&p, Some(&fi), Some(&f), Some(&t), 5),
        SummaryMeasures {
            filter: Some(measure(90, 2)),
            dropped: Some(Share { part: 30, whole: 90 }),
            format: Some(measure(60, 3)),
            transport: Some(measure(58, 4)),
            overall: measure(100, 5),
        }
    );
    assert_eq!(
        summary_measures(&p, None, None, None, 5),
        SummaryMeasures {
            filter: None,
            dropped: None,
            format: None,
            transport: None,
            overall: measure(100, 5),
        }
    );
    assert_eq!(aggregate_measure(&p, 5), measure(90, 5));
    assert_eq!(filter_measure(&fi), measure(90, 2));
    assert_eq!(format_measure(&f), measure(59, 3));
    assert_eq!(transport_measure(&t), measure(58, 4));
    assert_eq!(drop_share(&FilterStats::default()), Share { part: 0, whole: 1 });
}

#[test]
fn workers_whose_counts_cannot_be_held_are_told() {
    let mut large = parse_stats(1, 1);
    large.total_batches = u64::MAX;
    let ends = |list: Vec<(ParseStats, u32)>| -> Vec<WorkerEnd<(ParseStats, u32), String>> {
        list.into_iter().map(WorkerEnd::Finished).collect()
    };
    assert!(can_join_parse_workers(&ends(vec![])));
    assert!(can_join_parse_workers(&ends(vec![(large, u32::MAX)])));
    assert!(!can_join_parse_workers(&ends(vec![(large, 0), (parse_stats(1, 1), 0)])));
    assert!(!can_join_parse_workers(&ends(vec![
        (parse_stats(1, 1), u32::MAX),
        (parse_stats(1, 1), 1),
    ])));
    let stopped: Vec<WorkerEnd<(ParseStats, u32), String>> = vec![
        WorkerEnd::Finished((large, 0)),
        WorkerEnd::Panicked,
        WorkerEnd::Finished((large, 0)),
    ];
    assert!(can_join_parse_workers(&stopped));

    let mut full = TransportStats::default();
    full.total_input_bytes = u64::MAX;
    let two: Vec<WorkerEnd<TransportStats, String>> =
        vec![WorkerEnd::Finished(full), WorkerEnd::Finished(full)];
    assert!(!can_join_transport_workers(&two));
    let stopped: Vec<WorkerEnd<TransportStats, String>> = vec![
        WorkerEnd::Finished(full),
        WorkerEnd::Failed("gone".to_string()),
        WorkerEnd::Finished(full),
    ];
    assert!(can_join_transport_workers(&stopped));
}

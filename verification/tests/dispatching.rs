use std::time::{Duration, Instant};

use wcm_base_log_forwarder::batch::{Batch, FlushReason};
use wcm_base_log_forwarder::dispatch::{
    receive_timeout, take_work_batch, take_work_batch_at, Dispatcher,
};

fn line(s: &str) -> String {
    s.to_string()
}

#[test]
fn batch_counts_bytes_not_characters() {
    let mut batch = Batch::new();
    assert!(batch.is_empty());
    batch.push(line("abc"));
    batch.push(line("測試"));
    assert_eq!(batch.len(), 2);
    assert_eq!(batch.bytes, 9);
    assert_eq!(batch.lines, vec!["abc", "測試"]);
    let first = batch.elapsed();
    assert!(batch.elapsed() >= first);
    batch.clear();
    assert!(batch.is_empty());
    assert_eq!(batch.bytes, 0);
}

#[test]
fn batch_age_follows_the_clock() {
    let batch = Batch::new();
    let begun = Instant::now();
    while begun.elapsed().as_millis() < 20 {}
    assert!(batch.elapsed() >= 20_000_000);
    assert!(batch.elapsed() < 10_000_000_000);
}

#[test]
fn work_batch_takes_all_lines() {
    let mut batch = Batch::new();
    batch.push(line("a"));
    batch.push(line("bc"));
    let begun = batch.created_at;
    let reason = FlushReason { size: false, time: true, line_count: false, eof: false };
    let work = take_work_batch(&mut batch, 7, reason);
    assert_eq!(work.lines, vec!["a", "bc"]);
    assert_eq!(work.bytes, 3);
    assert_eq!(work.seq, 7);
    assert_eq!(work.reason, reason);
    assert_eq!(work.created_at, begun);
    assert!(batch.is_empty());
    assert_eq!(batch.bytes, 0);
}

#[test]
fn size_trigger_sends_the_batch_before_the_line() {
    let mut d = Dispatcher::new(10, 100);
    assert!(d.on_line(line("12345")).is_none());
    assert!(d.on_line(line("67890")).is_none());
    let work = d.on_line(line("x")).unwrap();
    assert_eq!(work.lines, vec!["12345", "67890"]);
    assert_eq!(work.bytes, 10);
    assert_eq!(work.seq, 0);
    assert_eq!(work.reason, FlushReason { size: true, time: false, line_count: false, eof: false });
    assert_eq!(d.batch.lines, vec!["x"]);
    assert_eq!(d.seq, 1);
}

#[test]
fn a_line_larger_than_the_budget_goes_alone() {
    let mut d = Dispatcher::new(4, 100);
    assert!(d.on_line(line("0123456789")).is_none());
    let work = d.on_line(line("a")).unwrap();
    assert_eq!(work.lines, vec!["0123456789"]);
    let rest = d.on_disconnect().unwrap();
    assert_eq!(rest.lines, vec!["a"]);
}

#[test]
fn line_trigger_counts_lines() {
    let mut d = Dispatcher::new(1000, 2);
    assert!(d.on_line(line("a")).is_none());
    assert!(d.on_line(line("b")).is_none());
    let work = d.on_line(line("c")).unwrap();
    assert_eq!(work.lines, vec!["a", "b"]);
    assert_eq!(work.reason, FlushReason { size: false, time: false, line_count: true, eof: false });
}

#[test]
fn both_triggers_are_told() {
    let mut d = Dispatcher::new(2, 2);
    assert!(d.on_line(line("a")).is_none());
    assert!(d.on_line(line("b")).is_none());
    let work = d.on_line(line("c")).unwrap();
    assert_eq!(work.reason, FlushReason { size: true, time: false, line_count: true, eof: false });
}

#[test]
fn timeout_and_end_send_what_waits() {
    let mut d = Dispatcher::new(1000, 1000);
    assert!(d.on_timeout().is_none());
    assert!(d.on_disconnect().is_none());
    assert!(d.on_line(line("a")).is_none());
    let work = d.on_timeout().unwrap();
    assert_eq!(work.reason, FlushReason { size: false, time: true, line_count: false, eof: false });
    assert_eq!(work.seq, 0);
    assert!(d.on_line(line("b")).is_none());
    let last = d.on_disconnect().unwrap();
    assert_eq!(last.reason, FlushReason { size: false, time: false, line_count: false, eof: true });
    assert_eq!(last.seq, 1);
}

#[test]
fn no_line_is_lost_and_numbers_have_no_gap() {
    let mut d = Dispatcher::new(12, 3);
    let mut works = Vec::new();
    let mut given = Vec::new();
    for i in 0..50 {
        let text = format!("{}", "x".repeat(i % 7));
        given.push(text.clone());
        if let Some(w) = d.on_line(text) {
            works.push(w);
        }
        if i % 11 == 10 {
            if let Some(w) = d.on_timeout() {
                works.push(w);
            }
        }
    }
    if let Some(w) = d.on_disconnect() {
        works.push(w);
    }
    let mut got = Vec::new();
    for (n, w) in works.iter().enumerate() {
        assert_eq!(w.seq, n as u64);
        assert!(w.lines.len() <= 3);
        assert!(w.bytes <= 12 || w.lines.len() == 1);
        got.extend(w.lines.iter().cloned());
    }
    assert_eq!(got, given);
}

#[test]
fn waiting_time_shrinks_with_the_age_of_the_batch() {
    assert_eq!(receive_timeout(true, 5_000, 4_000), 5_000);
    assert_eq!(receive_timeout(false, 5_000, 4_000), 1_000);
    assert_eq!(receive_timeout(false, 5_000, 5_000), 0);
    assert_eq!(receive_timeout(false, 5_000, 9_000), 0);
}

#[test]
fn a_batch_is_begun_at_the_time_given() {
    let start = Instant::now();
    let later = start + Duration::from_secs(3);
    let mut batch = Batch::begun_at(start);
    assert!(batch.is_empty());
    assert_eq!(batch.created_at, start);
    batch.push(line("abc"));
    assert_eq!(batch.created_at, start);
    batch.begin_at(later);
    assert!(batch.is_empty());
    assert_eq!(batch.bytes, 0);
    assert_eq!(batch.created_at, later);
}

#[test]
fn clearing_restarts_the_timer() {
    let mut batch = Batch::begun_at(Instant::now());
    batch.push(line("a"));
    let before = Instant::now();
    batch.clear();
    assert!(before <= batch.created_at);
    assert!(batch.created_at <= Instant::now());
    let fresh = Batch::new();
    assert!(batch.created_at <= fresh.created_at);
}

#[test]
fn taking_a_work_batch_restarts_the_timer() {
    let start = Instant::now();
    let later = start + Duration::from_secs(3);
    let reason = FlushReason { size: true, time: false, line_count: false, eof: false };
    let mut batch = Batch::begun_at(start);
    batch.push(line("a"));
    let work = take_work_batch_at(&mut batch, 2, reason, later);
    assert_eq!(work.lines, vec!["a"]);
    assert_eq!(work.created_at, start);
    assert_eq!(batch.created_at, later);
    batch.push(line("b"));
    let before = Instant::now();
    let work = take_work_batch(&mut batch, 3, reason);
    assert_eq!(work.created_at, later);
    assert!(before <= batch.created_at);
}

#[test]
fn the_timer_stays_where_nothing_is_passed_on() {
    let start = Instant::now();
    let mut d = Dispatcher::begun_at(10, 2, start);
    assert_eq!(d.batch.created_at, start);
    assert!(d.on_timeout().is_none());
    assert!(d.on_disconnect().is_none());
    assert!(d.on_line(line("a")).is_none());
    assert!(d.on_line(line("b")).is_none());
    assert_eq!(d.batch.created_at, start);
    let before = Instant::now();
    let work = d.on_line(line("c")).unwrap();
    assert_eq!(work.created_at, start);
    assert!(before <= d.batch.created_at);
}

#[test]
fn the_timer_restarts_with_each_batch_passed_on() {
    let start = Instant::now();
    let at = |n: u64| start + Duration::from_secs(n);
    let mut d = Dispatcher::begun_at(10, 1, start);
    assert!(d.on_line_at(line("a"), at(1)).is_none());
    assert_eq!(d.batch.created_at, start);
    assert_eq!(d.on_line_at(line("b"), at(2)).unwrap().created_at, start);
    assert_eq!(d.batch.created_at, at(2));
    assert_eq!(d.on_timeout_at(at(3)).unwrap().created_at, at(2));
    assert_eq!(d.batch.created_at, at(3));
    assert!(d.on_timeout_at(at(4)).is_none());
    assert!(d.on_disconnect_at(at(4)).is_none());
    assert_eq!(d.batch.created_at, at(3));
    assert!(d.on_line_at(line("c"), at(5)).is_none());
    assert_eq!(d.on_disconnect_at(at(6)).unwrap().created_at, at(3));
    assert_eq!(d.batch.created_at, at(6));
}

#[test]
fn the_age_of_a_batch_is_counted_from_its_beginning() {
    let start = Instant::now();
    let mut batch = Batch::begun_at(start);
    assert_eq!(batch.elapsed_at(start), 0);
    assert_eq!(batch.elapsed_at(start + Duration::from_millis(1_500)), 1_500_000_000);
    batch.begin_at(start + Duration::from_secs(2));
    assert_eq!(batch.elapsed_at(start + Duration::from_nanos(2_000_000_007)), 7);
    assert_eq!(batch.elapsed_at(start), 0);
}

#[test]
fn lines_wait_no_longer_than_they_may() {
    let start = Instant::now();
    let mut d = Dispatcher::begun_at(100, 10, start);
    assert_eq!(d.wait_at(5_000, start + Duration::from_secs(1)), 5_000);
    assert_eq!(d.wait(5_000), 5_000);
    d.on_line_at(line("a"), start);
    assert_eq!(d.wait_at(5_000, start), 5_000);
    assert_eq!(d.wait_at(5_000, start + Duration::from_nanos(1_200)), 3_800);
    assert_eq!(d.wait_at(5_000, start + Duration::from_secs(1)), 0);
    assert!(d.wait(5_000) <= 5_000);
}

#[test]
fn what_cannot_be_counted_is_told_beforehand() {
    let mut d = Dispatcher::new(2, 10);
    assert!(d.can_take_timeout());
    d.seq = u64::MAX;
    assert!(d.can_take_line(&line("abc")));
    assert!(d.can_take_timeout());
    d.on_line(line("a"));
    assert!(d.can_take_line(&line("b")));
    assert!(!d.can_take_line(&line("bc")));
    assert!(!d.can_take_timeout());
    d.seq -= 1;
    assert!(d.can_take_line(&line("bc")));
    assert!(d.can_take_timeout());
}

#[test]
fn only_the_last_batch_is_that_of_the_end() {
    let mut d = Dispatcher::new(1000, 2);
    let mut works = Vec::new();
    for text in ["a", "b", "c", "d", "e"] {
        works.extend(d.on_line(line(text)));
    }
    works.extend(d.on_timeout());
    works.extend(d.on_line(line("f")));
    works.extend(d.on_disconnect());
    let marks: Vec<bool> = works.iter().map(|w| w.reason.eof).collect();
    assert_eq!(marks, vec![false, false, false, true]);
}

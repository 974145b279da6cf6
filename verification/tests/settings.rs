use wcm_base_log_forwarder::config::{BatchConfig, ChannelStats, Counters, Ratio, RatioText};
use wcm_base_log_forwarder::endpoint::parse_endpoint;
use wcm_base_log_forwarder::hot_swap::PluginSlot;
use wcm_base_log_forwarder::limiter::MyLimiter;

fn shown(ratio: f64) -> RatioText {
    RatioText { plain: format!("{}", ratio), percent: format!("{:.0}", ratio * 100.0) }
}

fn fault_of(change: fn(&mut BatchConfig)) -> (String, Vec<String>) {
    let mut cfg = BatchConfig::default();
    change(&mut cfg);
    let mut remarks = Vec::new();
    let ratio = f64::from_bits(cfg.safe_data_ratio.bits);
    let e = cfg.validate_and_describe(&shown(ratio), &mut remarks).unwrap_err();
    (e, remarks)
}

#[test]
fn defaults_are_those_of_the_manual() {
    let cfg = BatchConfig::default();
    assert_eq!(cfg.mem_limit_mb, 256);
    assert_eq!(f64::from_bits(cfg.safe_data_ratio.bits), 0.5);
    assert_eq!(cfg.max_wait, std::time::Duration::from_millis(5000).as_nanos());
    assert_eq!(cfg.max_batch_lines, 50_000);
    assert_eq!(cfg.channel_capacity, 150_000);
    assert_eq!(cfg.max_format_chunk, 50_000);
    assert_eq!(cfg.transport_endpoint, "http://127.0.0.1:8080/ingest");
    assert_eq!(cfg.max_transport_bytes, 131072);
    assert_eq!(cfg.transport_workers, 5);
    assert_eq!(cfg.mem_limit_bytes(), 256 * 1024 * 1024);
}

#[test]
fn defaults_are_sound_and_described() {
    let cfg = BatchConfig::default();
    let mut remarks = Vec::new();
    assert_eq!(cfg.validate_and_describe(&shown(0.5), &mut remarks), Ok(()));
    assert_eq!(remarks, cfg.print_config_table("50"));
    assert_eq!(remarks.len(), 13);
}

#[test]
fn each_fault_is_told() {
    let cases: Vec<(fn(&mut BatchConfig), &str)> = vec![
        (|c| c.mem_limit_mb = 63, "mem_limit_mb=63 過小（建議 >= 64 MB）"),
        (
            |c| c.safe_data_ratio = Ratio { bits: 1.5f64.to_bits() },
            "safe_data_ratio=1.5 必須在 (0.0, 1.0) 之間",
        ),
        (|c| c.max_wait = 0, "max_wait 不能為 0（parse loop 會無限 spin）"),
        (|c| c.max_batch_lines = 0, "max_batch_lines 不能為 0"),
        (|c| c.max_format_chunk = 0, "max_format_chunk 不能為 0"),
        (
            |c| c.transport_endpoint = "ftp://x".to_string(),
            "transport_endpoint='ftp://x' 不是合法的 HTTP/HTTPS URL",
        ),
        (
            |c| c.max_transport_bytes = 4095,
            "max_transport_bytes=4095 過小（至少需 4096 B，等於一次 WASI write）",
        ),
        (|c| c.transport_workers = 0, "transport_workers 不能為 0"),
    ];
    for (change, expected) in cases {
        let (e, remarks) = fault_of(change);
        assert_eq!(e, expected);
        assert!(remarks.is_empty());
    }
}

#[test]
fn the_first_fault_is_told() {
    let (e, _) = fault_of(|c| {
        c.transport_workers = 0;
        c.max_wait = 0;
        c.max_format_chunk = 0;
    });
    assert_eq!(e, "max_wait 不能為 0（parse loop 會無限 spin）");
}

#[test]
fn limits_are_inclusive_where_they_should_be() {
    let mut cfg = BatchConfig::default();
    cfg.mem_limit_mb = 64;
    cfg.max_transport_bytes = 4096;
    cfg.transport_endpoint = "https://".to_string();
    cfg.max_batch_lines = 1;
    cfg.max_format_chunk = 1;
    cfg.max_wait = 1;
    cfg.transport_workers = 1;
    assert!(cfg.validate_and_describe(&shown(0.5), &mut Vec::new()).is_ok());
}

#[test]
fn ratios_lie_strictly_between_zero_and_one() {
    let proper = [f64::MIN_POSITIVE, 5e-324, 0.25, 0.5, 0.999_999_999];
    for r in proper {
        assert!(Ratio { bits: r.to_bits() }.is_proper(), "{}", r);
    }
    let improper = [
        0.0,
        -0.0,
        1.0,
        1.000_000_1,
        -0.5,
        f64::INFINITY,
        f64::NEG_INFINITY,
        f64::NAN,
        f64::MAX,
    ];
    for r in improper {
        assert!(!Ratio { bits: r.to_bits() }.is_proper(), "{}", r);
        assert!(!(0.0 < r && r < 1.0));
    }
}

#[test]
fn warnings_are_given_until_a_fault_is_found() {
    let (e, remarks) = fault_of(|c| {
        c.channel_capacity = 10;
        c.max_batch_lines = 20;
        c.max_format_chunk = 0;
    });
    assert_eq!(e, "max_format_chunk 不能為 0");
    assert_eq!(
        remarks,
        vec![
            "[config-warn] channel_capacity=10 < max_batch_lines=20，\
             stdin channel 可能在單個 batch 積滿前就阻塞"
        ]
    );
    let (e, remarks) = fault_of(|c| {
        c.max_batch_lines = 20;
        c.max_format_chunk = 30;
        c.transport_workers = 0;
    });
    assert_eq!(e, "transport_workers 不能為 0");
    assert_eq!(
        remarks,
        vec![
            "[config-warn] max_format_chunk=30 > max_batch_lines=20，\
             format 拆塊無實際效果（每批只有一塊）"
        ]
    );
}

#[test]
fn remarks_are_added_to_those_there_are() {
    let mut cfg = BatchConfig::default();
    cfg.channel_capacity = 10;
    cfg.max_format_chunk = 60_000;
    let mut remarks = vec!["before".to_string()];
    assert!(cfg.validate_and_describe(&shown(0.5), &mut remarks).is_ok());
    assert_eq!(remarks.len(), 1 + 2 + 13);
    assert_eq!(remarks[0], "before");
    assert!(remarks[1].starts_with("[config-warn] channel_capacity=10 <"));
    assert!(remarks[2].starts_with("[config-warn] max_format_chunk=60000 >"));
}

#[test]
fn the_table_is_laid_out_in_columns() {
    let mut cfg = BatchConfig::default();
    cfg.max_wait = 2_999_999;
    cfg.max_transport_bytes = 5000;
    let table = cfg.print_config_table("50");
    assert_eq!(table[0], format!("┌{:─<28}┬{:─<14}┬{:─<7}┬{:─<58}┐", "", "", "", ""));
    assert_eq!(
        table[1],
        format!("│ {:26} │ {:12} │ {:5} │ {:56} │", "參數", "值", "預設", "用途")
    );
    assert_eq!(table[2], format!("├{:─<28}┼{:─<14}┼{:─<7}┼{:─<58}┤", "", "", "", ""));
    assert_eq!(
        table[3],
        format!(
            "│ {:26} │ {:12} │ {:5} │ {:56} │",
            "mem_limit_mb", "256 MB", "✓", "每個 WASM store 線性記憶體上限 (runtime.rs MyLimiter)"
        )
    );
    assert_eq!(
        table[4],
        format!(
            "│ {:26} │ {:12} │ {:5} │ {:56} │",
            "safe_data_ratio",
            "50%",
            "✓",
            "parse batch size 觸發提前 flush 的閾值 (runtime.rs parse_loop)"
        )
    );
    assert_eq!(
        table[5],
        format!(
            "│ {:26} │ {:12} │ {:5} │ {:56} │",
            "max_wait",
            "2 ms",
            "●",
            "parse 時間觸發 flush 的等待上限 (runtime.rs parse_loop recv_timeout)"
        )
    );
    assert_eq!(
        table[6],
        format!(
            "│ {:26} │ {:12} │ {:5} │ {:56} │",
            "max_batch_lines", "50000", "✓", "parse 行數觸發 flush 的上限 (runtime.rs parse_loop)"
        )
    );
    assert_eq!(
        table[7],
        format!(
            "│ {:26} │ {:12} │ {:5} │ {:56} │",
            "channel_capacity",
            "150000",
            "✓",
            "stdin→parse LineItem channel 容量 [注意: parsed/formatted channel 硬編碼 20000]"
        )
    );
    assert_eq!(
        table[8],
        format!(
            "│ {:26} │ {:12} │ {:5} │ {:56} │",
            "max_format_chunk",
            "50000",
            "✓",
            "format plugin 每次呼叫的最大 entry 數 (runtime.rs format_loop chunks)"
        )
    );
    assert_eq!(
        table[9],
        format!(
            "│ {:26} │ {:12} │ {:5} │ {:56} │",
            "transport_endpoint",
            "http://127.0.0.1:8080/ingest",
            "✓",
            "transport plugin init() 目標 URL (runtime.rs make_transport_config_val)"
        )
    );
    assert_eq!(
        table[10],
        format!(
            "│ {:26} │ {:12} │ {:5} │ {:56} │",
            "max_transport_bytes",
            "4 KB",
            "●",
            "每次 transport send() 的最大 byte 數 = 一個 HTTP POST 大小"
        )
    );
    assert_eq!(
        table[11],
        format!(
            "│ {:26} │ {:12} │ {:5} │ {:56} │",
            "transport_workers", "5", "✓", "並行 transport worker 數量，每個持有獨立 WASM store"
        )
    );
    assert_eq!(table[12], format!("└{:─<28}┴{:─<14}┴{:─<7}┴{:─<58}┘", "", "", "", ""));
}

#[test]
fn channel_counts_are_what_waits() {
    let mut counters = Counters::new();
    let c = ChannelStats::new(&mut counters);
    assert_eq!(c.snapshot(&counters), (0, 0));
    c.on_send(&mut counters, 10);
    c.on_send(&mut counters, 5);
    assert_eq!(c.snapshot(&counters), (2, 15));
    c.on_recv(&mut counters, 10);
    assert_eq!(c.snapshot(&counters), (1, 5));
    c.on_recv(&mut counters, 5);
    assert_eq!(c.snapshot(&counters), (0, 0));
}

#[test]
fn receiving_may_be_counted_before_sending() {
    let mut counters = Counters::new();
    let c = ChannelStats::new(&mut counters);
    c.on_recv(&mut counters, 7);
    assert_eq!(c.snapshot(&counters), (usize::MAX, usize::MAX - 6));
    c.on_send(&mut counters, 7);
    assert_eq!(c.snapshot(&counters), (0, 0));
}

#[test]
fn clones_of_a_channel_share_its_counts() {
    let mut counters = Counters::new();
    let rx_side = ChannelStats::new(&mut counters);
    let tx_side = rx_side.clone();
    tx_side.on_send(&mut counters, 4);
    tx_side.on_send(&mut counters, 6);
    assert_eq!(rx_side.snapshot(&counters), (2, 10));
    rx_side.on_recv(&mut counters, 4);
    assert_eq!(tx_side.snapshot(&counters), (1, 6));
    assert_eq!(rx_side.snapshot(&counters), (1, 6));
    rx_side.on_recv(&mut counters, 6);
    assert_eq!(tx_side.snapshot(&counters), (0, 0));
}

#[test]
fn channels_count_apart() {
    let mut counters = Counters::new();
    let lines = ChannelStats::new(&mut counters);
    lines.on_send(&mut counters, 3);
    let works = ChannelStats::new(&mut counters);
    assert_eq!(works.snapshot(&counters), (0, 0));
    works.on_send(&mut counters, 100);
    works.on_send(&mut counters, 50);
    assert_eq!(lines.snapshot(&counters), (1, 3));
    lines.on_recv(&mut counters, 3);
    assert_eq!(works.snapshot(&counters), (2, 150));
}

#[test]
fn growth_is_granted_up_to_the_limit() {
    let mut l = MyLimiter::new(1000);
    assert!(l.can_count(0, 1000));
    assert!(l.memory_growing(0, 1000, None));
    assert!(!l.memory_growing(1000, 1001, Some(5000)));
    assert!(l.memory_growing(500, 400, None));
    assert_eq!(l.grow_count, 3);
    assert_eq!(l.grow_total_delta_bytes, 1001);
    assert_eq!(l.wasm_mem_peak, 1001);
    assert_eq!(l.max_allocation, 1001);
    assert!(l.table_growing(0, usize::MAX, None));
    assert_eq!(l.grow_count, 3);
    l.print_max("parse");
}

#[test]
fn the_peak_outlives_a_reset() {
    let mut l = MyLimiter::new(1000);
    l.memory_growing(0, 700, None);
    l.reset_batch_stats();
    assert_eq!((l.grow_count, l.grow_total_delta_bytes, l.max_allocation), (0, 0, 0));
    assert_eq!(l.wasm_mem_peak, 700);
    l.memory_growing(700, 800, None);
    assert_eq!(l.wasm_mem_peak, 800);
    assert_eq!(l.max_allocation, 800);
    assert_eq!(l.grow_total_delta_bytes, 100);
}

#[test]
fn growth_beyond_what_can_be_counted_is_told() {
    let mut l = MyLimiter::new(1000);
    l.grow_count = u64::MAX;
    assert!(!l.can_count(0, 0));
    l.grow_count = 0;
    l.grow_total_delta_bytes = u64::MAX - 1;
    assert!(l.can_count(0, 1));
    assert!(!l.can_count(0, 2));
}

#[test]
fn a_built_plugin_takes_the_place_of_the_old_one() {
    let mut slot = PluginSlot::new("old");
    let (ok, told) = slot.rebuild(Ok("new"), "parse", "p.wasm");
    assert!(ok);
    assert_eq!(told, "[config] parse plugin hot-swapped → v1 (p.wasm)");
    assert_eq!((slot.runtime, slot.version), ("new", 1));
}

#[test]
fn a_plugin_that_cannot_be_built_leaves_the_old_one() {
    let mut slot = PluginSlot::new("old");
    let (ok, told) = slot.rebuild(Err("boom".to_string()), "filter", "f.wasm");
    assert!(!ok);
    assert_eq!(told, "[config] filter plugin rebuild FAILED — keeping old plugin: boom");
    assert_eq!((slot.runtime, slot.version), ("old", 0));
    slot.rebuild(Ok("a"), "filter", "f.wasm");
    slot.rebuild(Err("boom".to_string()), "filter", "f.wasm");
    slot.rebuild(Ok("b"), "filter", "f.wasm");
    assert_eq!((slot.runtime, slot.version), ("b", 2));
}

#[test]
fn sound_endpoints_are_those_that_can_be_taken_apart() {
    for url in ["http://a", "https://a/b", "ftp://a", "", "http:/a", "Https://a"] {
        let mut cfg = BatchConfig::default();
        cfg.transport_endpoint = url.to_string();
        let sound = cfg.validate_and_describe(&shown(0.5), &mut Vec::new()).is_ok();
        assert_eq!(sound, parse_endpoint(url).is_ok(), "{}", url);
    }
}

#[test]
fn counts_are_those_since_the_last_reset() {
    let mut l = MyLimiter::new(1000);
    l.memory_growing(0, 900, None);
    l.reset_batch_stats();
    l.memory_growing(100, 250, None);
    l.memory_growing(250, 2000, None);
    l.memory_growing(250, 200, None);
    assert_eq!(l.grow_count, 3);
    assert_eq!(l.grow_total_delta_bytes, 150 + 1750);
    assert_eq!(l.max_allocation, 2000);
}

#[test]
fn settings_can_be_cloned() {
    let mut cfg = BatchConfig::default();
    cfg.transport_endpoint = "https://host/in".to_string();
    cfg.max_batch_lines = 7;
    let other = cfg.clone();
    assert_eq!(other.transport_endpoint, "https://host/in");
    assert_eq!(other.max_batch_lines, 7);
    assert_eq!(other.max_wait, cfg.max_wait);
}

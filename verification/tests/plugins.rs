use wcm_base_log_forwarder::base64::base64_encode;
use wcm_base_log_forwarder::endpoint::{parse_endpoint, Scheme};
use wcm_base_log_forwarder::entry::{LogLevel, ParseError, PluginError};
use wcm_base_log_forwarder::fault_filter::{has_trigger, HangScenario, LeakFilter, Reaction};
use wcm_base_log_forwarder::headers::{build_headers, ApiKey, AuthMethod, BasicCredential};
use wcm_base_log_forwarder::host_check::{check_result, trial_config, CallOutcome};
use wcm_base_log_forwarder::json_parser::{
    collect_all_tags, do_parse, entry_from, map_level_num, map_level_str, route_tag,
    value_to_string, JsonDocument, JsonField, JsonLeaf, JsonValue,
};
use wcm_base_log_forwarder::pipeline::worker_config;
use wcm_base_log_forwarder::transport_plugin::{
    check_status, pack_bodies, plan_request, write_pieces, RetryConfig, SendRun, SendStep,
    TransportConfig, TransportPlugin, MAX_WRITE,
};
use wcm_base_log_forwarder::usage::UsageMeter;

fn config(endpoint: &str, max_batch_bytes: u32, retry: Option<RetryConfig>) -> TransportConfig {
    TransportConfig {
        endpoint: endpoint.to_string(),
        auth: AuthMethod::Anonymous,
        connect_timeout_ms: 0,
        request_timeout_ms: 0,
        retry,
        extra_headers: Vec::new(),
        max_batch_bytes,
    }
}

fn lines(texts: &[&str]) -> Vec<Vec<u8>> {
    texts.iter().map(|t| t.as_bytes().to_vec()).collect()
}

fn raw(texts: &[&str]) -> Vec<String> {
    texts.iter().map(|t| t.to_string()).collect()
}

fn config_error<T>(res: Result<T, PluginError>) -> String {
    match res {
        Err(PluginError::ConfigError(t)) => t,
        _ => panic!("a configuration error was expected"),
    }
}

#[test]
fn base64_known_values() {
    assert_eq!(base64_encode(b""), "");
    assert_eq!(base64_encode(b"f"), "Zg==");
    assert_eq!(base64_encode(b"fo"), "Zm8=");
    assert_eq!(base64_encode(b"foo"), "Zm9v");
    assert_eq!(base64_encode(b"foob"), "Zm9vYg==");
    assert_eq!(base64_encode(b"fooba"), "Zm9vYmE=");
    assert_eq!(base64_encode(b"foobar"), "Zm9vYmFy");
    assert_eq!(base64_encode(&[0xFB, 0xFF, 0xBF, 0x00, 0x10]), "+/+/ABA=");
}

#[test]
fn base64_lengths() {
    for n in 0..20usize {
        assert_eq!(base64_encode(&vec![0xAB; n]).len(), (n + 2) / 3 * 4);
    }
}

#[test]
fn endpoints_are_taken_apart() {
    let (s, a, p) = parse_endpoint("http://127.0.0.1:8080/ingest").unwrap();
    assert_eq!((s, a.as_str(), p.as_str()), (Scheme::Http, "127.0.0.1:8080", "/ingest"));
    let (s, a, p) = parse_endpoint("https://host/a/b?c=/d").unwrap();
    assert_eq!((s, a.as_str(), p.as_str()), (Scheme::Https, "host", "/a/b?c=/d"));
    let (s, a, p) = parse_endpoint("http://host").unwrap();
    assert_eq!((s, a.as_str(), p.as_str()), (Scheme::Http, "host", "/"));
    let (s, a, p) = parse_endpoint("https://").unwrap();
    assert_eq!((s, a.as_str(), p.as_str()), (Scheme::Https, "", "/"));
    let (_, a, p) = parse_endpoint("http:///path").unwrap();
    assert_eq!((a.as_str(), p.as_str()), ("", "/path"));
}

#[test]
fn endpoint_parts_make_the_endpoint() {
    for url in ["http://h:1/x/y", "https://測試/路徑", "http://h/"] {
        let (s, a, p) = parse_endpoint(url).unwrap();
        let prefix = if s == Scheme::Http { "http://" } else { "https://" };
        assert_eq!(format!("{}{}{}", prefix, a, p), url);
    }
}

#[test]
fn unknown_schemes_are_refused() {
    for url in ["ftp://x", "HTTP://x", "", "http:/x", "localhost"] {
        assert_eq!(
            config_error(parse_endpoint(url)),
            format!("unsupported scheme in endpoint: {}", url)
        );
    }
}

#[test]
fn headers_are_set_in_order() {
    let extra = vec![("x-a".to_string(), "1".to_string()), ("x-b".to_string(), "2".to_string())];
    let h = build_headers(&AuthMethod::Anonymous, &extra, 239);
    let expected = [
        ("content-type", "application/octet-stream"),
        ("content-length", "239"),
        ("x-a", "1"),
        ("x-b", "2"),
    ];
    assert_eq!(h.len(), expected.len());
    for (have, want) in h.iter().zip(expected) {
        assert_eq!((have.0.as_str(), have.1.as_str()), want);
    }
}

#[test]
fn senders_show_who_they_are() {
    let h = build_headers(&AuthMethod::BearerToken("abc".to_string()), &Vec::new(), 0);
    assert_eq!(h[2], ("authorization".to_string(), "Bearer abc".to_string()));
    let cred = BasicCredential { username: "Aladdin".to_string(), password: "open sesame".to_string() };
    let h = build_headers(&AuthMethod::BasicAuth(cred), &Vec::new(), 0);
    assert_eq!(
        h[2],
        ("authorization".to_string(), "Basic QWxhZGRpbjpvcGVuIHNlc2FtZQ==".to_string())
    );
    let key = ApiKey { header_name: "x-key".to_string(), key: "k".to_string() };
    let h = build_headers(&AuthMethod::ApiKey(key), &Vec::new(), 0);
    assert_eq!(h[2], ("x-key".to_string(), "k".to_string()));
    assert_eq!(h.len(), 3);
}

#[test]
fn lines_are_packed_into_bodies() {
    let l = lines(&["aaa", "bbb\n", "c"]);
    assert_eq!(pack_bodies(&l, 0), lines(&["aaa\nbbb\nc\n"]));
    assert_eq!(pack_bodies(&l, 8), lines(&["aaa\n", "bbb\nc\n"]));
    assert_eq!(pack_bodies(&l, 9), lines(&["aaa\nbbb\n", "c\n"]));
    assert_eq!(pack_bodies(&l, 4096), lines(&["aaa\nbbb\nc\n"]));
    assert_eq!(pack_bodies(&l, 1), lines(&["aaa\n", "bbb\n", "c\n"]));
    assert!(pack_bodies(&Vec::new(), 0).is_empty());
    assert!(pack_bodies(&Vec::new(), 10).is_empty());
}

#[test]
fn empty_lines_become_newlines() {
    assert_eq!(pack_bodies(&lines(&["", "a", ""]), 0), lines(&["\na\n\n"]));
    assert_eq!(pack_bodies(&lines(&["", "", ""]), 2), lines(&["\n\n", "\n"]));
}

#[test]
fn bodies_hold_all_lines_whatever_the_limit() {
    let l: Vec<Vec<u8>> = (0..40).map(|i| vec![b'a' + (i % 26) as u8; i % 9]).collect();
    let mut whole = Vec::new();
    for x in &l {
        whole.extend_from_slice(x);
        whole.push(b'\n');
    }
    for limit in [0, 1, 5, 10, 33, 1000] {
        let bodies = pack_bodies(&l, limit);
        assert_eq!(bodies.concat(), whole);
        for b in &bodies {
            assert!(limit == 0 || b.len() <= limit as usize || b.iter().filter(|c| **c == b'\n').count() == 1);
        }
    }
}

#[test]
fn the_three_sample_logs_are_239_bytes() {
    let logs = lines(&[
        "{\"level\":\"info\",\"ts\":\"2026-04-05T10:00:00Z\",\"msg\":\"server started\",\"port\":8080}",
        "{\"level\":\"warn\",\"ts\":\"2026-04-05T10:00:01Z\",\"msg\":\"high memory\",\"pct\":82}",
        "{\"level\":\"error\",\"ts\":\"2026-04-05T10:00:02Z\",\"msg\":\"connection refused\",\"host\":\"db\"}",
    ]);
    let mut plugin = TransportPlugin::new();
    assert!(plugin.init(trial_config("http://127.0.0.1:8080/ingest".to_string())).is_ok());
    let mut run = plugin.send(&logs).unwrap();
    assert_eq!(run.first_step(), SendStep::Post);
    assert_eq!(run.body().unwrap().len(), 239);
    assert_eq!(plugin.on_posted(&mut run, true), SendStep::Done);
    assert_eq!(plugin.report_usage(), 239);
}

#[test]
fn sending_needs_a_configuration() {
    let plugin = TransportPlugin::new();
    assert_eq!(config_error(plugin.send(&lines(&["a"]))), "init() not called before send()");
}

#[test]
fn a_configuration_without_a_usable_endpoint_is_refused() {
    let mut plugin = TransportPlugin::new();
    assert_eq!(config_error(plugin.init(config("", 0, None))), "endpoint must not be empty");
    assert_eq!(
        config_error(plugin.init(config("ws://x", 0, None))),
        "unsupported scheme in endpoint: ws://x"
    );
    assert!(plugin.config.is_none());
}

#[test]
fn a_new_configuration_begins_to_count_anew() {
    let mut plugin = TransportPlugin::new();
    plugin.init(config("http://x", 0, None)).unwrap();
    let mut run = plugin.send(&lines(&["abc"])).unwrap();
    plugin.on_posted(&mut run, true);
    assert_eq!(plugin.report_usage(), 4);
    assert!(plugin.init(config("bad", 0, None)).is_err());
    assert_eq!(plugin.report_usage(), 4);
    plugin.init(config("http://y", 0, None)).unwrap();
    assert_eq!(plugin.report_usage(), 0);
    assert_eq!(plugin.config.as_ref().unwrap().endpoint, "http://y");
}

#[test]
fn nothing_to_send_is_done_at_once() {
    let mut plugin = TransportPlugin::new();
    plugin.init(config("http://x", 0, None)).unwrap();
    let run = plugin.send(&Vec::new()).unwrap();
    assert_eq!(run.first_step(), SendStep::Done);
    assert!(run.body().is_none());
}

#[test]
fn bodies_are_posted_one_after_the_other() {
    let mut plugin = TransportPlugin::new();
    plugin.init(config("http://x", 4, None)).unwrap();
    let mut run = plugin.send(&lines(&["aaa", "bbb", "ccc"])).unwrap();
    assert_eq!(run.bodies.len(), 3);
    assert_eq!(plugin.on_posted(&mut run, true), SendStep::Post);
    assert_eq!(run.body().unwrap(), b"bbb\n");
    assert_eq!(plugin.on_posted(&mut run, true), SendStep::Post);
    assert_eq!(plugin.on_posted(&mut run, true), SendStep::Done);
    assert_eq!(plugin.report_usage(), 12);
}

#[test]
fn what_was_sent_counts_though_a_later_body_fails() {
    let mut plugin = TransportPlugin::new();
    plugin.init(config("http://x", 4, None)).unwrap();
    let mut run = plugin.send(&lines(&["aaa", "bbb"])).unwrap();
    assert_eq!(plugin.on_posted(&mut run, true), SendStep::Post);
    assert_eq!(plugin.on_posted(&mut run, false), SendStep::GiveUp);
    assert_eq!(plugin.report_usage(), 4);
}

fn failing_run(plugin: &TransportPlugin) -> SendRun {
    plugin.send(&lines(&["aaa"])).unwrap()
}

#[test]
fn requests_are_made_again_after_a_growing_time() {
    let retry = RetryConfig { max_retries: 4, initial_backoff_ms: 100, max_backoff_ms: 350 };
    let mut plugin = TransportPlugin::new();
    plugin.init(config("http://x", 0, Some(retry))).unwrap();
    let mut run = failing_run(&plugin);
    for ms in [100u64, 200, 350, 350] {
        assert_eq!(plugin.on_posted(&mut run, false), SendStep::SleepThenPost(ms * 1_000_000));
    }
    assert_eq!(plugin.on_posted(&mut run, false), SendStep::GiveUp);
    assert_eq!(plugin.report_usage(), 0);
}

#[test]
fn without_a_retry_configuration_nothing_is_tried_again() {
    let mut plugin = TransportPlugin::new();
    plugin.init(config("http://x", 0, None)).unwrap();
    let mut run = failing_run(&plugin);
    assert_eq!(run.limits.max_retries, 0);
    assert_eq!(run.limits.initial_backoff_ms, 100);
    assert_eq!(run.limits.max_backoff_ms, 5000);
    assert_eq!(plugin.on_posted(&mut run, false), SendStep::GiveUp);
}

#[test]
fn retries_begin_anew_with_each_body() {
    let retry = RetryConfig { max_retries: 1, initial_backoff_ms: 10, max_backoff_ms: 1000 };
    let mut plugin = TransportPlugin::new();
    plugin.init(config("http://x", 4, Some(retry))).unwrap();
    let mut run = plugin.send(&lines(&["aaa", "bbb"])).unwrap();
    assert_eq!(plugin.on_posted(&mut run, false), SendStep::SleepThenPost(10_000_000));
    assert_eq!(plugin.on_posted(&mut run, true), SendStep::Post);
    assert_eq!(plugin.on_posted(&mut run, false), SendStep::SleepThenPost(10_000_000));
    assert_eq!(plugin.on_posted(&mut run, true), SendStep::Done);
    assert_eq!(plugin.report_usage(), 8);
    assert!(!plugin.can_count(&run));
}

#[test]
fn a_request_is_planned_from_the_configuration() {
    let mut c = config("https://h:9/p", 0, None);
    c.connect_timeout_ms = 5_000;
    c.extra_headers.push(("a".to_string(), "b".to_string()));
    let plan = plan_request(&c, 17).unwrap();
    assert_eq!(plan.scheme, Scheme::Https);
    assert_eq!(plan.authority, "h:9");
    assert_eq!(plan.path, "/p");
    assert_eq!(plan.headers[1].1, "17");
    assert_eq!(plan.headers[2], ("a".to_string(), "b".to_string()));
    assert_eq!(plan.connect_timeout, Some(5_000_000_000));
    assert_eq!(plan.request_timeout, None);
    c.endpoint = "x".to_string();
    assert_eq!(config_error(plan_request(&c, 1)), "unsupported scheme in endpoint: x");
}

#[test]
fn only_two_hundreds_are_success() {
    for status in [200, 204, 299] {
        assert!(check_status(status).is_ok());
    }
    for status in [0, 199, 300, 404, 500, 65535] {
        match check_status(status) {
            Err(PluginError::ProcessingFailed(t)) => {
                assert_eq!(t, format!("server returned HTTP {}", status))
            }
            _ => panic!("a failure was expected"),
        }
    }
}

#[test]
fn worker_and_trial_configurations() {
    let w = worker_config("http://w".to_string());
    assert_eq!(w.endpoint, "http://w");
    assert_eq!((w.connect_timeout_ms, w.request_timeout_ms), (5_000, 30_000));
    assert_eq!(w.max_batch_bytes, 4096);
    assert!(w.retry.is_none() && w.extra_headers.is_empty());
    let t = trial_config("http://t".to_string());
    assert_eq!((t.connect_timeout_ms, t.request_timeout_ms), (5_000, 10_000));
    assert_eq!(t.max_batch_bytes, 0);
}

#[test]
fn trial_results_are_told() {
    assert_eq!(check_result("init", &CallOutcome::Succeeded), Ok("[host] init() -> Ok".to_string()));
    assert_eq!(
        check_result("send", &CallOutcome::Failed(Some("x".to_string()))),
        Err("[host] send() failed: x".to_string())
    );
    assert_eq!(
        check_result("send", &CallOutcome::Failed(None)),
        Err("[host] send() failed: (no error detail)".to_string())
    );
    assert_eq!(
        check_result("send", &CallOutcome::Unexpected("U64(1)".to_string())),
        Err("[host] send() unexpected result type: U64(1)".to_string())
    );
}

#[test]
fn json_lines_become_entries() {
    let entries = do_parse(&raw(&[
        "{\"ts\":\"T1\",\"level\":\"WARN\",\"msg\":\"hi\",\"host\":\"db\",\"n\":1.5,\"ok\":true,\
         \"att\":{\"a\":\"x\",\"b\":[1, 2],\"c\":null}}",
    ]))
    .unwrap();
    assert_eq!(entries.len(), 1);
    let e = &entries[0];
    assert_eq!(e.timestamp, "T1");
    assert_eq!(e.level, LogLevel::Warn);
    assert_eq!(e.message, "hi");
    assert_eq!(e.targettag, "A");
    let tags: Vec<(&str, &str)> = e.tags.iter().map(|t| (t.0.as_str(), t.1.as_str())).collect();
    assert_eq!(
        tags,
        vec![
            ("lang", "Rust"),
            ("host", "db"),
            ("n", "1.5"),
            ("ok", "true"),
            ("a", "x"),
            ("b", "[1,2]"),
            ("c", "null"),
        ]
    );
}

#[test]
fn fields_that_are_missing_or_no_text_are_empty() {
    let entries = do_parse(&raw(&["{\"ts\":5,\"msg\":[],\"level\":null}", "{}", "[1]", "\"x\""])).unwrap();
    for e in &entries {
        assert_eq!(e.timestamp, "");
        assert_eq!(e.message, "");
        assert_eq!(e.level, LogLevel::Info);
        assert_eq!(e.tags, vec![("lang".to_string(), "Rust".to_string())]);
    }
    assert_eq!(entries.len(), 4);
}

#[test]
fn levels_may_be_numbers() {
    let cases = [
        ("0", LogLevel::Debug),
        ("6", LogLevel::Emerg),
        ("7", LogLevel::Info),
        ("-1", LogLevel::Info),
        ("2.5", LogLevel::Info),
        ("3", LogLevel::Error),
    ];
    for (n, level) in cases {
        let e = do_parse(&vec![format!("{{\"level\":{}}}", n)]).unwrap();
        assert_eq!(e[0].level, level, "{}", n);
    }
}

#[test]
fn an_att_that_is_no_object_is_passed_over() {
    let e = do_parse(&raw(&["{\"att\":\"text\",\"z\":{\"k\":1}}"])).unwrap();
    let tags: Vec<(&str, &str)> = e[0].tags.iter().map(|t| (t.0.as_str(), t.1.as_str())).collect();
    assert_eq!(tags, vec![("lang", "Rust"), ("z", "{\"k\":1}")]);
}

#[test]
fn one_line_that_is_no_json_refuses_all() {
    match do_parse(&raw(&["{}", "not json", "{}"])) {
        Err(ParseError::InvalidFormat(t)) => assert_eq!(t, "JSON Parse Error"),
        _ => panic!("the lines should be refused"),
    }
    assert!(do_parse(&Vec::new()).unwrap().is_empty());
}

#[test]
fn level_names_have_no_case() {
    assert_eq!(map_level_str("debug"), LogLevel::Debug);
    assert_eq!(map_level_str("DeBuG"), LogLevel::Debug);
    assert_eq!(map_level_str("INFO"), LogLevel::Info);
    assert_eq!(map_level_str("Warn"), LogLevel::Warn);
    assert_eq!(map_level_str("ERROR"), LogLevel::Error);
    assert_eq!(map_level_str("crit"), LogLevel::Info);
    assert_eq!(map_level_str("warning"), LogLevel::Info);
    assert_eq!(map_level_str(""), LogLevel::Info);
}

#[test]
fn level_numbers() {
    let all = [
        LogLevel::Debug,
        LogLevel::Info,
        LogLevel::Warn,
        LogLevel::Error,
        LogLevel::Crit,
        LogLevel::Alert,
        LogLevel::Emerg,
    ];
    for (n, l) in all.iter().enumerate() {
        assert_eq!(map_level_num(n as u64), *l);
        assert_eq!(route_tag(*l), "A");
    }
    assert_eq!(map_level_num(7), LogLevel::Info);
    assert_eq!(map_level_num(u64::MAX), LogLevel::Info);
}

#[test]
fn entries_are_made_of_documents() {
    let doc = JsonDocument {
        fields: vec![
            JsonField {
                key: "level".to_string(),
                value: JsonValue::Number(None),
                rendered: "1.5".to_string(),
            },
            JsonField {
                key: "msg".to_string(),
                value: JsonValue::Text("m".to_string()),
                rendered: "\"m\"".to_string(),
            },
            JsonField {
                key: "att".to_string(),
                value: JsonValue::Object(vec![JsonLeaf {
                    key: "k".to_string(),
                    text: None,
                    rendered: "7".to_string(),
                }]),
                rendered: "{\"k\":7}".to_string(),
            },
        ],
    };
    let e = entry_from(&doc);
    assert_eq!(e.level, LogLevel::Info);
    assert_eq!(e.message, "m");
    assert_eq!(
        collect_all_tags(&doc),
        vec![
            ("lang".to_string(), "Rust".to_string()),
            ("k".to_string(), "7".to_string()),
        ]
    );
    assert_eq!(value_to_string(&Some("t".to_string()), &"\"t\"".to_string()), "t");
    assert_eq!(value_to_string(&None, &"1".to_string()), "1");
}

#[test]
fn faults_need_both_words() {
    assert!(has_trigger(b"{\"inject\":\"cpu\"}", b"cpu"));
    assert!(!has_trigger(b"{\"injec\":\"cpu\"}", b"cpu"));
    assert!(!has_trigger(b"{\"inject\":\"io\"}", b"cpu"));
    assert!(!has_trigger(b"", b"cpu"));
    assert!(has_trigger(b"inject", b"inject"));
    assert!(!has_trigger(b"inject", b"inject!"));
}

#[test]
fn hanging_filters_hang_on_request_only() {
    let cases = [
        (HangScenario::Cpu, "cpu"),
        (HangScenario::Io, "io"),
        (HangScenario::Loop, "loop"),
    ];
    for (scenario, word) in cases {
        let record = format!("{{\"inject\":\"{}\"}}", word);
        assert_eq!(scenario.filter_func(record.as_bytes()), Reaction::Hang);
        assert_eq!(scenario.filter_func(word.as_bytes()), Reaction::Pass);
        assert_eq!(scenario.filter_func(b"{\"inject\":\"mem\"}"), Reaction::Pass);
        assert_eq!(scenario.filter_func(b""), Reaction::Pass);
    }
}

#[test]
fn leaking_filter_grows_every_thirty_second_record() {
    let mut f = LeakFilter::new();
    for _ in 0..100 {
        assert!(!f.filter_func(b"plain"));
    }
    assert!(f.filter_func(b"inject mem"));
    assert!(!f.filter_func(b""));
    let mut growths = 1;
    for _ in 1..65 {
        if f.filter_func(b"plain") {
            growths += 1;
        }
    }
    assert_eq!(growths, 3);
    assert!(f.active);
    assert_eq!(f.calls, 65);
}

#[test]
fn usage_is_the_time_of_the_last_call() {
    let mut m = UsageMeter::new();
    assert_eq!(m.report_usage(), 0);
    m.record(100, 175);
    assert_eq!(m.report_usage(), 75);
    m.record(175, 100);
    assert_eq!(m.report_usage(), 0);
}

#[test]
fn a_body_is_written_in_pieces() {
    assert_eq!(MAX_WRITE, 4096);
    assert_eq!(write_pieces(0), vec![]);
    assert_eq!(write_pieces(1), vec![(0, 1)]);
    assert_eq!(write_pieces(4096), vec![(0, 4096)]);
    assert_eq!(write_pieces(4097), vec![(0, 4096), (4096, 4097)]);
    assert_eq!(write_pieces(10_000), vec![(0, 4096), (4096, 8192), (8192, 10_000)]);
}

#[test]
fn the_pieces_of_a_body_make_it_up() {
    let body: Vec<u8> = (0..9_001u32).map(|i| (i % 251) as u8).collect();
    let mut written = Vec::new();
    for (start, end) in write_pieces(body.len()) {
        assert!(start < end && end - start <= MAX_WRITE);
        written.extend_from_slice(&body[start..end]);
    }
    assert_eq!(written, body);
}

#[test]
fn base64_splits_behind_whole_triples() {
    let (a, b) = (b"abcdef".as_slice(), b"gh".as_slice());
    let whole: Vec<u8> = [a, b].concat();
    assert_eq!(base64_encode(&whole), "YWJjZGVmZ2g=");
    assert_eq!(base64_encode(&whole), base64_encode(a) + &base64_encode(b));
}

#[test]
fn a_body_of_two_lines_keeps_the_limit() {
    let lines: Vec<Vec<u8>> = ["aaaaaaaaaaaa", "b", "cc", "dddd", "e"]
        .iter()
        .map(|l| l.as_bytes().to_vec())
        .collect();
    let bodies = pack_bodies(&lines, 6);
    assert_eq!(
        bodies,
        vec![b"aaaaaaaaaaaa\n".to_vec(), b"b\ncc\n".to_vec(), b"dddd\n".to_vec(), b"e\n".to_vec()]
    );
    for body in bodies {
        let held = body.iter().filter(|b| **b == b'\n').count();
        assert!(held < 2 || body.len() <= 6);
    }
}

#[test]
fn lines_that_can_be_counted_are_told() {
    let plugin = TransportPlugin::new();
    assert!(plugin.can_send(&vec![]));
    assert!(plugin.can_send(&vec![b"abc".to_vec(), Vec::new()]));
}

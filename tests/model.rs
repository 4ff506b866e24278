use loki_logger::decimal::{parse_decimal, to_decimal};
use loki_logger::text::str_less;
use loki_logger::{
    build_labels, builder, init_labels, BuildError, KvCollector, LabelSet, Level, LevelFilter,
    LokiLogEvent, LokiLoggerBuilder, PushRequest, Timestamp,
};

fn labels_of(pairs: &[(&str, &str)]) -> LabelSet {
    let mut set = LabelSet::new();
    for (k, v) in pairs {
        set.insert(k.to_string(), v.to_string());
    }
    set
}

#[test]
fn decimal_text_of_integers() {
    assert_eq!(to_decimal(0), "0");
    assert_eq!(to_decimal(7), "7");
    assert_eq!(to_decimal(10), "10");
    assert_eq!(to_decimal(1_700_000_000_123_456_789), "1700000000123456789");
    assert_eq!(to_decimal(u64::MAX), "18446744073709551615");
}

#[test]
fn decimal_text_read_back() {
    assert_eq!(parse_decimal("0"), Some(0));
    assert_eq!(parse_decimal("0042"), Some(42));
    assert_eq!(parse_decimal("18446744073709551615"), Some(u64::MAX));
    assert_eq!(parse_decimal("18446744073709551616"), None);
    assert_eq!(parse_decimal(""), None);
    assert_eq!(parse_decimal("12a"), None);
    assert_eq!(parse_decimal("-1"), None);
}

#[test]
fn string_order_is_lexicographic() {
    assert!(str_less("a", "b"));
    assert!(str_less("ab", "b"));
    assert!(str_less("a", "ab"));
    assert!(!str_less("b", "ab"));
    assert!(!str_less("abc", "abc"));
    assert!(str_less("", "a"));
}

#[test]
fn label_set_overwrites_and_sorts() {
    let set = labels_of(&[("zone", "eu"), ("app", "web"), ("zone", "us")]);
    assert_eq!(set.len(), 2);
    assert_eq!(set.get("zone").map(|s| s.as_str()), Some("us"));
    assert_eq!(set.get("missing"), None);
    assert_eq!(build_labels(&set), "{app=\"web\",zone=\"us\"}");
    assert_eq!(build_labels(&LabelSet::new()), "{}");
    let copy = set.duplicate();
    assert_eq!(build_labels(&copy), "{app=\"web\",zone=\"us\"}");
}

#[test]
fn labels_rendered_per_severity() {
    let ll = init_labels(&labels_of(&[("service", "api"), ("level", "static")]));
    assert_eq!(ll.get(Level::Warn), "{level=\"warn\",service=\"api\"}");
    assert_eq!(ll.get(Level::Error), "{level=\"error\",service=\"api\"}");
    assert_eq!(ll.get(Level::Trace), "{level=\"trace\",service=\"api\"}");
    assert_eq!(init_labels(&LabelSet::new()).get(Level::Info), "{level=\"info\"}");
}

#[test]
fn timestamp_split() {
    let t = Timestamp::from_unix_nanos(1_500_000_000_123);
    assert_eq!(t, Timestamp { seconds: 1500, nanos: 123 });
    let m = Timestamp::from_unix_nanos(u64::MAX);
    assert_eq!(m.seconds, 18_446_744_073);
    assert_eq!(m.nanos, 709_551_615);
}

#[test]
fn push_request_from_event() {
    let ll = init_labels(&labels_of(&[("service", "api")]));
    let e = LokiLogEvent::new(Level::Info, 2_000_000_005, labels_of(&[("port", "8080")]), "server started".to_string());
    let p = PushRequest::from_event(e, &ll);
    assert_eq!(p.streams.len(), 1);
    assert_eq!(p.streams[0].labels, "{level=\"info\",service=\"api\"}");
    assert_eq!(p.streams[0].hash, 0);
    let entry = &p.streams[0].entries[0];
    assert_eq!(entry.timestamp, Some(Timestamp { seconds: 2, nanos: 5 }));
    assert_eq!(entry.line, "server started");
    assert_eq!(entry.structured_metadata.len(), 1);
    assert_eq!(entry.structured_metadata[0].name, "port");
    assert_eq!(entry.structured_metadata[0].value, "8080");
}

#[test]
fn level_names() {
    assert_eq!(Level::Info.as_str(), "info");
    assert_eq!(Level::Error.as_str(), "error");
    assert_eq!(Level::from_name("debug"), Some(Level::Debug));
    assert_eq!(Level::from_name("warn"), Some(Level::Warn));
    assert_eq!(Level::from_name("INFO"), None);
}

#[test]
fn kv_collector_later_value_wins() {
    let mut c = KvCollector::with_capacity(2);
    c.visit_pair("k".to_string(), "1".to_string());
    c.visit_pair("k".to_string(), "2".to_string());
    assert_eq!(c.0.len(), 1);
    assert_eq!(c.0.get("k").map(|s| s.as_str()), Some("2"));
}

#[test]
fn builder_keeps_last_label_value() {
    let b = LokiLoggerBuilder::from_env("LOKI_LOGGER_TEST_UNSET_VARIABLE")
        .filter_level(LevelFilter::Info)
        .filter_module("noisy", LevelFilter::Off)
        .label("service", "a")
        .label("service", "b");
    let cfg = match b.build("http://localhost:3100/loki/api/v1/push") {
        Ok(c) => c,
        Err(_) => panic!("valid URL refused"),
    };
    assert_eq!(build_labels(&cfg.labels), "{service=\"b\"}");
    assert_eq!(cfg.url.as_str(), "http://localhost:3100/loki/api/v1/push");
}

#[test]
fn builder_rejects_bad_urls() {
    assert!(matches!(builder().build("not a url"), Err(BuildError::InvalidUrl)));
    assert!(matches!(builder().build("mailto:someone@example.com"), Err(BuildError::MissingHost)));
}

#[test]
fn filter_level_sets_threshold() {
    let cfg = match LokiLoggerBuilder::from_env("LOKI_LOGGER_TEST_UNSET_VARIABLE")
        .filter_level(LevelFilter::Info)
        .build("http://localhost:3100")
    {
        Ok(c) => c,
        Err(_) => panic!("valid URL refused"),
    };
    assert_eq!(cfg.max_level(), LevelFilter::Info);
}

#[test]
fn module_filter_raises_threshold() {
    let cfg = match LokiLoggerBuilder::from_env("LOKI_LOGGER_TEST_UNSET_VARIABLE")
        .filter_level(LevelFilter::Warn)
        .filter_module("chatty", LevelFilter::Debug)
        .filter_level(LevelFilter::Error)
        .build("http://localhost:3100")
    {
        Ok(c) => c,
        Err(_) => panic!("valid URL refused"),
    };
    assert_eq!(cfg.max_level(), LevelFilter::Debug);
}

#[test]
fn no_directives_default_to_error() {
    let cfg = match LokiLoggerBuilder::from_env("LOKI_LOGGER_TEST_UNSET_VARIABLE").build("https://example.com/push") {
        Ok(c) => c,
        Err(_) => panic!("valid URL refused"),
    };
    assert_eq!(cfg.max_level(), LevelFilter::Error);
}

use loki_logger::{
    build_labels, collect, delivery_outcome, Action, DeliveryOutcome, DispatchMessage, Dispatcher,
    JoinSlot, LabelSet, Level, LokiLogEvent, LokiRequest,
};

fn labels_of(pairs: &[(&str, &str)]) -> LabelSet {
    let mut set = LabelSet::new();
    for (k, v) in pairs {
        set.insert(k.to_string(), v.to_string());
    }
    set
}

fn pairs_of(set: &LabelSet) -> Vec<(String, String)> {
    (0..set.len())
        .map(|i| {
            let (k, v) = set.pair(i);
            (k.clone(), v.clone())
        })
        .collect()
}

fn event(level: Level, ts: u64, msg: &str, meta: &[(&str, &str)]) -> LokiLogEvent {
    LokiLogEvent::new(level, ts, labels_of(meta), msg.to_string())
}

fn delivered_line(action: Action) -> String {
    match action {
        Action::Deliver(req) => req.streams[0].values[0].line.clone(),
        Action::Stop => panic!("expected a delivery"),
    }
}

#[test]
fn info_event_with_static_service_label() {
    let static_labels = labels_of(&[("service", "api")]);
    let e = event(Level::Info, 1_700_000_000_000_000_000, "server started", &[("port", "8080")]);
    let mut d = Dispatcher::new(static_labels);
    let req = match d.handle(Some(DispatchMessage::Event(e))) {
        Action::Deliver(r) => r,
        Action::Stop => panic!("expected a delivery"),
    };
    assert_eq!(req.streams.len(), 1);
    let s = &req.streams[0];
    assert_eq!(
        pairs_of(&s.stream),
        vec![
            ("level".to_string(), "info".to_string()),
            ("service".to_string(), "api".to_string())
        ]
    );
    assert_eq!(build_labels(&s.stream), "{level=\"info\",service=\"api\"}");
    assert_eq!(s.values.len(), 1);
    assert_eq!(s.values[0].line, "server started");
    assert_eq!(s.values[0].timestamp, "1700000000000000000");
    assert_eq!(
        pairs_of(&s.values[0].structured_metadata),
        vec![("port".to_string(), "8080".to_string())]
    );
}

#[test]
fn single_producer_events_delivered_in_order_before_shutdown() {
    let mut d = Dispatcher::new(LabelSet::new());
    let mut lines = Vec::new();
    for i in 0..10u64 {
        let a = d.handle(Some(DispatchMessage::Event(event(Level::Debug, i, &format!("m{}", i), &[]))));
        lines.push(delivered_line(a));
    }
    assert!(matches!(d.handle(Some(DispatchMessage::Shutdown)), Action::Stop));
    assert!(!d.is_running());
    let late = d.handle(Some(DispatchMessage::Event(event(Level::Debug, 99, "late", &[]))));
    assert!(matches!(late, Action::Stop));
    let expected: Vec<String> = (0..10).map(|i| format!("m{}", i)).collect();
    assert_eq!(lines, expected);
}

#[test]
fn closed_channel_stops_dispatcher() {
    let mut d = Dispatcher::new(LabelSet::new());
    assert!(matches!(d.handle(None), Action::Stop));
    assert!(!d.is_running());
}

#[test]
fn shutdown_slot_grants_exactly_one_join() {
    let mut slot = JoinSlot::new(7u32);
    let results: Vec<Option<u32>> = (0..5).map(|_| slot.take()).collect();
    assert_eq!(results.iter().filter(|r| r.is_some()).count(), 1);
    assert_eq!(results[0], Some(7));
}

#[test]
fn four_producers_hundred_events_then_two_shutdowns() {
    // Four producers of 25 events each, interleaved as the channel may order them.
    let mut queue = Vec::new();
    for i in 0..25u64 {
        for p in 0..4u64 {
            queue.push(DispatchMessage::Event(event(Level::Warn, p * 1000 + i, &format!("p{}-{}", p, i), &[])));
        }
    }
    queue.push(DispatchMessage::Shutdown);
    let mut d = Dispatcher::new(labels_of(&[("service", "api")]));
    let mut delivered = Vec::new();
    for m in queue {
        match d.handle(Some(m)) {
            Action::Deliver(r) => delivered.push(r.streams[0].values[0].line.clone()),
            Action::Stop => break,
        }
    }
    assert_eq!(delivered.len(), 100);
    for p in 0..4u64 {
        let mine: Vec<&String> = delivered.iter().filter(|l| l.starts_with(&format!("p{}-", p))).collect();
        let expected: Vec<String> = (0..25).map(|i| format!("p{}-{}", p, i)).collect();
        assert_eq!(mine.iter().map(|s| s.to_string()).collect::<Vec<_>>(), expected);
    }
    let mut slot = JoinSlot::new("dispatcher");
    let first = slot.take();
    let second = slot.take();
    assert!(first.is_some());
    assert!(second.is_none());
}

#[test]
fn failing_endpoint_does_not_stall_dispatcher() {
    let mut d = Dispatcher::new(LabelSet::new());
    let mut failures = 0;
    for i in 0..3u64 {
        let a = d.handle(Some(DispatchMessage::Event(event(Level::Error, i, "boom", &[]))));
        assert!(matches!(a, Action::Deliver(_)));
        if delivery_outcome(Some(500)) == DeliveryOutcome::Failed {
            failures += 1;
        }
        assert!(d.is_running());
    }
    assert_eq!(failures, 3);
    assert!(matches!(d.handle(Some(DispatchMessage::Shutdown)), Action::Stop));
}

#[test]
fn delivery_outcomes_by_status() {
    assert_eq!(delivery_outcome(Some(200)), DeliveryOutcome::Delivered);
    assert_eq!(delivery_outcome(Some(204)), DeliveryOutcome::Delivered);
    assert_eq!(delivery_outcome(Some(299)), DeliveryOutcome::Delivered);
    assert_eq!(delivery_outcome(Some(199)), DeliveryOutcome::Failed);
    assert_eq!(delivery_outcome(Some(300)), DeliveryOutcome::Failed);
    assert_eq!(delivery_outcome(Some(404)), DeliveryOutcome::Failed);
    assert_eq!(delivery_outcome(Some(500)), DeliveryOutcome::Failed);
    assert_eq!(delivery_outcome(None), DeliveryOutcome::Failed);
}

#[test]
fn event_severity_overrides_static_level_label() {
    let static_labels = labels_of(&[("level", "debug"), ("app", "x")]);
    let req = LokiRequest::new(event(Level::Error, 5, "bad", &[]), &static_labels);
    assert_eq!(req.streams[0].stream.get("level").map(|s| s.as_str()), Some("error"));
    assert_eq!(build_labels(&req.streams[0].stream), "{app=\"x\",level=\"error\"}");
}

#[test]
fn request_round_trip() {
    let e = event(Level::Trace, 1_234_567_890_123_456_789, "hello", &[("k", "v"), ("a", "b")]);
    let req = LokiRequest::new(e, &labels_of(&[("service", "api")]));
    let back = req.decode().expect("decodes");
    assert_eq!(back.level, Level::Trace);
    assert_eq!(back.timestamp, 1_234_567_890_123_456_789);
    assert_eq!(back.content, "hello");
    assert_eq!(
        pairs_of(&back.structured_metadata),
        vec![("a".to_string(), "b".to_string()), ("k".to_string(), "v".to_string())]
    );
}

#[test]
fn decode_rejects_bad_requests() {
    let empty = LokiRequest { streams: Vec::new() };
    assert!(empty.decode().is_none());
    let mut req = LokiRequest::new(event(Level::Info, 1, "x", &[]), &LabelSet::new());
    req.streams[0].values[0].timestamp = "12a".to_string();
    assert!(req.decode().is_none());
    let mut req = LokiRequest::new(event(Level::Info, 1, "x", &[]), &LabelSet::new());
    req.streams[0].stream.insert("level".to_string(), "loud".to_string());
    assert!(req.decode().is_none());
}

#[test]
fn collect_keeps_later_value_of_repeated_key() {
    let pairs = vec![
        ("b".to_string(), "1".to_string()),
        ("a".to_string(), "2".to_string()),
        ("b".to_string(), "3".to_string()),
    ];
    let m = collect(&pairs);
    assert_eq!(pairs_of(&m), vec![("a".to_string(), "2".to_string()), ("b".to_string(), "3".to_string())]);
}

#[test]
fn closed_channel_after_events_delivers_all() {
    let mut d = Dispatcher::new(LabelSet::new());
    let mut lines = Vec::new();
    for i in 0..5u64 {
        let a = d.handle(Some(DispatchMessage::Event(event(Level::Info, i, &format!("e{}", i), &[]))));
        assert_eq!(delivery_outcome(Some(500)), DeliveryOutcome::Failed);
        lines.push(delivered_line(a));
    }
    assert!(matches!(d.handle(None), Action::Stop));
    let expected: Vec<String> = (0..5).map(|i| format!("e{}", i)).collect();
    assert_eq!(lines, expected);
}

use serde_file_value::{
    deserialize, Deserializer, ExpandError, NoOpObserver, ReadOutcome, ReadTable,
    RecordingObserver, Value, resolve_read,
};

fn text(s: &str) -> Value {
    Value::Text(s.to_string())
}

#[test]
fn smoke() {
    let mut reads = ReadTable::new();
    reads.add("/tmp/t".to_string(), ReadOutcome::Data(b"hunter2".to_vec()));

    let doc = Value::Record(vec![(
        text("sub"),
        Value::Record(vec![
            (text("file"), Value::List(vec![text("${file:/tmp/t}")])),
            (text("inline"), text("${foobar}")),
        ]),
    )]);

    let mut observer = RecordingObserver::new();
    let decoded = deserialize(&doc, &reads, &mut observer).unwrap();

    let expected = Value::Record(vec![(
        text("sub"),
        Value::Record(vec![
            (text("file"), Value::List(vec![text("hunter2")])),
            (text("inline"), text("${foobar}")),
        ]),
    )]);
    assert_eq!(decoded, expected);

    let events = observer.events();
    assert_eq!(events.len(), 1);
    assert_eq!(events[0].0, "/tmp/t");
    assert_eq!(events[0].1, ReadOutcome::Data(b"hunter2".to_vec()));
}

#[test]
fn io_error() {
    let doc = text("${file:bogus}");
    let reads = ReadTable::new();

    let mut observer = RecordingObserver::new();
    let err = deserialize(&doc, &reads, &mut observer).unwrap_err();
    assert_eq!(err.path().as_str(), "bogus");
    match &err {
        ExpandError::Read { path, .. } => assert_eq!(path, "bogus"),
        other => panic!("expected a read error, got {:?}", other),
    }

    let events = observer.events();
    assert_eq!(events.len(), 1);
    assert_eq!(events[0].0, "bogus");
    assert!(matches!(events[0].1, ReadOutcome::Failure(_)));
}

#[test]
fn expansion_success_top_level() {
    let mut reads = ReadTable::new();
    reads.add("/tmp/t".to_string(), ReadOutcome::Data(b"hunter2".to_vec()));
    let mut observer = RecordingObserver::new();

    let decoded = deserialize(&text("${file:/tmp/t}"), &reads, &mut observer).unwrap();
    assert_eq!(decoded, text("hunter2"));
    assert_eq!(observer.events().len(), 1);
}

#[test]
fn failure_reports_before_error() {
    let mut reads = ReadTable::new();
    reads.add(
        "/etc/secret".to_string(),
        ReadOutcome::Failure("permission denied".to_string()),
    );
    let mut observer = RecordingObserver::new();

    let err = deserialize(&text("${file:/etc/secret}"), &reads, &mut observer).unwrap_err();
    assert_eq!(
        err,
        ExpandError::Read {
            path: "/etc/secret".to_string(),
            message: "permission denied".to_string(),
        }
    );
    assert_eq!(err.describe(), "error reading file /etc/secret: permission denied");

    let events = observer.events();
    assert_eq!(events.len(), 1);
    assert_eq!(events[0].0, "/etc/secret");
    assert_eq!(
        events[0].1,
        ReadOutcome::Failure("permission denied".to_string())
    );
}

#[test]
fn invalid_utf8_fails_after_success_notification() {
    let mut reads = ReadTable::new();
    reads.add("/tmp/bin".to_string(), ReadOutcome::Data(vec![0xff, 0xfe]));
    let mut observer = RecordingObserver::new();

    let err = deserialize(&text("${file:/tmp/bin}"), &reads, &mut observer).unwrap_err();
    match &err {
        ExpandError::Parse { path, .. } => assert_eq!(path, "/tmp/bin"),
        other => panic!("expected a parse error, got {:?}", other),
    }
    assert!(err.describe().starts_with("error parsing file /tmp/bin: "));

    // The read itself succeeded, so the observer hears of a success.
    let events = observer.events();
    assert_eq!(events.len(), 1);
    assert_eq!(events[0].1, ReadOutcome::Data(vec![0xff, 0xfe]));
}

#[test]
fn pass_through_without_references() {
    let doc = Value::Record(vec![
        (text("a"), Value::Bool(true)),
        (text("b"), Value::Int(-7)),
        (text("c"), Value::Bytes(vec![1, 2, 3])),
        (text("d"), Value::Unit),
        (text("e"), Value::Missing),
        (text("f"), Value::Present(Box::new(text("${foobar}")))),
        (text("g"), Value::Tagged(2, Box::new(text("prefix ${file:/x} suffix")))),
        (text("h"), Value::List(vec![text("${file:/x")])),
    ]);
    let reads = ReadTable::new();
    let mut observer = RecordingObserver::new();

    let decoded = deserialize(&doc, &reads, &mut observer).unwrap();
    assert_eq!(decoded, doc);
    assert!(observer.events().is_empty());
}

#[test]
fn idempotent_without_references() {
    let doc = Value::List(vec![text("${foobar}"), Value::Int(3)]);
    let reads = ReadTable::new();

    let mut first = RecordingObserver::new();
    let once = deserialize(&doc, &reads, &mut first).unwrap();
    let mut second = RecordingObserver::new();
    let twice = deserialize(&once, &reads, &mut second).unwrap();

    assert_eq!(once, doc);
    assert_eq!(twice, once);
    assert!(first.events().is_empty());
    assert!(second.events().is_empty());
}

#[test]
fn nested_reference_expands_like_top_level() {
    let mut reads = ReadTable::new();
    reads.add("/tmp/t".to_string(), ReadOutcome::Data(b"hunter2".to_vec()));

    let doc = Value::Present(Box::new(Value::List(vec![Value::Record(vec![(
        text("k"),
        Value::Tagged(3, Box::new(text("${file:/tmp/t}"))),
    )])])));
    let mut observer = RecordingObserver::new();

    let decoded = deserialize(&doc, &reads, &mut observer).unwrap();
    let expected = Value::Present(Box::new(Value::List(vec![Value::Record(vec![(
        text("k"),
        Value::Tagged(3, Box::new(text("hunter2"))),
    )])])));
    assert_eq!(decoded, expected);

    let events = observer.events();
    assert_eq!(events.len(), 1);
    assert_eq!(events[0].0, "/tmp/t");
}

#[test]
fn map_keys_are_expanded_too() {
    let mut reads = ReadTable::new();
    reads.add("/tmp/k".to_string(), ReadOutcome::Data(b"key".to_vec()));

    let doc = Value::Record(vec![(text("${file:/tmp/k}"), Value::Int(1))]);
    let mut observer = RecordingObserver::new();
    let decoded = deserialize(&doc, &reads, &mut observer).unwrap();
    assert_eq!(decoded, Value::Record(vec![(text("key"), Value::Int(1))]));
    assert_eq!(observer.events().len(), 1);
}

#[test]
fn first_failure_aborts_and_keeps_prior_events() {
    let mut reads = ReadTable::new();
    reads.add("/a".to_string(), ReadOutcome::Data(b"one".to_vec()));

    let doc = Value::List(vec![
        text("${file:/a}"),
        text("${file:/missing}"),
        text("${file:/a}"),
    ]);
    let mut observer = RecordingObserver::new();
    let err = deserialize(&doc, &reads, &mut observer).unwrap_err();
    match &err {
        ExpandError::Read { path, .. } => assert_eq!(path, "/missing"),
        other => panic!("expected a read error, got {:?}", other),
    }

    // The failing read was the second and last notification: the walk stops.
    let events = observer.events();
    assert_eq!(events.len(), 2);
    assert_eq!(events[0].0, "/a");
    assert_eq!(events[1].0, "/missing");
}

#[test]
fn same_path_is_read_each_time() {
    let mut reads = ReadTable::new();
    reads.add("/tmp/t".to_string(), ReadOutcome::Data(b"x".to_vec()));

    let doc = Value::List(vec![text("${file:/tmp/t}"), text("${file:/tmp/t}")]);
    let mut observer = RecordingObserver::new();
    let decoded = deserialize(&doc, &reads, &mut observer).unwrap();
    assert_eq!(decoded, Value::List(vec![text("x"), text("x")]));
    assert_eq!(observer.events().len(), 2);
}

#[test]
fn first_table_entry_answers() {
    let mut reads = ReadTable::new();
    reads.add("/p".to_string(), ReadOutcome::Data(b"first".to_vec()));
    reads.add("/p".to_string(), ReadOutcome::Data(b"second".to_vec()));

    let mut observer = NoOpObserver::new();
    let decoded = deserialize(&text("${file:/p}"), &reads, &mut observer).unwrap();
    assert_eq!(decoded, text("first"));
}

#[test]
fn deserializer_wraps_a_snapshot() {
    let mut reads = ReadTable::new();
    reads.add("/tmp/t".to_string(), ReadOutcome::Data(b"hunter2".to_vec()));
    let de = Deserializer::new(reads);

    let mut observer = RecordingObserver::new();
    let decoded = de.deserialize(&text("${file:/tmp/t}"), &mut observer).unwrap();
    assert_eq!(decoded, text("hunter2"));
    assert_eq!(observer.events().len(), 1);
}

#[test]
fn resolve_read_interprets_bytes() {
    assert_eq!(
        resolve_read("/p", ReadOutcome::Data(b"hi".to_vec())),
        Ok("hi".to_string())
    );
    assert_eq!(
        resolve_read("/p", ReadOutcome::Failure("gone".to_string())),
        Err(ExpandError::Read { path: "/p".to_string(), message: "gone".to_string() })
    );
    assert!(matches!(
        resolve_read("/p", ReadOutcome::Data(vec![0x80])),
        Err(ExpandError::Parse { .. })
    ));
}

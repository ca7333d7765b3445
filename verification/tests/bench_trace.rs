use smoltalk::bench_trace::{event, event_with_extra, sink_for, Moment, TraceSink};

fn moment() -> Moment {
    Moment {
        monotonic_ns: 7,
        wall_time_unix_ms: 8,
        pid: 9,
        thread_id: "ThreadId(1)".to_string(),
    }
}

#[test]
fn disabled_when_env_var_is_unset() {
    let sink = sink_for(false, Some("run".to_string()), None, None);

    assert!(!sink.is_enabled());
    assert!(event(&sink, "unit_event", moment()).is_none());
}

#[test]
fn a_disabled_sink_never_asks_for_more() {
    let sink = TraceSink::disabled();

    let row = event_with_extra(&sink, "unit_event", moment(), || -> u32 {
        panic!("a disabled sink must not evaluate this")
    });

    assert!(row.is_none());
}

#[test]
fn an_event_records_its_moment_and_its_sink() {
    let sink = TraceSink::new(Some("run".to_string()), None, Some("phrase".to_string()));

    let row = event_with_extra(&sink, "unit_event", moment(), || 42).unwrap();

    assert_eq!(row.schema, "chezwizper-bench-event-v1");
    assert_eq!(row.event, "unit_event");
    assert_eq!(row.monotonic_ns, 7);
    assert_eq!(row.wall_time_unix_ms, 8);
    assert_eq!(row.pid, 9);
    assert_eq!(row.thread_id, "ThreadId(1)");
    assert_eq!(row.run_id, Some("run".to_string()));
    assert_eq!(row.trial_id, None);
    assert_eq!(row.phrase_id, Some("phrase".to_string()));
    assert_eq!(row.extra, Some(42));
    assert!(event(&sink, "plain", moment()).unwrap().extra.is_none());
}

use order_feed::{
    decode_line, report, Fatal, Input, LineOutcome, OrderRequest, Output, Phase, Processor,
    ReadStep, Reader, ReportError, Run, RunMetrics,
};

/// Records every request it receives and refuses those at chosen positions.
struct Recorder {
    seen: Vec<u64>,
    bodies: Vec<serde_json::Value>,
    refuse: Vec<u64>,
}

impl Recorder {
    fn new(refuse: Vec<u64>) -> Recorder {
        Recorder { seen: Vec::new(), bodies: Vec::new(), refuse }
    }
}

impl Processor for Recorder {
    fn process(&mut self, request: OrderRequest) -> Result<(), String> {
        self.seen.push(request.seq);
        self.bodies.push(request.body);
        if self.refuse.contains(&request.seq) {
            Err(format!("refused {}", request.seq))
        } else {
            Ok(())
        }
    }
}

/// Drives a whole run over in-memory lines, the way the program does over a
/// stream: read everything, then drain the queue in order.
fn drive(lines: &[&str], processor: &mut Recorder, output: &Output) -> (Reader, Run, Result<RunMetrics, Fatal>) {
    let mut reader = Reader::new();
    let mut queue: Vec<OrderRequest> = Vec::new();
    let mut reads: Vec<&str> = lines.to_vec();
    reads.push("");
    for line in reads {
        match reader.on_line(line) {
            ReadStep::Forward(request) => queue.push(request),
            ReadStep::Skip => {}
            ReadStep::Stop => break,
        }
    }
    let mut run = Run::new();
    run.ingestion_ended(Ok(()));
    for request in queue {
        let _ = run.dispatch(processor, request);
    }
    let result = run.finish(output, 5);
    (reader, run, result)
}

#[test]
fn malformed_middle_line_is_skipped() {
    let mut p = Recorder::new(vec![]);
    let lines = ["{\"id\":1}\n", "not-json\n", "{\"id\":2}\n"];
    let (reader, run, result) = drive(&lines, &mut p, &Output::Stdout);
    assert_eq!(p.seen, vec![0, 2]);
    assert_eq!(p.bodies[0]["id"], serde_json::Value::from(1));
    assert_eq!(p.bodies[1]["id"], serde_json::Value::from(2));
    assert_eq!(reader.skipped(), 1);
    assert_eq!(reader.forwarded(), 2);
    assert_eq!(reader.lines_read(), 3);
    assert_eq!(result, Ok(RunMetrics { processed: 2, failed: 0, elapsed_millis: 5 }));
    assert_eq!(run.phase(), Phase::Completed);
}

#[test]
fn file_output_is_unimplemented() {
    let out = Output::from_str("somefile.json");
    assert!(matches!(&out, Output::File(p) if p == "somefile.json"));
    assert_eq!(report(&out), Err(ReportError::Unimplemented));
    let mut p = Recorder::new(vec![]);
    let (_, run, result) = drive(&["{\"id\":1}\n"], &mut p, &out);
    assert_eq!(result, Err(Fatal::OutputUnimplemented));
    assert_eq!(run.phase(), Phase::Failed(Fatal::OutputUnimplemented));
    assert_eq!(p.seen, vec![0]);
}

#[test]
fn stdout_report_succeeds() {
    assert_eq!(report(&Output::Stdout), Ok(()));
    assert!(matches!(Output::default(), Output::Stdout));
}

#[test]
fn empty_input_processes_nothing() {
    let mut p = Recorder::new(vec![]);
    let (reader, run, result) = drive(&[], &mut p, &Output::Stdout);
    assert!(p.seen.is_empty());
    assert!(reader.finished());
    assert_eq!(reader.lines_read(), 0);
    assert_eq!(result, Ok(RunMetrics { processed: 0, failed: 0, elapsed_millis: 5 }));
    assert_eq!(run.phase(), Phase::Completed);
}

#[test]
fn unavailable_source_fails_the_run() {
    let mut run = Run::new();
    assert_eq!(run.phase(), Phase::Ingesting);
    run.ingestion_ended(Err(Fatal::SourceUnavailable));
    assert_eq!(run.phase(), Phase::Failed(Fatal::SourceUnavailable));
    assert_eq!(run.finish(&Output::Stdout, 0), Err(Fatal::SourceUnavailable));
    assert_eq!(run.metrics(0).processed, 0);
}

#[test]
fn closed_queue_and_crashed_reader_fail_the_run() {
    let mut run = Run::new();
    run.ingestion_ended(Err(Fatal::QueueClosed));
    assert_eq!(run.finish(&Output::Stdout, 0), Err(Fatal::QueueClosed));
    let mut run = Run::new();
    run.ingestion_ended(Err(Fatal::ReaderCrashed));
    assert_eq!(run.finish(&Output::Stdout, 0), Err(Fatal::ReaderCrashed));
}

#[test]
fn processor_failure_does_not_stop_dispatch() {
    let mut p = Recorder::new(vec![1]);
    let lines = ["{\"id\":1}\n", "{\"id\":2}\n", "{\"id\":3}\n"];
    let (_, _, result) = drive(&lines, &mut p, &Output::Stdout);
    assert_eq!(p.seen, vec![0, 1, 2]);
    assert_eq!(result, Ok(RunMetrics { processed: 2, failed: 1, elapsed_millis: 5 }));
}

#[test]
fn dispatch_returns_the_failure_reason() {
    let mut p = Recorder::new(vec![7]);
    let mut run = Run::new();
    run.ingestion_ended(Ok(()));
    let r = run.dispatch(&mut p, OrderRequest { seq: 7, body: serde_json::Value::Null });
    assert_eq!(r, Some("refused 7".to_string()));
    let r = run.dispatch(&mut p, OrderRequest { seq: 8, body: serde_json::Value::Null });
    assert_eq!(r, None);
    let m = run.metrics(3);
    assert_eq!(m, RunMetrics { processed: 1, failed: 1, elapsed_millis: 3 });
}

#[test]
fn requests_keep_input_order() {
    let mut p = Recorder::new(vec![]);
    let lines = [
        "{\"id\":5}\n",
        "{\"id\":3}\n",
        "oops\n",
        "[1,2]\n",
        "{\"id\":9}\n",
        "{\"id\":1\n",
        "{\"id\":4}\n",
    ];
    let (reader, _, result) = drive(&lines, &mut p, &Output::Stdout);
    assert_eq!(p.seen, vec![0, 1, 3, 4, 6]);
    assert_eq!(p.bodies[0]["id"], serde_json::Value::from(5));
    assert_eq!(p.bodies[4]["id"], serde_json::Value::from(4));
    assert_eq!(reader.skipped(), 2);
    assert_eq!(result.map(|m| m.processed), Ok(5));
}

#[test]
fn malformed_lines_first_and_last() {
    let mut p = Recorder::new(vec![]);
    let lines = ["garbage\n", "{\"id\":1}\n", "  \n", "{\"id\":2}\n", "}\n"];
    let (reader, _, result) = drive(&lines, &mut p, &Output::Stdout);
    assert_eq!(p.seen, vec![1, 3]);
    assert_eq!(reader.skipped(), 3);
    assert_eq!(result.map(|m| m.processed), Ok(2));
}

#[test]
fn decode_line_outcomes() {
    assert!(matches!(decode_line(""), LineOutcome::Exhausted));
    assert!(matches!(decode_line("\n"), LineOutcome::Malformed));
    assert!(matches!(decode_line("not-json\n"), LineOutcome::Malformed));
    assert!(matches!(decode_line("{\"id\":1"), LineOutcome::Malformed));
    match decode_line("{\"side\":\"buy\",\"qty\":10}\n") {
        LineOutcome::Decoded(v) => {
            assert_eq!(v["side"], serde_json::Value::from("buy"));
            assert_eq!(v["qty"], serde_json::Value::from(10));
        }
        _ => panic!("expected a decoded request"),
    }
    match decode_line("42") {
        LineOutcome::Decoded(v) => assert_eq!(v, serde_json::Value::from(42)),
        _ => panic!("expected a decoded request"),
    }
}

#[test]
fn reader_stops_for_good() {
    let mut reader = Reader::new();
    assert!(!reader.finished());
    assert!(matches!(reader.on_line(""), ReadStep::Stop));
    assert!(reader.finished());
    assert!(matches!(reader.on_line("{\"id\":1}\n"), ReadStep::Stop));
    assert_eq!(reader.lines_read(), 0);
    assert_eq!(reader.forwarded(), 0);
}

#[test]
fn read_failure_is_fatal() {
    let mut reader = Reader::new();
    match reader.on_line("{\"id\":1}\n") {
        ReadStep::Forward(r) => assert_eq!(r.seq, 0),
        _ => panic!("expected a forwarded request"),
    }
    assert_eq!(reader.outcome(), Ok(()));
    reader.on_read_failure();
    assert!(reader.finished());
    assert_eq!(reader.outcome(), Err(Fatal::SourceReadFailed));
    assert!(matches!(reader.on_line("{\"id\":2}\n"), ReadStep::Stop));
    assert_eq!(reader.forwarded(), 1);
    let mut run = Run::new();
    run.ingestion_ended(reader.outcome());
    assert_eq!(run.finish(&Output::Stdout, 0), Err(Fatal::SourceReadFailed));
}

#[test]
fn refused_forward_is_fatal() {
    let mut reader = Reader::new();
    assert!(matches!(reader.on_line("{\"id\":1}\n"), ReadStep::Forward(_)));
    reader.on_forward_refused();
    assert!(reader.finished());
    assert_eq!(reader.outcome(), Err(Fatal::QueueClosed));
}

#[test]
fn open_failure_is_fatal() {
    let mut reader = Reader::new();
    reader.on_open_failure();
    assert!(reader.finished());
    assert_eq!(reader.lines_read(), 0);
    assert_eq!(reader.outcome(), Err(Fatal::SourceUnavailable));
    // A later failure does not replace the first.
    reader.on_read_failure();
    assert_eq!(reader.outcome(), Err(Fatal::SourceUnavailable));
}

#[test]
fn normal_end_of_stream_is_not_a_failure() {
    let mut reader = Reader::new();
    assert!(matches!(reader.on_line(""), ReadStep::Stop));
    assert_eq!(reader.outcome(), Ok(()));
}

#[test]
fn record_counts_processor_results() {
    let mut run = Run::new();
    run.ingestion_ended(Ok(()));
    assert_eq!(run.record(0, Ok(())), None);
    assert_eq!(run.record(2, Err("no such order".to_string())), Some("no such order".to_string()));
    assert_eq!(run.record(3, Ok(())), None);
    assert_eq!(run.metrics(9), RunMetrics { processed: 2, failed: 1, elapsed_millis: 9 });
    assert_eq!(run.finish(&Output::Stdout, 9), Ok(RunMetrics { processed: 2, failed: 1, elapsed_millis: 9 }));
}

#[test]
fn input_selection() {
    assert!(matches!(Input::default(), Input::Stdin));
    let i = Input::from_str("orders.ndjson");
    assert!(matches!(&i, Input::File(p) if p == "orders.ndjson"));
}

use piper::error::{
    drain_internal_failures, node_failure_to_piper_error, panic_payload_to_string, InternalFailure,
    NodeFailure, PanicPayload, PiperError, RecvOutputError, SendInputError, TryRecvOutputError,
};
use piper::links::{
    duration_nanos_u64, external_output_failure, feeder_step, feeder_try, input_sent,
    node_output_failure, recv_poll, received_output, send_report, should_stop_on_shutdown_timeout,
    try_received_output, FeederAnswer, FeederStep, LinkRecvError, LinkStats, LinkTryRecvError,
    RecvPoll, SendReport, FEEDER_PAUSE,
};
use piper::outcome::{
    begin_merge, check_merge, cleanup_state, default_inline_cleanup, merge_failed, merge_states,
    merged_state, missing_merge, process_parts, returned_states, startup_timed_out,
    take_external_node,
};
use piper::snapshot::QueueTrend;
use piper::text::{
    concat3, decimal_text, join, less, parse_index, position, same, strip_prefix,
};

type Failure = PiperError<&'static str>;

fn internal(error: Failure) -> (String, String) {
    match error {
        PiperError::Internal { worker, message } => (worker, message),
        other => panic!("not an internal failure: {other:?}"),
    }
}

#[test]
fn errors_are_described() {
    let worker = || "w".to_string();
    let error = "bad";
    let said = |failure: Failure| failure.describe("bad");
    assert_eq!(said(PiperError::ZeroWorkers), "worker count must be greater than 0");
    assert_eq!(said(PiperError::NoNodes), "Piper requires at least one node");
    assert_eq!(
        said(PiperError::InvalidGraph { message: "odd".to_string() }),
        "Piper graph is invalid: odd"
    );
    assert_eq!(said(PiperError::InvalidThreadCount), "node thread count must be greater than 0");
    let source = std::io::Error::other("full");
    assert_eq!(
        said(PiperError::SpawnFailed { worker: worker(), source }),
        "failed to spawn worker thread `w`"
    );
    assert_eq!(
        said(PiperError::WorkerPanicked { worker: worker(), message: "m".to_string() }),
        "worker thread `w` panicked: m"
    );
    assert_eq!(
        said(PiperError::UserInit { worker: worker(), error }),
        "init closure failed in worker `w`: bad"
    );
    assert_eq!(
        said(PiperError::UserProcess { worker: worker(), error }),
        "process closure failed in worker `w`: bad"
    );
    assert_eq!(
        said(PiperError::UserCleanup { worker: worker(), error }),
        "cleanup closure failed in worker `w`: bad"
    );
    assert_eq!(
        said(PiperError::UserMerge { worker: worker(), error }),
        "merge closure failed in worker `w`: bad"
    );
    assert_eq!(
        said(PiperError::UserFinalize { worker: worker(), error }),
        "finalize closure failed in worker `w`: bad"
    );
    assert_eq!(
        said(PiperError::MissingStateMerge { node: "n".to_string() }),
        "node `n` does not provide a state merge function"
    );
    assert_eq!(
        said(PiperError::ExternalNode { node: "n".to_string(), error }),
        "external node `n` failed: bad"
    );
    assert_eq!(
        said(PiperError::Internal { worker: worker(), message: "m".to_string() }),
        "internal Piper failure in worker `w`: m"
    );
    assert_eq!(
        said(PiperError::Telemetry { message: "m".to_string() }),
        "Piper telemetry failure: m"
    );
    assert_eq!(SendInputError.describe(), "Piper input channel is closed");
    assert_eq!(RecvOutputError::Closed.describe(), "Piper output channel is closed");
    assert_eq!(RecvOutputError::Timeout.describe(), "Piper output channel timed out");
    assert_eq!(RecvOutputError::TypeMismatch.describe(), "Piper output type mismatch");
    assert_eq!(TryRecvOutputError::Empty.describe(), "Piper output channel is empty");
    assert_eq!(TryRecvOutputError::Closed.describe(), "Piper output channel is closed");
    assert_eq!(TryRecvOutputError::TypeMismatch.describe(), "Piper output type mismatch");
}

#[test]
fn node_failures_name_the_worker() {
    let error: Failure = node_failure_to_piper_error("w", NodeFailure::Merge("m"));
    assert!(matches!(error, PiperError::UserMerge { worker, error: "m" } if worker == "w"));
    let error: Failure = node_failure_to_piper_error("w", NodeFailure::Internal("i".to_string()));
    assert_eq!(internal(error), ("w".to_string(), "i".to_string()));
}

#[test]
fn the_last_internal_failure_is_stored() {
    let mut stored: Option<Failure> = None;
    assert!(!drain_internal_failures(vec![], &mut stored));
    assert!(stored.is_none());
    let failures = vec![
        InternalFailure::internal("first".to_string()),
        InternalFailure::telemetry("second".to_string()),
    ];
    assert!(drain_internal_failures(failures, &mut stored));
    assert!(matches!(stored, Some(PiperError::Telemetry { ref message }) if message == "second"));
    let external = vec![InternalFailure::external("n".to_string(), Some("bad"))];
    assert!(drain_internal_failures(external, &mut stored));
    assert!(matches!(stored, Some(PiperError::ExternalNode { ref node, error: "bad" }) if node == "n"));
    let foreign = vec![InternalFailure::external("n".to_string(), None)];
    assert!(drain_internal_failures(foreign, &mut stored));
    assert_eq!(
        internal(stored.unwrap()),
        (
            "piper-supervisor".to_string(),
            "external node `n` reported an invalid error type".to_string()
        )
    );
}

#[test]
fn panics_are_shown_as_text() {
    assert_eq!(panic_payload_to_string(PanicPayload::Owned("a".to_string())), "a");
    assert_eq!(panic_payload_to_string(PanicPayload::Static("b")), "b");
    assert_eq!(panic_payload_to_string(PanicPayload::Other), "<non-string panic payload>");
}

#[test]
fn what_a_link_gives_is_passed_on() {
    assert!(matches!(recv_poll(Ok(1)), RecvPoll::Item(1)));
    assert!(matches!(recv_poll::<u8>(Err(LinkRecvError::Timeout)), RecvPoll::Timeout));
    assert!(matches!(recv_poll::<u8>(Err(LinkRecvError::Closed)), RecvPoll::Disconnected));
    assert_eq!(received_output(Ok(Some(1))), Ok(1));
    assert_eq!(received_output::<u8>(Ok(None)), Err(RecvOutputError::TypeMismatch));
    assert_eq!(received_output::<u8>(Err(LinkRecvError::Timeout)), Err(RecvOutputError::Timeout));
    assert_eq!(received_output::<u8>(Err(LinkRecvError::Closed)), Err(RecvOutputError::Closed));
    assert_eq!(try_received_output(Ok(Some(1))), Ok(1));
    assert_eq!(try_received_output::<u8>(Ok(None)), Err(TryRecvOutputError::TypeMismatch));
    assert_eq!(
        try_received_output::<u8>(Err(LinkTryRecvError::Empty)),
        Err(TryRecvOutputError::Empty)
    );
    assert_eq!(
        try_received_output::<u8>(Err(LinkTryRecvError::Closed)),
        Err(TryRecvOutputError::Closed)
    );
}

#[test]
fn link_counters_wrap_around() {
    let mut stats = LinkStats::default();
    stats.note_arrival();
    stats.note_arrival();
    stats.note_drain();
    assert_eq!((stats.arrivals, stats.drains), (2, 1));
    stats.arrivals = u64::MAX;
    stats.note_arrival();
    assert_eq!(stats.arrivals, 0);
}

#[test]
fn a_failed_send_is_fatal_only_while_running() {
    assert_eq!(send_report(true, true, true), SendReport::Counted);
    assert_eq!(send_report(false, true, false), SendReport::Dropped);
    assert_eq!(send_report(false, false, true), SendReport::Dropped);
    assert_eq!(send_report(false, false, false), SendReport::Fatal);
    let failure: InternalFailure<()> = node_output_failure();
    assert!(matches!(
        failure,
        InternalFailure::Internal { message } if message == "node output channel closed unexpectedly"
    ));
    let failure: InternalFailure<()> = external_output_failure("n");
    assert!(matches!(
        failure,
        InternalFailure::Internal { message }
            if message == "external node `n` output channel closed unexpectedly"
    ));
    assert_eq!(input_sent(false, Some(true)), Ok(()));
    assert_eq!(input_sent(false, Some(false)), Err(SendInputError));
    assert_eq!(input_sent(true, None), Err(SendInputError));
}

#[test]
fn only_the_input_waits_to_be_emptied() {
    assert!(should_stop_on_shutdown_timeout(false, true, true));
    assert!(!should_stop_on_shutdown_timeout(false, true, false));
    assert!(!should_stop_on_shutdown_timeout(false, false, true));
    assert!(should_stop_on_shutdown_timeout(true, false, false));
}

#[test]
fn feeders_are_asked_until_the_deadline() {
    assert!(matches!(feeder_step(FeederAnswer::Item(3), 9, 5), FeederStep::Give(3)));
    let wait: FeederStep<u8> = feeder_step(FeederAnswer::Empty, 0, 10 * FEEDER_PAUSE);
    assert!(matches!(wait, FeederStep::Sleep(FEEDER_PAUSE)));
    let short: FeederStep<u8> = feeder_step(FeederAnswer::InShutdown, 4, 10);
    assert!(matches!(short, FeederStep::Sleep(6)));
    assert!(matches!(feeder_step::<u8>(FeederAnswer::Empty, 10, 10), FeederStep::GiveUp));
    assert!(matches!(feeder_step::<u8>(FeederAnswer::NoMoreWork, 0, 10), FeederStep::Closed));
    assert!(matches!(feeder_step::<u8>(FeederAnswer::Cancelled, 0, 10), FeederStep::Closed));
    assert_eq!(feeder_try(FeederAnswer::Item(3)), Ok(3));
    assert_eq!(feeder_try::<u8>(FeederAnswer::InShutdown), Err(LinkTryRecvError::Empty));
    assert_eq!(feeder_try::<u8>(FeederAnswer::Cancelled), Err(LinkTryRecvError::Closed));
    assert!(FeederAnswer::<u8>::NoMoreWork.is_final());
    assert!(!FeederAnswer::<u8>::Empty.is_final());
    assert_eq!(duration_nanos_u64(7), 7);
    assert_eq!(duration_nanos_u64(u128::MAX), u64::MAX);
}

#[test]
fn wrong_types_fail_the_node() {
    let said = |failure: NodeFailure<&'static str>| match failure {
        NodeFailure::Internal(message) => message,
        other => panic!("not internal: {other:?}"),
    };
    assert_eq!(process_parts::<_, _, u8, &str>(Some(1), Some(2), None).unwrap(), (1, 2, None));
    assert_eq!(process_parts::<_, _, _, &str>(Some(1), Some(2), Some(Some(3))).unwrap(), (1, 2, Some(3)));
    assert_eq!(said(process_parts::<u8, u8, u8, _>(None, None, None).unwrap_err()), "node state type mismatch");
    assert_eq!(said(process_parts::<_, u8, u8, _>(Some(1), None, None).unwrap_err()), "node input type mismatch");
    assert_eq!(
        said(process_parts::<_, _, u8, _>(Some(1), Some(2), Some(None)).unwrap_err()),
        "node output factory type mismatch"
    );
    assert_eq!(cleanup_state::<_, &str>(Some(1)).unwrap(), 1);
    assert_eq!(said(cleanup_state::<u8, _>(None).unwrap_err()), "node cleanup state type mismatch");
    assert_eq!(merge_states::<_, _, &str>(Some(1), Some(2)).unwrap(), (1, 2));
    assert_eq!(
        said(merge_states::<u8, u8, _>(None, None).unwrap_err()),
        "node merge target state type mismatch"
    );
    assert_eq!(
        said(merge_states::<_, u8, _>(Some(1), None).unwrap_err()),
        "node merge source state type mismatch"
    );
    assert_eq!(said(missing_merge()), "node does not provide a state merge function");
    assert_eq!(default_inline_cleanup::<u8, &str>(1), Ok(()));
}

#[test]
fn states_are_returned_or_merged() {
    assert_eq!(returned_states::<_, &str>(vec![Some(1), Some(2)]).unwrap(), [1, 2]);
    let error: Failure = returned_states(vec![Some(1), None]).unwrap_err();
    assert_eq!(internal(error).1, "returned node state type mismatch");
    assert!(check_merge::<&str>(Some(true)).is_ok());
    let error: Failure = check_merge(Some(false)).unwrap_err();
    assert!(matches!(error, PiperError::MissingStateMerge { node } if node == "returned-state node"));
    let error: Failure = check_merge(None).unwrap_err();
    assert_eq!(internal(error).1, "pipeline does not have a returned state node");
    let run = begin_merge::<_, &str>(vec![1, 2, 3]).unwrap();
    assert_eq!((run.merged, run.rest), (1, vec![2, 3]));
    let error: Failure = begin_merge(Vec::<u8>::new()).err().unwrap();
    assert_eq!(internal(error).1, "no returned node state was collected");
    let error: Failure = merge_failed(NodeFailure::Merge("m"));
    assert!(matches!(error, PiperError::UserMerge { worker, error: "m" } if worker == "piper-supervisor"));
    assert_eq!(merged_state::<_, &str>(Some(1)).unwrap(), 1);
    let error: Failure = merged_state(None::<u8>).unwrap_err();
    assert_eq!(internal(error).1, "returned node state type mismatch");
    let error: Failure = startup_timed_out();
    assert_eq!(internal(error).1, "initial workers were not ready before startup completed");
}

#[test]
fn a_handle_is_taken_once() {
    let mut handles = vec![Some('a'), Some('b')];
    assert_eq!(take_external_node(&mut handles, 1), 'b');
    assert_eq!(handles, [Some('a'), None]);
}

#[test]
fn trends_have_numbers() {
    let trends = [
        QueueTrend::Starved,
        QueueTrend::FastDraining,
        QueueTrend::Draining,
        QueueTrend::Stable,
        QueueTrend::Growing,
        QueueTrend::FastGrowing,
        QueueTrend::Runaway,
    ];
    for (index, trend) in trends.iter().enumerate() {
        assert_eq!(trend.code() as usize, index);
        assert_eq!(trend.is_draining(), index < 3);
        assert_eq!(trend.is_growing(), index > 3);
    }
}

#[test]
fn numbers_and_texts_are_written_out() {
    assert_eq!(decimal_text(0), "0");
    assert_eq!(decimal_text(1070), "1070");
    assert_eq!(decimal_text(u64::MAX), "18446744073709551615");
    assert_eq!(piper::text::concat("a", "b"), "ab");
    assert_eq!(concat3("a", "-", "b"), "a-b");
    let parts: Vec<String> = ["x", "y", "z"].iter().map(|part| part.to_string()).collect();
    assert_eq!(join(&parts, ", "), "x, y, z");
    assert_eq!(join(&vec![], ", "), "");
    assert!(same("ab", "ab"));
    assert!(!same("ab", "abc"));
    assert!(less("a", "ab"));
    assert!(less("a:in", "b"));
    assert!(!less("b", "ab"));
    assert!(!less("a", "a"));
    assert_eq!(position("node0_len", '_'), Some(5));
    assert_eq!(position("node0", '_'), None);
    assert_eq!(strip_prefix("node0", "node"), Some("0"));
    assert_eq!(strip_prefix("node0", "link"), None);
}

#[test]
fn indexes_are_read_as_numbers() {
    assert_eq!(parse_index("0"), Some(0));
    assert_eq!(parse_index("0042"), Some(42));
    assert_eq!(parse_index("+7"), Some(7));
    assert_eq!(parse_index(""), None);
    assert_eq!(parse_index("+"), None);
    assert_eq!(parse_index("-1"), None);
    assert_eq!(parse_index("4x"), None);
    assert_eq!(parse_index("99999999999999999999"), None);
    assert_eq!(parse_index("18446744073709551615"), Some(usize::MAX));
}

#[test]
fn returned_states_are_merged_in_order() {
    let mut run = begin_merge::<_, &str>(vec!["a".to_string(), "b".to_string(), "c".to_string()]).ok().unwrap();
    while let Some(state) = run.next() {
        run.merged = format!("{}{state}", run.merged);
    }
    assert_eq!(run.merged, "abc");
    assert_eq!(run.next(), None);
    let mut alone = begin_merge::<_, &str>(vec![7]).ok().unwrap();
    assert_eq!((alone.next(), alone.merged), (None, 7));
}

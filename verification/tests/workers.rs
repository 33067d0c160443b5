use piper::branch::{ArmRates, FillOrder, WeightedBranchController};
use piper::control::{LinkCounts, NodeSample};
use piper::error::{NodeFailure, PanicPayload, PiperError};
use piper::links::{LinkRecvError, RecvPoll};
use piper::pipe::{collect_output, plan_workers, worker_result, PipeAction, PipeFault, PipeReply, PipeWorker};
use piper::supervisor::WorkerEvent;
use piper::worker::{
    worker_event, ArmSamples, BranchAction, BranchReply, BranchWorker, ManagedWorker, RetireAction,
    RetireControl, WorkerAction, WorkerFault, WorkerPhase, WorkerReply, WorkerReport, WorkerStats,
};

type Action = WorkerAction<&'static str, u32, char, u8, u8>;
type Reply = WorkerReply<&'static str, u32, char, u8, u8>;

fn begun(returns: bool) -> ManagedWorker<u32> {
    let (mut worker, action): (ManagedWorker<u32>, Action) = ManagedWorker::begin(None, returns);
    assert!(matches!(action, WorkerAction::Init));
    let action: Action = worker.advance(WorkerReply::Initialized(Ok(5)));
    assert!(matches!(action, WorkerAction::Report(WorkerReport::Started)));
    let action: Action = worker.advance(WorkerReply::Reported);
    assert!(matches!(action, WorkerAction::LoadAbort));
    worker
}

/// Takes the worker from where it looks around to where it waits for an item.
fn to_poll(worker: &mut ManagedWorker<u32>) {
    assert!(matches!(go(worker, WorkerReply::Abort(false)), WorkerAction::TakeMergeFlag));
    assert!(matches!(go(worker, WorkerReply::MergeFlag(false)), WorkerAction::TakeRetire));
    assert!(matches!(go(worker, WorkerReply::Retire(None)), WorkerAction::Poll));
}

fn go(worker: &mut ManagedWorker<u32>, reply: Reply) -> Action {
    worker.advance(reply)
}

fn stop(abort: bool, terminated: bool, shutdown: bool, stops: bool) -> Reply {
    WorkerReply::Stop { abort, terminated, shutdown, stops_on_shutdown: stops }
}

fn failure_of(action: Action) -> NodeFailure<&'static str> {
    let WorkerAction::Report(report) = action else {
        panic!("no report");
    };
    match worker_event(report, 4, 2, "w") {
        WorkerEvent::Failed { worker_id: 4, node_index: 2, worker, failure } if worker == "w" => failure,
        _ => panic!("no failure"),
    }
}

#[test]
fn a_worker_processes_items_and_cleans_up() {
    let mut worker = begun(false);
    to_poll(&mut worker);
    let action = go(&mut worker, WorkerReply::Polled(RecvPoll::Item('x')));
    assert!(matches!(action, WorkerAction::Process { state: 5, item: 'x' }));
    let action = go(&mut worker, WorkerReply::Processed { state: 6, result: Ok(()) });
    assert!(matches!(action, WorkerAction::LoadAbort));
    to_poll(&mut worker);
    assert!(matches!(go(&mut worker, WorkerReply::Polled(RecvPoll::Timeout)), WorkerAction::LoadStop));
    let action = go(&mut worker, stop(false, false, true, false));
    assert!(matches!(action, WorkerAction::LoadAbort));
    to_poll(&mut worker);
    go(&mut worker, WorkerReply::Polled(RecvPoll::Timeout));
    let action = go(&mut worker, stop(false, false, true, true));
    assert!(matches!(action, WorkerAction::Cleanup { state: 6 }));
    let action = go(&mut worker, WorkerReply::CleanedUp(Ok(())));
    assert!(matches!(action, WorkerAction::Report(WorkerReport::Parked { returned_state: None })));
    assert!(matches!(go(&mut worker, WorkerReply::Reported), WorkerAction::Finish));
    assert_eq!(worker.phase, WorkerPhase::Ended);
}

#[test]
fn a_closed_link_ends_the_work() {
    let mut worker = begun(false);
    to_poll(&mut worker);
    go(&mut worker, WorkerReply::Polled(RecvPoll::Timeout));
    let action = go(&mut worker, stop(false, true, false, false));
    assert!(matches!(action, WorkerAction::Cleanup { state: 5 }));

    let mut worker = begun(false);
    to_poll(&mut worker);
    let action = go(&mut worker, WorkerReply::Polled(RecvPoll::Disconnected));
    assert!(matches!(action, WorkerAction::LoadFinalAbort));
    assert!(matches!(go(&mut worker, WorkerReply::Abort(false)), WorkerAction::Cleanup { state: 5 }));
}

#[test]
fn abort_leaves_the_state_alone() {
    let mut worker = begun(true);
    let action = go(&mut worker, WorkerReply::Abort(true));
    assert!(matches!(action, WorkerAction::Report(WorkerReport::Parked { returned_state: None })));

    let mut worker = begun(true);
    to_poll(&mut worker);
    go(&mut worker, WorkerReply::Polled(RecvPoll::Timeout));
    let action = go(&mut worker, stop(true, true, true, true));
    assert!(matches!(action, WorkerAction::Report(WorkerReport::Parked { returned_state: None })));

    let mut worker = begun(true);
    to_poll(&mut worker);
    go(&mut worker, WorkerReply::Polled(RecvPoll::Disconnected));
    let action = go(&mut worker, WorkerReply::Abort(true));
    assert!(matches!(action, WorkerAction::Report(WorkerReport::Parked { returned_state: None })));
}

#[test]
fn a_stopping_worker_returns_its_state() {
    let mut worker = begun(true);
    to_poll(&mut worker);
    go(&mut worker, WorkerReply::Polled(RecvPoll::Disconnected));
    let action = go(&mut worker, WorkerReply::Abort(false));
    assert!(matches!(
        action,
        WorkerAction::Report(WorkerReport::Parked { returned_state: Some(5) })
    ));
}

#[test]
fn a_retiring_worker_cleans_up_or_hands_over() {
    let mut worker = begun(true);
    go(&mut worker, WorkerReply::Abort(false));
    go(&mut worker, WorkerReply::MergeFlag(false));
    let action = go(&mut worker, WorkerReply::Retire(Some(RetireAction::Cleanup)));
    assert!(matches!(action, WorkerAction::Cleanup { state: 5 }));
    let failure = failure_of(go(&mut worker, WorkerReply::CleanedUp(Err(NodeFailure::Cleanup("c")))));
    assert!(matches!(failure, NodeFailure::Cleanup("c")));

    let mut worker = begun(false);
    go(&mut worker, WorkerReply::Abort(false));
    go(&mut worker, WorkerReply::MergeFlag(false));
    let action = go(&mut worker, WorkerReply::Retire(Some(RetireAction::Transfer(9))));
    assert!(matches!(action, WorkerAction::Transfer { state: 5, sender: 9 }));
    let action = go(&mut worker, WorkerReply::Transferred(true));
    assert!(matches!(action, WorkerAction::Report(WorkerReport::Parked { returned_state: None })));

    let mut worker = begun(false);
    go(&mut worker, WorkerReply::Abort(false));
    go(&mut worker, WorkerReply::MergeFlag(false));
    go(&mut worker, WorkerReply::Retire(Some(RetireAction::Transfer(9))));
    let failure = failure_of(go(&mut worker, WorkerReply::Transferred(false)));
    assert!(matches!(failure, NodeFailure::Internal(message) if message == "state transfer receiver closed"));
}

#[test]
fn merge_requests_are_drained() {
    let mut worker = begun(false);
    go(&mut worker, WorkerReply::Abort(false));
    assert!(matches!(go(&mut worker, WorkerReply::MergeFlag(true)), WorkerAction::NextMergeRequest));
    let action = go(&mut worker, WorkerReply::MergeRequest(Some((3, 8))));
    assert!(matches!(action, WorkerAction::ReceiveState { receiver: 8 }));
    let action = go(&mut worker, WorkerReply::StateReceived(Some(10)));
    assert!(matches!(action, WorkerAction::Merge { state: 5, source: 10 }));
    let action = go(&mut worker, WorkerReply::Merged { state: 15, result: Ok(()) });
    let WorkerAction::Report(report) = action else {
        panic!("no report");
    };
    assert!(matches!(
        worker_event::<&str, u32>(match report {
            WorkerReport::Merged { source_worker_id } => WorkerReport::Merged { source_worker_id },
            _ => panic!("no merge"),
        }, 1, 2, "w"),
        WorkerEvent::MergeCompleted { worker_id: 1, node_index: 2, source_worker_id: 3 }
    ));
    assert!(matches!(go(&mut worker, WorkerReply::Reported), WorkerAction::NextMergeRequest));
    assert!(matches!(go(&mut worker, WorkerReply::MergeRequest(None)), WorkerAction::TakeRetire));
    assert_eq!(worker.state, Some(15));
}

#[test]
fn failed_merges_end_the_worker() {
    let waiting = || {
        let mut worker = begun(false);
        go(&mut worker, WorkerReply::Abort(false));
        go(&mut worker, WorkerReply::MergeFlag(true));
        worker
    };
    let mut worker = waiting();
    let failure = failure_of(go(&mut worker, WorkerReply::MergeRequestsClosed));
    assert!(matches!(failure, NodeFailure::Internal(m) if m == "worker merge request channel closed"));

    let mut worker = waiting();
    go(&mut worker, WorkerReply::MergeRequest(Some((3, 8))));
    let failure = failure_of(go(&mut worker, WorkerReply::StateReceived(None)));
    assert!(matches!(failure, NodeFailure::Internal(m) if m == "worker state transfer channel closed"));

    let mut worker = waiting();
    go(&mut worker, WorkerReply::MergeRequest(Some((3, 8))));
    go(&mut worker, WorkerReply::StateReceived(Some(1)));
    let reply = WorkerReply::Merged { state: 5, result: Err(NodeFailure::Merge("m")) };
    assert!(matches!(failure_of(go(&mut worker, reply)), NodeFailure::Merge("m")));
}

#[test]
fn failed_items_end_the_worker() {
    let mut worker = begun(false);
    to_poll(&mut worker);
    go(&mut worker, WorkerReply::Polled(RecvPoll::Item('x')));
    let reply = WorkerReply::Processed { state: 5, result: Err(NodeFailure::Process("p")) };
    assert!(matches!(failure_of(go(&mut worker, reply)), NodeFailure::Process("p")));
    assert!(matches!(go(&mut worker, WorkerReply::Reported), WorkerAction::Finish));
}

#[test]
fn an_initial_state_skips_init() {
    let (mut worker, action): (ManagedWorker<u32>, Action) = ManagedWorker::begin(Some(9), false);
    assert!(matches!(action, WorkerAction::Report(WorkerReport::Started)));
    assert!(matches!(go(&mut worker, WorkerReply::Reported), WorkerAction::LoadAbort));
    assert_eq!(worker.state, Some(9));

    let (mut worker, _): (ManagedWorker<u32>, Action) = ManagedWorker::begin(None, false);
    let action = go(&mut worker, WorkerReply::Initialized(Err(NodeFailure::Init("i"))));
    assert!(matches!(failure_of(action), NodeFailure::Init("i")));
}

#[test]
fn reports_become_events() {
    let report: WorkerReport<&str, u32> = WorkerReport::Started;
    assert!(matches!(worker_event(report, 7, 1, "w"), WorkerEvent::Started { worker_id: 7 }));
    let report: WorkerReport<&str, u32> = WorkerReport::Parked { returned_state: Some(3) };
    assert!(matches!(
        worker_event(report, 7, 1, "w"),
        WorkerEvent::Parked { worker_id: 7, node_index: 1, returned_state: Some(3) }
    ));
    let report: WorkerReport<&str, u32> = WorkerReport::Failed { fault: WorkerFault::TransferClosed };
    assert!(matches!(worker_event(report, 7, 1, "w"), WorkerEvent::Failed { .. }));
}

#[test]
fn a_request_is_taken_once() {
    let mut retire: RetireControl<u8> = RetireControl::new();
    assert_eq!(retire.take_request(), None);
    retire.request_cleanup();
    assert_eq!(retire.take_request(), Some(RetireAction::Cleanup));
    assert_eq!(retire.take_request(), None);
    retire.request_transfer(4);
    assert_eq!(retire.take_request(), Some(RetireAction::Transfer(4)));
    assert_eq!(retire.take_request(), None);
}

#[test]
fn statistics_are_taken_and_reset() {
    let mut stats = WorkerStats::default();
    stats.note_wait(5);
    stats.note_processing(7, true);
    stats.note_processing(2, false);
    stats.note_item();
    let NodeSample { process_nanos, wait_nanos, processed_items } = stats.take();
    assert_eq!((process_nanos, wait_nanos, processed_items), (9, 5, 2));
    assert_eq!(stats, WorkerStats::default());
    stats.note_wait(u64::MAX);
    stats.note_wait(2);
    assert_eq!(stats.wait_nanos, 1);
    stats.reset();
    assert_eq!(stats, WorkerStats::default());
}

fn started_branch() -> BranchWorker<char, f64> {
    let (mut branch, action) = BranchWorker::begin(WeightedBranchController::new(1.0, 0.0));
    assert!(matches!(action, BranchAction::ReportStarted));
    assert!(matches!(branch.advance(BranchReply::Reported), BranchAction::LoadAbort));
    branch
}

fn polling_branch() -> BranchWorker<char, f64> {
    let mut branch = started_branch();
    poll_again(&mut branch);
    branch
}

fn poll_again(branch: &mut BranchWorker<char, f64>) {
    assert!(matches!(branch.advance(BranchReply::Abort(false)), BranchAction::TakeRetire));
    assert!(matches!(branch.advance(BranchReply::Retire(false)), BranchAction::Poll));
}

fn samples(loaded: bool) -> ArmSamples<f64> {
    let counts = LinkCounts { arrivals: 3, drains: 1, queue_len: Some(2) };
    let rates = ArmRates { drain_rate_ewma: 1.0, net_rate_ewma: 2.0, smoothed_len: 2.0, loaded };
    ArmSamples { left_counts: counts, left_rates: rates, right_counts: counts, right_rates: rates }
}

/// Whether the item goes left, and whether the sides were sampled before.
fn routed(branch: &mut BranchWorker<char, f64>, item: char, elapsed: u128, order: FillOrder) -> (bool, bool) {
    let action = branch.advance(BranchReply::Polled(RecvPoll::Item(item)));
    assert!(matches!(action, BranchAction::LoadElapsed));
    let mut action = branch.advance(BranchReply::Elapsed { elapsed, interval: 10 });
    let sampled = matches!(action, BranchAction::SampleArms);
    if sampled {
        action = branch.advance(BranchReply::Sampled(samples(true)));
    }
    assert!(matches!(action, BranchAction::CompareFill));
    let BranchAction::Route { item: passed, left } = branch.advance(BranchReply::Compared(order)) else {
        panic!("the item is not passed on");
    };
    assert_eq!(passed, item);
    assert!(matches!(branch.advance(BranchReply::Routed), BranchAction::LoadAbort));
    poll_again(branch);
    (left, sampled)
}

#[test]
fn a_branch_routes_until_it_is_stopped() {
    let mut branch = polling_branch();
    assert_eq!(routed(&mut branch, 'a', 0, FillOrder::RightLower), (false, true));
    assert_eq!(routed(&mut branch, 'b', 9, FillOrder::LeftLower), (true, false));
    assert_eq!(routed(&mut branch, 'c', 10, FillOrder::Tie), (true, true));
    assert_eq!(routed(&mut branch, 'd', 0, FillOrder::Tie), (false, false));
    let action = branch.advance(BranchReply::Polled(RecvPoll::Timeout));
    assert!(matches!(action, BranchAction::LoadStop));
    let reply = BranchReply::Stop { terminated: false, shutdown: false, stops_on_shutdown: true };
    assert!(matches!(branch.advance(reply), BranchAction::LoadAbort));
    assert!(matches!(branch.advance(BranchReply::Abort(true)), BranchAction::ReportParked));
    assert!(matches!(branch.advance(BranchReply::Reported), BranchAction::Finish));
}

#[test]
fn a_branch_that_warms_up_takes_turns() {
    let mut branch = polling_branch();
    for (item, expected) in [('a', true), ('b', false), ('c', true)] {
        branch.advance(BranchReply::Polled(RecvPoll::Item(item)));
        let action = branch.advance(BranchReply::Elapsed { elapsed: 0, interval: 10 });
        assert!(matches!(action, BranchAction::SampleArms));
        branch.advance(BranchReply::Sampled(samples(false)));
        let action = branch.advance(BranchReply::Compared(FillOrder::RightLower));
        assert!(matches!(action, BranchAction::Route { left, .. } if left == expected));
        branch.advance(BranchReply::Routed);
        poll_again(&mut branch);
    }
}

#[test]
fn a_branch_leaves_when_asked() {
    let mut branch = started_branch();
    branch.advance(BranchReply::Abort(false));
    assert!(matches!(branch.advance(BranchReply::Retire(true)), BranchAction::ReportParked));
    let mut branch = polling_branch();
    let action = branch.advance(BranchReply::Polled(RecvPoll::Disconnected));
    assert!(matches!(action, BranchAction::ReportParked));
    let mut branch = polling_branch();
    branch.advance(BranchReply::Polled(RecvPoll::Timeout));
    let reply = BranchReply::Stop { terminated: false, shutdown: true, stops_on_shutdown: true };
    assert!(matches!(branch.advance(reply), BranchAction::ReportParked));
}

type PipeStep = PipeAction<u32, u32, String, &'static str>;

/// Runs a worker of a pipe that sums up what it gets.
fn run_pipe(mut input: Vec<Result<u32, LinkRecvError>>, cancel_after: usize) -> Result<String, PipeFault<&'static str>> {
    input.reverse();
    let (mut worker, mut action): (PipeWorker<u32>, PipeStep) = PipeWorker::begin();
    let mut looks = 0;
    loop {
        let reply = match action {
            PipeAction::Init => PipeReply::Initialized(Ok(0)),
            PipeAction::LoadCancel => {
                looks += 1;
                PipeReply::Cancel(looks > cancel_after)
            }
            PipeAction::Receive => PipeReply::Received(input.pop().unwrap_or(Err(LinkRecvError::Closed))),
            PipeAction::Process { storage, item } => {
                let result = if item == 13 { Err("unlucky") } else { Ok(()) };
                PipeReply::Processed { storage: storage + item, result }
            }
            PipeAction::Finalize { storage } if storage == 99 => PipeReply::Finalized(Err("full")),
            PipeAction::Finalize { storage } => PipeReply::Finalized(Ok(storage.to_string())),
            PipeAction::Finish(result) => return result,
        };
        action = worker.advance(reply);
    }
}

#[test]
fn a_pipe_worker_sums_up_and_finalizes() {
    let input = vec![Ok(1), Err(LinkRecvError::Timeout), Ok(2), Ok(4)];
    assert_eq!(run_pipe(input, 100).unwrap(), "7");
    assert_eq!(run_pipe(vec![Ok(1), Ok(2), Ok(4)], 2).unwrap(), "3");
    assert_eq!(run_pipe(vec![], 100).unwrap(), "0");
    assert!(matches!(run_pipe(vec![Ok(1), Ok(13), Ok(2)], 100), Err(PipeFault::Process("unlucky"))));
    assert!(matches!(run_pipe(vec![Ok(99)], 100), Err(PipeFault::Finalize("full"))));
    let (mut worker, _): (PipeWorker<u32>, PipeStep) = PipeWorker::begin();
    let action: PipeStep = worker.advance(PipeReply::Initialized(Err("no")));
    assert!(matches!(action, PipeAction::Finish(Err(PipeFault::Init("no")))));
}

#[test]
fn pipe_workers_have_names() {
    let names = plan_workers::<String>(3).unwrap();
    assert_eq!(names, ["pipe-worker-0", "pipe-worker-1", "pipe-worker-2"]);
    assert!(matches!(plan_workers::<String>(0), Err(PiperError::ZeroWorkers)));
}

#[test]
fn pipe_results_are_collected_in_order() {
    let mut results: Vec<u8> = Vec::new();
    let joined = |result| Ok(worker_result::<u8, &str>("w", result));
    collect_output(&mut results, "w".to_string(), joined(Ok(1))).unwrap();
    collect_output(&mut results, "w".to_string(), joined(Ok(2))).unwrap();
    assert_eq!(results, [1, 2]);
    let error = collect_output(&mut results, "w".to_string(), joined(Err(PipeFault::Process("p"))));
    assert!(matches!(error, Err(PiperError::UserProcess { worker, error: "p" }) if worker == "w"));
    let error = worker_result::<u8, &str>("v", Err(PipeFault::Init("i")));
    assert!(matches!(error, Err(PiperError::UserInit { worker, error: "i" }) if worker == "v"));
    let error = worker_result::<u8, &str>("v", Err(PipeFault::Finalize("f")));
    assert!(matches!(error, Err(PiperError::UserFinalize { worker, error: "f" }) if worker == "v"));
    let panicked: Result<Result<u8, PiperError<&str>>, PanicPayload> = Err(PanicPayload::Static("boom"));
    let error = collect_output(&mut results, "w".to_string(), panicked);
    assert!(matches!(
        error,
        Err(PiperError::WorkerPanicked { worker, message }) if worker == "w" && message == "boom"
    ));
    assert_eq!(results, [1, 2]);
}

use piper::control::{
    build_node_controls, collect_node_samples, queue_len_or_zero, sum_samples,
    update_desired_workers, LinkControl, NodeDemand, NodeMeasures, NodeSample, ScaleDirection,
};
use piper::error::{NodeFailure, PanicPayload, PiperError};
use piper::graph::ManagedStage;
use piper::plan::RuntimeNode;
use piper::policy::{ResolvedScalePolicy, ResolvedThreadPolicy};
use piper::rounds::{RunStep, ScaleTask};
use piper::scaling::{active_worker_count, ScaleOperation};
use piper::snapshot::{NodeScalingState, QueueTrend};
use piper::supervisor::{
    node_has_merge_state, pending_scale_involves_worker, remove_worker_from_node, worker_panicked,
    FollowUp, LinkAction, PendingScale, Removal, Supervisor, WorkerEvent, WorkerReach, WorkerRole,
};

type Book = Supervisor<&'static str, u32, char, u8, bool, i8, f64>;
type Event = WorkerEvent<&'static str, u32>;

fn managed(name: &str, input_link: usize, merges_state: bool) -> RuntimeNode<u8, u8, f64> {
    RuntimeNode {
        name: name.to_string(),
        stage: Some(ManagedStage { handle: 1, merges_state }),
        output_acquire: None,
        is_anchor: false,
        thread_policy: ResolvedThreadPolicy::ImplicitSupport,
        input_link,
        output_links: vec![input_link + 1],
        weighted_branch_config: None,
        is_external: false,
        external_index: None,
        return_state_on_exit: merges_state,
    }
}

fn nodes() -> Vec<RuntimeNode<u8, u8, f64>> {
    vec![managed("plain", 0, false), managed("merging", 1, true)]
}

fn reach() -> WorkerReach<u8, bool, i8> {
    WorkerReach { retire: 1, merge_pending: false, merge_sender: -1 }
}

/// A book with a worker at the first node and `merging` workers at the second.
fn book(merging: usize) -> Book {
    let nodes = nodes();
    let mut book: Book = Supervisor::new(build_node_controls(&nodes, 0.0));
    for index in 0..=merging {
        let worker = book.register_worker(format!("w{index}"));
        let node = if index == 0 { 0 } else { 1 };
        book.assign_worker(worker, node, &nodes, 0, reach()).unwrap();
    }
    book
}

fn parked(worker_id: usize, node_index: usize) -> Event {
    WorkerEvent::Parked { worker_id, node_index, returned_state: None }
}

#[test]
fn workers_are_assigned_by_the_kind_of_node() {
    let mut nodes = nodes();
    let mut book = book(1);
    let worker = book.register_worker("w2".to_string());
    assert_eq!(worker, 2);
    assert_eq!(
        book.assign_worker(worker, 1, &nodes, 1, reach()).unwrap(),
        WorkerRole::Managed {
            input_link: 1,
            output_link: 2,
            is_input_stage: true,
            return_state_on_exit: true,
        }
    );
    assert_eq!(book.active_by_node, [vec![0], vec![1, 2]]);
    assert_eq!(book.workers[2].active_node, Some(1));
    assert_eq!(book.workers[2].merge_sender, Some(-1));

    nodes[0].stage = None;
    nodes[0].output_links = vec![3, 4];
    nodes[0].weighted_branch_config = Some(piper::config::SingleThreadWeightedBranchConfig {
        target_queue_seconds: 1.0,
        target_is_usable: true,
        ewma_half_life: 1,
    });
    let worker = book.register_worker("w3".to_string());
    assert_eq!(
        book.assign_worker(worker, 0, &nodes, 7, reach()).unwrap(),
        WorkerRole::Branch { input_link: 0, left_link: 3, right_link: 4, is_input_stage: false }
    );
    assert_eq!(book.workers[3].merge_sender, None);

    nodes[0].weighted_branch_config = None;
    let worker = book.register_worker("w4".to_string());
    let error = book.assign_worker(worker, 0, &nodes, 0, reach()).unwrap_err();
    assert!(matches!(
        error,
        PiperError::Internal { worker, message }
            if worker == "w4" && message == "cannot assign a managed worker to an external node"
    ));
    let error = book.command_closed(3);
    assert!(matches!(
        error,
        PiperError::Internal { worker, message }
            if worker == "w3" && message == "worker command channel closed"
    ));
}

#[test]
fn an_added_worker_settles_its_node() {
    let mut book = book(1);
    book.begin_add(1, 1);
    assert!(!book.may_scale(false, false));
    let other: Event = WorkerEvent::Started { worker_id: 0 };
    book.apply_event(other, 10);
    assert!(book.pending_scale.is_some());
    let (abort, follow_up) = book.apply_event(WorkerEvent::Started { worker_id: 1 }, 10);
    assert!(!abort);
    assert!(matches!(follow_up, FollowUp::Nothing));
    assert!(book.pending_scale.is_none());
    assert!(book.may_scale(false, false));
    assert!(book.controls[1].settling);
    assert_eq!(book.controls[1].scaling_state, NodeScalingState::Settling);
    assert_eq!(book.controls[1].last_operation, Some((ScaleDirection::Add, 10)));
}

#[test]
fn a_removed_worker_is_parked() {
    let mut book = book(2);
    assert_eq!(
        book.plan_removal(0, None, &nodes()),
        Removal::Cleanup { worker_id: 0 }
    );
    book.begin_cleanup(2, 1);
    book.apply_event(parked(2, 1), 4);
    assert_eq!(book.active_by_node, [vec![0], vec![1]]);
    assert_eq!(book.parked, [2]);
    assert_eq!(book.workers[2].active_node, None);
    assert_eq!(book.workers[2].retire, None);
    assert_eq!(book.controls[1].last_operation, Some((ScaleDirection::Remove, 4)));
    assert_eq!(book.take_parked(), Some(2));
    assert_eq!(book.take_parked(), None);
}

#[test]
fn a_merge_goes_through_its_target() {
    let mut book = book(3);
    let removal = book.plan_removal(1, None, &nodes());
    assert_eq!(removal, Removal::Transfer { source_worker_id: 1, target_worker_id: 2 });
    assert_eq!(
        book.plan_removal(1, Some(3), &nodes()),
        Removal::Transfer { source_worker_id: 3, target_worker_id: 1 }
    );
    book.begin_transfer(1, 2, 1, 'r');
    assert_eq!(book.controls[1].scaling_state, NodeScalingState::Merging);
    let (abort, follow_up) = book.apply_event(parked(1, 1), 5);
    assert!(!abort);
    assert!(matches!(
        follow_up,
        FollowUp::RequestMerge { source_worker_id: 1, target_worker_id: 2, state_receiver: 'r' }
    ));
    assert_eq!(book.merge_requested(true), (false, Some(2)));
    let early: Event = WorkerEvent::MergeCompleted { worker_id: 3, node_index: 1, source_worker_id: 1 };
    book.apply_event(early, 6);
    assert!(book.pending_scale.is_some());
    let done: Event = WorkerEvent::MergeCompleted { worker_id: 2, node_index: 1, source_worker_id: 1 };
    book.apply_event(done, 7);
    assert!(book.pending_scale.is_none());
    assert_eq!(book.controls[1].last_operation, Some((ScaleDirection::Merge, 7)));
    assert_eq!(book.active_by_node[1], [3, 2]);
}

#[test]
fn a_merge_can_fail_on_the_way() {
    let said = |book: &Book| match book.stored_failure.as_ref().unwrap() {
        PiperError::Internal { worker, message } if worker == "piper-supervisor" => message.clone(),
        _ => panic!("not an internal failure"),
    };
    let mut closed = book(2);
    closed.begin_transfer(1, 2, 1, 'r');
    closed.apply_event(parked(1, 1), 5);
    assert_eq!(closed.merge_requested(false), (true, None));
    assert_eq!(said(&closed), "merge target request channel closed");

    let mut flagless = book(2);
    flagless.begin_transfer(1, 2, 1, 'r');
    flagless.apply_event(parked(1, 1), 5);
    flagless.workers[2].merge_pending = None;
    assert_eq!(flagless.merge_requested(true), (true, None));
    assert_eq!(said(&flagless), "merge target pending flag is unavailable");

    let mut inactive = book(2);
    inactive.begin_transfer(1, 2, 1, 'r');
    inactive.workers[2].merge_sender = None;
    let (abort, follow_up) = inactive.apply_event(parked(1, 1), 5);
    assert!(abort);
    assert!(matches!(follow_up, FollowUp::Nothing));
    assert_eq!(said(&inactive), "merge target worker is not active");

    let mut lost = book(2);
    lost.pending_scale = Some(PendingScale::MergeDown {
        source_worker_id: 1,
        target_worker_id: 2,
        node_index: 1,
        state_receiver: None,
        waiting_for_target: false,
    });
    assert!(lost.apply_event(parked(1, 1), 5).0);
    assert_eq!(said(&lost), "missing merge state receiver");
}

#[test]
fn a_failed_worker_stops_the_pipeline() {
    let mut book = book(2);
    book.begin_add(2, 1);
    let failed: Event = WorkerEvent::Failed {
        worker_id: 2,
        node_index: 1,
        worker: "w2".to_string(),
        failure: NodeFailure::Process("bad"),
    };
    let (abort, _) = book.apply_event(failed, 3);
    assert!(abort);
    assert!(book.pending_scale.is_none());
    assert_eq!(book.parked, [2]);
    assert!(!book.may_scale(false, false));
    assert_eq!(book.release_links(false, false), LinkAction::Abort);
    assert_eq!(book.release_links(false, false), LinkAction::Keep);
    assert!(!book.is_done(false, false));
    book.apply_event(parked(0, 0), 3);
    book.apply_event(parked(1, 1), 3);
    assert!(book.is_done(false, false));
    let error = book.into_result().unwrap_err();
    assert!(matches!(error, PiperError::UserProcess { worker, error: "bad" } if worker == "w2"));
}

#[test]
fn returned_states_are_kept_in_order() {
    let mut book = book(2);
    for (worker_id, state) in [(2, 20), (1, 10)] {
        let event: Event =
            WorkerEvent::Parked { worker_id, node_index: 1, returned_state: Some(state) };
        book.apply_event(event, 0);
    }
    book.apply_event(parked(0, 0), 0);
    book.apply_event(WorkerEvent::Stopped, 0);
    assert!(!book.is_done(false, false));
    assert!(book.is_done(true, false));
    assert!(book.is_done(false, true));
    assert_eq!(book.release_links(true, false), LinkAction::Close);
    assert_eq!(book.into_result().unwrap(), [20, 10]);
}

#[test]
fn parked_workers_are_kept_in_store() {
    let mut book = book(1);
    assert_eq!(book.missing_parked(3), 3);
    let worker = book.register_worker("spare".to_string());
    book.park_new_worker(worker);
    assert_eq!(book.missing_parked(3), 2);
    assert_eq!(book.missing_parked(1), 0);
    assert_eq!(book.missing_parked(0), 0);
}

#[test]
fn pending_work_names_its_workers() {
    let none: Option<PendingScale<char>> = None;
    assert!(!pending_scale_involves_worker(&none, 1));
    let add: Option<PendingScale<char>> = Some(PendingScale::Add { worker_id: 1, node_index: 0 });
    assert!(pending_scale_involves_worker(&add, 1));
    assert!(!pending_scale_involves_worker(&add, 0));
    let merge = Some(PendingScale::MergeDown {
        source_worker_id: 1,
        target_worker_id: 2,
        node_index: 0,
        state_receiver: Some('r'),
        waiting_for_target: true,
    });
    assert!(pending_scale_involves_worker(&merge, 2));
    assert!(!pending_scale_involves_worker(&merge, 3));
}

#[test]
fn removing_swaps_the_last_worker_in() {
    let mut active = vec![vec![4, 5, 6, 7]];
    remove_worker_from_node(&mut active, 0, 5);
    assert_eq!(active, [vec![4, 7, 6]]);
    remove_worker_from_node(&mut active, 0, 9);
    assert_eq!(active, [vec![4, 7, 6]]);
    assert_eq!(active_worker_count(&vec![vec![1], vec![], vec![2, 3]]), 3);
}

#[test]
fn only_merging_nodes_hand_over() {
    assert!(!node_has_merge_state(&nodes()[0]));
    assert!(node_has_merge_state(&nodes()[1]));
    let lone = book(1);
    assert_eq!(lone.plan_removal(1, None, &nodes()), Removal::Cleanup { worker_id: 1 });
    let mut empty = book(1);
    empty.apply_event(parked(1, 1), 0);
    assert_eq!(empty.plan_removal(1, None, &nodes()), Removal::Nothing);
}

#[test]
fn a_panic_is_reported() {
    let error: PiperError<&str> = worker_panicked("w".to_string(), PanicPayload::Other);
    assert!(matches!(
        error,
        PiperError::WorkerPanicked { worker, message }
            if worker == "w" && message == "<non-string panic payload>"
    ));
}

fn scalable(max_threads: usize) -> ResolvedThreadPolicy<f64> {
    ResolvedThreadPolicy::Scalable(ResolvedScalePolicy {
        initial_threads: 1,
        max_threads,
        target_queue_seconds: 1.0,
        low_queue_seconds: 0.25,
        scale_down_after: 5,
        underutilized_busy_ratio: 0.35,
    })
}

fn measures(underutilized: bool) -> NodeMeasures<f64> {
    NodeMeasures {
        busy_ratio: 0.5,
        service_time_ewma: 2.0,
        per_worker_throughput: 3.0,
        backlog_seconds: 4.0,
        underutilized,
    }
}

#[test]
fn samples_are_summed_and_counted() {
    let sample = NodeSample { process_nanos: 1, wait_nanos: 2, processed_items: 3 };
    let total = sum_samples(&vec![sample, sample]);
    assert_eq!((total.process_nanos, total.wait_nanos, total.processed_items), (2, 4, 6));
    let mut nodes = nodes();
    nodes[1].thread_policy = scalable(4);
    let mut controls = build_node_controls(&nodes, 0.0);
    controls[0].settling = true;
    controls[0].scaling_state = NodeScalingState::Settling;
    let samples = vec![total, NodeSample { process_nanos: 0, wait_nanos: 0, processed_items: 0 }];
    collect_node_samples(&samples, &vec![measures(true), measures(true)], &mut controls, 7);
    assert_eq!(controls[0].processed_count, 6);
    assert_eq!(controls[0].busy_ratio, 0.5);
    assert_eq!(controls[0].scale_down_eligible_since, None);
    assert!(controls[0].settling);
    assert_eq!(controls[1].busy_ratio, 0.0);
    assert_eq!(controls[1].backlog_seconds, 4.0);
    assert_eq!(controls[1].scale_down_eligible_since, Some(7));
    collect_node_samples(&samples, &vec![measures(true), measures(true)], &mut controls, 9);
    assert!(!controls[0].settling);
    assert_eq!(controls[0].scaling_state, NodeScalingState::Eligible);
    assert_eq!(controls[1].scale_down_eligible_since, Some(7));
    collect_node_samples(&samples, &vec![measures(true), measures(false)], &mut controls, 11);
    assert_eq!(controls[1].scale_down_eligible_since, None);
    assert_eq!(controls[0].processed_count, 18);
}

#[test]
fn a_settling_node_waits_for_work() {
    let mut controls = build_node_controls(&nodes(), 0.0);
    controls[0].record_operation(ScaleDirection::Add, 1);
    controls[0].settling = true;
    let idle = NodeSample { process_nanos: 0, wait_nanos: 1, processed_items: 0 };
    let busy = NodeSample { process_nanos: 1, wait_nanos: 1, processed_items: 1 };
    for _ in 0..5 {
        controls[0].take_sample(&idle, &measures(false), 2);
        assert!(controls[0].settling);
    }
    controls[0].take_sample(&busy, &measures(false), 2);
    assert!(!controls[0].settling);
}

#[test]
fn desired_workers_follow_the_policy() {
    let mut nodes = nodes();
    nodes.push(managed("fixed", 2, false));
    nodes.push(managed("outside", 3, false));
    nodes[1].thread_policy = scalable(4);
    nodes[2].thread_policy = ResolvedThreadPolicy::Fixed(3);
    nodes[3].is_external = true;
    let mut controls = build_node_controls(&nodes, 0.0);
    let mut links = vec![LinkControl::starting(0.0); 5];
    let active = vec![vec![0, 1], vec![2], vec![3], vec![]];
    let demand = NodeDemand {
        measured: true,
        backlog_seconds: 2.5,
        for_arrivals: 6,
        for_backlog: 2,
        for_support: 9,
    };
    update_desired_workers(&links, &active, &nodes, &vec![demand; 4], &mut controls);
    let desired: Vec<usize> = controls.iter().map(|control| control.desired_workers).collect();
    assert_eq!(desired, [9, 4, 3, 0]);
    assert_eq!(controls[1].backlog_seconds, 2.5);
    assert_eq!(controls[0].backlog_seconds, 0.0);

    let unmeasured = NodeDemand { measured: false, ..demand };
    update_desired_workers(&links, &active, &nodes, &vec![unmeasured; 4], &mut controls);
    let desired: Vec<usize> = controls.iter().map(|control| control.desired_workers).collect();
    assert_eq!(desired, [2, 1, 3, 0]);

    links[0].trend = QueueTrend::Growing;
    links[1].trend = QueueTrend::Runaway;
    update_desired_workers(&links, &active, &nodes, &vec![unmeasured; 4], &mut controls);
    let desired: Vec<usize> = controls.iter().map(|control| control.desired_workers).collect();
    assert_eq!(desired, [3, 2, 3, 0]);
}

#[test]
fn an_unknown_length_counts_as_empty() {
    assert_eq!(queue_len_or_zero(None), 0);
    assert_eq!(queue_len_or_zero(Some(4)), 4);
}

#[test]
fn a_parked_worker_is_taken_before_one_is_started() {
    let mut book = book(1);
    let add = Some(ScaleOperation::Add { node_index: 1 });
    assert_eq!(book.take_task(add, &nodes()), ScaleTask::SpawnAndSeat { node_index: 1 });
    for name in ["w2", "w3"] {
        let worker = book.register_worker(name.to_string());
        book.park_new_worker(worker);
    }
    assert_eq!(book.take_task(None, &nodes()), ScaleTask::Nothing);
    assert_eq!(book.parked, [2, 3]);
    assert_eq!(book.take_task(add, &nodes()), ScaleTask::Seat { worker_id: 3, node_index: 1 });
    assert_eq!(book.parked, [2]);
}

#[test]
fn a_removal_is_a_task_of_its_node() {
    let mut book = book(2);
    let remove = |node_index| Some(ScaleOperation::Remove { node_index, worker_id: None });
    assert_eq!(
        book.take_task(remove(0), &nodes()),
        ScaleTask::Cleanup { worker_id: 0, node_index: 0 }
    );
    assert_eq!(
        book.take_task(remove(1), &nodes()),
        ScaleTask::Transfer { source_worker_id: 1, target_worker_id: 2, node_index: 1 }
    );
    let mut empty: Book = Supervisor::new(build_node_controls(&nodes(), 0.0));
    assert_eq!(empty.take_task(remove(1), &nodes()), ScaleTask::Nothing);
}

#[test]
fn rounds_go_on_until_the_work_is_done() {
    let mut step = RunStep::DrainEvents;
    let mut steps = vec![step];
    let mut looks = 0;
    loop {
        if step == RunStep::CheckEnd {
            looks += 1;
        }
        match step.next(looks == 2) {
            Some(next) => step = next,
            None => break,
        }
        steps.push(step);
    }
    let round = [
        RunStep::DrainEvents,
        RunStep::DrainFailures,
        RunStep::ReleaseLinks,
        RunStep::Sample,
        RunStep::Scale,
        RunStep::Observe,
        RunStep::CheckEnd,
    ];
    let end = [
        RunStep::DrainLastFailures,
        RunStep::StopParked,
        RunStep::JoinWorkers,
        RunStep::ObserveEnd,
        RunStep::StopRecorder,
        RunStep::GiveResult,
    ];
    let mut expected = round.to_vec();
    expected.push(RunStep::Sleep);
    expected.extend(round);
    expected.extend(end);
    assert_eq!(steps, expected);
}

//! Whole pipelines, run by one thread in rounds of a millisecond each.

use piper::branch::{ArmRates, FillOrder, WeightedBranchArmState, WeightedBranchController};
use piper::config::{FeederLinkConfig, SingleThreadWeightedBranchConfig};
use piper::control::{
    build_node_controls, collect_node_samples, effective_queue_len, sample_links, sum_samples,
    update_desired_workers, LinkControl, LinkCounts, LinkRates, NodeDemand, NodeMeasures, NodeSample,
    RateBand,
};
use piper::error::{
    drain_internal_failures, InternalFailure, NodeFailure, PiperError, RecvOutputError,
    SendInputError, TryRecvOutputError,
};
use piper::expansion::{plan_expansion, ExpansionPlan};
use piper::grammar::{parse_pipeline, NamedNodeKind, NodeDecls};
use piper::graph::{
    anchor, node, node_with_state_merge, GraphLink, NodeSpec, PipelineGraph, PipelineGraphBuilder,
};
use piper::links::{
    external_output_failure, feeder_step, feeder_try, input_sent, node_output_failure, recv_poll,
    received_output, send_report, should_stop_on_shutdown_timeout, try_received_output, FeederAnswer,
    FeederStep, LinkRecvError, LinkStats, LinkTryRecvError, RecvPoll, SendReport,
};
use piper::observe::{update_snapshot, PipelineStatus};
use piper::outcome::{begin_merge, check_merge, merge_failed, merged_state, returned_states, take_external_node};
use piper::plan::{plan_start, StartPlan};
use piper::policy::{NodeScalePolicy, NodeThreadPolicyKind, ResolvedThreadPolicy};
use piper::recycle::BufferLease;
use piper::rounds::ScaleTask;
use piper::scaling::{choose_scale_operation, LoadReading, Standing};
use piper::snapshot::PiperSnapshot;
use piper::startup::{parked_worker_target, startup_order, worker_name};
use piper::supervisor::{FollowUp, LinkAction, Supervisor, WorkerEvent, WorkerReach, WorkerRole};
use piper::worker::{
    worker_event, ArmSamples, BranchAction, BranchReply, BranchWorker, ManagedWorker, RetireControl, WorkerAction,
    WorkerReply, WorkerStats,
};
use std::cell::{Cell, RefCell};
use std::collections::VecDeque;
use std::rc::Rc;

const ROUND: u128 = 1_000_000;
const SECOND: f64 = 1_000_000_000.0;

#[derive(Debug, PartialEq)]
enum TestError {
    Test,
}

#[derive(Debug)]
enum Item {
    Number(u32),
    Text(String),
    Lease(BufferLease<Vec<u32>>),
}

fn number(item: Item) -> u32 {
    match item {
        Item::Number(value) => value,
        other => panic!("not a number: {other:?}"),
    }
}

fn text(item: Item) -> String {
    match item {
        Item::Text(value) => value,
        other => panic!("not a text: {other:?}"),
    }
}

type Merge = Box<dyn Fn(&mut usize, usize) -> Result<(), TestError>>;

struct Stage {
    init: Box<dyn Fn() -> Result<usize, TestError>>,
    process: Box<dyn Fn(&mut usize, Item) -> Result<Item, TestError>>,
    cleanup: Box<dyn Fn(usize) -> Result<(), TestError>>,
    merge: Option<Merge>,
    rounds: u32,
}

impl Stage {
    fn of(process: impl Fn(&mut usize, Item) -> Result<Item, TestError> + 'static) -> Stage {
        Stage {
            init: Box::new(|| Ok(0)),
            process: Box::new(process),
            cleanup: Box::new(|_| Ok(())),
            merge: None,
            rounds: 0,
        }
    }

    fn slow(mut self, rounds: u32) -> Stage {
        self.rounds = rounds;
        self
    }

    fn with_cleanup(mut self, cleanup: impl Fn(usize) -> Result<(), TestError> + 'static) -> Stage {
        self.cleanup = Box::new(cleanup);
        self
    }
}

fn pass() -> Stage {
    Stage::of(|_, item| Ok(item))
}

fn double() -> Stage {
    Stage::of(|_, item| Ok(Item::Number(number(item) * 2)))
}

fn format_value() -> Stage {
    Stage::of(|_, item| Ok(Item::Text(format!("value={}", number(item)))))
}

fn count_pass(count: &Rc<Cell<usize>>) -> Stage {
    let count = Rc::clone(count);
    Stage::of(move |_, item| {
        count.set(count.get() + 1);
        Ok(item)
    })
}

fn counting_final() -> Stage {
    Stage::of(|state, item| {
        *state += 1;
        Ok(item)
    })
}

fn fail() -> Stage {
    Stage::of(|_, _| Err(TestError::Test))
}

type Handle = Rc<Stage>;
type Factory = Rc<dyn Fn() -> Vec<u32>>;
type Builder = PipelineGraphBuilder<u32, Handle, Factory, f64>;
type Graph<Out> = PipelineGraph<u32, Out, Handle, Factory, f64>;
type Spec<In, Out> = NodeSpec<In, Out, Handle, Factory, f64>;

fn managed<In, Out>(name: &str, stage: Stage) -> Spec<In, Out> {
    node(name.to_string(), Rc::new(stage))
}

fn mergeable<In, Out>(
    name: &str,
    mut stage: Stage,
    merge: impl Fn(&mut usize, usize) -> Result<(), TestError> + 'static,
) -> Spec<In, Out> {
    stage.merge = Some(Box::new(merge));
    node_with_state_merge(name.to_string(), Rc::new(stage))
}

fn one_stage_graph(spec: Spec<u32, u32>) -> Graph<u32> {
    let mut builder = Builder::new();
    let input = builder.input();
    let output = builder.add_node(input, spec);
    builder.finish(output)
}

struct Line {
    queue: VecDeque<Item>,
    stats: LinkStats,
    senders: usize,
    feeder: bool,
    shut: bool,
    cancelled: bool,
}

impl Line {
    fn answer(&mut self) -> FeederAnswer<Item> {
        if self.cancelled {
            FeederAnswer::Cancelled
        } else {
            match self.queue.pop_front() {
                Some(item) => FeederAnswer::Item(item),
                None if self.shut => FeederAnswer::NoMoreWork,
                None => FeederAnswer::Empty,
            }
        }
    }

    fn try_recv(&mut self) -> Result<Item, LinkTryRecvError> {
        if self.feeder {
            let answer = self.answer();
            return feeder_try(answer);
        }
        match self.queue.pop_front() {
            Some(item) => Ok(item),
            None if self.senders == 0 => Err(LinkTryRecvError::Closed),
            None => Err(LinkTryRecvError::Empty),
        }
    }

    fn recv_timeout(&mut self) -> Result<Item, LinkRecvError> {
        if self.feeder {
            let answer = self.answer();
            return match feeder_step(answer, 5, 5) {
                FeederStep::Give(item) => Ok(item),
                FeederStep::Closed => Err(LinkRecvError::Closed),
                FeederStep::GiveUp => Err(LinkRecvError::Timeout),
                FeederStep::Sleep(pause) => panic!("slept {pause} past the deadline"),
            };
        }
        self.try_recv().map_err(|error| match error {
            LinkTryRecvError::Closed => LinkRecvError::Closed,
            LinkTryRecvError::Empty => LinkRecvError::Timeout,
        })
    }

    fn is_terminated(&self) -> bool {
        if self.feeder {
            self.cancelled || (self.shut && self.queue.is_empty())
        } else {
            self.senders == 0 && self.queue.is_empty()
        }
    }

    fn queue_len(&self) -> Option<usize> {
        if self.feeder { None } else { Some(self.queue.len()) }
    }

    fn counts(&self) -> LinkCounts {
        LinkCounts {
            arrivals: self.stats.arrivals,
            drains: self.stats.drains,
            queue_len: self.queue_len(),
        }
    }
}

type StateSlot = Rc<RefCell<Option<usize>>>;
type Retire = Rc<RefCell<RetireControl<StateSlot>>>;
type Flag = Rc<Cell<bool>>;
type Requests = Rc<RefCell<VecDeque<(usize, StateSlot)>>>;
type Action = WorkerAction<TestError, usize, Item, StateSlot, StateSlot>;
type Reply = WorkerReply<TestError, usize, Item, StateSlot, StateSlot>;

enum Job {
    Managed {
        node: usize,
        machine: ManagedWorker<usize>,
        action: Action,
        stage: Handle,
        input: usize,
        output: usize,
        is_input: bool,
        retire: Retire,
        flag: Flag,
        requests: Requests,
        waited: u32,
    },
    Branch {
        node: usize,
        machine: BranchWorker<Item, f64>,
        action: BranchAction<Item>,
        half_life: f64,
        last_sample: u128,
        input: usize,
        outputs: [usize; 2],
        is_input: bool,
        retire: Retire,
    },
}

struct Worker {
    name: String,
    stats: WorkerStats,
    job: Option<Job>,
}

struct Pipeline {
    plan: StartPlan<Handle, Factory, f64>,
    lines: Vec<Line>,
    link_controls: Vec<LinkControl<f64>>,
    supervisor: Supervisor<TestError, usize, StateSlot, Retire, Flag, Requests, f64>,
    workers: Vec<Worker>,
    events: Vec<WorkerEvent<TestError, usize>>,
    failures: Vec<InternalFailure<Option<TestError>>>,
    pool: Rc<RefCell<Vec<Vec<u32>>>>,
    handles: Vec<Option<usize>>,
    parked_target: usize,
    shutdown: bool,
    abort: bool,
    now: u128,
    snapshot: Option<PiperSnapshot<f64, u64>>,
}

fn default_policy() -> NodeScalePolicy<f64> {
    NodeScalePolicy::for_parallelism(4, 1.0, 0.25, 500 * ROUND, 0.35)
}

fn ewma(previous: f64, sample: f64, alpha: f64) -> f64 {
    if previous == 0.0 {
        sample
    } else {
        (previous * (1.0 - alpha)) + (sample * alpha)
    }
}

fn rounded_up(value: f64) -> usize {
    if value.is_finite() && value > 0.0 { value.ceil() as usize } else { 0 }
}

fn backlog(link: &LinkControl<f64>) -> f64 {
    effective_queue_len(link.len, rounded_up(link.smoothed_len)) as f64
}

fn standing(value: f64, limit: f64) -> Standing {
    if value <= limit {
        Standing::AtMost
    } else if value > limit {
        Standing::Above
    } else {
        Standing::Unordered
    }
}

fn link_rates(control: &LinkControl<f64>, counts: &LinkCounts) -> LinkRates<f64> {
    let seconds = ROUND as f64 / SECOND;
    let (arrivals, drains) = control.gains(counts);
    let arrival = arrivals as f64 / seconds;
    let drain = drains as f64 / seconds;
    let arrival_rate = ewma(control.arrival_rate, arrival, 0.35);
    let drain_rate = ewma(control.drain_rate, drain, 0.35);
    let net_rate = ewma(control.net_rate, arrival - drain, 0.35);
    let ratio = net_rate / arrival_rate.max(drain_rate).max(1.0);
    let band = if ratio <= -0.45 {
        RateBand::FastDrain
    } else if ratio <= -0.12 {
        RateBand::Drain
    } else if ratio >= 0.85 {
        RateBand::Runaway
    } else if ratio >= 0.45 {
        RateBand::FastGrow
    } else if ratio >= 0.12 {
        RateBand::Grow
    } else {
        RateBand::Even
    };
    LinkRates {
        arrival_rate,
        drain_rate,
        net_rate,
        smoothed_len: ewma(control.smoothed_len, counts.queue_len.unwrap_or(0) as f64, 0.25),
        idle: arrival_rate + drain_rate < 0.01,
        band,
    }
}

fn arm_rates(arm: &WeightedBranchArmState<f64>, counts: &LinkCounts, seconds: f64, alpha: f64) -> ArmRates<f64> {
    let (arrivals, drains) = arm.gains(counts);
    let drain = drains as f64 / seconds;
    let net = arrivals as f64 / seconds - drain;
    let net_rate_ewma = ewma(arm.net_rate_ewma, net, alpha);
    let smoothed_len = ewma(arm.smoothed_len, counts.queue_len.unwrap_or(0) as f64, alpha);
    ArmRates {
        drain_rate_ewma: ewma(arm.drain_rate_ewma, drain, alpha),
        net_rate_ewma,
        smoothed_len,
        loaded: smoothed_len >= 1.0 || net_rate_ewma > 0.0,
    }
}

fn fill(arm: &WeightedBranchArmState<f64>, observed: usize, target: f64) -> f64 {
    let capacity = (arm.drain_rate_ewma * target).ceil().max(1.0);
    effective_queue_len(observed, rounded_up(arm.smoothed_len)) as f64 / capacity
}

impl Pipeline {
    fn start<Out>(graph: Graph<Out>, cap: Option<usize>) -> Result<Pipeline, PiperError<TestError>> {
        let plan = plan_start(graph, cap, default_policy(), 4)?;
        let mut lines = Vec::new();
        for index in 0..plan.link_count {
            let user = usize::from(index == plan.input_link);
            lines.push(Line {
                queue: VecDeque::new(),
                stats: LinkStats::default(),
                senders: 1 + user,
                feeder: plan.feeder_links.contains_key(&index),
                shut: false,
                cancelled: false,
            });
        }
        for index in plan.external_nodes.iter().flatten() {
            lines[plan.nodes[*index].output_links[0]].senders += 1;
        }
        let supervisor = Supervisor::new(build_node_controls(&plan.nodes, 0.0));
        let link_controls = vec![LinkControl::starting(0.0); plan.link_count];
        let order = startup_order(&plan.nodes, plan.global_worker_cap);
        let parked_target = parked_worker_target(&plan.nodes);
        let handles = plan.external_nodes.clone();
        let mut pipeline = Pipeline {
            plan,
            lines,
            link_controls,
            supervisor,
            workers: Vec::new(),
            events: Vec::new(),
            failures: Vec::new(),
            pool: Rc::new(RefCell::new(Vec::new())),
            handles,
            parked_target,
            shutdown: false,
            abort: false,
            now: 0,
            snapshot: None,
        };
        for index in order {
            let worker = pipeline.spawn();
            pipeline.assign(worker, index)?;
        }
        pipeline.fill_parked();
        pipeline.observe();
        Ok(pipeline)
    }

    fn spawn(&mut self) -> usize {
        let name = worker_name(self.workers.len());
        let id = self.supervisor.register_worker(name.clone());
        assert_eq!(id, self.workers.len());
        self.workers.push(Worker { name, stats: WorkerStats::default(), job: None });
        id
    }

    fn fill_parked(&mut self) {
        for _ in 0..self.supervisor.missing_parked(self.parked_target) {
            let worker = self.spawn();
            self.supervisor.park_new_worker(worker);
        }
    }

    fn assign(&mut self, worker: usize, index: usize) -> Result<(), PiperError<TestError>> {
        let retire: Retire = Rc::new(RefCell::new(RetireControl::new()));
        let flag: Flag = Rc::new(Cell::new(false));
        let requests: Requests = Rc::new(RefCell::new(VecDeque::new()));
        self.workers[worker].stats.reset();
        let reach = WorkerReach {
            retire: Rc::clone(&retire),
            merge_pending: Rc::clone(&flag),
            merge_sender: Rc::clone(&requests),
        };
        let role = self.supervisor.assign_worker(
            worker,
            index,
            &self.plan.nodes,
            self.plan.input_link,
            reach,
        )?;
        let job = match role {
            WorkerRole::Managed { input_link, output_link, is_input_stage, return_state_on_exit } => {
                self.lines[output_link].senders += 1;
                let (machine, action) = ManagedWorker::begin(None, return_state_on_exit);
                Job::Managed {
                    node: index,
                    machine,
                    action,
                    stage: Rc::clone(&self.plan.nodes[index].stage.as_ref().unwrap().handle),
                    input: input_link,
                    output: output_link,
                    is_input: is_input_stage,
                    retire,
                    flag,
                    requests,
                    waited: 0,
                }
            }
            WorkerRole::Branch { input_link, left_link, right_link, is_input_stage } => {
                self.lines[left_link].senders += 1;
                self.lines[right_link].senders += 1;
                let config = self.plan.nodes[index].weighted_branch_config.unwrap();
                let controller = WeightedBranchController::new(config.target_queue_seconds, 0.0);
                let (machine, action) = BranchWorker::begin(controller);
                Job::Branch {
                    node: index,
                    machine,
                    action,
                    half_life: config.ewma_half_life as f64 / SECOND,
                    last_sample: self.now,
                    input: input_link,
                    outputs: [left_link, right_link],
                    is_input: is_input_stage,
                    retire,
                }
            }
        };
        self.workers[worker].job = Some(job);
        Ok(())
    }

    fn emit(&mut self, link: usize, item: Item) {
        let open = !self.lines[link].cancelled;
        match send_report(open, self.shutdown, self.abort) {
            SendReport::Counted => {
                self.lines[link].queue.push_back(item);
                self.lines[link].stats.note_arrival();
            }
            SendReport::Dropped => {}
            SendReport::Fatal => {
                self.abort = true;
                self.failures.push(node_output_failure());
            }
        }
    }

    fn poll(&mut self, worker: usize, link: usize) -> RecvPoll<Item> {
        let polled = recv_poll(self.lines[link].recv_timeout());
        self.workers[worker].stats.note_wait(if matches!(polled, RecvPoll::Item(_)) { 0 } else { ROUND as u64 });
        if matches!(polled, RecvPoll::Item(_)) {
            self.lines[link].stats.note_drain();
        }
        polled
    }

    fn stops(&self, link: usize, is_input: bool) -> bool {
        let line = &self.lines[link];
        should_stop_on_shutdown_timeout(line.feeder, is_input, line.queue.is_empty())
    }

    /// Lets the worker go on until it has to wait.
    fn run_worker(&mut self, worker: usize) {
        loop {
            let Some(job) = self.workers[worker].job.take() else {
                return;
            };
            let waits = match job {
                Job::Managed { .. } => self.run_managed(worker, job),
                Job::Branch { .. } => self.run_branch(worker, job),
            };
            if waits {
                return;
            }
        }
    }

    fn run_managed(&mut self, worker: usize, job: Job) -> bool {
        let Job::Managed {
            node,
            mut machine,
            action,
            stage,
            input,
            output,
            is_input,
            retire,
            flag,
            requests,
            mut waited,
        } = job
        else {
            panic!("not a managed job");
        };
        let mut waits = false;
        let reply: Reply = match action {
            WorkerAction::Init => WorkerReply::Initialized((stage.init)().map_err(NodeFailure::Init)),
            WorkerAction::Report(report) => {
                let name = self.workers[worker].name.clone();
                self.events.push(worker_event(report, worker, node, &name));
                WorkerReply::Reported
            }
            WorkerAction::LoadAbort | WorkerAction::LoadFinalAbort => WorkerReply::Abort(self.abort),
            WorkerAction::TakeMergeFlag => WorkerReply::MergeFlag(flag.replace(false)),
            WorkerAction::NextMergeRequest => {
                WorkerReply::MergeRequest(requests.borrow_mut().pop_front())
            }
            WorkerAction::ReceiveState { receiver } => {
                WorkerReply::StateReceived(receiver.borrow_mut().take())
            }
            WorkerAction::Merge { mut state, source } => {
                let merge = stage.merge.as_ref().unwrap();
                let result = merge(&mut state, source).map_err(NodeFailure::Merge);
                WorkerReply::Merged { state, result }
            }
            WorkerAction::TakeRetire => WorkerReply::Retire(retire.borrow_mut().take_request()),
            WorkerAction::Poll => {
                let polled = self.poll(worker, input);
                waits = !matches!(polled, RecvPoll::Item(_));
                WorkerReply::Polled(polled)
            }
            WorkerAction::Process { mut state, item } => {
                if waited < stage.rounds {
                    let action = WorkerAction::Process { state, item };
                    waited += 1;
                    self.workers[worker].job = Some(Job::Managed {
                        node, machine, action, stage, input, output, is_input, retire, flag, requests, waited,
                    });
                    return true;
                }
                waited = 0;
                waits = true;
                let result = match (stage.process)(&mut state, item) {
                    Ok(out) => {
                        self.emit(output, out);
                        Ok(())
                    }
                    Err(error) => Err(NodeFailure::Process(error)),
                };
                let nanos = u64::from(stage.rounds.max(1)) * ROUND as u64;
                self.workers[worker].stats.note_processing(nanos, result.is_ok());
                WorkerReply::Processed { state, result }
            }
            WorkerAction::LoadStop => WorkerReply::Stop {
                abort: self.abort,
                terminated: self.lines[input].is_terminated(),
                shutdown: self.shutdown,
                stops_on_shutdown: self.stops(input, is_input),
            },
            WorkerAction::Transfer { state, sender } => {
                *sender.borrow_mut() = Some(state);
                WorkerReply::Transferred(true)
            }
            WorkerAction::Cleanup { state } => {
                WorkerReply::CleanedUp((stage.cleanup)(state).map_err(NodeFailure::Cleanup))
            }
            WorkerAction::Finish => {
                self.lines[output].senders -= 1;
                return true;
            }
        };
        let action = machine.advance(reply);
        self.workers[worker].job = Some(Job::Managed {
            node, machine, action, stage, input, output, is_input, retire, flag, requests, waited,
        });
        waits
    }

    fn run_branch(&mut self, worker: usize, job: Job) -> bool {
        let Job::Branch {
            node,
            mut machine,
            action,
            half_life,
            mut last_sample,
            input,
            outputs,
            is_input,
            retire,
        } = job
        else {
            panic!("not a branch job");
        };
        let mut waits = false;
        let reply = match action {
            BranchAction::ReportStarted => {
                self.events.push(WorkerEvent::Started { worker_id: worker });
                BranchReply::Reported
            }
            BranchAction::LoadAbort => BranchReply::Abort(self.abort),
            BranchAction::TakeRetire => BranchReply::Retire(retire.borrow_mut().take_request().is_some()),
            BranchAction::Poll => {
                let polled = self.poll(worker, input);
                waits = !matches!(polled, RecvPoll::Item(_));
                BranchReply::Polled(polled)
            }
            BranchAction::LoadElapsed => {
                BranchReply::Elapsed { elapsed: self.now - last_sample, interval: ROUND }
            }
            BranchAction::SampleArms => {
                let left_counts = self.lines[outputs[0]].counts();
                let right_counts = self.lines[outputs[1]].counts();
                let seconds = ((self.now - last_sample) as f64 / SECOND).max(0.000_001);
                last_sample = self.now;
                let alpha = 1.0 - 0.5_f64.powf(seconds / half_life);
                BranchReply::Sampled(ArmSamples {
                    left_counts,
                    left_rates: arm_rates(&machine.controller.left, &left_counts, seconds, alpha),
                    right_counts,
                    right_rates: arm_rates(&machine.controller.right, &right_counts, seconds, alpha),
                })
            }
            BranchAction::CompareFill => {
                let target = machine.controller.target_queue_seconds;
                let fill_of = |line: usize, arm| fill(arm, self.lines[line].counts().queue_len.unwrap(), target);
                let left_fill = fill_of(outputs[0], &machine.controller.left);
                let right_fill = fill_of(outputs[1], &machine.controller.right);
                BranchReply::Compared(if left_fill < right_fill {
                    FillOrder::LeftLower
                } else if right_fill < left_fill {
                    FillOrder::RightLower
                } else {
                    FillOrder::Tie
                })
            }
            BranchAction::Route { item, left } => {
                self.emit(outputs[if left { 0 } else { 1 }], item);
                self.workers[worker].stats.note_item();
                BranchReply::Routed
            }
            BranchAction::LoadStop => BranchReply::Stop {
                terminated: self.lines[input].is_terminated(),
                shutdown: self.shutdown,
                stops_on_shutdown: self.stops(input, is_input),
            },
            BranchAction::ReportParked => {
                self.events.push(WorkerEvent::Parked {
                    worker_id: worker,
                    node_index: node,
                    returned_state: None,
                });
                BranchReply::Reported
            }
            BranchAction::Finish => {
                self.lines[outputs[0]].senders -= 1;
                self.lines[outputs[1]].senders -= 1;
                return true;
            }
        };
        let action = machine.advance(reply);
        self.workers[worker].job = Some(Job::Branch {
            node, machine, action, half_life, last_sample, input, outputs, is_input, retire,
        });
        waits
    }

    fn apply_events(&mut self) {
        for event in std::mem::take(&mut self.events) {
            let (abort, follow_up) = self.supervisor.apply_event(event, self.now);
            self.abort |= abort;
            if let FollowUp::RequestMerge { source_worker_id, target_worker_id, state_receiver } = follow_up {
                let target = &self.supervisor.workers[target_worker_id];
                let requests = Rc::clone(target.merge_sender.as_ref().unwrap());
                requests.borrow_mut().push_back((source_worker_id, state_receiver));
                let (abort, told) = self.supervisor.merge_requested(true);
                self.abort |= abort;
                if let Some(told) = told {
                    self.supervisor.workers[told].merge_pending.as_ref().unwrap().set(true);
                }
            }
        }
        let failures = std::mem::take(&mut self.failures);
        let abort = drain_internal_failures(failures, &mut self.supervisor.stored_failure);
        self.abort |= abort;
    }

    fn sample(&mut self) {
        let counts: Vec<LinkCounts> = self.lines.iter().map(Line::counts).collect();
        let rates: Vec<LinkRates<f64>> = self
            .link_controls
            .iter()
            .zip(&counts)
            .map(|(control, counts)| link_rates(control, counts))
            .collect();
        sample_links(&counts, &rates, &mut self.link_controls);

        let mut samples = Vec::new();
        for active in &self.supervisor.active_by_node {
            let parts: Vec<NodeSample> =
                active.iter().map(|worker| self.workers[*worker].stats.take()).collect();
            samples.push(sum_samples(&parts));
        }
        let measures: Vec<NodeMeasures<f64>> = (0..samples.len())
            .map(|index| self.measure(index, &samples[index]))
            .collect();
        collect_node_samples(&samples, &measures, &mut self.supervisor.controls, self.now);
        let demands: Vec<NodeDemand<f64>> =
            (0..samples.len()).map(|index| self.demand(index)).collect();
        update_desired_workers(
            &self.link_controls,
            &self.supervisor.active_by_node,
            &self.plan.nodes,
            &demands,
            &mut self.supervisor.controls,
        );
    }

    fn measure(&self, index: usize, sample: &NodeSample) -> NodeMeasures<f64> {
        let control = &self.supervisor.controls[index];
        let total = sample.process_nanos.saturating_add(sample.wait_nanos);
        let busy_ratio = if total > 0 {
            sample.process_nanos as f64 / total as f64
        } else {
            control.busy_ratio
        };
        let mut service_time_ewma = control.service_time_ewma;
        let mut per_worker_throughput = control.per_worker_throughput;
        if sample.processed_items > 0 && sample.process_nanos > 0 {
            let service = sample.process_nanos as f64 / sample.processed_items as f64;
            service_time_ewma = ewma(service_time_ewma, service, 0.30);
            per_worker_throughput = SECOND / service_time_ewma.max(1.0);
        }
        let input = &self.link_controls[self.plan.nodes[index].input_link];
        let backlog_seconds = if per_worker_throughput > 0.0 {
            backlog(input) / per_worker_throughput
        } else {
            0.0
        };
        let underutilized = match control.thread_policy {
            ResolvedThreadPolicy::Scalable(policy) => {
                backlog_seconds <= policy.low_queue_seconds
                    && busy_ratio < policy.underutilized_busy_ratio
            }
            _ => false,
        };
        NodeMeasures { busy_ratio, service_time_ewma, per_worker_throughput, backlog_seconds, underutilized }
    }

    fn demand(&self, index: usize) -> NodeDemand<f64> {
        let control = &self.supervisor.controls[index];
        let input = &self.link_controls[self.plan.nodes[index].input_link];
        let throughput = control.per_worker_throughput;
        let target = match control.thread_policy {
            ResolvedThreadPolicy::Scalable(policy) => policy.target_queue_seconds,
            _ => 1.0,
        };
        let mut required = input.arrival_rate.max(0.0);
        if input.trend.is_growing() {
            required += input.net_rate.max(0.0) + backlog(input);
        }
        NodeDemand {
            measured: throughput > 0.0,
            backlog_seconds: backlog(input) / throughput,
            for_arrivals: (input.arrival_rate / throughput).ceil().max(1.0) as usize,
            for_backlog: (backlog(input) / (target * throughput)).ceil().max(1.0) as usize,
            for_support: (required / throughput).ceil().max(1.0) as usize,
        }
    }

    fn scale(&mut self) {
        if !self.supervisor.may_scale(self.shutdown, self.abort) {
            return;
        }
        let readings: Vec<LoadReading> = self
            .supervisor
            .controls
            .iter()
            .map(|control| {
                let (target, low) = match control.thread_policy {
                    ResolvedThreadPolicy::Scalable(policy) => {
                        (policy.target_queue_seconds, policy.low_queue_seconds)
                    }
                    _ => (1.0, 0.0),
                };
                LoadReading {
                    backlog_to_target: standing(control.backlog_seconds, target),
                    backlog_to_low: standing(control.backlog_seconds, low),
                    seldom_busy: control.busy_ratio <= 0.60,
                }
            })
            .collect();
        let operation = choose_scale_operation(
            &self.link_controls,
            &self.supervisor.active_by_node,
            &mut self.supervisor.controls,
            &readings,
            &self.plan.nodes,
            self.plan.output_link,
            self.plan.global_worker_cap,
            self.now,
        );
        match self.supervisor.take_task(operation, &self.plan.nodes) {
            ScaleTask::Nothing => {}
            ScaleTask::Seat { worker_id, node_index } => self.add(worker_id, node_index),
            ScaleTask::SpawnAndSeat { node_index } => {
                let worker = self.spawn();
                self.add(worker, node_index);
            }
            ScaleTask::Cleanup { worker_id, node_index } => {
                let retire = self.supervisor.workers[worker_id].retire.as_ref().unwrap();
                retire.borrow_mut().request_cleanup();
                self.supervisor.begin_cleanup(worker_id, node_index);
            }
            ScaleTask::Transfer { source_worker_id, target_worker_id, node_index } => {
                let slot: StateSlot = Rc::new(RefCell::new(None));
                let retire = self.supervisor.workers[source_worker_id].retire.as_ref().unwrap();
                retire.borrow_mut().request_transfer(Rc::clone(&slot));
                self.supervisor.begin_transfer(source_worker_id, target_worker_id, node_index, slot);
            }
        }
    }

    fn add(&mut self, worker: usize, node_index: usize) {
        self.assign(worker, node_index).unwrap();
        self.supervisor.begin_add(worker, node_index);
        self.fill_parked();
    }

    fn observe(&mut self) {
        let queue_lens: Vec<Option<usize>> = self.lines.iter().map(Line::queue_len).collect();
        let service_times: Vec<u64> = self
            .supervisor
            .controls
            .iter()
            .map(|control| control.service_time_ewma.max(0.0).min(u64::MAX as f64) as u64)
            .collect();
        let status = PipelineStatus {
            parked_threads: self.supervisor.parked.len(),
            global_worker_cap: self.plan.global_worker_cap,
            shutdown_requested: self.shutdown,
            abort_requested: self.abort,
            pending_scale_operation: self.supervisor.pending_scale.is_some(),
        };
        self.snapshot = Some(update_snapshot(
            &queue_lens,
            &self.plan.nodes,
            &self.supervisor.active_by_node,
            &self.link_controls,
            &self.supervisor.controls,
            &service_times,
            self.plan.output_link,
            status,
            0.0,
        ));
    }

    /// One round: the workers go on, and the supervisor looks after them once.
    fn round(&mut self) {
        self.now += ROUND;
        for worker in 0..self.workers.len() {
            self.run_worker(worker);
        }
        self.apply_events();
        let action = self.supervisor.release_links(self.shutdown, self.abort);
        if action != LinkAction::Keep {
            for line in &mut self.lines {
                line.senders -= 1;
                line.shut = true;
                line.cancelled |= line.feeder && action == LinkAction::Abort;
            }
        }
        self.sample();
        self.scale();
        self.observe();
    }

    fn rounds(&mut self, count: usize) {
        for _ in 0..count {
            self.round();
        }
    }

    fn telemetry(&self) -> &PiperSnapshot<f64, u64> {
        self.snapshot.as_ref().unwrap()
    }

    fn send(&mut self, value: u32) -> Result<(), SendInputError> {
        let sent = if self.shutdown { None } else { Some(true) };
        let result = input_sent(self.shutdown, sent);
        if result.is_ok() {
            let input = self.plan.input_link;
            self.lines[input].queue.push_back(Item::Number(value));
            self.lines[input].stats.note_arrival();
        }
        result
    }

    fn try_recv(&mut self) -> Result<Item, TryRecvOutputError> {
        let output = self.plan.output_link;
        let received = self.lines[output].try_recv();
        if received.is_ok() {
            self.lines[output].stats.note_drain();
        }
        try_received_output(received.map(Some))
    }

    /// What comes out within a second.
    fn recv(&mut self) -> Item {
        for _ in 0..1000 {
            if let Ok(item) = self.try_recv() {
                return item;
            }
            self.round();
        }
        panic!("nothing came out");
    }

    fn take_external(&mut self, token: usize) -> usize {
        take_external_node(&mut self.handles, token)
    }

    fn external_recv(&mut self, handle: usize) -> Result<Item, RecvOutputError> {
        let input = self.plan.nodes[handle].input_link;
        let received = self.lines[input].recv_timeout();
        if received.is_ok() {
            self.lines[input].stats.note_drain();
        }
        received_output(received.map(Some))
    }

    fn external_try_recv(&mut self, handle: usize) -> Result<Item, TryRecvOutputError> {
        let input = self.plan.nodes[handle].input_link;
        try_received_output(self.lines[input].try_recv().map(Some))
    }

    fn external_send(&mut self, handle: usize, item: Item) -> Result<(), SendInputError> {
        let output = self.plan.nodes[handle].output_links[0];
        let open = !self.lines[output].cancelled;
        match send_report(open, self.shutdown, self.abort) {
            SendReport::Counted => {
                self.lines[output].queue.push_back(item);
                self.lines[output].stats.note_arrival();
                Ok(())
            }
            SendReport::Dropped => Err(SendInputError),
            SendReport::Fatal => {
                self.abort = true;
                let name = self.plan.nodes[handle].name.clone();
                self.failures.push(external_output_failure(&name));
                Err(SendInputError)
            }
        }
    }

    fn external_acquire(&mut self, handle: usize) -> Item {
        let factory = self.plan.nodes[handle].output_acquire.as_ref().expect(
            "external_node.acquire_output() was called for an external node without a reusable output factory",
        );
        let value = self.pool.borrow_mut().pop().unwrap_or_else(|| factory());
        Item::Lease(BufferLease::new(value))
    }

    fn external_fail(&mut self, handle: usize, error: TestError) {
        let name = self.plan.nodes[handle].name.clone();
        self.failures.push(InternalFailure::external(name, Some(error)));
        self.abort = true;
    }

    /// Another handle on the same node, which holds its output open too.
    fn clone_external(&mut self, handle: usize) -> usize {
        let output = self.plan.nodes[handle].output_links[0];
        self.lines[output].senders += 1;
        handle
    }

    fn drop_external(&mut self, handle: usize) {
        let output = self.plan.nodes[handle].output_links[0];
        self.lines[output].senders -= 1;
    }

    /// Gives the buffer back, emptied.
    fn give_back(&mut self, mut lease: BufferLease<Vec<u32>>) {
        if let Some(value) = lease.take_recycled() {
            self.pool.borrow_mut().push(value);
        }
    }

    fn finish(mut self) -> (Result<Vec<usize>, PiperError<TestError>>, Pipeline) {
        self.shutdown = true;
        for handle in std::mem::take(&mut self.handles).into_iter().flatten() {
            self.drop_external(handle);
        }
        for _ in 0..10_000 {
            self.round();
            if self.supervisor.is_done(self.shutdown, self.abort) {
                let controls = self.supervisor.controls.clone();
                let supervisor = std::mem::replace(&mut self.supervisor, Supervisor::new(controls));
                return (supervisor.into_result(), self);
            }
        }
        panic!("the pipeline does not end");
    }

    fn join(self) -> Result<(), PiperError<TestError>> {
        self.finish().0.map(|_| ())
    }

    fn join_states(self) -> Result<Vec<usize>, PiperError<TestError>> {
        let states = self.finish().0?;
        returned_states(states.into_iter().map(Some).collect())
    }

    fn join_merged(self) -> Result<usize, PiperError<TestError>> {
        let stage = self
            .plan
            .return_state_node
            .and_then(|index| self.plan.nodes[index].stage.as_ref())
            .map(|stage| Rc::clone(&stage.handle));
        check_merge(stage.as_ref().map(|stage| stage.merge.is_some()))?;
        let stage = stage.unwrap();
        let mut run = begin_merge(self.finish().0?)?;
        while let Some(state) = run.next() {
            let merge = stage.merge.as_ref().unwrap();
            merge(&mut run.merged, state).map_err(|error| merge_failed(NodeFailure::Merge(error)))?;
        }
        merged_state(Some(run.merged))
    }
}

fn start<Out>(graph: Graph<Out>) -> Pipeline {
    Pipeline::start(graph, Some(8)).unwrap()
}

fn merge_usize(target: &mut usize, source: usize) -> Result<(), TestError> {
    *target += source;
    Ok(())
}

#[test]
fn state_returning_final_node_join_returns_worker_states() {
    let mut builder = Builder::new();
    let input = builder.input();
    let output: GraphLink<u32> =
        builder.add_node(input, managed("count", counting_final()).fixed_threads(2));
    let graph = builder.finish_with_state::<u32, usize>(output).graph;
    let mut piper = start(graph);

    for value in 0..10 {
        piper.send(value).unwrap();
    }
    piper.shutdown = true;
    for _ in 0..10 {
        piper.recv();
    }

    let states = piper.join_states().unwrap();
    assert_eq!(states.iter().sum::<usize>(), 10);
    assert_eq!(states.len(), 2);
}

#[test]
fn state_returning_mergeable_final_node_join_merged_returns_one_state() {
    let mut builder = Builder::new();
    let input = builder.input();
    let output: GraphLink<u32> = builder.add_node(
        input,
        mergeable("count", counting_final(), merge_usize).fixed_threads(2),
    );
    let graph = builder.finish_with_merged_state::<u32, usize>(output).graph;
    let mut piper = start(graph);

    for value in 0..12 {
        piper.send(value).unwrap();
    }
    piper.shutdown = true;
    for _ in 0..12 {
        piper.recv();
    }

    assert_eq!(piper.join_merged().unwrap(), 12);
}

#[test]
fn merge_scale_down_preserves_state_and_runs_on_target_worker() {
    let processed = Rc::new(Cell::new(0));
    let merges = Rc::new(Cell::new(0));
    let counted = Rc::clone(&processed);
    let stage = Stage::of(move |state, item| {
        *state += 1;
        counted.set(counted.get() + 1);
        Ok(item)
    })
    .slow(2);
    let seen = Rc::clone(&merges);
    let merge = move |target: &mut usize, source: usize| {
        seen.set(seen.get() + 1);
        merge_usize(target, source)
    };
    let policy = NodeScalePolicy {
        initial_threads: 1,
        max_threads: 4,
        target_queue_seconds: 0.001,
        low_queue_seconds: 0.001,
        scale_down_after: 10 * ROUND,
        underutilized_busy_ratio: 0.95,
    };
    let mut builder = Builder::new();
    let input = builder.input();
    let output: GraphLink<u32> =
        builder.add_node(input, mergeable("count", stage, merge).with_scale_policy(policy));
    let graph = builder.finish_with_merged_state::<u32, usize>(output).graph;
    let mut piper = start(graph);

    for value in 0..160 {
        piper.send(value).unwrap();
    }
    let mut saw_scale_up = false;
    let mut received = 0;
    for _ in 0..5_000 {
        piper.round();
        while piper.try_recv().is_ok() {
            received += 1;
        }
        saw_scale_up |= piper.telemetry().nodes[0].active_threads > 1;
        if received == 160 && merges.get() > 0 {
            break;
        }
    }
    assert!(saw_scale_up, "node did not scale up before workload completed");
    assert!(merges.get() > 0, "node did not perform a merge-down");

    piper.shutdown = true;
    assert_eq!(received, 160);
    assert_eq!(piper.join_merged().unwrap(), 160);
    assert_eq!(processed.get(), 160);
}

#[test]
fn associated_type_stages_stream_outputs_and_default_cleanup_is_optional() {
    let mut builder = Builder::new();
    let input = builder.input();
    let doubled: GraphLink<u32> =
        builder.add_node(input, anchor(managed("double", double())).max_threads(1));
    let output: GraphLink<String> = builder.add_node(doubled, managed("format", format_value()));
    let mut piper = start(builder.finish(output));

    for value in 1..=3 {
        piper.send(value).unwrap();
    }
    piper.shutdown = true;

    let mut outputs = Vec::new();
    for _ in 0..3 {
        outputs.push(text(piper.recv()));
    }

    piper.join().unwrap();
    outputs.sort();
    assert_eq!(outputs, ["value=2", "value=4", "value=6"]);
}

#[test]
fn get_telemetry_reports_operational_state() {
    let mut builder = Builder::new();
    let input = builder.input();
    let left: GraphLink<u32> = builder.add_node(input, managed("left", pass()));
    let output: GraphLink<u32> =
        builder.add_node(left, anchor(managed("right", pass())).max_threads(1));
    let mut piper = start(builder.finish(output));

    piper.rounds(20);
    let telemetry = piper.telemetry();

    assert_eq!(telemetry.links.len(), 3);
    assert_eq!(telemetry.nodes.len(), 2);
    assert_eq!(telemetry.nodes[0].active_threads, 1);
    assert_eq!(telemetry.nodes[1].active_threads, 1);
    assert_eq!(telemetry.anchors.len(), 1);
    assert_eq!(telemetry.anchors[0].node_index, 1);
    assert_eq!(telemetry.nodes[1].max_thread_count, Some(1));
    assert_eq!(telemetry.global_worker_cap, 8);
    assert_eq!(telemetry.total_active_workers, 2);
    assert!(telemetry.nodes.iter().any(|stage| stage.is_anchor));
    assert!(telemetry.parked_threads >= 2);

    piper.abort = true;
    piper.join().unwrap();
}

#[test]
fn fixed_anchor_does_not_reserve_parked_worker() {
    let mut piper = start(one_stage_graph(anchor(managed("fixed", pass())).fixed_threads(1)));

    piper.rounds(20);
    let telemetry = piper.telemetry();

    assert_eq!(telemetry.nodes.len(), 1);
    assert_eq!(telemetry.nodes[0].active_threads, 1);
    assert_eq!(telemetry.nodes[0].thread_policy_kind, NodeThreadPolicyKind::Fixed);
    assert!(telemetry.nodes[0].is_anchor);
    assert_eq!(telemetry.parked_threads, 0);

    piper.abort = true;
    piper.join().unwrap();
}

#[test]
fn abort_skips_inline_builder_cleanup() {
    let cleaned = Rc::new(Cell::new(false));
    let seen = Rc::clone(&cleaned);
    let stage = pass().with_cleanup(move |_| {
        seen.set(true);
        Ok(())
    });
    let mut piper = start(one_stage_graph(anchor(managed("cleanup", stage)).max_threads(1)));

    piper.abort = true;
    piper.join().unwrap();

    assert!(!cleaned.get());
}

#[test]
fn cleanup_failure_is_reported_from_join() {
    let stage = pass().with_cleanup(|_| Err(TestError::Test));
    let mut piper = start(one_stage_graph(anchor(managed("cleanup", stage)).max_threads(1)));

    piper.shutdown = true;
    let error = piper.join().expect_err("cleanup failure should fail join");
    assert!(matches!(error, PiperError::UserCleanup { .. }));
}

#[test]
fn user_process_failure_fails_pipeline() {
    let mut piper = start(one_stage_graph(anchor(managed("fail", fail())).max_threads(1)));

    piper.send(1).unwrap();
    let error = piper.join().expect_err("process error should fail join");
    assert!(matches!(error, PiperError::UserProcess { .. }));
}

#[test]
fn user_init_failure_fails_pipeline() {
    let mut stage = pass();
    stage.init = Box::new(|| Err(TestError::Test));
    let piper = start(one_stage_graph(managed("init", stage)));

    let error = piper.join().expect_err("init error should fail join");
    let PiperError::UserInit { worker, error } = error else {
        panic!("not an init error");
    };
    assert_eq!(worker, "piper-worker-0");
    assert_eq!(error, TestError::Test);
}

#[test]
fn fork_join_graph_work_shares_and_merges_outputs() {
    let left = Rc::new(Cell::new(0));
    let right = Rc::new(Cell::new(0));
    let mut builder = Builder::new();
    let input = builder.input();
    let fork: GraphLink<u32> = builder.add_node(input, managed("prepare", pass()));
    let merged: GraphLink<u32> = builder.link();
    builder.add_node_to(fork, managed("left", count_pass(&left)), merged);
    builder.add_node_to(fork, anchor(managed("right", count_pass(&right))).fixed_threads(1), merged);
    let mut piper = start(builder.finish(merged));

    for value in 0..100 {
        piper.send(value).unwrap();
    }
    piper.shutdown = true;
    for _ in 0..100 {
        piper.recv();
    }

    assert_eq!(left.get() + right.get(), 100);
    assert_eq!(piper.telemetry().anchors.len(), 1);
    assert_eq!(
        piper.telemetry().nodes.iter().find(|n| n.is_anchor).unwrap().fixed_thread_count,
        Some(1)
    );
    piper.join().unwrap();
}

/// One turn of a loop that adds one to what comes in.
fn bridge(piper: &mut Pipeline, external: usize) {
    match piper.external_recv(external) {
        Ok(item) => {
            let value = number(item);
            piper.external_send(external, Item::Number(value + 1)).unwrap();
        }
        Err(RecvOutputError::Timeout) | Err(RecvOutputError::Closed) => {}
        Err(error) => panic!("external recv failed: {}", error.describe()),
    }
}

#[test]
fn external_node_bridges_user_loop_into_managed_node() {
    let mut builder = Builder::new();
    let input = builder.input();
    let external_output: GraphLink<u32> = builder.link();
    let token = builder.add_external_node_to(input, "external".to_string(), external_output);
    let output: GraphLink<u32> = builder.add_node(external_output, managed("pass", pass()));
    let mut piper = start(builder.finish(output));
    let external = piper.take_external(token.index());

    piper.send(41).unwrap();
    piper.shutdown = true;
    bridge(&mut piper, external);
    assert_eq!(number(piper.recv()), 42);
    piper.drop_external(external);
    piper.join().unwrap();
}

#[test]
fn external_node_acquires_reusable_output_buffer() {
    let factory_count = Rc::new(Cell::new(0));
    let counted = Rc::clone(&factory_count);
    let factory: Factory = Rc::new(move || {
        counted.set(counted.get() + 1);
        Vec::new()
    });

    let mut builder = Builder::new();
    let input = builder.input();
    let external_output: GraphLink<BufferLease<Vec<u32>>> = builder.link();
    let token = builder.add_external_node_to_with_reusable_output(
        input,
        "external".to_string(),
        external_output,
        factory,
    );
    let mut piper = start(builder.finish(external_output));
    let external = piper.take_external(token.index());

    for round in 1..=2 {
        piper.send(round).unwrap();
        let value = number(piper.external_recv(external).unwrap());
        let Item::Lease(mut lease) = piper.external_acquire(external) else {
            panic!("not a lease");
        };
        lease.get_mut().push(value);
        piper.external_send(external, Item::Lease(lease)).unwrap();
        let Item::Lease(received) = piper.recv() else {
            panic!("not a lease");
        };
        assert_eq!(received.get(), &vec![round]);
        piper.give_back(received);
    }

    assert_eq!(factory_count.get(), 1);

    piper.shutdown = true;
    piper.drop_external(external);
    piper.join().unwrap();
}

#[test]
fn external_node_failure_is_reported_from_join() {
    let mut builder = Builder::new();
    let input = builder.input();
    let output: GraphLink<u32> = builder.link();
    let token = builder.add_external_node_to(input, "external".to_string(), output);
    let mut piper = start(builder.finish(output));
    let external = piper.take_external(token.index());

    piper.external_fail(external, TestError::Test);
    piper.drop_external(external);
    piper.rounds(50);
    let error = piper.join().expect_err("external failure should fail join");
    assert!(matches!(
        error,
        PiperError::ExternalNode {
            node,
            error: TestError::Test
        } if node == "external"
    ));
}

#[test]
fn join_drops_canonical_external_handles_before_supervisor_join() {
    let mut builder = Builder::new();
    let input = builder.input();
    let output: GraphLink<u32> = builder.link();
    let _token = builder.add_external_node_to(input, "external".to_string(), output);
    let piper = start(builder.finish(output));

    piper.join().unwrap();
}

const EXTERNAL_JOIN: &str = r#"
    struct ExternalJoinPipeline {
        type Input = u32;
        type Output = u32;
        type Error = TestError;

        config = config();
        nodes = {
            external = external_node(u32, u32),
            pass = node("pass", Pass),
        };
        graph = {
            input -> external;
            external -> pass;
            pass -> output;
        };
    }
"#;

#[test]
fn generated_run_join_drops_external_handles_before_supervisor_join() {
    let declared = parse_pipeline(&EXTERNAL_JOIN.parse().unwrap()).unwrap();
    let (plan, returns) = plan_expansion(&declared).unwrap();
    assert_eq!(returns, None);
    let ExpansionPlan::Named(wiring) = plan else {
        panic!("the nodes have names");
    };
    let NodeDecls::Named(nodes) = &declared.nodes else {
        panic!("the nodes have names");
    };
    let mut builder = Builder::new();
    let links: Vec<GraphLink<u32>> = (0..wiring.link_count)
        .map(|index| if index == wiring.input_link { builder.input() } else { builder.link() })
        .collect();
    for (declaration, (from, to)) in nodes.iter().zip(&wiring.node_links) {
        let (input, output) = (links[*from], links[*to]);
        match &declaration.kind {
            NamedNodeKind::Managed(_) => {
                builder.add_node_to(input, managed(&declaration.name, pass()), output);
            }
            NamedNodeKind::External { .. } => {
                let _ = builder.add_external_node_to(input, declaration.name.clone(), output);
            }
        }
    }
    let output = links[wiring.output_link];

    let run = start(builder.finish(output));
    run.join().unwrap();
}

#[test]
fn external_node_telemetry_uses_link_rates() {
    let mut builder = Builder::new();
    let input = builder.input();
    let output: GraphLink<u32> = builder.link();
    let token = builder.add_external_node_to(input, "external".to_string(), output);
    let mut piper = start(builder.finish(output));
    let external = piper.take_external(token.index());

    piper.send(7).unwrap();
    let value = number(piper.external_recv(external).unwrap());
    piper.external_send(external, Item::Number(value + 1)).unwrap();
    piper.rounds(20);

    let telemetry = piper.telemetry();
    let external_stage =
        telemetry.nodes.iter().find(|stage| stage.name == "external").unwrap();
    assert!(external_stage.is_external);
    assert_eq!(external_stage.active_threads, 0);
    assert_eq!(external_stage.busy_ratio, 0.0);
    assert_eq!(external_stage.service_time, 0);
    assert_eq!(external_stage.per_worker_throughput, 0.0);
    assert!(external_stage.external_input_rate > 0.0);
    assert!(external_stage.external_output_rate > 0.0);

    assert_eq!(number(piper.recv()), 8);
    piper.shutdown = true;
    piper.drop_external(external);
    piper.join().unwrap();
}

#[test]
fn piper_allows_zero_or_multiple_anchors() {
    let mut no_anchor = start(one_stage_graph(managed("pass", pass())));
    no_anchor.abort = true;
    no_anchor.join().unwrap();

    let mut builder = Builder::new();
    let input = builder.input();
    let left: GraphLink<u32> = builder.add_node(input, anchor(managed("left", pass())).max_threads(1));
    let output: GraphLink<u32> =
        builder.add_node(left, anchor(managed("right", pass())).max_threads(1));
    let mut two_anchors = start(builder.finish(output));
    assert_eq!(two_anchors.telemetry().anchors.len(), 2);
    two_anchors.abort = true;
    two_anchors.join().unwrap();
}

fn branch_config(target: f64, half_life: u128) -> SingleThreadWeightedBranchConfig<f64> {
    SingleThreadWeightedBranchConfig {
        target_queue_seconds: target,
        target_is_usable: !(target <= 0.0) && target.is_finite(),
        ewma_half_life: half_life,
    }
}

fn weighted_branch_graph(left_stage: Spec<u32, u32>, right_stage: Spec<u32, u32>) -> Graph<u32> {
    let mut builder = Builder::new();
    let input = builder.input();
    let branch_links = builder.add_single_thread_weighted_branch(
        input,
        "branch".to_string(),
        branch_config(0.5, 25 * ROUND),
    );
    let merged: GraphLink<u32> = builder.link();
    builder.add_node_to(branch_links.left, left_stage, merged);
    builder.add_node_to(branch_links.right, right_stage, merged);
    let output: GraphLink<u32> = builder.add_node(merged, managed("merge", pass()));
    builder.finish(output)
}

#[test]
fn weighted_branch_routes_each_input_exactly_once() {
    let left = Rc::new(Cell::new(0));
    let right = Rc::new(Cell::new(0));
    let mut piper = start(weighted_branch_graph(
        managed("left", count_pass(&left)),
        managed("right", count_pass(&right)),
    ));

    for value in 0..100 {
        piper.send(value).unwrap();
    }
    for _ in 0..100 {
        piper.recv();
    }

    assert_eq!(left.get() + right.get(), 100);
    piper.shutdown = true;
    piper.join().unwrap();
}

#[test]
fn weighted_branch_routes_more_to_faster_downstream_after_backlog() {
    let left = Rc::new(Cell::new(0));
    let right = Rc::new(Cell::new(0));
    let mut piper = start(weighted_branch_graph(
        managed("slow", count_pass(&left).slow(25)),
        managed("fast", count_pass(&right)),
    ));

    for value in 0..400 {
        piper.send(value).unwrap();
        if value % 4 == 3 {
            piper.rounds(2);
        }
    }
    piper.rounds(2_000);
    piper.shutdown = true;
    piper.join().unwrap();

    let left_count = left.get();
    let right_count = right.get();
    assert_eq!(left_count + right_count, 400);
    assert!(right_count > left_count);
    assert!(right_count > left_count + left_count / 4);
}

#[test]
fn weighted_branch_snapshot_reports_output_links() {
    let mut piper = start(weighted_branch_graph(managed("left", pass()), managed("right", pass())));

    piper.rounds(20);
    let telemetry = piper.telemetry();
    let branch =
        telemetry.nodes.iter().find(|stage| stage.name == "branch").expect("branch stage");
    assert_eq!(branch.output_links.len(), 2);
    assert_eq!(branch.output_link, branch.output_links[0]);
    assert_eq!(branch.active_threads, 1);
    assert_eq!(branch.desired_workers, 1);
    assert!(!branch.is_anchor);
    assert!(!branch.is_external);

    let merge = telemetry.nodes.iter().find(|stage| stage.name == "merge").expect("merge stage");
    assert_eq!(merge.output_links.len(), 1);

    piper.abort = true;
    piper.join().unwrap();
}

#[test]
fn weighted_branch_rejects_feeder_on_output_links() {
    let mut builder = Builder::new();
    let input = builder.input();
    let left: GraphLink<u32> = builder.link();
    let right: GraphLink<u32> = builder.link();
    builder.feeder_link(left, FeederLinkConfig::default());
    builder.add_single_thread_weighted_branch_to(
        input,
        "branch".to_string(),
        left,
        right,
        branch_config(4.0, 1_000 * ROUND),
    );
    let merged: GraphLink<u32> = builder.link();
    builder.add_node_to(left, managed("left", pass()), merged);
    builder.add_node_to(right, managed("right", pass()), merged);
    let output: GraphLink<u32> = builder.add_node(merged, managed("merge", pass()));
    let graph = builder.finish(output);

    let Err(error) = Pipeline::start(graph, Some(8)) else {
        panic!("feeder output on weighted branch should fail");
    };
    assert!(matches!(error, PiperError::UnsupportedWeightedBranchFeederOutput { .. }));
}

fn feeder_config() -> FeederLinkConfig {
    FeederLinkConfig::new(2, 1, 2)
}

#[test]
fn feeder_boundary_input_external_output() {
    let mut builder = Builder::new();
    let input = builder.input();
    let output: GraphLink<u32> = builder.link();
    builder.feeder_link(input, feeder_config());
    builder.feeder_link(output, feeder_config());
    let token = builder.add_external_node_to(input, "external".to_string(), output);
    let mut piper = start(builder.finish(output));
    let external = piper.take_external(token.index());

    piper.send(3).unwrap();
    let value = number(piper.external_recv(external).unwrap());
    piper.external_send(external, Item::Number(value + 1)).unwrap();
    assert_eq!(number(piper.recv()), 4);
    piper.shutdown = true;
    piper.drop_external(external);
    piper.join().unwrap();
}

#[test]
fn feeder_external_input_clone_drains_concurrently() {
    let mut builder = Builder::new();
    let input = builder.input();
    let output: GraphLink<u32> = builder.link();
    builder.feeder_link(input, feeder_config());
    let token = builder.add_external_node_to(input, "external".to_string(), output);
    let mut piper = start(builder.finish(output));
    let external_a = piper.take_external(token.index());
    let external_b = piper.clone_external(external_a);

    const ITEMS: u32 = 16;
    for value in 0..ITEMS {
        piper.send(value).unwrap();
    }
    piper.shutdown = true;
    let mut received = [0; 2];
    let mut open = [true, true];
    while open[0] || open[1] {
        for (which, external) in [external_a, external_b].into_iter().enumerate() {
            if !open[which] {
                continue;
            }
            match piper.external_recv(external) {
                Ok(item) => {
                    received[which] += 1;
                    piper.external_send(external, Item::Number(number(item) + 100)).unwrap();
                }
                Err(RecvOutputError::Closed) | Err(RecvOutputError::Timeout) => open[which] = false,
                Err(error) => panic!("external recv failed: {error:?}"),
            }
        }
    }
    assert_eq!(received, [8, 8]);
    piper.drop_external(external_a);

    let mut outputs = Vec::new();
    while outputs.len() < ITEMS as usize {
        outputs.push(number(piper.recv()));
    }
    outputs.sort_unstable();
    let expected: Vec<u32> = (0..ITEMS).map(|value| value + 100).collect();
    assert_eq!(outputs, expected);

    piper.drop_external(external_b);
    piper.join().unwrap();
}

#[test]
fn feeder_external_output_before_managed_node() {
    let mut builder = Builder::new();
    let input = builder.input();
    let external_out: GraphLink<u32> = builder.link();
    let output: GraphLink<u32> = builder.link();
    builder.feeder_link(external_out, feeder_config());
    let token = builder.add_external_node_to(input, "external".to_string(), external_out);
    builder.add_node_to(external_out, anchor(managed("pass", pass())).fixed_threads(1), output);
    let mut piper = start(builder.finish(output));
    let external = piper.take_external(token.index());

    piper.send(5).unwrap();
    let value = piper.external_recv(external).unwrap();
    piper.external_send(external, value).unwrap();
    assert_eq!(number(piper.recv()), 5);
    piper.shutdown = true;
    piper.drop_external(external);
    piper.join().unwrap();
}

#[test]
fn feeder_receiver_timeout_and_try_while_running_and_closed_after_shutdown() {
    let mut builder = Builder::new();
    let input = builder.input();
    let output: GraphLink<u32> = builder.link();
    builder.feeder_link(output, feeder_config());
    let token = builder.add_external_node_to(input, "external".to_string(), output);
    let mut piper = start(builder.finish(output));
    let external = piper.take_external(token.index());

    assert!(matches!(piper.try_recv(), Err(TryRecvOutputError::Empty)));
    let received = piper.lines[1].recv_timeout().map(Some);
    assert!(matches!(received_output(received), Err(RecvOutputError::Timeout)));
    assert!(matches!(piper.external_try_recv(external), Err(TryRecvOutputError::Empty)));
    assert!(matches!(piper.external_recv(external), Err(RecvOutputError::Timeout)));

    piper.shutdown = true;
    piper.drop_external(external);
    let (result, mut ended) = piper.finish();
    result.unwrap();

    assert!(matches!(ended.try_recv(), Err(TryRecvOutputError::Closed)));
    let received = ended.lines[1].recv_timeout().map(Some);
    assert!(matches!(received_output(received), Err(RecvOutputError::Closed)));
}

#[test]
fn scalable_non_anchor_node_is_not_marked_anchor() {
    let mut piper = start(one_stage_graph(managed("pass", pass()).scalable_threads(2, 4)));
    piper.rounds(20);
    let telemetry = piper.telemetry();
    assert!(!telemetry.nodes[0].is_anchor);
    assert_eq!(telemetry.nodes[0].thread_policy_kind, NodeThreadPolicyKind::Scalable);
    piper.abort = true;
    piper.join().unwrap();
}

#[test]
fn max_threads_without_anchor_does_not_create_anchor() {
    let mut piper = start(one_stage_graph(managed("pass", pass()).max_threads(2)));
    piper.rounds(20);
    let telemetry = piper.telemetry();
    assert!(!telemetry.nodes[0].is_anchor);
    assert_eq!(telemetry.anchors.len(), 0);
    piper.abort = true;
    piper.join().unwrap();
}

#[test]
fn anchor_without_explicit_policy_gets_default_scalable() {
    let mut piper = start(one_stage_graph(anchor(managed("pass", pass()))));
    piper.rounds(20);
    let telemetry = piper.telemetry();
    assert!(telemetry.nodes[0].is_anchor);
    assert_eq!(telemetry.nodes[0].thread_policy_kind, NodeThreadPolicyKind::Scalable);
    assert!(telemetry.nodes[0].max_thread_count.unwrap() >= 1);
    piper.abort = true;
    piper.join().unwrap();
}

#[test]
fn input_is_refused_after_shutdown() {
    let mut piper = start(one_stage_graph(managed("pass", pass())));
    piper.send(1).unwrap();
    piper.shutdown = true;
    assert_eq!(piper.send(2), Err(SendInputError));
    assert_eq!(number(piper.recv()), 1);
    piper.join().unwrap();
}

#[test]
fn fixed_nodes_keep_their_workers() {
    let mut piper = start(one_stage_graph(managed("pass", pass().slow(3)).fixed_threads(3)));
    for value in 0..60 {
        piper.send(value).unwrap();
    }
    for _ in 0..60 {
        piper.recv();
        assert_eq!(piper.telemetry().nodes[0].active_threads, 3);
    }
    piper.join().unwrap();
}

#[test]
fn a_lagging_support_node_gets_more_workers_and_gives_them_back() {
    let mut builder = Builder::new();
    let input = builder.input();
    let slow: GraphLink<u32> = builder.add_node(input, managed("slow", pass().slow(4)));
    let output: GraphLink<u32> = builder.add_node(slow, managed("fast", pass()));
    let mut piper = start(builder.finish(output));

    let mut most = 0;
    let mut received = 0;
    for value in 0..300 {
        piper.send(value).unwrap();
        piper.send(value).unwrap();
        piper.round();
        while piper.try_recv().is_ok() {
            received += 1;
        }
        most = most.max(piper.telemetry().nodes[0].active_threads);
        assert!(piper.telemetry().total_active_workers <= 8);
    }
    assert!(most > 1);
    for _ in 0..2_000 {
        piper.round();
        while piper.try_recv().is_ok() {
            received += 1;
        }
    }
    assert_eq!(received, 600);
    assert_eq!(piper.telemetry().nodes[0].active_threads, 1);
    piper.join().unwrap();
}

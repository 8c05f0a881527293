//! The agent as a whole: one state machine that takes in what the outside
//! world reports (watch events, finished handlers, finished patches, the
//! timer, tasks that ended) and answers each with the actions to perform.
//!
//! The caller owns the I/O. It performs every action that it is handed,
//! concurrently where it likes, and reports back what came of it.

use crate::node::{registration_of, Beat, CreateReply, LifecycleView, NodeLifecycle, ReplyView};
use crate::pipeline::{Pipeline, Step};
use crate::pod::{EventView, Invocation, InvocationView, KeyView, PodKey, WatchEvent};
use crate::queue::{failure_of, DispatcherView, QueueDispatcher};
use crate::reporter::{ErrorReporter, ReporterView};
use crate::status::{PatchView, StatusPatch};
use crate::watch::{field_selector, selector_prefix};
use vstd::prelude::*;

verus! {

/// The seconds between two refreshes of the node's liveness marker, unless
/// configured otherwise.
pub const DEFAULT_HEARTBEAT_SECS: u64 = 10;

/// How many failure reports are buffered before a failing handler has to
/// wait, unless configured otherwise.
pub const DEFAULT_ERROR_CAPACITY: usize = 200;

/// What a [`Config`] stands for.
pub ghost struct ConfigView {
    pub node_name: Seq<char>,
    pub heartbeat_secs: u64,
    pub error_capacity: nat,
    pub max_in_flight: Option<nat>,
}

/// What the agent is configured with.
#[derive(Debug, PartialEq, Eq)]
pub struct Config {
    /// The name of the node that the agent stands for.
    pub node_name: String,
    /// The seconds between two refreshes of the node's liveness marker.
    pub heartbeat_secs: u64,
    /// How many failure reports are buffered before a failing handler has
    /// to wait.
    pub error_capacity: usize,
    /// The most pods that may be occupied at one time, if there is a bound.
    pub max_in_flight: Option<usize>,
}

impl View for Config {
    type V = ConfigView;

    open spec fn view(&self) -> ConfigView {
        ConfigView {
            node_name: self.node_name@,
            heartbeat_secs: self.heartbeat_secs,
            error_capacity: self.error_capacity as nat,
            max_in_flight: match self.max_in_flight {
                Some(limit) => Some(limit as nat),
                None => None,
            },
        }
    }
}

impl Config {
    /// The configuration of the node `node_name` with the default
    /// heartbeat interval and report capacity, and no bound on occupied
    /// pods.
    pub fn new(node_name: &str) -> (config: Config)
        ensures
            config@ == (ConfigView {
                node_name: node_name@,
                heartbeat_secs: DEFAULT_HEARTBEAT_SECS,
                error_capacity: DEFAULT_ERROR_CAPACITY as nat,
                max_in_flight: None,
            }),
    {
        Config {
            node_name: node_name.to_owned(),
            heartbeat_secs: DEFAULT_HEARTBEAT_SECS,
            error_capacity: DEFAULT_ERROR_CAPACITY,
            max_in_flight: None,
        }
    }
}

/// Where the agent is in its life. It is fully up or down: there is no
/// degraded state.
#[derive(Debug, Clone, Copy, PartialEq, Eq, Structural)]
pub enum AgentState {
    NotStarted,
    Running,
    Stopped,
    Failed,
}

/// The tasks that run side by side while the agent is up. The end of any
/// of them brings the agent down.
#[derive(Debug, Clone, Copy, PartialEq, Eq, Structural)]
pub enum Task {
    /// The loop that keeps the node marked live.
    NodeUpdater,
    /// The loop that reads the watch and feeds the dispatcher.
    PodInformer,
    /// The loop that writes failure reports back as pod status.
    ErrorHandler,
    /// The server for callbacks.
    Webserver,
}

/// What an [`Input`] stands for.
pub ghost enum InputView {
    Watch(EventView),
    WatchClosed(Option<Seq<char>>),
    HandlerDone(KeyView, Option<Seq<char>>),
    PatchDone(Option<Seq<char>>),
    TimerFired,
    RefreshDone(Option<Seq<char>>),
    TaskExited(Task, Option<Seq<char>>),
    Shutdown,
}

/// What the outside world reports to the agent.
#[derive(Debug, PartialEq, Eq)]
pub enum Input {
    /// The watch delivered an event.
    Watch(WatchEvent),
    /// The watch stream ended, or broke with the given cause.
    WatchClosed(Option<String>),
    /// The provider call for the pod came back.
    HandlerDone(PodKey, Result<(), String>),
    /// The status patch that was under way came back.
    PatchDone(Result<(), String>),
    /// The sleep that the agent asked for is over.
    TimerFired,
    /// The refresh of the node's liveness marker came back.
    RefreshDone(Result<(), String>),
    /// One of the agent's tasks ended, of itself or with an error.
    TaskExited(Task, Result<(), String>),
    /// The process is asked to stop.
    Shutdown,
}

impl View for Input {
    type V = InputView;

    open spec fn view(&self) -> InputView {
        match self {
            Input::Watch(event) => InputView::Watch(event@),
            Input::WatchClosed(cause) => InputView::WatchClosed(
                match cause {
                    Some(cause) => Some(cause@),
                    None => None,
                },
            ),
            Input::HandlerDone(key, outcome) => InputView::HandlerDone(key@, failure_of(*outcome)),
            Input::PatchDone(outcome) => InputView::PatchDone(failure_of(*outcome)),
            Input::TimerFired => InputView::TimerFired,
            Input::RefreshDone(outcome) => InputView::RefreshDone(failure_of(*outcome)),
            Input::TaskExited(task, outcome) => InputView::TaskExited(*task, failure_of(*outcome)),
            Input::Shutdown => InputView::Shutdown,
        }
    }
}

/// What an [`Action`] stands for.
pub ghost enum ActionView {
    OpenWatch(Seq<char>),
    Invoke(InvocationView),
    Patch(PatchView),
    RefreshLease(Seq<char>),
    Sleep(u64),
    Serve,
    Warn(Seq<char>),
    Halt,
}

/// What the agent asks the outside world to do.
#[derive(Debug, PartialEq, Eq)]
pub enum Action {
    /// Open a fresh watch with this field selector, and report its events.
    OpenWatch(String),
    /// Call the provider, and report how the call ended.
    Invoke(Invocation),
    /// Send this status patch, and report how it ended.
    Patch(StatusPatch),
    /// Refresh the liveness marker of the node of this name, and report
    /// how it ended.
    RefreshLease(String),
    /// Report when this many seconds have passed.
    Sleep(u64),
    /// Run the server for callbacks, and report when it ends.
    Serve,
    /// Log this warning.
    Warn(String),
    /// Cancel every task: the agent is down.
    Halt,
}

impl View for Action {
    type V = ActionView;

    open spec fn view(&self) -> ActionView {
        match self {
            Action::OpenWatch(selector) => ActionView::OpenWatch(selector@),
            Action::Invoke(call) => ActionView::Invoke(call@),
            Action::Patch(patch) => ActionView::Patch(patch@),
            Action::RefreshLease(name) => ActionView::RefreshLease(name@),
            Action::Sleep(secs) => ActionView::Sleep(*secs),
            Action::Serve => ActionView::Serve,
            Action::Warn(text) => ActionView::Warn(text@),
            Action::Halt => ActionView::Halt,
        }
    }
}

/// The views of a sequence of actions, in the same order.
pub open spec fn action_views(actions: Seq<Action>) -> Seq<ActionView> {
    actions.map_values(|action: Action| action@)
}

/// The actions that ask for the given provider calls, in the same order.
pub open spec fn invokes(calls: Seq<InvocationView>) -> Seq<ActionView> {
    calls.map_values(|call: InvocationView| ActionView::Invoke(call))
}

/// The warning that a cause calls for, if there is a cause.
pub open spec fn warning(cause: Option<Seq<char>>) -> Seq<ActionView> {
    match cause {
        Some(cause) => seq![ActionView::Warn(cause)],
        None => Seq::empty(),
    }
}

/// The warning for an event that arrives when the agent is down.
pub open spec fn shut_down_notice() -> Seq<char> {
    "the dispatcher is shut down"@
}

/// Why the agent did not start.
pub ghost enum StartErrorView {
    AlreadyStarted,
    NotRegistered(Seq<char>),
}

/// Why the agent did not start.
#[derive(Debug, PartialEq, Eq)]
pub enum StartError {
    /// The agent was started before.
    AlreadyStarted,
    /// The node's record could neither be created nor adopted.
    NotRegistered(String),
}

impl View for StartError {
    type V = StartErrorView;

    open spec fn view(&self) -> StartErrorView {
        match self {
            StartError::AlreadyStarted => StartErrorView::AlreadyStarted,
            StartError::NotRegistered(cause) => StartErrorView::NotRegistered(cause@),
        }
    }
}

/// The outcome of a start as plain text and tags.
pub open spec fn started_view(outcome: Result<Vec<Action>, StartError>) -> Result<
    Seq<ActionView>,
    StartErrorView,
> {
    match outcome {
        Ok(actions) => Ok(action_views(actions@)),
        Err(error) => Err(error@),
    }
}

/// What a [`Kubelet`] stands for.
pub ghost struct KubeletView {
    pub state: AgentState,
    /// Why the agent failed, where it failed with an error.
    pub failure: Option<Seq<char>>,
    /// The task whose end brought the agent down, if one did.
    pub culprit: Option<Task>,
    pub lifecycle: LifecycleView,
    pub dispatcher: DispatcherView,
    pub channel: ReporterView,
    /// Whether a status patch is under way.
    pub patching: bool,
}

impl KubeletView {
    /// An agent that has not started.
    pub open spec fn fresh(config: ConfigView) -> KubeletView {
        KubeletView {
            state: AgentState::NotStarted,
            failure: None,
            culprit: None,
            lifecycle: LifecycleView::fresh(config.node_name, config.heartbeat_secs),
            dispatcher: DispatcherView::fresh(config.max_in_flight),
            channel: ReporterView { capacity: config.error_capacity, buffer: Seq::empty() },
            patching: false,
        }
    }

    /// The agent is at rest: no waiting call could start; a report is
    /// held only while a patch is under way; and a report waits for room
    /// only while the channel is saturated.
    pub open spec fn at_rest(self) -> bool {
        &&& self.dispatcher.next_ready() is None
        &&& !self.patching ==> self.pipeline().held().len() == 0
        &&& self.dispatcher.outbox.len() > 0 ==> !self.channel.has_room()
    }

    /// The dispatcher and the channel are well formed, the dispatcher
    /// takes events in exactly while the agent is not down, and the agent
    /// is at rest.
    pub open spec fn wf(self) -> bool {
        &&& self.dispatcher.wf()
        &&& self.channel.wf()
        &&& self.dispatcher.open == (self.state == AgentState::NotStarted || self.state
            == AgentState::Running)
        &&& self.at_rest()
    }

    /// The dispatcher and the channel it sends to.
    pub open spec fn pipeline(self) -> Pipeline {
        Pipeline { dispatcher: self.dispatcher, channel: self.channel }
    }

    /// The field selector of the agent's watch.
    pub open spec fn selector(self) -> Seq<char> {
        selector_prefix() + self.lifecycle.node_name
    }

    /// Brings the agent to rest after a change: the waiting reports are
    /// sent as far as the channel has room; if no patch is under way and a
    /// report is held, the oldest is taken out to be patched, and the room
    /// it leaves is filled from the outbox; then every call that can start
    /// is started. Gives the agent afterwards, and the patch and the calls
    /// to perform.
    pub open spec fn settle(self) -> (KubeletView, Seq<ActionView>) {
        let forwarded = self.pipeline().step(Step::Forward);
        let drains = !self.patching && forwarded.held().len() > 0;
        let drained = if drains {
            forwarded.step(Step::Drain).step(Step::Forward)
        } else {
            forwarded
        };
        let patches = if drains {
            seq![ActionView::Patch(forwarded.held()[0].status_patch())]
        } else {
            Seq::empty()
        };
        let started = drained.dispatcher.start_ready();
        (
            KubeletView {
                dispatcher: started.0,
                channel: drained.channel,
                patching: self.patching || drains,
                ..self
            },
            patches + invokes(started.1),
        )
    }

    /// The agent after the attempt to start it with the store's reply to
    /// the creation of the node's record, and the outcome. The agent runs
    /// only once the record is created or adopted; its first actions are
    /// then a refresh of the liveness marker, the opening of the watch,
    /// and the start of the server for callbacks.
    /// A reply that leaves the node without a record fails the agent.
    pub open spec fn start(self, reply: ReplyView) -> (
        KubeletView,
        Result<Seq<ActionView>, StartErrorView>,
    ) {
        if self.state != AgentState::NotStarted {
            (self, Err(StartErrorView::AlreadyStarted))
        } else {
            match registration_of(reply) {
                Ok(_) => (
                    KubeletView {
                        state: AgentState::Running,
                        lifecycle: self.lifecycle.register(reply).timer_fired(),
                        ..self
                    },
                    Ok(
                        seq![
                            ActionView::RefreshLease(self.lifecycle.node_name),
                            ActionView::OpenWatch(self.selector()),
                            ActionView::Serve,
                        ],
                    ),
                ),
                Err(cause) => (
                    KubeletView {
                        state: AgentState::Failed,
                        failure: Some(cause),
                        dispatcher: self.dispatcher.shut_down(),
                        ..self
                    },
                    Err(StartErrorView::NotRegistered(cause)),
                ),
            }
        }
    }

    /// The agent after `input`, and the actions that answer it, while the
    /// agent runs.
    pub open spec fn react(self, input: InputView) -> (KubeletView, Seq<ActionView>) {
        match input {
            InputView::Watch(event) => {
                let next = KubeletView { dispatcher: self.dispatcher.enqueue(event), ..self };
                let cause = match event {
                    EventView::Error(cause) => Some(cause),
                    _ => None,
                };
                (next.settle().0, warning(cause) + next.settle().1)
            },
            InputView::WatchClosed(cause) => (
                self,
                warning(cause) + seq![ActionView::OpenWatch(self.selector())],
            ),
            InputView::HandlerDone(key, failure) => {
                let next = match self.dispatcher.position(key) {
                    Some(j) => KubeletView {
                        dispatcher: self.dispatcher.finish(j, failure),
                        ..self
                    },
                    None => self,
                };
                next.settle()
            },
            InputView::PatchDone(failure) => {
                let next = KubeletView { patching: false, ..self };
                (next.settle().0, warning(failure) + next.settle().1)
            },
            InputView::TimerFired => (
                KubeletView { lifecycle: self.lifecycle.timer_fired(), ..self },
                if self.lifecycle.due() {
                    seq![ActionView::RefreshLease(self.lifecycle.node_name)]
                } else {
                    Seq::empty()
                },
            ),
            InputView::RefreshDone(failure) => (
                KubeletView { lifecycle: self.lifecycle.refreshed(failure is Some), ..self },
                warning(failure) + if self.lifecycle.refreshing {
                    seq![ActionView::Sleep(self.lifecycle.interval_secs)]
                } else {
                    Seq::empty()
                },
            ),
            InputView::TaskExited(task, failure) => (
                KubeletView {
                    state: AgentState::Failed,
                    failure,
                    culprit: Some(task),
                    dispatcher: self.dispatcher.shut_down(),
                    ..self
                },
                seq![ActionView::Halt],
            ),
            InputView::Shutdown => (
                KubeletView {
                    state: AgentState::Stopped,
                    dispatcher: self.dispatcher.shut_down(),
                    ..self
                },
                seq![ActionView::Halt],
            ),
        }
    }

    /// The agent after `input`, and the actions that answer it. Before the
    /// start nothing is answered. Once the agent is down it stays as it
    /// is; a watch event that still arrives is dropped with a warning.
    pub open spec fn step(self, input: InputView) -> (KubeletView, Seq<ActionView>) {
        match self.state {
            AgentState::NotStarted => (self, Seq::empty()),
            AgentState::Running => self.react(input),
            _ => (
                self,
                if input is Watch {
                    seq![ActionView::Warn(shut_down_notice())]
                } else {
                    Seq::empty()
                },
            ),
        }
    }

    /// Bringing the agent to rest does so, and changes neither the state
    /// of the agent nor whether the dispatcher takes events in.
    pub proof fn lemma_settle_rests(self)
        requires
            self.dispatcher.wf(),
            self.channel.wf(),
        ensures
            self.settle().0.dispatcher.wf(),
            self.settle().0.channel.wf(),
            self.settle().0.at_rest(),
            self.settle().0.state == self.state,
            self.settle().0.dispatcher.open == self.dispatcher.open,
    {
        let key = KeyView { namespace: Seq::empty(), name: Seq::empty() };
        let forwarded = self.pipeline().step(Step::Forward);
        self.pipeline().lemma_step_keeps_wf(Step::Forward);
        let drains = !self.patching && forwarded.held().len() > 0;
        let drained = if drains {
            forwarded.step(Step::Drain).step(Step::Forward)
        } else {
            forwarded
        };
        if drains {
            forwarded.lemma_step_keeps_wf(Step::Drain);
            forwarded.step(Step::Drain).lemma_step_keeps_wf(Step::Forward);
        }
        drained.dispatcher.lemma_start_ready_keeps_running(key);
        drained.dispatcher.lemma_start_ready_settles();
    }

    /// The agent runs only once the node has its record: a start leads to
    /// `Running` exactly when the agent had not started and the store's
    /// reply registers the node, and the record is then noted.
    pub proof fn lemma_runs_only_when_registered(self, reply: ReplyView)
        requires
            self.state == AgentState::NotStarted,
        ensures
            self.start(reply).0.state == AgentState::Running <==> registration_of(reply) is Ok,
            self.start(reply).0.state == AgentState::Running ==> self.start(
                reply,
            ).0.lifecycle.registration is Some,
            self.start(reply).0.state != AgentState::Running ==> self.start(reply).0.state
                == AgentState::Failed && self.start(reply).1 is Err,
    {
    }

    /// Fail-fast: the end of any task, with an error or of itself, fails a
    /// running agent at once. The error is kept, the dispatcher is shut
    /// down, and the one action is to cancel every task.
    pub proof fn lemma_task_exit_is_fatal(self, task: Task, failure: Option<Seq<char>>)
        requires
            self.state == AgentState::Running,
        ensures
            self.step(InputView::TaskExited(task, failure)).0.state == AgentState::Failed,
            self.step(InputView::TaskExited(task, failure)).0.failure == failure,
            self.step(InputView::TaskExited(task, failure)).0.culprit == Some(task),
            !self.step(InputView::TaskExited(task, failure)).0.dispatcher.open,
            self.step(InputView::TaskExited(task, failure)).1 == seq![ActionView::Halt],
    {
    }

    /// The agent's life goes one way: not started, running, then stopped
    /// or failed. No input starts an agent, none brings back one that is
    /// down, and there is no state between up and down.
    pub proof fn lemma_state_moves_forward(self, input: InputView)
        ensures
            self.step(input).0.state == self.state || (self.state == AgentState::Running && (
            self.step(input).0.state == AgentState::Stopped || self.step(input).0.state
                == AgentState::Failed)),
            self.state != AgentState::Running ==> self.step(input).0 == self,
    {
    }
}

/// The agent: the dispatcher, the report channel, the node's lifecycle,
/// and the state of the whole.
pub struct Kubelet {
    state: AgentState,
    failure: Option<String>,
    culprit: Option<Task>,
    lifecycle: NodeLifecycle,
    dispatcher: QueueDispatcher,
    channel: ErrorReporter,
    patching: bool,
}

impl View for Kubelet {
    type V = KubeletView;

    closed spec fn view(&self) -> KubeletView {
        KubeletView {
            state: self.state,
            failure: match self.failure {
                Some(cause) => Some(cause@),
                None => None,
            },
            culprit: self.culprit,
            lifecycle: self.lifecycle@,
            dispatcher: self.dispatcher@,
            channel: self.channel@,
            patching: self.patching,
        }
    }
}

/// Adds the warning that `outcome` calls for, if it is a failure.
fn warn_of(outcome: Result<(), String>, actions: &mut Vec<Action>)
    ensures
        action_views(final(actions)@) == action_views(old(actions)@) + warning(failure_of(outcome)),
{
    match outcome {
        Ok(()) => {},
        Err(cause) => {
            actions.push(Action::Warn(cause));
        },
    }
}

/// Adds `action` to `actions`.
fn push_action(actions: &mut Vec<Action>, action: Action)
    ensures
        action_views(final(actions)@) == action_views(old(actions)@) + seq![action@],
{
    actions.push(action);
}

impl Kubelet {
    /// The dispatcher and the channel are well formed, the dispatcher
    /// takes events in exactly while the agent is not down, and the agent
    /// is at rest.
    pub open spec fn wf(&self) -> bool {
        self@.wf()
    }

    /// An agent for the given configuration, not yet started.
    pub fn new(config: Config) -> (kubelet: Kubelet)
        ensures
            kubelet.wf(),
            kubelet@ == KubeletView::fresh(config@),
    {
        let kubelet = Kubelet {
            state: AgentState::NotStarted,
            failure: None,
            culprit: None,
            lifecycle: NodeLifecycle::new(config.node_name.as_str(), config.heartbeat_secs),
            dispatcher: QueueDispatcher::new(config.max_in_flight),
            channel: ErrorReporter::new(config.error_capacity),
            patching: false,
        };
        proof {
            kubelet.dispatcher@.lemma_empty_backlog_rests();
        }
        kubelet
    }

    /// Where the agent is in its life.
    pub fn state(&self) -> (state: AgentState)
        ensures
            state == self@.state,
    {
        self.state
    }

    /// Why the agent failed, where it failed with an error.
    pub fn failure(&self) -> (cause: Option<&str>)
        ensures
            match cause {
                Some(cause) => self@.failure == Some(cause@),
                None => self@.failure is None,
            },
    {
        match &self.failure {
            Some(cause) => Some(cause.as_str()),
            None => None,
        }
    }

    /// The task whose end brought the agent down, if one did.
    pub fn culprit(&self) -> (task: Option<Task>)
        ensures
            task == self@.culprit,
    {
        self.culprit
    }

    /// Whether a status patch is under way.
    pub fn is_patching(&self) -> (patching: bool)
        ensures
            patching == self@.patching,
    {
        self.patching
    }

    /// The agent's dispatcher.
    pub fn dispatcher(&self) -> (dispatcher: &QueueDispatcher)
        ensures
            dispatcher@ == self@.dispatcher,
    {
        &self.dispatcher
    }

    /// The agent's report channel.
    pub fn channel(&self) -> (channel: &ErrorReporter)
        ensures
            channel@ == self@.channel,
    {
        &self.channel
    }

    /// The lifecycle of the agent's node.
    pub fn lifecycle(&self) -> (lifecycle: &NodeLifecycle)
        ensures
            lifecycle@ == self@.lifecycle,
    {
        &self.lifecycle
    }

    /// Starts every call that can start, and adds to `actions` the request
    /// for each.
    fn start_calls(&mut self, actions: &mut Vec<Action>)
        requires
            old(self).dispatcher.wf(),
        ensures
            final(self).dispatcher.wf(),
            final(self)@ == (KubeletView {
                dispatcher: old(self)@.dispatcher.start_ready().0,
                ..old(self)@
            }),
            action_views(final(actions)@) == action_views(old(actions)@) + invokes(
                old(self)@.dispatcher.start_ready().1,
            ),
    {
        let ghost base = action_views(actions@);
        let ghost mut so_far: Seq<InvocationView> = Seq::empty();
        loop
            invariant_except_break
                self.dispatcher.wf(),
                self@ == (KubeletView { dispatcher: self.dispatcher@, ..old(self)@ }),
                old(self)@.dispatcher.start_ready().0 == self.dispatcher@.start_ready().0,
                old(self)@.dispatcher.start_ready().1 == so_far
                    + self.dispatcher@.start_ready().1,
                action_views(actions@) == base + invokes(so_far),
            ensures
                self.dispatcher.wf(),
                self@ == (KubeletView {
                    dispatcher: old(self)@.dispatcher.start_ready().0,
                    ..old(self)@
                }),
                action_views(actions@) == base + invokes(old(self)@.dispatcher.start_ready().1),
            decreases self.dispatcher@.backlog.len(),
        {
            match self.dispatcher.start_next() {
                Some(call) => {
                    let ghost listed = action_views(actions@);
                    actions.push(Action::Invoke(call));
                    proof {
                        assert(action_views(actions@) =~= listed.push(ActionView::Invoke(call@)));
                        so_far = so_far.push(call@);
                    }
                },
                None => {
                    break ;
                },
            }
        }
    }

    /// Brings the agent to rest after a change, and adds to `actions` what
    /// is to be performed.
    fn settle(&mut self, actions: &mut Vec<Action>)
        requires
            old(self).dispatcher.wf(),
            old(self).channel.wf(),
        ensures
            final(self).dispatcher.wf(),
            final(self).channel.wf(),
            final(self)@.at_rest(),
            final(self)@.dispatcher.open == old(self)@.dispatcher.open,
            final(self)@ == old(self)@.settle().0,
            action_views(final(actions)@) == action_views(old(actions)@) + old(
                self,
            )@.settle().1,
    {
        proof {
            self@.lemma_settle_rests();
        }
        self.dispatcher.forward_reports(&mut self.channel);
        if !self.patching {
            match self.dispatcher.take_report(&mut self.channel) {
                Some(report) => {
                    push_action(actions, Action::Patch(report.status_patch()));
                    self.patching = true;
                    self.dispatcher.forward_reports(&mut self.channel);
                },
                None => {},
            }
        }
        self.start_calls(actions);
    }

    /// Starts the agent, given the store's reply to the request to create
    /// the node's record. The agent runs only once the record is created
    /// or adopted: its first actions are then to refresh the liveness
    /// marker, to open the watch for the pods of its node, and to run the
    /// server for callbacks. Any other reply fails the agent, for good. An
    /// agent starts at most once.
    pub fn start(&mut self, reply: CreateReply) -> (outcome: Result<Vec<Action>, StartError>)
        requires
            old(self).wf(),
        ensures
            final(self).wf(),
            final(self)@ == old(self)@.start(reply@).0,
            started_view(outcome) == old(self)@.start(reply@).1,
    {
        if self.state != AgentState::NotStarted {
            return Err(StartError::AlreadyStarted);
        }
        match self.lifecycle.register(reply) {
            Ok(_) => {
                self.state = AgentState::Running;
                self.lifecycle.timer_fired();
                let mut actions: Vec<Action> = Vec::new();
                actions.push(Action::RefreshLease(self.lifecycle.node_name().to_owned()));
                actions.push(Action::OpenWatch(field_selector(self.lifecycle.node_name())));
                actions.push(Action::Serve);
                assert(action_views(actions@) =~= seq![
                    ActionView::RefreshLease(old(self)@.lifecycle.node_name),
                    ActionView::OpenWatch(old(self)@.selector()),
                    ActionView::Serve,
                ]);
                Ok(actions)
            },
            Err(cause) => {
                self.state = AgentState::Failed;
                let error = StartError::NotRegistered(cause.clone());
                self.failure = Some(cause);
                self.dispatcher.shutdown();
                proof {
                    self.dispatcher@.lemma_empty_backlog_rests();
                }
                Err(error)
            },
        }
    }

    /// Takes in what the outside world reports, and answers with the
    /// actions to perform, in order.
    pub fn handle(&mut self, input: Input) -> (actions: Vec<Action>)
        requires
            old(self).wf(),
        ensures
            final(self).wf(),
            final(self)@ == old(self)@.step(input@).0,
            action_views(actions@) == old(self)@.step(input@).1,
    {
        let mut actions: Vec<Action> = Vec::new();
        match self.state {
            AgentState::NotStarted => {},
            AgentState::Running => {
                self.react(input, &mut actions);
            },
            _ => {
                match input {
                    Input::Watch(event) => {
                        match self.dispatcher.enqueue(event) {
                            Ok(()) => {},
                            Err(_) => {
                                push_action(
                                    &mut actions,
                                    Action::Warn("the dispatcher is shut down".to_owned()),
                                );
                            },
                        }
                    },
                    _ => {},
                }
            },
        }
        actions
    }

    /// Answers `input` while the agent runs.
    fn react(&mut self, input: Input, actions: &mut Vec<Action>)
        requires
            old(self).wf(),
            old(self)@.state == AgentState::Running,
        ensures
            final(self).wf(),
            final(self)@ == old(self)@.react(input@).0,
            action_views(final(actions)@) == action_views(old(actions)@) + old(self)@.react(
                input@,
            ).1,
    {
        match input {
            Input::Watch(event) => self.on_watch(event, actions),
            Input::WatchClosed(cause) => self.on_watch_closed(cause, actions),
            Input::HandlerDone(key, outcome) => self.on_handler_done(key, outcome, actions),
            Input::PatchDone(outcome) => self.on_patch_done(outcome, actions),
            Input::TimerFired => self.on_timer(actions),
            Input::RefreshDone(outcome) => self.on_refresh_done(outcome, actions),
            Input::TaskExited(task, outcome) => self.on_task_exited(task, outcome, actions),
            Input::Shutdown => self.on_shutdown(actions),
        }
    }

    /// The watch delivered `event`: it is offered to the dispatcher, a
    /// stream error with a warning, and the agent is brought to rest.
    fn on_watch(&mut self, event: WatchEvent, actions: &mut Vec<Action>)
        requires
            old(self).wf(),
            old(self)@.state == AgentState::Running,
        ensures
            final(self).wf(),
            final(self)@ == old(self)@.react(InputView::Watch(event@)).0,
            action_views(final(actions)@) == action_views(old(actions)@) + old(self)@.react(
                InputView::Watch(event@),
            ).1,
    {
        let notice = match &event {
            WatchEvent::Error(cause) => Err(cause.clone()),
            _ => Ok(()),
        };
        warn_of(notice, actions);
        let _ = self.dispatcher.enqueue(event);
        self.settle(actions);
    }

    /// The watch ended or broke: a fresh one is opened.
    fn on_watch_closed(&mut self, cause: Option<String>, actions: &mut Vec<Action>)
        requires
            old(self).wf(),
        ensures
            final(self)@ == old(self)@,
            action_views(final(actions)@) == action_views(old(actions)@) + old(self)@.react(
                (Input::WatchClosed(cause))@,
            ).1,
    {
        let notice = match cause {
            Some(cause) => Err(cause),
            None => Ok(()),
        };
        warn_of(notice, actions);
        push_action(actions, Action::OpenWatch(field_selector(self.lifecycle.node_name())));
    }

    /// The provider call for `key` came back: its end is recorded, and the
    /// agent is brought to rest.
    fn on_handler_done(
        &mut self,
        key: PodKey,
        outcome: Result<(), String>,
        actions: &mut Vec<Action>,
    )
        requires
            old(self).wf(),
            old(self)@.state == AgentState::Running,
        ensures
            final(self).wf(),
            final(self)@ == old(self)@.react(InputView::HandlerDone(key@, failure_of(outcome))).0,
            action_views(final(actions)@) == action_views(old(actions)@) + old(self)@.react(
                InputView::HandlerDone(key@, failure_of(outcome)),
            ).1,
    {
        let _ = self.dispatcher.complete(&key, outcome);
        self.settle(actions);
    }

    /// The status patch came back: a failure is warned of and not tried
    /// again, and the agent is brought to rest.
    fn on_patch_done(&mut self, outcome: Result<(), String>, actions: &mut Vec<Action>)
        requires
            old(self).wf(),
            old(self)@.state == AgentState::Running,
        ensures
            final(self).wf(),
            final(self)@ == old(self)@.react(InputView::PatchDone(failure_of(outcome))).0,
            action_views(final(actions)@) == action_views(old(actions)@) + old(self)@.react(
                InputView::PatchDone(failure_of(outcome)),
            ).1,
    {
        warn_of(outcome, actions);
        self.patching = false;
        self.settle(actions);
    }

    /// The timer fired: the liveness marker is refreshed.
    fn on_timer(&mut self, actions: &mut Vec<Action>)
        requires
            old(self).wf(),
        ensures
            final(self).wf(),
            final(self)@ == old(self)@.react(InputView::TimerFired).0,
            action_views(final(actions)@) == action_views(old(actions)@) + old(self)@.react(
                InputView::TimerFired,
            ).1,
    {
        match self.lifecycle.timer_fired() {
            Beat::Refresh => {
                push_action(actions, Action::RefreshLease(self.lifecycle.node_name().to_owned()));
            },
            _ => {},
        }
    }

    /// The refresh came back: a failure is warned of, and the loop sleeps
    /// for the interval either way.
    fn on_refresh_done(&mut self, outcome: Result<(), String>, actions: &mut Vec<Action>)
        requires
            old(self).wf(),
        ensures
            final(self).wf(),
            final(self)@ == old(self)@.react(InputView::RefreshDone(failure_of(outcome))).0,
            action_views(final(actions)@) == action_views(old(actions)@) + old(self)@.react(
                InputView::RefreshDone(failure_of(outcome)),
            ).1,
    {
        let failed = outcome.is_err();
        warn_of(outcome, actions);
        match self.lifecycle.refreshed(failed) {
            Beat::Sleep(secs) => {
                push_action(actions, Action::Sleep(secs));
            },
            _ => {},
        }
    }

    /// One of the agent's tasks ended: the agent fails, at once and for
    /// good, whether the task ended with an error or of itself.
    fn on_task_exited(&mut self, task: Task, outcome: Result<(), String>, actions: &mut Vec<Action>)
        requires
            old(self).wf(),
        ensures
            final(self).wf(),
            final(self)@ == old(self)@.react(InputView::TaskExited(task, failure_of(outcome))).0,
            action_views(final(actions)@) == action_views(old(actions)@) + old(self)@.react(
                InputView::TaskExited(task, failure_of(outcome)),
            ).1,
    {
        self.state = AgentState::Failed;
        self.failure = match outcome {
            Ok(()) => None,
            Err(cause) => Some(cause),
        };
        self.culprit = Some(task);
        self.dispatcher.shutdown();
        proof {
            self.dispatcher@.lemma_empty_backlog_rests();
        }
        push_action(actions, Action::Halt);
    }

    /// The process is asked to stop: the agent stops.
    fn on_shutdown(&mut self, actions: &mut Vec<Action>)
        requires
            old(self).wf(),
        ensures
            final(self).wf(),
            final(self)@ == old(self)@.react(InputView::Shutdown).0,
            action_views(final(actions)@) == action_views(old(actions)@) + old(self)@.react(
                InputView::Shutdown,
            ).1,
    {
        self.state = AgentState::Stopped;
        self.dispatcher.shutdown();
        proof {
            self.dispatcher@.lemma_empty_backlog_rests();
        }
        push_action(actions, Action::Halt);
    }
}

} // verus!

use kubelet::kubelet::{
    Action, AgentState, Config, Input, Kubelet, StartError, Task, DEFAULT_ERROR_CAPACITY,
    DEFAULT_HEARTBEAT_SECS,
};
use kubelet::node::{CreateReply, Registration};
use kubelet::pod::{Invocation, Operation, Pod, PodKey, WatchEvent};
use kubelet::status::{Phase, StatusPatch};

fn pod(name: &str) -> Pod {
    Pod::new(Some("default"), name, "{}")
}

fn key(name: &str) -> PodKey {
    PodKey::new("default", name)
}

fn call(operation: Operation, name: &str) -> Action {
    Action::Invoke(Invocation { operation, pod: pod(name) })
}

fn failed(name: &str, message: &str) -> Action {
    Action::Patch(StatusPatch {
        namespace: "default".to_string(),
        name: name.to_string(),
        phase: Phase::Failed,
        message: message.to_string(),
    })
}

fn running(config: Config) -> Kubelet {
    let mut agent = Kubelet::new(config);
    let first = agent.start(CreateReply::Created);
    assert!(first.is_ok());
    agent
}

fn running_agent() -> Kubelet {
    running(Config::new("node-a"))
}

#[test]
fn config_defaults() {
    let config = Config::new("node-a");
    assert_eq!(config.node_name, "node-a");
    assert_eq!(config.heartbeat_secs, 10);
    assert_eq!(config.error_capacity, 200);
    assert_eq!(config.max_in_flight, None);
    assert_eq!(DEFAULT_HEARTBEAT_SECS, 10);
    assert_eq!(DEFAULT_ERROR_CAPACITY, 200);
}

#[test]
fn new_agent_has_not_started() {
    let agent = Kubelet::new(Config::new("node-a"));
    assert_eq!(agent.state(), AgentState::NotStarted);
    assert_eq!(agent.failure(), None);
    assert_eq!(agent.culprit(), None);
    assert!(!agent.is_patching());
    assert_eq!(agent.channel().capacity(), 200);
    assert_eq!(agent.lifecycle().interval_secs(), 10);
    assert_eq!(agent.lifecycle().node_name(), "node-a");
    assert_eq!(agent.lifecycle().registration(), None);
}

#[test]
fn nothing_is_answered_before_the_start() {
    let mut agent = Kubelet::new(Config::new("node-a"));
    assert_eq!(agent.handle(Input::Watch(WatchEvent::Added(pod("x")))), vec![]);
    assert_eq!(agent.handle(Input::TimerFired), vec![]);
    assert_eq!(agent.handle(Input::Shutdown), vec![]);
    assert_eq!(agent.state(), AgentState::NotStarted);
    assert_eq!(agent.dispatcher().backlog_len(), 0);
}

#[test]
fn start_registers_then_refreshes_and_watches() {
    let mut agent = Kubelet::new(Config::new("node-a"));
    let first = agent.start(CreateReply::Created);
    assert_eq!(
        first,
        Ok(vec![
            Action::RefreshLease("node-a".to_string()),
            Action::OpenWatch("spec.nodeName=node-a".to_string()),
            Action::Serve,
        ])
    );
    assert_eq!(agent.state(), AgentState::Running);
    assert_eq!(agent.lifecycle().registration(), Some(Registration::Created));
    assert_eq!(agent.lifecycle().attempts(), 1);
}

#[test]
fn start_adopts_an_existing_node() {
    let mut agent = Kubelet::new(Config::new("node-a"));
    let first = agent.start(CreateReply::AlreadyExists);
    assert!(first.is_ok());
    assert_eq!(agent.state(), AgentState::Running);
    assert_eq!(agent.lifecycle().registration(), Some(Registration::Adopted));
}

#[test]
fn start_fails_without_a_node_record() {
    let mut agent = Kubelet::new(Config::new("node-a"));
    let first = agent.start(CreateReply::Failed("forbidden".to_string()));
    assert_eq!(first, Err(StartError::NotRegistered("forbidden".to_string())));
    assert_eq!(agent.state(), AgentState::Failed);
    assert_eq!(agent.failure(), Some("forbidden"));
    assert!(!agent.dispatcher().is_open());
}

#[test]
fn agent_starts_only_once() {
    let mut agent = running_agent();
    assert_eq!(agent.start(CreateReply::AlreadyExists), Err(StartError::AlreadyStarted));
    assert_eq!(agent.state(), AgentState::Running);
    assert_eq!(agent.lifecycle().registration(), Some(Registration::Created));
}

#[test]
fn added_pod_is_handed_to_add_once() {
    let mut agent = running_agent();
    let actions = agent.handle(Input::Watch(WatchEvent::Added(pod("x"))));
    assert_eq!(actions, vec![call(Operation::Add, "x")]);
    assert!(agent.dispatcher().is_running(&key("x")));
    let actions = agent.handle(Input::HandlerDone(key("x"), Ok(())));
    assert_eq!(actions, vec![]);
    assert!(!agent.dispatcher().is_busy(&key("x")));
    assert!(agent.channel().is_empty());
    assert_eq!(agent.dispatcher().outbox_len(), 0);
    assert!(!agent.is_patching());
}

#[test]
fn failed_add_gives_one_failed_status_patch() {
    let mut agent = running_agent();
    agent.handle(Input::Watch(WatchEvent::Added(pod("x"))));
    let actions = agent.handle(Input::HandlerDone(key("x"), Err("image not found".to_string())));
    assert_eq!(actions, vec![failed("x", "image not found")]);
    assert!(agent.is_patching());
    assert!(agent.channel().is_empty());
    match &actions[0] {
        Action::Patch(patch) => {
            assert_eq!(patch.phase, Phase::Failed);
            assert!(patch.message.contains("image not found"));
            assert!(patch.body().contains("image not found"));
        }
        other => panic!("not a patch: {:?}", other),
    }
    let actions = agent.handle(Input::PatchDone(Ok(())));
    assert_eq!(actions, vec![]);
    assert!(!agent.is_patching());
}

#[test]
fn rapid_events_for_one_pod_keep_their_order() {
    let mut agent = running_agent();
    assert_eq!(
        agent.handle(Input::Watch(WatchEvent::Added(pod("x")))),
        vec![call(Operation::Add, "x")]
    );
    assert_eq!(agent.handle(Input::Watch(WatchEvent::Modified(pod("x")))), vec![]);
    assert_eq!(agent.handle(Input::Watch(WatchEvent::Deleted(pod("x")))), vec![]);
    assert_eq!(agent.dispatcher().depth(&key("x")), 2);
    assert_eq!(
        agent.handle(Input::HandlerDone(key("x"), Ok(()))),
        vec![call(Operation::Modify, "x")]
    );
    assert_eq!(
        agent.handle(Input::HandlerDone(key("x"), Ok(()))),
        vec![call(Operation::Delete, "x")]
    );
    assert_eq!(agent.handle(Input::HandlerDone(key("x"), Ok(()))), vec![]);
    assert_eq!(agent.dispatcher().depth(&key("x")), 0);
    assert!(!agent.dispatcher().is_busy(&key("x")));
}

#[test]
fn slow_pod_does_not_delay_another() {
    let mut agent = running_agent();
    assert_eq!(
        agent.handle(Input::Watch(WatchEvent::Added(pod("a")))),
        vec![call(Operation::Add, "a")]
    );
    assert_eq!(agent.handle(Input::Watch(WatchEvent::Modified(pod("a")))), vec![]);
    assert_eq!(
        agent.handle(Input::Watch(WatchEvent::Added(pod("b")))),
        vec![call(Operation::Add, "b")]
    );
    assert_eq!(agent.handle(Input::HandlerDone(key("b"), Ok(()))), vec![]);
    assert_eq!(
        agent.handle(Input::Watch(WatchEvent::Deleted(pod("b")))),
        vec![call(Operation::Delete, "b")]
    );
    assert!(agent.dispatcher().is_running(&key("a")));
    assert_eq!(agent.dispatcher().depth(&key("a")), 1);
}

#[test]
fn failure_does_not_stop_the_pods_queue() {
    let mut agent = running_agent();
    agent.handle(Input::Watch(WatchEvent::Added(pod("x"))));
    agent.handle(Input::Watch(WatchEvent::Modified(pod("x"))));
    let actions = agent.handle(Input::HandlerDone(key("x"), Err("boom".to_string())));
    assert_eq!(actions, vec![failed("x", "boom"), call(Operation::Modify, "x")]);
}

#[test]
fn each_failure_is_patched_once_and_in_order() {
    let mut agent = running_agent();
    agent.handle(Input::Watch(WatchEvent::Added(pod("a"))));
    agent.handle(Input::Watch(WatchEvent::Added(pod("b"))));
    agent.handle(Input::Watch(WatchEvent::Added(pod("c"))));
    assert_eq!(
        agent.handle(Input::HandlerDone(key("b"), Err("b broke".to_string()))),
        vec![failed("b", "b broke")]
    );
    assert_eq!(agent.handle(Input::HandlerDone(key("c"), Err("c broke".to_string()))), vec![]);
    assert_eq!(agent.handle(Input::HandlerDone(key("a"), Err("a broke".to_string()))), vec![]);
    assert_eq!(agent.channel().len(), 2);
    assert_eq!(agent.handle(Input::PatchDone(Ok(()))), vec![failed("c", "c broke")]);
    assert_eq!(agent.handle(Input::PatchDone(Ok(()))), vec![failed("a", "a broke")]);
    assert_eq!(agent.handle(Input::PatchDone(Ok(()))), vec![]);
    assert!(agent.channel().is_empty());
}

#[test]
fn failed_patch_is_warned_of_and_not_retried() {
    let mut agent = running_agent();
    agent.handle(Input::Watch(WatchEvent::Added(pod("a"))));
    agent.handle(Input::Watch(WatchEvent::Added(pod("b"))));
    agent.handle(Input::HandlerDone(key("a"), Err("a broke".to_string())));
    agent.handle(Input::HandlerDone(key("b"), Err("b broke".to_string())));
    let actions = agent.handle(Input::PatchDone(Err("conflict".to_string())));
    assert_eq!(actions, vec![Action::Warn("conflict".to_string()), failed("b", "b broke")]);
    assert_eq!(agent.state(), AgentState::Running);
}

#[test]
fn saturated_channel_holds_the_failing_pod_back() {
    let mut config = Config::new("node-a");
    config.error_capacity = 1;
    let mut agent = running(config);
    agent.handle(Input::Watch(WatchEvent::Added(pod("a"))));
    agent.handle(Input::Watch(WatchEvent::Added(pod("b"))));
    agent.handle(Input::Watch(WatchEvent::Added(pod("c"))));
    agent.handle(Input::Watch(WatchEvent::Modified(pod("c"))));
    // The first report is taken out at once, the second fills the channel.
    assert_eq!(
        agent.handle(Input::HandlerDone(key("a"), Err("a broke".to_string()))),
        vec![failed("a", "a broke")]
    );
    assert_eq!(agent.handle(Input::HandlerDone(key("b"), Err("b broke".to_string()))), vec![]);
    assert!(agent.channel().is_full());
    assert!(!agent.dispatcher().is_busy(&key("b")));
    // The third has to wait, and so has the next event of its pod.
    assert_eq!(agent.handle(Input::HandlerDone(key("c"), Err("c broke".to_string()))), vec![]);
    assert_eq!(agent.dispatcher().outbox_len(), 1);
    assert_eq!(agent.channel().len(), 1);
    assert!(agent.dispatcher().is_busy(&key("c")));
    assert!(!agent.dispatcher().is_running(&key("c")));
    assert_eq!(agent.dispatcher().depth(&key("c")), 1);
    // Room frees: the waiting report goes in, and its pod goes on.
    assert_eq!(
        agent.handle(Input::PatchDone(Ok(()))),
        vec![failed("b", "b broke"), call(Operation::Modify, "c")]
    );
    assert_eq!(agent.dispatcher().outbox_len(), 0);
    assert_eq!(agent.channel().len(), 1);
    assert_eq!(agent.handle(Input::PatchDone(Ok(()))), vec![failed("c", "c broke")]);
}

#[test]
fn bound_on_occupied_pods_is_kept() {
    let mut config = Config::new("node-a");
    config.max_in_flight = Some(1);
    let mut agent = running(config);
    assert_eq!(
        agent.handle(Input::Watch(WatchEvent::Added(pod("a")))),
        vec![call(Operation::Add, "a")]
    );
    assert_eq!(agent.handle(Input::Watch(WatchEvent::Added(pod("b")))), vec![]);
    assert_eq!(
        agent.handle(Input::HandlerDone(key("a"), Ok(()))),
        vec![call(Operation::Add, "b")]
    );
}

#[test]
fn stream_error_event_is_warned_of() {
    let mut agent = running_agent();
    let actions = agent.handle(Input::Watch(WatchEvent::Error("too old".to_string())));
    assert_eq!(actions, vec![Action::Warn("too old".to_string())]);
    assert_eq!(agent.dispatcher().backlog_len(), 0);
    assert_eq!(agent.state(), AgentState::Running);
}

#[test]
fn closed_watch_is_reopened() {
    let mut agent = running_agent();
    assert_eq!(
        agent.handle(Input::WatchClosed(None)),
        vec![Action::OpenWatch("spec.nodeName=node-a".to_string())]
    );
    assert_eq!(
        agent.handle(Input::WatchClosed(Some("connection reset".to_string()))),
        vec![
            Action::Warn("connection reset".to_string()),
            Action::OpenWatch("spec.nodeName=node-a".to_string()),
        ]
    );
    assert_eq!(agent.state(), AgentState::Running);
}

#[test]
fn completion_for_an_idle_pod_changes_nothing() {
    let mut agent = running_agent();
    agent.handle(Input::Watch(WatchEvent::Added(pod("x"))));
    assert_eq!(agent.handle(Input::HandlerDone(key("y"), Err("stray".to_string()))), vec![]);
    assert!(agent.dispatcher().is_running(&key("x")));
    assert!(agent.channel().is_empty());
}

#[test]
fn liveness_is_refreshed_every_interval() {
    let mut agent = Kubelet::new(Config::new("node-a"));
    let mut pending = agent.start(CreateReply::Created).unwrap();
    let mut elapsed: u64 = 0;
    let mut refreshes = 0;
    while elapsed <= 30 {
        let mut next = Vec::new();
        for action in pending {
            match action {
                Action::RefreshLease(name) => {
                    assert_eq!(name, "node-a");
                    refreshes += 1;
                    next.extend(agent.handle(Input::RefreshDone(Ok(()))));
                }
                Action::Sleep(secs) => {
                    assert_eq!(secs, 10);
                    elapsed += secs;
                    if elapsed <= 30 {
                        next.extend(agent.handle(Input::TimerFired));
                    }
                }
                _ => {}
            }
        }
        pending = next;
    }
    assert!(refreshes >= 3);
    assert_eq!(refreshes, 4);
    assert_eq!(agent.lifecycle().attempts(), 4);
}

#[test]
fn failed_refresh_does_not_stop_the_loop() {
    let mut agent = running_agent();
    assert_eq!(
        agent.handle(Input::RefreshDone(Err("timed out".to_string()))),
        vec![Action::Warn("timed out".to_string()), Action::Sleep(10)]
    );
    assert_eq!(agent.lifecycle().failures(), 1);
    assert_eq!(
        agent.handle(Input::TimerFired),
        vec![Action::RefreshLease("node-a".to_string())]
    );
    assert_eq!(agent.handle(Input::RefreshDone(Ok(()))), vec![Action::Sleep(10)]);
    assert_eq!(agent.lifecycle().attempts(), 2);
    assert_eq!(agent.state(), AgentState::Running);
}

#[test]
fn timer_during_a_refresh_is_ignored() {
    let mut agent = running_agent();
    assert_eq!(agent.handle(Input::TimerFired), vec![]);
    assert_eq!(agent.lifecycle().attempts(), 1);
    assert_eq!(agent.handle(Input::RefreshDone(Ok(()))), vec![Action::Sleep(10)]);
    assert_eq!(agent.handle(Input::RefreshDone(Ok(()))), vec![]);
}

#[test]
fn heartbeat_interval_is_configurable() {
    let mut config = Config::new("node-a");
    config.heartbeat_secs = 3;
    let mut agent = running(config);
    assert_eq!(agent.handle(Input::RefreshDone(Ok(()))), vec![Action::Sleep(3)]);
}

#[test]
fn task_error_fails_the_agent() {
    let mut agent = running_agent();
    agent.handle(Input::Watch(WatchEvent::Added(pod("x"))));
    agent.handle(Input::Watch(WatchEvent::Modified(pod("x"))));
    let actions =
        agent.handle(Input::TaskExited(Task::Webserver, Err("address in use".to_string())));
    assert_eq!(actions, vec![Action::Halt]);
    assert_eq!(agent.state(), AgentState::Failed);
    assert_eq!(agent.failure(), Some("address in use"));
    assert_eq!(agent.culprit(), Some(Task::Webserver));
    assert!(!agent.dispatcher().is_open());
    assert_eq!(agent.dispatcher().backlog_len(), 0);
    assert_eq!(agent.dispatcher().running_len(), 0);
}

#[test]
fn graceful_task_exit_fails_the_agent_too() {
    for task in [Task::NodeUpdater, Task::PodInformer, Task::ErrorHandler, Task::Webserver] {
        let mut agent = running_agent();
        assert_eq!(agent.handle(Input::TaskExited(task, Ok(()))), vec![Action::Halt]);
        assert_eq!(agent.state(), AgentState::Failed);
        assert_eq!(agent.failure(), None);
        assert_eq!(agent.culprit(), Some(task));
    }
}

#[test]
fn shutdown_stops_the_agent() {
    let mut agent = running_agent();
    agent.handle(Input::Watch(WatchEvent::Added(pod("x"))));
    assert_eq!(agent.handle(Input::Shutdown), vec![Action::Halt]);
    assert_eq!(agent.state(), AgentState::Stopped);
    assert_eq!(agent.failure(), None);
    assert_eq!(agent.culprit(), None);
    assert!(!agent.dispatcher().is_open());
}

#[test]
fn agent_that_is_down_stays_down() {
    let mut agent = running_agent();
    agent.handle(Input::Shutdown);
    assert_eq!(
        agent.handle(Input::Watch(WatchEvent::Added(pod("x")))),
        vec![Action::Warn("the dispatcher is shut down".to_string())]
    );
    assert_eq!(agent.handle(Input::TimerFired), vec![]);
    assert_eq!(agent.handle(Input::HandlerDone(key("x"), Ok(()))), vec![]);
    assert_eq!(agent.handle(Input::TaskExited(Task::PodInformer, Err("late".to_string()))), vec![]);
    assert_eq!(agent.handle(Input::WatchClosed(None)), vec![]);
    assert_eq!(agent.state(), AgentState::Stopped);
    assert_eq!(agent.start(CreateReply::Created), Err(StartError::AlreadyStarted));
    assert_eq!(agent.dispatcher().backlog_len(), 0);
}

#[test]
fn agent_is_at_rest_after_every_input() {
    let mut config = Config::new("node-a");
    config.error_capacity = 1;
    let mut agent = running(config);
    let names = ["a", "b", "c"];
    let inputs = vec![
        Input::Watch(WatchEvent::Added(pod("a"))),
        Input::Watch(WatchEvent::Added(pod("b"))),
        Input::Watch(WatchEvent::Modified(pod("a"))),
        Input::Watch(WatchEvent::Added(pod("c"))),
        Input::HandlerDone(key("a"), Err("a broke".to_string())),
        Input::Watch(WatchEvent::Modified(pod("b"))),
        Input::HandlerDone(key("b"), Err("b broke".to_string())),
        Input::HandlerDone(key("c"), Err("c broke".to_string())),
        Input::Watch(WatchEvent::Deleted(pod("c"))),
        Input::HandlerDone(key("a"), Ok(())),
        Input::PatchDone(Ok(())),
        Input::HandlerDone(key("b"), Ok(())),
        Input::PatchDone(Err("conflict".to_string())),
        Input::PatchDone(Ok(())),
        Input::HandlerDone(key("c"), Ok(())),
    ];
    let mut calls = Vec::new();
    let mut patches = Vec::new();
    for input in inputs {
        for action in agent.handle(input) {
            match action {
                Action::Invoke(call) => calls.push((call.operation, call.pod.name)),
                Action::Patch(patch) => patches.push(patch.message),
                _ => {}
            }
        }
        for name in names {
            // A pod with a call waiting is itself occupied.
            assert!(agent.dispatcher().depth(&key(name)) == 0 || agent.dispatcher().is_busy(&key(name)));
        }
        // A report waits for room only while the channel is saturated.
        assert!(agent.dispatcher().outbox_len() == 0 || agent.channel().is_full());
        // A report stays in the channel only while a patch is under way.
        assert!(agent.is_patching() || agent.channel().is_empty());
    }
    let of = |name: &str| -> Vec<Operation> {
        calls.iter().filter(|(_, pod)| pod == name).map(|(operation, _)| *operation).collect()
    };
    assert_eq!(of("a"), vec![Operation::Add, Operation::Modify]);
    assert_eq!(of("b"), vec![Operation::Add, Operation::Modify]);
    assert_eq!(of("c"), vec![Operation::Add, Operation::Delete]);
    assert_eq!(patches, vec!["a broke", "b broke", "c broke"]);
    assert_eq!(agent.dispatcher().backlog_len(), 0);
    assert_eq!(agent.dispatcher().running_len(), 0);
}

#[test]
fn channel_without_buffer_hands_reports_over_one_by_one() {
    let mut config = Config::new("node-a");
    config.error_capacity = 0;
    let mut agent = running(config);
    agent.handle(Input::Watch(WatchEvent::Added(pod("a"))));
    agent.handle(Input::Watch(WatchEvent::Added(pod("b"))));
    agent.handle(Input::Watch(WatchEvent::Modified(pod("a"))));
    agent.handle(Input::Watch(WatchEvent::Modified(pod("b"))));
    // Nothing is patched at the moment: the report is taken over at once.
    assert_eq!(
        agent.handle(Input::HandlerDone(key("a"), Err("a broke".to_string()))),
        vec![failed("a", "a broke"), call(Operation::Modify, "a")]
    );
    // A patch is under way: the next failure waits, and so does its pod.
    assert_eq!(agent.handle(Input::HandlerDone(key("b"), Err("b broke".to_string()))), vec![]);
    assert_eq!(agent.dispatcher().outbox_len(), 1);
    assert_eq!(agent.channel().len(), 0);
    assert!(agent.dispatcher().is_busy(&key("b")));
    assert_eq!(
        agent.handle(Input::PatchDone(Ok(()))),
        vec![failed("b", "b broke"), call(Operation::Modify, "b")]
    );
    assert_eq!(agent.dispatcher().outbox_len(), 0);
    assert_eq!(agent.handle(Input::PatchDone(Ok(()))), vec![]);
    assert!(!agent.is_patching());
}

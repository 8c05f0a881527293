use kubelet::pod::{Invocation, Operation, Pod, PodKey, WatchEvent};
use kubelet::queue::{CompleteError, EnqueueError, QueueDispatcher};
use kubelet::reporter::{ErrorReport, ErrorReporter};
use kubelet::status::{merge_patch_text, Phase, StatusPatch};
use kubelet::watch::field_selector;

fn pod_in(namespace: &str, name: &str) -> Pod {
    Pod::new(Some(namespace), name, "manifest")
}

fn invocation(operation: Operation, namespace: &str, name: &str) -> Invocation {
    Invocation { operation, pod: pod_in(namespace, name) }
}

#[test]
fn field_selector_names_the_node() {
    assert_eq!(field_selector("worker-1"), "spec.nodeName=worker-1");
    assert_eq!(field_selector(""), "spec.nodeName=");
}

#[test]
fn pod_key_is_namespace_and_name() {
    let pod = Pod::new(Some("kube-system"), "dns", "{}");
    assert_eq!(pod.key(), PodKey::new("kube-system", "dns"));
    assert!(pod.has_key(&PodKey::new("kube-system", "dns")));
    assert!(!pod.has_key(&PodKey::new("default", "dns")));
    assert!(!pod.has_key(&PodKey::new("kube-system", "proxy")));
    assert!(PodKey::new("a", "b").same(&PodKey::new("a", "b")));
    assert!(!PodKey::new("a", "b").same(&PodKey::new("b", "a")));
}

#[test]
fn pod_without_namespace_lives_in_the_empty_one() {
    let pod = Pod::new(None, "dns", "{}");
    assert_eq!(pod.namespace, None);
    assert_eq!(pod.key(), PodKey::new("", "dns"));
    assert!(pod.has_key(&PodKey::new("", "dns")));
    assert!(!pod.has_key(&PodKey::new("default", "dns")));
    assert!(Pod::new(Some(""), "dns", "{}").has_key(&PodKey::new("", "dns")));
}

#[test]
fn clones_are_equal() {
    let pod = pod_in("default", "x");
    assert_eq!(pod.clone(), pod);
    let key = pod.key();
    assert_eq!(key.clone(), key);
    let call = invocation(Operation::Delete, "default", "x");
    assert_eq!(call.clone(), call);
}

#[test]
fn events_map_to_provider_calls() {
    assert_eq!(
        WatchEvent::Added(pod_in("n", "x")).into_invocation(),
        Ok(invocation(Operation::Add, "n", "x"))
    );
    assert_eq!(
        WatchEvent::Modified(pod_in("n", "x")).into_invocation(),
        Ok(invocation(Operation::Modify, "n", "x"))
    );
    assert_eq!(
        WatchEvent::Deleted(pod_in("n", "x")).into_invocation(),
        Ok(invocation(Operation::Delete, "n", "x"))
    );
    assert_eq!(
        WatchEvent::Error("gone".to_string()).into_invocation(),
        Err("gone".to_string())
    );
    assert_eq!(WatchEvent::Deleted(pod_in("n", "x")).key(), Some(PodKey::new("n", "x")));
    assert_eq!(WatchEvent::Error("gone".to_string()).key(), None);
}

#[test]
fn new_dispatcher_is_empty_and_open() {
    let mut dispatcher = QueueDispatcher::new(None);
    assert!(dispatcher.is_open());
    assert_eq!(dispatcher.backlog_len(), 0);
    assert_eq!(dispatcher.running_len(), 0);
    assert_eq!(dispatcher.outbox_len(), 0);
    assert_eq!(dispatcher.start_next(), None);
    assert_eq!(dispatcher.start_ready(), vec![]);
}

#[test]
fn one_pod_runs_one_call_at_a_time_in_order() {
    let mut dispatcher = QueueDispatcher::new(None);
    let key = PodKey::new("n", "x");
    assert_eq!(dispatcher.enqueue(WatchEvent::Added(pod_in("n", "x"))), Ok(()));
    assert_eq!(dispatcher.enqueue(WatchEvent::Modified(pod_in("n", "x"))), Ok(()));
    assert_eq!(dispatcher.enqueue(WatchEvent::Deleted(pod_in("n", "x"))), Ok(()));
    assert_eq!(dispatcher.depth(&key), 3);
    assert_eq!(dispatcher.start_next(), Some(invocation(Operation::Add, "n", "x")));
    assert!(dispatcher.is_running(&key));
    assert_eq!(dispatcher.start_next(), None);
    assert_eq!(dispatcher.depth(&key), 2);
    assert_eq!(dispatcher.complete(&key, Ok(())), Ok(()));
    assert!(!dispatcher.is_busy(&key));
    assert_eq!(dispatcher.start_next(), Some(invocation(Operation::Modify, "n", "x")));
    assert_eq!(dispatcher.start_next(), None);
    assert_eq!(dispatcher.complete(&key, Ok(())), Ok(()));
    assert_eq!(dispatcher.start_next(), Some(invocation(Operation::Delete, "n", "x")));
    assert_eq!(dispatcher.complete(&key, Ok(())), Ok(()));
    assert_eq!(dispatcher.start_next(), None);
    assert_eq!(dispatcher.depth(&key), 0);
}

#[test]
fn interleaved_pods_run_side_by_side() {
    let mut dispatcher = QueueDispatcher::new(None);
    dispatcher.enqueue(WatchEvent::Added(pod_in("n", "a"))).unwrap();
    dispatcher.enqueue(WatchEvent::Added(pod_in("n", "b"))).unwrap();
    dispatcher.enqueue(WatchEvent::Modified(pod_in("n", "a"))).unwrap();
    dispatcher.enqueue(WatchEvent::Deleted(pod_in("n", "b"))).unwrap();
    assert_eq!(
        dispatcher.start_ready(),
        vec![invocation(Operation::Add, "n", "a"), invocation(Operation::Add, "n", "b")]
    );
    assert_eq!(dispatcher.running_len(), 2);
    assert_eq!(dispatcher.start_ready(), vec![]);
    // b finishes first; a is still at work.
    assert_eq!(dispatcher.complete(&PodKey::new("n", "b"), Ok(())), Ok(()));
    assert_eq!(dispatcher.start_ready(), vec![invocation(Operation::Delete, "n", "b")]);
    assert_eq!(dispatcher.depth(&PodKey::new("n", "a")), 1);
    assert_eq!(dispatcher.complete(&PodKey::new("n", "a"), Ok(())), Ok(()));
    assert_eq!(dispatcher.start_ready(), vec![invocation(Operation::Modify, "n", "a")]);
}

#[test]
fn same_name_in_two_namespaces_is_two_pods() {
    let mut dispatcher = QueueDispatcher::new(None);
    dispatcher.enqueue(WatchEvent::Added(pod_in("one", "x"))).unwrap();
    dispatcher.enqueue(WatchEvent::Added(pod_in("two", "x"))).unwrap();
    assert_eq!(dispatcher.start_ready().len(), 2);
    assert!(dispatcher.is_running(&PodKey::new("one", "x")));
    assert!(dispatcher.is_running(&PodKey::new("two", "x")));
    assert!(!dispatcher.is_running(&PodKey::new("x", "one")));
}

#[test]
fn stream_error_is_taken_in_but_not_queued() {
    let mut dispatcher = QueueDispatcher::new(None);
    assert_eq!(dispatcher.enqueue(WatchEvent::Error("gone".to_string())), Ok(()));
    assert_eq!(dispatcher.backlog_len(), 0);
    assert_eq!(dispatcher.start_next(), None);
}

#[test]
fn enqueue_fails_only_after_shutdown() {
    let mut dispatcher = QueueDispatcher::new(None);
    assert_eq!(dispatcher.enqueue(WatchEvent::Added(pod_in("n", "a"))), Ok(()));
    dispatcher.enqueue(WatchEvent::Added(pod_in("n", "b"))).unwrap();
    dispatcher.start_next();
    dispatcher.shutdown();
    assert!(!dispatcher.is_open());
    assert_eq!(dispatcher.backlog_len(), 0);
    assert_eq!(dispatcher.running_len(), 0);
    assert_eq!(
        dispatcher.enqueue(WatchEvent::Added(pod_in("n", "c"))),
        Err(EnqueueError::ShutDown)
    );
    assert_eq!(
        dispatcher.enqueue(WatchEvent::Error("gone".to_string())),
        Err(EnqueueError::ShutDown)
    );
    assert_eq!(dispatcher.backlog_len(), 0);
    assert_eq!(dispatcher.start_next(), None);
}

#[test]
fn completing_an_idle_pod_is_an_error() {
    let mut dispatcher = QueueDispatcher::new(None);
    dispatcher.enqueue(WatchEvent::Added(pod_in("n", "a"))).unwrap();
    assert_eq!(
        dispatcher.complete(&PodKey::new("n", "a"), Ok(())),
        Err(CompleteError::NotRunning)
    );
    assert_eq!(dispatcher.backlog_len(), 1);
    dispatcher.start_next();
    assert_eq!(
        dispatcher.complete(&PodKey::new("n", "b"), Err("x".to_string())),
        Err(CompleteError::NotRunning)
    );
    assert_eq!(dispatcher.running_len(), 1);
    assert_eq!(dispatcher.outbox_len(), 0);
}

#[test]
fn bound_limits_occupied_pods() {
    let mut dispatcher = QueueDispatcher::new(Some(2));
    dispatcher.enqueue(WatchEvent::Added(pod_in("n", "a"))).unwrap();
    dispatcher.enqueue(WatchEvent::Added(pod_in("n", "b"))).unwrap();
    dispatcher.enqueue(WatchEvent::Added(pod_in("n", "c"))).unwrap();
    assert_eq!(dispatcher.start_ready().len(), 2);
    assert_eq!(dispatcher.start_next(), None);
    assert_eq!(dispatcher.backlog_len(), 1);
    dispatcher.complete(&PodKey::new("n", "a"), Ok(())).unwrap();
    assert_eq!(dispatcher.start_next(), Some(invocation(Operation::Add, "n", "c")));
}

#[test]
fn bound_of_zero_starts_nothing() {
    let mut dispatcher = QueueDispatcher::new(Some(0));
    dispatcher.enqueue(WatchEvent::Added(pod_in("n", "a"))).unwrap();
    assert_eq!(dispatcher.start_next(), None);
    assert_eq!(dispatcher.backlog_len(), 1);
}

#[test]
fn failure_leaves_one_report_and_keeps_the_pod_until_it_is_sent() {
    let mut dispatcher = QueueDispatcher::new(None);
    let mut channel = ErrorReporter::new(4);
    let key = PodKey::new("n", "a");
    dispatcher.enqueue(WatchEvent::Added(pod_in("n", "a"))).unwrap();
    dispatcher.enqueue(WatchEvent::Deleted(pod_in("n", "a"))).unwrap();
    dispatcher.start_next();
    assert_eq!(dispatcher.complete(&key, Err("boom".to_string())), Ok(()));
    assert_eq!(dispatcher.outbox_len(), 1);
    assert!(dispatcher.is_busy(&key));
    assert!(!dispatcher.is_running(&key));
    assert_eq!(dispatcher.start_next(), None);
    assert_eq!(dispatcher.forward_reports(&mut channel), 1);
    assert_eq!(dispatcher.outbox_len(), 0);
    assert!(!dispatcher.is_busy(&key));
    assert_eq!(
        channel.recv(),
        Some(ErrorReport { pod: pod_in("n", "a"), cause: "boom".to_string() })
    );
    assert_eq!(channel.recv(), None);
    assert_eq!(dispatcher.start_next(), Some(invocation(Operation::Delete, "n", "a")));
}

#[test]
fn success_leaves_no_report() {
    let mut dispatcher = QueueDispatcher::new(None);
    let mut channel = ErrorReporter::new(4);
    dispatcher.enqueue(WatchEvent::Added(pod_in("n", "a"))).unwrap();
    dispatcher.start_next();
    dispatcher.complete(&PodKey::new("n", "a"), Ok(())).unwrap();
    assert_eq!(dispatcher.outbox_len(), 0);
    assert_eq!(dispatcher.forward_reports(&mut channel), 0);
    assert!(channel.is_empty());
}

#[test]
fn forwarding_stops_at_the_channels_capacity() {
    let mut dispatcher = QueueDispatcher::new(None);
    let mut channel = ErrorReporter::new(2);
    for name in ["a", "b", "c"] {
        dispatcher.enqueue(WatchEvent::Added(pod_in("n", name))).unwrap();
    }
    dispatcher.start_ready();
    for name in ["c", "a", "b"] {
        dispatcher.complete(&PodKey::new("n", name), Err(format!("{} broke", name))).unwrap();
    }
    assert_eq!(dispatcher.outbox_len(), 3);
    assert_eq!(dispatcher.forward_reports(&mut channel), 2);
    assert_eq!(dispatcher.outbox_len(), 1);
    assert!(channel.is_full());
    assert!(!dispatcher.is_busy(&PodKey::new("n", "c")));
    assert!(!dispatcher.is_busy(&PodKey::new("n", "a")));
    assert!(dispatcher.is_busy(&PodKey::new("n", "b")));
    assert_eq!(dispatcher.forward_reports(&mut channel), 0);
    assert_eq!(
        channel.recv(),
        Some(ErrorReport { pod: pod_in("n", "c"), cause: "c broke".to_string() })
    );
    assert_eq!(dispatcher.forward_reports(&mut channel), 1);
    assert_eq!(
        channel.recv(),
        Some(ErrorReport { pod: pod_in("n", "a"), cause: "a broke".to_string() })
    );
    assert_eq!(
        channel.recv(),
        Some(ErrorReport { pod: pod_in("n", "b"), cause: "b broke".to_string() })
    );
    assert!(!dispatcher.is_busy(&PodKey::new("n", "b")));
}

#[test]
fn oldest_report_is_taken_from_the_channel_first() {
    let mut dispatcher = QueueDispatcher::new(None);
    let mut channel = ErrorReporter::new(1);
    assert_eq!(dispatcher.take_report(&mut channel), None);
    for name in ["a", "b"] {
        dispatcher.enqueue(WatchEvent::Added(pod_in("n", name))).unwrap();
    }
    dispatcher.start_ready();
    for name in ["a", "b"] {
        dispatcher.complete(&PodKey::new("n", name), Err(format!("{} broke", name))).unwrap();
    }
    assert_eq!(dispatcher.forward_reports(&mut channel), 1);
    assert_eq!(
        dispatcher.take_report(&mut channel),
        Some(ErrorReport { pod: pod_in("n", "a"), cause: "a broke".to_string() })
    );
    assert_eq!(dispatcher.outbox_len(), 1);
    assert!(dispatcher.is_busy(&PodKey::new("n", "b")));
    // The channel holds nothing now: the next report comes from the outbox.
    assert_eq!(
        dispatcher.take_report(&mut channel),
        Some(ErrorReport { pod: pod_in("n", "b"), cause: "b broke".to_string() })
    );
    assert_eq!(dispatcher.outbox_len(), 0);
    assert!(!dispatcher.is_busy(&PodKey::new("n", "b")));
    assert_eq!(dispatcher.take_report(&mut channel), None);
}

#[test]
fn channel_is_first_in_first_out_and_bounded() {
    let mut channel = ErrorReporter::new(2);
    assert_eq!(channel.capacity(), 2);
    assert!(channel.is_empty());
    assert!(!channel.is_full());
    let report = |name: &str| ErrorReport { pod: pod_in("n", name), cause: name.to_string() };
    assert_eq!(channel.try_send(report("a")), Ok(()));
    assert_eq!(channel.try_send(report("b")), Ok(()));
    assert!(channel.is_full());
    assert_eq!(channel.len(), 2);
    assert_eq!(channel.try_send(report("c")), Err(report("c")));
    assert_eq!(channel.len(), 2);
    assert_eq!(channel.recv(), Some(report("a")));
    assert_eq!(channel.try_send(report("d")), Ok(()));
    assert_eq!(channel.recv(), Some(report("b")));
    assert_eq!(channel.recv(), Some(report("d")));
    assert_eq!(channel.recv(), None);
}

#[test]
fn channel_without_capacity_takes_nothing() {
    let mut channel = ErrorReporter::new(0);
    assert!(channel.is_full());
    let report = ErrorReport { pod: pod_in("n", "a"), cause: "a".to_string() };
    assert_eq!(channel.try_send(report), Err(ErrorReport {
        pod: pod_in("n", "a"),
        cause: "a".to_string(),
    }));
    assert_eq!(channel.recv(), None);
}

#[test]
fn report_becomes_a_failed_status_patch() {
    let report = ErrorReport { pod: Pod::new(None, "x", "{}"), cause: "no such image".to_string() };
    assert_eq!(
        report.status_patch(),
        StatusPatch {
            namespace: "".to_string(),
            name: "x".to_string(),
            phase: Phase::Failed,
            message: "no such image".to_string(),
        }
    );
    let report = ErrorReport { pod: pod_in("apps", "y"), cause: "".to_string() };
    assert_eq!(report.status_patch().namespace, "apps");
    assert_eq!(report.status_patch().name, "y");
}

#[test]
fn patch_body_is_a_merge_patch() {
    let patch = StatusPatch {
        namespace: "default".to_string(),
        name: "x".to_string(),
        phase: Phase::Failed,
        message: "no such image".to_string(),
    };
    assert_eq!(
        patch.body(),
        "{\"metadata\":{\"resourceVersion\":\"\"},\"status\":{\"phase\":\"Failed\",\"message\":\"no such image\"}}"
    );
}

#[test]
fn merge_patch_wraps_phase_and_message() {
    assert_eq!(
        merge_patch_text("\"Failed\"", "\"boom\""),
        "{\"metadata\":{\"resourceVersion\":\"\"},\"status\":{\"phase\":\"Failed\",\"message\":\"boom\"}}"
    );
    assert_eq!(
        merge_patch_text("1", "null"),
        "{\"metadata\":{\"resourceVersion\":\"\"},\"status\":{\"phase\":1,\"message\":null}}"
    );
    assert_eq!(
        merge_patch_text("", ""),
        "{\"metadata\":{\"resourceVersion\":\"\"},\"status\":{\"phase\":,\"message\":}}"
    );
}

#[test]
fn patch_body_escapes_the_message() {
    let patch = StatusPatch {
        namespace: "default".to_string(),
        name: "x".to_string(),
        phase: Phase::Failed,
        message: "exit \"1\"\nat C:\\run".to_string(),
    };
    assert_eq!(
        patch.body(),
        "{\"metadata\":{\"resourceVersion\":\"\"},\"status\":{\"phase\":\"Failed\",\"message\":\"exit \\\"1\\\"\\nat C:\\\\run\"}}"
    );
    let parsed: serde_json::Value = serde_json::from_str(&patch.body()).unwrap();
    assert_eq!(parsed["status"]["message"].as_str(), Some("exit \"1\"\nat C:\\run"));
    assert_eq!(parsed["status"]["phase"].as_str(), Some("Failed"));
    assert_eq!(parsed["metadata"]["resourceVersion"].as_str(), Some(""));
}

#[test]
fn phases_have_their_words() {
    assert_eq!(Phase::Pending.as_str(), "Pending");
    assert_eq!(Phase::Running.as_str(), "Running");
    assert_eq!(Phase::Succeeded.as_str(), "Succeeded");
    assert_eq!(Phase::Failed.as_str(), "Failed");
    assert_eq!(Phase::Unknown.as_str(), "Unknown");
}

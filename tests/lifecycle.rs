use cnut::planner::InstanceDescriptor;
use cnut::status::{gather, BlockInfo, GatherError, Probe};
use cnut::supervisor::{
    first_error, launch, teardown_targets, toggle, ExitOutcome, NodeStatus, ShutdownPhase, ShutdownState,
    StopAction, Supervision, TaskEnd, Toggle,
};

#[test]
fn stop_of_never_started_instance() {
    let mut s = Supervision::new();
    assert_eq!(s.stop(), StopAction::AlreadyStopped);
    assert!(matches!(s.status, NodeStatus::Stopped(_)));
    assert_eq!(s.process_id, 0);
}

#[test]
fn start_then_stop_ends_stopped() {
    let mut s = Supervision::new();
    s.begin_start();
    assert_eq!(s.status, NodeStatus::Starting);
    let generation = s.spawned(4242);
    assert_eq!(s.status, NodeStatus::Running);
    assert_eq!(s.process_id, 4242);
    assert_eq!(s.stop(), StopAction::Kill);
    s.task_ended(generation, TaskEnd::Killed(ExitOutcome::Exited { code: None }));
    assert_eq!(s.status, NodeStatus::Stopped(ExitOutcome::Exited { code: None }));
    assert_eq!(s.process_id, 0);
}

#[test]
fn process_exiting_by_itself_crashes() {
    let mut s = Supervision::new();
    s.begin_start();
    let generation = s.spawned(7);
    s.task_ended(generation, TaskEnd::Exited(ExitOutcome::Exited { code: Some(0) }));
    assert_eq!(s.status, NodeStatus::Crashed(ExitOutcome::Exited { code: Some(0) }));
    assert_ne!(s.status, NodeStatus::Stopped(ExitOutcome::Exited { code: Some(0) }));
    assert_eq!(s.status.to_string(), "Crashed");
}

#[test]
fn stale_task_report_is_ignored() {
    let mut s = Supervision::new();
    let first = s.spawned(1);
    s.stop();
    let second = s.spawned(2);
    assert_ne!(first, second);
    s.task_ended(first, TaskEnd::Killed(ExitOutcome::Failed));
    assert_eq!(s.status, NodeStatus::Running);
    assert_eq!(s.process_id, 2);
}

#[test]
fn spawn_failure_restores_previous_status() {
    let mut s = Supervision::new();
    let previous = s.status;
    s.begin_start();
    s.spawn_failed(previous);
    assert_eq!(s.status, NodeStatus::default());
}

#[test]
fn status_names_and_toggle() {
    assert_eq!(NodeStatus::Running.to_string(), "Running");
    assert_eq!(NodeStatus::Starting.to_string(), "Starting");
    assert_eq!(NodeStatus::default().to_string(), "Stopped");
    assert!(NodeStatus::Running.running());
    assert!(!NodeStatus::Crashed(ExitOutcome::Failed).running());
    assert_eq!(toggle(&NodeStatus::Running), Toggle::Stop);
    assert_eq!(toggle(&NodeStatus::Crashed(ExitOutcome::Failed)), Toggle::Start);
}

#[test]
fn shutdown_state_transitions() {
    let mut s = ShutdownState::new();
    assert!(!s.must_shut_down());
    s.set_shut_down();
    assert_eq!(s.phase, ShutdownPhase::MustShutDown);
    assert!(s.must_shut_down());
    assert_eq!(s.phase, ShutdownPhase::HasShutDown);
    assert!(!s.must_shut_down());
    s.set_shut_down();
    assert_eq!(s.phase, ShutdownPhase::HasShutDown);
}

#[test]
fn teardown_kills_recorded_processes() {
    assert_eq!(teardown_targets(&vec![0, 12, 0, 9]), vec![1, 3]);
    assert!(teardown_targets(&vec![0, 0]).is_empty());
}

#[test]
fn first_error_is_surfaced() {
    let r: Result<(), &str> = first_error(vec![Ok(()), Err("a"), Ok(()), Err("b")]);
    assert_eq!(r, Err("a"));
    let r: Result<(), &str> = first_error(vec![Ok(()), Ok(())]);
    assert_eq!(r, Ok(()));
}

fn descriptor(name: &str) -> InstanceDescriptor {
    InstanceDescriptor {
        name: name.to_string(),
        data_dir: format!("/net/{name}"),
        artifact_dir: "/bundle".to_string(),
        default_config_path: "/bundle/config.toml".to_string(),
        validator: true,
        index: 0,
        bind_port: 34000,
        rpc_port: 7777,
        rest_port: 8888,
        speculative_execution_port: 6666,
        event_stream_port: 9999,
    }
}

#[test]
fn launch_command_line() {
    let l = launch(&descriptor("a"));
    assert_eq!(l.program, "/bundle/casper-node");
    assert_eq!(l.args, vec!["validator".to_string(), "/net/a/config.toml".to_string()]);
    assert_eq!(l.current_dir, "/net/a");
    assert_eq!(l.full_command, "/bundle/casper-node validator /net/a/config.toml");
}

#[test]
fn gather_with_one_instance_not_started() {
    let r = gather(vec![
        ("c".to_string(), true, Probe::Answered(Some(BlockInfo { era_id: 1, height: 10 }))),
        ("a".to_string(), false, Probe::Unreachable),
        ("b".to_string(), true, Probe::Answered(None)),
    ])
    .ok()
    .unwrap();
    assert_eq!(r.len(), 3);
    let names: Vec<&str> = r.iter().map(|s| s.name.as_str()).collect();
    assert_eq!(names, vec!["a", "b", "c"]);
    assert_eq!(r.iter().filter(|s| !s.running).count(), 1);
    assert!(!r[0].running && r[0].info.is_none());
    assert_eq!(r[2].info, Some(BlockInfo { era_id: 1, height: 10 }));
    assert!(!r[0].validator && r[1].validator);
}

#[test]
fn gather_fails_on_malformed_answer() {
    let r = gather(vec![
        ("a".to_string(), true, Probe::Unreachable),
        ("b".to_string(), true, Probe::Malformed),
    ]);
    assert_eq!(r.err(), Some(GatherError::MalformedStatus));
    assert!(gather(vec![]).ok().unwrap().is_empty());
}

#[test]
fn gather_sorts_like_string_order() {
    let names = ["val/10", "Node_B", "val/2", "Node_AA", "é", "Z"];
    let items = names.iter().map(|n| (n.to_string(), false, Probe::Unreachable)).collect();
    let r = gather(items).ok().unwrap();
    let got: Vec<String> = r.into_iter().map(|s| s.name).collect();
    let mut expected: Vec<String> = names.iter().map(|n| n.to_string()).collect();
    expected.sort();
    assert_eq!(got, expected);
}

#[test]
fn start_counter_wraps_around() {
    let mut s = Supervision::new();
    s.generation = u64::MAX;
    assert_eq!(s.spawned(3), 0);
    assert_eq!(s.status, NodeStatus::Running);
}

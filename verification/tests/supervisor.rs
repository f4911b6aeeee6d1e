use witness_host::{
    convert_host_cli_to_args, run_native_host, ExitStatus, HostCli, HostError, SupervisorAction,
    SupervisorEvent, SupervisorState, TimeLimit,
};

fn request() -> HostCli {
    HostCli {
        l1_head: [1; 32],
        l2_head: [2; 32],
        l2_output_root: [3; 32],
        l2_claim: [4; 32],
        l2_block_number: 42,
        l2_chain_id: 901,
        l2_node_address: Some("http://localhost:9545".to_string()),
        l1_node_address: None,
        l1_beacon_address: None,
        data_dir: Some("data".to_string()),
        exec_command: None,
        server: true,
    }
}

fn limit() -> TimeLimit {
    TimeLimit { secs: 0, subsec_nanos: 200_000_000 }
}

fn exited(code: i32) -> ExitStatus {
    ExitStatus { code: Some(code), signal: None }
}

fn every_state() -> Vec<SupervisorState> {
    vec![
        SupervisorState::Idle,
        SupervisorState::Spawning,
        SupervisorState::Running,
        SupervisorState::Completed,
        SupervisorState::TimedOut,
        SupervisorState::SpawnFailed,
    ]
}

fn every_event() -> Vec<SupervisorEvent> {
    vec![
        SupervisorEvent::Start { target_directory: "/work/target".to_string() },
        SupervisorEvent::Spawned,
        SupervisorEvent::SpawnError { reason: "No such file or directory".to_string() },
        SupervisorEvent::Exited { status: exited(0) },
        SupervisorEvent::WaitError { reason: "interrupted".to_string() },
        SupervisorEvent::DeadlineElapsed,
    ]
}

#[test]
fn start_asks_for_the_release_binary_with_the_request_as_arguments() {
    let (next, action) = run_native_host(
        &request(),
        limit(),
        SupervisorState::Idle,
        SupervisorEvent::Start { target_directory: "/work/target".to_string() },
    );
    assert_eq!(next, SupervisorState::Spawning);
    assert_eq!(
        action,
        SupervisorAction::Spawn {
            target_directory: "/work/target".to_string(),
            profile: "release".to_string(),
            executable: "native_host_runner".to_string(),
            args: convert_host_cli_to_args(&request()),
            env_name: "RUST_LOG".to_string(),
            env_value: "info".to_string(),
        }
    );
    match action {
        SupervisorAction::Spawn { args, .. } => {
            assert_eq!(args.len(), 11);
            assert_eq!(args[4], "--l2-block-number=42");
            assert_eq!(args[10], "--server");
        }
        _ => unreachable!(),
    }
}

#[test]
fn spawned_process_is_waited_for_under_the_limit() {
    let (next, action) =
        run_native_host(&request(), limit(), SupervisorState::Spawning, SupervisorEvent::Spawned);
    assert_eq!(next, SupervisorState::Running);
    assert_eq!(action, SupervisorAction::Wait { limit: limit() });
}

#[test]
fn exit_with_code_zero_before_the_limit_completes_with_that_status() {
    let (next, action) = run_native_host(
        &request(),
        limit(),
        SupervisorState::Running,
        SupervisorEvent::Exited { status: exited(0) },
    );
    assert_eq!(next, SupervisorState::Completed);
    assert_eq!(action, SupervisorAction::Finish { result: Ok(exited(0)) });
}

#[test]
fn failing_or_signalled_exit_is_handed_on_as_it_is() {
    for status in [
        exited(1),
        exited(101),
        exited(-1),
        ExitStatus { code: None, signal: Some(9) },
        ExitStatus { code: None, signal: None },
    ] {
        let (next, action) = run_native_host(
            &request(),
            limit(),
            SupervisorState::Running,
            SupervisorEvent::Exited { status },
        );
        assert_eq!(next, SupervisorState::Completed);
        assert_eq!(action, SupervisorAction::Finish { result: Ok(status) });
    }
}

#[test]
fn elapsed_limit_stops_the_runner_by_name_and_reports_a_timeout() {
    let (next, action) = run_native_host(
        &request(),
        limit(),
        SupervisorState::Running,
        SupervisorEvent::DeadlineElapsed,
    );
    assert_eq!(next, SupervisorState::TimedOut);
    assert_eq!(
        action,
        SupervisorAction::Terminate {
            process_name: "native_host_runner".to_string(),
            log_message: "Native host runner process timed out after 0 seconds".to_string(),
            error: HostError::Timeout { limit: limit() },
        }
    );
}

#[test]
fn timeout_message_counts_whole_seconds() {
    let long = TimeLimit { secs: 7200, subsec_nanos: 999_999_999 };
    let (_, action) = run_native_host(
        &request(),
        long,
        SupervisorState::Running,
        SupervisorEvent::DeadlineElapsed,
    );
    match action {
        SupervisorAction::Terminate { log_message, error, .. } => {
            assert_eq!(log_message, "Native host runner process timed out after 7200 seconds");
            assert_eq!(error.message(), log_message);
            assert_eq!(error, HostError::Timeout { limit: long });
        }
        _ => unreachable!(),
    }
}

#[test]
fn spawn_failure_ends_the_run_without_waiting() {
    let (next, action) = run_native_host(
        &request(),
        limit(),
        SupervisorState::Spawning,
        SupervisorEvent::SpawnError { reason: "No such file or directory".to_string() },
    );
    assert_eq!(next, SupervisorState::SpawnFailed);
    let error = HostError::SpawnFailed { reason: "No such file or directory".to_string() };
    assert_eq!(
        error.message(),
        "Failed to spawn native host runner: No such file or directory"
    );
    assert_eq!(action, SupervisorAction::Finish { result: Err(error) });
}

#[test]
fn failed_wait_is_reported_as_abnormal_termination() {
    let (next, action) = run_native_host(
        &request(),
        limit(),
        SupervisorState::Running,
        SupervisorEvent::WaitError { reason: "interrupted".to_string() },
    );
    assert_eq!(next, SupervisorState::Completed);
    let error = HostError::AbnormalTermination { reason: "interrupted".to_string() };
    assert_eq!(error.message(), "Failed to wait for native host runner: interrupted");
    assert_eq!(action, SupervisorAction::Finish { result: Err(error) });
}

#[test]
fn final_states_ignore_every_event() {
    for state in
        [SupervisorState::Completed, SupervisorState::TimedOut, SupervisorState::SpawnFailed]
    {
        for event in every_event() {
            let (next, action) = run_native_host(&request(), limit(), state, event);
            assert_eq!(next, state);
            assert_eq!(action, SupervisorAction::Ignore);
        }
    }
}

#[test]
fn events_out_of_place_change_nothing() {
    let mut accepted = 0;
    for state in every_state() {
        for event in every_event() {
            let (next, action) = run_native_host(&request(), limit(), state, event);
            if action == SupervisorAction::Ignore {
                assert_eq!(next, state);
            } else {
                assert_ne!(next, state);
                accepted += 1;
            }
        }
    }
    assert_eq!(accepted, 6);
}

#[test]
fn run_that_exits_goes_through_the_states_in_order() {
    let mut state = SupervisorState::Idle;
    let mut seen = vec![state];
    let events = vec![
        SupervisorEvent::Start { target_directory: "target".to_string() },
        SupervisorEvent::Spawned,
        SupervisorEvent::Exited { status: exited(0) },
    ];
    let mut last = SupervisorAction::Ignore;
    for event in events {
        let (next, action) = run_native_host(&request(), limit(), state, event);
        state = next;
        seen.push(state);
        last = action;
    }
    assert_eq!(
        seen,
        vec![
            SupervisorState::Idle,
            SupervisorState::Spawning,
            SupervisorState::Running,
            SupervisorState::Completed,
        ]
    );
    assert_eq!(last, SupervisorAction::Finish { result: Ok(exited(0)) });
}

#[test]
fn run_that_hangs_ends_as_timed_out() {
    let mut state = SupervisorState::Idle;
    let events = vec![
        SupervisorEvent::Start { target_directory: "target".to_string() },
        SupervisorEvent::Spawned,
        SupervisorEvent::DeadlineElapsed,
        SupervisorEvent::Exited { status: ExitStatus { code: None, signal: Some(15) } },
    ];
    let mut actions = Vec::new();
    for event in events {
        let (next, action) = run_native_host(&request(), limit(), state, event);
        state = next;
        actions.push(action);
    }
    assert_eq!(state, SupervisorState::TimedOut);
    assert!(matches!(actions[2], SupervisorAction::Terminate { .. }));
    assert_eq!(actions[3], SupervisorAction::Ignore);
}

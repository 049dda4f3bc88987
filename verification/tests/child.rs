use panesmith::child::{
    build_command, cleanup_failures, effective_child_environment, exit_code, make_process_id,
    reader_spawn_failure, reader_thread_spawn_error, should_skip_unix_sigkill, signal_delivered,
    target_exists, unix_pid, ChildPoll, ChildStatus, KillReply, KillRequest, KillSignal, ReadEvent,
    ReaderNext, ReaderState, ReaderThreadSpawnCleanup, Termination, UnixKillTarget,
};
use panesmith::{
    ChildEnvironmentPolicy, Duration, Instant, IoOperation, KillConfig, PaneConfig, PaneError,
    PtyFrame,
};

const PID: i32 = 4242;

fn at(millis: u64) -> Instant {
    Instant::from_nanos(millis * 1_000_000)
}

fn vars(list: &[(&str, &str)]) -> Vec<(Vec<u8>, Vec<u8>)> {
    list.iter()
        .map(|(name, value)| (name.as_bytes().to_vec(), value.as_bytes().to_vec()))
        .collect()
}

fn words(list: &[Vec<u8>]) -> Vec<String> {
    list.iter()
        .map(|word| String::from_utf8(word.clone()).expect("plain words"))
        .collect()
}

#[derive(Default)]
struct FakeCleanupChild {
    killed: bool,
    waited: bool,
}

impl ReaderThreadSpawnCleanup for FakeCleanupChild {
    fn cleanup_after_reader_thread_spawn_failure(&mut self) -> Vec<String> {
        self.killed = true;
        self.waited = true;
        cleanup_failures(&Ok(()), &Ok(()))
    }
}

#[test]
fn reader_thread_spawn_failures_cleanup_the_already_started_child() {
    let mut child = FakeCleanupChild::default();
    let err = reader_thread_spawn_error("thread quota reached", &mut child);
    assert!(
        matches!(&err, PaneError::Spawn { message }
                if message.contains("failed to spawn PTY reader thread")
                    && message.contains("thread quota reached")),
        "expected mapped spawn error, got {err:?}"
    );
    assert!(
        child.killed,
        "spawn failure should kill the started child process"
    );
    assert!(
        child.waited,
        "spawn failure should reap the started child process"
    );
}

#[test]
fn failed_cleanup_is_told_of_in_the_spawn_error() {
    let failures = cleanup_failures(
        &Err(PaneError::Io {
            operation: IoOperation::Kill,
            message: "no such process".into(),
        }),
        &Err("not a child".into()),
    );
    assert_eq!(failures.len(), 2);
    assert!(failures[0]
        .starts_with("failed to kill spawned child after reader-thread spawn failure: "));
    assert_eq!(
        failures[1],
        "failed to reap spawned child after reader-thread spawn failure: not a child"
    );

    let err = reader_spawn_failure("quota", &vec!["one".into(), "two".into()]);
    assert_eq!(
        err,
        PaneError::Spawn {
            message: "failed to spawn PTY reader thread: quota; one; two".into(),
        }
    );
}

#[test]
fn process_target_sigkill_is_skipped_once_child_exit_is_observed() {
    assert!(
        should_skip_unix_sigkill(UnixKillTarget::Process(PID), true, true),
        "process-target escalation should stop once the child exit flag is observed",
    );
}

#[test]
fn process_target_sigkill_is_not_skipped_when_child_is_still_running() {
    assert!(
        !should_skip_unix_sigkill(UnixKillTarget::Process(PID), false, true),
        "process-target escalation should proceed when child has not exited",
    );
}

#[test]
fn process_group_sigkill_is_not_skipped_only_because_the_child_exited() {
    assert!(
        !should_skip_unix_sigkill(UnixKillTarget::ProcessGroup(PID), true, true),
        "process-group escalation should still be allowed while the group remains alive",
    );
}

#[test]
fn a_target_that_is_gone_needs_no_sigkill() {
    assert!(should_skip_unix_sigkill(UnixKillTarget::Process(PID), false, false));
    assert!(should_skip_unix_sigkill(UnixKillTarget::ProcessGroup(PID), false, false));
}

#[test]
fn descendant_kill_target_falls_back_to_the_child_when_group_is_not_ready() {
    let mut kill = Termination::new(PID, KillConfig::new(Duration::from_secs(5), true));
    assert_eq!(
        kill.advance(false, false, at(0)),
        KillRequest::Probe(UnixKillTarget::ProcessGroup(PID))
    );
    assert_eq!(
        kill.advance(false, false, at(0)),
        KillRequest::Probe(UnixKillTarget::Process(PID))
    );
    assert_eq!(
        kill.advance(true, false, at(0)),
        KillRequest::Signal(UnixKillTarget::Process(PID), KillSignal::Term)
    );
}

#[test]
fn termination_escalates_after_the_grace_period() {
    let child = UnixKillTarget::Process(PID);
    let mut kill = Termination::new(PID, KillConfig::new(Duration::from_millis(15), false));
    assert_eq!(kill.advance(false, false, at(0)), KillRequest::Probe(child));
    assert_eq!(
        kill.advance(true, false, at(0)),
        KillRequest::Signal(child, KillSignal::Term)
    );
    assert_eq!(kill.advance(true, false, at(0)), KillRequest::Probe(child));
    assert_eq!(kill.advance(true, false, at(0)), KillRequest::Probe(child));
    assert_eq!(
        kill.advance(true, false, at(0)),
        KillRequest::Sleep(Duration::from_millis(10))
    );
    assert_eq!(kill.advance(true, false, at(10)), KillRequest::Probe(child));
    assert_eq!(
        kill.advance(true, false, at(10)),
        KillRequest::Sleep(Duration::from_millis(5))
    );
    assert_eq!(kill.advance(true, false, at(15)), KillRequest::Probe(child));
    assert_eq!(kill.advance(true, false, at(15)), KillRequest::Probe(child));
    assert_eq!(
        kill.advance(true, false, at(15)),
        KillRequest::Signal(child, KillSignal::Kill)
    );
    assert_eq!(kill.advance(true, false, at(15)), KillRequest::Finished);
    assert_eq!(kill.advance(true, false, at(15)), KillRequest::Finished);
}

#[test]
fn termination_without_grace_kills_at_once() {
    let child = UnixKillTarget::Process(PID);
    let mut kill = Termination::new(PID, KillConfig::new(Duration::zero(), false));
    assert_eq!(kill.advance(false, false, at(0)), KillRequest::Probe(child));
    assert_eq!(
        kill.advance(true, false, at(0)),
        KillRequest::Signal(child, KillSignal::Term)
    );
    assert_eq!(kill.advance(true, false, at(0)), KillRequest::Probe(child));
    assert_eq!(
        kill.advance(true, false, at(0)),
        KillRequest::Signal(child, KillSignal::Kill)
    );
}

#[test]
fn termination_stops_once_the_child_exit_is_observed() {
    let mut kill = Termination::new(PID, KillConfig::new(Duration::from_secs(5), false));
    assert_eq!(kill.advance(false, true, at(0)), KillRequest::Finished);

    let child = UnixKillTarget::Process(PID);
    let mut kill = Termination::new(PID, KillConfig::new(Duration::from_secs(5), false));
    assert_eq!(kill.advance(false, false, at(0)), KillRequest::Probe(child));
    assert_eq!(
        kill.advance(true, false, at(0)),
        KillRequest::Signal(child, KillSignal::Term)
    );
    assert_eq!(kill.advance(true, true, at(0)), KillRequest::Finished);
}

#[test]
fn kill_replies_are_told_apart() {
    let missing = || KillReply::NoSuchProcess {
        message: "gone".into(),
    };
    let denied = || KillReply::NotPermitted {
        message: "denied".into(),
    };
    assert_eq!(signal_delivered(KillReply::Success), Ok(true));
    assert_eq!(signal_delivered(missing()), Ok(false));
    assert_eq!(
        signal_delivered(denied()),
        Err(PaneError::Io {
            operation: IoOperation::Kill,
            message: "denied".into(),
        })
    );
    assert_eq!(target_exists(KillReply::Success), Ok(true));
    assert_eq!(target_exists(missing()), Ok(false));
    assert_eq!(target_exists(denied()), Ok(true));
    assert!(target_exists(KillReply::Failed {
        message: "other".into(),
    })
    .is_err());
}

#[test]
fn signals_go_to_a_process_or_its_group() {
    assert_eq!(UnixKillTarget::Process(PID).signal_pid(), PID);
    assert_eq!(UnixKillTarget::ProcessGroup(PID).signal_pid(), -PID);
    assert_eq!(unix_pid(7), Ok(7));
    assert!(matches!(
        unix_pid(u32::MAX),
        Err(PaneError::Io {
            operation: IoOperation::Kill,
            ..
        })
    ));
}

#[test]
fn exit_codes_leave_signals_out() {
    let ended = |signaled, code| exit_code(ChildStatus { signaled, code });
    assert_eq!(ended(false, 0), Some(0));
    assert_eq!(ended(false, 3), Some(3));
    assert_eq!(ended(true, 1), None);
    assert_eq!(ended(false, u32::MAX), Some(-1));
}

#[test]
fn reader_numbers_frames_and_waits_at_the_end() {
    let mut reader = ReaderState::new();
    assert_eq!(
        reader.on_read(ReadEvent::Data(b"one".to_vec()), at(1)),
        (
            Some(PtyFrame::Output {
                seq: 1,
                bytes: b"one".to_vec(),
                at: at(1),
            }),
            ReaderNext::Read
        )
    );
    assert_eq!(
        reader.on_read(ReadEvent::Interrupted, at(2)),
        (None, ReaderNext::Read)
    );
    assert_eq!(reader.on_read(ReadEvent::Eof, at(3)), (None, ReaderNext::Wait));
    assert_eq!(
        reader.on_exit(
            Ok(ChildStatus {
                signaled: false,
                code: 7,
            }),
            at(4)
        ),
        PtyFrame::Exited {
            seq: 2,
            code: Some(7),
            at: at(4),
        }
    );
}

#[test]
fn reader_reports_failures_unless_the_child_has_ended() {
    let failed = |child| ReadEvent::Failed {
        message: "broken".into(),
        child,
    };
    let ended = ChildStatus {
        signaled: false,
        code: 0,
    };
    let mut reader = ReaderState::new();
    assert_eq!(
        reader.on_read(failed(ChildPoll::Ended(ended)), at(1)),
        (None, ReaderNext::Ended(ended))
    );
    assert_eq!(
        reader.on_read(failed(ChildPoll::Running), at(1)),
        (
            Some(PtyFrame::Error {
                seq: 1,
                message: "broken".into(),
                at: at(1),
            }),
            ReaderNext::Wait
        )
    );
    assert_eq!(
        reader.on_read(failed(ChildPoll::Failed("lost".into())), at(1)),
        (
            Some(PtyFrame::Error {
                seq: 2,
                message: "pty reader failed: broken; child status poll failed: lost".into(),
                at: at(1),
            }),
            ReaderNext::Wait
        )
    );
    assert_eq!(
        reader.on_exit(Err("echild".into()), at(2)),
        PtyFrame::Error {
            seq: 3,
            message: "child wait failed: echild".into(),
            at: at(2),
        }
    );
}

#[test]
fn process_ids_fall_back_to_a_synthetic_number() {
    assert_eq!(make_process_id(Some(91), 5), "91");
    assert_eq!(make_process_id(None, 5), "5");
}

#[test]
fn an_inheriting_child_runs_directly_with_what_is_configured() {
    let config = PaneConfig::command_with_args("tool", &["-v"])
        .with_env("EXTRA", "yes")
        .with_term_fallback("xterm-256color");
    let host = vars(&[("PATH", "/bin")]);
    let plan = build_command(&config, &host);
    assert_eq!(plan.program, b"tool");
    assert_eq!(words(&plan.args), ["-v"]);
    assert!(!plan.clear_env);
    assert_eq!(
        plan.set_env,
        vars(&[("TERM", "xterm-256color"), ("EXTRA", "yes")])
    );

    let host = vars(&[("TERM", "vt100")]);
    assert_eq!(build_command(&config, &host).set_env, vars(&[("EXTRA", "yes")]));
}

#[test]
fn an_allowlist_lets_only_named_variables_through() {
    let config = PaneConfig::command("tool")
        .with_env_allowlist(&["PATH", "MISSING"])
        .with_env("EXTRA", "yes");
    let host = vars(&[("HOME", "/root"), ("PATH", "/bin")]);
    assert_eq!(
        effective_child_environment(&config, &host),
        vars(&[("PATH", "/bin"), ("EXTRA", "yes")])
    );
    let plan = build_command(&config, &host);
    assert_eq!(plan.program, b"/usr/bin/env");
    assert!(plan.clear_env);
    assert!(plan.set_env.is_empty());
    assert_eq!(words(&plan.args), ["-i", "PATH=/bin", "EXTRA=yes", "tool"]);
}

#[test]
fn a_cleared_environment_still_has_a_terminal() {
    let mut config = PaneConfig::command("tool").with_term_fallback("dumb");
    config.env_policy = ChildEnvironmentPolicy::Clear;
    let host = vars(&[("TERM", "vt100"), ("PATH", "/bin")]);
    assert_eq!(
        effective_child_environment(&config, &host),
        vars(&[("TERM", "dumb")])
    );
}

use std::cell::RefCell;

use panesmith::crossterm_host::{flush_step, plan_restore, plan_suspend};
use panesmith::{
    AttachScreenPolicy, BufferSink, CrosstermTerminalControl, HostFault, HostReply, HostRequest,
    HostTerminalControl, HostWrite, HostWriteStep, RawModeOps, Restoration, Suspension,
    TerminalRestoreToken, TerminalSink, WriteFault,
};

const PUSHED: &str = "\x1b[>0u\x1b[?1000s\x1b[?1002s\x1b[?1003s\x1b[?1015s\x1b[?1006s\
    \x1b[?1000h\x1b[?1002h\x1b[?1003h\x1b[?1015h\x1b[?1006h\x1b[?25h";
const POPPED: &str = "\x1b[?1006r\x1b[?1015r\x1b[?1003r\x1b[?1002r\x1b[?1000r\x1b[<1u";

fn fault(message: &str) -> HostFault {
    HostFault {
        message: message.into(),
    }
}

#[derive(Default)]
struct RawMode {
    on: RefCell<bool>,
    calls: RefCell<Vec<&'static str>>,
}

impl RawModeOps for &RawMode {
    fn is_raw_mode_enabled(&self) -> Result<bool, HostFault> {
        self.calls.borrow_mut().push("read");
        Ok(*self.on.borrow())
    }

    fn enable_raw_mode(&self) -> Result<(), HostFault> {
        self.calls.borrow_mut().push("enable");
        *self.on.borrow_mut() = true;
        Ok(())
    }

    fn disable_raw_mode(&self) -> Result<(), HostFault> {
        self.calls.borrow_mut().push("disable");
        *self.on.borrow_mut() = false;
        Ok(())
    }
}

struct FailingSink {
    writes: Vec<Vec<u8>>,
    failures: usize,
}

impl TerminalSink for FailingSink {
    fn write_all(&mut self, bytes: &[u8]) -> Result<(), HostFault> {
        self.writes.push(bytes.to_vec());
        if self.failures > 0 {
            self.failures -= 1;
            return Err(fault("stdout closed"));
        }
        Ok(())
    }

    fn flush(&mut self) -> Result<(), HostFault> {
        Ok(())
    }
}

#[test]
fn suspending_writes_the_sequences_of_each_policy() {
    let text = |policy, alternate| plan_suspend(policy, true, alternate).0;
    assert_eq!(
        text(AttachScreenPolicy::ReuseHostAlternateScreen, true),
        PUSHED
    );
    assert_eq!(text(AttachScreenPolicy::LeaveAlternateScreen, false), PUSHED);
    assert_eq!(
        text(AttachScreenPolicy::LeaveAlternateScreen, true),
        format!("{PUSHED}\x1b[?1049l")
    );
    assert_eq!(
        text(AttachScreenPolicy::EnterFreshAlternateScreen, false),
        format!("{PUSHED}\x1b[?1049h\x1b[2J\x1b[1;1H")
    );
    assert_eq!(
        text(AttachScreenPolicy::EnterFreshAlternateScreen, true),
        format!("{PUSHED}\x1b[2J\x1b[1;1H")
    );
}

#[test]
fn restoring_undoes_what_suspending_did() {
    let undo = |policy, alternate| plan_restore(&plan_suspend(policy, true, alternate).1);
    assert_eq!(
        undo(AttachScreenPolicy::ReuseHostAlternateScreen, true),
        POPPED
    );
    assert_eq!(
        undo(AttachScreenPolicy::LeaveAlternateScreen, true),
        format!("{POPPED}\x1b[?1049h")
    );
    assert_eq!(
        undo(AttachScreenPolicy::EnterFreshAlternateScreen, false),
        format!("{POPPED}\x1b[?1049l")
    );
    assert_eq!(
        plan_restore(&TerminalRestoreToken::new(
            AttachScreenPolicy::LeaveAlternateScreen
        )),
        ""
    );
}

#[test]
fn control_suspends_and_restores_a_cooked_terminal() {
    let raw = RawMode::default();
    let sink = BufferSink { bytes: Vec::new() };
    let mut control = CrosstermTerminalControl::with_raw_mode_ops(sink, &raw)
        .with_host_alternate_screen(true);
    let mut token = HostTerminalControl::suspend_for_attach(
        &mut control,
        AttachScreenPolicy::LeaveAlternateScreen,
    )
    .expect("suspend");
    assert!(*raw.on.borrow());
    assert!(!token.raw_mode_was_enabled());
    assert!(token.left_host_alternate_screen());
    assert_eq!(
        control.writer().bytes,
        format!("{PUSHED}\x1b[?1049l").into_bytes()
    );

    control.writer_mut().bytes.clear();
    HostTerminalControl::restore_after_attach(&mut control, &mut token).expect("restore");
    assert!(!*raw.on.borrow());
    assert!(token.is_consumed());
    assert_eq!(
        control.writer().bytes,
        format!("{POPPED}\x1b[?1049h").into_bytes()
    );
    assert_eq!(*raw.calls.borrow(), ["read", "enable", "disable"]);
}

#[test]
fn control_leaves_raw_mode_on_where_it_was_on() {
    let raw = RawMode::default();
    *raw.on.borrow_mut() = true;
    let sink = BufferSink { bytes: Vec::new() };
    let mut control = CrosstermTerminalControl::with_raw_mode_ops(sink, &raw);
    let mut token = control
        .suspend(AttachScreenPolicy::ReuseHostAlternateScreen)
        .expect("suspend");
    control.restore(&mut token).expect("restore");
    assert!(*raw.on.borrow());
    assert_eq!(*raw.calls.borrow(), ["read"]);
}

#[test]
fn a_failed_suspension_is_undone() {
    let raw = RawMode::default();
    let sink = FailingSink {
        writes: Vec::new(),
        failures: 1,
    };
    let mut control = CrosstermTerminalControl::with_raw_mode_ops(sink, &raw);
    assert_eq!(
        control.suspend(AttachScreenPolicy::EnterFreshAlternateScreen),
        Err(fault("stdout closed"))
    );
    assert!(!*raw.on.borrow());
    assert_eq!(control.writer().writes.len(), 2);
    assert_eq!(
        control.writer().writes[1],
        format!("{POPPED}\x1b[?1049l").into_bytes()
    );
}

#[test]
fn a_failed_restoration_keeps_the_token() {
    let raw = RawMode::default();
    let sink = FailingSink {
        writes: Vec::new(),
        failures: 0,
    };
    let mut control = CrosstermTerminalControl::with_raw_mode_ops(sink, &raw);
    let mut token = control
        .suspend(AttachScreenPolicy::ReuseHostAlternateScreen)
        .expect("suspend");
    control.writer_mut().failures = 1;
    assert_eq!(control.restore(&mut token), Err(fault("stdout closed")));
    assert!(!token.is_consumed());
    assert!(*raw.on.borrow());
    control.restore(&mut token).expect("second attempt");
    assert!(token.is_consumed());
}

#[test]
fn a_suspension_asks_for_one_thing_at_a_time() {
    let mut suspension = Suspension::new(AttachScreenPolicy::ReuseHostAlternateScreen, false);
    assert_eq!(suspension.request(), HostRequest::Flush);
    suspension.advance(HostReply::Done);
    assert_eq!(suspension.request(), HostRequest::ReadRawMode);
    suspension.advance(HostReply::RawMode(false));
    assert_eq!(suspension.request(), HostRequest::EnableRawMode);
    suspension.advance(HostReply::Done);
    assert_eq!(suspension.request(), HostRequest::Write(PUSHED.into()));
    suspension.advance(HostReply::Done);
    assert_eq!(suspension.request(), HostRequest::Flush);
    suspension.advance(HostReply::Failed(fault("flush refused")));
    assert_eq!(suspension.request(), HostRequest::Write(POPPED.into()));
    suspension.advance(HostReply::Failed(fault("ignored")));
    assert_eq!(suspension.request(), HostRequest::Flush);
    suspension.advance(HostReply::Done);
    assert_eq!(suspension.request(), HostRequest::DisableRawMode);
    assert!(!suspension.is_over());
    suspension.advance(HostReply::Done);
    assert!(suspension.is_over());
    assert_eq!(suspension.request(), HostRequest::Finished);
    assert_eq!(suspension.into_result(), Err(fault("flush refused")));
}

#[test]
fn a_suspension_that_cannot_enter_raw_mode_writes_nothing() {
    for failing in 0..3 {
        let mut suspension = Suspension::new(AttachScreenPolicy::LeaveAlternateScreen, true);
        for step in 0..=failing {
            assert!(!matches!(suspension.request(), HostRequest::Write(_)));
            suspension.advance(if step == failing {
                HostReply::Failed(fault("no terminal"))
            } else if step == 1 {
                HostReply::RawMode(false)
            } else {
                HostReply::Done
            });
        }
        assert!(suspension.is_over());
        assert_eq!(suspension.into_result(), Err(fault("no terminal")));
    }
}

#[test]
fn a_restoration_turns_raw_mode_off_last() {
    let (_, token) = plan_suspend(AttachScreenPolicy::ReuseHostAlternateScreen, false, false);
    let mut restoration = Restoration::new(&token);
    assert_eq!(restoration.request(), HostRequest::Write(POPPED.into()));
    restoration.advance(HostReply::Done);
    assert_eq!(restoration.request(), HostRequest::Flush);
    restoration.advance(HostReply::Done);
    assert_eq!(restoration.request(), HostRequest::DisableRawMode);
    restoration.advance(HostReply::Failed(fault("stuck")));
    assert!(restoration.is_over());
    assert_eq!(restoration.into_result(), Err(fault("stuck")));
}

#[test]
fn host_writes_go_on_after_short_and_blocked_writes() {
    let mut write = HostWrite::new(10);
    assert!(!write.is_done());
    assert_eq!(write.advance(Ok(4)), HostWriteStep::Again);
    assert_eq!(
        write.advance(Err(WriteFault {
            transient: true,
            message: "would block".into(),
        })),
        HostWriteStep::Wait
    );
    assert_eq!(write.written, 4);
    assert_eq!(write.advance(Ok(6)), HostWriteStep::Done);
    assert!(write.is_done());
    assert!(HostWrite::new(0).is_done());
}

#[test]
fn host_writes_give_up_on_empty_and_failed_writes() {
    let mut write = HostWrite::new(3);
    assert_eq!(
        write.advance(Ok(0)),
        HostWriteStep::Failed(fault("failed to write attach bytes"))
    );
    assert_eq!(
        write.advance(Err(WriteFault {
            transient: false,
            message: "closed".into(),
        })),
        HostWriteStep::Failed(fault("closed"))
    );
}

#[test]
fn host_flushes_are_retried_while_they_would_block() {
    assert_eq!(flush_step(Ok(())), HostWriteStep::Done);
    assert_eq!(
        flush_step(Err(WriteFault {
            transient: true,
            message: "would block".into(),
        })),
        HostWriteStep::Wait
    );
    assert_eq!(
        flush_step(Err(WriteFault {
            transient: false,
            message: "closed".into(),
        })),
        HostWriteStep::Failed(fault("closed"))
    );
}

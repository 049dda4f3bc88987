//! The course of an input transaction: its writes with their retries, the
//! echo that is awaited before a submit, and the outcome.
//!
//! A run holds no pane, clock or thread. It asks for one thing at a time and
//! is told what came of it.

use vstd::prelude::*;

use crate::error::{ErrorView, IoOperation, PaneError};
use crate::event::InputKind;
use crate::input_plan::{
    step_views, transaction_error_parts, write_error_parts, written, InputWriteStep, StepView,
};
use crate::input_transaction::{
    InputOutcome, InputRetryConfig, InputTransactionError, InputVerification,
};
use crate::pty::{
    fits, io_failure_view, RetryingWrite, WriteAttempt, WriteProgress, WriteReply,
};
use crate::time::{elapsed_nanos, Duration, Instant};

verus! {

/// How often the pane is looked at while an echo is awaited.
pub open spec fn echo_poll_interval() -> Duration {
    Duration { nanos: 10_000_000 }
}

/// An [`InputTransactionError`] with its text as characters.
pub ghost enum TransactionErrorView {
    Write {
        operation: IoOperation,
        bytes_attempted: nat,
        bytes_written: nat,
        message: Seq<char>,
    },
    VerificationFailed { message: Seq<char> },
    ChildExited,
}

impl View for InputTransactionError {
    type V = TransactionErrorView;

    open spec fn view(&self) -> TransactionErrorView {
        match self {
            InputTransactionError::Write {
                operation,
                bytes_attempted,
                bytes_written,
                message,
            } => TransactionErrorView::Write {
                operation: *operation,
                bytes_attempted: *bytes_attempted as nat,
                bytes_written: *bytes_written as nat,
                message: message@,
            },
            InputTransactionError::VerificationFailed { message } =>
                TransactionErrorView::VerificationFailed { message: message@ },
            InputTransactionError::ChildExited => TransactionErrorView::ChildExited,
        }
    }
}

/// An [`InputOutcome`] with its errors as a sequence.
pub ghost struct InputOutcomeView {
    pub bytes_sent: usize,
    pub echoed: bool,
    pub submitted: bool,
    pub timed_out: bool,
    pub child_exited: bool,
    pub errors: Seq<TransactionErrorView>,
}

impl View for InputOutcome {
    type V = InputOutcomeView;

    open spec fn view(&self) -> InputOutcomeView {
        InputOutcomeView {
            bytes_sent: self.bytes_sent,
            echoed: self.echoed,
            submitted: self.submitted,
            timed_out: self.timed_out,
            child_exited: self.child_exited,
            errors: self.errors@.map_values(|e: InputTransactionError| e@),
        }
    }
}

/// Nothing sent, nothing seen, nothing wrong.
pub open spec fn empty_outcome() -> InputOutcomeView {
    InputOutcomeView {
        bytes_sent: 0,
        echoed: false,
        submitted: false,
        timed_out: false,
        child_exited: false,
        errors: seq![],
    }
}

/// A count of bytes, held at the largest value that fits.
pub open spec fn capped(n: int) -> usize {
    if n <= usize::MAX {
        n as usize
    } else {
        usize::MAX
    }
}

impl InputOutcomeView {
    /// With one more error.
    pub open spec fn with_error(self, error: TransactionErrorView) -> InputOutcomeView {
        InputOutcomeView { errors: self.errors.push(error), ..self }
    }

    /// With so many more bytes sent.
    pub open spec fn with_bytes(self, n: usize) -> InputOutcomeView {
        InputOutcomeView { bytes_sent: capped(self.bytes_sent + n), ..self }
    }

    /// With the child gone.
    pub open spec fn without_child(self) -> InputOutcomeView {
        InputOutcomeView { child_exited: true, ..self }
    }
}

/// What a run asks for.
#[derive(Debug, PartialEq, Eq)]
pub enum TransactionRequest {
    /// Tell whether the pane has ended.
    Status,
    /// Take in the child's pending output, then tell whether the pane has
    /// ended.
    Poll,
    /// Make one attempt to write the pending bytes, or flush.
    Write(WriteAttempt),
    /// Read the clock.
    Clock,
    /// Wait.
    Sleep(Duration),
    /// Take in the child's pending output, then tell whether the pane's text
    /// passes the verification and whether the pane has ended.
    Observe,
    /// Nothing more: the run is over.
    Finished,
}

/// What came of a request.
#[derive(Debug, PartialEq, Eq)]
pub enum TransactionReply {
    /// Whether the pane has ended.
    Ended(bool),
    /// What the write came to.
    Wrote(WriteReply),
    /// The clock's reading.
    Clock(Instant),
    /// The wait is over.
    Slept,
    /// What the pane shows.
    Observed {
        /// Whether its text passes the verification.
        echoed: bool,
        /// Whether it has ended.
        ended: bool,
    },
}

/// Something for the pane's event log.
#[derive(Debug, PartialEq, Eq)]
pub enum TransactionNote {
    /// Input was sent.
    Sent {
        /// Kind of the input.
        input_kind: InputKind,
        /// Number of bytes.
        bytes_len: usize,
    },
    /// A write failed.
    Failed(PaneError),
}

/// A [`TransactionNote`] with its error as a view.
pub ghost enum TransactionNoteView {
    Sent { input_kind: InputKind, bytes_len: usize },
    Failed(ErrorView),
}

impl View for TransactionNote {
    type V = TransactionNoteView;

    open spec fn view(&self) -> TransactionNoteView {
        match self {
            TransactionNote::Sent { input_kind, bytes_len } => TransactionNoteView::Sent {
                input_kind: *input_kind,
                bytes_len: *bytes_len,
            },
            TransactionNote::Failed(error) => TransactionNoteView::Failed(error@),
        }
    }
}

/// The view of an optional note.
pub open spec fn note_view(note: Option<TransactionNote>) -> Option<TransactionNoteView> {
    match note {
        Some(n) => Some(n@),
        None => None,
    }
}

/// What a run is waiting for.
#[derive(Debug, Clone, Copy, PartialEq, Eq, Structural)]
pub enum RunPhase {
    /// Whether the pane has ended, before a step.
    Checking,
    /// A write of the step.
    Writing,
    /// The retry delay.
    Pausing,
    /// Whether the pane has ended, after a step.
    Polling,
    /// The time at which verification starts.
    Starting,
    /// What the pane shows.
    Observing,
    /// The time, to see whether verification goes on.
    Timing,
    /// The next look at the pane.
    Waiting(Duration),
    /// Nothing.
    Done,
}

/// A run with its steps as a sequence.
pub ghost struct RunView {
    pub steps: Seq<StepView>,
    pub index: nat,
    pub deadline: Option<Duration>,
    pub retry: InputRetryConfig,
    pub verified: bool,
    pub phase: RunPhase,
    pub writer: RetryingWrite,
    pub started: Instant,
    pub outcome: InputOutcomeView,
}

impl RunView {
    /// What the run asks for.
    pub open spec fn request(self) -> TransactionRequest {
        match self.phase {
            RunPhase::Checking => TransactionRequest::Status,
            RunPhase::Writing => TransactionRequest::Write(self.writer.due()),
            RunPhase::Pausing => TransactionRequest::Sleep(self.retry.retry_delay),
            RunPhase::Polling => TransactionRequest::Poll,
            RunPhase::Starting => TransactionRequest::Clock,
            RunPhase::Observing => TransactionRequest::Observe,
            RunPhase::Timing => TransactionRequest::Clock,
            RunPhase::Waiting(span) => TransactionRequest::Sleep(span),
            RunPhase::Done => TransactionRequest::Finished,
        }
    }

    /// Whether a reply answers what the run asks for.
    pub open spec fn awaits(self, reply: TransactionReply) -> bool {
        match reply {
            TransactionReply::Ended(_) => self.phase == RunPhase::Checking || self.phase
                == RunPhase::Polling,
            TransactionReply::Wrote(w) => self.phase == RunPhase::Writing && fits(
                w,
                self.writer.due(),
                self.writer.total as nat,
            ),
            TransactionReply::Clock(_) => self.phase == RunPhase::Starting || self.phase
                == RunPhase::Timing,
            TransactionReply::Slept => self.phase == RunPhase::Pausing || self.phase is Waiting,
            TransactionReply::Observed { .. } => self.phase == RunPhase::Observing,
        }
    }

    /// The step at hand.
    pub open spec fn step(self) -> StepView {
        self.steps[self.index as int]
    }

    /// At another phase.
    pub open spec fn at(self, phase: RunPhase) -> RunView {
        RunView { phase, ..self }
    }

    /// Over, with one more error.
    pub open spec fn over(self, error: TransactionErrorView) -> RunView {
        RunView { phase: RunPhase::Done, outcome: self.outcome.with_error(error), ..self }
    }

    /// Before the step at hand; past the last one, before the verification
    /// that is still owed, if any.
    pub open spec fn turned(self) -> RunView {
        if self.index < self.steps.len() {
            self.at(RunPhase::Checking)
        } else if self.verified || self.deadline is None {
            self.at(RunPhase::Done)
        } else {
            self.at(RunPhase::Starting)
        }
    }

    /// Writing the step at hand; a step without bytes is written already.
    pub open spec fn begun(self) -> RunView {
        if self.step().bytes.len() == 0 {
            self.at(RunPhase::Polling)
        } else {
            RunView {
                phase: RunPhase::Writing,
                writer: RetryingWrite {
                    total: self.step().bytes.len() as usize,
                    written: 0,
                    retries: 0,
                    max_retries: self.retry.max_transient_retries,
                    delay: self.retry.retry_delay,
                },
                ..self
            }
        }
    }

    /// After the check before a step.
    pub open spec fn checked(self, ended: bool) -> RunView {
        if ended {
            RunView { outcome: self.outcome.without_child(), ..self }.over(
                TransactionErrorView::ChildExited,
            )
        } else if self.step().submits && self.deadline is Some && !self.verified {
            self.at(RunPhase::Starting)
        } else {
            self.begun()
        }
    }

    /// After a step was written and flushed.
    pub open spec fn sent(self) -> RunView {
        let outcome = self.outcome.with_bytes(self.writer.written);
        RunView {
            phase: RunPhase::Polling,
            outcome: InputOutcomeView {
                submitted: self.outcome.submitted || self.step().submits,
                ..outcome
            },
            ..self
        }
    }

    /// After a write that failed for good.
    pub open spec fn broken(self, error: ErrorView) -> RunView {
        RunView { outcome: self.outcome.with_bytes(self.writer.written), ..self }.over(
            TransactionErrorView::Write {
                operation: write_error_parts(error).0,
                bytes_attempted: self.writer.total as nat,
                bytes_written: self.writer.written as nat,
                message: write_error_parts(error).1,
            },
        )
    }

    /// The failure that an attempt came to, if it is final.
    pub open spec fn write_failure(self, reply: WriteReply) -> Option<ErrorView> {
        match reply {
            WriteReply::Wrote(n) => if n == 0 {
                Some(io_failure_view(IoOperation::Write, "write returned zero bytes"@))
            } else {
                None
            },
            WriteReply::Flushed => None,
            WriteReply::Fault(fault) => if fault.transient && self.writer.retries
                < self.writer.max_retries {
                None
            } else {
                Some(io_failure_view(self.writer.operation(), fault.message@))
            },
        }
    }

    /// After one attempt.
    pub open spec fn wrote(self, reply: WriteReply) -> RunView {
        match self.write_failure(reply) {
            Some(error) => self.broken(error),
            None => match reply {
                WriteReply::Wrote(n) => RunView {
                    writer: RetryingWrite {
                        written: (self.writer.written + n) as usize,
                        retries: 0,
                        ..self.writer
                    },
                    ..self
                },
                WriteReply::Flushed => self.sent(),
                WriteReply::Fault(_) => RunView {
                    phase: RunPhase::Pausing,
                    writer: RetryingWrite {
                        retries: (self.writer.retries + 1) as usize,
                        ..self.writer
                    },
                    ..self
                },
            },
        }
    }

    /// After the look at the pane that follows a step.
    pub open spec fn polled(self, ended: bool) -> RunView {
        let outcome = if ended {
            self.outcome.without_child()
        } else {
            self.outcome
        };
        let next = RunView { outcome, ..self };
        if ended && self.index + 1 < self.steps.len() {
            next.over(TransactionErrorView::ChildExited)
        } else {
            RunView { index: self.index + 1, ..next }.turned()
        }
    }

    /// After a verification came to an end: before a submit, the step goes on
    /// only if the echo was seen.
    pub open spec fn settled(self) -> RunView {
        if self.index < self.steps.len() {
            let next = RunView { verified: true, ..self };
            if self.outcome.echoed {
                next.begun()
            } else {
                next.at(RunPhase::Done)
            }
        } else {
            self.at(RunPhase::Done)
        }
    }

    /// After a look at the pane.
    pub open spec fn observed(self, echoed: bool, ended: bool) -> RunView {
        if echoed {
            RunView {
                outcome: InputOutcomeView { echoed: true, ..self.outcome },
                ..self
            }.settled()
        } else if ended {
            RunView {
                outcome: self.outcome.without_child().with_error(
                    TransactionErrorView::VerificationFailed {
                        message: "child exited before echo verification succeeded"@,
                    },
                ),
                ..self
            }.settled()
        } else {
            self.at(RunPhase::Timing)
        }
    }

    /// After a look at the clock.
    pub open spec fn timed(self, now: Instant) -> RunView {
        let elapsed = elapsed_nanos(self.started, now);
        let timeout = self.deadline->0.nanos;
        if elapsed >= timeout {
            RunView {
                outcome: InputOutcomeView { timed_out: true, ..self.outcome }.with_error(
                    TransactionErrorView::VerificationFailed {
                        message: "echo verification timed out"@,
                    },
                ),
                ..self
            }.settled()
        } else if timeout - elapsed < echo_poll_interval().nanos {
            self.at(RunPhase::Waiting(Duration { nanos: (timeout - elapsed) as u128 }))
        } else {
            self.at(RunPhase::Waiting(echo_poll_interval()))
        }
    }

    /// After a reply.
    pub open spec fn after(self, reply: TransactionReply) -> RunView {
        match reply {
            TransactionReply::Ended(ended) => if self.phase == RunPhase::Checking {
                self.checked(ended)
            } else {
                self.polled(ended)
            },
            TransactionReply::Wrote(w) => self.wrote(w),
            TransactionReply::Clock(now) => if self.phase == RunPhase::Starting {
                RunView { started: now, phase: RunPhase::Observing, ..self }
            } else {
                self.timed(now)
            },
            TransactionReply::Slept => if self.phase == RunPhase::Pausing {
                self.at(RunPhase::Writing)
            } else {
                self.at(RunPhase::Observing)
            },
            TransactionReply::Observed { echoed, ended } => self.observed(echoed, ended),
        }
    }

    /// What a reply adds to the pane's event log.
    pub open spec fn note(self, reply: TransactionReply) -> Option<TransactionNoteView> {
        match reply {
            TransactionReply::Wrote(w) => match self.write_failure(w) {
                Some(error) => Some(TransactionNoteView::Failed(error)),
                None => if w is Flushed {
                    Some(
                        TransactionNoteView::Sent {
                            input_kind: self.step().input_kind,
                            bytes_len: self.writer.written,
                        },
                    )
                } else {
                    None
                },
            },
            _ => None,
        }
    }

    /// The bytes of the steps that were written whole.
    pub open spec fn whole_bytes(self) -> nat {
        if self.phase == RunPhase::Polling {
            written(self.steps.take(self.index as int + 1)).len()
        } else {
            written(self.steps.take(self.index as int)).len()
        }
    }

    /// What holds of every run.
    pub open spec fn valid(self) -> bool {
        &&& self.index <= self.steps.len()
        &&& forall|i: int|
            0 <= i < self.steps.len() ==> (#[trigger] self.steps[i]).bytes.len() <= usize::MAX
        &&& self.phase == RunPhase::Checking || self.phase == RunPhase::Writing || self.phase
            == RunPhase::Pausing || self.phase == RunPhase::Polling ==> self.index
            < self.steps.len()
        &&& self.phase == RunPhase::Writing || self.phase == RunPhase::Pausing ==> {
            &&& self.writer.valid()
            &&& self.writer.total == self.step().bytes.len()
            &&& self.writer.max_retries == self.retry.max_transient_retries
            &&& self.writer.delay == self.retry.retry_delay
        }
        &&& self.phase == RunPhase::Pausing ==> self.writer.retries > 0
        &&& self.phase == RunPhase::Starting || self.phase == RunPhase::Observing || self.phase
            == RunPhase::Timing || self.phase is Waiting ==> self.deadline is Some
            && !self.verified && (self.index < self.steps.len() ==> self.step().submits)
        // What was written so far is accounted for, unless something failed.
        &&& self.outcome.errors.len() == 0 ==> self.outcome.bytes_sent == capped(
            self.whole_bytes() as int,
        )
        // A run that went well went through all its steps.
        &&& self.phase == RunPhase::Done && self.outcome.errors.len() == 0 ==> self.index
            == self.steps.len() && (self.deadline is Some ==> self.outcome.echoed)
        &&& self.outcome.timed_out ==> self.outcome.errors.len() > 0
        // Nothing is submitted before its echo was seen.
        &&& self.verified && !(self.phase is Done) ==> self.outcome.echoed
        &&& self.deadline is Some && !self.outcome.echoed ==> !self.outcome.submitted
        &&& (self.phase == RunPhase::Writing || self.phase == RunPhase::Pausing || self.phase
            == RunPhase::Polling) && self.deadline is Some && self.step().submits
            ==> self.outcome.echoed
    }
}

proof fn lemma_written_grows(steps: Seq<StepView>, k: int)
    requires
        0 <= k < steps.len(),
    ensures
        written(steps.take(k + 1)) == written(steps.take(k)) + steps[k].bytes,
    decreases k,
{
    let more = steps.take(k + 1);
    let fewer = steps.take(k);
    if k == 0 {
        assert(more.skip(1).len() == 0);
        assert(written(more.skip(1)) =~= Seq::<u8>::empty());
        assert(written(fewer) =~= Seq::<u8>::empty());
        assert(written(more) =~= written(fewer) + steps[k].bytes);
    } else {
        let rest = steps.skip(1);
        lemma_written_grows(rest, k - 1);
        assert(more.skip(1) =~= rest.take(k));
        assert(fewer.skip(1) =~= rest.take(k - 1));
        assert(written(more) =~= written(fewer) + steps[k].bytes);
    }
}

/// Whatever the replies, a run stays valid. So a submit is written only after
/// the awaited echo was seen, a run without errors has written every step, and
/// the bytes it reports are those it wrote.
pub proof fn law_runs_stay_valid(run: RunView, reply: TransactionReply)
    requires
        run.valid(),
        run.awaits(reply),
    ensures
        run.after(reply).valid(),
{
    let next = run.after(reply);
    if run.index < run.steps.len() {
        lemma_written_grows(run.steps, run.index as int);
    }
}

/// A run that ends without errors has sent the bytes of all its steps, has
/// seen the echo if one was awaited, and did not time out.
pub proof fn law_success_is_complete(run: RunView)
    requires
        run.valid(),
        run.phase == RunPhase::Done,
        run.outcome.errors.len() == 0,
    ensures
        run.outcome.bytes_sent == capped(written(run.steps).len() as int),
        run.deadline is Some ==> run.outcome.echoed,
        !run.outcome.timed_out,
{
    assert(run.steps.take(run.index as int) =~= run.steps);
}

/// The number of bytes sent never shrinks, and what was seen stays seen.
pub proof fn law_outcome_only_grows(run: RunView, reply: TransactionReply)
    requires
        run.valid(),
        run.awaits(reply),
    ensures
        run.outcome.bytes_sent <= run.after(reply).outcome.bytes_sent,
        run.outcome.echoed ==> run.after(reply).outcome.echoed,
        run.outcome.submitted ==> run.after(reply).outcome.submitted,
        run.outcome.child_exited ==> run.after(reply).outcome.child_exited,
        run.outcome.errors.is_prefix_of(run.after(reply).outcome.errors),
{
}

/// A run begins by looking at the pane and goes through its steps in order, each
/// written from its first byte on with no retries used up. A pane that has ended
/// is written nothing, and the run says so.
pub proof fn law_runs_begin(
    steps: Seq<StepView>,
    deadline: Option<Duration>,
    retry: InputRetryConfig,
)
    ensures
        ({
            let run = fresh_run(steps, deadline, retry, false);
            let gone = fresh_run(steps, deadline, retry, true);
            &&& run.outcome == empty_outcome()
            &&& run.index == 0
            &&& steps.len() > 0 ==> run.request() is Status
            &&& steps.len() == 0 && deadline is None ==> run.request() is Finished
            &&& steps.len() == 0 && deadline is Some ==> run.request() is Clock
            &&& gone.request() is Finished
            &&& gone.outcome.child_exited
            &&& gone.outcome.bytes_sent == 0
            &&& gone.outcome.errors == seq![TransactionErrorView::ChildExited]
        }),
{
    assert(empty_outcome().errors.push(TransactionErrorView::ChildExited) =~= seq![
        TransactionErrorView::ChildExited,
    ]);
}

/// A write goes on from where it stands, and is flushed once all is written.
pub proof fn law_writes_go_on(run: RunView)
    requires
        run.valid(),
        run.phase == RunPhase::Writing,
    ensures
        run.request() == TransactionRequest::Write(
            if run.writer.written < run.step().bytes.len() {
                WriteAttempt::Write { from: run.writer.written }
            } else {
                WriteAttempt::Flush
            },
        ),
{
}

/// Before a step the pane is looked at: one that has ended is written nothing
/// more, and the run says so. A step that submits waits for the echo where one
/// is awaited and not seen yet; any other step is written, whole and from its
/// start, with all its retries; a step without bytes is passed over.
pub proof fn law_steps_are_begun(run: RunView, ended: bool)
    requires
        run.valid(),
        run.phase == RunPhase::Checking,
    ensures
        ({
            let next = run.after(TransactionReply::Ended(ended));
            &&& next.index == run.index
            &&& next.steps == run.steps
            &&& if ended {
                &&& next.request() is Finished
                &&& next.outcome.child_exited
                &&& next.outcome.bytes_sent == run.outcome.bytes_sent
                &&& next.outcome.errors == run.outcome.errors.push(
                    TransactionErrorView::ChildExited,
                )
            } else if run.step().submits && run.deadline is Some && !run.verified {
                next.request() is Clock && next.outcome == run.outcome
            } else if run.step().bytes.len() == 0 {
                next.request() is Poll && next.outcome == run.outcome
            } else {
                &&& next.request() is Write
                &&& next.outcome == run.outcome
                &&& next.writer.total == run.step().bytes.len()
                &&& next.writer.written == 0
                &&& next.writer.retries == 0
                &&& next.writer.max_retries == run.retry.max_transient_retries
            }
        }),
{
}

/// What one attempt comes to: bytes that were written count on from there with
/// all retries; a fault that may pass is tried again after the delay, as often
/// as the retries allow, from where the write stood; a write that takes nothing
/// or a fault that stays ends the run with what was written so far. A step that
/// is flushed is booked with its bytes, and one that submits has submitted.
pub proof fn law_attempts(run: RunView, reply: WriteReply)
    requires
        run.valid(),
        run.awaits(TransactionReply::Wrote(reply)),
    ensures
        ({
            let next = run.after(TransactionReply::Wrote(reply));
            let again = next.after(TransactionReply::Slept);
            let sent = capped(run.outcome.bytes_sent + run.writer.written);
            let note = run.note(TransactionReply::Wrote(reply));
            match reply {
                WriteReply::Wrote(n) => if n > 0 {
                    &&& next.request() is Write
                    &&& next.writer.written == run.writer.written + n
                    &&& next.writer.retries == 0
                    &&& next.outcome == run.outcome
                    &&& note is None
                } else {
                    &&& next.request() is Finished
                    &&& next.outcome.bytes_sent == sent
                    &&& next.outcome.errors.len() == run.outcome.errors.len() + 1
                    &&& note is Some && note->0 is Failed
                },
                WriteReply::Flushed => {
                    &&& next.request() is Poll
                    &&& next.outcome.bytes_sent == sent
                    &&& next.outcome.submitted == (run.outcome.submitted || run.step().submits)
                    &&& next.outcome.errors == run.outcome.errors
                    &&& note == Some(
                        TransactionNoteView::Sent {
                            input_kind: run.step().input_kind,
                            bytes_len: run.writer.written,
                        },
                    )
                },
                WriteReply::Fault(fault) => if fault.transient && run.writer.retries
                    < run.retry.max_transient_retries {
                    &&& next.request() == TransactionRequest::Sleep(run.retry.retry_delay)
                    &&& next.outcome == run.outcome
                    &&& again.request() == run.request()
                    &&& again.writer.written == run.writer.written
                    &&& again.writer.retries == run.writer.retries + 1
                    &&& note is None
                } else {
                    &&& next.request() is Finished
                    &&& next.outcome.bytes_sent == sent
                    &&& next.outcome.submitted == run.outcome.submitted
                    &&& next.outcome.errors.len() == run.outcome.errors.len() + 1
                    &&& next.outcome.errors.last() == (TransactionErrorView::Write {
                        operation: if run.writer.written < run.writer.total {
                            IoOperation::Write
                        } else {
                            IoOperation::Flush
                        },
                        bytes_attempted: run.step().bytes.len(),
                        bytes_written: run.writer.written as nat,
                        message: fault.message@,
                    })
                    &&& note is Some && note->0 is Failed
                },
            }
        }),
{
}

/// After a step the pane is looked at again: the next step follows, unless the
/// pane has ended before it. Past the last step the run is over, unless an echo
/// is awaited that was not seen yet.
pub proof fn law_steps_follow_each_other(run: RunView, ended: bool)
    requires
        run.valid(),
        run.phase == RunPhase::Polling,
    ensures
        ({
            let next = run.after(TransactionReply::Ended(ended));
            let last = run.index + 1 == run.steps.len();
            &&& next.outcome.child_exited == (run.outcome.child_exited || ended)
            &&& next.outcome.bytes_sent == run.outcome.bytes_sent
            &&& ended && !last ==> {
                &&& next.request() is Finished
                &&& next.outcome.errors == run.outcome.errors.push(
                    TransactionErrorView::ChildExited,
                )
            }
            &&& !ended && !last ==> next.request() is Status && next.index == run.index + 1
            &&& last && (run.verified || run.deadline is None) ==> next.request() is Finished
            &&& last && !run.verified && run.deadline is Some ==> next.request() is Clock
            &&& !ended || last ==> next.outcome.errors == run.outcome.errors
        }),
{
}

/// An echo is waited for from the first reading on: the pane is looked at, and
/// looked at again every ten milliseconds, until the echo is seen, the pane has
/// ended, or the deadline has passed. The last wait is no longer than what is
/// left.
pub proof fn law_echoes_are_awaited(run: RunView, now: Instant, ended: bool)
    requires
        run.valid(),
        run.phase == RunPhase::Starting || run.phase == RunPhase::Observing || run.phase
            == RunPhase::Timing || run.phase is Waiting,
    ensures
        run.phase == RunPhase::Starting ==> ({
            let next = run.after(TransactionReply::Clock(now));
            next.request() is Observe && next.started == now && next.outcome == run.outcome
        }),
        run.phase is Waiting ==> ({
            let next = run.after(TransactionReply::Slept);
            next.request() is Observe && next.started == run.started && next.outcome == run.outcome
        }),
        run.phase == RunPhase::Observing ==> ({
            let next = run.after(TransactionReply::Observed { echoed: false, ended });
            &&& !ended ==> next.request() is Clock && next.phase == RunPhase::Timing && next.outcome
                == run.outcome
            &&& ended ==> {
                &&& next.request() is Finished
                &&& next.outcome.child_exited
                &&& !next.outcome.timed_out || run.outcome.timed_out
                &&& next.outcome.errors.len() == run.outcome.errors.len() + 1
                &&& next.outcome.errors.last() is VerificationFailed
                &&& next.outcome.submitted == run.outcome.submitted
            } || run.outcome.echoed
        }),
        run.phase == RunPhase::Timing ==> ({
            let next = run.after(TransactionReply::Clock(now));
            let passed: int = if now.nanos >= run.started.nanos {
                now.nanos - run.started.nanos
            } else {
                0
            };
            let left = run.deadline->0.nanos - passed;
            if left <= 0 {
                &&& next.outcome.timed_out
                &&& next.outcome.errors.len() == run.outcome.errors.len() + 1
                &&& next.outcome.errors.last() is VerificationFailed
                &&& next.outcome.submitted == run.outcome.submitted
                &&& next.request() is Finished || run.outcome.echoed
            } else {
                &&& next.request() matches TransactionRequest::Sleep(span) && span.nanos == (if left
                    < 10_000_000 {
                    left
                } else {
                    10_000_000
                })
                &&& next.outcome == run.outcome
            }
        }),
{
}

/// Once the echo is seen, the step that waited for it is written; where none
/// waited, the run is over. Either way the echo counts as seen and nothing as
/// wrong.
pub proof fn law_seen_echoes_let_go(run: RunView, ended: bool)
    requires
        run.valid(),
        run.phase == RunPhase::Observing,
    ensures
        ({
            let next = run.after(TransactionReply::Observed { echoed: true, ended });
            &&& next.outcome.echoed
            &&& next.outcome.errors == run.outcome.errors
            &&& next.outcome.timed_out == run.outcome.timed_out
            &&& next.outcome.bytes_sent == run.outcome.bytes_sent
            &&& next.index == run.index
            &&& if run.index == run.steps.len() {
                next.request() is Finished
            } else if run.step().bytes.len() == 0 {
                next.request() is Poll
            } else {
                &&& next.request() is Write
                &&& next.writer.total == run.step().bytes.len()
                &&& next.writer.written == 0
                &&& next.writer.retries == 0
            }
        }),
{
}

/// A run of an input transaction.
#[derive(Debug)]
pub struct InputRun {
    steps: Vec<InputWriteStep>,
    index: usize,
    verification: InputVerification,
    retry: InputRetryConfig,
    verified: bool,
    phase: RunPhase,
    writer: RetryingWrite,
    started: Instant,
    outcome: InputOutcome,
}

impl View for InputRun {
    type V = RunView;

    closed spec fn view(&self) -> RunView {
        RunView {
            steps: step_views(self.steps@),
            index: self.index as nat,
            deadline: self.verification.deadline(),
            retry: self.retry,
            verified: self.verified,
            phase: self.phase,
            writer: self.writer,
            started: self.started,
            outcome: self.outcome@,
        }
    }
}

/// A run before its first step: over at once if the pane has ended.
pub open spec fn fresh_run(
    steps: Seq<StepView>,
    deadline: Option<Duration>,
    retry: InputRetryConfig,
    ended: bool,
) -> RunView {
    let run = RunView {
        steps,
        index: 0,
        deadline,
        retry,
        verified: false,
        phase: RunPhase::Done,
        writer: RetryingWrite {
            total: 0,
            written: 0,
            retries: 0,
            max_retries: retry.max_transient_retries,
            delay: retry.retry_delay,
        },
        started: Instant { nanos: 0 },
        outcome: empty_outcome(),
    };
    if ended {
        RunView { outcome: run.outcome.without_child(), ..run }.over(
            TransactionErrorView::ChildExited,
        )
    } else {
        run.turned()
    }
}

impl InputRun {
    /// The verification that the run awaits.
    pub closed spec fn awaited(&self) -> InputVerification {
        self.verification
    }

    /// Starts a run of planned steps on a pane that has, or has not, ended.
    pub fn new(
        steps: Vec<InputWriteStep>,
        verification: InputVerification,
        retry: InputRetryConfig,
        ended: bool,
    ) -> (run: Self)
        ensures
            run@ == fresh_run(step_views(steps@), verification.deadline(), retry, ended),
            run@.valid(),
            run.awaited() == verification,
    {
        let mut run = InputRun {
            steps,
            index: 0,
            verification,
            retry,
            verified: false,
            phase: RunPhase::Done,
            writer: RetryingWrite::start(0, retry.max_transient_retries, retry.retry_delay),
            started: Instant::from_nanos(0),
            outcome: InputOutcome::default(),
        };
        proof {
            assert(run.outcome@.errors =~= seq![]);
            assert(run@.steps.take(0) =~= Seq::empty());
            assert forall|i: int| 0 <= i < run@.steps.len() implies (#[trigger] run@.steps[i]).bytes.len()
                <= usize::MAX by {
                assert(run@.steps[i].bytes.len() == run.steps@[i].bytes.len());
            }
        }
        if ended {
            run.outcome.child_exited = true;
            run.finish(InputTransactionError::ChildExited);
        } else {
            run.turn();
        }
        run
    }

    /// Returns what the run asks for.
    pub fn request(&self) -> (request: TransactionRequest)
        ensures
            request == self@.request(),
    {
        match self.phase {
            RunPhase::Checking => TransactionRequest::Status,
            RunPhase::Writing => TransactionRequest::Write(self.writer.next_attempt()),
            RunPhase::Pausing => TransactionRequest::Sleep(self.retry.retry_delay),
            RunPhase::Polling => TransactionRequest::Poll,
            RunPhase::Starting => TransactionRequest::Clock,
            RunPhase::Observing => TransactionRequest::Observe,
            RunPhase::Timing => TransactionRequest::Clock,
            RunPhase::Waiting(span) => TransactionRequest::Sleep(span),
            RunPhase::Done => TransactionRequest::Finished,
        }
    }

    /// Tells whether the run is over.
    pub fn is_over(&self) -> (over: bool)
        ensures
            over == (self@.phase == RunPhase::Done),
    {
        self.phase == RunPhase::Done
    }

    /// Returns the bytes of the step that is being written.
    pub fn pending(&self) -> (bytes: &[u8])
        requires
            self@.index < self@.steps.len(),
        ensures
            bytes@ == self@.step().bytes,
    {
        self.steps[self.index].bytes.as_slice()
    }

    /// Tells whether a pane's text passes the run's verification.
    pub fn accepts(&self, text: &str) -> (r: bool)
        ensures
            r == self.awaited().accepts(vstd::utf8::encode_utf8(text@)),
    {
        self.verification.matches_text(text)
    }

    /// Returns the outcome so far.
    pub fn outcome(&self) -> (outcome: &InputOutcome)
        ensures
            outcome@ == self@.outcome,
    {
        &self.outcome
    }

    /// Takes the outcome out of the run.
    pub fn into_outcome(self) -> (outcome: InputOutcome)
        ensures
            outcome@ == self@.outcome,
    {
        self.outcome
    }

    fn finish(&mut self, error: InputTransactionError)
        ensures
            final(self)@ == old(self)@.over(error@),
            final(self).awaited() == old(self).awaited(),
    {
        self.outcome.errors.push(error);
        self.phase = RunPhase::Done;
        assert(self.outcome@.errors =~= old(self)@.outcome.errors.push(error@));
    }

    fn turn(&mut self)
        requires
            old(self)@.index <= old(self)@.steps.len(),
        ensures
            final(self)@ == old(self)@.turned(),
            final(self).awaited() == old(self).awaited(),
    {
        if self.index < self.steps.len() {
            self.phase = RunPhase::Checking;
        } else if self.verified || self.verification.timeout().is_none() {
            self.phase = RunPhase::Done;
        } else {
            self.phase = RunPhase::Starting;
        }
    }

    fn begin(&mut self)
        requires
            old(self)@.index < old(self)@.steps.len(),
        ensures
            final(self)@ == old(self)@.begun(),
            final(self).awaited() == old(self).awaited(),
    {
        let total = self.steps[self.index].bytes.len();
        assert(total == self@.step().bytes.len());
        if total == 0 {
            self.phase = RunPhase::Polling;
        } else {
            self.writer = RetryingWrite::start(
                total,
                self.retry.max_transient_retries,
                self.retry.retry_delay,
            );
            self.phase = RunPhase::Writing;
        }
    }

    fn settle(&mut self)
        requires
            old(self)@.index <= old(self)@.steps.len(),
        ensures
            final(self)@ == old(self)@.settled(),
            final(self).awaited() == old(self).awaited(),
    {
        if self.index < self.steps.len() {
            self.verified = true;
            if self.outcome.echoed {
                self.begin();
            } else {
                self.phase = RunPhase::Done;
            }
        } else {
            self.phase = RunPhase::Done;
        }
    }

    fn doubt(&mut self, message: &str)
        ensures
            final(self)@ == (RunView {
                outcome: old(self)@.outcome.with_error(
                    TransactionErrorView::VerificationFailed { message: message@ },
                ),
                ..old(self)@
            }),
            final(self).awaited() == old(self).awaited(),
    {
        let error = InputTransactionError::VerificationFailed { message: message.to_owned() };
        let ghost seen = error@;
        self.outcome.errors.push(error);
        assert(self.outcome@.errors =~= old(self)@.outcome.errors.push(seen));
    }

    fn take_status(&mut self, ended: bool)
        requires
            old(self)@.valid(),
            old(self)@.awaits(TransactionReply::Ended(ended)),
        ensures
            final(self)@ == old(self)@.after(TransactionReply::Ended(ended)),
            final(self).awaited() == old(self).awaited(),
    {
        let count = self.steps.len();
        assert(self.index < count);
        if matches!(self.phase, RunPhase::Checking) {
            if ended {
                self.outcome.child_exited = true;
                self.finish(InputTransactionError::ChildExited);
            } else if self.steps[self.index].submits && self.verification.timeout().is_some()
                && !self.verified {
                self.phase = RunPhase::Starting;
            } else {
                self.begin();
            }
        } else {
            if ended {
                self.outcome.child_exited = true;
            }
            if ended && self.index + 1 < count {
                self.finish(InputTransactionError::ChildExited);
            } else {
                self.index = self.index + 1;
                self.turn();
            }
        }
    }

    fn take_write(&mut self, reply: WriteReply) -> (note: Option<TransactionNote>)
        requires
            old(self)@.valid(),
            old(self)@.awaits(TransactionReply::Wrote(reply)),
        ensures
            final(self)@ == old(self)@.after(TransactionReply::Wrote(reply)),
            note_view(note) == old(self)@.note(TransactionReply::Wrote(reply)),
            final(self).awaited() == old(self).awaited(),
    {
        match self.writer.take_reply(reply) {
            WriteProgress::Continue => None,
            WriteProgress::Pause(_) => {
                self.phase = RunPhase::Pausing;
                None
            },
            WriteProgress::Done(bytes_len) => {
                self.outcome.bytes_sent = self.outcome.bytes_sent.saturating_add(bytes_len);
                if self.steps[self.index].submits {
                    self.outcome.submitted = true;
                }
                self.phase = RunPhase::Polling;
                Some(
                    TransactionNote::Sent {
                        input_kind: self.steps[self.index].input_kind,
                        bytes_len,
                    },
                )
            },
            WriteProgress::Failed(failure) => {
                self.outcome.bytes_sent = self.outcome.bytes_sent.saturating_add(
                    failure.bytes_written,
                );
                let (operation, message) = transaction_error_parts(&failure.error);
                let bytes_attempted = self.steps[self.index].bytes.len();
                self.finish(
                    InputTransactionError::Write {
                        operation,
                        bytes_attempted,
                        bytes_written: failure.bytes_written,
                        message,
                    },
                );
                Some(TransactionNote::Failed(failure.error))
            },
        }
    }

    fn take_clock(&mut self, now: Instant)
        requires
            old(self)@.valid(),
            old(self)@.awaits(TransactionReply::Clock(now)),
        ensures
            final(self)@ == old(self)@.after(TransactionReply::Clock(now)),
            final(self).awaited() == old(self).awaited(),
    {
        if matches!(self.phase, RunPhase::Starting) {
            self.started = now;
            self.phase = RunPhase::Observing;
            return;
        }
        let elapsed = now.duration_since(self.started);
        let timeout = match self.verification.timeout() {
            Some(timeout) => timeout,
            None => Duration::zero(),
        };
        if elapsed.nanos >= timeout.nanos {
            self.outcome.timed_out = true;
            self.doubt("echo verification timed out");
            self.settle();
        } else if timeout.nanos - elapsed.nanos < 10_000_000 {
            self.phase = RunPhase::Waiting(Duration { nanos: timeout.nanos - elapsed.nanos });
        } else {
            self.phase = RunPhase::Waiting(Duration::from_millis(10));
        }
    }

    fn take_observation(&mut self, echoed: bool, ended: bool)
        requires
            old(self)@.valid(),
            old(self)@.awaits(TransactionReply::Observed { echoed, ended }),
        ensures
            final(self)@ == old(self)@.after(TransactionReply::Observed { echoed, ended }),
            final(self).awaited() == old(self).awaited(),
    {
        if echoed {
            self.outcome.echoed = true;
            self.settle();
        } else if ended {
            self.outcome.child_exited = true;
            self.doubt("child exited before echo verification succeeded");
            self.settle();
        } else {
            self.phase = RunPhase::Timing;
        }
    }

    /// Takes in what came of the request, and returns what is to be added to
    /// the pane's event log.
    pub fn advance(&mut self, reply: TransactionReply) -> (note: Option<TransactionNote>)
        requires
            old(self)@.valid(),
            old(self)@.awaits(reply),
        ensures
            final(self)@ == old(self)@.after(reply),
            final(self)@.valid(),
            note_view(note) == old(self)@.note(reply),
            final(self).awaited() == old(self).awaited(),
    {
        proof {
            law_runs_stay_valid(self@, reply);
        }
        match reply {
            TransactionReply::Ended(ended) => {
                self.take_status(ended);
                None
            },
            TransactionReply::Wrote(w) => self.take_write(w),
            TransactionReply::Clock(now) => {
                self.take_clock(now);
                None
            },
            TransactionReply::Slept => {
                if matches!(self.phase, RunPhase::Pausing) {
                    self.phase = RunPhase::Writing;
                } else {
                    self.phase = RunPhase::Observing;
                }
                None
            },
            TransactionReply::Observed { echoed, ended } => {
                self.take_observation(echoed, ended);
                None
            },
        }
    }
}

} // verus!

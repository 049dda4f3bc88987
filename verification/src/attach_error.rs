//! Failures of a fullscreen attach.

use vstd::prelude::*;

use crate::error::{ErrorView, IoOperation, PaneError};

verus! {

/// The step of an attach that failed.
#[derive(Debug, Clone, Copy, PartialEq, Eq, Structural)]
pub enum AttachStepKind {
    /// Suspending the host terminal.
    Suspend,
    /// Restoring the host terminal.
    Restore,
    /// Reading host stdin.
    TerminalInput,
    /// Writing host stdout.
    TerminalOutput,
    /// Reading the real-terminal size.
    TerminalSize,
    /// Reading PTY frames.
    PtyRead,
    /// A PTY/runtime frame reported an error.
    PtyRuntime,
    /// Writing bytes to the child PTY.
    PtyWrite,
    /// Resizing the child PTY.
    PtyResize,
    /// Feeding the embedded surface.
    SurfaceFeed,
    /// Resizing the embedded surface.
    SurfaceResize,
}

impl AttachStepKind {
    /// How a report of such a failure begins.
    pub open spec fn label(self) -> Seq<char> {
        match self {
            AttachStepKind::Suspend => "attach suspend failed: "@,
            AttachStepKind::Restore => "attach restore failed: "@,
            AttachStepKind::TerminalInput => "attach stdin read failed: "@,
            AttachStepKind::TerminalOutput => "attach stdout write failed: "@,
            AttachStepKind::TerminalSize => "attach terminal size failed: "@,
            AttachStepKind::PtyRead => "attach PTY read failed: "@,
            AttachStepKind::PtyRuntime => "attach PTY runtime failed: "@,
            AttachStepKind::PtyWrite => "attach PTY write failed: "@,
            AttachStepKind::PtyResize => "attach PTY resize failed: "@,
            AttachStepKind::SurfaceFeed => "attach surface feed failed: "@,
            AttachStepKind::SurfaceResize => "attach surface resize failed: "@,
        }
    }

    fn text(self) -> (s: &'static str)
        ensures
            s@ == self.label(),
    {
        match self {
            AttachStepKind::Suspend => "attach suspend failed: ",
            AttachStepKind::Restore => "attach restore failed: ",
            AttachStepKind::TerminalInput => "attach stdin read failed: ",
            AttachStepKind::TerminalOutput => "attach stdout write failed: ",
            AttachStepKind::TerminalSize => "attach terminal size failed: ",
            AttachStepKind::PtyRead => "attach PTY read failed: ",
            AttachStepKind::PtyRuntime => "attach PTY runtime failed: ",
            AttachStepKind::PtyWrite => "attach PTY write failed: ",
            AttachStepKind::PtyResize => "attach PTY resize failed: ",
            AttachStepKind::SurfaceFeed => "attach surface feed failed: ",
            AttachStepKind::SurfaceResize => "attach surface resize failed: ",
        }
    }
}

/// What made an attach fail.
#[derive(Debug, PartialEq, Eq)]
pub enum AttachFailure {
    /// The pane was missing or not attachable.
    Pane {
        /// Why.
        error: PaneError,
    },
    /// A step failed.
    Step {
        /// Which.
        kind: AttachStepKind,
        /// What was reported of it.
        message: String,
    },
}

/// An attach failure with its texts as characters.
pub ghost enum FailureView {
    Pane(ErrorView),
    Step { kind: AttachStepKind, message: Seq<char> },
}

impl View for AttachFailure {
    type V = FailureView;

    open spec fn view(&self) -> FailureView {
        match self {
            AttachFailure::Pane { error } => FailureView::Pane(error@),
            AttachFailure::Step { kind, message } => FailureView::Step {
                kind: *kind,
                message: message@,
            },
        }
    }
}

impl Clone for AttachFailure {
    fn clone(&self) -> (copy: Self)
        ensures
            copy@ == self@,
    {
        match self {
            AttachFailure::Pane { error } => AttachFailure::Pane { error: error.clone() },
            AttachFailure::Step { kind, message } => AttachFailure::Step {
                kind: *kind,
                message: message.clone(),
            },
        }
    }
}

/// A message without the quotes that a debug rendering of a text puts round it.
pub open spec fn unquoted(message: Seq<char>) -> Seq<char> {
    if message.len() >= 2 && message[0] == '"' && message.last() == '"' {
        message.subrange(1, message.len() - 1)
    } else {
        message
    }
}

/// Strips the quotes that a debug rendering of a text puts round it.
pub fn normalize_debug_message(message: &str) -> (s: String)
    ensures
        s@ == unquoted(message@),
{
    let n = message.unicode_len();
    if n >= 2 && message.get_char(0) == '"' && message.get_char(n - 1) == '"' {
        let mut s = String::new();
        let mut i: usize = 1;
        assert(s@ =~= message@.subrange(1, 1));
        while i < n - 1
            invariant
                2 <= n == message@.len(),
                1 <= i <= n - 1,
                s@ == message@.subrange(1, i as int),
            decreases n - i,
        {
            s.push(message.get_char(i));
            assert(s@ =~= message@.subrange(1, i + 1));
            i = i + 1;
        }
        s
    } else {
        message.to_owned()
    }
}

impl FailureView {
    /// The report of the failure.
    pub open spec fn sentence(self) -> Seq<char> {
        match self {
            FailureView::Pane(error) => error.sentence(),
            FailureView::Step { kind, message } => kind.label() + message,
        }
    }

    /// The failure as a pane error, for the pane's event stream.
    pub open spec fn pane_error(self) -> ErrorView {
        match self {
            FailureView::Pane(error) => error,
            FailureView::Step { kind, message } => {
                let plain = kind.label() + unquoted(message);
                match kind {
                    AttachStepKind::Suspend => ErrorView::Attach { message: plain },
                    AttachStepKind::Restore => ErrorView::Attach { message: plain },
                    AttachStepKind::TerminalSize => ErrorView::Attach { message: plain },
                    AttachStepKind::PtyRuntime => ErrorView::Attach {
                        message: kind.label() + message,
                    },
                    AttachStepKind::TerminalInput => ErrorView::Io {
                        operation: IoOperation::Read,
                        message: plain,
                    },
                    AttachStepKind::PtyRead => ErrorView::Io {
                        operation: IoOperation::Read,
                        message: plain,
                    },
                    AttachStepKind::TerminalOutput => ErrorView::Io {
                        operation: IoOperation::Write,
                        message: plain,
                    },
                    AttachStepKind::PtyWrite => ErrorView::Io {
                        operation: IoOperation::Write,
                        message: plain,
                    },
                    AttachStepKind::PtyResize => ErrorView::Io {
                        operation: IoOperation::Resize,
                        message: plain,
                    },
                    AttachStepKind::SurfaceFeed => ErrorView::Surface { message: plain },
                    AttachStepKind::SurfaceResize => ErrorView::Surface { message: plain },
                }
            },
        }
    }
}

/// Quotes round a message are taken off, and only where there is a pair of them.
pub proof fn law_quotes_are_taken_off(text: Seq<char>)
    ensures
        unquoted(seq!['"'] + text + seq!['"']) == text,
        text.len() < 2 || text[0] != '"' || text.last() != '"' ==> unquoted(text) == text,
{
    assert((seq!['"'] + text + seq!['"']).subrange(1, text.len() as int + 1) =~= text);
}

/// A failure is told of by what failed: the kind of error follows from the side
/// that failed and what it was asked for, and the message begins with the step
/// and goes on with what was reported of it.
pub proof fn law_failures_are_told(kind: AttachStepKind, message: Seq<char>, error: ErrorView)
    ensures
        ({
            let told = (FailureView::Step { kind, message }).pane_error();
            let words = kind.label() + unquoted(message);
            &&& (FailureView::Pane(error)).pane_error() == error
            &&& (FailureView::Pane(error)).sentence() == error.sentence()
            &&& (FailureView::Step { kind, message }).sentence() == kind.label() + message
            &&& kind == AttachStepKind::Suspend || kind == AttachStepKind::Restore || kind
                == AttachStepKind::TerminalSize ==> told == (ErrorView::Attach { message: words })
            &&& kind == AttachStepKind::PtyRuntime ==> told == (ErrorView::Attach {
                message: kind.label() + message,
            })
            &&& kind == AttachStepKind::TerminalInput || kind == AttachStepKind::PtyRead ==> told
                == (ErrorView::Io { operation: IoOperation::Read, message: words })
            &&& kind == AttachStepKind::TerminalOutput || kind == AttachStepKind::PtyWrite ==> told
                == (ErrorView::Io { operation: IoOperation::Write, message: words })
            &&& kind == AttachStepKind::PtyResize ==> told == (ErrorView::Io {
                operation: IoOperation::Resize,
                message: words,
            })
            &&& kind == AttachStepKind::SurfaceFeed || kind == AttachStepKind::SurfaceResize
                ==> told == (ErrorView::Surface { message: words })
        }),
{
}

fn step_sentence(kind: AttachStepKind, message: &str) -> (s: String)
    ensures
        s@ == kind.label() + message@,
{
    let mut s = kind.text().to_owned();
    s.append(message);
    s
}

fn step_pane_error(kind: AttachStepKind, message: &str) -> (error: PaneError)
    ensures
        error@ == (FailureView::Step { kind, message: message@ }).pane_error(),
{
    let plain = normalize_debug_message(message);
    match kind {
        AttachStepKind::Suspend | AttachStepKind::Restore | AttachStepKind::TerminalSize => {
            PaneError::Attach { message: step_sentence(kind, plain.as_str()) }
        },
        AttachStepKind::PtyRuntime => PaneError::Attach { message: step_sentence(kind, message) },
        AttachStepKind::TerminalInput | AttachStepKind::PtyRead => PaneError::Io {
            operation: IoOperation::Read,
            message: step_sentence(kind, plain.as_str()),
        },
        AttachStepKind::TerminalOutput | AttachStepKind::PtyWrite => PaneError::Io {
            operation: IoOperation::Write,
            message: step_sentence(kind, plain.as_str()),
        },
        AttachStepKind::PtyResize => PaneError::Io {
            operation: IoOperation::Resize,
            message: step_sentence(kind, plain.as_str()),
        },
        AttachStepKind::SurfaceFeed | AttachStepKind::SurfaceResize => PaneError::Surface {
            message: step_sentence(kind, plain.as_str()),
        },
    }
}

/// Turns a failure into the pane error that the event stream reports.
pub fn attach_failure_to_pane_error(failure: &AttachFailure) -> (error: PaneError)
    ensures
        error@ == failure@.pane_error(),
{
    match failure {
        AttachFailure::Pane { error } => error.clone(),
        AttachFailure::Step { kind, message } => step_pane_error(*kind, message.as_str()),
    }
}

/// Structured failure produced by the blocking attach driver.
#[derive(Debug, PartialEq, Eq)]
pub enum BlockingAttachError {
    /// Suspending the host terminal failed.
    Suspend { message: String },
    /// Restoring the host terminal failed.
    Restore { message: String },
    /// Reading host stdin failed.
    TerminalInput { message: String },
    /// Writing host stdout failed.
    TerminalOutput { message: String },
    /// Reading the real-terminal size failed.
    TerminalSize { message: String },
    /// Reading PTY frames failed.
    PtyRead { message: String },
    /// A PTY/runtime frame reported an error.
    PtyRuntime { message: String },
    /// Writing bytes to the child PTY failed.
    PtyWrite { message: String },
    /// Resizing the child PTY failed.
    PtyResize { message: String },
    /// Feeding the embedded surface failed.
    SurfaceFeed { message: String },
    /// Resizing the embedded surface failed.
    SurfaceResize { message: String },
}

impl View for BlockingAttachError {
    type V = FailureView;

    open spec fn view(&self) -> FailureView {
        match self {
            BlockingAttachError::Suspend { message } => FailureView::Step {
                kind: AttachStepKind::Suspend,
                message: message@,
            },
            BlockingAttachError::Restore { message } => FailureView::Step {
                kind: AttachStepKind::Restore,
                message: message@,
            },
            BlockingAttachError::TerminalInput { message } => FailureView::Step {
                kind: AttachStepKind::TerminalInput,
                message: message@,
            },
            BlockingAttachError::TerminalOutput { message } => FailureView::Step {
                kind: AttachStepKind::TerminalOutput,
                message: message@,
            },
            BlockingAttachError::TerminalSize { message } => FailureView::Step {
                kind: AttachStepKind::TerminalSize,
                message: message@,
            },
            BlockingAttachError::PtyRead { message } => FailureView::Step {
                kind: AttachStepKind::PtyRead,
                message: message@,
            },
            BlockingAttachError::PtyRuntime { message } => FailureView::Step {
                kind: AttachStepKind::PtyRuntime,
                message: message@,
            },
            BlockingAttachError::PtyWrite { message } => FailureView::Step {
                kind: AttachStepKind::PtyWrite,
                message: message@,
            },
            BlockingAttachError::PtyResize { message } => FailureView::Step {
                kind: AttachStepKind::PtyResize,
                message: message@,
            },
            BlockingAttachError::SurfaceFeed { message } => FailureView::Step {
                kind: AttachStepKind::SurfaceFeed,
                message: message@,
            },
            BlockingAttachError::SurfaceResize { message } => FailureView::Step {
                kind: AttachStepKind::SurfaceResize,
                message: message@,
            },
        }
    }
}

impl Clone for BlockingAttachError {
    fn clone(&self) -> (copy: Self)
        ensures
            copy@ == self@,
    {
        let (kind, message) = self.parts();
        Self::of_step(kind, message.to_owned())
    }
}

impl BlockingAttachError {
    /// The failure of a step.
    pub fn of_step(kind: AttachStepKind, message: String) -> (error: Self)
        ensures
            error@ == (FailureView::Step { kind, message: message@ }),
    {
        match kind {
            AttachStepKind::Suspend => BlockingAttachError::Suspend { message },
            AttachStepKind::Restore => BlockingAttachError::Restore { message },
            AttachStepKind::TerminalInput => BlockingAttachError::TerminalInput { message },
            AttachStepKind::TerminalOutput => BlockingAttachError::TerminalOutput { message },
            AttachStepKind::TerminalSize => BlockingAttachError::TerminalSize { message },
            AttachStepKind::PtyRead => BlockingAttachError::PtyRead { message },
            AttachStepKind::PtyRuntime => BlockingAttachError::PtyRuntime { message },
            AttachStepKind::PtyWrite => BlockingAttachError::PtyWrite { message },
            AttachStepKind::PtyResize => BlockingAttachError::PtyResize { message },
            AttachStepKind::SurfaceFeed => BlockingAttachError::SurfaceFeed { message },
            AttachStepKind::SurfaceResize => BlockingAttachError::SurfaceResize { message },
        }
    }

    fn parts(&self) -> (r: (AttachStepKind, &str))
        ensures
            self@ == (FailureView::Step { kind: r.0, message: r.1@ }),
    {
        match self {
            BlockingAttachError::Suspend { message } => (AttachStepKind::Suspend, message.as_str()),
            BlockingAttachError::Restore { message } => (AttachStepKind::Restore, message.as_str()),
            BlockingAttachError::TerminalInput { message } => (
                AttachStepKind::TerminalInput,
                message.as_str(),
            ),
            BlockingAttachError::TerminalOutput { message } => (
                AttachStepKind::TerminalOutput,
                message.as_str(),
            ),
            BlockingAttachError::TerminalSize { message } => (
                AttachStepKind::TerminalSize,
                message.as_str(),
            ),
            BlockingAttachError::PtyRead { message } => (AttachStepKind::PtyRead, message.as_str()),
            BlockingAttachError::PtyRuntime { message } => (
                AttachStepKind::PtyRuntime,
                message.as_str(),
            ),
            BlockingAttachError::PtyWrite { message } => (
                AttachStepKind::PtyWrite,
                message.as_str(),
            ),
            BlockingAttachError::PtyResize { message } => (
                AttachStepKind::PtyResize,
                message.as_str(),
            ),
            BlockingAttachError::SurfaceFeed { message } => (
                AttachStepKind::SurfaceFeed,
                message.as_str(),
            ),
            BlockingAttachError::SurfaceResize { message } => (
                AttachStepKind::SurfaceResize,
                message.as_str(),
            ),
        }
    }

    /// The report of the failure.
    pub fn to_string(&self) -> (s: String)
        ensures
            s@ == self@.sentence(),
    {
        let (kind, message) = self.parts();
        step_sentence(kind, message)
    }
}

/// Turns a driver failure into the pane error that the event stream reports.
pub fn blocking_attach_error_to_pane_error(error: &BlockingAttachError) -> (r: PaneError)
    ensures
        r@ == error@.pane_error(),
{
    let (kind, message) = error.parts();
    step_pane_error(kind, message)
}

/// Structured failure returned by a manager-driven attach.
#[derive(Debug, PartialEq, Eq)]
pub enum PaneAttachError {
    /// The pane was missing or not attachable.
    Pane { error: PaneError },
    /// Suspending the host terminal failed.
    Suspend { message: String },
    /// Restoring the host terminal failed.
    Restore { message: String },
    /// Reading host stdin failed.
    TerminalInput { message: String },
    /// Writing child output to host stdout failed.
    TerminalOutput { message: String },
    /// Reading the real-terminal size failed.
    TerminalSize { message: String },
    /// A PTY/runtime frame reported an error.
    PtyRuntime { message: String },
    /// Writing bytes to the child PTY failed.
    PtyWrite { message: String },
    /// Resizing the child PTY failed.
    PtyResize { message: String },
    /// Feeding the embedded surface failed.
    SurfaceFeed { message: String },
    /// Resizing the embedded surface failed.
    SurfaceResize { message: String },
}

impl View for PaneAttachError {
    type V = FailureView;

    open spec fn view(&self) -> FailureView {
        match self {
            PaneAttachError::Pane { error } => FailureView::Pane(error@),
            PaneAttachError::Suspend { message } => FailureView::Step {
                kind: AttachStepKind::Suspend,
                message: message@,
            },
            PaneAttachError::Restore { message } => FailureView::Step {
                kind: AttachStepKind::Restore,
                message: message@,
            },
            PaneAttachError::TerminalInput { message } => FailureView::Step {
                kind: AttachStepKind::TerminalInput,
                message: message@,
            },
            PaneAttachError::TerminalOutput { message } => FailureView::Step {
                kind: AttachStepKind::TerminalOutput,
                message: message@,
            },
            PaneAttachError::TerminalSize { message } => FailureView::Step {
                kind: AttachStepKind::TerminalSize,
                message: message@,
            },
            PaneAttachError::PtyRuntime { message } => FailureView::Step {
                kind: AttachStepKind::PtyRuntime,
                message: message@,
            },
            PaneAttachError::PtyWrite { message } => FailureView::Step {
                kind: AttachStepKind::PtyWrite,
                message: message@,
            },
            PaneAttachError::PtyResize { message } => FailureView::Step {
                kind: AttachStepKind::PtyResize,
                message: message@,
            },
            PaneAttachError::SurfaceFeed { message } => FailureView::Step {
                kind: AttachStepKind::SurfaceFeed,
                message: message@,
            },
            PaneAttachError::SurfaceResize { message } => FailureView::Step {
                kind: AttachStepKind::SurfaceResize,
                message: message@,
            },
        }
    }
}

impl Clone for PaneAttachError {
    fn clone(&self) -> (copy: Self)
        ensures
            copy@ == self@,
    {
        match self {
            PaneAttachError::Pane { error } => PaneAttachError::Pane { error: error.clone() },
            PaneAttachError::Suspend { message } => PaneAttachError::Suspend {
                message: message.clone(),
            },
            PaneAttachError::Restore { message } => PaneAttachError::Restore {
                message: message.clone(),
            },
            PaneAttachError::TerminalInput { message } => PaneAttachError::TerminalInput {
                message: message.clone(),
            },
            PaneAttachError::TerminalOutput { message } => PaneAttachError::TerminalOutput {
                message: message.clone(),
            },
            PaneAttachError::TerminalSize { message } => PaneAttachError::TerminalSize {
                message: message.clone(),
            },
            PaneAttachError::PtyRuntime { message } => PaneAttachError::PtyRuntime {
                message: message.clone(),
            },
            PaneAttachError::PtyWrite { message } => PaneAttachError::PtyWrite {
                message: message.clone(),
            },
            PaneAttachError::PtyResize { message } => PaneAttachError::PtyResize {
                message: message.clone(),
            },
            PaneAttachError::SurfaceFeed { message } => PaneAttachError::SurfaceFeed {
                message: message.clone(),
            },
            PaneAttachError::SurfaceResize { message } => PaneAttachError::SurfaceResize {
                message: message.clone(),
            },
        }
    }
}

impl PaneAttachError {
    /// The public form of a failure. Reading frames from an owned process
    /// cannot fail, so there is no form for that step.
    pub fn of_failure(failure: AttachFailure) -> (error: Self)
        requires
            failure@ matches FailureView::Step { kind, .. } ==> kind != AttachStepKind::PtyRead,
        ensures
            error@ == failure@,
    {
        match failure {
            AttachFailure::Pane { error } => PaneAttachError::Pane { error },
            AttachFailure::Step { kind, message } => match kind {
                AttachStepKind::Suspend => PaneAttachError::Suspend { message },
                AttachStepKind::Restore => PaneAttachError::Restore { message },
                AttachStepKind::TerminalInput => PaneAttachError::TerminalInput { message },
                AttachStepKind::TerminalOutput => PaneAttachError::TerminalOutput { message },
                AttachStepKind::TerminalSize => PaneAttachError::TerminalSize { message },
                AttachStepKind::PtyRead | AttachStepKind::PtyRuntime => {
                    PaneAttachError::PtyRuntime { message }
                },
                AttachStepKind::PtyWrite => PaneAttachError::PtyWrite { message },
                AttachStepKind::PtyResize => PaneAttachError::PtyResize { message },
                AttachStepKind::SurfaceFeed => PaneAttachError::SurfaceFeed { message },
                AttachStepKind::SurfaceResize => PaneAttachError::SurfaceResize { message },
            },
        }
    }

    fn to_failure(&self) -> (failure: AttachFailure)
        ensures
            failure@ == self@,
    {
        match self {
            PaneAttachError::Pane { error } => AttachFailure::Pane { error: error.clone() },
            PaneAttachError::Suspend { message } => AttachFailure::Step {
                kind: AttachStepKind::Suspend,
                message: message.clone(),
            },
            PaneAttachError::Restore { message } => AttachFailure::Step {
                kind: AttachStepKind::Restore,
                message: message.clone(),
            },
            PaneAttachError::TerminalInput { message } => AttachFailure::Step {
                kind: AttachStepKind::TerminalInput,
                message: message.clone(),
            },
            PaneAttachError::TerminalOutput { message } => AttachFailure::Step {
                kind: AttachStepKind::TerminalOutput,
                message: message.clone(),
            },
            PaneAttachError::TerminalSize { message } => AttachFailure::Step {
                kind: AttachStepKind::TerminalSize,
                message: message.clone(),
            },
            PaneAttachError::PtyRuntime { message } => AttachFailure::Step {
                kind: AttachStepKind::PtyRuntime,
                message: message.clone(),
            },
            PaneAttachError::PtyWrite { message } => AttachFailure::Step {
                kind: AttachStepKind::PtyWrite,
                message: message.clone(),
            },
            PaneAttachError::PtyResize { message } => AttachFailure::Step {
                kind: AttachStepKind::PtyResize,
                message: message.clone(),
            },
            PaneAttachError::SurfaceFeed { message } => AttachFailure::Step {
                kind: AttachStepKind::SurfaceFeed,
                message: message.clone(),
            },
            PaneAttachError::SurfaceResize { message } => AttachFailure::Step {
                kind: AttachStepKind::SurfaceResize,
                message: message.clone(),
            },
        }
    }

    /// The report of the failure.
    pub fn to_string(&self) -> (s: String)
        ensures
            s@ == self@.sentence(),
    {
        match self.to_failure() {
            AttachFailure::Pane { error } => error.to_string(),
            AttachFailure::Step { kind, message } => step_sentence(kind, message.as_str()),
        }
    }
}

/// Turns an attach failure into the pane error that the event stream reports.
pub fn pane_attach_error_to_pane_error(error: &PaneAttachError) -> (r: PaneError)
    ensures
        r@ == error@.pane_error(),
{
    attach_failure_to_pane_error(&error.to_failure())
}

/// The debug rendering of a host error (`format!("{:?}")`). Nothing is claimed
/// of the text: it is whatever the host's `Debug` impl writes.
#[verifier::external_body]
fn debug_text<E: std::fmt::Debug>(error: &E) -> String {
    format!("{:?}", error)
}

/// Whether this is a debug rendering of a host error.
pub closed spec fn renders<E: std::fmt::Debug>(error: &E, text: Seq<char>) -> bool {
    exists|written: String|
        #[trigger] call_ensures(debug_text::<E>, (error,), written) && written@ == text
}

/// Whether a host result says the same as the answer it is made of; a failure
/// is told by its debug rendering.
pub open spec fn says_host<T, E: std::fmt::Debug>(
    r: core::result::Result<T, E>,
    said: core::result::Result<(), Seq<char>>,
) -> bool {
    match (r, said) {
        (Ok(_), Ok(_)) => true,
        (Err(error), Err(text)) => renders(&error, text),
        _ => false,
    }
}

/// A host result is a success when the answer is, and a failure when the answer
/// is.
pub proof fn law_host_results<T, E: std::fmt::Debug>(
    r: core::result::Result<T, E>,
    said: core::result::Result<(), Seq<char>>,
)
    requires
        says_host(r, said),
    ensures
        r is Ok <==> said is Ok,
        r is Err && said is Err ==> renders(&r->Err_0, said->Err_0),
{
}

/// Writes a host error out.
pub(crate) fn rendered_text<E: std::fmt::Debug>(error: &E) -> (text: String)
    ensures
        renders(error, text@),
{
    let text = debug_text(error);
    assert(call_ensures(debug_text::<E>, (error,), text));
    text
}

/// The debug rendering of a pane error with such texts (`format!("{:?}")`).
pub uninterp spec fn error_debug(error: ErrorView) -> Seq<char>;

/// The debug rendering of a pane error (`format!("{:?}")`). The text is a
/// function of the error, named here: the variant and its fields are written
/// out.
#[verifier::external_body]
pub(crate) fn error_debug_text(error: &PaneError) -> (text: String)
    ensures
        text@ == error_debug(error@),
{
    format!("{:?}", error)
}

} // verus!

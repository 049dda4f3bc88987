//! Structured error types.

use vstd::prelude::*;

use crate::pane::PaneId;
use crate::text::{decimal, push_decimal};

verus! {

/// Result type used throughout the crate.
pub type Result<T> = core::result::Result<T, PaneError>;

/// Describes the I/O operation that failed when a [`PaneError::Io`] is produced.
#[derive(Debug, Clone, Copy, PartialEq, Eq, Structural, Hash)]
pub enum IoOperation {
    /// Reading output from a PTY or child process.
    Read,
    /// Writing input to a PTY or child process.
    Write,
    /// Resizing a PTY.
    Resize,
    /// Killing a child process.
    Kill,
    /// Flushing a writer or stdout.
    Flush,
}

impl IoOperation {
    /// The word that stands for the operation in messages.
    pub open spec fn word(self) -> Seq<char> {
        match self {
            IoOperation::Read => "read"@,
            IoOperation::Write => "write"@,
            IoOperation::Resize => "resize"@,
            IoOperation::Kill => "kill"@,
            IoOperation::Flush => "flush"@,
        }
    }

    /// Returns the word that stands for the operation in messages.
    pub fn as_str(&self) -> (s: &'static str)
        ensures
            s@ == self.word(),
    {
        match self {
            IoOperation::Read => "read",
            IoOperation::Write => "write",
            IoOperation::Resize => "resize",
            IoOperation::Kill => "kill",
            IoOperation::Flush => "flush",
        }
    }

    /// Formats the operation.
    pub fn to_string(&self) -> (s: String)
        ensures
            s@ == self.word(),
    {
        self.as_str().to_owned()
    }
}

/// Structured error type for all pane-scoped and manager-scoped failures.
///
/// Every variant carries enough context to diagnose the failure without
/// inspecting internal state.
#[derive(Debug, PartialEq, Eq)]
pub enum PaneError {
    /// Spawning a child process failed.
    Spawn {
        /// Human-readable description of what went wrong.
        message: String,
    },
    /// A low-level I/O operation failed.
    Io {
        /// The operation that failed.
        operation: IoOperation,
        /// Human-readable description of what went wrong.
        message: String,
    },
    /// The surface backend failed to parse or apply output.
    Surface {
        /// Human-readable description of what went wrong.
        message: String,
    },
    /// An input event could not be encoded into terminal bytes.
    InputEncoding {
        /// Human-readable description of what went wrong.
        message: String,
    },
    /// An attach or detach operation failed.
    Attach {
        /// Human-readable description of what went wrong.
        message: String,
    },
    /// A pane-scoped operation referenced an unknown pane identifier.
    NotFound {
        /// The pane identifier that could not be resolved.
        pane_id: PaneId,
    },
    /// An operation was requested in a pane state that does not permit it.
    InvalidState {
        /// Description of the state that was expected.
        expected: String,
        /// Description of the actual state encountered.
        actual: String,
    },
    /// A size was constructed with zero rows or columns.
    InvalidSize {
        /// The requested row count.
        rows: u16,
        /// The requested column count.
        cols: u16,
    },
}

/// A [`PaneError`] with its texts as character sequences.
pub ghost enum ErrorView {
    Spawn { message: Seq<char> },
    Io { operation: IoOperation, message: Seq<char> },
    Surface { message: Seq<char> },
    InputEncoding { message: Seq<char> },
    Attach { message: Seq<char> },
    NotFound { pane_id: PaneId },
    InvalidState { expected: Seq<char>, actual: Seq<char> },
    InvalidSize { rows: u16, cols: u16 },
}

impl View for PaneError {
    type V = ErrorView;

    open spec fn view(&self) -> ErrorView {
        match self {
            PaneError::Spawn { message } => ErrorView::Spawn { message: message@ },
            PaneError::Io { operation, message } => ErrorView::Io {
                operation: *operation,
                message: message@,
            },
            PaneError::Surface { message } => ErrorView::Surface { message: message@ },
            PaneError::InputEncoding { message } => ErrorView::InputEncoding {
                message: message@,
            },
            PaneError::Attach { message } => ErrorView::Attach { message: message@ },
            PaneError::NotFound { pane_id } => ErrorView::NotFound { pane_id: *pane_id },
            PaneError::InvalidState { expected, actual } => ErrorView::InvalidState {
                expected: expected@,
                actual: actual@,
            },
            PaneError::InvalidSize { rows, cols } => ErrorView::InvalidSize {
                rows: *rows,
                cols: *cols,
            },
        }
    }
}

impl Clone for PaneError {
    fn clone(&self) -> (copy: Self)
        ensures
            copy@ == self@,
    {
        match self {
            PaneError::Spawn { message } => PaneError::Spawn { message: message.clone() },
            PaneError::Io { operation, message } => PaneError::Io {
                operation: *operation,
                message: message.clone(),
            },
            PaneError::Surface { message } => PaneError::Surface { message: message.clone() },
            PaneError::InputEncoding { message } => PaneError::InputEncoding {
                message: message.clone(),
            },
            PaneError::Attach { message } => PaneError::Attach { message: message.clone() },
            PaneError::NotFound { pane_id } => PaneError::NotFound { pane_id: *pane_id },
            PaneError::InvalidState { expected, actual } => PaneError::InvalidState {
                expected: expected.clone(),
                actual: actual.clone(),
            },
            PaneError::InvalidSize { rows, cols } => PaneError::InvalidSize {
                rows: *rows,
                cols: *cols,
            },
        }
    }
}

/// The error of a result, if it is one.
pub open spec fn error_of<T>(r: core::result::Result<T, PaneError>) -> Option<ErrorView> {
    match r {
        Ok(_) => None,
        Err(error) => Some(error@),
    }
}

impl ErrorView {
    /// The sentence that describes the error.
    pub open spec fn sentence(self) -> Seq<char> {
        match self {
            ErrorView::Spawn { message } => "spawn failed: "@ + message,
            ErrorView::Io { operation, message } => "io failed ("@ + operation.word() + "): "@
                + message,
            ErrorView::Surface { message } => "surface failed: "@ + message,
            ErrorView::InputEncoding { message } => "input encoding failed: "@ + message,
            ErrorView::Attach { message } => "attach failed: "@ + message,
            ErrorView::NotFound { pane_id } => "pane "@ + decimal(pane_id.value() as nat)
                + " was not found"@,
            ErrorView::InvalidState { expected, actual } => "invalid state: expected "@ + expected
                + ", got "@ + actual,
            ErrorView::InvalidSize { rows, cols } => "invalid size: rows="@ + decimal(rows as nat)
                + ", cols="@ + decimal(cols as nat) + " (both must be >= 1)"@,
        }
    }
}

/// An error says first what failed and then why, in its own words. Numbers are
/// written out in decimal.
pub proof fn law_sentences(
    message: Seq<char>,
    actual: Seq<char>,
    pane_id: PaneId,
    rows: u16,
    cols: u16,
)
    ensures
        (ErrorView::Spawn { message }).sentence() == "spawn failed: "@ + message,
        (ErrorView::Surface { message }).sentence() == "surface failed: "@ + message,
        (ErrorView::InputEncoding { message }).sentence() == "input encoding failed: "@ + message,
        (ErrorView::Attach { message }).sentence() == "attach failed: "@ + message,
        (ErrorView::NotFound { pane_id }).sentence() == "pane "@ + decimal(pane_id.value() as nat)
            + " was not found"@,
        (ErrorView::InvalidState { expected: message, actual }).sentence()
            == "invalid state: expected "@ + message + ", got "@ + actual,
        (ErrorView::InvalidSize { rows, cols }).sentence() == "invalid size: rows="@ + decimal(
            rows as nat,
        ) + ", cols="@ + decimal(cols as nat) + " (both must be >= 1)"@,
        (ErrorView::Io { operation: IoOperation::Read, message }).sentence() == "io failed ("@
            + "read"@ + "): "@ + message,
        (ErrorView::Io { operation: IoOperation::Write, message }).sentence() == "io failed ("@
            + "write"@ + "): "@ + message,
        (ErrorView::Io { operation: IoOperation::Resize, message }).sentence() == "io failed ("@
            + "resize"@ + "): "@ + message,
        (ErrorView::Io { operation: IoOperation::Kill, message }).sentence() == "io failed ("@
            + "kill"@ + "): "@ + message,
        (ErrorView::Io { operation: IoOperation::Flush, message }).sentence() == "io failed ("@
            + "flush"@ + "): "@ + message,
{
}

impl PaneError {
    /// Formats the error as one sentence.
    pub fn to_string(&self) -> (s: String)
        ensures
            s@ == self@.sentence(),
    {
        match self {
            PaneError::Spawn { message } => {
                let mut s = "spawn failed: ".to_owned();
                s.append(message.as_str());
                s
            },
            PaneError::Io { operation, message } => {
                let mut s = "io failed (".to_owned();
                s.append(operation.as_str());
                s.append("): ");
                s.append(message.as_str());
                s
            },
            PaneError::Surface { message } => {
                let mut s = "surface failed: ".to_owned();
                s.append(message.as_str());
                s
            },
            PaneError::InputEncoding { message } => {
                let mut s = "input encoding failed: ".to_owned();
                s.append(message.as_str());
                s
            },
            PaneError::Attach { message } => {
                let mut s = "attach failed: ".to_owned();
                s.append(message.as_str());
                s
            },
            PaneError::NotFound { pane_id } => {
                let mut s = "pane ".to_owned();
                push_decimal(&mut s, pane_id.get());
                s.append(" was not found");
                s
            },
            PaneError::InvalidState { expected, actual } => {
                let mut s = "invalid state: expected ".to_owned();
                s.append(expected.as_str());
                s.append(", got ");
                s.append(actual.as_str());
                s
            },
            PaneError::InvalidSize { rows, cols } => {
                let mut s = "invalid size: rows=".to_owned();
                push_decimal(&mut s, *rows as u64);
                s.append(", cols=");
                push_decimal(&mut s, *cols as u64);
                s.append(" (both must be >= 1)");
                s
            },
        }
    }
}

} // verus!

//! Command types for controlling panes.
//!
//! [`PaneCommand`] mirrors the manager's public operations as discrete
//! messages.

use vstd::prelude::*;

use crate::event::{AttachScreenPolicy, DetachReason};
use crate::input::HostInput;
use crate::pane::{KillReason, PaneConfig, PaneId, Size};
use crate::time::Duration;

verus! {

/// A pane operation as a message.
#[derive(Debug, Clone, PartialEq, Eq)]
pub enum PaneCommand {
    /// Spawn a new pane with the given configuration.
    Spawn(PaneConfig),
    /// Resize an existing pane.
    Resize {
        /// Target pane.
        pane_id: PaneId,
        /// New size.
        size: Size,
    },
    /// Write raw bytes to a pane's PTY.
    WriteBytes {
        /// Target pane.
        pane_id: PaneId,
        /// Bytes to write.
        bytes: Vec<u8>,
    },
    /// Send encoded input to a pane.
    Input {
        /// Target pane.
        pane_id: PaneId,
        /// The input to send.
        input: HostInput,
    },
    /// Kill a pane.
    Kill {
        /// Target pane.
        pane_id: PaneId,
        /// Reason for killing.
        reason: KillReason,
    },
    /// Attach a pane to the real terminal fullscreen.
    Attach {
        /// Target pane.
        pane_id: PaneId,
        /// Attach options.
        options: AttachOptions,
    },
    /// Detach a pane from the real terminal.
    Detach {
        /// Target pane.
        pane_id: PaneId,
        /// Reason for detaching.
        reason: DetachReason,
    },
}

/// Options for controlling fullscreen attach behavior.
///
/// Controls detach chord, screen policy, resize behavior, output forwarding,
/// and terminal restoration.
#[derive(Debug, PartialEq, Eq)]
pub struct AttachOptions {
    /// Configuration for the detach chord and timeout.
    pub detach: DetachConfig,
    /// Policy for handling the terminal screen.
    pub screen: AttachScreenPolicy,
    /// Policy for resizing the child PTY during attach.
    pub resize: AttachResizePolicy,
    /// Policy for forwarding child output during attach.
    pub output: AttachOutputPolicy,
    /// Policy for terminal state restoration after detach.
    pub restore: RestorePolicy,
}

impl AttachOptions {
    /// Whether the two option sets say the same.
    pub open spec fn same(self, other: Self) -> bool {
        &&& self.detach.same(other.detach)
        &&& self.screen == other.screen
        &&& self.resize == other.resize
        &&& self.output == other.output
        &&& self.restore == other.restore
    }
}

impl Clone for AttachOptions {
    fn clone(&self) -> (copy: Self)
        ensures
            copy.same(*self),
    {
        AttachOptions {
            detach: self.detach.clone(),
            screen: self.screen,
            resize: self.resize,
            output: self.output,
            restore: self.restore,
        }
    }
}

impl Default for AttachOptions {
    fn default() -> (options: Self)
        ensures
            options.detach.chord@ == seq![0x1du8],
            options.detach.partial_timeout.nanos == 500_000_000,
            options.screen == AttachScreenPolicy::ReuseHostAlternateScreen,
            options.resize == AttachResizePolicy::UseRealTerminalSize,
            options.output == AttachOutputPolicy::FanoutToSurfaceAndStdout,
            options.restore == RestorePolicy::Full,
    {
        AttachOptions {
            detach: DetachConfig::default(),
            screen: AttachScreenPolicy::ReuseHostAlternateScreen,
            resize: AttachResizePolicy::UseRealTerminalSize,
            output: AttachOutputPolicy::FanoutToSurfaceAndStdout,
            restore: RestorePolicy::Full,
        }
    }
}

/// Configuration for the detach chord and partial-match timeout.
///
/// A single-byte chord (e.g. `Ctrl+]`) detaches immediately. A multi-byte
/// chord (e.g. `Ctrl-A d`) holds the first byte until the second arrives or
/// the timeout expires.
#[derive(Debug, PartialEq, Eq)]
pub struct DetachConfig {
    /// Byte sequence that triggers detach.
    pub chord: Vec<u8>,
    /// How long to hold a partial chord before forwarding held bytes.
    pub partial_timeout: Duration,
}

impl DetachConfig {
    /// Whether the two configurations say the same.
    pub open spec fn same(self, other: Self) -> bool {
        self.chord@ == other.chord@ && self.partial_timeout == other.partial_timeout
    }
}

impl Clone for DetachConfig {
    fn clone(&self) -> (copy: Self)
        ensures
            copy.same(*self),
    {
        let chord = vstd::slice::slice_to_vec(self.chord.as_slice());
        DetachConfig { chord, partial_timeout: self.partial_timeout }
    }
}

impl Default for DetachConfig {
    fn default() -> (config: Self)
        ensures
            config.chord@ == seq![0x1du8],
            config.partial_timeout.nanos == 500_000_000,
    {
        DetachConfig {
            chord: vec![0x1d],  // Ctrl+]
            partial_timeout: Duration::from_millis(500),
        }
    }
}

/// Policy for resizing the child PTY during attach.
#[derive(Debug, Clone, Copy, PartialEq, Eq, Structural)]
pub enum AttachResizePolicy {
    /// Resize the child PTY to match the real terminal size.
    UseRealTerminalSize,
    /// Keep the embedded size; do not resize on attach.
    KeepEmbeddedSize,
}

impl Default for AttachResizePolicy {
    fn default() -> (policy: Self)
        ensures
            policy == AttachResizePolicy::UseRealTerminalSize,
    {
        AttachResizePolicy::UseRealTerminalSize
    }
}

/// Policy for forwarding child PTY output while attached.
#[derive(Debug, Clone, Copy, PartialEq, Eq, Structural)]
pub enum AttachOutputPolicy {
    /// Write output to real stdout and also feed the surface backend.
    FanoutToSurfaceAndStdout,
    /// Write only to stdout; replay to surface after detach.
    StdoutOnlyThenReplay,
}

impl Default for AttachOutputPolicy {
    fn default() -> (policy: Self)
        ensures
            policy == AttachOutputPolicy::FanoutToSurfaceAndStdout,
    {
        AttachOutputPolicy::FanoutToSurfaceAndStdout
    }
}

/// Policy for terminal state restoration after detach.
#[derive(Debug, Clone, Copy, PartialEq, Eq, Structural)]
pub enum RestorePolicy {
    /// Restore all terminal state (screen, cursor, raw mode, size).
    Full,
    /// Restore only essential terminal state.
    Minimal,
}

impl Default for RestorePolicy {
    fn default() -> (policy: Self)
        ensures
            policy == RestorePolicy::Full,
    {
        RestorePolicy::Full
    }
}

} // verus!

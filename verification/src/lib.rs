//! Terminal panes: key encoding, PTY frame queues, viewport arithmetic,
//! pane bookkeeping and fullscreen attach, with every rule stated as a
//! contract.

pub mod attach;
pub mod attach_account;
pub mod attach_course;
pub mod attach_error;
pub mod attach_loop;
pub mod attach_plan;
pub mod attach_viewport;
pub mod bytes;
pub mod calls;
pub mod child;
pub mod command;
pub mod crossterm_host;
pub mod crossterm_pane_host;
pub mod default_surface;
pub mod detach;
pub mod detach_encoding;
pub mod encoder;
pub mod error;
pub mod event;
pub mod input;
pub mod input_plan;
pub mod input_run;
pub mod input_transaction;
pub mod manager;
pub mod manager_config;
pub mod manager_course;
pub mod mode_overlay;
pub mod output_flow;
pub mod pane;
pub mod pane_core;
pub mod pane_course;
pub mod pane_runtime;
pub mod pty;
pub mod reader;
pub mod repro;
pub mod runtime_course;
pub mod session;
pub mod session_output;
pub mod sink;
pub mod surface;
pub mod suspension;
pub mod test_harness;
pub mod text;
pub mod time;
pub mod transcript;
pub mod viewport;

pub use attach::{
    AttachBridge, AttachGuard, AttachState, HostTerminalControl, TerminalRestoreToken,
};
pub use attach_error::{AttachFailure, AttachStepKind, BlockingAttachError, PaneAttachError};
pub use attach_loop::AttachLoop;
pub use attach_plan::{
    AttachInputChunk, AttachNote, AttachReply, AttachRequest, AttachStep, BlockingAttachOutcome,
};
pub use attach_viewport::{AttachViewportAction, ContentRows};
pub use command::{
    AttachOptions, AttachOutputPolicy, AttachResizePolicy, DetachConfig, PaneCommand, RestorePolicy,
};
pub use crossterm_host::{
    BufferSink, CrosstermTerminalControl, HostFault, HostWrite, HostWriteStep, RawModeOps,
    TerminalSink,
};
pub use default_surface::DefaultSurfaceBackend;
pub use detach::{DetachMatcher, FeedBytesResult, MatchResult};
pub use encoder::{InputEncoder, XtermEncoder};
pub use error::{IoOperation, PaneError, PaneError as Error, Result};
pub use event::{
    AttachEndedEvent, AttachScreenPolicy, AttachStartedEvent, DetachReason, DirtyRows, ErrorEvent,
    ExitedEvent, InputKind, InputSentEvent, OutputCapturePolicy, OutputEvent, OverflowEvent,
    OverflowQueue, PaneEvent, PaneEventKind, ResizedEvent, SpawnedEvent, StateChangedEvent,
    SurfaceChangedEvent, TranscriptRotatedEvent,
};
pub use input::{
    HostInput, KeyCode, KeyEventKind, KeyInput, KeyModifiers, MediaKeyCode, ModifierKeyCode,
    MouseButton, MouseEventKind, MouseInput, UnsupportedEventError,
};
pub use input_plan::InputWriteStep;
pub use input_run::{InputRun, TransactionNote, TransactionReply, TransactionRequest};
pub use input_transaction::{
    input_echo_hash, InputIntent, InputOutcome, InputRetryConfig, InputTransaction,
    InputTransactionError, InputVerification,
};
pub use manager::attach::{
    AttachProgress, PaneAttach, PaneAttachHost, PaneAttachInputChunk, PaneAttachOutcome,
    PaneAttachTerminal, PaneAttachTerminalControl,
};
pub use manager::inspect::PaneHandle;
pub use manager::PaneManager;
pub use manager_config::{EventSink, PaneManagerConfig, PtySpawner, SurfaceFactory};
pub use pane::{
    AttachConfig, BackspaceEncoding, ChildEnvironmentPolicy, CommandSpec, EnterEncoding, EnvMap,
    InputConfig, KillConfig, KillReason, MouseMode, PaneConfig, PaneId, PaneInteractionMode,
    PaneState, PasteNewlinePolicy, ScrollbackConfig, Size, SurfaceConfig, TerminalModes,
    TranscriptConfig, TranscriptMode,
};
pub use pane_core::PaneExit;
pub use pane_runtime::PaneRuntime;
pub use pty::{
    OverflowStats, PtyBackend, PtyFrame, PtyFrameQueue, PtyHandle, PtyProcess, PtySink, PtyWriter,
    WriteFault,
};
pub use reader::{RangeEdge, ScrollbackReader, TranscriptReader};
pub use repro::{ReproDump, ReproDumpOptions, ReproRawTranscript, ReproSizeEvent};
pub use session::{
    AttachClock, AttachParties, AttachPtyEndpoint, AttachSurfaceSink, AttachTerminal,
    BlockingAttachSession, SessionProgress,
};
pub use surface::{
    CellAttrs, CellStyle, CellWidth, ColorSpec, CursorPosition, CursorState, OwnedPaneSnapshot,
    OwnedScrollbackLine, OwnedScrollbackSnapshot, OwnedSurfaceCell, OwnedSurfaceRow,
    OwnedSurfaceSnapshot, PaneSnapshot, PaneStats, ReplayBackendKind, ScrollbackLine,
    ScrollbackSnapshot, SurfaceBackend, SurfaceBackendMetadata, SurfaceCell, SurfaceRow,
    SurfaceSnapshot, SurfaceUpdate,
};
pub use suspension::{HostReply, HostRequest, Restoration, Suspension};
pub use time::{Duration, Instant};
pub use transcript::{Transcript, TranscriptRecord, TranscriptRotation};
pub use viewport::{TerminalViewport, TerminalViewportMetrics};

//! Pane identity, size, state, and configuration types.

use std::path::PathBuf;

use vstd::prelude::*;

use crate::error::{ErrorView, PaneError, Result};
use crate::text::{blank_text, is_blank, white_space};
use crate::time::Duration;

verus! {

/// A filesystem path, carried through and never looked into.
#[verifier::external_type_specification]
#[verifier::external_body]
pub struct ExPathBuf(std::path::PathBuf);

/// `PathBuf::clone` copies the path.
pub assume_specification[ <std::path::PathBuf as Clone>::clone ](path: &PathBuf) -> (copy: PathBuf)
    ensures
        copy == *path,
;

/// Stable pane identifier.
#[derive(Debug, Clone, Copy, PartialEq, Eq, Structural, Hash, PartialOrd, Ord)]
pub struct PaneId(u64);

impl PaneId {
    /// The raw numeric value.
    pub closed spec fn value(self) -> u64 {
        self.0
    }

    /// Creates a pane identifier from a raw numeric value.
    pub fn new(value: u64) -> (id: Self)
        ensures
            id.value() == value,
    {
        PaneId(value)
    }

    /// Returns the raw numeric value backing this identifier.
    pub fn get(self) -> (value: u64)
        ensures
            value == self.value(),
    {
        self.0
    }
}

/// Identifiers with equal numbers are equal.
pub proof fn lemma_pane_id_value(a: PaneId, b: PaneId)
    ensures
        a.value() == b.value() <==> a == b,
{
}

/// Terminal surface dimensions in rows and columns.
///
/// Both dimensions must be at least 1. Use [`Size::try_new`] for a checked
/// constructor, or [`Size::new`] when the values are known to be valid.
#[derive(Debug, Clone, Copy, PartialEq, Eq, Structural)]
pub struct Size {
    /// Number of terminal rows.
    pub rows: u16,
    /// Number of terminal columns.
    pub cols: u16,
}

impl Size {
    /// Whether both dimensions are at least one.
    pub open spec fn valid(self) -> bool {
        self.rows >= 1 && self.cols >= 1
    }

    /// Creates a size without runtime validation.
    ///
    /// Prefer [`Size::try_new`] when the dimensions are computed or sourced
    /// from outside input.
    pub fn new(rows: u16, cols: u16) -> (size: Self)
        ensures
            size == (Size { rows, cols }),
    {
        Size { rows, cols }
    }

    /// Creates a size, rejecting zero rows or columns.
    ///
    /// # Errors
    ///
    /// Returns [`PaneError::InvalidSize`] when either dimension is zero.
    pub fn try_new(rows: u16, cols: u16) -> (r: Result<Self>)
        ensures
            match r {
                Ok(size) => size == (Size { rows, cols }) && size.valid(),
                Err(e) => !(Size { rows, cols }).valid() && e@ == (ErrorView::InvalidSize {
                    rows,
                    cols,
                }),
            },
    {
        if rows == 0 || cols == 0 {
            Err(PaneError::InvalidSize { rows, cols })
        } else {
            Ok(Size { rows, cols })
        }
    }
}

/// Lifecycle state of a pane's child process.
#[derive(Debug, PartialEq, Eq)]
pub enum PaneState {
    /// The child process is being started.
    Starting,
    /// The child process is running.
    Running,
    /// The child process exited with an optional status code.
    Exited {
        /// The process exit code, if available.
        code: Option<i32>,
    },
    /// The child process failed to start or crashed.
    Failed {
        /// The error that caused the failure.
        error: PaneError,
    },
    /// The child process was killed.
    Killed {
        /// The reason the pane was killed.
        reason: KillReason,
    },
}

/// A [`PaneState`] with its texts as character sequences.
pub ghost enum StateView {
    Starting,
    Running,
    Exited { code: Option<i32> },
    Failed { error: ErrorView },
    Killed { reason: KillReason },
}

impl StateView {
    /// Whether the child is still there: starting or running.
    pub open spec fn is_live(self) -> bool {
        self is Starting || self is Running
    }
}

impl View for PaneState {
    type V = StateView;

    open spec fn view(&self) -> StateView {
        match self {
            PaneState::Starting => StateView::Starting,
            PaneState::Running => StateView::Running,
            PaneState::Exited { code } => StateView::Exited { code: *code },
            PaneState::Failed { error } => StateView::Failed { error: error@ },
            PaneState::Killed { reason } => StateView::Killed { reason: *reason },
        }
    }
}

impl Clone for PaneState {
    fn clone(&self) -> (copy: Self)
        ensures
            copy@ == self@,
    {
        match self {
            PaneState::Starting => PaneState::Starting,
            PaneState::Running => PaneState::Running,
            PaneState::Exited { code } => PaneState::Exited { code: *code },
            PaneState::Failed { error } => PaneState::Failed { error: error.clone() },
            PaneState::Killed { reason } => PaneState::Killed { reason: *reason },
        }
    }
}

/// Reasons a pane can be killed.
#[derive(Debug, Clone, Copy, PartialEq, Eq, Structural)]
pub enum KillReason {
    /// The user explicitly requested termination.
    UserRequested,
    /// The host application requested termination.
    HostRequested,
    /// A configured limit was reached.
    ConfigLimit,
}

/// Interaction mode for a pane, independent of process state.
///
/// A pane can exit while attached; the attach bridge handles this by
/// showing the exit state and allowing detach.
#[derive(Debug, Clone, Copy, PartialEq, Eq, Structural)]
pub enum PaneInteractionMode {
    /// The pane is rendered in an embedded widget.
    Embedded,
    /// The pane is transitioning to fullscreen attach.
    Attaching,
    /// The pane has fullscreen control of the real terminal.
    Attached,
    /// The pane is transitioning back to embedded rendering.
    Detaching,
}

/// The texts of a list of strings.
pub open spec fn texts(list: Seq<String>) -> Seq<Seq<char>> {
    list.map_values(|s: String| s@)
}

/// Owns a list of string slices.
pub fn owned_texts(list: &[&str]) -> (out: Vec<String>)
    ensures
        texts(out@) == list@.map_values(|s: &str| s@),
{
    let mut out: Vec<String> = Vec::new();
    let mut i: usize = 0;
    while i < list.len()
        invariant
            i <= list@.len(),
            texts(out@) == list@.take(i as int).map_values(|s: &str| s@),
        decreases list@.len() - i,
    {
        let ghost before = out@;
        out.push(list[i].to_owned());
        proof {
            assert(texts(out@) =~= texts(before).push(list@[i as int]@));
            assert(list@.take(i + 1) =~= list@.take(i as int).push(list@[i as int]));
            assert(texts(out@) =~= list@.take(i + 1).map_values(|s: &str| s@));
        }
        i = i + 1;
    }
    assert(list@.take(i as int) =~= list@);
    out
}

/// Copies a list of strings.
pub fn clone_texts(list: &Vec<String>) -> (out: Vec<String>)
    ensures
        texts(out@) == texts(list@),
{
    let mut out: Vec<String> = Vec::new();
    let mut i: usize = 0;
    while i < list.len()
        invariant
            i <= list@.len(),
            texts(out@) == texts(list@.take(i as int)),
        decreases list@.len() - i,
    {
        let ghost before = out@;
        out.push(list[i].clone());
        proof {
            assert(texts(out@) =~= texts(before).push(list@[i as int]@));
            assert(texts(out@) =~= texts(list@.take(i + 1)));
        }
        i = i + 1;
    }
    assert(list@.take(i as int) =~= list@);
    out
}

/// Describes the program and arguments to spawn inside a pane.
#[derive(Debug, PartialEq, Eq)]
pub struct CommandSpec {
    /// The executable or shell command to run.
    pub program: String,
    /// Arguments passed to the program.
    pub args: Vec<String>,
}

impl Clone for CommandSpec {
    fn clone(&self) -> (copy: Self)
        ensures
            copy.program@ == self.program@,
            texts(copy.args@) == texts(self.args@),
    {
        CommandSpec { program: self.program.clone(), args: clone_texts(&self.args) }
    }
}

impl CommandSpec {
    /// Creates a command spec with no arguments.
    pub fn new(program: &str) -> (spec_: Self)
        ensures
            spec_.program@ == program@,
            spec_.args@.len() == 0,
    {
        CommandSpec { program: program.to_owned(), args: Vec::new() }
    }

    /// Creates a command spec with an argument list.
    pub fn with_args(program: &str, args: &[&str]) -> (spec_: Self)
        ensures
            spec_.program@ == program@,
            texts(spec_.args@) == args@.map_values(|s: &str| s@),
    {
        CommandSpec { program: program.to_owned(), args: owned_texts(args) }
    }

    /// Validates that the program is non-empty.
    pub fn validate(&self) -> (r: Result<()>)
        ensures
            match r {
                Ok(_) => !blank_text(self.program@),
                Err(e) => blank_text(self.program@) && e@ == empty_program_error(),
            },
    {
        if is_blank(self.program.as_str()) {
            Err(PaneError::Spawn { message: "command program must not be empty".to_owned() })
        } else {
            Ok(())
        }
    }
}

/// The error for a command whose program is blank.
pub open spec fn empty_program_error() -> ErrorView {
    ErrorView::Spawn { message: "command program must not be empty"@ }
}

/// Configuration for terminal scrollback retention.
///
/// The default is unbounded retention, preserving the historical behavior for
/// callers that have not opted into a policy. Use
/// [`ScrollbackConfig::bounded_lines`] to cap retained history or
/// [`ScrollbackConfig::disabled`] to retain no scrollback history.
#[derive(Debug, Clone, Copy, PartialEq, Eq, Structural)]
pub struct ScrollbackConfig {
    /// Maximum number of history lines to retain.
    ///
    /// `None` means unbounded retention. `Some(0)` disables scrollback.
    /// Positive values retain at most that many history lines. The visible
    /// terminal screen is never counted against this limit.
    pub max_lines: Option<usize>,
}

impl ScrollbackConfig {
    /// Creates an unbounded scrollback policy.
    pub fn unlimited() -> (config: Self)
        ensures
            config.max_lines is None,
    {
        ScrollbackConfig { max_lines: None }
    }

    /// Creates a bounded scrollback policy.
    ///
    /// # Errors
    ///
    /// Returns [`PaneError::Spawn`] when `max_lines` is zero.
    pub fn bounded_lines(max_lines: usize) -> (r: Result<Self>)
        ensures
            match r {
                Ok(config) => max_lines > 0 && config.max_lines == Some(max_lines),
                Err(e) => max_lines == 0 && e@ == (ErrorView::Spawn {
                    message: "scrollback max_lines must be > 0"@,
                }),
            },
    {
        if max_lines == 0 {
            Err(PaneError::Spawn { message: "scrollback max_lines must be > 0".to_owned() })
        } else {
            Ok(ScrollbackConfig { max_lines: Some(max_lines) })
        }
    }

    /// Creates a bounded scrollback policy.
    ///
    /// The backing terminal history is bounded by `max_lines`; `max_bytes`
    /// must still be non-zero to catch stale mixed-zero configurations.
    ///
    /// # Errors
    ///
    /// Returns [`PaneError::Spawn`] when either argument is zero.
    pub fn new(max_lines: usize, max_bytes: usize) -> (r: Result<Self>)
        ensures
            match r {
                Ok(config) => max_lines > 0 && max_bytes > 0 && config.max_lines == Some(max_lines),
                Err(e) => if max_bytes == 0 {
                    e@ == (ErrorView::Spawn { message: "scrollback max_bytes must be > 0"@ })
                } else {
                    max_lines == 0 && e@ == (ErrorView::Spawn {
                        message: "scrollback max_lines must be > 0"@,
                    })
                },
            },
    {
        if max_bytes == 0 {
            return Err(
                PaneError::Spawn { message: "scrollback max_bytes must be > 0".to_owned() },
            );
        }
        Self::bounded_lines(max_lines)
    }

    /// Disables scrollback entirely.
    pub fn disabled() -> (config: Self)
        ensures
            config.max_lines == Some(0usize),
    {
        ScrollbackConfig { max_lines: Some(0) }
    }

    /// Returns `true` when the policy retains no history.
    pub fn is_disabled(&self) -> (b: bool)
        ensures
            b == (self.max_lines == Some(0usize)),
    {
        match self.max_lines {
            Some(lines) => lines == 0,
            None => false,
        }
    }

    /// Returns `true` when history retention is unbounded.
    pub fn is_unlimited(&self) -> (b: bool)
        ensures
            b == (self.max_lines is None),
    {
        self.max_lines.is_none()
    }

    /// Returns `true` when a positive line bound is configured.
    pub fn is_bounded(&self) -> (b: bool)
        ensures
            b == (self.max_lines matches Some(lines) && lines > 0),
    {
        match self.max_lines {
            Some(lines) => lines > 0,
            None => false,
        }
    }

    /// Returns `true` when some history can be retained.
    pub fn is_enabled(&self) -> (b: bool)
        ensures
            b == (self.max_lines != Some(0usize)),
    {
        !self.is_disabled()
    }

    /// Returns the configured line limit.
    ///
    /// `None` means unbounded. `Some(0)` means disabled.
    pub fn line_limit(&self) -> (limit: Option<usize>)
        ensures
            limit == self.max_lines,
    {
        self.max_lines
    }
}

impl Default for ScrollbackConfig {
    fn default() -> (config: Self)
        ensures
            config.max_lines is None,
    {
        Self::unlimited()
    }
}

/// Modes for transcript recording.
#[derive(Debug, Clone, Copy, PartialEq, Eq, Structural)]
pub enum TranscriptMode {
    /// No transcript is recorded.
    Disabled,
    /// Plain text transcript (ANSI stripped).
    PlainText,
    /// Raw PTY bytes.
    RawBytes,
    /// Both plain text and raw bytes.
    Both,
}

impl Default for TranscriptMode {
    fn default() -> (mode: Self)
        ensures
            mode == TranscriptMode::Disabled,
    {
        TranscriptMode::Disabled
    }
}

/// Configuration for transcript recording behavior.
///
/// Defaults to [`TranscriptMode::Disabled`] with 10,000 line and 1 MiB byte
/// retention limits. A limit of `0` disables that bound.
#[derive(Debug, Clone, Copy, PartialEq, Eq, Structural)]
pub struct TranscriptConfig {
    /// The selected transcript mode.
    pub mode: TranscriptMode,
    /// Maximum number of lines to retain in the transcript.
    ///
    /// In Both mode, each chunk contributes `max(raw_newlines, plain_newlines)`
    /// to avoid double-counting one logical line. A value of `0` disables the
    /// line limit.
    pub max_lines: usize,
    /// Maximum total bytes to retain in the transcript.
    pub max_bytes: usize,
}

impl TranscriptConfig {
    /// Creates a transcript config with the given mode and default limits.
    pub fn new(mode: TranscriptMode) -> (config: Self)
        ensures
            config == (TranscriptConfig { mode, max_lines: 10_000, max_bytes: 1_048_576 }),
    {
        TranscriptConfig { mode, max_lines: 10_000, max_bytes: 1_048_576 }
    }

    /// Sets the transcript line limit.
    pub fn with_max_lines(self, max_lines: usize) -> (config: Self)
        ensures
            config == (TranscriptConfig { max_lines, ..self }),
    {
        TranscriptConfig { mode: self.mode, max_lines, max_bytes: self.max_bytes }
    }

    /// Sets the transcript byte limit.
    pub fn with_max_bytes(self, max_bytes: usize) -> (config: Self)
        ensures
            config == (TranscriptConfig { max_bytes, ..self }),
    {
        TranscriptConfig { mode: self.mode, max_lines: self.max_lines, max_bytes }
    }
}

impl Default for TranscriptConfig {
    fn default() -> (config: Self)
        ensures
            config == (TranscriptConfig {
                mode: TranscriptMode::Disabled,
                max_lines: 10_000,
                max_bytes: 1_048_576,
            }),
    {
        TranscriptConfig::new(TranscriptMode::Disabled)
    }
}

/// Configuration for surface rendering behavior.
#[derive(Debug, Clone, Copy, PartialEq, Eq, Structural, Default)]
pub struct SurfaceConfig;

/// Configuration for input handling behavior.
#[derive(Debug, Clone, Copy, PartialEq, Eq, Structural)]
pub struct InputConfig {
    /// How the Enter key is encoded.
    pub enter: EnterEncoding,
    /// How the Backspace key is encoded.
    pub backspace: BackspaceEncoding,
    /// Whether Alt+key sends ESC prefix.
    pub alt_sends_escape: bool,
    /// Whether the host sends application cursor sequences.
    pub application_cursor_keys: bool,
    /// How newlines in pasted text are handled.
    pub paste_newline: PasteNewlinePolicy,
}

/// How the Enter/Return key is encoded.
#[derive(Debug, Clone, Copy, PartialEq, Eq, Structural)]
pub enum EnterEncoding {
    /// Carriage return (`\r`).
    Cr,
    /// Line feed (`\n`).
    Lf,
    /// Carriage return + line feed (`\r\n`).
    CrLf,
}

impl Default for EnterEncoding {
    fn default() -> (encoding: Self)
        ensures
            encoding == EnterEncoding::Cr,
    {
        EnterEncoding::Cr
    }
}

/// How the Backspace key is encoded.
#[derive(Debug, Clone, Copy, PartialEq, Eq, Structural)]
pub enum BackspaceEncoding {
    /// DEL (`0x7f`).
    Del,
    /// Backspace (`0x08`).
    Bs,
}

impl Default for BackspaceEncoding {
    fn default() -> (encoding: Self)
        ensures
            encoding == BackspaceEncoding::Del,
    {
        BackspaceEncoding::Del
    }
}

/// How newlines in pasted text are handled.
#[derive(Debug, Clone, Copy, PartialEq, Eq, Structural)]
pub enum PasteNewlinePolicy {
    /// Preserve newlines exactly.
    Preserve,
    /// Normalize to LF (`\n`).
    NormalizeToLf,
    /// Normalize to CR (`\r`).
    NormalizeToCr,
}

impl Default for PasteNewlinePolicy {
    fn default() -> (policy: Self)
        ensures
            policy == PasteNewlinePolicy::Preserve,
    {
        PasteNewlinePolicy::Preserve
    }
}

/// The input configuration of a pane that sets nothing.
pub open spec fn default_input_config() -> InputConfig {
    InputConfig {
        enter: EnterEncoding::Cr,
        backspace: BackspaceEncoding::Del,
        alt_sends_escape: true,
        application_cursor_keys: false,
        paste_newline: PasteNewlinePolicy::Preserve,
    }
}

impl Default for InputConfig {
    fn default() -> (config: Self)
        ensures
            config == default_input_config(),
    {
        InputConfig {
            enter: EnterEncoding::Cr,
            backspace: BackspaceEncoding::Del,
            alt_sends_escape: true,
            application_cursor_keys: false,
            paste_newline: PasteNewlinePolicy::Preserve,
        }
    }
}

/// Terminal modes reported by the surface backend.
///
/// The encoder uses these to decide whether to emit bracketed paste
/// wrappers, focus event sequences, application cursor sequences, etc.
#[derive(Debug, Clone, Copy, PartialEq, Eq, Structural)]
pub struct TerminalModes {
    /// Whether the child has requested bracketed paste.
    pub bracketed_paste: bool,
    /// Whether the child has requested focus events.
    pub focus_events: bool,
    /// Whether the child is in application cursor mode.
    pub application_cursor: bool,
    /// Whether the child is in the alternate screen buffer.
    pub alternate_screen: bool,
    /// The active mouse protocol, if any.
    pub mouse: MouseMode,
}

/// The modes of a terminal that has been asked for nothing.
pub open spec fn default_modes() -> TerminalModes {
    TerminalModes {
        bracketed_paste: false,
        focus_events: false,
        application_cursor: false,
        alternate_screen: false,
        mouse: MouseMode::Off,
    }
}

impl Default for TerminalModes {
    fn default() -> (modes: Self)
        ensures
            modes == default_modes(),
    {
        TerminalModes {
            bracketed_paste: false,
            focus_events: false,
            application_cursor: false,
            alternate_screen: false,
            mouse: MouseMode::Off,
        }
    }
}

/// Mouse protocols that a terminal surface can enable.
#[derive(Debug, Clone, Copy, PartialEq, Eq, Structural)]
pub enum MouseMode {
    /// No mouse reporting.
    Off,
    /// X10 compatibility mode.
    X10,
    /// Normal tracking mode.
    Normal,
    /// Button-event tracking mode.
    ButtonEvent,
    /// Any-event tracking mode.
    AnyEvent,
    /// SGR-encoded extended coordinates.
    Sgr,
}

impl Default for MouseMode {
    fn default() -> (mode: Self)
        ensures
            mode == MouseMode::Off,
    {
        MouseMode::Off
    }
}

/// Configuration for attach/detach behavior.
#[derive(Debug, Clone, Copy, PartialEq, Eq, Structural, Default)]
pub struct AttachConfig;

/// Which of the host's environment variables a child inherits.
#[derive(Debug, PartialEq, Eq)]
pub enum ChildEnvironmentPolicy {
    /// The child inherits the whole environment.
    Inherit,
    /// The child starts from an empty environment.
    Clear,
    /// The child inherits the named variables only.
    Allowlist(Vec<String>),
}

impl ChildEnvironmentPolicy {
    /// Whether the two policies say the same.
    pub open spec fn same(self, other: Self) -> bool {
        match (self, other) {
            (ChildEnvironmentPolicy::Inherit, ChildEnvironmentPolicy::Inherit) => true,
            (ChildEnvironmentPolicy::Clear, ChildEnvironmentPolicy::Clear) => true,
            (ChildEnvironmentPolicy::Allowlist(a), ChildEnvironmentPolicy::Allowlist(b)) => texts(
                a@,
            ) == texts(b@),
            _ => false,
        }
    }
}

impl Clone for ChildEnvironmentPolicy {
    fn clone(&self) -> (copy: Self)
        ensures
            copy.same(*self),
    {
        match self {
            ChildEnvironmentPolicy::Inherit => ChildEnvironmentPolicy::Inherit,
            ChildEnvironmentPolicy::Clear => ChildEnvironmentPolicy::Clear,
            ChildEnvironmentPolicy::Allowlist(keys) => ChildEnvironmentPolicy::Allowlist(
                clone_texts(keys),
            ),
        }
    }
}

/// Configuration for how a pane's child process is terminated.
///
/// Defaults to a 5-second grace period between SIGTERM and SIGKILL, with
/// descendant killing enabled.
#[derive(Debug, Clone, Copy, PartialEq, Eq, Structural)]
pub struct KillConfig {
    /// Grace period between SIGTERM and SIGKILL.
    pub term_grace: Duration,
    /// Whether to kill descendant processes.
    pub kill_descendants: bool,
}

impl KillConfig {
    /// Creates a new kill config.
    pub fn new(term_grace: Duration, kill_descendants: bool) -> (config: Self)
        ensures
            config == (KillConfig { term_grace, kill_descendants }),
    {
        KillConfig { term_grace, kill_descendants }
    }
}

impl Default for KillConfig {
    fn default() -> (config: Self)
        ensures
            config.term_grace.nanos == 5_000_000_000,
            config.kill_descendants,
    {
        KillConfig { term_grace: Duration::from_secs(5), kill_descendants: true }
    }
}

/// What a list of environment assignments amounts to, the last of a name winning.
pub open spec fn env_of(entries: Seq<(String, String)>) -> Map<Seq<char>, Seq<char>>
    decreases entries.len(),
{
    if entries.len() == 0 {
        Map::empty()
    } else {
        env_of(entries.drop_last()).insert(entries.last().0@, entries.last().1@)
    }
}

proof fn lemma_env_remove(entries: Seq<(String, String)>, i: int)
    requires
        0 <= i < entries.len(),
    ensures
        env_of(entries.remove(i)).remove(entries[i].0@) == env_of(entries).remove(entries[i].0@),
    decreases entries.len(),
{
    let shorter = entries.drop_last();
    if i == entries.len() - 1 {
        assert(entries.remove(i) =~= shorter);
        assert(env_of(shorter).remove(entries[i].0@) =~= env_of(entries).remove(entries[i].0@));
    } else {
        lemma_env_remove(shorter, i);
        let rest = entries.remove(i);
        let name = entries[i].0@;
        assert(rest.drop_last() =~= shorter.remove(i));
        assert(rest.last() == entries.last());
        let a = env_of(shorter.remove(i));
        let b = env_of(shorter);
        assert forall|x: Seq<char>| x != name implies #[trigger] a.dom().contains(x)
            == b.dom().contains(x) && (a.dom().contains(x) ==> a[x] == b[x]) by {
            assert(a.remove(name).dom().contains(x) == b.remove(name).dom().contains(x));
            if a.dom().contains(x) {
                assert(a.remove(name)[x] == b.remove(name)[x]);
            }
        }
        let (key, value) = (entries.last().0@, entries.last().1@);
        assert(env_of(rest) == a.insert(key, value));
        assert(env_of(entries) == b.insert(key, value));
        assert(env_of(rest).remove(name) =~= env_of(entries).remove(name));
    }
}

proof fn lemma_env_absent(entries: Seq<(String, String)>, name: Seq<char>)
    requires
        forall|k: int| 0 <= k < entries.len() ==> (#[trigger] entries[k]).0@ != name,
    ensures
        !env_of(entries).dom().contains(name),
    decreases entries.len(),
{
    if entries.len() > 0 {
        assert(entries.last() == entries[entries.len() - 1]);
        assert forall|k: int| 0 <= k < entries.drop_last().len() implies (
        #[trigger] entries.drop_last()[k]).0@ != name by {
            assert(entries.drop_last()[k] == entries[k]);
        }
        lemma_env_absent(entries.drop_last(), name);
    }
}

proof fn lemma_env_last(entries: Seq<(String, String)>, i: int)
    requires
        0 <= i < entries.len(),
        forall|k: int| i < k < entries.len() ==> (#[trigger] entries[k]).0@ != entries[i].0@,
    ensures
        env_of(entries).dom().contains(entries[i].0@),
        env_of(entries)[entries[i].0@] == entries[i].1@,
    decreases entries.len(),
{
    if i < entries.len() - 1 {
        let shorter = entries.drop_last();
        assert(shorter[i] == entries[i]);
        assert(entries.last() == entries[entries.len() - 1]);
        assert forall|k: int| i < k < shorter.len() implies (#[trigger] shorter[k]).0@
            != shorter[i].0@ by {
            assert(shorter[k] == entries[k]);
        }
        lemma_env_last(shorter, i);
    }
}

/// Environment variables, each name at most once.
#[derive(Debug, PartialEq, Eq)]
pub struct EnvMap {
    entries: Vec<(String, String)>,
}

impl Clone for EnvMap {
    fn clone(&self) -> (copy: Self)
        ensures
            copy@ == self@,
            self.distinct() ==> copy.distinct(),
    {
        let mut entries: Vec<(String, String)> = Vec::new();
        let mut i: usize = 0;
        while i < self.entries.len()
            invariant
                i <= self.entries@.len(),
                entries@.len() == i,
                forall|k: int|
                    0 <= k < i ==> (#[trigger] entries@[k]).0@ == self.entries@[k].0@
                        && entries@[k].1@ == self.entries@[k].1@,
                env_of(entries@) == env_of(self.entries@.take(i as int)),
            decreases self.entries@.len() - i,
        {
            let ghost before = entries@;
            entries.push((self.entries[i].0.clone(), self.entries[i].1.clone()));
            proof {
                assert(entries@.drop_last() =~= before);
                assert(self.entries@.take(i + 1).drop_last() =~= self.entries@.take(i as int));
            }
            i = i + 1;
        }
        assert(self.entries@.take(i as int) =~= self.entries@);
        EnvMap { entries }
    }
}

impl View for EnvMap {
    type V = Map<Seq<char>, Seq<char>>;

    closed spec fn view(&self) -> Map<Seq<char>, Seq<char>> {
        env_of(self.entries@)
    }
}

impl EnvMap {
    /// Whether no name occurs twice.
    pub closed spec fn distinct(self) -> bool {
        forall|i: int, j: int|
            0 <= i < j < self.entries@.len() ==> (#[trigger] self.entries@[i]).0@ != (
            #[trigger] self.entries@[j]).0@
    }

    /// No variables.
    pub fn new() -> (map: Self)
        ensures
            map@ == Map::<Seq<char>, Seq<char>>::empty(),
            map.distinct(),
    {
        EnvMap { entries: Vec::new() }
    }

    /// Whether there are no variables.
    pub fn is_empty(&self) -> (b: bool)
        ensures
            b == (self@ == Map::<Seq<char>, Seq<char>>::empty()),
    {
        proof {
            if self.entries@.len() > 0 {
                let last = self.entries@.last();
                assert(self@.dom().contains(last.0@));
                assert(self@ != Map::<Seq<char>, Seq<char>>::empty());
            }
        }
        self.entries.len() == 0
    }

    /// Sets `name` to `value`, replacing what it was.
    pub fn insert(&mut self, name: &str, value: &str)
        ensures
            final(self)@ == old(self)@.insert(name@, value@),
            old(self).distinct() ==> final(self).distinct(),
    {
        let name = name.to_owned();
        let mut i: usize = 0;
        while i < self.entries.len() && !(self.entries[i].0 == name)
            invariant
                i <= self.entries@.len(),
                forall|k: int| 0 <= k < i ==> (#[trigger] self.entries@[k]).0@ != name@,
                self.entries@ == old(self).entries@,
            decreases self.entries@.len() - i,
        {
            i = i + 1;
        }
        let ghost before = self.entries@;
        if i < self.entries.len() {
            let _ = self.entries.remove(i);
            proof {
                if old(self).distinct() {
                    assert forall|k: int| 0 <= k < self.entries@.len() implies (
                    #[trigger] self.entries@[k]).0@ != name@ by {
                        if k >= i {
                            assert(self.entries@[k] == before[k + 1]);
                            assert(before[i as int].0@ != before[k + 1].0@);
                        }
                    }
                }
            }
        }
        let ghost middle = self.entries@;
        self.entries.push((name, value.to_owned()));
        proof {
            assert(self.entries@.drop_last() =~= middle);
            if i < before.len() {
                lemma_env_remove(before, i as int);
                assert(env_of(middle).insert(name@, value@) =~= env_of(middle).remove(
                    name@,
                ).insert(name@, value@));
                assert(env_of(before).insert(name@, value@) =~= env_of(before).remove(
                    name@,
                ).insert(name@, value@));
            }
        }
    }

    /// Returns the value of `name`, when it is set.
    pub fn get(&self, name: &str) -> (value: Option<&str>)
        ensures
            match value {
                Some(v) => self@.dom().contains(name@) && v@ == self@[name@],
                None => !self@.dom().contains(name@),
            },
    {
        let wanted = name.to_owned();
        let mut i: usize = self.entries.len();
        while i > 0
            invariant
                i <= self.entries@.len(),
                wanted@ == name@,
                forall|k: int| i <= k < self.entries@.len() ==> (#[trigger] self.entries@[k]).0@
                    != name@,
            decreases i,
        {
            i = i - 1;
            if self.entries[i].0 == wanted {
                proof {
                    lemma_env_last(self.entries@, i as int);
                }
                return Some(self.entries[i].1.as_str());
            }
        }
        proof {
            lemma_env_absent(self.entries@, name@);
        }
        None
    }

    /// The assignments, one for each name.
    pub fn entries(&self) -> (list: &[(String, String)])
        ensures
            env_of(list@) == self@,
    {
        self.entries.as_slice()
    }
}

/// Describes a child process and pane behavior.
///
/// # Defaults
///
/// | Field       | Default value                                           |
/// |-------------|---------------------------------------------------------|
/// | `id`        | `None` (manager-assigned)                               |
/// | `title`     | `None`                                                  |
/// | `command`   | `"cmd"` on Windows, `"sh"` elsewhere                    |
/// | `cwd`       | `None` (inherits process cwd)                           |
/// | `env`       | empty map                                               |
/// | `size`      | `Size { rows: 24, cols: 80 }`                           |
/// | `scrollback`| `None` (inherit the manager default)                    |
/// | `transcript`| `TranscriptConfig { mode: TranscriptMode::Disabled }`   |
/// | `surface`   | `SurfaceConfig`                                         |
/// | `input`     | `InputConfig`                                           |
/// | `attach`    | `AttachConfig`                                          |
/// | `kill`      | `KillConfig { term_grace: 5s, kill_descendants: true }` |
#[derive(Debug, PartialEq, Eq)]
pub struct PaneConfig {
    /// Optional stable identifier. When `None`, the manager assigns one.
    pub id: Option<PaneId>,
    /// Optional human-readable title.
    pub title: Option<String>,
    /// The command to spawn.
    pub command: CommandSpec,
    /// Working directory for the child process.
    pub cwd: Option<PathBuf>,
    /// Additional environment variables for the child process.
    pub env: EnvMap,
    /// Which of the host's variables the child inherits.
    pub env_policy: ChildEnvironmentPolicy,
    /// Value of `TERM` for a child that would otherwise have none.
    pub term_fallback: Option<String>,
    /// Initial terminal size.
    pub size: Size,
    /// Optional pane-specific scrollback retention policy.
    ///
    /// `None` means the manager's default scrollback policy is applied when
    /// the pane is spawned.
    pub scrollback: Option<ScrollbackConfig>,
    /// Transcript recording configuration.
    pub transcript: TranscriptConfig,
    /// Surface rendering configuration.
    pub surface: SurfaceConfig,
    /// Input handling configuration.
    pub input: InputConfig,
    /// Attach/detach behavior configuration.
    pub attach: AttachConfig,
    /// Kill behavior configuration.
    pub kill: KillConfig,
    /// Maximum number of PTY output frames to queue before dropping.
    ///
    /// Defaults to 128. A value of 0 is treated as the default.
    pub output_queue_capacity: usize,
}

/// The text of an optional string.
pub open spec fn opt_text(s: Option<String>) -> Option<Seq<char>> {
    match s {
        Some(t) => Some(t@),
        None => None,
    }
}

/// Copies an optional string.
pub fn clone_opt_text(s: &Option<String>) -> (copy: Option<String>)
    ensures
        opt_text(copy) == opt_text(*s),
{
    match s {
        Some(t) => Some(t.clone()),
        None => None,
    }
}

impl PaneConfig {
    /// Whether the two configurations say the same.
    pub open spec fn same(self, other: Self) -> bool {
        &&& self.id == other.id
        &&& opt_text(self.title) == opt_text(other.title)
        &&& self.command.program@ == other.command.program@
        &&& texts(self.command.args@) == texts(other.command.args@)
        &&& self.cwd == other.cwd
        &&& self.env@ == other.env@
        &&& self.env_policy.same(other.env_policy)
        &&& opt_text(self.term_fallback) == opt_text(other.term_fallback)
        &&& self.size == other.size
        &&& self.scrollback == other.scrollback
        &&& self.transcript == other.transcript
        &&& self.input == other.input
        &&& self.kill == other.kill
        &&& self.output_queue_capacity == other.output_queue_capacity
    }
}

impl Clone for PaneConfig {
    fn clone(&self) -> (copy: Self)
        ensures
            copy.same(*self),
    {
        PaneConfig {
            id: self.id,
            title: clone_opt_text(&self.title),
            command: self.command.clone(),
            cwd: match &self.cwd {
                Some(path) => Some(path.clone()),
                None => None,
            },
            env: self.env.clone(),
            env_policy: self.env_policy.clone(),
            term_fallback: clone_opt_text(&self.term_fallback),
            size: self.size,
            scrollback: self.scrollback,
            transcript: self.transcript,
            surface: self.surface,
            input: self.input,
            attach: self.attach,
            kill: self.kill,
            output_queue_capacity: self.output_queue_capacity,
        }
    }
}

/// `std::path::MAIN_SEPARATOR`: which character separates path components here.
/// It is a backslash on Windows and a slash elsewhere; nothing is claimed of it.
#[verifier::external_body]
fn main_separator() -> char {
    std::path::MAIN_SEPARATOR
}

/// The shell of a host whose paths are separated by `separator`.
pub open spec fn shell_text(separator: char) -> Seq<char> {
    if separator == '\\' {
        "cmd"@
    } else {
        "sh"@
    }
}

/// Returns the shell of a host whose paths are separated by `separator`.
pub fn shell_for_separator(separator: char) -> (program: &'static str)
    ensures
        program@ == shell_text(separator),
{
    if separator == '\\' {
        "cmd"
    } else {
        "sh"
    }
}

/// Where paths are separated by backslashes the shell is `cmd`, and `sh`
/// everywhere else.
pub proof fn law_shells(separator: char)
    ensures
        separator == '\\' ==> shell_text(separator) == "cmd"@,
        separator != '\\' ==> shell_text(separator) == "sh"@,
{
}

/// A pane that sets nothing is eighty columns wide and twenty-four rows high,
/// inherits its environment, keeps no transcript, sends carriage returns and
/// deletes as they are, pastes as it is told, and has five seconds to end.
pub proof fn law_usual_settings(config: PaneConfig)
    requires
        config.has_default_settings(),
    ensures
        config.size.rows == 24 && config.size.cols == 80,
        config.id is None && config.title is None && config.cwd is None,
        forall|name: Seq<char>| !(#[trigger] config.env@.dom().contains(name)),
        config.env_policy is Inherit && config.term_fallback is None,
        config.transcript.mode == TranscriptMode::Disabled,
        config.transcript.max_lines == 10_000 && config.transcript.max_bytes == 1024 * 1024,
        config.scrollback is None,
        config.input.enter == EnterEncoding::Cr,
        config.input.backspace == BackspaceEncoding::Del,
        config.input.alt_sends_escape && !config.input.application_cursor_keys,
        config.input.paste_newline == PasteNewlinePolicy::Preserve,
        config.kill.term_grace.nanos == 5 * 1_000_000_000,
        config.kill.kill_descendants,
        config.output_queue_capacity == 128,
{
}

/// Whether a program text is the shell of some host.
pub open spec fn is_default_shell(program: Seq<char>) -> bool {
    program == "cmd"@ || program == "sh"@
}

impl PaneConfig {
    /// Whether everything but the command is as in a fresh configuration.
    pub open spec fn has_default_settings(self) -> bool {
        &&& self.id is None
        &&& self.title is None
        &&& self.cwd is None
        &&& self.env@ == Map::<Seq<char>, Seq<char>>::empty()
        &&& self.env.distinct()
        &&& self.env_policy == ChildEnvironmentPolicy::Inherit
        &&& self.term_fallback is None
        &&& self.size == (Size { rows: 24, cols: 80 })
        &&& self.scrollback is None
        &&& self.transcript == (TranscriptConfig {
            mode: TranscriptMode::Disabled,
            max_lines: 10_000,
            max_bytes: 1_048_576,
        })
        &&& self.input == default_input_config()
        &&& self.kill.term_grace.nanos == 5_000_000_000
        &&& self.kill.kill_descendants
        &&& self.output_queue_capacity == 128
    }

    fn with_command(command: CommandSpec) -> (config: Self)
        ensures
            config.command == command,
            config.has_default_settings(),
    {
        PaneConfig {
            id: None,
            title: None,
            command,
            cwd: None,
            env: EnvMap::new(),
            env_policy: ChildEnvironmentPolicy::Inherit,
            term_fallback: None,
            size: Size::new(24, 80),
            scrollback: None,
            transcript: TranscriptConfig::new(TranscriptMode::Disabled),
            surface: SurfaceConfig,
            input: InputConfig::default(),
            attach: AttachConfig,
            kill: KillConfig::default(),
            output_queue_capacity: 128,
        }
    }

    /// Creates a config for a program with no arguments.
    pub fn command(program: &str) -> (config: Self)
        ensures
            config.command.program@ == program@,
            config.command.args@.len() == 0,
            config.has_default_settings(),
    {
        Self::with_command(CommandSpec::new(program))
    }

    /// Creates a config for a program and argument list.
    pub fn command_with_args(program: &str, args: &[&str]) -> (config: Self)
        ensures
            config.command.program@ == program@,
            texts(config.command.args@) == args@.map_values(|s: &str| s@),
            config.has_default_settings(),
    {
        Self::with_command(CommandSpec::with_args(program, args))
    }

    /// Returns a shell-flavored configuration for the host OS.
    pub fn shell() -> (config: Self)
        ensures
            is_default_shell(config.command.program@),
            config.command.args@.len() == 0,
            config.has_default_settings(),
    {
        Self::command(shell_for_separator(main_separator()))
    }

    /// Returns the configured program name.
    pub fn program(&self) -> (program: &str)
        ensures
            program@ == self.command.program@,
    {
        self.command.program.as_str()
    }

    /// Returns the configured argument list.
    pub fn args(&self) -> (args: &[String])
        ensures
            args@ == self.command.args@,
    {
        self.command.args.as_slice()
    }

    /// Sets the pane identifier.
    pub fn with_id(self, id: PaneId) -> (config: Self)
        ensures
            config == (PaneConfig { id: Some(id), ..self }),
    {
        let mut config = self;
        config.id = Some(id);
        config
    }

    /// Sets the pane title.
    pub fn with_title(self, title: &str) -> (config: Self)
        ensures
            config.title matches Some(t) && t@ == title@,
            config == (PaneConfig { title: config.title, ..self }),
    {
        let mut config = self;
        config.title = Some(title.to_owned());
        config
    }

    /// Sets the working directory.
    pub fn with_cwd(self, cwd: PathBuf) -> (config: Self)
        ensures
            config == (PaneConfig { cwd: Some(cwd), ..self }),
    {
        let mut config = self;
        config.cwd = Some(cwd);
        config
    }

    /// Adds or replaces an environment variable.
    pub fn with_env(self, key: &str, value: &str) -> (config: Self)
        ensures
            config.env@ == self.env@.insert(key@, value@),
            self.env.distinct() ==> config.env.distinct(),
            config == (PaneConfig { env: config.env, ..self }),
    {
        let mut config = self;
        config.env.insert(key, value);
        config
    }

    /// Lets the child inherit the named variables only.
    pub fn with_env_allowlist(self, keys: &[&str]) -> (config: Self)
        ensures
            config.env_policy matches ChildEnvironmentPolicy::Allowlist(list) && texts(list@)
                == keys@.map_values(|s: &str| s@),
            config == (PaneConfig { env_policy: config.env_policy, ..self }),
    {
        let mut config = self;
        config.env_policy = ChildEnvironmentPolicy::Allowlist(owned_texts(keys));
        config
    }

    /// Sets the value of `TERM` for a child that would otherwise have none.
    pub fn with_term_fallback(self, term: &str) -> (config: Self)
        ensures
            config.term_fallback matches Some(t) && t@ == term@,
            config == (PaneConfig { term_fallback: config.term_fallback, ..self }),
    {
        let mut config = self;
        config.term_fallback = Some(term.to_owned());
        config
    }

    /// Sets the initial terminal size.
    pub fn with_size(self, size: Size) -> (config: Self)
        ensures
            config == (PaneConfig { size, ..self }),
    {
        let mut config = self;
        config.size = size;
        config
    }

    /// Sets this pane's scrollback configuration.
    pub fn with_scrollback(self, scrollback: ScrollbackConfig) -> (config: Self)
        ensures
            config == (PaneConfig { scrollback: Some(scrollback), ..self }),
    {
        let mut config = self;
        config.scrollback = Some(scrollback);
        config
    }

    /// Sets the transcript configuration.
    pub fn with_transcript(self, transcript: TranscriptConfig) -> (config: Self)
        ensures
            config == (PaneConfig { transcript, ..self }),
    {
        let mut config = self;
        config.transcript = transcript;
        config
    }

    /// Sets the surface configuration.
    pub fn with_surface(self, surface: SurfaceConfig) -> (config: Self)
        ensures
            config == (PaneConfig { surface, ..self }),
    {
        let mut config = self;
        config.surface = surface;
        config
    }

    /// Sets the input configuration.
    pub fn with_input(self, input: InputConfig) -> (config: Self)
        ensures
            config == (PaneConfig { input, ..self }),
    {
        let mut config = self;
        config.input = input;
        config
    }

    /// Sets the attach configuration.
    pub fn with_attach(self, attach: AttachConfig) -> (config: Self)
        ensures
            config == (PaneConfig { attach, ..self }),
    {
        let mut config = self;
        config.attach = attach;
        config
    }

    /// Sets the kill configuration.
    pub fn with_kill(self, kill: KillConfig) -> (config: Self)
        ensures
            config == (PaneConfig { kill, ..self }),
    {
        let mut config = self;
        config.kill = kill;
        config
    }

    /// Sets the PTY output frame queue capacity.
    ///
    /// A value of 0 is treated as the default (128) during spawn.
    pub fn with_output_queue_capacity(self, capacity: usize) -> (config: Self)
        ensures
            config == (PaneConfig { output_queue_capacity: capacity, ..self }),
    {
        let mut config = self;
        config.output_queue_capacity = capacity;
        config
    }

    /// Why the configuration cannot be spawned, if it cannot.
    pub open spec fn defect(self) -> Option<ErrorView> {
        if blank_text(self.command.program@) {
            Some(empty_program_error())
        } else if !self.size.valid() {
            Some(ErrorView::InvalidSize { rows: self.size.rows, cols: self.size.cols })
        } else {
            None
        }
    }

    /// Validates the configuration.
    ///
    /// Checks:
    /// - command program is non-empty
    /// - size rows and cols are non-zero
    pub fn validate(&self) -> (r: Result<()>)
        ensures
            match r {
                Ok(_) => self.defect() is None,
                Err(e) => self.defect() == Some(e@),
            },
    {
        match self.command.validate() {
            Ok(_) => {},
            Err(e) => {
                return Err(e);
            },
        }
        if self.size.rows == 0 || self.size.cols == 0 {
            return Err(PaneError::InvalidSize { rows: self.size.rows, cols: self.size.cols });
        }
        Ok(())
    }
}

/// A configuration can be spawned exactly if its program has a character that is
/// not white space and its size has a row and a column; the program is looked at
/// first.
pub proof fn law_what_can_be_spawned(config: PaneConfig)
    ensures
        ({
            let named = exists|i: int|
                0 <= i < config.command.program@.len() && !white_space(
                    #[trigger] config.command.program@[i],
                );
            &&& config.defect() is None <==> named && config.size.rows > 0 && config.size.cols > 0
            &&& !named ==> config.defect() == Some(
                ErrorView::Spawn { message: "command program must not be empty"@ },
            )
            &&& named && (config.size.rows == 0 || config.size.cols == 0) ==> config.defect()
                == Some(
                ErrorView::InvalidSize { rows: config.size.rows, cols: config.size.cols },
            )
        }),
{
}

impl Default for PaneConfig {
    fn default() -> (config: Self)
        ensures
            is_default_shell(config.command.program@),
            config.command.args@.len() == 0,
            config.has_default_settings(),
    {
        PaneConfig::shell()
    }
}

} // verus!

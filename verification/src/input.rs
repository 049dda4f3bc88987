//! Host-independent input types.
//!
//! [`HostInput`] and its subtypes keep the crate independent of any specific
//! terminal backend.

use vstd::prelude::*;

use crate::pane::Size;
use crate::text::{decimal, push_decimal};

verus! {

/// Host input representation for sending to a pane.
#[derive(Debug, Clone, PartialEq, Eq)]
pub enum HostInput {
    /// A keyboard key event.
    Key(KeyInput),
    /// A mouse event.
    Mouse(MouseInput),
    /// A paste event carrying the pasted text.
    Paste(String),
    /// The terminal gained focus.
    FocusGained,
    /// The terminal lost focus.
    FocusLost,
    /// The terminal was resized.
    Resize(Size),
    /// Raw bytes to send directly to the PTY.
    Raw(Vec<u8>),
}

/// A keyboard input event.
#[derive(Debug, Clone, Copy, PartialEq, Eq, Structural)]
pub struct KeyInput {
    /// The key that was pressed.
    pub code: KeyCode,
    /// Modifier keys held during the event.
    pub modifiers: KeyModifiers,
    /// Whether this is a press, repeat, or release.
    pub kind: KeyEventKind,
}

impl KeyInput {
    /// Creates a keyboard input event from its code, modifiers, and event kind.
    pub fn new(code: KeyCode, modifiers: KeyModifiers, kind: KeyEventKind) -> (input: Self)
        ensures
            input == (KeyInput { code, modifiers, kind }),
    {
        KeyInput { code, modifiers, kind }
    }
}

/// Identifies a keyboard key independent of any backend.
#[derive(Debug, Clone, Copy, PartialEq, Eq, Structural, Hash)]
pub enum KeyCode {
    /// Backspace key.
    Backspace,
    /// Enter key.
    Enter,
    /// Left arrow.
    Left,
    /// Right arrow.
    Right,
    /// Up arrow.
    Up,
    /// Down arrow.
    Down,
    /// Home key.
    Home,
    /// End key.
    End,
    /// Page Up key.
    PageUp,
    /// Page Down key.
    PageDown,
    /// Tab key.
    Tab,
    /// Back-tab (Shift+Tab).
    BackTab,
    /// Delete key.
    Delete,
    /// Insert key.
    Insert,
    /// Escape key.
    Esc,
    /// Caps Lock key.
    CapsLock,
    /// Scroll Lock key.
    ScrollLock,
    /// Num Lock key.
    NumLock,
    /// Print Screen key.
    PrintScreen,
    /// Pause key.
    Pause,
    /// Menu key.
    Menu,
    /// Keypad begin key.
    KeypadBegin,
    /// A character key.
    Char(char),
    /// A function key (F1–F24).
    F(u8),
    /// Null key.
    Null,
    /// A media key.
    Media(MediaKeyCode),
    /// A modifier key on its own.
    Modifier(ModifierKeyCode),
}

/// Media keys.
#[derive(Debug, Clone, Copy, PartialEq, Eq, Structural, Hash)]
pub enum MediaKeyCode {
    /// Play media.
    Play,
    /// Pause media.
    Pause,
    /// Toggle play/pause.
    PlayPause,
    /// Reverse playback.
    Reverse,
    /// Stop media.
    Stop,
    /// Fast forward.
    FastForward,
    /// Rewind.
    Rewind,
    /// Next track.
    TrackNext,
    /// Previous track.
    TrackPrevious,
    /// Record.
    Record,
    /// Lower volume.
    LowerVolume,
    /// Raise volume.
    RaiseVolume,
    /// Mute volume.
    MuteVolume,
}

/// Modifier keys reported as standalone events.
#[derive(Debug, Clone, Copy, PartialEq, Eq, Structural, Hash)]
pub enum ModifierKeyCode {
    /// Left Shift.
    LeftShift,
    /// Left Control.
    LeftControl,
    /// Left Alt.
    LeftAlt,
    /// Left Super (Windows/Command).
    LeftSuper,
    /// Left Hyper.
    LeftHyper,
    /// Left Meta.
    LeftMeta,
    /// Right Shift.
    RightShift,
    /// Right Control.
    RightControl,
    /// Right Alt.
    RightAlt,
    /// Right Super (Windows/Command).
    RightSuper,
    /// Right Hyper.
    RightHyper,
    /// Right Meta.
    RightMeta,
    /// ISO Level 3 Shift (AltGr).
    IsoLevel3Shift,
    /// ISO Level 5 Shift.
    IsoLevel5Shift,
}

/// Modifier key state.
#[derive(Debug, Clone, Copy, PartialEq, Eq, Structural, Hash)]
pub struct KeyModifiers {
    /// Shift is held.
    pub shift: bool,
    /// Control is held.
    pub control: bool,
    /// Alt is held.
    pub alt: bool,
    /// Super (Windows/Command) is held.
    pub super_key: bool,
    /// Hyper is held.
    pub hyper: bool,
    /// Meta is held.
    pub meta: bool,
}

/// Whether a key event is a press, repeat, or release.
#[derive(Debug, Clone, Copy, PartialEq, Eq, Structural, Hash)]
pub enum KeyEventKind {
    /// Key was pressed.
    Press,
    /// Key is being held down (repeating).
    Repeat,
    /// Key was released.
    Release,
}

/// A mouse input event.
#[derive(Debug, Clone, Copy, PartialEq, Eq, Structural)]
pub struct MouseInput {
    /// The kind of mouse event.
    pub kind: MouseEventKind,
    /// Column position (0-based).
    pub column: u16,
    /// Row position (0-based).
    pub row: u16,
    /// Modifier keys held during the event.
    pub modifiers: KeyModifiers,
}

/// The kind of mouse event.
#[derive(Debug, Clone, Copy, PartialEq, Eq, Structural, Hash)]
pub enum MouseEventKind {
    /// A mouse button was pressed.
    Down(MouseButton),
    /// A mouse button was released.
    Up(MouseButton),
    /// A mouse button is being held while moving.
    Drag(MouseButton),
    /// The mouse moved without any button held.
    Moved,
    /// Scroll wheel moved down.
    ScrollDown,
    /// Scroll wheel moved up.
    ScrollUp,
    /// Scroll wheel moved left.
    ScrollLeft,
    /// Scroll wheel moved right.
    ScrollRight,
}

/// A mouse button.
#[derive(Debug, Clone, Copy, PartialEq, Eq, Structural, Hash)]
pub enum MouseButton {
    /// Left mouse button.
    Left,
    /// Right mouse button.
    Right,
    /// Middle mouse button.
    Middle,
}

/// Error when a terminal backend event cannot be converted to [`HostInput`].
#[derive(Debug, Clone, PartialEq, Eq)]
pub struct UnsupportedEventError {
    /// Description of the unsupported event.
    pub message: String,
}

impl UnsupportedEventError {
    /// Formats the error as one sentence.
    pub fn to_string(&self) -> (s: String)
        ensures
            s@ == "unsupported event: "@ + self.message@,
    {
        let mut s = "unsupported event: ".to_owned();
        s.append(self.message.as_str());
        s
    }
}

impl Default for KeyModifiers {
    fn default() -> (modifiers: Self)
        ensures
            modifiers == no_modifiers(),
    {
        KeyModifiers {
            shift: false,
            control: false,
            alt: false,
            super_key: false,
            hyper: false,
            meta: false,
        }
    }
}

/// No modifier key held.
pub open spec fn no_modifiers() -> KeyModifiers {
    KeyModifiers {
        shift: false,
        control: false,
        alt: false,
        super_key: false,
        hyper: false,
        meta: false,
    }
}

impl Default for KeyEventKind {
    fn default() -> (kind: Self)
        ensures
            kind == KeyEventKind::Press,
    {
        KeyEventKind::Press
    }
}

/// What a report of a terminal resize to `cols` by `rows` is refused with.
pub open spec fn bad_resize_message(cols: u16, rows: u16) -> Seq<char> {
    "resize with invalid dimensions: rows="@ + decimal(rows as nat) + ", cols="@ + decimal(
        cols as nat,
    )
}

/// A refused resize says its rows and its columns, each under its name.
pub proof fn law_refused_resizes(cols: u16, rows: u16)
    ensures
        bad_resize_message(cols, rows) == "resize with invalid dimensions: rows="@ + decimal(
            rows as nat,
        ) + ", cols="@ + decimal(cols as nat),
{
}

/// Turns a backend's resize report into host input.
///
/// Backends report columns first. A report with a zero dimension is refused.
pub fn resize_input(cols: u16, rows: u16) -> (r: Result<HostInput, UnsupportedEventError>)
    ensures
        match r {
            Ok(input) => rows > 0 && cols > 0 && input == HostInput::Resize(Size { rows, cols }),
            Err(e) => (rows == 0 || cols == 0) && e.message@ == bad_resize_message(cols, rows),
        },
{
    if rows == 0 || cols == 0 {
        let mut message = "resize with invalid dimensions: rows=".to_owned();
        push_decimal(&mut message, rows as u64);
        message.append(", cols=");
        push_decimal(&mut message, cols as u64);
        Err(UnsupportedEventError { message })
    } else {
        Ok(HostInput::Resize(Size { rows, cols }))
    }
}

} // verus!

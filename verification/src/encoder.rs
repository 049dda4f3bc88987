//! Xterm-compatible input encoder.
//!
//! Translates [`HostInput`] events into byte sequences suitable for writing to
//! a child PTY. The encoder respects [`TerminalModes`] so that features like
//! bracketed paste and focus events are only emitted when the child has
//! enabled them.

use vstd::prelude::*;
use vstd::slice::slice_to_vec;
use vstd::utf8::encode_utf8;

use crate::bytes::push_all;
use crate::error::PaneError;
use crate::input::{
    HostInput, KeyCode, KeyEventKind, KeyInput, KeyModifiers, MouseButton, MouseEventKind,
    MouseInput,
};
use crate::pane::{
    default_input_config, BackspaceEncoding, EnterEncoding, InputConfig, MouseMode,
    PasteNewlinePolicy, TerminalModes,
};
use crate::text::{decimal_bytes, push_decimal_bytes};

verus! {

/// Whether the one-based coordinates of a mouse report fit the protocol.
pub open spec fn mouse_in_range(mouse: MouseInput) -> bool {
    mouse.column < u16::MAX && mouse.row < u16::MAX
}

/// Whether a mouse event can be reported, if it is one that is reported in these
/// modes.
pub open spec fn mouse_fits(mouse: MouseInput, modes: TerminalModes) -> bool {
    modes.mouse == MouseMode::Sgr && sgr_code(mouse.kind) is Some ==> mouse_in_range(mouse)
}

/// Whether a host input can be encoded: a mouse event that is reported in these
/// modes has coordinates that fit.
pub open spec fn input_fits(input: HostInput, modes: TerminalModes) -> bool {
    input matches HostInput::Mouse(mouse) ==> mouse_fits(mouse, modes)
}

/// Trait for encoding host input into terminal byte sequences.
///
/// Implementations decide how keys, paste, and focus events are translated
/// based on the current terminal modes.
pub trait InputEncoder {
    /// Encodes a keyboard event into terminal bytes.
    ///
    /// Unsupported keys (e.g. media keys, unmapped function keys) and key
    /// releases produce an empty byte vector rather than an error. Callers
    /// should treat empty output as "no bytes to send".
    fn encode_key(&self, key: &KeyInput, modes: &TerminalModes) -> Result<Vec<u8>, PaneError>;

    /// Encodes a paste event into terminal bytes.
    ///
    /// Wraps the pasted text in bracketed paste sequences when the child has
    /// enabled bracketed paste.
    fn encode_paste(&self, text: &str, modes: &TerminalModes) -> Vec<u8>;

    /// Encodes a focus-gained event into terminal bytes.
    ///
    /// Returns an empty vector when focus events are not enabled.
    fn encode_focus_gained(&self, modes: &TerminalModes) -> Vec<u8>;

    /// Encodes a focus-lost event into terminal bytes.
    ///
    /// Returns an empty vector when focus events are not enabled.
    fn encode_focus_lost(&self, modes: &TerminalModes) -> Vec<u8>;

    /// Encodes a mouse event into terminal bytes.
    ///
    /// Returns `None` when the child has not enabled a mouse mode.
    fn encode_mouse(&self, mouse: &MouseInput, modes: &TerminalModes) -> Result<
        Option<Vec<u8>>,
        PaneError,
    >
        requires
            mouse_fits(*mouse, *modes),
    ;
}

/// Default xterm-compatible encoder.
///
/// Uses [`InputConfig`] for host-side policy (Enter/Backspace encoding,
/// application cursor keys, etc.) and [`TerminalModes`] for child-side
/// feature enablement (bracketed paste, focus events, etc.).
#[derive(Debug, Clone, Copy, PartialEq, Eq, Structural)]
pub struct XtermEncoder {
    /// Host-side input configuration.
    pub config: InputConfig,
}

impl Default for XtermEncoder {
    fn default() -> (encoder: Self)
        ensures
            encoder.config == default_input_config(),
    {
        XtermEncoder { config: InputConfig::default() }
    }
}

/// The control sequence `ESC [ b`.
pub open spec fn csi1(b: u8) -> Seq<u8> {
    seq![0x1b, 0x5b, b]
}

/// The sequence `ESC O b`.
pub open spec fn ss3(b: u8) -> Seq<u8> {
    seq![0x1b, 0x4f, b]
}

/// The control sequence `ESC [ n ~`.
pub open spec fn csi_tilde(n: nat) -> Seq<u8> {
    seq![0x1bu8, 0x5b] + decimal_bytes(n) + seq![0x7eu8]
}

/// The sequence of a cursor key with final byte `b`.
pub open spec fn cursor_key(b: u8, application: bool) -> Seq<u8> {
    if application {
        ss3(b)
    } else {
        csi1(b)
    }
}

/// The C0 control byte of a control-modified character, where there is one.
pub open spec fn control_code(c: char) -> Option<u8> {
    let u = c as u32;
    if c == ' ' || c == '@' || c == '`' {
        Some(0x00)
    } else if 0x61 <= u <= 0x7a {
        Some((u - 0x60) as u8)
    } else if 0x41 <= u <= 0x5a {
        Some((u - 0x40) as u8)
    } else if c == '[' || c == '{' {
        Some(0x1b)
    } else if c == '\\' || c == '|' {
        Some(0x1c)
    } else if c == ']' || c == '}' {
        Some(0x1d)
    } else if c == '^' || c == '~' {
        Some(0x1e)
    } else if c == '_' || c == '-' {
        Some(0x1f)
    } else if c == '?' {
        Some(0x7f)
    } else {
        None
    }
}

/// A character key: its control byte when Control is held and there is one,
/// its UTF-8 encoding otherwise.
pub open spec fn char_key(c: char, modifiers: KeyModifiers) -> Seq<u8> {
    if modifiers.control && control_code(c) is Some {
        seq![control_code(c)->0]
    } else {
        encode_utf8(seq![c])
    }
}

/// A function key: F1 to F4 as SS3, F5 to F20 by number, none beyond.
pub open spec fn function_key(n: u8) -> Seq<u8> {
    if 1 <= n <= 4 {
        ss3((0x4f + n) as u8)
    } else if n == 5 {
        csi_tilde(15)
    } else if 6 <= n <= 10 {
        csi_tilde((n + 11) as nat)
    } else if 11 <= n <= 14 {
        csi_tilde((n + 12) as nat)
    } else if 15 <= n <= 16 {
        csi_tilde((n + 13) as nat)
    } else if 17 <= n <= 20 {
        csi_tilde((n + 14) as nat)
    } else {
        seq![]
    }
}

/// What a pressed key sends, before any Alt prefix.
pub open spec fn base_key(
    code: KeyCode,
    modifiers: KeyModifiers,
    config: InputConfig,
    application: bool,
) -> Seq<u8> {
    match code {
        KeyCode::Char(c) => char_key(c, modifiers),
        KeyCode::Enter => match config.enter {
            EnterEncoding::Cr => seq![0x0du8],
            EnterEncoding::Lf => seq![0x0au8],
            EnterEncoding::CrLf => seq![0x0du8, 0x0a],
        },
        KeyCode::Backspace => match config.backspace {
            BackspaceEncoding::Del => seq![0x7fu8],
            BackspaceEncoding::Bs => seq![0x08u8],
        },
        KeyCode::Tab => if modifiers.shift {
            csi1(0x5a)
        } else {
            seq![0x09u8]
        },
        KeyCode::BackTab => csi1(0x5a),
        KeyCode::Esc => seq![0x1bu8],
        KeyCode::Up => cursor_key(0x41, application),
        KeyCode::Down => cursor_key(0x42, application),
        KeyCode::Right => cursor_key(0x43, application),
        KeyCode::Left => cursor_key(0x44, application),
        KeyCode::Home => cursor_key(0x48, application),
        KeyCode::End => cursor_key(0x46, application),
        KeyCode::PageUp => csi_tilde(5),
        KeyCode::PageDown => csi_tilde(6),
        KeyCode::Insert => csi_tilde(2),
        KeyCode::Delete => csi_tilde(3),
        KeyCode::F(n) => function_key(n),
        _ => seq![],
    }
}

/// What a key event sends: nothing on release, otherwise the key, after an
/// escape byte when Alt is held and configured to send one.
pub open spec fn key_bytes(key: KeyInput, config: InputConfig, modes: TerminalModes) -> Seq<u8> {
    let base = base_key(
        key.code,
        key.modifiers,
        config,
        modes.application_cursor || config.application_cursor_keys,
    );
    if key.kind == KeyEventKind::Release {
        seq![]
    } else if key.modifiers.alt && config.alt_sends_escape && base.len() > 0 {
        seq![0x1bu8] + base
    } else {
        base
    }
}

/// `s` with every line end (CR LF, CR or LF) replaced by `newline`.
pub open spec fn fold_newlines(s: Seq<u8>, newline: u8) -> Seq<u8>
    decreases s.len(),
{
    if s.len() == 0 {
        seq![]
    } else if s[0] == 0x0d && s.len() > 1 && s[1] == 0x0a {
        seq![newline] + fold_newlines(s.skip(2), newline)
    } else if s[0] == 0x0d || s[0] == 0x0a {
        seq![newline] + fold_newlines(s.skip(1), newline)
    } else {
        seq![s[0]] + fold_newlines(s.skip(1), newline)
    }
}

/// The pasted bytes with line ends as the policy wants them.
pub open spec fn paste_body(text: Seq<u8>, policy: PasteNewlinePolicy) -> Seq<u8> {
    match policy {
        PasteNewlinePolicy::Preserve => text,
        PasteNewlinePolicy::NormalizeToLf => fold_newlines(text, 0x0a),
        PasteNewlinePolicy::NormalizeToCr => fold_newlines(text, 0x0d),
    }
}

/// The bytes that open a bracketed paste.
pub open spec fn paste_start() -> Seq<u8> {
    seq![0x1bu8, 0x5b, 0x32, 0x30, 0x30, 0x7e]
}

/// The bytes that close a bracketed paste.
pub open spec fn paste_end() -> Seq<u8> {
    seq![0x1bu8, 0x5b, 0x32, 0x30, 0x31, 0x7e]
}

/// What a paste sends.
pub open spec fn paste_bytes(text: Seq<u8>, config: InputConfig, modes: TerminalModes) -> Seq<u8> {
    let body = paste_body(text, config.paste_newline);
    if modes.bracketed_paste {
        paste_start() + body + paste_end()
    } else {
        body
    }
}

/// What a focus change sends.
pub open spec fn focus_bytes(gained: bool, modes: TerminalModes) -> Seq<u8> {
    if modes.focus_events {
        csi1(
            if gained {
                0x49
            } else {
                0x4f
            },
        )
    } else {
        seq![]
    }
}

/// The modifier bits of an SGR mouse report.
pub open spec fn sgr_modifiers(modifiers: KeyModifiers) -> nat {
    (if modifiers.shift {
        4nat
    } else {
        0
    }) + (if modifiers.alt {
        8nat
    } else {
        0
    }) + (if modifiers.control {
        16nat
    } else {
        0
    })
}

/// The number of a mouse button in an SGR report.
pub open spec fn sgr_button(button: MouseButton) -> nat {
    match button {
        MouseButton::Left => 0,
        MouseButton::Middle => 1,
        MouseButton::Right => 2,
    }
}

/// The button code of an SGR mouse report, where the event has one.
pub open spec fn sgr_code(kind: MouseEventKind) -> Option<nat> {
    match kind {
        MouseEventKind::Down(button) => Some(sgr_button(button)),
        MouseEventKind::Up(button) => Some(sgr_button(button)),
        MouseEventKind::Drag(button) => Some(sgr_button(button) + 32),
        MouseEventKind::Moved => Some(35),
        MouseEventKind::ScrollDown => Some(65),
        MouseEventKind::ScrollUp => Some(64),
        MouseEventKind::ScrollLeft => None,
        MouseEventKind::ScrollRight => None,
    }
}

/// What a mouse event sends: an SGR report when the child asked for them and
/// the event has a button code, nothing otherwise.
pub open spec fn mouse_bytes(mouse: MouseInput, modes: TerminalModes) -> Option<Seq<u8>> {
    if modes.mouse == MouseMode::Sgr && sgr_code(mouse.kind) is Some {
        Some(
            seq![0x1bu8, 0x5b, 0x3c] + decimal_bytes(
                sgr_code(mouse.kind)->0 + sgr_modifiers(mouse.modifiers),
            ) + seq![0x3bu8] + decimal_bytes((mouse.column + 1) as nat) + seq![0x3bu8]
                + decimal_bytes((mouse.row + 1) as nat) + seq![
                if mouse.kind is Up {
                    0x6du8
                } else {
                    0x4du8
                },
            ],
        )
    } else {
        None
    }
}

/// What a host input sends.
pub open spec fn input_bytes(input: HostInput, config: InputConfig, modes: TerminalModes) -> Seq<
    u8,
> {
    match input {
        HostInput::Key(key) => key_bytes(key, config, modes),
        HostInput::Paste(text) => paste_bytes(encode_utf8(text@), config, modes),
        HostInput::FocusGained => focus_bytes(true, modes),
        HostInput::FocusLost => focus_bytes(false, modes),
        HostInput::Mouse(mouse) => match mouse_bytes(mouse, modes) {
            Some(bytes) => bytes,
            None => seq![],
        },
        HostInput::Resize(_) => seq![],
        HostInput::Raw(bytes) => bytes@,
    }
}

/// A key release sends nothing, whatever the key.
pub proof fn law_release_sends_nothing(key: KeyInput, config: InputConfig, modes: TerminalModes)
    requires
        key.kind == KeyEventKind::Release,
    ensures
        key_bytes(key, config, modes).len() == 0,
{
}

/// Alt changes what a key sends by an escape byte in front, or not at all.
pub proof fn law_alt_prefixes(key: KeyInput, config: InputConfig, modes: TerminalModes)
    requires
        key.modifiers.alt,
        config.alt_sends_escape,
    ensures
        ({
            let plain = key_bytes(
                KeyInput { modifiers: KeyModifiers { alt: false, ..key.modifiers }, ..key },
                config,
                modes,
            );
            key_bytes(key, config, modes) == if plain.len() == 0 {
                plain
            } else {
                seq![0x1bu8] + plain
            }
        }),
{
}

/// What the keys that have a fixed sequence send when they are pressed without
/// modifiers.
pub proof fn law_named_keys(key: KeyInput, config: InputConfig, modes: TerminalModes)
    requires
        key.kind != KeyEventKind::Release,
        !key.modifiers.shift,
        !key.modifiers.alt,
        !key.modifiers.control,
    ensures
        ({
            let sent = key_bytes(key, config, modes);
            let shifted = modes.application_cursor || config.application_cursor_keys;
            let lead = seq![
                0x1bu8,
                if shifted {
                    0x4fu8
                } else {
                    0x5bu8
                },
            ];
            &&& key.code is Up ==> sent == lead.push(0x41)
            &&& key.code is Down ==> sent == lead.push(0x42)
            &&& key.code is Right ==> sent == lead.push(0x43)
            &&& key.code is Left ==> sent == lead.push(0x44)
            &&& key.code is Home ==> sent == lead.push(0x48)
            &&& key.code is End ==> sent == lead.push(0x46)
            &&& key.code is Insert ==> sent == seq![0x1bu8, 0x5b, 0x32, 0x7e]
            &&& key.code is Delete ==> sent == seq![0x1bu8, 0x5b, 0x33, 0x7e]
            &&& key.code is PageUp ==> sent == seq![0x1bu8, 0x5b, 0x35, 0x7e]
            &&& key.code is PageDown ==> sent == seq![0x1bu8, 0x5b, 0x36, 0x7e]
            &&& key.code is Tab ==> sent == seq![0x09u8]
            &&& key.code is BackTab ==> sent == seq![0x1bu8, 0x5b, 0x5a]
            &&& key.code is Esc ==> sent == seq![0x1bu8]
            &&& key.code is Enter ==> sent == match config.enter {
                EnterEncoding::Cr => seq![0x0du8],
                EnterEncoding::Lf => seq![0x0au8],
                EnterEncoding::CrLf => seq![0x0du8, 0x0a],
            }
            &&& key.code is Backspace ==> sent == match config.backspace {
                BackspaceEncoding::Del => seq![0x7fu8],
                BackspaceEncoding::Bs => seq![0x08u8],
            }
            &&& key.code matches KeyCode::Char(c) ==> sent == encode_utf8(seq![c])
        }),
{
    assert(csi_tilde(2) =~= seq![0x1bu8, 0x5b, 0x32, 0x7e]);
    assert(csi_tilde(3) =~= seq![0x1bu8, 0x5b, 0x33, 0x7e]);
    assert(csi_tilde(5) =~= seq![0x1bu8, 0x5b, 0x35, 0x7e]);
    assert(csi_tilde(6) =~= seq![0x1bu8, 0x5b, 0x36, 0x7e]);
    assert(seq![0x1bu8, 0x4f].push(0x41) =~= ss3(0x41));
    assert(seq![0x1bu8, 0x4f].push(0x42) =~= ss3(0x42));
    assert(seq![0x1bu8, 0x4f].push(0x43) =~= ss3(0x43));
    assert(seq![0x1bu8, 0x4f].push(0x44) =~= ss3(0x44));
    assert(seq![0x1bu8, 0x4f].push(0x48) =~= ss3(0x48));
    assert(seq![0x1bu8, 0x4f].push(0x46) =~= ss3(0x46));
    assert(seq![0x1bu8, 0x5b].push(0x41) =~= csi1(0x41));
    assert(seq![0x1bu8, 0x5b].push(0x42) =~= csi1(0x42));
    assert(seq![0x1bu8, 0x5b].push(0x43) =~= csi1(0x43));
    assert(seq![0x1bu8, 0x5b].push(0x44) =~= csi1(0x44));
    assert(seq![0x1bu8, 0x5b].push(0x48) =~= csi1(0x48));
    assert(seq![0x1bu8, 0x5b].push(0x46) =~= csi1(0x46));
}

/// Control turns a letter, of either case, into the byte that is its place in
/// the alphabet, and the signs that share a column with a control byte into that
/// byte; a character without one is sent as it is.
pub proof fn law_control_keys(c: char, modifiers: KeyModifiers)
    requires
        modifiers.control,
    ensures
        ({
            let sent = char_key(c, modifiers);
            let n = c as u32;
            &&& 0x61 <= n <= 0x7a || 0x41 <= n <= 0x5a ==> sent == seq![(n % 32) as u8]
            &&& c == ' ' || c == '@' || c == '`' ==> sent == seq![0x00u8]
            &&& c == '[' || c == '{' ==> sent == seq![0x1bu8]
            &&& c == '\\' || c == '|' ==> sent == seq![0x1cu8]
            &&& c == ']' || c == '}' ==> sent == seq![0x1du8]
            &&& c == '^' || c == '~' ==> sent == seq![0x1eu8]
            &&& c == '_' || c == '-' ==> sent == seq![0x1fu8]
            &&& c == '?' ==> sent == seq![0x7fu8]
            &&& 0x30 <= n <= 0x39 || n >= 0x80 ==> sent == encode_utf8(seq![c])
        }),
{
}

/// The function keys: the first four as a letter from P on, the others by the
/// number that terminals give them, with the gaps that these have. There are
/// twenty of them.
pub proof fn law_function_keys(n: u8)
    ensures
        n == 1 ==> function_key(n) == seq![0x1bu8, 0x4f, 0x50],
        n == 2 ==> function_key(n) == seq![0x1bu8, 0x4f, 0x51],
        n == 3 ==> function_key(n) == seq![0x1bu8, 0x4f, 0x52],
        n == 4 ==> function_key(n) == seq![0x1bu8, 0x4f, 0x53],
        n == 5 ==> function_key(n) == seq![0x1bu8, 0x5b, 0x31, 0x35, 0x7e],
        6 <= n <= 8 ==> function_key(n) == seq![0x1bu8, 0x5b, 0x31, (0x31 + n) as u8, 0x7e],
        9 <= n <= 10 ==> function_key(n) == seq![0x1bu8, 0x5b, 0x32, (0x27 + n) as u8, 0x7e],
        11 <= n <= 14 ==> function_key(n) == seq![0x1bu8, 0x5b, 0x32, (0x28 + n) as u8, 0x7e],
        15 <= n <= 16 ==> function_key(n) == seq![0x1bu8, 0x5b, 0x32, (0x29 + n) as u8, 0x7e],
        17 <= n <= 20 ==> function_key(n) == seq![0x1bu8, 0x5b, 0x33, (0x20 + n) as u8, 0x7e],
        n == 0 || n > 20 ==> function_key(n).len() == 0,
{
    reveal_with_fuel(decimal_bytes, 2);
    if n == 5 {
        assert(csi_tilde(15) =~= seq![0x1bu8, 0x5b, 0x31, 0x35, 0x7e]);
    } else if 6 <= n <= 8 {
        assert(csi_tilde((n + 11) as nat) =~= seq![0x1bu8, 0x5b, 0x31, (0x31 + n) as u8, 0x7e]);
    } else if 9 <= n <= 10 {
        assert(csi_tilde((n + 11) as nat) =~= seq![0x1bu8, 0x5b, 0x32, (0x27 + n) as u8, 0x7e]);
    } else if 11 <= n <= 14 {
        assert(csi_tilde((n + 12) as nat) =~= seq![0x1bu8, 0x5b, 0x32, (0x28 + n) as u8, 0x7e]);
    } else if 15 <= n <= 16 {
        assert(csi_tilde((n + 13) as nat) =~= seq![0x1bu8, 0x5b, 0x32, (0x29 + n) as u8, 0x7e]);
    } else if 17 <= n <= 20 {
        assert(csi_tilde((n + 14) as nat) =~= seq![0x1bu8, 0x5b, 0x33, (0x20 + n) as u8, 0x7e]);
    }
}

/// A paste sends its text, with its line ends as they are, as line feeds or as
/// carriage returns. A child that wants pastes bracketed gets the brackets
/// around it, and no other child does.
pub proof fn law_pastes(text: Seq<u8>, config: InputConfig, modes: TerminalModes)
    ensures
        ({
            let body = match config.paste_newline {
                PasteNewlinePolicy::Preserve => text,
                PasteNewlinePolicy::NormalizeToLf => fold_newlines(text, 0x0a),
                PasteNewlinePolicy::NormalizeToCr => fold_newlines(text, 0x0d),
            };
            paste_bytes(text, config, modes) == if modes.bracketed_paste {
                seq![0x1bu8, 0x5b, 0x32, 0x30, 0x30, 0x7e] + body + seq![
                    0x1bu8,
                    0x5b,
                    0x32,
                    0x30,
                    0x31,
                    0x7e,
                ]
            } else {
                body
            }
        }),
{
}

/// Each line end becomes one newline and every other byte stays, wherever in the
/// text it stands; a carriage return with a line feed behind it is one line end.
pub proof fn law_line_ends_are_folded(byte: u8, rest: Seq<u8>, newline: u8)
    ensures
        fold_newlines(seq![], newline).len() == 0,
        byte != 0x0d && byte != 0x0a ==> fold_newlines(seq![byte] + rest, newline) == seq![byte]
            + fold_newlines(rest, newline),
        byte == 0x0a ==> fold_newlines(seq![byte] + rest, newline) == seq![newline]
            + fold_newlines(rest, newline),
        fold_newlines(seq![0x0du8, 0x0a] + rest, newline) == seq![newline] + fold_newlines(
            rest,
            newline,
        ),
        byte == 0x0d && (rest.len() == 0 || rest[0] != 0x0a) ==> fold_newlines(
            seq![byte] + rest,
            newline,
        ) == seq![newline] + fold_newlines(rest, newline),
{
    let s = seq![byte] + rest;
    assert(s[0] == byte);
    assert(s.skip(1) =~= rest);
    if rest.len() > 0 {
        assert(s[1] == rest[0]);
    }
    let t = seq![0x0du8, 0x0a] + rest;
    assert(t.skip(2) =~= rest);
}

/// A change of focus is told to a child that asked for it, and to no other.
pub proof fn law_focus(modes: TerminalModes)
    ensures
        modes.focus_events ==> focus_bytes(true, modes) == seq![0x1bu8, 0x5b, 0x49] && focus_bytes(
            false,
            modes,
        ) == seq![0x1bu8, 0x5b, 0x4f],
        !modes.focus_events ==> focus_bytes(true, modes).len() == 0 && focus_bytes(
            false,
            modes,
        ).len() == 0,
{
}

/// A mouse event is reported to a child that asked for extended reports, with
/// its button, its modifiers and its one-based place, the end telling a press
/// from a release. Sideways scrolling has no report.
pub proof fn law_mouse_reports(mouse: MouseInput, modes: TerminalModes)
    ensures
        ({
            let side = mouse.kind is ScrollLeft || mouse.kind is ScrollRight;
            let number = |b: MouseButton|
                if b is Left {
                    0nat
                } else if b is Middle {
                    1nat
                } else {
                    2nat
                };
            let button: nat = match mouse.kind {
                MouseEventKind::Down(b) => number(b),
                MouseEventKind::Up(b) => number(b),
                MouseEventKind::Drag(b) => number(b) + 32,
                MouseEventKind::Moved => 35,
                MouseEventKind::ScrollUp => 64,
                _ => 65,
            };
            let held: nat = (if mouse.modifiers.shift {
                4nat
            } else {
                0nat
            }) + (if mouse.modifiers.alt {
                8nat
            } else {
                0nat
            }) + (if mouse.modifiers.control {
                16nat
            } else {
                0nat
            });
            mouse_bytes(mouse, modes) == if modes.mouse != MouseMode::Sgr || side {
                None
            } else {
                Some(
                    seq![0x1bu8, 0x5b, 0x3c] + decimal_bytes(button + held) + seq![0x3bu8]
                        + decimal_bytes((mouse.column + 1) as nat) + seq![0x3bu8] + decimal_bytes(
                        (mouse.row + 1) as nat,
                    ) + seq![
                        if mouse.kind is Up {
                            0x6du8
                        } else {
                            0x4du8
                        },
                    ],
                )
            }
        }),
{
}

/// Raw bytes are sent as they are, and a change of the host's size sends
/// nothing.
pub proof fn law_raw_input(input: HostInput, config: InputConfig, modes: TerminalModes)
    ensures
        input matches HostInput::Raw(bytes) ==> input_bytes(input, config, modes) == bytes@,
        input is Resize ==> input_bytes(input, config, modes).len() == 0,
        input matches HostInput::Key(key) ==> input_bytes(input, config, modes) == key_bytes(
            key,
            config,
            modes,
        ),
        input matches HostInput::Paste(text) ==> input_bytes(input, config, modes) == paste_bytes(
            encode_utf8(text@),
            config,
            modes,
        ),
        input is FocusGained ==> input_bytes(input, config, modes) == focus_bytes(true, modes),
        input is FocusLost ==> input_bytes(input, config, modes) == focus_bytes(false, modes),
        input matches HostInput::Mouse(mouse) ==> input_bytes(input, config, modes) == (
        match mouse_bytes(mouse, modes) {
            Some(bytes) => bytes,
            None => seq![],
        }),
{
}

/// Normalized line ends contain no other line end, and normalizing again
/// changes nothing.
pub proof fn law_fold_newlines(s: Seq<u8>, newline: u8)
    requires
        newline == 0x0a || newline == 0x0d,
    ensures
        forall|i: int|
            0 <= i < fold_newlines(s, newline).len() ==> (#[trigger] fold_newlines(s, newline)[i])
                == newline || (fold_newlines(s, newline)[i] != 0x0a && fold_newlines(s, newline)[i]
                != 0x0d),
        fold_newlines(fold_newlines(s, newline), newline) == fold_newlines(s, newline),
    decreases s.len(),
{
    if s.len() > 0 {
        let pair = s[0] == 0x0d && s.len() > 1 && s[1] == 0x0a;
        let rest = s.skip(
            if pair {
                2
            } else {
                1
            },
        );
        law_fold_newlines(rest, newline);
        let tail = fold_newlines(rest, newline);
        let out = fold_newlines(s, newline);
        let head = out[0];
        assert(out == seq![head] + tail);
        assert forall|i: int| 0 <= i < out.len() implies (#[trigger] out[i]) == newline || (out[i]
            != 0x0a && out[i] != 0x0d) by {
            if i > 0 {
                assert(out[i] == tail[i - 1]);
            }
        }
        assert(out.skip(1) =~= tail);
        assert(fold_newlines(out, newline) == seq![head] + fold_newlines(tail, newline));
    }
}

impl XtermEncoder {
    /// Creates a new encoder with the given configuration.
    pub fn new(config: InputConfig) -> (encoder: Self)
        ensures
            encoder.config == config,
    {
        XtermEncoder { config }
    }

    /// Encodes a full [`HostInput`] event by dispatching to the appropriate
    /// trait method.
    pub fn encode(&self, input: &HostInput, modes: &TerminalModes) -> (r: Result<
        Vec<u8>,
        PaneError,
    >)
        requires
            input_fits(*input, *modes),
        ensures
            r matches Ok(bytes) && bytes@ == input_bytes(*input, self.config, *modes),
    {
        match input {
            HostInput::Key(key) => self.encode_key(key, modes),
            HostInput::Paste(text) => Ok(self.encode_paste(text.as_str(), modes)),
            HostInput::FocusGained => Ok(self.encode_focus_gained(modes)),
            HostInput::FocusLost => Ok(self.encode_focus_lost(modes)),
            HostInput::Mouse(mouse) => match self.encode_mouse(mouse, modes) {
                Ok(Some(bytes)) => Ok(bytes),
                Ok(None) => Ok(Vec::new()),
                Err(e) => Err(e),
            },
            HostInput::Resize(_) => Ok(Vec::new()),
            HostInput::Raw(bytes) => Ok(slice_to_vec(bytes.as_slice())),
        }
    }
}

impl InputEncoder for XtermEncoder {
    fn encode_key(&self, key: &KeyInput, modes: &TerminalModes) -> (r: Result<Vec<u8>, PaneError>)
        ensures
            r matches Ok(bytes) && bytes@ == key_bytes(*key, self.config, *modes),
    {
        // Only presses and repeats send bytes.
        if key.kind == KeyEventKind::Release {
            return Ok(Vec::new());
        }
        let application = modes.application_cursor || self.config.application_cursor_keys;
        let mut buf = encode_base_key(key.code, key.modifiers, self.config, application);
        if key.modifiers.alt && self.config.alt_sends_escape && buf.len() > 0 {
            let ghost base = buf@;
            buf.insert(0, 0x1b);
            assert(buf@ =~= seq![0x1bu8] + base);
        }
        Ok(buf)
    }

    fn encode_paste(&self, text: &str, modes: &TerminalModes) -> (bytes: Vec<u8>)
        ensures
            bytes@ == paste_bytes(encode_utf8(text@), self.config, *modes),
    {
        let body = match self.config.paste_newline {
            PasteNewlinePolicy::Preserve => slice_to_vec(text.as_bytes()),
            PasteNewlinePolicy::NormalizeToLf => replace_newlines(text.as_bytes(), 0x0a),
            PasteNewlinePolicy::NormalizeToCr => replace_newlines(text.as_bytes(), 0x0d),
        };
        if modes.bracketed_paste {
            let mut buf: Vec<u8> = vec![0x1b, 0x5b, 0x32, 0x30, 0x30, 0x7e];
            push_all(&mut buf, body.as_slice());
            let close: Vec<u8> = vec![0x1b, 0x5b, 0x32, 0x30, 0x31, 0x7e];
            push_all(&mut buf, close.as_slice());
            buf
        } else {
            body
        }
    }

    fn encode_focus_gained(&self, modes: &TerminalModes) -> (bytes: Vec<u8>)
        ensures
            bytes@ == focus_bytes(true, *modes),
    {
        if modes.focus_events {
            vec![0x1b, 0x5b, 0x49]
        } else {
            Vec::new()
        }
    }

    fn encode_focus_lost(&self, modes: &TerminalModes) -> (bytes: Vec<u8>)
        ensures
            bytes@ == focus_bytes(false, *modes),
    {
        if modes.focus_events {
            vec![0x1b, 0x5b, 0x4f]
        } else {
            Vec::new()
        }
    }

    fn encode_mouse(&self, mouse: &MouseInput, modes: &TerminalModes) -> (r: Result<
        Option<Vec<u8>>,
        PaneError,
    >)
        ensures
            match r {
                Ok(Some(bytes)) => mouse_bytes(*mouse, *modes) == Some(bytes@),
                Ok(None) => mouse_bytes(*mouse, *modes) is None,
                Err(_) => false,
            },
    {
        // SGR is the only protocol that is encoded.
        if modes.mouse != MouseMode::Sgr {
            return Ok(None);
        }
        let (cb, release): (u8, bool) = match mouse.kind {
            MouseEventKind::Down(button) => (sgr_button_code(button), false),
            MouseEventKind::Up(button) => (sgr_button_code(button), true),
            MouseEventKind::Drag(button) => (sgr_button_code(button) + 32, false),
            // Motion without buttons is reported as button 35.
            MouseEventKind::Moved => (35, false),
            MouseEventKind::ScrollDown => (65, false),
            MouseEventKind::ScrollUp => (64, false),
            // Horizontal scroll (buttons 6/7) has no SGR encoding here. Callers
            // treat `None` as "nothing to send".
            MouseEventKind::ScrollLeft => {
                return Ok(None);
            },
            MouseEventKind::ScrollRight => {
                return Ok(None);
            },
        };
        let mut buf: Vec<u8> = vec![0x1b, 0x5b, 0x3c];
        push_decimal_bytes(&mut buf, (cb + sgr_modifier_bits(mouse.modifiers)) as u64);
        buf.push(0x3b);
        push_decimal_bytes(&mut buf, (mouse.column + 1) as u64);
        buf.push(0x3b);
        push_decimal_bytes(&mut buf, (mouse.row + 1) as u64);
        if release {
            buf.push(0x6d);
        } else {
            buf.push(0x4d);
        }
        proof {
            assert(mouse_bytes(*mouse, *modes) is Some);
            assert(buf@ =~= mouse_bytes(*mouse, *modes)->0);
        }
        Ok(Some(buf))
    }
}

fn encode_base_key(
    code: KeyCode,
    modifiers: KeyModifiers,
    config: InputConfig,
    application: bool,
) -> (buf: Vec<u8>)
    ensures
        buf@ == base_key(code, modifiers, config, application),
{
    match code {
        KeyCode::Char(c) => encode_char_key(c, modifiers),
        KeyCode::Enter => match config.enter {
            EnterEncoding::Cr => vec![0x0d],
            EnterEncoding::Lf => vec![0x0a],
            EnterEncoding::CrLf => vec![0x0d, 0x0a],
        },
        KeyCode::Backspace => match config.backspace {
            BackspaceEncoding::Del => vec![0x7f],
            BackspaceEncoding::Bs => vec![0x08],
        },
        KeyCode::Tab => if modifiers.shift {
            vec![0x1b, 0x5b, 0x5a]
        } else {
            vec![0x09]
        },
        KeyCode::Esc => vec![0x1b],
        KeyCode::Up => encode_cursor_key(0x41, application),
        KeyCode::Down => encode_cursor_key(0x42, application),
        KeyCode::Right => encode_cursor_key(0x43, application),
        KeyCode::Left => encode_cursor_key(0x44, application),
        KeyCode::Home => encode_cursor_key(0x48, application),
        KeyCode::End => encode_cursor_key(0x46, application),
        KeyCode::PageUp => encode_tilde(5),
        KeyCode::PageDown => encode_tilde(6),
        KeyCode::Insert => encode_tilde(2),
        KeyCode::Delete => encode_tilde(3),
        KeyCode::F(n) => encode_function_key(n),
        KeyCode::BackTab => vec![0x1b, 0x5b, 0x5a],
        // Media, lock and modifier keys are not emitted as terminal input.
        _ => Vec::new(),
    }
}

fn encode_cursor_key(b: u8, application: bool) -> (buf: Vec<u8>)
    ensures
        buf@ == cursor_key(b, application),
{
    if application {
        vec![0x1b, 0x4f, b]
    } else {
        vec![0x1b, 0x5b, b]
    }
}

fn encode_tilde(n: u8) -> (buf: Vec<u8>)
    ensures
        buf@ == csi_tilde(n as nat),
{
    let mut buf: Vec<u8> = vec![0x1b, 0x5b];
    push_decimal_bytes(&mut buf, n as u64);
    buf.push(0x7e);
    assert(buf@ =~= csi_tilde(n as nat));
    buf
}

/// Function keys F1–F4 use SS3 in xterm; F5+ use CSI.
fn encode_function_key(n: u8) -> (buf: Vec<u8>)
    ensures
        buf@ == function_key(n),
{
    if 1 <= n && n <= 4 {
        vec![0x1b, 0x4f, 0x4f + n]
    } else if n == 5 {
        encode_tilde(15)
    } else if 6 <= n && n <= 10 {
        encode_tilde(n + 11)
    } else if 11 <= n && n <= 14 {
        encode_tilde(n + 12)
    } else if 15 <= n && n <= 16 {
        encode_tilde(n + 13)
    } else if 17 <= n && n <= 20 {
        encode_tilde(n + 14)
    } else {
        Vec::new()
    }
}

/// Encodes a character key, applying control mappings.
fn encode_char_key(c: char, modifiers: KeyModifiers) -> (buf: Vec<u8>)
    ensures
        buf@ == char_key(c, modifiers),
{
    if modifiers.control {
        if let Some(b) = control_byte(c) {
            return vec![b];
        }
    }
    let mut text = String::new();
    text.push(c);
    assert(text@ =~= seq![c]);
    slice_to_vec(text.as_str().as_bytes())
}

/// Maps a control-modified character to its C0 control byte.
///
/// Returns `None` when there is no standard mapping.
fn control_byte(c: char) -> (b: Option<u8>)
    ensures
        b == control_code(c),
{
    let u = c as u32;
    if c == ' ' || c == '@' || c == '`' {
        Some(0x00)
    } else if 0x61 <= u && u <= 0x7a {
        Some((u - 0x60) as u8)
    } else if 0x41 <= u && u <= 0x5a {
        Some((u - 0x40) as u8)
    } else if c == '[' || c == '{' {
        Some(0x1b)
    } else if c == '\\' || c == '|' {
        Some(0x1c)
    } else if c == ']' || c == '}' {
        Some(0x1d)
    } else if c == '^' || c == '~' {
        Some(0x1e)
    } else if c == '_' || c == '-' {
        Some(0x1f)
    } else if c == '?' {
        Some(0x7f)
    } else {
        None
    }
}

fn sgr_button_code(button: MouseButton) -> (code: u8)
    ensures
        code == sgr_button(button),
        code <= 2,
{
    match button {
        MouseButton::Left => 0,
        MouseButton::Middle => 1,
        MouseButton::Right => 2,
    }
}

/// Returns the modifier bits of an SGR mouse report.
fn sgr_modifier_bits(modifiers: KeyModifiers) -> (bits: u8)
    ensures
        bits == sgr_modifiers(modifiers),
        bits <= 28,
{
    let mut bits: u8 = 0;
    if modifiers.shift {
        bits = bits + 4;
    }
    if modifiers.alt {
        bits = bits + 8;
    }
    if modifiers.control {
        bits = bits + 16;
    }
    bits
}

fn replace_newlines(text: &[u8], newline: u8) -> (out: Vec<u8>)
    ensures
        out@ == fold_newlines(text@, newline),
{
    let mut out: Vec<u8> = Vec::with_capacity(text.len());
    let mut i: usize = 0;
    assert(text@.skip(0) =~= text@);
    while i < text.len()
        invariant
            i <= text@.len(),
            fold_newlines(text@, newline) == out@ + fold_newlines(text@.skip(i as int), newline),
        decreases text@.len() - i,
    {
        let ghost before = out@;
        let ghost rest = text@.skip(i as int);
        let b = text[i];
        if b == 0x0d && i + 1 < text.len() && text[i + 1] == 0x0a {
            out.push(newline);
            i = i + 2;
            assert(rest.skip(2) =~= text@.skip(i as int));
        } else {
            if b == 0x0d || b == 0x0a {
                out.push(newline);
            } else {
                out.push(b);
            }
            i = i + 1;
            assert(rest.skip(1) =~= text@.skip(i as int));
        }
        assert(out@ + fold_newlines(text@.skip(i as int), newline) =~= before + fold_newlines(
            rest,
            newline,
        ));
    }
    assert(out@ + Seq::<u8>::empty() =~= out@);
    out
}

} // verus!

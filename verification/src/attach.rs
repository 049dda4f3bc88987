//! Attach bridge types, traits, and state for fullscreen terminal handoff.

use vstd::prelude::*;

use crate::command::{AttachOptions, AttachOutputPolicy, AttachResizePolicy, RestorePolicy};
use crate::event::AttachScreenPolicy;
use crate::input::KeyCode;
use crate::pane::PaneId;

verus! {

/// Lifecycle state of an attach session.
///
/// State transitions are explicit and enforced by [`AttachBridge`]:
///
/// ```text
/// Embedded -> Attaching -> Attached -> Detaching -> Embedded
/// ```
#[derive(Debug, Clone, Copy, PartialEq, Eq, Structural)]
pub enum AttachState {
    /// Pane is rendered in an embedded widget.
    Embedded,
    /// Transitioning to fullscreen attach.
    Attaching,
    /// Pane has fullscreen control of the real terminal.
    Attached,
    /// Transitioning back to embedded rendering.
    Detaching,
}

impl Default for AttachState {
    fn default() -> (state: Self)
        ensures
            state == AttachState::Embedded,
    {
        AttachState::Embedded
    }
}

impl AttachState {
    /// Returns true if this state is a transitional state.
    pub fn is_transitional(self) -> (b: bool)
        ensures
            b == (self is Attaching || self is Detaching),
    {
        match self {
            AttachState::Attaching => true,
            AttachState::Detaching => true,
            _ => false,
        }
    }

    /// Returns true if the attach bridge is active in this state.
    pub fn is_active(self) -> (b: bool)
        ensures
            b == !(self is Embedded),
    {
        match self {
            AttachState::Embedded => false,
            _ => true,
        }
    }

    /// The only state that may follow.
    pub open spec fn successor(self) -> AttachState {
        match self {
            AttachState::Embedded => AttachState::Attaching,
            AttachState::Attaching => AttachState::Attached,
            AttachState::Attached => AttachState::Detaching,
            AttachState::Detaching => AttachState::Embedded,
        }
    }
}

/// The attach cycle visits each state once and comes back.
pub proof fn law_attach_cycle(state: AttachState)
    ensures
        state.successor() != state,
        state.successor().successor() != state,
        state.successor().successor().successor().successor() == state,
{
}

/// Token representing saved terminal state from a suspend operation.
///
/// Must be passed to [`HostTerminalControl::restore_after_attach`] to restore
/// the terminal. If dropped without explicit restoration, no automatic action
/// is taken by the token itself; use [`AttachGuard`] for scoped cleanup.
///
/// This type is opaque: its fields are private and it should only be created
/// by a [`HostTerminalControl::suspend_for_attach`] implementation.
#[derive(Debug, PartialEq, Eq, Structural)]
pub struct TerminalRestoreToken {
    screen_policy: AttachScreenPolicy,
    consumed: bool,
    raw_mode_was_enabled: bool,
    left_host_alternate_screen: bool,
    entered_fresh_alternate_screen: bool,
    keyboard_enhancement_pushed: bool,
    mouse_modes_saved: bool,
}

/// A [`TerminalRestoreToken`] as plain values.
pub ghost struct TokenView {
    pub screen_policy: AttachScreenPolicy,
    pub consumed: bool,
    pub raw_mode_was_enabled: bool,
    pub left_host_alternate_screen: bool,
    pub entered_fresh_alternate_screen: bool,
    pub keyboard_enhancement_pushed: bool,
    pub mouse_modes_saved: bool,
}

/// A token with nothing to undo.
pub open spec fn fresh_token(screen_policy: AttachScreenPolicy) -> TokenView {
    TokenView {
        screen_policy,
        consumed: false,
        raw_mode_was_enabled: false,
        left_host_alternate_screen: false,
        entered_fresh_alternate_screen: false,
        keyboard_enhancement_pushed: false,
        mouse_modes_saved: false,
    }
}

/// A fresh token keeps the screen policy, can still be used, and has nothing to
/// undo.
pub proof fn law_fresh_tokens(screen_policy: AttachScreenPolicy)
    ensures
        ({
            let token = fresh_token(screen_policy);
            &&& token.screen_policy == screen_policy && !token.consumed
            &&& !token.raw_mode_was_enabled && !token.mouse_modes_saved
            &&& !token.left_host_alternate_screen && !token.entered_fresh_alternate_screen
            &&& !token.keyboard_enhancement_pushed
        }),
{
}

impl View for TerminalRestoreToken {
    type V = TokenView;

    closed spec fn view(&self) -> TokenView {
        TokenView {
            screen_policy: self.screen_policy,
            consumed: self.consumed,
            raw_mode_was_enabled: self.raw_mode_was_enabled,
            left_host_alternate_screen: self.left_host_alternate_screen,
            entered_fresh_alternate_screen: self.entered_fresh_alternate_screen,
            keyboard_enhancement_pushed: self.keyboard_enhancement_pushed,
            mouse_modes_saved: self.mouse_modes_saved,
        }
    }
}

impl TerminalRestoreToken {
    /// Creates a new restore token for the given screen policy.
    ///
    /// Intended for use by [`HostTerminalControl::suspend_for_attach`]
    /// implementations. The token fields remain private, so this constructor
    /// only allows creating a valid token with the correct screen policy.
    pub fn new(screen_policy: AttachScreenPolicy) -> (token: Self)
        ensures
            token@ == fresh_token(screen_policy),
    {
        TerminalRestoreToken {
            screen_policy,
            consumed: false,
            raw_mode_was_enabled: false,
            left_host_alternate_screen: false,
            entered_fresh_alternate_screen: false,
            keyboard_enhancement_pushed: false,
            mouse_modes_saved: false,
        }
    }

    /// Returns the screen policy that was in effect when suspended.
    pub fn screen_policy(&self) -> (policy: AttachScreenPolicy)
        ensures
            policy == self@.screen_policy,
    {
        self.screen_policy
    }

    /// Marks this token as consumed.
    ///
    /// Intended for use by [`HostTerminalControl::restore_after_attach`]
    /// implementations. Once consumed, the token should not be used again.
    pub fn consume(&mut self)
        ensures
            final(self)@ == (TokenView { consumed: true, ..old(self)@ }),
    {
        self.consumed = true;
    }

    /// Returns true if this token has already been consumed.
    pub fn is_consumed(&self) -> (b: bool)
        ensures
            b == self@.consumed,
    {
        self.consumed
    }

    /// Returns whether raw mode was on before the suspend.
    pub fn raw_mode_was_enabled(&self) -> (b: bool)
        ensures
            b == self@.raw_mode_was_enabled,
    {
        self.raw_mode_was_enabled
    }

    /// Records whether raw mode was on before the suspend.
    pub fn set_raw_mode_was_enabled(&mut self, enabled: bool)
        ensures
            final(self)@ == (TokenView { raw_mode_was_enabled: enabled, ..old(self)@ }),
    {
        self.raw_mode_was_enabled = enabled;
    }

    /// Returns whether the suspend left the host's alternate screen.
    pub fn left_host_alternate_screen(&self) -> (b: bool)
        ensures
            b == self@.left_host_alternate_screen,
    {
        self.left_host_alternate_screen
    }

    /// Records whether the suspend left the host's alternate screen.
    pub fn set_left_host_alternate_screen(&mut self, changed: bool)
        ensures
            final(self)@ == (TokenView { left_host_alternate_screen: changed, ..old(self)@ }),
    {
        self.left_host_alternate_screen = changed;
    }

    /// Returns whether the suspend entered an alternate screen of its own.
    pub fn entered_fresh_alternate_screen(&self) -> (b: bool)
        ensures
            b == self@.entered_fresh_alternate_screen,
    {
        self.entered_fresh_alternate_screen
    }

    /// Records whether the suspend entered an alternate screen of its own.
    pub fn set_entered_fresh_alternate_screen(&mut self, changed: bool)
        ensures
            final(self)@ == (TokenView { entered_fresh_alternate_screen: changed, ..old(self)@ }),
    {
        self.entered_fresh_alternate_screen = changed;
    }

    /// Returns whether the suspend pushed keyboard enhancement flags.
    pub fn keyboard_enhancement_pushed(&self) -> (b: bool)
        ensures
            b == self@.keyboard_enhancement_pushed,
    {
        self.keyboard_enhancement_pushed
    }

    /// Records whether the suspend pushed keyboard enhancement flags.
    pub fn set_keyboard_enhancement_pushed(&mut self, changed: bool)
        ensures
            final(self)@ == (TokenView { keyboard_enhancement_pushed: changed, ..old(self)@ }),
    {
        self.keyboard_enhancement_pushed = changed;
    }

    /// Returns whether the suspend saved the mouse modes.
    pub fn mouse_modes_saved(&self) -> (b: bool)
        ensures
            b == self@.mouse_modes_saved,
    {
        self.mouse_modes_saved
    }

    /// Records whether the suspend saved the mouse modes.
    pub fn set_mouse_modes_saved(&mut self, changed: bool)
        ensures
            final(self)@ == (TokenView { mouse_modes_saved: changed, ..old(self)@ }),
    {
        self.mouse_modes_saved = changed;
    }
}

/// Terminal control trait implemented by host backends.
///
/// Provides suspend/restore hooks that allow the attach bridge to take over
/// and later return control to the host application.
///
/// The host terminal profile is caller-owned. Implementations are responsible
/// for saving and restoring the exact profile their application expects after
/// attach, including raw mode, alternate-screen state, mouse capture,
/// bracketed paste, keyboard enhancement flags, cursor policy, and redraw
/// expectations. A generic reset to a broadly usable terminal state is not
/// enough for embedded TUIs whose key parser depends on enhanced input modes.
pub trait HostTerminalControl {
    /// The error type returned by suspend/restore operations.
    type Error: std::fmt::Debug;

    /// Suspends host drawing and prepares the real terminal for attach.
    ///
    /// Returns a [`TerminalRestoreToken`] that must later be passed to
    /// [`restore_after_attach`](Self::restore_after_attach). The token should
    /// carry the caller-owned state needed to restore the host's expected
    /// terminal profile exactly.
    fn suspend_for_attach(&mut self, policy: AttachScreenPolicy) -> core::result::Result<
        TerminalRestoreToken,
        Self::Error,
    >;

    /// Restores the host terminal after attach ends.
    ///
    /// The token is borrowed mutably so that restoration can be retried on
    /// error. On success the implementor or caller should mark the token
    /// consumed; [`AttachGuard`] handles this automatically. On success, the
    /// host should be able to resume its normal input parser and redraw loop
    /// without a separate full terminal reset.
    fn restore_after_attach(&mut self, token: &mut TerminalRestoreToken) -> core::result::Result<
        (),
        Self::Error,
    >;
}

/// Guard that owns the restore token of a suspended terminal.
///
/// Created by suspending host terminal control. Until [`detach`](Self::detach)
/// succeeds the guard keeps the token, and [`release`](Self::release) makes a
/// last attempt to restore.
pub struct AttachGuard<'a, T: HostTerminalControl> {
    control: &'a mut T,
    token: Option<TerminalRestoreToken>,
}

impl<'a, T: HostTerminalControl> AttachGuard<'a, T> {
    /// The token, until the terminal is restored.
    pub closed spec fn token(self) -> Option<TerminalRestoreToken> {
        self.token
    }

    /// The control that restores the terminal, as it is now.
    pub closed spec fn host(self) -> T {
        *self.control
    }

    /// Creates a new guard from a control reference and restore token.
    pub fn new(control: &'a mut T, token: TerminalRestoreToken) -> (guard: Self)
        ensures
            guard.token() == Some(token),
            guard.host() == *old(control),
    {
        AttachGuard { control, token: Some(token) }
    }

    /// Explicitly detaches, restoring the terminal.
    ///
    /// Returns an error if restoration fails. The token is kept in the guard
    /// so that callers can retry or release the guard.
    pub fn detach(&mut self) -> (r: core::result::Result<(), T::Error>)
        ensures
            old(self).token() is None ==> {
                &&& r is Ok
                &&& final(self).token() is None
                &&& final(self).host() == old(self).host()
            },
            old(self).token() matches Some(held) ==> exists|
                control: &mut T,
                token: &mut TerminalRestoreToken,
                answer: core::result::Result<(), T::Error>,
            |
                #![trigger call_ensures(T::restore_after_attach, (control, token), answer)]
                {
                    &&& call_ensures(T::restore_after_attach, (control, token), answer)
                    &&& *control == old(self).host()
                    &&& *final(control) == final(self).host()
                    &&& *token == held
                    &&& final(self).token() == (if answer is Ok {
                        None
                    } else {
                        Some(*final(token))
                    })
                    &&& match answer {
                        Ok(_) => r is Ok,
                        Err(error) => r matches Err(e) && e == error,
                    }
                },
    {
        let mut token = match self.token.take() {
            Some(token) => token,
            None => {
                return Ok(());
            },
        };
        match self.control.restore_after_attach(&mut token) {
            Ok(_) => {
                self.token = None;
                Ok(())
            },
            Err(error) => {
                self.token = Some(token);
                Err(error)
            },
        }
    }

    /// Returns true if the underlying token has already been consumed.
    pub fn is_detached(&self) -> (b: bool)
        ensures
            b == (self.token() is None),
    {
        self.token.is_none()
    }

    /// Discards any retained restore token without attempting another restore.
    ///
    /// Intended for abort paths that have already recorded the final explicit
    /// restore attempt and must prevent an unobserved retry.
    pub fn disarm(&mut self)
        ensures
            final(self).token() is None,
            final(self).host() == old(self).host(),
    {
        self.token = None;
    }

    /// Ends the guard: a terminal that is not yet restored is restored once
    /// more, and a failure of that attempt is ignored.
    pub fn release(self)
        ensures
            self.token() matches Some(held) ==> exists|
                control: &mut T,
                token: &mut TerminalRestoreToken,
                answer: core::result::Result<(), T::Error>,
            |
                #![trigger call_ensures(T::restore_after_attach, (control, token), answer)]
                {
                    &&& call_ensures(T::restore_after_attach, (control, token), answer)
                    &&& *control == self.host()
                    &&& *token == held
                },
    {
        let mut guard = self;
        let _ = guard.detach();
    }
}

/// Attach bridge that tracks pane, options, and lifecycle state.
#[derive(Debug, PartialEq, Eq)]
pub struct AttachBridge {
    pane_id: PaneId,
    options: AttachOptions,
    state: AttachState,
}

impl Clone for AttachBridge {
    fn clone(&self) -> (copy: Self)
        ensures
            copy.pane() == self.pane(),
            copy.opts().same(self.opts()),
            copy.stage() == self.stage(),
    {
        AttachBridge {
            pane_id: self.pane_id,
            options: self.options.clone(),
            state: self.state,
        }
    }
}

impl AttachBridge {
    /// The pane.
    pub closed spec fn pane(self) -> PaneId {
        self.pane_id
    }

    /// The options.
    pub closed spec fn opts(self) -> AttachOptions {
        self.options
    }

    /// The lifecycle state.
    pub closed spec fn stage(self) -> AttachState {
        self.state
    }

    /// Creates a bridge with default options in the embedded state.
    pub fn new(pane_id: PaneId) -> (bridge: Self)
        ensures
            bridge.pane() == pane_id,
            bridge.stage() == AttachState::Embedded,
            bridge.opts().detach.chord@ == seq![0x1du8],
            bridge.opts().detach.partial_timeout.nanos == 500_000_000,
            bridge.opts().screen == AttachScreenPolicy::ReuseHostAlternateScreen,
            bridge.opts().resize == AttachResizePolicy::UseRealTerminalSize,
            bridge.opts().output == AttachOutputPolicy::FanoutToSurfaceAndStdout,
            bridge.opts().restore == RestorePolicy::Full,
    {
        Self::with_options(pane_id, AttachOptions::default())
    }

    /// Creates a bridge with explicit options in the embedded state.
    pub fn with_options(pane_id: PaneId, options: AttachOptions) -> (bridge: Self)
        ensures
            bridge.pane() == pane_id,
            bridge.opts() == options,
            bridge.stage() == AttachState::Embedded,
    {
        AttachBridge { pane_id, options, state: AttachState::Embedded }
    }

    /// Returns the pane identifier.
    pub fn pane_id(&self) -> (id: PaneId)
        ensures
            id == self.pane(),
    {
        self.pane_id
    }

    /// Returns the attach options.
    pub fn options(&self) -> (options: &AttachOptions)
        ensures
            *options == self.opts(),
    {
        &self.options
    }

    /// Returns the current attach state.
    pub fn state(&self) -> (state: AttachState)
        ensures
            state == self.stage(),
    {
        self.state
    }

    /// Follows an attach that is driven elsewhere into `state`.
    pub(crate) fn follow(&mut self, state: AttachState)
        ensures
            final(self).stage() == state,
            final(self).pane() == old(self).pane(),
            final(self).opts() == old(self).opts(),
    {
        self.state = state;
    }

    /// Whether the bridge went on to the next state and is otherwise as before.
    pub open spec fn advanced_from(self, before: Self) -> bool {
        &&& self.stage() == before.stage().successor()
        &&& self.pane() == before.pane()
        &&& self.opts() == before.opts()
    }

    /// Transitions to [`AttachState::Attaching`].
    pub fn begin_attach(&mut self)
        requires
            old(self).stage() == AttachState::Embedded,
        ensures
            final(self).advanced_from(*old(self)),
    {
        self.state = AttachState::Attaching;
    }

    /// Transitions to [`AttachState::Attached`].
    pub fn confirm_attached(&mut self)
        requires
            old(self).stage() == AttachState::Attaching,
        ensures
            final(self).advanced_from(*old(self)),
    {
        self.state = AttachState::Attached;
    }

    /// Transitions to [`AttachState::Detaching`].
    pub fn begin_detach(&mut self)
        requires
            old(self).stage() == AttachState::Attached,
        ensures
            final(self).advanced_from(*old(self)),
    {
        self.state = AttachState::Detaching;
    }

    /// Transitions to [`AttachState::Embedded`].
    pub fn confirm_detached(&mut self)
        requires
            old(self).stage() == AttachState::Detaching,
        ensures
            final(self).advanced_from(*old(self)),
    {
        self.state = AttachState::Embedded;
    }

    /// The name under which a key is told apart from the escape key.
    pub fn keycode_name(key: KeyCode) -> (name: &'static str)
        ensures
            name@ == (if key == KeyCode::Esc {
                "esc"@
            } else {
                "other"@
            }),
    {
        match key {
            KeyCode::Esc => "esc",
            _ => "other",
        }
    }
}

} // verus!

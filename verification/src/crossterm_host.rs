//! Crossterm-backed terminal control: what is written to the host terminal when
//! it is suspended for an attach, and what undoes it.

use crossterm::Command;

use vstd::prelude::*;

use crate::attach::{HostTerminalControl, TerminalRestoreToken, TokenView};
use crate::bytes::push_all;
use crate::event::AttachScreenPolicy;
use crate::pty::WriteFault;
use crate::suspension::{
    host_answers, law_restoration_ends, law_suspension_ends, HostReply, HostReplyView, HostRequest,
    HostRequestView, Restoration, RestorationView, Suspension, SuspensionView,
};

verus! {

/// The control sequence of `crossterm::event::PushKeyboardEnhancementFlags`
/// without flags: `CSI > 0 u`.
#[verifier::external_body]
fn push_keyboard_flags() -> (ansi: String)
    ensures
        ansi@ == "\x1b[>0u"@,
{
    let flags = crossterm::event::KeyboardEnhancementFlags::empty();
    let mut ansi = String::new();
    let _ = crossterm::event::PushKeyboardEnhancementFlags(flags).write_ansi(&mut ansi);
    ansi
}

/// The control sequence of `crossterm::event::PopKeyboardEnhancementFlags`:
/// `CSI < 1 u`.
#[verifier::external_body]
fn pop_keyboard_flags() -> (ansi: String)
    ensures
        ansi@ == "\x1b[<1u"@,
{
    let mut ansi = String::new();
    let _ = crossterm::event::PopKeyboardEnhancementFlags.write_ansi(&mut ansi);
    ansi
}

/// The control sequences of `crossterm::event::EnableMouseCapture`: the mouse
/// modes 1000, 1002, 1003, 1015 and 1006 are set, in this order.
#[verifier::external_body]
fn enable_mouse_capture() -> (ansi: String)
    ensures
        ansi@ == "\x1b[?1000h\x1b[?1002h\x1b[?1003h\x1b[?1015h\x1b[?1006h"@,
{
    let mut ansi = String::new();
    let _ = crossterm::event::EnableMouseCapture.write_ansi(&mut ansi);
    ansi
}

/// The control sequence of `crossterm::cursor::Show`: mode 25 is set.
#[verifier::external_body]
fn show_cursor() -> (ansi: String)
    ensures
        ansi@ == "\x1b[?25h"@,
{
    let mut ansi = String::new();
    let _ = crossterm::cursor::Show.write_ansi(&mut ansi);
    ansi
}

/// The control sequence of `crossterm::terminal::EnterAlternateScreen`: mode
/// 1049 is set.
#[verifier::external_body]
fn enter_alternate_screen() -> (ansi: String)
    ensures
        ansi@ == "\x1b[?1049h"@,
{
    let mut ansi = String::new();
    let _ = crossterm::terminal::EnterAlternateScreen.write_ansi(&mut ansi);
    ansi
}

/// The control sequence of `crossterm::terminal::LeaveAlternateScreen`: mode
/// 1049 is reset.
#[verifier::external_body]
fn leave_alternate_screen() -> (ansi: String)
    ensures
        ansi@ == "\x1b[?1049l"@,
{
    let mut ansi = String::new();
    let _ = crossterm::terminal::LeaveAlternateScreen.write_ansi(&mut ansi);
    ansi
}

/// The control sequence of `crossterm::terminal::Clear` for the whole screen:
/// `CSI 2 J`.
#[verifier::external_body]
fn clear_screen() -> (ansi: String)
    ensures
        ansi@ == "\x1b[2J"@,
{
    let mut ansi = String::new();
    let all = crossterm::terminal::ClearType::All;
    let _ = crossterm::terminal::Clear(all).write_ansi(&mut ansi);
    ansi
}

/// The control sequence of `crossterm::cursor::MoveTo` for the upper left
/// corner: `CSI 1 ; 1 H`.
#[verifier::external_body]
fn move_home() -> (ansi: String)
    ensures
        ansi@ == "\x1b[1;1H"@,
{
    let mut ansi = String::new();
    let _ = crossterm::cursor::MoveTo(0, 0).write_ansi(&mut ansi);
    ansi
}

/// Saves the mouse modes.
pub open spec fn save_mouse_modes() -> Seq<char> {
    "\x1b[?1000s\x1b[?1002s\x1b[?1003s\x1b[?1015s\x1b[?1006s"@
}

/// Restores the mouse modes.
pub open spec fn restore_mouse_modes() -> Seq<char> {
    "\x1b[?1006r\x1b[?1015r\x1b[?1003r\x1b[?1002r\x1b[?1000r"@
}

/// What the screen policy writes, on a host that is or is not in its alternate
/// screen.
pub open spec fn screen_text(policy: AttachScreenPolicy, host_alternate: bool) -> Seq<char> {
    match policy {
        AttachScreenPolicy::ReuseHostAlternateScreen => "\x1b[?25h"@,
        AttachScreenPolicy::LeaveAlternateScreen => if host_alternate {
            "\x1b[?25h"@ + "\x1b[?1049l"@
        } else {
            "\x1b[?25h"@
        },
        AttachScreenPolicy::EnterFreshAlternateScreen => if host_alternate {
            "\x1b[?25h"@ + "\x1b[2J"@ + "\x1b[1;1H"@
        } else {
            "\x1b[?25h"@ + "\x1b[?1049h"@ + "\x1b[2J"@ + "\x1b[1;1H"@
        },
    }
}

/// What is written to suspend a terminal: keyboard flags are pushed, mouse
/// modes saved, the mouse captured, and the screen policy applied.
pub open spec fn suspend_text(policy: AttachScreenPolicy, host_alternate: bool) -> Seq<char> {
    "\x1b[>0u"@ + save_mouse_modes()
        + "\x1b[?1000h\x1b[?1002h\x1b[?1003h\x1b[?1015h\x1b[?1006h"@ + screen_text(
        policy,
        host_alternate,
    )
}

/// The token of a terminal that was suspended.
pub open spec fn suspended(
    policy: AttachScreenPolicy,
    raw_mode_was_enabled: bool,
    host_alternate: bool,
) -> TokenView {
    TokenView {
        screen_policy: policy,
        consumed: false,
        raw_mode_was_enabled,
        left_host_alternate_screen: policy == AttachScreenPolicy::LeaveAlternateScreen
            && host_alternate,
        entered_fresh_alternate_screen: policy == AttachScreenPolicy::EnterFreshAlternateScreen
            && !host_alternate,
        keyboard_enhancement_pushed: true,
        mouse_modes_saved: true,
    }
}

/// A text if a condition holds.
pub open spec fn when(condition: bool, text: Seq<char>) -> Seq<char> {
    if condition {
        text
    } else {
        seq![]
    }
}

/// What is written to undo what a token stands for.
pub open spec fn restore_text(token: TokenView) -> Seq<char> {
    when(token.mouse_modes_saved, restore_mouse_modes()) + when(
        token.keyboard_enhancement_pushed,
        "\x1b[<1u"@,
    ) + when(token.entered_fresh_alternate_screen, "\x1b[?1049l"@) + when(
        token.left_host_alternate_screen,
        "\x1b[?1049h"@,
    )
}

/// Suspending and restoring cancel out: what is pushed is popped, what is saved
/// is restored, and the terminal is back in its alternate screen exactly if it
/// was there before.
pub proof fn law_restore_undoes_suspend(
    policy: AttachScreenPolicy,
    raw_mode_was_enabled: bool,
    host_alternate: bool,
)
    ensures
        ({
            let token = suspended(policy, raw_mode_was_enabled, host_alternate);
            let screen = restore_text(token);
            let base = restore_mouse_modes() + "\x1b[<1u"@;
            &&& !(token.left_host_alternate_screen && token.entered_fresh_alternate_screen)
            &&& token.left_host_alternate_screen ==> host_alternate && screen == base
                + "\x1b[?1049h"@
            &&& token.entered_fresh_alternate_screen ==> !host_alternate && screen == base
                + "\x1b[?1049l"@
            &&& !token.left_host_alternate_screen && !token.entered_fresh_alternate_screen
                ==> screen == base
        }),
{
    let token = suspended(policy, raw_mode_was_enabled, host_alternate);
    let base = restore_mouse_modes() + "\x1b[<1u"@;
    let none = Seq::<char>::empty();
    assert(base + none =~= base);
    assert(base + none + "\x1b[?1049h"@ =~= base + "\x1b[?1049h"@);
    assert(base + "\x1b[?1049l"@ + none =~= base + "\x1b[?1049l"@);
    assert(restore_text(token) =~= base + when(
        token.entered_fresh_alternate_screen,
        "\x1b[?1049l"@,
    ) + when(token.left_host_alternate_screen, "\x1b[?1049h"@));
}

/// What a suspension does to the screen: the cursor is always shown. Leaving the
/// alternate screen is written where the host is in it, entering a fresh one
/// where the host is not, and a fresh screen is cleared and its cursor put to
/// the corner either way. The token remembers exactly what is to be undone.
pub proof fn law_suspensions_and_the_screen(policy: AttachScreenPolicy, raw: bool, alternate: bool)
    ensures
        ({
            let text = suspend_text(policy, alternate);
            let token = suspended(policy, raw, alternate);
            let head = "\x1b[>0u"@
                + "\x1b[?1000s\x1b[?1002s\x1b[?1003s\x1b[?1015s\x1b[?1006s"@
                + "\x1b[?1000h\x1b[?1002h\x1b[?1003h\x1b[?1015h\x1b[?1006h"@;
            &&& policy == AttachScreenPolicy::ReuseHostAlternateScreen ==> text == head
                + "\x1b[?25h"@
            &&& policy == AttachScreenPolicy::LeaveAlternateScreen ==> text == head + if alternate {
                "\x1b[?25h"@ + "\x1b[?1049l"@
            } else {
                "\x1b[?25h"@
            }
            &&& policy == AttachScreenPolicy::EnterFreshAlternateScreen ==> text == head
                + if alternate {
                "\x1b[?25h"@ + "\x1b[2J"@ + "\x1b[1;1H"@
            } else {
                "\x1b[?25h"@ + "\x1b[?1049h"@ + "\x1b[2J"@ + "\x1b[1;1H"@
            }
            &&& token.screen_policy == policy
            &&& token.raw_mode_was_enabled == raw
            &&& !token.consumed
            &&& token.mouse_modes_saved && token.keyboard_enhancement_pushed
            &&& token.left_host_alternate_screen <==> policy
                == AttachScreenPolicy::LeaveAlternateScreen && alternate
            &&& token.entered_fresh_alternate_screen <==> policy
                == AttachScreenPolicy::EnterFreshAlternateScreen && !alternate
        }),
{
}

/// What a restoration writes, by what the token remembers: the mouse modes come
/// back first, then the keyboard flags, then the screen. What the token does not
/// remember is left alone.
pub proof fn law_restorations_by_token(token: TokenView)
    ensures
        restore_text(token) == (if token.mouse_modes_saved {
            "\x1b[?1006r\x1b[?1015r\x1b[?1003r\x1b[?1002r\x1b[?1000r"@
        } else {
            Seq::<char>::empty()
        }) + (if token.keyboard_enhancement_pushed {
            "\x1b[<1u"@
        } else {
            Seq::<char>::empty()
        }) + (if token.entered_fresh_alternate_screen {
            "\x1b[?1049l"@
        } else {
            Seq::<char>::empty()
        }) + (if token.left_host_alternate_screen {
            "\x1b[?1049h"@
        } else {
            Seq::<char>::empty()
        }),
{
}

/// Plans a suspension: what is to be written, and the token that remembers it.
pub fn plan_suspend(
    policy: AttachScreenPolicy,
    raw_mode_was_enabled: bool,
    host_alternate: bool,
) -> (plan: (String, TerminalRestoreToken))
    ensures
        plan.0@ == suspend_text(policy, host_alternate),
        plan.1@ == suspended(policy, raw_mode_was_enabled, host_alternate),
{
    let mut token = TerminalRestoreToken::new(policy);
    token.set_raw_mode_was_enabled(raw_mode_was_enabled);
    let mut text = push_keyboard_flags();
    token.set_keyboard_enhancement_pushed(true);
    text.append("\x1b[?1000s\x1b[?1002s\x1b[?1003s\x1b[?1015s\x1b[?1006s");
    token.set_mouse_modes_saved(true);
    text.append(enable_mouse_capture().as_str());
    let ghost base = text@;
    text.append(show_cursor().as_str());
    match policy {
        AttachScreenPolicy::ReuseHostAlternateScreen => {},
        AttachScreenPolicy::LeaveAlternateScreen => {
            if host_alternate {
                text.append(leave_alternate_screen().as_str());
                token.set_left_host_alternate_screen(true);
            }
        },
        AttachScreenPolicy::EnterFreshAlternateScreen => {
            if !host_alternate {
                text.append(enter_alternate_screen().as_str());
                token.set_entered_fresh_alternate_screen(true);
            }
            text.append(clear_screen().as_str());
            text.append(move_home().as_str());
        },
    }
    assert(text@ =~= base + screen_text(policy, host_alternate));
    (text, token)
}

/// Plans a restoration: what is to be written to undo what a token stands for.
pub fn plan_restore(token: &TerminalRestoreToken) -> (text: String)
    ensures
        text@ == restore_text(token@),
{
    let mut text = String::new();
    if token.mouse_modes_saved() {
        text.append("\x1b[?1006r\x1b[?1015r\x1b[?1003r\x1b[?1002r\x1b[?1000r");
    }
    if token.keyboard_enhancement_pushed() {
        text.append(pop_keyboard_flags().as_str());
    }
    if token.entered_fresh_alternate_screen() {
        text.append(leave_alternate_screen().as_str());
    }
    if token.left_host_alternate_screen() {
        text.append(enter_alternate_screen().as_str());
    }
    assert(text@ =~= restore_text(token@));
    text
}

/// Why a host terminal did not do what it was asked.
#[derive(Debug, Clone, PartialEq, Eq)]
pub struct HostFault {
    /// Human-readable description.
    pub message: String,
}

/// Where control sequences for the host terminal go.
pub trait TerminalSink {
    /// Writes all bytes, or says why not.
    fn write_all(&mut self, bytes: &[u8]) -> core::result::Result<(), HostFault>;

    /// Flushes what was written.
    fn flush(&mut self) -> core::result::Result<(), HostFault>;
}

/// What to do next to get bytes, or a flush, to the host terminal.
#[derive(Debug, Clone, PartialEq, Eq)]
pub enum HostWriteStep {
    /// Try again at once.
    Again,
    /// Wait a moment, then try again.
    Wait,
    /// Nothing is left to do.
    Done,
    /// Give up.
    Failed(HostFault),
}

/// The time to wait before bytes that would block are tried again.
pub const WRITE_RETRY_NANOS: u128 = 1_000_000;

/// Bytes on their way to the host terminal.
#[derive(Debug, Clone, Copy, PartialEq, Eq, Structural)]
pub struct HostWrite {
    /// How many bytes there are.
    pub total: usize,
    /// How many of them were written.
    pub written: usize,
}

impl HostWrite {
    /// Whether no more was written than there is.
    pub open spec fn valid(self) -> bool {
        self.written <= self.total
    }

    /// Starts to write a number of bytes.
    pub fn new(total: usize) -> (write: Self)
        ensures
            write == (HostWrite { total, written: 0 }),
            write.valid(),
    {
        HostWrite { total, written: 0 }
    }

    /// Whether everything was written.
    pub fn is_done(&self) -> (done: bool)
        ensures
            done == (self.written == self.total),
    {
        self.written == self.total
    }

    /// Takes in what came of writing the bytes that are left.
    ///
    /// A write that would block or was interrupted is tried again after a
    /// moment. A write that takes nothing, and any other failure, is final. No
    /// more bytes count as written than were handed over.
    pub fn advance(&mut self, reply: core::result::Result<usize, WriteFault>) -> (step:
        HostWriteStep)
        requires
            old(self).valid(),
            old(self).written < old(self).total,
        ensures
            final(self).valid(),
            final(self).total == old(self).total,
            match reply {
                Ok(count) => if count == 0 {
                    &&& *final(self) == *old(self)
                    &&& step matches HostWriteStep::Failed(fault)
                    &&& fault.message@ == "failed to write attach bytes"@
                } else if count >= old(self).total - old(self).written {
                    final(self).written == old(self).total && step is Done
                } else {
                    final(self).written == old(self).written + count && step is Again
                },
                Err(error) => {
                    &&& *final(self) == *old(self)
                    &&& if error.transient {
                        step is Wait
                    } else {
                        step matches HostWriteStep::Failed(fault) && fault.message@
                            == error.message@
                    }
                },
            },
    {
        match reply {
            Ok(count) => {
                if count == 0 {
                    HostWriteStep::Failed(
                        HostFault { message: "failed to write attach bytes".to_owned() },
                    )
                } else if count >= self.total - self.written {
                    self.written = self.total;
                    HostWriteStep::Done
                } else {
                    self.written = self.written + count;
                    HostWriteStep::Again
                }
            },
            Err(error) => {
                if error.transient {
                    HostWriteStep::Wait
                } else {
                    HostWriteStep::Failed(HostFault { message: error.message })
                }
            },
        }
    }
}

/// What comes after a flush of the host terminal: one that would block or was
/// interrupted is tried again after a moment, any other failure is final.
pub fn flush_step(reply: core::result::Result<(), WriteFault>) -> (step: HostWriteStep)
    ensures
        match reply {
            Ok(_) => step is Done,
            Err(error) => if error.transient {
                step is Wait
            } else {
                step matches HostWriteStep::Failed(fault) && fault.message@ == error.message@
            },
        },
{
    match reply {
        Ok(_) => HostWriteStep::Done,
        Err(error) => {
            if error.transient {
                HostWriteStep::Wait
            } else {
                HostWriteStep::Failed(HostFault { message: error.message })
            }
        },
    }
}

/// Control sequences kept in memory.
#[derive(Debug, Clone, PartialEq, Eq)]
pub struct BufferSink {
    /// What was written.
    pub bytes: Vec<u8>,
}

impl TerminalSink for BufferSink {
    fn write_all(&mut self, bytes: &[u8]) -> (r: core::result::Result<(), HostFault>)
        ensures
            r is Ok,
            final(self).bytes@ == old(self).bytes@ + bytes@,
    {
        push_all(&mut self.bytes, bytes);
        Ok(())
    }

    fn flush(&mut self) -> (r: core::result::Result<(), HostFault>)
        ensures
            r is Ok,
            *final(self) == *old(self),
    {
        Ok(())
    }
}

/// The reply that an answer comes to.
pub open spec fn done(r: core::result::Result<(), HostFault>) -> HostReplyView {
    match r {
        Ok(_) => HostReplyView::Done,
        Err(fault) => HostReplyView::Failed(fault.message@),
    }
}

/// The reply that an answer about raw mode comes to.
pub open spec fn looked_up(r: core::result::Result<bool, HostFault>) -> HostReplyView {
    match r {
        Ok(on) => HostReplyView::RawMode(on),
        Err(fault) => HostReplyView::Failed(fault.message@),
    }
}

/// What is told of raw mode is what was found, or why nothing was.
pub proof fn law_raw_mode_is_told(r: core::result::Result<bool, HostFault>)
    ensures
        r matches Ok(on) ==> looked_up(r) == HostReplyView::RawMode(on),
        r matches Err(fault) ==> looked_up(r) == HostReplyView::Failed(fault.message@),
{
}

/// Raw-mode operations used by [`CrosstermTerminalControl`].
pub trait RawModeOps {
    /// Returns whether raw mode is already enabled.
    fn is_raw_mode_enabled(&self) -> core::result::Result<bool, HostFault>;

    /// Enables raw mode.
    fn enable_raw_mode(&self) -> core::result::Result<(), HostFault>;

    /// Disables raw mode.
    fn disable_raw_mode(&self) -> core::result::Result<(), HostFault>;
}

/// A request that a terminal control carried out, its reply, and what the sink
/// was before and after.
pub ghost struct ControlCall<W> {
    pub request: HostRequestView,
    pub reply: HostReplyView,
    pub before: W,
    pub after: W,
}

/// The replies of calls.
pub open spec fn control_replies<W>(calls: Seq<ControlCall<W>>) -> Seq<HostReplyView> {
    Seq::new(calls.len(), |i: int| calls[i].reply)
}

/// Whether calls took the sink from one state to another, each going on where
/// the one before it ended.
pub open spec fn control_calls<W>(calls: Seq<ControlCall<W>>, first: W, last: W) -> bool {
    if calls.len() == 0 {
        last == first
    } else {
        &&& calls.first().before == first
        &&& calls.last().after == last
        &&& forall|i: int|
            0 < i < calls.len() ==> (#[trigger] calls[i]).before == calls[i - 1].after
    }
}

/// Whether a call stands at a place of a row of calls.
pub open spec fn control_call_at<W>(
    calls: Seq<ControlCall<W>>,
    i: int,
    call: ControlCall<W>,
) -> bool {
    0 <= i < calls.len() && call == calls[i]
}

/// Whether these are the requests of a suspension: each is what it asks for
/// after the replies so far.
pub open spec fn suspends<W>(calls: Seq<ControlCall<W>>, first: SuspensionView) -> bool {
    forall|i: int|
        0 <= i < calls.len() ==> (#[trigger] calls[i]).request == first.after_all(
            control_replies(calls).take(i),
        ).request()
}

/// Whether these are the requests of a restoration.
pub open spec fn restores<W>(calls: Seq<ControlCall<W>>, first: RestorationView) -> bool {
    forall|i: int|
        0 <= i < calls.len() ==> (#[trigger] calls[i]).request == first.after_all(
            control_replies(calls).take(i),
        ).request()
}

proof fn lemma_control_calls<W>(
    calls: Seq<ControlCall<W>>,
    first: W,
    middle: W,
    call: ControlCall<W>,
)
    requires
        control_calls(calls, first, middle),
        call.before == middle,
    ensures
        control_calls(calls.push(call), first, call.after),
        control_replies(calls.push(call)) == control_replies(calls).push(call.reply),
        control_replies(calls).push(call.reply).drop_last() == control_replies(calls),
        forall|i: int|
            0 <= i <= calls.len() ==> #[trigger] control_replies(calls.push(call)).take(i)
                == control_replies(calls).take(i),
{
    let longer = calls.push(call);
    let replies = control_replies(calls);
    assert forall|i: int| 0 < i < longer.len() implies (#[trigger] longer[i]).before == longer[i
        - 1].after by {
        if i < calls.len() {
            assert(longer[i] == calls[i]);
        }
    }
    assert(control_replies(longer) =~= replies.push(call.reply));
    assert(replies.push(call.reply).drop_last() =~= replies);
    assert forall|i: int| 0 <= i <= calls.len() implies #[trigger] control_replies(longer).take(i)
        == replies.take(i) by {
        assert(control_replies(longer).take(i) =~= replies.take(i));
    }
}

/// Crossterm-backed host terminal suspend/restore helper.
///
/// This is a convenience implementation for simple crossterm hosts. It saves
/// and restores the terminal modes it manages, but it is not a replacement for
/// an embedding TUI's own terminal-mode stack.
#[derive(Debug, Clone)]
pub struct CrosstermTerminalControl<W, M> {
    writer: W,
    raw_mode_ops: M,
    host_uses_alternate_screen: bool,
}

impl<W: TerminalSink, M: RawModeOps> CrosstermTerminalControl<W, M> {
    /// Whether the host UI is already running in the alternate screen.
    pub closed spec fn host_alternate(self) -> bool {
        self.host_uses_alternate_screen
    }

    /// Where control sequences go.
    pub closed spec fn sink(self) -> W {
        self.writer
    }

    /// The raw-mode hooks.
    pub closed spec fn raw_mode(self) -> M {
        self.raw_mode_ops
    }

    /// Creates a crossterm terminal control with explicit raw-mode hooks.
    pub fn with_raw_mode_ops(writer: W, raw_mode_ops: M) -> (control: Self)
        ensures
            control.sink() == writer,
            control.raw_mode() == raw_mode_ops,
            !control.host_alternate(),
    {
        CrosstermTerminalControl { writer, raw_mode_ops, host_uses_alternate_screen: false }
    }

    /// Marks whether the host UI is already running in the alternate screen.
    pub fn with_host_alternate_screen(self, enabled: bool) -> (control: Self)
        ensures
            control.host_alternate() == enabled,
            control.sink() == self.sink(),
            control.raw_mode() == self.raw_mode(),
    {
        let mut control = self;
        control.host_uses_alternate_screen = enabled;
        control
    }

    /// Returns a reference to the underlying terminal writer.
    pub fn writer(&self) -> (writer: &W)
        ensures
            *writer == self.sink(),
    {
        &self.writer
    }

    /// Returns a mutable reference to the underlying terminal writer.
    pub fn writer_mut(&mut self) -> (writer: &mut W)
        ensures
            *writer == old(self).sink(),
            final(self).sink() == *final(writer),
            final(self).raw_mode() == old(self).raw_mode(),
            final(self).host_alternate() == old(self).host_alternate(),
    {
        &mut self.writer
    }

    fn did(r: core::result::Result<(), HostFault>) -> (reply: HostReply)
        ensures
            reply@ == done(r),
    {
        match r {
            Ok(_) => HostReply::Done,
            Err(fault) => HostReply::Failed(fault),
        }
    }

    /// Carries out a request: the sink or the raw-mode hooks are asked, and the
    /// reply is their answer.
    pub fn carry_out(&mut self, request: &HostRequest) -> (reply: HostReply)
        requires
            !(request@ is Finished),
        ensures
            final(self).host_alternate() == old(self).host_alternate(),
            final(self).raw_mode() == old(self).raw_mode(),
            host_answers(reply@, request@),
            request@ matches HostRequestView::Write(text) ==> exists|
                sink: &mut W,
                given: &[u8],
                r: core::result::Result<(), HostFault>,
            |
                #![trigger call_ensures(W::write_all, (sink, given), r)]
                {
                    &&& call_ensures(W::write_all, (sink, given), r)
                    &&& given@ == vstd::utf8::encode_utf8(text)
                    &&& *sink == old(self).sink()
                    &&& *final(sink) == final(self).sink()
                    &&& reply@ == done(r)
                },
            request@ is Flush ==> exists|sink: &mut W, r: core::result::Result<(), HostFault>|
                #![trigger call_ensures(W::flush, (sink,), r)]
                {
                    &&& call_ensures(W::flush, (sink,), r)
                    &&& *sink == old(self).sink()
                    &&& *final(sink) == final(self).sink()
                    &&& reply@ == done(r)
                },
            !(request@ is Write) && !(request@ is Flush) ==> final(self).sink() == old(
                self,
            ).sink(),
            request@ is ReadRawMode ==> exists|hooks: &M, r: core::result::Result<bool, HostFault>|
                #![trigger call_ensures(M::is_raw_mode_enabled, (hooks,), r)]
                call_ensures(M::is_raw_mode_enabled, (hooks,), r) && *hooks == old(self).raw_mode()
                    && reply@ == looked_up(r),
            request@ is EnableRawMode ==> exists|hooks: &M, r: core::result::Result<(), HostFault>|
                #![trigger call_ensures(M::enable_raw_mode, (hooks,), r)]
                call_ensures(M::enable_raw_mode, (hooks,), r) && *hooks == old(self).raw_mode()
                    && reply@ == done(r),
            request@ is DisableRawMode ==> exists|hooks: &M, r: core::result::Result<(), HostFault>|
                #![trigger call_ensures(M::disable_raw_mode, (hooks,), r)]
                call_ensures(M::disable_raw_mode, (hooks,), r) && *hooks == old(self).raw_mode()
                    && reply@ == done(r),
    {
        match request {
            HostRequest::Write(text) => Self::did(self.writer.write_all(text.as_str().as_bytes())),
            HostRequest::ReadRawMode => match self.raw_mode_ops.is_raw_mode_enabled() {
                Ok(on) => HostReply::RawMode(on),
                Err(fault) => HostReply::Failed(fault),
            },
            HostRequest::EnableRawMode => Self::did(self.raw_mode_ops.enable_raw_mode()),
            HostRequest::DisableRawMode => Self::did(self.raw_mode_ops.disable_raw_mode()),
            HostRequest::Flush | HostRequest::Finished => Self::did(self.writer.flush()),
        }
    }

    /// Suspends the terminal. If it cannot be, what was done is undone as far
    /// as possible.
    pub fn suspend(&mut self, policy: AttachScreenPolicy) -> (r: core::result::Result<
        TerminalRestoreToken,
        HostFault,
    >)
        ensures
            final(self).host_alternate() == old(self).host_alternate(),
            final(self).raw_mode() == old(self).raw_mode(),
            exists|calls: Seq<ControlCall<W>>|
                {
                    &&& #[trigger] control_calls(calls, old(self).sink(), final(self).sink())
                    &&& suspends(calls, SuspensionView::fresh(policy, old(self).host_alternate()))
                    &&& SuspensionView::fresh(policy, old(self).host_alternate()).after_all(
                        control_replies(calls),
                    ).gave(r)
                    &&& forall|i: int, c: ControlCall<W>| #[trigger]
                        control_call_at(calls, i, c) ==> exists|
                            control: &mut CrosstermTerminalControl<W, M>,
                            request: &HostRequest,
                            reply: HostReply,
                        |
                            #![trigger call_ensures(CrosstermTerminalControl::<W, M>::carry_out, (control, request), reply)]
                            {
                                &&& call_ensures(
                                    CrosstermTerminalControl::<W, M>::carry_out,
                                    (control, request),
                                    reply,
                                )
                                &&& c.request == request@
                                &&& c.reply == reply@
                                &&& c.before == (*control).sink()
                                &&& c.after == (*final(control)).sink()
                                &&& (*control).raw_mode() == old(self).raw_mode()
                            }
                },
    {
        let ghost alternate = self.host_alternate();
        let ghost first = SuspensionView::fresh(policy, alternate);
        let mut suspension = Suspension::new(policy, self.host_uses_alternate_screen);
        let ghost mut calls = Seq::<ControlCall<W>>::empty();
        proof {
            assert(control_replies(calls) =~= Seq::empty());
        }
        while !suspension.is_over()
            invariant
                self.host_alternate() == alternate,
                self.raw_mode() == old(self).raw_mode(),
                suspension@ == first.after_all(control_replies(calls)),
                control_calls(calls, old(self).sink(), self.sink()),
                suspends(calls, first),
                forall|i: int, c: ControlCall<W>| #[trigger]
                    control_call_at(calls, i, c) ==> exists|
                        control: &mut CrosstermTerminalControl<W, M>,
                        request: &HostRequest,
                        reply: HostReply,
                    |
                        #![trigger call_ensures(CrosstermTerminalControl::<W, M>::carry_out, (control, request), reply)]
                        {
                            &&& call_ensures(
                                CrosstermTerminalControl::<W, M>::carry_out,
                                (control, request),
                                reply,
                            )
                            &&& c.request == request@
                            &&& c.reply == reply@
                            &&& c.before == (*control).sink()
                            &&& c.after == (*final(control)).sink()
                            &&& (*control).raw_mode() == old(self).raw_mode()
                        },
            decreases suspension@.left(),
        {
            let ghost prior = calls;
            let ghost sink = self.sink();
            let request = suspension.request();
            let reply = self.carry_out(&request);
            proof {
                law_suspension_ends(suspension@, reply@);
                let call = ControlCall {
                    request: request@,
                    reply: reply@,
                    before: sink,
                    after: self.sink(),
                };
                lemma_control_calls(prior, old(self).sink(), sink, call);
                calls = prior.push(call);
                assert(control_replies(prior).take(prior.len() as int) =~= control_replies(prior));
                assert forall|i: int| 0 <= i < calls.len() implies (#[trigger] calls[i]).request
                    == first.after_all(control_replies(calls).take(i)).request() by {
                    if i < prior.len() {
                        assert(calls[i] == prior[i]);
                    }
                }
                assert forall|i: int, c: ControlCall<W>| #[trigger]
                    control_call_at(calls, i, c) implies exists|
                            control: &mut CrosstermTerminalControl<W, M>,
                            request: &HostRequest,
                            reply: HostReply,
                        |
                            #![trigger call_ensures(CrosstermTerminalControl::<W, M>::carry_out, (control, request), reply)]
                            {
                                &&& call_ensures(
                                    CrosstermTerminalControl::<W, M>::carry_out,
                                    (control, request),
                                    reply,
                                )
                                &&& c.request == request@
                                &&& c.reply == reply@
                                &&& c.before == (*control).sink()
                                &&& c.after == (*final(control)).sink()
                                &&& (*control).raw_mode() == old(self).raw_mode()
                            } by {
                    if i < prior.len() {
                        assert(control_call_at(prior, i, c));
                    } else {
                        assert(c == call);
                    }
                }
            }
            suspension.advance(reply);
        }
        assert(control_calls(calls, old(self).sink(), self.sink()));
        suspension.into_result()
    }

    /// Restores the terminal and consumes the token. A token whose restoration
    /// fails stays as it is.
    pub fn restore(&mut self, token: &mut TerminalRestoreToken) -> (r: core::result::Result<
        (),
        HostFault,
    >)
        ensures
            final(self).host_alternate() == old(self).host_alternate(),
            r is Ok ==> final(token)@ == (TokenView { consumed: true, ..old(token)@ }),
            r is Err ==> *final(token) == *old(token),
            final(self).raw_mode() == old(self).raw_mode(),
            exists|calls: Seq<ControlCall<W>>|
                {
                    &&& #[trigger] control_calls(calls, old(self).sink(), final(self).sink())
                    &&& restores(calls, RestorationView::fresh(old(token)@))
                    &&& RestorationView::fresh(old(token)@).after_all(
                        control_replies(calls),
                    ).gave(r)
                    &&& forall|i: int, c: ControlCall<W>| #[trigger]
                        control_call_at(calls, i, c) ==> exists|
                            control: &mut CrosstermTerminalControl<W, M>,
                            request: &HostRequest,
                            reply: HostReply,
                        |
                            #![trigger call_ensures(CrosstermTerminalControl::<W, M>::carry_out, (control, request), reply)]
                            {
                                &&& call_ensures(
                                    CrosstermTerminalControl::<W, M>::carry_out,
                                    (control, request),
                                    reply,
                                )
                                &&& c.request == request@
                                &&& c.reply == reply@
                                &&& c.before == (*control).sink()
                                &&& c.after == (*final(control)).sink()
                                &&& (*control).raw_mode() == old(self).raw_mode()
                            }
                },
    {
        let ghost alternate = self.host_alternate();
        let ghost first = RestorationView::fresh(token@);
        let mut restoration = Restoration::new(token);
        let ghost mut calls = Seq::<ControlCall<W>>::empty();
        proof {
            assert(control_replies(calls) =~= Seq::empty());
        }
        while !restoration.is_over()
            invariant
                self.host_alternate() == alternate,
                self.raw_mode() == old(self).raw_mode(),
                restoration@ == first.after_all(control_replies(calls)),
                control_calls(calls, old(self).sink(), self.sink()),
                restores(calls, first),
                forall|i: int, c: ControlCall<W>| #[trigger]
                    control_call_at(calls, i, c) ==> exists|
                        control: &mut CrosstermTerminalControl<W, M>,
                        request: &HostRequest,
                        reply: HostReply,
                    |
                        #![trigger call_ensures(CrosstermTerminalControl::<W, M>::carry_out, (control, request), reply)]
                        {
                            &&& call_ensures(
                                CrosstermTerminalControl::<W, M>::carry_out,
                                (control, request),
                                reply,
                            )
                            &&& c.request == request@
                            &&& c.reply == reply@
                            &&& c.before == (*control).sink()
                            &&& c.after == (*final(control)).sink()
                            &&& (*control).raw_mode() == old(self).raw_mode()
                        },
            decreases restoration@.left(),
        {
            let ghost prior = calls;
            let ghost sink = self.sink();
            let request = restoration.request();
            let reply = self.carry_out(&request);
            proof {
                law_restoration_ends(restoration@, reply@);
                let call = ControlCall {
                    request: request@,
                    reply: reply@,
                    before: sink,
                    after: self.sink(),
                };
                lemma_control_calls(prior, old(self).sink(), sink, call);
                calls = prior.push(call);
                assert(control_replies(prior).take(prior.len() as int) =~= control_replies(prior));
                assert forall|i: int| 0 <= i < calls.len() implies (#[trigger] calls[i]).request
                    == first.after_all(control_replies(calls).take(i)).request() by {
                    if i < prior.len() {
                        assert(calls[i] == prior[i]);
                    }
                }
                assert forall|i: int, c: ControlCall<W>| #[trigger]
                    control_call_at(calls, i, c) implies exists|
                            control: &mut CrosstermTerminalControl<W, M>,
                            request: &HostRequest,
                            reply: HostReply,
                        |
                            #![trigger call_ensures(CrosstermTerminalControl::<W, M>::carry_out, (control, request), reply)]
                            {
                                &&& call_ensures(
                                    CrosstermTerminalControl::<W, M>::carry_out,
                                    (control, request),
                                    reply,
                                )
                                &&& c.request == request@
                                &&& c.reply == reply@
                                &&& c.before == (*control).sink()
                                &&& c.after == (*final(control)).sink()
                                &&& (*control).raw_mode() == old(self).raw_mode()
                            } by {
                    if i < prior.len() {
                        assert(control_call_at(prior, i, c));
                    } else {
                        assert(c == call);
                    }
                }
            }
            restoration.advance(reply);
        }
        assert(control_calls(calls, old(self).sink(), self.sink()));
        let r = restoration.into_result();
        if r.is_ok() {
            token.consume();
        }
        r
    }
}

impl<W: TerminalSink, M: RawModeOps> HostTerminalControl for CrosstermTerminalControl<W, M> {
    type Error = HostFault;

    fn suspend_for_attach(&mut self, policy: AttachScreenPolicy) -> (r: core::result::Result<
        TerminalRestoreToken,
        HostFault,
    >)
        ensures
            exists|control: &mut CrosstermTerminalControl<W, M>|
                #![trigger call_ensures(CrosstermTerminalControl::<W, M>::suspend, (control, policy), r)]
                {
                    &&& call_ensures(
                        CrosstermTerminalControl::<W, M>::suspend,
                        (control, policy),
                        r,
                    )
                    &&& *control == *old(self)
                    &&& *final(control) == *final(self)
                },
    {
        self.suspend(policy)
    }

    fn restore_after_attach(&mut self, token: &mut TerminalRestoreToken) -> (r:
        core::result::Result<(), HostFault>)
        ensures
            exists|
                control: &mut CrosstermTerminalControl<W, M>,
                given: &mut TerminalRestoreToken,
            |
                #![trigger call_ensures(CrosstermTerminalControl::<W, M>::restore, (control, given), r)]
                {
                    &&& call_ensures(
                        CrosstermTerminalControl::<W, M>::restore,
                        (control, given),
                        r,
                    )
                    &&& *control == *old(self)
                    &&& *final(control) == *final(self)
                    &&& *given == *old(token)
                    &&& *final(given) == *final(token)
                },
    {
        self.restore(token)
    }
}

} // verus!

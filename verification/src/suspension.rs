//! Suspending and restoring the host terminal, one request at a time.
//!
//! Both are rows of requests and replies: the terminal carries a request out,
//! and what came of it decides on the next one.

use vstd::prelude::*;

use crate::attach::{TerminalRestoreToken, TokenView};
use crate::crossterm_host::{
    plan_restore, plan_suspend, restore_text, suspend_text, suspended, HostFault,
};
use crate::event::AttachScreenPolicy;

verus! {

/// What is asked of the host terminal.
#[derive(Debug, PartialEq, Eq)]
pub enum HostRequest {
    /// To flush what was written.
    Flush,
    /// Whether raw mode is on.
    ReadRawMode,
    /// To turn raw mode on.
    EnableRawMode,
    /// To turn raw mode off.
    DisableRawMode,
    /// To write a text.
    Write(String),
    /// Nothing: it is over.
    Finished,
}

/// What is asked of the host terminal, with plain texts.
pub ghost enum HostRequestView {
    Flush,
    ReadRawMode,
    EnableRawMode,
    DisableRawMode,
    Write(Seq<char>),
    Finished,
}

impl View for HostRequest {
    type V = HostRequestView;

    open spec fn view(&self) -> HostRequestView {
        match self {
            HostRequest::Flush => HostRequestView::Flush,
            HostRequest::ReadRawMode => HostRequestView::ReadRawMode,
            HostRequest::EnableRawMode => HostRequestView::EnableRawMode,
            HostRequest::DisableRawMode => HostRequestView::DisableRawMode,
            HostRequest::Write(text) => HostRequestView::Write(text@),
            HostRequest::Finished => HostRequestView::Finished,
        }
    }
}

/// What came of a request.
#[derive(Debug, Clone, PartialEq, Eq)]
pub enum HostReply {
    /// It was carried out.
    Done,
    /// Whether raw mode is on.
    RawMode(bool),
    /// It failed.
    Failed(HostFault),
}

/// What came of a request, with plain texts.
pub ghost enum HostReplyView {
    Done,
    RawMode(bool),
    Failed(Seq<char>),
}

impl View for HostReply {
    type V = HostReplyView;

    open spec fn view(&self) -> HostReplyView {
        match self {
            HostReply::Done => HostReplyView::Done,
            HostReply::RawMode(on) => HostReplyView::RawMode(*on),
            HostReply::Failed(fault) => HostReplyView::Failed(fault.message@),
        }
    }
}

/// Whether a reply is one to a request.
pub open spec fn host_answers(reply: HostReplyView, request: HostRequestView) -> bool {
    match reply {
        HostReplyView::Done => !(request is ReadRawMode) && !(request is Finished),
        HostReplyView::RawMode(_) => request is ReadRawMode,
        HostReplyView::Failed(_) => !(request is Finished),
    }
}

/// How far a suspension has come.
#[derive(Debug, Clone, Copy, PartialEq, Eq, Structural)]
pub enum SuspendStage {
    /// What the host has written is flushed.
    Flushing,
    /// Raw mode is looked up.
    Asking,
    /// Raw mode is turned on.
    Enabling,
    /// The control sequences are written.
    Writing,
    /// The control sequences are flushed.
    Settling,
    /// What was written is undone.
    Undoing,
    /// What undoes it is flushed.
    UndoSettling,
    /// Raw mode is turned off again.
    UndoRawMode,
    /// The terminal could not be suspended.
    Failed,
    /// The terminal is suspended.
    Suspended,
}

/// A suspension of the host terminal as plain values.
pub ghost struct SuspensionView {
    pub policy: AttachScreenPolicy,
    pub alternate: bool,
    pub stage: SuspendStage,
    pub raw_mode: bool,
    pub fault: Seq<char>,
}

impl SuspensionView {
    /// A suspension to be started, on a host that is or is not in its alternate
    /// screen.
    pub open spec fn fresh(policy: AttachScreenPolicy, alternate: bool) -> SuspensionView {
        SuspensionView {
            policy,
            alternate,
            stage: SuspendStage::Flushing,
            raw_mode: false,
            fault: seq![],
        }
    }

    /// Whether it is over.
    pub open spec fn over(self) -> bool {
        self.stage == SuspendStage::Failed || self.stage == SuspendStage::Suspended
    }

    /// The token that remembers what was done.
    pub open spec fn token(self) -> TokenView {
        suspended(self.policy, self.raw_mode, self.alternate)
    }

    /// What is asked next.
    pub open spec fn request(self) -> HostRequestView {
        match self.stage {
            SuspendStage::Flushing => HostRequestView::Flush,
            SuspendStage::Asking => HostRequestView::ReadRawMode,
            SuspendStage::Enabling => HostRequestView::EnableRawMode,
            SuspendStage::Writing => HostRequestView::Write(
                suspend_text(self.policy, self.alternate),
            ),
            SuspendStage::Settling => HostRequestView::Flush,
            SuspendStage::Undoing => HostRequestView::Write(restore_text(self.token())),
            SuspendStage::UndoSettling => HostRequestView::Flush,
            SuspendStage::UndoRawMode => HostRequestView::DisableRawMode,
            SuspendStage::Failed => HostRequestView::Finished,
            SuspendStage::Suspended => HostRequestView::Finished,
        }
    }

    /// The suspension in another stage.
    pub open spec fn at(self, stage: SuspendStage) -> SuspensionView {
        SuspensionView { stage, ..self }
    }

    /// The suspension after a failure, in another stage.
    pub open spec fn failing(self, fault: Seq<char>, stage: SuspendStage) -> SuspensionView {
        SuspensionView { stage, fault, ..self }
    }

    /// The suspension after a reply. A failure before anything was written ends
    /// it. A later one is undone first, as far as the terminal lets it be: what
    /// was written, and raw mode where it was off before.
    pub open spec fn after(self, reply: HostReplyView) -> SuspensionView {
        match (self.stage, reply) {
            (SuspendStage::Flushing, HostReplyView::Failed(m)) => self.failing(
                m,
                SuspendStage::Failed,
            ),
            (SuspendStage::Flushing, _) => self.at(SuspendStage::Asking),
            (SuspendStage::Asking, HostReplyView::Failed(m)) => self.failing(
                m,
                SuspendStage::Failed,
            ),
            (SuspendStage::Asking, HostReplyView::RawMode(true)) => SuspensionView {
                raw_mode: true,
                stage: SuspendStage::Writing,
                ..self
            },
            (SuspendStage::Asking, _) => self.at(SuspendStage::Enabling),
            (SuspendStage::Enabling, HostReplyView::Failed(m)) => self.failing(
                m,
                SuspendStage::Failed,
            ),
            (SuspendStage::Enabling, _) => self.at(SuspendStage::Writing),
            (SuspendStage::Writing, HostReplyView::Failed(m)) => self.failing(
                m,
                SuspendStage::Undoing,
            ),
            (SuspendStage::Writing, _) => self.at(SuspendStage::Settling),
            (SuspendStage::Settling, HostReplyView::Failed(m)) => self.failing(
                m,
                SuspendStage::Undoing,
            ),
            (SuspendStage::Settling, _) => self.at(SuspendStage::Suspended),
            (SuspendStage::Undoing, _) => self.at(SuspendStage::UndoSettling),
            (SuspendStage::UndoSettling, _) => self.at(
                if self.raw_mode {
                    SuspendStage::Failed
                } else {
                    SuspendStage::UndoRawMode
                },
            ),
            (SuspendStage::UndoRawMode, _) => self.at(SuspendStage::Failed),
            (SuspendStage::Failed, _) => self,
            (SuspendStage::Suspended, _) => self,
        }
    }

    /// The suspension after a row of replies.
    pub open spec fn after_all(self, replies: Seq<HostReplyView>) -> SuspensionView
        decreases replies.len(),
    {
        if replies.len() == 0 {
            self
        } else {
            self.after_all(replies.drop_last()).after(replies.last())
        }
    }

    /// The requests that are left at most.
    pub open spec fn left(self) -> nat {
        match self.stage {
            SuspendStage::Flushing => 8,
            SuspendStage::Asking => 7,
            SuspendStage::Enabling => 6,
            SuspendStage::Writing => 5,
            SuspendStage::Settling => 4,
            SuspendStage::Undoing => 3,
            SuspendStage::UndoSettling => 2,
            SuspendStage::UndoRawMode => 1,
            SuspendStage::Failed => 0,
            SuspendStage::Suspended => 0,
        }
    }

    /// Whether a result is the one that the suspension came to.
    pub open spec fn gave(
        self,
        r: core::result::Result<TerminalRestoreToken, HostFault>,
    ) -> bool {
        match r {
            Ok(token) => self.stage == SuspendStage::Suspended && token@ == self.token(),
            Err(fault) => self.stage == SuspendStage::Failed && fault.message@ == self.fault,
        }
    }
}

/// A suspension comes to an end: each reply brings it closer, whatever the
/// reply says, and it is over once no request is left.
pub proof fn law_suspension_ends(suspension: SuspensionView, reply: HostReplyView)
    requires
        !suspension.over(),
    ensures
        suspension.after(reply).left() < suspension.left(),
        suspension.after(reply).left() == 0 <==> suspension.after(reply).over(),
{
}

/// A suspension succeeds only if every request was carried out: no reply on the
/// way was a failure.
pub proof fn law_suspension_needs_every_request(
    suspension: SuspensionView,
    replies: Seq<HostReplyView>,
)
    requires
        suspension.stage == SuspendStage::Flushing,
        suspension.after_all(replies).stage == SuspendStage::Suspended,
        forall|i: int|
            0 <= i < replies.len() ==> !(#[trigger] suspension.after_all(replies.take(i)).over()),
    ensures
        forall|i: int| 0 <= i < replies.len() ==> !(#[trigger] replies[i] is Failed),
{
    lemma_on_course(suspension, replies);
}

/// The course of a suspension: what the host wrote is flushed, raw mode is
/// looked up and turned on where it is off, and what suspends the terminal is
/// written and flushed. Then the terminal is suspended, and the token remembers
/// whether raw mode was on.
pub proof fn law_suspension_course(policy: AttachScreenPolicy, alternate: bool, raw: bool)
    ensures
        ({
            let done = HostReplyView::Done;
            let asking = SuspensionView::fresh(policy, alternate).after(done);
            let told = asking.after(HostReplyView::RawMode(raw));
            let writing = if raw {
                told
            } else {
                told.after(done)
            };
            let settling = writing.after(done);
            let end = settling.after(done);
            &&& SuspensionView::fresh(policy, alternate).request() is Flush
            &&& asking.request() is ReadRawMode
            &&& !raw ==> told.request() is EnableRawMode
            &&& writing.request() == HostRequestView::Write(suspend_text(policy, alternate))
            &&& settling.request() is Flush
            &&& end.request() is Finished
            &&& end.stage == SuspendStage::Suspended
            &&& end.token() == suspended(policy, raw, alternate)
        }),
{
}

/// A suspension that fails puts the terminal back: before anything is written
/// there is nothing to undo, later what was written is undone and flushed, and
/// raw mode is turned off again where it was off before. Whatever becomes of
/// that, the suspension fails with what it first failed of.
pub proof fn law_failed_suspensions_are_undone(
    suspension: SuspensionView,
    message: Seq<char>,
    first: HostReplyView,
    second: HostReplyView,
    third: HostReplyView,
)
    requires
        suspension.stage == SuspendStage::Flushing || suspension.stage == SuspendStage::Asking
            || suspension.stage == SuspendStage::Enabling || suspension.stage
            == SuspendStage::Writing || suspension.stage == SuspendStage::Settling,
    ensures
        ({
            let failed = suspension.after(HostReplyView::Failed(message));
            let written = suspension.stage == SuspendStage::Writing || suspension.stage
                == SuspendStage::Settling;
            let undone = failed.after(first);
            let flushed = undone.after(second);
            let end = if suspension.raw_mode {
                flushed
            } else {
                flushed.after(third)
            };
            &&& !written ==> failed.stage == SuspendStage::Failed && failed.fault == message
            &&& written ==> {
                &&& failed.request() == HostRequestView::Write(
                    restore_text(
                        suspended(suspension.policy, suspension.raw_mode, suspension.alternate),
                    ),
                )
                &&& undone.request() is Flush
                &&& !suspension.raw_mode ==> flushed.request() is DisableRawMode
                &&& end.stage == SuspendStage::Failed
                &&& end.fault == message
            }
        }),
{
}

/// Whether nothing has failed yet.
pub open spec fn on_course(stage: SuspendStage) -> bool {
    match stage {
        SuspendStage::Flushing | SuspendStage::Asking | SuspendStage::Enabling
        | SuspendStage::Writing | SuspendStage::Settling | SuspendStage::Suspended => true,
        _ => false,
    }
}

proof fn lemma_on_course(suspension: SuspensionView, replies: Seq<HostReplyView>)
    requires
        suspension.stage == SuspendStage::Flushing,
        on_course(suspension.after_all(replies).stage),
        forall|i: int|
            0 <= i < replies.len() ==> !(#[trigger] suspension.after_all(replies.take(i)).over()),
    ensures
        forall|i: int| 0 <= i < replies.len() ==> !(#[trigger] replies[i] is Failed),
    decreases replies.len(),
{
    if replies.len() > 0 {
        let fewer = replies.drop_last();
        assert(fewer =~= replies.take(replies.len() - 1));
        assert(!suspension.after_all(replies.take(replies.len() - 1)).over());
        assert forall|i: int| 0 <= i < fewer.len() implies !(#[trigger] suspension.after_all(
            fewer.take(i),
        ).over()) by {
            assert(fewer.take(i) =~= replies.take(i));
        }
        lemma_on_course(suspension, fewer);
        assert forall|i: int| 0 <= i < replies.len() implies !(#[trigger] replies[i] is Failed) by {
            if i < fewer.len() {
                assert(replies[i] == fewer[i]);
            }
        }
    }
}

/// A suspension of the host terminal.
#[derive(Debug, PartialEq, Eq)]
pub struct Suspension {
    policy: AttachScreenPolicy,
    host_alternate: bool,
    stage: SuspendStage,
    raw_mode_was_enabled: bool,
    fault: String,
}

impl View for Suspension {
    type V = SuspensionView;

    closed spec fn view(&self) -> SuspensionView {
        SuspensionView {
            policy: self.policy,
            alternate: self.host_alternate,
            stage: self.stage,
            raw_mode: self.raw_mode_was_enabled,
            fault: self.fault@,
        }
    }
}

impl Suspension {
    /// A suspension to be started.
    pub fn new(policy: AttachScreenPolicy, host_alternate: bool) -> (suspension: Self)
        ensures
            suspension@ == SuspensionView::fresh(policy, host_alternate),
    {
        let fault = String::new();
        assert(fault@ =~= seq![]);
        Suspension {
            policy,
            host_alternate,
            stage: SuspendStage::Flushing,
            raw_mode_was_enabled: false,
            fault,
        }
    }

    /// Whether it is over.
    pub fn is_over(&self) -> (over: bool)
        ensures
            over == self@.over(),
    {
        self.stage == SuspendStage::Failed || self.stage == SuspendStage::Suspended
    }

    /// What is asked next.
    pub fn request(&self) -> (request: HostRequest)
        ensures
            request@ == self@.request(),
    {
        match self.stage {
            SuspendStage::Flushing | SuspendStage::Settling | SuspendStage::UndoSettling => {
                HostRequest::Flush
            },
            SuspendStage::Asking => HostRequest::ReadRawMode,
            SuspendStage::Enabling => HostRequest::EnableRawMode,
            SuspendStage::Writing => {
                let (text, _) = plan_suspend(
                    self.policy,
                    self.raw_mode_was_enabled,
                    self.host_alternate,
                );
                HostRequest::Write(text)
            },
            SuspendStage::Undoing => {
                let (_, token) = plan_suspend(
                    self.policy,
                    self.raw_mode_was_enabled,
                    self.host_alternate,
                );
                HostRequest::Write(plan_restore(&token))
            },
            SuspendStage::UndoRawMode => HostRequest::DisableRawMode,
            SuspendStage::Failed | SuspendStage::Suspended => HostRequest::Finished,
        }
    }

    /// Goes on with what came of the last request.
    pub fn advance(&mut self, reply: HostReply)
        ensures
            final(self)@ == old(self)@.after(reply@),
    {
        match (self.stage, reply) {
            (SuspendStage::Flushing, HostReply::Failed(fault))
            | (SuspendStage::Asking, HostReply::Failed(fault))
            | (SuspendStage::Enabling, HostReply::Failed(fault)) => {
                self.fault = fault.message;
                self.stage = SuspendStage::Failed;
            },
            (SuspendStage::Writing, HostReply::Failed(fault))
            | (SuspendStage::Settling, HostReply::Failed(fault)) => {
                self.fault = fault.message;
                self.stage = SuspendStage::Undoing;
            },
            (SuspendStage::Asking, HostReply::RawMode(on)) => {
                if on {
                    self.raw_mode_was_enabled = true;
                    self.stage = SuspendStage::Writing;
                } else {
                    self.stage = SuspendStage::Enabling;
                }
            },
            (SuspendStage::Flushing, _) => {
                self.stage = SuspendStage::Asking;
            },
            (SuspendStage::Asking, _) => {
                self.stage = SuspendStage::Enabling;
            },
            (SuspendStage::Enabling, _) => {
                self.stage = SuspendStage::Writing;
            },
            (SuspendStage::Writing, _) => {
                self.stage = SuspendStage::Settling;
            },
            (SuspendStage::Settling, _) => {
                self.stage = SuspendStage::Suspended;
            },
            (SuspendStage::Undoing, _) => {
                self.stage = SuspendStage::UndoSettling;
            },
            (SuspendStage::UndoSettling, _) => {
                if self.raw_mode_was_enabled {
                    self.stage = SuspendStage::Failed;
                } else {
                    self.stage = SuspendStage::UndoRawMode;
                }
            },
            (SuspendStage::UndoRawMode, _) => {
                self.stage = SuspendStage::Failed;
            },
            (SuspendStage::Failed, _) | (SuspendStage::Suspended, _) => {},
        }
    }

    /// The token of the suspended terminal, or why it could not be suspended.
    pub fn into_result(self) -> (r: core::result::Result<TerminalRestoreToken, HostFault>)
        requires
            self@.over(),
        ensures
            self@.gave(r),
    {
        if self.stage == SuspendStage::Suspended {
            let (_, token) = plan_suspend(
                self.policy,
                self.raw_mode_was_enabled,
                self.host_alternate,
            );
            Ok(token)
        } else {
            Err(HostFault { message: self.fault })
        }
    }
}

/// How far a restoration has come.
#[derive(Debug, Clone, Copy, PartialEq, Eq, Structural)]
pub enum RestoreStage {
    /// The control sequences are written.
    Writing,
    /// The control sequences are flushed.
    Settling,
    /// Raw mode is turned off.
    Disabling,
    /// The terminal could not be restored.
    Failed,
    /// The terminal is restored.
    Restored,
}

/// A restoration of the host terminal as plain values.
pub ghost struct RestorationView {
    pub text: Seq<char>,
    pub raw_mode: bool,
    pub stage: RestoreStage,
    pub fault: Seq<char>,
}

impl RestorationView {
    /// A restoration to be started.
    pub open spec fn fresh(token: TokenView) -> RestorationView {
        RestorationView {
            text: restore_text(token),
            raw_mode: token.raw_mode_was_enabled,
            stage: RestoreStage::Writing,
            fault: seq![],
        }
    }

    /// Whether it is over.
    pub open spec fn over(self) -> bool {
        self.stage == RestoreStage::Failed || self.stage == RestoreStage::Restored
    }

    /// What is asked next.
    pub open spec fn request(self) -> HostRequestView {
        match self.stage {
            RestoreStage::Writing => HostRequestView::Write(self.text),
            RestoreStage::Settling => HostRequestView::Flush,
            RestoreStage::Disabling => HostRequestView::DisableRawMode,
            RestoreStage::Failed => HostRequestView::Finished,
            RestoreStage::Restored => HostRequestView::Finished,
        }
    }

    /// The restoration after a reply. Any failure ends it; raw mode is turned
    /// off where it was off before the suspension.
    pub open spec fn after(self, reply: HostReplyView) -> RestorationView {
        if self.over() {
            self
        } else if let HostReplyView::Failed(fault) = reply {
            RestorationView { stage: RestoreStage::Failed, fault, ..self }
        } else {
            RestorationView {
                stage: match self.stage {
                    RestoreStage::Writing => RestoreStage::Settling,
                    RestoreStage::Settling => if self.raw_mode {
                        RestoreStage::Restored
                    } else {
                        RestoreStage::Disabling
                    },
                    _ => RestoreStage::Restored,
                },
                ..self
            }
        }
    }

    /// The restoration after a row of replies.
    pub open spec fn after_all(self, replies: Seq<HostReplyView>) -> RestorationView
        decreases replies.len(),
    {
        if replies.len() == 0 {
            self
        } else {
            self.after_all(replies.drop_last()).after(replies.last())
        }
    }

    /// The requests that are left at most.
    pub open spec fn left(self) -> nat {
        match self.stage {
            RestoreStage::Writing => 3,
            RestoreStage::Settling => 2,
            RestoreStage::Disabling => 1,
            RestoreStage::Failed => 0,
            RestoreStage::Restored => 0,
        }
    }

    /// Whether a result is the one that the restoration came to.
    pub open spec fn gave(self, r: core::result::Result<(), HostFault>) -> bool {
        match r {
            Ok(_) => self.stage == RestoreStage::Restored,
            Err(fault) => self.stage == RestoreStage::Failed && fault.message@ == self.fault,
        }
    }
}

/// A restoration comes to an end: each reply brings it closer, whatever the
/// reply says, and it is over once no request is left.
pub proof fn law_restoration_ends(restoration: RestorationView, reply: HostReplyView)
    requires
        !restoration.over(),
    ensures
        restoration.after(reply).left() < restoration.left(),
        restoration.after(reply).left() == 0 <==> restoration.after(reply).over(),
{
}

/// The course of a restoration: what undoes the suspension is written and
/// flushed, and raw mode is turned off where it was off before. A failure on the
/// way ends it and is what it ends with.
pub proof fn law_restoration_course(token: TokenView, message: Seq<char>)
    ensures
        ({
            let done = HostReplyView::Done;
            let writing = RestorationView::fresh(token);
            let settling = writing.after(done);
            let flushed = settling.after(done);
            let end = if token.raw_mode_was_enabled {
                flushed
            } else {
                flushed.after(done)
            };
            let failed = HostReplyView::Failed(message);
            &&& writing.request() == HostRequestView::Write(restore_text(token))
            &&& settling.request() is Flush
            &&& !token.raw_mode_was_enabled ==> flushed.request() is DisableRawMode
            &&& end.stage == RestoreStage::Restored
            &&& end.request() is Finished
            &&& writing.after(failed).stage == RestoreStage::Failed
            &&& settling.after(failed).stage == RestoreStage::Failed
            &&& !token.raw_mode_was_enabled ==> flushed.after(failed).stage == RestoreStage::Failed
            &&& writing.after(failed).fault == message
            &&& settling.after(failed).fault == message
        }),
{
}

/// A restoration of the host terminal.
#[derive(Debug, PartialEq, Eq)]
pub struct Restoration {
    text: String,
    raw_mode_was_enabled: bool,
    stage: RestoreStage,
    fault: String,
}

impl View for Restoration {
    type V = RestorationView;

    closed spec fn view(&self) -> RestorationView {
        RestorationView {
            text: self.text@,
            raw_mode: self.raw_mode_was_enabled,
            stage: self.stage,
            fault: self.fault@,
        }
    }
}

impl Restoration {
    /// A restoration to be started.
    pub fn new(token: &TerminalRestoreToken) -> (restoration: Self)
        ensures
            restoration@ == RestorationView::fresh(token@),
    {
        let fault = String::new();
        assert(fault@ =~= seq![]);
        Restoration {
            text: plan_restore(token),
            raw_mode_was_enabled: token.raw_mode_was_enabled(),
            stage: RestoreStage::Writing,
            fault,
        }
    }

    /// Whether it is over.
    pub fn is_over(&self) -> (over: bool)
        ensures
            over == self@.over(),
    {
        self.stage == RestoreStage::Failed || self.stage == RestoreStage::Restored
    }

    /// What is asked next.
    pub fn request(&self) -> (request: HostRequest)
        ensures
            request@ == self@.request(),
    {
        match self.stage {
            RestoreStage::Writing => HostRequest::Write(self.text.clone()),
            RestoreStage::Settling => HostRequest::Flush,
            RestoreStage::Disabling => HostRequest::DisableRawMode,
            RestoreStage::Failed | RestoreStage::Restored => HostRequest::Finished,
        }
    }

    /// Goes on with what came of the last request.
    pub fn advance(&mut self, reply: HostReply)
        ensures
            final(self)@ == old(self)@.after(reply@),
    {
        if self.is_over() {
            return ;
        }
        if let HostReply::Failed(fault) = reply {
            self.fault = fault.message;
            self.stage = RestoreStage::Failed;
            return ;
        }
        self.stage = match self.stage {
            RestoreStage::Writing => RestoreStage::Settling,
            RestoreStage::Settling => if self.raw_mode_was_enabled {
                RestoreStage::Restored
            } else {
                RestoreStage::Disabling
            },
            _ => RestoreStage::Restored,
        };
    }

    /// Whether the terminal is restored, or why not.
    pub fn into_result(self) -> (r: core::result::Result<(), HostFault>)
        requires
            self@.over(),
        ensures
            self@.gave(r),
    {
        if self.stage == RestoreStage::Restored {
            Ok(())
        } else {
            Err(HostFault { message: self.fault })
        }
    }
}

} // verus!

//! Manager that owns panes, takes in their output and publishes their events.

use std::collections::VecDeque;
use std::sync::mpsc::{Receiver, Sender};

use vstd::prelude::*;

use crate::encoder::{input_bytes, input_fits, XtermEncoder};
use crate::error::{error_of, ErrorView, PaneError, Result};
use crate::event::{
    entries, goes_on, lemma_reports_more, lemma_reports_other, reports, EventEntry, InputKind,
    PaneEvent,
};
use crate::input::HostInput;
use crate::input_plan::{classify_input_kind, input_kind};
use crate::manager_config::{ConfigView, EventSink, Listener, ManagerSink, PaneManagerConfig};
use crate::mode_overlay::merged;
use crate::output_flow::{fed_output, law_output_is_taken_in_once, received_output, transcribes};
use crate::pane::{KillReason, PaneId, Size, TerminalModes};
use crate::pane_core::{CoreView, FeedView};
use crate::pane_runtime::{
    absorbed, absorbed_to, absorbs, kills, law_absorbed, pane_sends, resizes, went_on, PaneRuntime,
    RuntimeView, Showing,
};
use crate::pty::FrameView;
use crate::reader::{ScrollbackReader, TranscriptReader};
use crate::surface::PaneSnapshot;
use crate::transcript::{all_plain, all_raw};

pub mod attach;
pub mod attach_end;
pub mod attach_output;
pub mod inspect;
pub mod lifecycle;
pub mod transaction;

verus! {

/// The sending half of a channel (`std::sync::mpsc::Sender`).
#[verifier::external_type_specification]
#[verifier::external_body]
#[verifier::reject_recursive_types(T)]
pub struct ExSender<T>(std::sync::mpsc::Sender<T>);

/// The receiving half of a channel (`std::sync::mpsc::Receiver`).
#[verifier::external_type_specification]
#[verifier::external_body]
#[verifier::reject_recursive_types(T)]
pub struct ExReceiver<T>(std::sync::mpsc::Receiver<T>);

/// Makes an unbounded channel (`std::sync::mpsc::channel`). Nothing is claimed
/// of its two halves: what the receiver will see is for the holder of the other
/// half to decide.
#[verifier::external_body]
fn event_channel() -> (halves: (Sender<PaneEvent>, Receiver<PaneEvent>)) {
    std::sync::mpsc::channel()
}

/// Sends an event (`std::sync::mpsc::Sender::send`) and tells whether it was
/// accepted. Nothing is claimed of the answer: it depends on whether the
/// receiver still exists.
#[verifier::external_body]
fn send_event(sender: &Sender<PaneEvent>, event: PaneEvent) -> (sent: bool) {
    sender.send(event).is_ok()
}

/// Whether these are the two halves of a channel that was made.
pub closed spec fn are_halves(sender: Sender<PaneEvent>, receiver: Receiver<PaneEvent>) -> bool {
    call_ensures(event_channel, (), (sender, receiver))
}

/// Whether a subscriber was sent an event, and accepted it or did not.
pub closed spec fn sent_to(subscriber: Sender<PaneEvent>, event: PaneEvent, accepted: bool) -> bool {
    exists|copy: PaneEvent|
        #[trigger] call_ensures(send_event, (&subscriber, copy), accepted) && copy.same(event)
}

/// The subscribers that accepted what they were sent.
pub open spec fn survivors(subscribers: Seq<Sender<PaneEvent>>, accepted: Seq<bool>) -> Seq<
    Sender<PaneEvent>,
>
    decreases subscribers.len(),
{
    if subscribers.len() == 0 {
        seq![]
    } else {
        let rest = survivors(subscribers.drop_last(), accepted.drop_last());
        if accepted.last() {
            rest.push(subscribers.last())
        } else {
            rest
        }
    }
}

/// Whether an event was sent to every subscriber, and those that did not accept
/// it were forgotten.
pub open spec fn dispatched(
    after: Seq<Sender<PaneEvent>>,
    before: Seq<Sender<PaneEvent>>,
    event: PaneEvent,
    accepted: Seq<bool>,
) -> bool {
    &&& accepted.len() == before.len()
    &&& forall|i: int|
        0 <= i < before.len() ==> sent_to(#[trigger] before[i], event, accepted[i])
    &&& after == survivors(before, accepted)
}

/// An event that was sent to the subscribers: who they were, which of them
/// accepted it, and who is left.
pub ghost struct Dispatch {
    pub event: PaneEvent,
    pub before: Seq<Sender<PaneEvent>>,
    pub after: Seq<Sender<PaneEvent>>,
    pub accepted: Seq<bool>,
}

impl Dispatch {
    /// Whether every subscriber was sent the event.
    pub open spec fn happened(self) -> bool {
        dispatched(self.after, self.before, self.event, self.accepted)
    }
}

/// Whether all dispatches happened, and subscribers come and stay between
/// them: who was left is there at the next one, and `now`.
pub open spec fn mailed_truly(mail: Seq<Dispatch>, now: Seq<Sender<PaneEvent>>) -> bool {
    &&& forall|i: int| 0 <= i < mail.len() ==> (#[trigger] mail[i]).happened()
    &&& forall|i: int|
        0 < i < mail.len() ==> mail[i - 1].after.is_prefix_of((#[trigger] mail[i]).before)
    &&& mail.len() > 0 ==> mail.last().after.is_prefix_of(now)
}

/// The events of dispatches.
pub open spec fn mail_events(mail: Seq<Dispatch>) -> Seq<PaneEvent> {
    Seq::new(mail.len(), |i: int| mail[i].event)
}

/// The events of dispatches, without their times.
pub open spec fn mail_entries(mail: Seq<Dispatch>) -> Seq<EventEntry> {
    Seq::new(mail.len(), |i: int| mail[i].event.entry())
}

/// A manager: its panes in the order of their identifiers, the events that have
/// not been drained yet, its sink, the events that sinks were handed, and those
/// that the subscribers were sent.
#[verifier::ext_equal]
pub ghost struct ManagerView {
    pub next_id: u64,
    pub panes: Seq<RuntimeView>,
    pub queue: Seq<EventEntry>,
    pub config: ConfigView,
    pub sink: Option<ManagerSink>,
    pub heard: Seq<(ManagerSink, EventEntry)>,
    pub mailed: Seq<EventEntry>,
}

/// What a sink is handed of events, if there is one: each, in order.
pub open spec fn hearings(sink: Option<ManagerSink>, events: Seq<EventEntry>) -> Seq<
    (ManagerSink, EventEntry),
> {
    match sink {
        Some(listener) => Seq::new(events.len(), |i: int| (listener, events[i])),
        None => seq![],
    }
}

/// Whether panes stand in the order of their identifiers, each once.
pub open spec fn in_order(panes: Seq<RuntimeView>) -> bool {
    forall|i: int, j: int|
        0 <= i < j < panes.len() ==> (#[trigger] panes[i]).core.pane.value() < (
        #[trigger] panes[j]).core.pane.value()
}

/// Whether a pane stands at a place.
pub open spec fn stands_at(panes: Seq<RuntimeView>, id: PaneId, k: int) -> bool {
    0 <= k < panes.len() && panes[k].core.pane == id
}

/// Whether a place parts the panes with smaller identifiers from the others.
pub open spec fn parts(panes: Seq<RuntimeView>, id: PaneId, k: int) -> bool {
    &&& 0 <= k <= panes.len()
    &&& forall|i: int| 0 <= i < k ==> (#[trigger] panes[i]).core.pane.value() < id.value()
    &&& forall|i: int|
        k <= i < panes.len() ==> (#[trigger] panes[i]).core.pane.value() > id.value()
}

impl ManagerView {
    /// Where a pane stands.
    pub open spec fn place(self, id: PaneId) -> int {
        choose|k: int| stands_at(self.panes, id, k)
    }

    /// Whether the manager has a pane.
    pub open spec fn has(self, id: PaneId) -> bool {
        exists|k: int| stands_at(self.panes, id, k)
    }

    /// A pane of the manager.
    pub open spec fn pane(self, id: PaneId) -> RuntimeView {
        self.panes[self.place(id)]
    }

    /// The manager after events were emitted: they are queued, its sink is
    /// handed each, and the subscribers are sent each.
    pub open spec fn emitted(self, events: Seq<EventEntry>) -> ManagerView {
        ManagerView {
            queue: self.queue + events,
            heard: self.heard + hearings(self.sink, events),
            mailed: self.mailed + events,
            ..self
        }
    }

    /// The manager with a pane gone on to this, and what is new in its log
    /// emitted.
    pub open spec fn renewed(self, id: PaneId, pane: RuntimeView) -> ManagerView {
        ManagerView {
            panes: self.panes.update(self.place(id), pane),
            ..self.emitted(pane.core.log.skip(self.pane(id).core.log.len() as int))
        }
    }

    /// The manager with the books of a pane continued, and what is new in its
    /// log emitted.
    pub open spec fn booked(self, id: PaneId, core: CoreView) -> ManagerView {
        self.renewed(id, self.pane(id).booked(core))
    }

    /// The manager with a new pane, and its log emitted.
    pub open spec fn joined(self, pane: RuntimeView) -> ManagerView {
        let k = choose|k: int| parts(self.panes, pane.core.pane, k);
        ManagerView { panes: self.panes.insert(k, pane), ..self.emitted(pane.core.log) }
    }

    /// The manager without a pane.
    pub open spec fn without(self, id: PaneId) -> ManagerView {
        ManagerView { panes: self.panes.remove(self.place(id)), ..self }
    }

    /// The manager with an identifier reserved.
    pub open spec fn reserved(self, id: PaneId) -> ManagerView {
        ManagerView {
            next_id: if self.next_id < id.value() {
                id.value()
            } else {
                self.next_id
            },
            ..self
        }
    }

    /// What holds of every manager: its panes are in order, and no identifier
    /// is above the last one given out.
    pub open spec fn valid(self) -> bool {
        &&& in_order(self.panes)
        &&& forall|i: int|
            0 <= i < self.panes.len() ==> (#[trigger] self.panes[i]).core.pane.value()
                <= self.next_id
    }

    /// The error of an operation on a pane that the manager does not have.
    pub open spec fn unknown(id: PaneId) -> ErrorView {
        ErrorView::NotFound { pane_id: id }
    }
}

/// Whether a manager comes of another by taking in pending frames of a pane:
/// `limit` of them, or fewer and then the pane was quiet.
#[verifier::opaque]
pub open spec fn polled_to(
    after: ManagerView,
    before: ManagerView,
    id: PaneId,
    limit: nat,
    quiet: bool,
) -> bool {
    &&& after == before.renewed(id, after.pane(id))
    &&& absorbed_to(after.pane(id), before.pane(id), limit, quiet)
}

/// The same, quiet or not.
pub open spec fn polled(after: ManagerView, before: ManagerView, id: PaneId, limit: nat) -> bool {
    exists|quiet: bool| #[trigger] polled_to(after, before, id, limit, quiet)
}

proof fn lemma_mailed(mail: Seq<Dispatch>, now: Seq<Sender<PaneEvent>>, sent: Dispatch)
    requires
        mailed_truly(mail, now),
        sent.before == now,
        sent.happened(),
    ensures
        mailed_truly(mail.push(sent), sent.after),
        mail_entries(mail.push(sent)) == mail_entries(mail) + seq![sent.event.entry()],
{
    let longer = mail.push(sent);
    assert forall|i: int| 0 <= i < longer.len() implies (#[trigger] longer[i]).happened() by {
        if i < mail.len() {
            assert(longer[i] == mail[i]);
        }
    }
    assert forall|i: int| 0 < i < longer.len() implies longer[i - 1].after.is_prefix_of(
        (#[trigger] longer[i]).before,
    ) by {
        if i < mail.len() {
            assert(longer[i] == mail[i]);
        }
    }
    assert(sent.after.is_prefix_of(sent.after));
    assert(mail_entries(longer) =~= mail_entries(mail) + seq![sent.event.entry()]);
}

pub(crate) proof fn lemma_place(view: ManagerView, id: PaneId, k: int)
    requires
        view.valid(),
        stands_at(view.panes, id, k),
    ensures
        view.has(id),
        view.place(id) == k,
{
    let p = view.place(id);
    assert(stands_at(view.panes, id, p));
    if p < k {
        assert(view.panes[p].core.pane.value() < view.panes[k].core.pane.value());
    } else if k < p {
        assert(view.panes[k].core.pane.value() < view.panes[p].core.pane.value());
    }
}

pub(crate) proof fn lemma_parting(panes: Seq<RuntimeView>, id: PaneId, k: int)
    requires
        parts(panes, id, k),
    ensures
        k == choose|k: int| parts(panes, id, k),
{
    let p = choose|k: int| parts(panes, id, k);
    assert(parts(panes, id, p));
    if p < k {
        assert(panes[p].core.pane.value() < id.value());
    } else if k < p {
        assert(panes[k].core.pane.value() < id.value());
    }
}

/// Going on with one pane keeps a manager valid, leaves every other pane alone,
/// and queues exactly what is new in its log.
pub proof fn law_renewing(view: ManagerView, id: PaneId, pane: RuntimeView)
    requires
        view.valid(),
        view.has(id),
        pane.core.pane == id,
    ensures
        view.renewed(id, pane).valid(),
        view.renewed(id, pane).has(id),
        view.renewed(id, pane).pane(id) == pane,
        view.renewed(id, pane).place(id) == view.place(id),
        forall|other: PaneId|
            other != id ==> (#[trigger] view.renewed(id, pane).has(other) == view.has(other)),
        forall|other: PaneId|
            other != id && view.has(other) ==> #[trigger] view.renewed(id, pane).pane(other)
                == view.pane(other),
{
    let later = view.renewed(id, pane);
    let k = view.place(id);
    assert(stands_at(view.panes, id, k));
    assert forall|i: int| 0 <= i < later.panes.len() implies (
    #[trigger] later.panes[i]).core.pane == view.panes[i].core.pane by {}
    assert(in_order(later.panes));
    assert(stands_at(later.panes, id, k));
    lemma_place(later, id, k);
    assert forall|other: PaneId| other != id implies #[trigger] later.has(other) == view.has(
        other,
    ) by {
        if view.has(other) {
            assert(stands_at(later.panes, other, view.place(other)));
        }
        if later.has(other) {
            assert(stands_at(view.panes, other, later.place(other)));
        }
    }
    assert forall|other: PaneId| other != id && view.has(other) implies #[trigger] later.pane(other)
        == view.pane(other) by {
        assert(stands_at(later.panes, other, view.place(other)));
        lemma_place(later, other, view.place(other));
    }
}

/// The same, where only the books of the pane are continued.
pub proof fn law_booking(view: ManagerView, id: PaneId, core: CoreView)
    requires
        view.valid(),
        view.has(id),
        core.pane == id,
    ensures
        view.booked(id, core).valid(),
        view.booked(id, core).has(id),
        view.booked(id, core).pane(id) == view.pane(id).booked(core),
        view.booked(id, core).place(id) == view.place(id),
        forall|other: PaneId|
            other != id ==> (#[trigger] view.booked(id, core).has(other) == view.has(other)),
        forall|other: PaneId|
            other != id && view.has(other) ==> #[trigger] view.booked(id, core).pane(other)
                == view.pane(other),
{
    law_renewing(view, id, view.pane(id).booked(core));
}

/// A pane that joins is found again, and the others stay.
pub proof fn law_joining(view: ManagerView, pane: RuntimeView, k: int)
    requires
        view.valid(),
        parts(view.panes, pane.core.pane, k),
        pane.core.pane.value() <= view.next_id,
    ensures
        view.joined(pane).valid(),
        view.joined(pane).panes == view.panes.insert(k, pane),
        view.joined(pane).has(pane.core.pane),
        view.joined(pane).pane(pane.core.pane) == pane,
        forall|other: PaneId|
            view.has(other) ==> #[trigger] view.joined(pane).has(other),
{
    lemma_parting(view.panes, pane.core.pane, k);
    let later = view.joined(pane);
    let all = later.panes;
    assert(all == view.panes.insert(k, pane));
    assert forall|i: int, j: int| 0 <= i < j < all.len() implies (
    #[trigger] all[i]).core.pane.value() < (#[trigger] all[j]).core.pane.value() by {
        let a = if i < k {
            i
        } else {
            i - 1
        };
        let b = if j < k {
            j
        } else {
            j - 1
        };
        if i != k {
            assert(all[i] == view.panes[a]);
        }
        if j != k {
            assert(all[j] == view.panes[b]);
        }
    }
    assert forall|i: int| 0 <= i < all.len() implies (#[trigger] all[i]).core.pane.value()
        <= later.next_id by {
        if i < k {
            assert(all[i] == view.panes[i]);
        } else if i > k {
            assert(all[i] == view.panes[i - 1]);
        }
    }
    assert(stands_at(all, pane.core.pane, k));
    lemma_place(later, pane.core.pane, k);
    assert forall|other: PaneId| view.has(other) implies #[trigger] later.has(other) by {
        let p = view.place(other);
        assert(stands_at(view.panes, other, p));
        if p < k {
            assert(stands_at(all, other, p));
        } else {
            assert(stands_at(all, other, p + 1));
        }
    }
}

/// A pane that was removed is gone, and the others stay.
pub proof fn law_removing(view: ManagerView, id: PaneId)
    requires
        view.valid(),
        view.has(id),
    ensures
        view.without(id).valid(),
        !view.without(id).has(id),
        view.without(id).panes.len() == view.panes.len() - 1,
        forall|other: PaneId|
            other != id && view.has(other) ==> #[trigger] view.without(id).has(other),
{
    let k = view.place(id);
    assert(stands_at(view.panes, id, k));
    let rest = view.without(id);
    let all = rest.panes;
    assert forall|i: int| 0 <= i < all.len() implies (#[trigger] all[i]) == view.panes[if i < k {
        i
    } else {
        i + 1
    }] by {}
    assert(in_order(all));
    if rest.has(id) {
        let p = rest.place(id);
        assert(stands_at(all, id, p));
        let q = if p < k {
            p
        } else {
            p + 1
        };
        assert(stands_at(view.panes, id, q));
        lemma_place(view, id, q);
    }
    assert forall|other: PaneId| other != id && view.has(other) implies #[trigger] rest.has(
        other,
    ) by {
        let p = view.place(other);
        assert(stands_at(view.panes, other, p));
        assert(p != k);
        if p < k {
            assert(all[p] == view.panes[p]);
            assert(stands_at(all, other, p));
        } else {
            assert(all[p - 1] == view.panes[p]);
            assert(stands_at(all, other, p - 1));
        }
    }
}

/// Manager that owns panes and polls their PTY/runtime state.
pub struct PaneManager {
    next_pane_id: u64,
    panes: Vec<PaneRuntime>,
    events: VecDeque<PaneEvent>,
    subscribers: Vec<Sender<PaneEvent>>,
    event_sink: Option<ManagerSink>,
    config: PaneManagerConfig,
    heard: Ghost<Seq<(ManagerSink, PaneEvent)>>,
    mail: Ghost<Seq<Dispatch>>,
}

/// Whether a sink was handed an event that is told like this.
pub open spec fn was_heard(hearing: (ManagerSink, EventEntry)) -> bool {
    exists|listener: ManagerSink, event: PaneEvent|
        #[trigger] listener.heard(&event) && hearing == (listener, event.entry())
}

/// What sinks were handed, without the times.
pub open spec fn heard_entries(heard: Seq<(ManagerSink, PaneEvent)>) -> Seq<
    (ManagerSink, EventEntry),
> {
    Seq::new(heard.len(), |i: int| (heard[i].0, heard[i].1.entry()))
}

/// The views of a list of panes.
pub open spec fn pane_views(panes: Seq<PaneRuntime>) -> Seq<RuntimeView> {
    panes.map_values(|p: PaneRuntime| p@)
}

impl View for PaneManager {
    type V = ManagerView;

    closed spec fn view(&self) -> ManagerView {
        ManagerView {
            next_id: self.next_pane_id,
            panes: pane_views(self.panes@),
            queue: entries(self.events@),
            config: self.config@,
            sink: self.event_sink,
            heard: heard_entries(self.heard@),
            mailed: mail_entries(self.mail@),
        }
    }
}

pub(crate) fn not_found(pane_id: PaneId) -> (error: PaneError)
    ensures
        error@ == ManagerView::unknown(pane_id),
{
    PaneError::NotFound { pane_id }
}

/// An event of one pane leaves the others' logs reported.
proof fn lemma_others_told(after: PaneManager, before: PaneManager, event: PaneEvent, k: int)
    requires
        after@.valid(),
        after.panes == before.panes,
        after.posted() == before.posted().push(event),
        0 <= k < after.panes@.len(),
        event.pane_id == after.panes@[k]@.core.pane,
        forall|j: int|
            0 <= j < before.panes@.len() && j != k ==> before.told_of(#[trigger] before.panes@[j]),
    ensures
        forall|j: int|
            0 <= j < after.panes@.len() && j != k ==> after.told_of(#[trigger] after.panes@[j]),
{
    let panes = after.panes@;
    assert forall|j: int| 0 <= j < panes.len() && j != k implies after.told_of(
        #[trigger] panes[j],
    ) by {
        assert(before.told_of(before.panes@[j]));
        assert(after@.panes[j] == panes[j]@ && after@.panes[k] == panes[k]@);
        if j < k {
            assert(after@.panes[j].core.pane.value() < after@.panes[k].core.pane.value());
        } else {
            assert(after@.panes[k].core.pane.value() < after@.panes[j].core.pane.value());
        }
        lemma_reports_other(before.posted(), event, panes[j].events(), panes[j]@.core.pane);
    }
}

/// A change of a pane that leaves its books alone leaves its log reported.
proof fn lemma_books_kept(after: PaneManager, start: PaneManager, k: int)
    requires
        start.wf(),
        after.went_on_at(start, k),
        after.panes@[k]@.core == start.panes@[k]@.core,
    ensures
        after.wf(),
{
    let pane = after.panes@[k];
    pane.law_log_is_numbered();
    assert(start.panes@[k].wf());
    start.panes@[k].law_log_is_numbered();
    assert(pane.events().len() == entries(pane.events()).len());
    assert(start.panes@[k].events().len() == entries(start.panes@[k].events()).len());
    assert(pane.events() =~= start.panes@[k].events());
    assert(after@.panes =~= start@.panes.update(k, pane@));
    assert forall|i: int| 0 <= i < after@.panes.len() implies (
    #[trigger] after@.panes[i]).core.pane == start@.panes[i].core.pane by {}
    assert(after@.valid());
    assert forall|i: int| 0 <= i < after.panes@.len() implies (#[trigger] after.panes@[i]).wf() by {
        if i != k {
            assert(after.panes@[i] == start.panes@[i]);
        }
    }
    assert forall|i: int| 0 <= i < after.panes@.len() implies after.told_of(
        #[trigger] after.panes@[i],
    ) by {
        assert(start.told_of(start.panes@[i]));
    }
}

impl Default for PaneManager {
    fn default() -> (manager: Self)
        ensures
            manager.wf(),
            manager@.panes.len() == 0,
            manager@.queue.len() == 0,
            manager@.next_id == 0,
            manager@.sink is None,
    {
        Self::new(PaneManagerConfig::default())
    }
}

impl PaneManager {
    /// Whether the panes are in order, and their books too, nothing is claimed
    /// to have been heard that was not, and everything logged was reported.
    pub closed spec fn wf(self) -> bool {
        &&& self.sound()
        &&& forall|i: int|
            0 <= i < self.panes@.len() ==> self.told_of(#[trigger] self.panes@[i])
    }

    /// The same, but for what was logged.
    spec fn sound(self) -> bool {
        &&& self@.valid()
        &&& forall|i: int| 0 <= i < self.panes@.len() ==> (#[trigger] self.panes@[i]).wf()
        &&& self.heard_truly()
        &&& self.events@.len() <= self.posted().len()
        &&& self.events@ == self.posted().skip(self.posted().len() - self.events@.len())
    }

    /// Whether the log of a pane was reported.
    spec fn told_of(self, pane: PaneRuntime) -> bool {
        reports(self.posted(), pane.events(), pane@.core.pane)
    }

    /// Every event that was ever emitted, with its time.
    pub closed spec fn posted(self) -> Seq<PaneEvent> {
        mail_events(self.mail@)
    }

    /// The events that have not been drained yet, with their times.
    pub closed spec fn pending(self) -> Seq<PaneEvent> {
        self.events@
    }

    /// The log of a pane, with the times.
    pub closed spec fn log(self, id: PaneId) -> Seq<PaneEvent> {
        self.panes@[self@.place(id)].events()
    }

    /// What was drained so far and what is pending are all events, each once
    /// and in the order in which they were emitted. The last events of a pane
    /// among them are its log, numbered from one without gaps or repeats, with
    /// the times that were logged.
    pub proof fn law_events_are_the_logs(self, id: PaneId)
        requires
            self.wf(),
        ensures
            self.pending().len() <= self.posted().len(),
            self.posted() == self.posted().take(
                self.posted().len() - self.pending().len(),
            ) + self.pending(),
            entries(self.pending()) == self@.queue,
            entries(self.posted()) == self@.mailed,
            self@.has(id) ==> {
                &&& entries(self.log(id)) == self@.pane(id).core.log
                &&& self@.pane(id).core.numbered()
                &&& reports(self.posted(), self.log(id), id)
            },
    {
        let all = self.posted();
        let n = all.len() - self.pending().len();
        assert(all =~= all.take(n) + all.skip(n));
        assert(entries(all) =~= self@.mailed);
        if self@.has(id) {
            let k = self@.place(id);
            assert(stands_at(self@.panes, id, k));
            assert(self.panes@[k].wf() && self.told_of(self.panes@[k]));
            self.panes@[k].law_log_is_numbered();
        }
    }

    /// Those who receive every event through a channel.
    pub closed spec fn subscribers(self) -> Seq<Sender<PaneEvent>> {
        self.subscribers@
    }

    /// How events were sent to the subscribers so far.
    pub closed spec fn mail(self) -> Seq<Dispatch> {
        self.mail@
    }

    /// A manager is valid. Every call that its panes claim was made and
    /// answered as they say, every event that a sink is said to have heard was
    /// handed to it, and every event that is said to be mailed was sent to all
    /// who were subscribers then. Only those who do not accept are forgotten.
    pub proof fn law_claims_are_true(self)
        requires
            self.wf(),
        ensures
            self@.valid(),
            forall|i: int| 0 <= i < self@.panes.len() ==> (#[trigger] self@.panes[i]).truthful(),
            forall|i: int|
                0 <= i < self@.heard.len() ==> was_heard(#[trigger] self@.heard[i]),
            self@.mailed == mail_entries(self.mail()),
            mailed_truly(self.mail(), self.subscribers()),
    {
        assert forall|i: int| 0 <= i < self@.panes.len() implies (
        #[trigger] self@.panes[i]).truthful() by {
            self.panes@[i].law_calls_happened();
        }
        assert forall|i: int| 0 <= i < self@.heard.len() implies was_heard(
            #[trigger] self@.heard[i],
        ) by {
            let (listener, event) = self.heard@[i];
            assert(listener.heard(&event));
        }
    }

    /// Creates a manager with the given configuration.
    pub fn new(config: PaneManagerConfig) -> (manager: Self)
        ensures
            manager.wf(),
            manager@ == (ManagerView {
                next_id: 0,
                panes: seq![],
                queue: seq![],
                config: config@,
                sink: None,
                heard: seq![],
                mailed: seq![],
            }),
            manager.subscribers() == Seq::<Sender<PaneEvent>>::empty(),
    {
        let manager = PaneManager {
            next_pane_id: 0,
            panes: Vec::new(),
            events: VecDeque::new(),
            subscribers: Vec::new(),
            event_sink: None,
            config,
            heard: Ghost(Seq::empty()),
            mail: Ghost(Seq::empty()),
        };
        assert(manager@.panes =~= seq![]);
        assert(manager@.queue =~= seq![]);
        assert(manager@.heard =~= seq![]);
        assert(manager@.mailed =~= seq![]);
        assert(manager.posted() =~= seq![]);
        assert(manager.events@ =~= manager.posted().skip(0));
        manager
    }

    fn find(&self, pane_id: PaneId) -> (place: Option<usize>)
        requires
            self.wf(),
        ensures
            match place {
                Some(k) => self@.has(pane_id) && k < self.panes@.len() && self@.place(pane_id)
                    == k && self.panes@[k as int]@ == self@.pane(pane_id) && self.panes@[k as
                int].wf(),
                None => !self@.has(pane_id),
            },
    {
        let mut k: usize = 0;
        while k < self.panes.len()
            invariant
                self.wf(),
                k <= self.panes@.len(),
                forall|i: int| 0 <= i < k ==> (#[trigger] self@.panes[i]).core.pane != pane_id,
            decreases self.panes@.len() - k,
        {
            assert(self.panes@[k as int].wf());
            assert(self@.panes[k as int] == self.panes@[k as int]@);
            if self.panes[k].books().pane_id() == pane_id {
                proof {
                    assert(stands_at(self@.panes, pane_id, k as int));
                    lemma_place(self@, pane_id, k as int);
                }
                return Some(k);
            }
            k = k + 1;
        }
        proof {
            if self@.has(pane_id) {
                let p = self@.place(pane_id);
                assert(stands_at(self@.panes, pane_id, p));
            }
        }
        None
    }

    /// Hands an event to the queue, the sink and the subscribers. Subscribers
    /// that are gone are forgotten.
    fn emit(&mut self, event: PaneEvent)
        requires
            old(self).sound(),
        ensures
            final(self).sound(),
            final(self).posted() == old(self).posted().push(event),
            final(self)@ == old(self)@.emitted(seq![event.entry()]),
            final(self).panes == old(self).panes,
            exists|accepted: Seq<bool>|
                #[trigger] dispatched(
                    final(self).subscribers(),
                    old(self).subscribers(),
                    event,
                    accepted,
                ),
    {
        let ghost before = self.events@;
        let ghost heard = self.heard@;
        let ghost panes = self.panes;
        let ghost view = self@;
        if let Some(sink) = &self.event_sink {
            sink.tell(&event);
            proof {
                self.heard@ = self.heard@.push((self.event_sink->0, event));
            }
        }
        let ghost told = self.heard@;
        let ghost posted = self.mail@;
        proof {
            assert(heard_entries(told) =~= view.heard + hearings(view.sink, seq![event.entry()]));
        }
        let ghost all = self.subscribers@;
        let ghost mut accepted = Seq::<bool>::empty();
        let mut i: usize = 0;
        proof {
            assert(survivors(all.take(0), accepted) + all.skip(0) =~= all);
        }
        while i < self.subscribers.len()
            invariant
                self.panes == panes,
                self.events@ == before,
                self.heard@ == told,
                self.mail@ == posted,
                self@ == (ManagerView { heard: heard_entries(told), ..view }),
                i <= self.subscribers@.len(),
                accepted.len() <= all.len(),
                i == survivors(all.take(accepted.len() as int), accepted).len(),
                self.subscribers@ == survivors(all.take(accepted.len() as int), accepted)
                    + all.skip(accepted.len() as int),
                forall|j: int|
                    0 <= j < accepted.len() ==> sent_to(#[trigger] all[j], event, accepted[j]),
            decreases self.subscribers@.len() - i,
        {
            let ghost n = accepted.len() as int;
            let ghost kept = survivors(all.take(n), accepted);
            let ghost prior = accepted;
            let ghost listed = self.subscribers@;
            assert(listed[i as int] == all[n]);
            let copy = event.clone();
            let ghost sent_copy = copy;
            let ok = send_event(&self.subscribers[i], copy);
            proof {
                assert(call_ensures(send_event, (&all[n], sent_copy), ok));
                assert(sent_to(all[n], event, ok));
                accepted = accepted.push(ok);
                assert(all.take(n + 1).drop_last() =~= all.take(n));
                assert(accepted.drop_last() =~= prior);
                assert(all.take(n + 1).last() == all[n]);
            }
            if ok {
                i = i + 1;
                assert(self.subscribers@ =~= kept.push(all[n]) + all.skip(n + 1));
            } else {
                let _ = self.subscribers.remove(i);
                assert(self.subscribers@ =~= kept + all.skip(n + 1));
            }
        }
        proof {
            let n = accepted.len() as int;
            assert(n == all.len());
            assert(all.take(n) =~= all);
            assert(self.subscribers@ =~= survivors(all, accepted));
        }
        self.events.push_back(event);
        proof {
            assert(entries(self.events@) =~= entries(before) + seq![event.entry()]);
            assert(dispatched(self.subscribers@, all, event, accepted));
            let sent = Dispatch { event, before: all, after: self.subscribers@, accepted };
            self.mail@ = posted.push(sent);
            lemma_mailed(posted, all, sent);
            assert(self.posted() =~= mail_events(posted).push(event));
            let skipped = mail_events(posted).len() - before.len();
            assert(self.events@ =~= mail_events(posted).skip(skipped).push(event));
            assert(self.posted().skip(skipped) =~= mail_events(posted).skip(skipped).push(event));
            assert(self.subscribers() == self.subscribers@ && old(self).subscribers() == all);
        }
    }

    /// Whether the manager is another one with one pane gone on.
    spec fn went_on_at(self, start: PaneManager, k: int) -> bool {
        &&& self.next_pane_id == start.next_pane_id
        &&& self.events == start.events
        &&& self.subscribers == start.subscribers
        &&& self.event_sink == start.event_sink
        &&& self.config == start.config
        &&& self.heard == start.heard
        &&& self.mail == start.mail
        &&& 0 <= k < start.panes@.len()
        &&& self.panes@ == start.panes@.update(k, self.panes@[k])
        &&& self.panes@[k].wf()
        &&& self.panes@[k]@.core.pane == start.panes@[k]@.core.pane
        &&& goes_on(self.panes@[k].events(), start.panes@[k].events())
    }

    /// Publishes what the log of a pane holds from `from` on.
    #[verifier::spinoff_prover]
    #[verifier::rlimit(60)]
    fn conclude(&mut self, k: usize, from: usize, Ghost(start): Ghost<PaneManager>)
        requires
            start.wf(),
            old(self).went_on_at(start, k as int),
            from == start@.panes[k as int].core.log.len(),
        ensures
            final(self).wf(),
            final(self)@ == start@.renewed(
                start@.panes[k as int].core.pane,
                old(self)@.panes[k as int],
            ),
            final(self)@.pane(start@.panes[k as int].core.pane) == old(self)@.panes[k as int],
            goes_on(final(self).posted(), start.posted()),
    {
        let ghost before = start@;
        let ghost id = before.panes[k as int].core.pane;
        let ghost pane = self@.panes[k as int];
        let ghost now = pane.core;
        let ghost panes = self.panes;
        let ghost log = panes@[k as int].events();
        proof {
            start.panes@[k as int].law_log_is_numbered();
            panes@[k as int].law_log_is_numbered();
            assert(before.panes[k as int] == start.panes@[k as int]@);
            assert(self@.panes =~= before.panes.update(k as int, pane));
            assert(stands_at(before.panes, id, k as int));
            lemma_place(before, id, k as int);
            law_renewing(before, id, pane);
            assert(self@.panes =~= before.renewed(id, pane).panes);
            assert(self@.valid());
            assert(now.log.skip(from as int).take(0) =~= Seq::empty());
            assert(before.queue + Seq::<EventEntry>::empty() =~= before.queue);
            assert(before.heard + hearings(before.sink, Seq::<EventEntry>::empty())
                =~= before.heard);
            assert(before.mailed + Seq::<EventEntry>::empty() =~= before.mailed);
            assert forall|i: int| 0 <= i < panes@.len() implies (#[trigger] panes@[i]).wf() by {
                if i != k {
                    assert(panes@[i] == start.panes@[i]);
                }
            }
            assert forall|i: int| 0 <= i < panes@.len() && i != k implies #[trigger] self.told_of(
                panes@[i],
            ) by {
                assert(panes@[i] == start.panes@[i]);
                assert(start.told_of(start.panes@[i]));
            }
            assert(start.told_of(start.panes@[k as int]));
            assert(log.take(from as int) =~= start.panes@[k as int].events());
        }
        assert(self.panes@[k as int]@ == self@.panes[k as int]);
        let count = self.panes[k].books().event_log().len();
        let mut i = from;
        while i < count
            invariant
                self.sound(),
                self.panes == panes,
                k < panes@.len(),
                panes@[k as int].wf(),
                now == panes@[k as int]@.core,
                now.pane == id,
                now.numbered(),
                log == panes@[k as int].events(),
                entries(log) == now.log,
                from <= i <= count,
                count == now.log.len(),
                self@.next_id == before.next_id,
                self@.config == before.config,
                self@.panes == pane_views(panes@),
                self@.sink == before.sink,
                self@.queue == before.queue + now.log.skip(from as int).take(i - from),
                self@.heard == before.heard + hearings(
                    before.sink,
                    now.log.skip(from as int).take(i - from),
                ),
                self@.mailed == before.mailed + now.log.skip(from as int).take(i - from),
                goes_on(self.posted(), start.posted()),
                reports(self.posted(), log.take(i as int), id),
                forall|j: int|
                    0 <= j < panes@.len() && j != k ==> self.told_of(#[trigger] panes@[j]),
            decreases count - i,
        {
            let ghost earlier = *self;
            let event = self.panes[k].books().event_log()[i].clone();
            let ghost told = event;
            assert(entries(log)[i as int] == log[i as int].entry());
            assert(event.entry() == now.log[i as int]);
            self.emit(event);
            proof {
                let fresh = now.log.skip(from as int);
                assert(fresh.take(i - from + 1) =~= fresh.take(i - from).push(now.log[i as int]));
                assert(self@.queue =~= before.queue + fresh.take(i - from + 1));
                assert(self@.heard =~= before.heard + hearings(
                    before.sink,
                    fresh.take(i - from + 1),
                ));
                assert(self@.mailed =~= before.mailed + fresh.take(i - from + 1));
                lemma_reports_more(
                    earlier.posted(),
                    told,
                    log.take(i as int),
                    log[i as int],
                    id,
                );
                assert(log.take(i + 1) =~= log.take(i as int).push(log[i as int]));
                lemma_others_told(*self, earlier, told, k as int);
            }
            i = i + 1;
        }
        proof {
            let fresh = now.log.skip(from as int);
            assert(fresh.take(i - from) =~= fresh);
            assert(log.take(i as int) =~= log);
            assert(self@ =~= before.renewed(id, pane));
            assert(self.told_of(panes@[k as int]));
        }
    }

    /// Whether nothing is claimed to have been heard or mailed that was not.
    spec fn heard_truly(self) -> bool {
        &&& forall|i: int|
            0 <= i < self.heard@.len() ==> (#[trigger] self.heard@[i]).0.heard(&self.heard@[i].1)
        &&& mailed_truly(self.mail@, self.subscribers@)
    }

    fn poll_at(&mut self, k: usize, limit: u64) -> (quiet: bool)
        requires
            old(self).wf(),
            k < old(self)@.panes.len(),
        ensures
            goes_on(final(self).posted(), old(self).posted()),
            final(self).wf(),
            polled_to(
                final(self)@,
                old(self)@,
                old(self)@.panes[k as int].core.pane,
                limit as nat,
                quiet,
            ),
            final(self)@.panes.len() == old(self)@.panes.len(),
            forall|i: int|
                0 <= i < old(self)@.panes.len() ==> (#[trigger] final(self)@.panes[i]).core.pane
                    == old(self)@.panes[i].core.pane,
            !old(self)@.panes[k as int].backed ==> final(self)@ == old(self)@ && (limit > 0
                ==> quiet),
    {
        let ghost start = *self;
        let ghost before = self@;
        let ghost id = before.panes[k as int].core.pane;
        assert(self.panes@[k as int].wf());
        assert(before.panes[k as int] == self.panes@[k as int]@);
        let from = self.panes[k].books().event_log().len();
        let quiet = self.panes[k].poll(limit);
        let ghost now = self.panes@[k as int]@;
        proof {
            assert(absorbed_to(now, before.panes[k as int], limit as nat, quiet));
            assert(absorbed(now, before.panes[k as int], limit as nat));
            law_absorbed(now, before.panes[k as int], limit as nat);
            assert(self.panes@ =~= start.panes@.update(k as int, self.panes@[k as int]));
            assert(stands_at(before.panes, id, k as int));
            lemma_place(before, id, k as int);
            law_renewing(before, id, now);
            lemma_unchanged(before, id);
        }
        self.conclude(k, from, Ghost(start));
        proof {
            reveal(polled_to);
        }
        quiet
    }

    /// Takes in the pending frames of a pane, up to the drain limit.
    pub fn poll_pane_frames(&mut self, pane_id: PaneId)
        requires
            old(self).wf(),
        ensures
            goes_on(final(self).posted(), old(self).posted()),
            final(self).wf(),
            old(self)@.has(pane_id) ==> polled(
                final(self)@,
                old(self)@,
                pane_id,
                old(self)@.config.drain_limit as nat,
            ),
            !old(self)@.has(pane_id) ==> final(self)@ == old(self)@,
            final(self)@.has(pane_id) == old(self)@.has(pane_id),
    {
        if let Some(k) = self.find(pane_id) {
            let limit = self.config.max_pty_frames_per_drain() as u64;
            let ghost before = self@;
            proof {
                assert(stands_at(before.panes, pane_id, before.place(pane_id)));
            }
            let quiet = self.poll_at(k, limit);
            proof {
                assert(polled_to(self@, before, pane_id, limit as nat, quiet));
                assert(stands_at(self@.panes, pane_id, k as int));
            }
        }
    }
}

/// Polling a pane continues its books: nothing that was logged changes, and a
/// pane that had ended stays as it had ended.
pub proof fn law_polling(after: ManagerView, before: ManagerView, id: PaneId, limit: nat)
    requires
        polled(after, before, id, limit),
    ensures
        after == before.renewed(id, after.pane(id)),
        after.pane(id).backed == before.pane(id).backed,
        after.pane(id).core.grew_from(before.pane(id).core),
        after.pane(id).core.mode == before.pane(id).core.mode,
        !before.pane(id).core.state.is_live() ==> after.pane(id).core.state == before.pane(
            id,
        ).core.state && after.pane(id).core.exit == before.pane(id).core.exit,
{
    reveal(polled_to);
    let quiet = choose|quiet: bool| #[trigger] polled_to(after, before, id, limit, quiet);
    assert(absorbed_to(after.pane(id), before.pane(id), limit, quiet));
    law_absorbed(after.pane(id), before.pane(id), limit);
}

/// Polling a pane asks its process and its surface for what it logs, one after
/// the other. Every frame of output that was received reached the surface and
/// the transcript, once and in order.
pub proof fn law_polling_takes_output_in_once(
    after: ManagerView,
    before: ManagerView,
    id: PaneId,
    limit: nat,
)
    requires
        polled(after, before, id, limit),
    ensures
        went_on(after.pane(id), before.pane(id)),
        ({
            let made = after.pane(id).calls.skip(before.pane(id).calls.len() as int);
            &&& received_output(made) == fed_output(made)
            &&& transcribes(
                after.pane(id).core.transcript,
                before.pane(id).core.transcript,
                fed_output(made),
            )
        }),
{
    reveal(polled_to);
    let quiet = choose|quiet: bool| #[trigger] polled_to(after, before, id, limit, quiet);
    let (last, first) = (after.pane(id), before.pane(id));
    assert(absorbed_to(last, first, limit, quiet));
    let frames = choose|frames: Seq<(FrameView, FeedView)>|
        #[trigger] absorbs(last, first, frames, quiet);
    law_output_is_taken_in_once(last, first, frames, quiet);
}

pub(crate) proof fn lemma_unchanged(view: ManagerView, id: PaneId)
    requires
        view.valid(),
        view.has(id),
    ensures
        view.renewed(id, view.pane(id)) == view,
        view.booked(id, view.pane(id).core) == view,
{
    let k = view.place(id);
    assert(stands_at(view.panes, id, k));
    let core = view.pane(id).core;
    assert(core.log.skip(core.log.len() as int) =~= Seq::empty());
    assert(view.queue + Seq::<EventEntry>::empty() =~= view.queue);
    assert(view.heard + hearings(view.sink, Seq::<EventEntry>::empty()) =~= view.heard);
    assert(view.mailed + Seq::<EventEntry>::empty() =~= view.mailed);
    assert(view.renewed(id, view.pane(id)) =~= view);
    assert(view.pane(id).booked(core) == view.pane(id));
}

impl PaneManager {
    /// Allocates a predictable placeholder pane identifier for smoke tests.
    pub fn alloc_placeholder_id(&mut self) -> (id: PaneId)
        requires
            old(self).wf(),
            old(self)@.next_id < u64::MAX,
        ensures
            goes_on(final(self).posted(), old(self).posted()),
            final(self).wf(),
            id.value() == old(self)@.next_id + 1,
            final(self)@ == (ManagerView { next_id: id.value(), ..old(self)@ }),
    {
        self.next_pane_id = self.next_pane_id + 1;
        PaneId::new(self.next_pane_id)
    }

    /// Kills a pane.
    ///
    /// This requests child termination and transitions the pane to
    /// [`PaneState::Killed`], but it does not remove the manager-owned pane
    /// state. The killed pane remains available for snapshots, transcripts,
    /// scrollback, repro dumps, and event inspection until
    /// [`PaneManager::remove`] is called.
    ///
    /// # Errors
    ///
    /// Returns an error if the pane was not found, has no process or is not
    /// running, or if its process cannot be killed. The pane stays as it is then.
    pub fn kill(&mut self, pane_id: PaneId, reason: KillReason) -> (r: Result<()>)
        requires
            old(self).wf(),
        ensures
            goes_on(final(self).posted(), old(self).posted()),
            final(self).wf(),
            !old(self)@.has(pane_id) ==> error_of(r) == Some(ManagerView::unknown(pane_id))
                && final(self)@ == old(self)@,
            old(self)@.has(pane_id) ==> {
                &&& final(self)@ == old(self)@.renewed(pane_id, final(self)@.pane(pane_id))
                &&& kills(
                    final(self)@.pane(pane_id),
                    old(self)@.pane(pane_id),
                    reason,
                    error_of(r),
                )
            },
    {
        let ghost start = *self;
        let ghost before = self@;
        match self.find(pane_id) {
            None => Err(not_found(pane_id)),
            Some(k) => {
                proof {
                    assert(stands_at(before.panes, pane_id, k as int)) by {
                        assert(stands_at(before.panes, pane_id, before.place(pane_id)));
                    }
                    lemma_unchanged(before, pane_id);
                }
                let from = self.panes[k].books().event_log().len();
                let r = self.panes[k].kill(reason);
                assert(self.panes@ =~= start.panes@.update(k as int, self.panes@[k as int]));
                self.conclude(k, from, Ghost(start));
                r
            },
        }
    }

    /// Resizes a pane.
    ///
    /// # Errors
    ///
    /// Returns an error if the size is not one a terminal can have, if the
    /// pane was not found, or if its surface or its process refuses the size.
    /// The books stay as they are then.
    pub fn resize(&mut self, pane_id: PaneId, size: Size) -> (r: Result<()>)
        requires
            old(self).wf(),
        ensures
            goes_on(final(self).posted(), old(self).posted()),
            final(self).wf(),
            !size.valid() ==> error_of(r) == Some(
                ErrorView::InvalidSize { rows: size.rows, cols: size.cols },
            ),
            size.valid() && !old(self)@.has(pane_id) ==> error_of(r) == Some(
                ManagerView::unknown(pane_id),
            ),
            !size.valid() || !old(self)@.has(pane_id) ==> final(self)@ == old(self)@,
            size.valid() && old(self)@.has(pane_id) ==> {
                &&& final(self)@ == old(self)@.renewed(pane_id, final(self)@.pane(pane_id))
                &&& resizes(final(self)@.pane(pane_id), old(self)@.pane(pane_id), size, error_of(r))
            },
    {
        let ghost start = *self;
        let ghost before = self@;
        if let Err(error) = Size::try_new(size.rows, size.cols) {
            return Err(error);
        }
        match self.find(pane_id) {
            None => Err(not_found(pane_id)),
            Some(k) => {
                proof {
                    assert(stands_at(before.panes, pane_id, before.place(pane_id)));
                    lemma_unchanged(before, pane_id);
                }
                let from = self.panes[k].books().event_log().len();
                let r = self.panes[k].resize(size);
                assert(self.panes@ =~= start.panes@.update(k as int, self.panes@[k as int]));
                self.conclude(k, from, Ghost(start));
                r
            },
        }
    }

    fn send_raw_bytes(&mut self, pane_id: PaneId, bytes: &[u8], input_kind: InputKind) -> (r:
        Result<()>)
        requires
            old(self).wf(),
        ensures
            goes_on(final(self).posted(), old(self).posted()),
            final(self).wf(),
            !old(self)@.has(pane_id) ==> error_of(r) == Some(ManagerView::unknown(pane_id))
                && final(self)@ == old(self)@,
            old(self)@.has(pane_id) ==> sends(
                r,
                final(self)@,
                old(self)@,
                pane_id,
                bytes@,
                input_kind,
            ),
    {
        let ghost start = *self;
        let ghost before = self@;
        match self.find(pane_id) {
            None => Err(not_found(pane_id)),
            Some(k) => {
                proof {
                    assert(stands_at(before.panes, pane_id, before.place(pane_id)));
                    lemma_unchanged(before, pane_id);
                }
                let from = self.panes[k].books().event_log().len();
                let r = self.panes[k].write(bytes, input_kind);
                assert(self.panes@ =~= start.panes@.update(k as int, self.panes@[k as int]));
                self.conclude(k, from, Ghost(start));
                r
            },
        }
    }

    /// Writes raw bytes to a pane's PTY.
    ///
    /// # Errors
    ///
    /// Returns an error if the pane was not found, the pane is surface-only,
    /// the pane has already terminated, or the PTY write fails.
    pub fn write_bytes(&mut self, pane_id: PaneId, bytes: &[u8]) -> (r: Result<()>)
        requires
            old(self).wf(),
        ensures
            goes_on(final(self).posted(), old(self).posted()),
            final(self).wf(),
            !old(self)@.has(pane_id) ==> error_of(r) == Some(ManagerView::unknown(pane_id))
                && final(self)@ == old(self)@,
            old(self)@.has(pane_id) ==> sends(
                r,
                final(self)@,
                old(self)@,
                pane_id,
                bytes@,
                InputKind::Bytes,
            ),
    {
        self.send_raw_bytes(pane_id, bytes, InputKind::Bytes)
    }
}

/// What sending bytes to a pane comes to: it is refused without a process,
/// fails on a pane that has ended, and else the bytes are written and every
/// failure is the writer's. What was sent, and what failed, is reported.
pub open spec fn sends(
    r: Result<()>,
    after: ManagerView,
    before: ManagerView,
    id: PaneId,
    bytes: Seq<u8>,
    input_kind: InputKind,
) -> bool {
    &&& after == before.renewed(id, after.pane(id))
    &&& pane_sends(after.pane(id), before.pane(id), bytes, input_kind, error_of(r))
}

/// What sending an input event to a pane comes to, if its surface tells of these
/// modes: the bytes it encodes to are sent, if there are any.
pub open spec fn sends_input(
    r: Result<()>,
    after: ManagerView,
    before: ManagerView,
    id: PaneId,
    input: HostInput,
    told: TerminalModes,
) -> bool {
    let core = before.pane(id).core;
    let bytes = input_bytes(input, core.input, merged(core.overlay.flags, told));
    &&& before.pane(id).screen.tells(told)
    &&& if bytes.len() == 0 {
        r is Ok && after == before
    } else {
        sends(r, after, before, id, bytes, input_kind(input))
    }
}

impl PaneManager {
    /// Sends encoded input to a pane.
    ///
    /// The input is encoded for the pane's input configuration and the modes
    /// that its terminal is in. Input that encodes to nothing is not sent. A
    /// mouse event that its terminal reports needs coordinates that fit.
    ///
    /// # Errors
    ///
    /// Returns an error if the pane was not found, or as
    /// [`PaneManager::write_bytes`] does.
    pub fn send_input(&mut self, pane_id: PaneId, input: HostInput) -> (r: Result<()>)
        requires
            old(self).wf(),
            old(self)@.has(pane_id) ==> forall|told: TerminalModes| #[trigger]
                old(self)@.pane(pane_id).screen.tells(told) ==> input_fits(
                    input,
                    merged(old(self)@.pane(pane_id).core.overlay.flags, told),
                ),
        ensures
            goes_on(final(self).posted(), old(self).posted()),
            final(self).wf(),
            !old(self)@.has(pane_id) ==> error_of(r) == Some(ManagerView::unknown(pane_id))
                && final(self)@ == old(self)@,
            old(self)@.has(pane_id) ==> exists|told: TerminalModes|
                #[trigger] sends_input(r, final(self)@, old(self)@, pane_id, input, told),
    {
        let ghost before = self@;
        match self.find(pane_id) {
            None => Err(not_found(pane_id)),
            Some(k) => {
                let modes = self.panes[k].modes();
                let encoder = XtermEncoder::new(self.panes[k].books().input_config());
                let ghost core = before.pane(pane_id).core;
                let ghost told = choose|told: TerminalModes|
                    modes == #[trigger] merged(core.overlay.flags, told) && before.pane(
                        pane_id,
                    ).screen.tells(told);
                assert(modes == merged(core.overlay.flags, told));
                match encoder.encode(&input, &modes) {
                    Ok(bytes) => {
                        if bytes.len() == 0 {
                            let r = Ok(());
                            assert(sends_input(r, self@, before, pane_id, input, told));
                            return r;
                        }
                        let kind = classify_input_kind(&input);
                        let r = self.send_raw_bytes(pane_id, bytes.as_slice(), kind);
                        assert(sends_input(r, self@, before, pane_id, input, told));
                        r
                    },
                    Err(error) => Err(error),
                }
            },
        }
    }

    /// Returns a read-only snapshot of pane state.
    ///
    /// Polls the pane's PTY for pending frames before returning so the caller
    /// always observes the most up-to-date state.
    ///
    /// # Errors
    ///
    /// Returns an error if the pane was not found.
    pub fn snapshot(&mut self, pane_id: PaneId) -> (r: Result<PaneSnapshot<'_>>)
        requires
            old(self).wf(),
        ensures
            goes_on(final(self).posted(), old(self).posted()),
            final(self).wf(),
            match r {
                Ok(snapshot) => {
                    &&& old(self)@.has(pane_id)
                    &&& polled(
                        final(self)@,
                        old(self)@,
                        pane_id,
                        old(self)@.config.drain_limit as nat,
                    )
                    &&& exists|showing: Showing|
                        snapshot@ == #[trigger] final(self)@.pane(pane_id).core.pictured(showing)
                            && final(self)@.pane(pane_id).shows(showing)
                },
                Err(e) => !old(self)@.has(pane_id) && e@ == ManagerView::unknown(pane_id)
                    && final(self)@ == old(self)@,
            },
    {
        self.poll_pane_frames(pane_id);
        match self.find(pane_id) {
            None => Err(not_found(pane_id)),
            Some(k) => Ok(self.panes[k].snapshot()),
        }
    }

    /// Returns a range-aware scrollback reader for a pane.
    ///
    /// Polls the pane's PTY for pending frames before returning. What the
    /// reader holds is what the surface keeps.
    ///
    /// # Errors
    ///
    /// Returns an error if the pane was not found.
    pub fn scrollback(&mut self, pane_id: PaneId) -> (r: Result<ScrollbackReader<'_>>)
        requires
            old(self).wf(),
        ensures
            goes_on(final(self).posted(), old(self).posted()),
            final(self).wf(),
            match r {
                Ok(reader) => old(self)@.has(pane_id) && polled(
                    final(self)@,
                    old(self)@,
                    pane_id,
                    old(self)@.config.drain_limit as nat,
                ) && final(self)@.pane(pane_id).screen.keeps(reader@),
                Err(e) => !old(self)@.has(pane_id) && e@ == ManagerView::unknown(pane_id)
                    && final(self)@ == old(self)@,
            },
    {
        self.poll_pane_frames(pane_id);
        match self.find(pane_id) {
            None => Err(not_found(pane_id)),
            Some(k) => Ok(ScrollbackReader::new(self.panes[k].scrollback())),
        }
    }

    /// Returns a range-aware transcript reader for a pane.
    ///
    /// Polls the pane's PTY for pending frames before returning so the caller
    /// always observes the most up-to-date retained transcript buffers.
    ///
    /// # Errors
    ///
    /// Returns an error if the pane was not found.
    pub fn transcript(&mut self, pane_id: PaneId) -> (r: Result<TranscriptReader<'_>>)
        requires
            old(self).wf(),
        ensures
            goes_on(final(self).posted(), old(self).posted()),
            final(self).wf(),
            match r {
                Ok(reader) => {
                    let kept = final(self)@.pane(pane_id).core.transcript;
                    &&& old(self)@.has(pane_id)
                    &&& polled(
                        final(self)@,
                        old(self)@,
                        pane_id,
                        old(self)@.config.drain_limit as nat,
                    )
                    &&& reader.raw_start() == kept.raw_start
                    &&& reader.plain_start() == kept.plain_start
                    &&& reader.raw() == all_raw(kept.chunks)
                    &&& reader.plain() == all_plain(kept.chunks)
                },
                Err(e) => !old(self)@.has(pane_id) && e@ == ManagerView::unknown(pane_id)
                    && final(self)@ == old(self)@,
            },
    {
        self.poll_pane_frames(pane_id);
        match self.find(pane_id) {
            None => Err(not_found(pane_id)),
            Some(k) => {
                let transcript = self.panes[k].books().transcript();
                Ok(
                    TranscriptReader::new(
                        transcript.retained_raw_start_offset(),
                        transcript.retained_plain_start_offset(),
                        transcript.raw_bytes(),
                        transcript.plain_text(),
                    ),
                )
            },
        }
    }

    /// Returns the latest pane-scoped event sequence number emitted so far.
    ///
    /// Polls the pane's PTY for pending frames before returning so the caller
    /// can seed attach sessions from the current sequence.
    ///
    /// # Errors
    ///
    /// Returns an error if the pane was not found.
    pub fn last_seq(&mut self, pane_id: PaneId) -> (r: Result<u64>)
        requires
            old(self).wf(),
        ensures
            goes_on(final(self).posted(), old(self).posted()),
            final(self).wf(),
            match r {
                Ok(seq) => old(self)@.has(pane_id) && polled(
                    final(self)@,
                    old(self)@,
                    pane_id,
                    old(self)@.config.drain_limit as nat,
                ) && seq == final(self)@.pane(pane_id).core.log.len(),
                Err(e) => !old(self)@.has(pane_id) && e@ == ManagerView::unknown(pane_id)
                    && final(self)@ == old(self)@,
            },
    {
        self.poll_pane_frames(pane_id);
        match self.find(pane_id) {
            None => Err(not_found(pane_id)),
            Some(k) => Ok(self.panes[k].books().event_log().len() as u64),
        }
    }

    /// Returns the raw byte transcript for a pane.
    ///
    /// # Errors
    ///
    /// Returns an error if the pane was not found.
    pub fn raw_transcript(&self, pane_id: PaneId) -> (r: Result<&[u8]>)
        requires
            self.wf(),
        ensures
            match r {
                Ok(bytes) => self@.has(pane_id) && bytes@ == all_raw(
                    self@.pane(pane_id).core.transcript.chunks,
                ),
                Err(e) => !self@.has(pane_id) && e@ == ManagerView::unknown(pane_id),
            },
    {
        match self.find(pane_id) {
            None => Err(not_found(pane_id)),
            Some(k) => Ok(self.panes[k].books().transcript().raw_bytes()),
        }
    }

    /// Returns the plain text transcript for a pane.
    ///
    /// # Errors
    ///
    /// Returns an error if the pane was not found.
    pub fn plain_transcript(&self, pane_id: PaneId) -> (r: Result<&str>)
        requires
            self.wf(),
        ensures
            match r {
                Ok(text) => self@.has(pane_id) && text@ == all_plain(
                    self@.pane(pane_id).core.transcript.chunks,
                ),
                Err(e) => !self@.has(pane_id) && e@ == ManagerView::unknown(pane_id),
            },
    {
        match self.find(pane_id) {
            None => Err(not_found(pane_id)),
            Some(k) => Ok(self.panes[k].books().transcript().plain_text()),
        }
    }

    /// Subscribes to future pane events through a channel.
    ///
    /// Each call creates a fresh receiver that only observes events emitted
    /// after the subscription is created. The returned channel is unbounded.
    pub fn subscribe(&mut self) -> (receiver: Receiver<PaneEvent>)
        requires
            old(self).wf(),
        ensures
            goes_on(final(self).posted(), old(self).posted()),
            final(self).wf(),
            final(self)@ == old(self)@,
            exists|sender: Sender<PaneEvent>|
                #[trigger] are_halves(sender, receiver) && final(self).subscribers() == old(
                    self,
                ).subscribers().push(sender),
    {
        let (sender, receiver) = event_channel();
        let ghost half = sender;
        assert(are_halves(half, receiver));
        let ghost known = self.subscribers@;
        self.subscribers.push(sender);
        proof {
            if self.mail@.len() > 0 {
                let last = self.mail@.last().after;
                assert(last.is_prefix_of(known));
                assert(last =~= self.subscribers@.subrange(0, last.len() as int));
            }
        }
        receiver
    }

    /// Installs a sink that receives every newly emitted pane event.
    ///
    /// Calling this method again replaces the previously installed sink. The
    /// sink is called synchronously on the event emission path.
    pub fn set_event_sink(&mut self, sink: Box<dyn EventSink>)
        requires
            old(self).wf(),
        ensures
            goes_on(final(self).posted(), old(self).posted()),
            final(self).wf(),
            final(self)@ == (ManagerView { sink: final(self)@.sink, ..old(self)@ }),
            final(self)@.sink matches Some(listener) && listener.holds(&*sink),
            final(self).subscribers() == old(self).subscribers(),
    {
        self.event_sink = Some(Listener::new(sink));
    }

    /// Clears any installed sink.
    pub fn clear_event_sink(&mut self)
        requires
            old(self).wf(),
        ensures
            goes_on(final(self).posted(), old(self).posted()),
            final(self).wf(),
            final(self)@ == (ManagerView { sink: None, ..old(self)@ }),
            final(self).subscribers() == old(self).subscribers(),
    {
        self.event_sink = None;
    }
}

} // verus!

//! What holds of every session, whatever its worker reports.

use vstd::prelude::*;
use crate::esp_comm::{
    disconnected_after, open_after, silent_while_disconnected, CommandView, StatusView,
};
use crate::log::Note;
use crate::session::{
    after_externals, after_sending, after_statuses, labelled, last_is_dropped, latest_reading,
    reason_text, reconciled, saw_disconnected, sender_is_stale, sending_notes, steps_in_order,
    OwnerStep, SessionView,
};
use crate::telemetry::is_number_text;
use crate::worker::{WorkerEventView, WorkerStateView};
use crate::worker_laws::{
    law_connected_once, law_silent_while_disconnected, link_closed, link_open, run_spec,
};

verus! {

/// The connectivity flag follows the reports: after a reconciliation pass
/// it is what the last `Connected` or `Disconnected` among them says, and
/// what it was before where there is neither.
pub proof fn law_connectivity_follows_reports(s: SessionView, reports: Seq<StatusView>)
    ensures
        reconciled(s, reports).connected == open_after(s.connected, reports),
    decreases reports.len(),
{
    if reports.len() > 0 {
        law_connectivity_follows_reports(s, reports.drop_last());
    }
}

/// A pass without a `Disconnected` leaves the thread and the receiver
/// where they were; a pass with one leaves the session with neither, and
/// without a sender.
pub proof fn law_disconnected_reclaims_worker(s: SessionView, reports: Seq<StatusView>)
    ensures
        !saw_disconnected(reports) ==> reconciled(s, reports).has_thread == s.has_thread
            && reconciled(s, reports).has_receiver == s.has_receiver,
        saw_disconnected(reports) ==> !reconciled(s, reports).has_thread && !reconciled(
            s,
            reports,
        ).has_receiver && !reconciled(s, reports).has_sender,
    decreases reports.len(),
{
    if reports.len() > 0 {
        let earlier = reports.drop_last();
        law_disconnected_reclaims_worker(s, earlier);
        if saw_disconnected(earlier) {
            let i = choose|i: int| 0 <= i < earlier.len() && #[trigger] earlier[i] is Disconnected;
            assert(reports[i] is Disconnected);
        }
        if reports.last() is Disconnected {
            assert(reports[reports.len() - 1] is Disconnected);
        }
        if saw_disconnected(reports) && !(reports.last() is Disconnected) {
            let i = choose|i: int| 0 <= i < reports.len() && #[trigger] reports[i] is Disconnected;
            assert(earlier[i] is Disconnected);
        }
    }
}

/// After a reconciliation pass the session never holds a sender for a
/// thread that is gone.
pub proof fn law_no_stale_sender(s: SessionView, reports: Seq<StatusView>)
    ensures
        !sender_is_stale(reconciled(s, reports)),
{
}

/// A `StopThread` that could not be delivered changes nothing and is not
/// even noted: the worker was gone already.
pub proof fn law_failed_stop_is_swallowed(s: SessionView, failure: Option<Seq<char>>)
    ensures
        after_sending(s, CommandView::StopThread, failure) == s,
        sending_notes(s.label, CommandView::StopThread, failure) == Seq::<Note>::empty(),
{
}

/// While the manual override is set, no run of setpoints from outside
/// changes the session.
pub proof fn law_override_shields_target(s: SessionView, values: Seq<i8>)
    requires
        s.manual_override,
    ensures
        after_externals(s, values) == s,
    decreases values.len(),
{
    if values.len() > 0 {
        law_override_shields_target(s, values.drop_last());
    }
}

/// Without the override, the last setpoint of a run is the target.
pub proof fn law_last_setpoint_wins(s: SessionView, values: Seq<i8>)
    requires
        !s.manual_override,
        values.len() > 0,
    ensures
        after_externals(s, values) == (SessionView { target_temperature: values.last(), ..s }),
    decreases values.len(),
{
    if values.len() > 1 {
        law_last_setpoint_wins(s, values.drop_last());
    } else {
        assert(after_externals(s, values.drop_last()) == s);
    }
}

/// Values that are no numbers leave the reading as it was.
pub proof fn law_bad_values_keep_reading(earlier: Option<Seq<char>>, values: Seq<Seq<char>>)
    requires
        forall|i: int| 0 <= i < values.len() ==> !is_number_text(#[trigger] values[i]),
    ensures
        latest_reading(earlier, values) == earlier,
    decreases values.len(),
{
    if values.len() > 0 {
        let rest = values.drop_last();
        assert forall|i: int| 0 <= i < rest.len() implies !is_number_text(#[trigger] rest[i]) by {
            assert(rest[i] == values[i]);
        }
        law_bad_values_keep_reading(earlier, rest);
        assert(!is_number_text(values[values.len() - 1]));
    }
}

/// A reading, once there is one, is always the text of a number, as long
/// as it was one to begin with.
pub proof fn law_reading_is_a_number(earlier: Option<Seq<char>>, values: Seq<Seq<char>>)
    requires
        earlier is Some ==> is_number_text(earlier->0),
    ensures
        latest_reading(earlier, values) is Some ==> is_number_text(
            latest_reading(earlier, values)->0,
        ),
    decreases values.len(),
{
    if values.len() > 0 {
        law_reading_is_a_number(earlier, values.drop_last());
    }
}

/// The owner sees the link as the worker has it. For a worker that
/// started idle and a session that counted the link as closed then: once
/// the session has taken in all that the worker reported over any events,
/// it counts the link as open where the worker holds an open link, and as
/// closed where the worker is idle or opening.
pub proof fn law_owner_sees_link(s: SessionView, events: Seq<WorkerEventView>)
    requires
        !s.connected,
    ensures
        link_open(run_spec(WorkerStateView::Idle, events).0) ==> reconciled(
            s,
            run_spec(WorkerStateView::Idle, events).1,
        ).connected,
        link_closed(run_spec(WorkerStateView::Idle, events).0) ==> !reconciled(
            s,
            run_spec(WorkerStateView::Idle, events).1,
        ).connected,
{
    law_connected_once(WorkerStateView::Idle, false, events);
    law_connectivity_follows_reports(s, run_spec(WorkerStateView::Idle, events).1);
}

/// The owner's steps come in an order that lets every join return: a
/// stop is sent before the sender is dropped, and both come before the
/// worker is joined.
pub proof fn law_sender_goes_before_join(
    stop: bool,
    sender: bool,
    join: bool,
    discard: bool,
    receiver: bool,
)
    ensures
        ({
            let steps = steps_in_order(stop, sender, join, discard, receiver);
            &&& forall|i: int, j: int|
                0 <= i < steps.len() && 0 <= j < steps.len() && steps[i] == OwnerStep::DropSender
                    && steps[j] == OwnerStep::JoinWorker ==> i < j
            &&& forall|i: int, j: int|
                0 <= i < steps.len() && 0 <= j < steps.len() && steps[i] == OwnerStep::SendStop
                    && (steps[j] == OwnerStep::DropSender || steps[j] == OwnerStep::JoinWorker)
                    ==> i < j
            &&& stop ==> steps.contains(OwnerStep::SendStop)
            &&& sender ==> steps.contains(OwnerStep::DropSender)
            &&& join ==> steps.contains(OwnerStep::JoinWorker)
        }),
{
    let steps = steps_in_order(stop, sender, join, discard, receiver);
    let at_sender: int = if stop { 1 } else { 0 };
    let at_join: int = at_sender + if sender { 1int } else { 0 };
    if stop {
        assert(steps[0] == OwnerStep::SendStop);
    }
    if sender {
        assert(steps[at_sender] == OwnerStep::DropSender);
    }
    if join {
        assert(steps[at_join] == OwnerStep::JoinWorker);
    }
}

/// The reports of a session keep the name of the device.
pub proof fn lemma_reports_keep_label(s: SessionView, reports: Seq<StatusView>)
    ensures
        after_statuses(s, reports).label == s.label,
    decreases reports.len(),
{
    if reports.len() > 0 {
        lemma_reports_keep_label(s, reports.drop_last());
    }
}

/// The reason of the last `Disconnected` among `reports`.
pub open spec fn last_reason(reports: Seq<StatusView>) -> Option<Seq<char>>
    decreases reports.len(),
{
    if reports.len() == 0 {
        None
    } else {
        match reports.last() {
            StatusView::Disconnected(reason) => reason,
            _ => last_reason(reports.drop_last()),
        }
    }
}

/// After a `Disconnected` the owner shows no `Error` in its place. Over
/// any reports of one pass: where the last `Connected` or `Disconnected`
/// among them is a `Disconnected`, the session shows the reason of that
/// disconnection as its status text, whatever came after it.
pub proof fn law_disconnect_reason_stays(s: SessionView, reports: Seq<StatusView>)
    requires
        disconnected_after(false, reports),
    ensures
        reconciled(s, reports).status_message == labelled(
            s.label,
            reason_text(last_reason(reports)),
        ),
        !reconciled(s, reports).connected,
    decreases reports.len(),
{
    if reports.len() > 0 {
        lemma_reports_keep_label(s, reports.drop_last());
        if !(reports.last() is Disconnected) {
            law_disconnect_reason_stays(s, reports.drop_last());
        }
    }
}

/// Reports that keep silent between a `Disconnected` and the next
/// `Connected` are all taken in: a pass drops none of them.
pub proof fn lemma_silent_reports_are_heard(reports: Seq<StatusView>)
    requires
        silent_while_disconnected(false, reports),
    ensures
        forall|n: int| 0 < n <= reports.len() ==> !last_is_dropped(#[trigger] reports.take(n)),
    decreases reports.len(),
{
    if reports.len() > 0 {
        let earlier = reports.drop_last();
        lemma_silent_reports_are_heard(earlier);
        assert forall|n: int| 0 < n <= reports.len() implies !last_is_dropped(
            #[trigger] reports.take(n),
        ) by {
            if n < reports.len() {
                assert(reports.take(n) =~= earlier.take(n));
            } else {
                assert(reports.take(n) =~= reports);
            }
        }
    }
}

/// No report of a worker is ever dropped by its owner: over any events,
/// from any state, a pass over what the worker reported takes in each
/// report.
pub proof fn law_worker_is_heard_in_full(state: WorkerStateView, events: Seq<WorkerEventView>)
    ensures
        forall|n: int|
            0 < n <= run_spec(state, events).1.len() ==> !last_is_dropped(
                #[trigger] run_spec(state, events).1.take(n),
            ),
{
    law_silent_while_disconnected(state, false, events);
    lemma_silent_reports_are_heard(run_spec(state, events).1);
}

} // verus!

//! What holds of every run of the worker's state machine.

use vstd::prelude::*;
use crate::esp_comm::{
    connects_once, disconnected_after, lemma_connects_once_concat, lemma_open_after_concat,
    open_after, silent_while_disconnected, StatusView,
};
use crate::worker::{
    flush_failure_text, read_failure_text, step_spec, write_failure_text, WorkerActionView,
    WorkerEventView, WorkerStateView,
};

verus! {

/// The reports among `actions`, in order.
pub open spec fn reports_of(actions: Seq<WorkerActionView>) -> Seq<StatusView>
    decreases actions.len(),
{
    if actions.len() == 0 {
        Seq::empty()
    } else {
        match actions.last() {
            WorkerActionView::Emit(status) => reports_of(actions.drop_last()).push(status),
            _ => reports_of(actions.drop_last()),
        }
    }
}

/// The state after `events`, one after the other, and all that was reported
/// on the way.
pub open spec fn run_spec(state: WorkerStateView, events: Seq<WorkerEventView>) -> (
    WorkerStateView,
    Seq<StatusView>,
)
    decreases events.len(),
{
    if events.len() == 0 {
        (state, Seq::empty())
    } else {
        let before = run_spec(state, events.drop_last());
        let step = step_spec(before.0, events.last());
        (step.0, before.1 + reports_of(step.1))
    }
}

/// The worker holds no open link and has not ended.
pub open spec fn link_closed(state: WorkerStateView) -> bool {
    state is Idle || state is Opening || state is Closed || state is Reopening
}

/// The worker holds an open link.
pub open spec fn link_open(state: WorkerStateView) -> bool {
    state is Connected || state is Sending || state is Reading
}

proof fn lemma_scan_by_push()
    ensures
        forall|a: Seq<WorkerActionView>, x: WorkerActionView| #[trigger]
            reports_of(a.push(x)) == (match x {
                WorkerActionView::Emit(status) => reports_of(a).push(status),
                _ => reports_of(a),
            }),
        forall|open: bool, r: Seq<StatusView>, s: StatusView| #[trigger]
            open_after(open, r.push(s)) == (match s {
                StatusView::Connected => true,
                StatusView::Disconnected(_) => false,
                _ => open_after(open, r),
            }),
        forall|open: bool, r: Seq<StatusView>, s: StatusView| #[trigger]
            connects_once(open, r.push(s)) == (connects_once(open, r) && (s is Connected
                ==> !open_after(open, r))),
{
    assert forall|a: Seq<WorkerActionView>, x: WorkerActionView| #[trigger]
        reports_of(a.push(x)) == (match x {
            WorkerActionView::Emit(status) => reports_of(a).push(status),
            _ => reports_of(a),
        }) by {
        assert(a.push(x).drop_last() =~= a);
    }
    assert forall|open: bool, r: Seq<StatusView>, s: StatusView| #[trigger]
        open_after(open, r.push(s)) == (match s {
            StatusView::Connected => true,
            StatusView::Disconnected(_) => false,
            _ => open_after(open, r),
        }) by {
        assert(r.push(s).drop_last() =~= r);
    }
    assert forall|open: bool, r: Seq<StatusView>, s: StatusView| #[trigger]
        connects_once(open, r.push(s)) == (connects_once(open, r) && (s is Connected
            ==> !open_after(open, r))) by {
        assert(r.push(s).drop_last() =~= r);
    }
}

/// One `Error` and then one `Disconnected`, both with the same words.
pub open spec fn failure_reports(text: Seq<char>) -> Seq<StatusView> {
    Seq::empty().push(StatusView::Error(text)).push(StatusView::Disconnected(Some(text)))
}

/// A transport failure under an open link is reported as one `Error`
/// followed by one `Disconnected` with the same words, and leaves the worker
/// closed.
pub proof fn law_transport_failure(why: Seq<char>)
    ensures
        step_spec(WorkerStateView::Sending, WorkerEventView::WriteFailed(why)).0 is Closed,
        reports_of(step_spec(WorkerStateView::Sending, WorkerEventView::WriteFailed(why)).1)
            == failure_reports(write_failure_text(why)),
        step_spec(WorkerStateView::Sending, WorkerEventView::FlushFailed(why)).0 is Closed,
        reports_of(step_spec(WorkerStateView::Sending, WorkerEventView::FlushFailed(why)).1)
            == failure_reports(flush_failure_text(why)),
        step_spec(WorkerStateView::Reading, WorkerEventView::ReadFailed(why)).0 is Closed,
        reports_of(step_spec(WorkerStateView::Reading, WorkerEventView::ReadFailed(why)).1)
            == failure_reports(read_failure_text(why)),
{
    lemma_scan_by_push();
}

/// One step keeps the owner's picture of the link in line with the worker:
/// it reports `Connected` only over a link that counts as closed, and a
/// worker without an open link leaves the link counted as closed.
pub proof fn lemma_step_connects_once(state: WorkerStateView, event: WorkerEventView, open: bool)
    requires
        link_closed(state) ==> !open,
    ensures
        connects_once(open, reports_of(step_spec(state, event).1)),
        link_closed(step_spec(state, event).0) ==> !open_after(
            open,
            reports_of(step_spec(state, event).1),
        ),
        (link_open(state) ==> open) ==> (link_open(step_spec(state, event).0) ==> open_after(
            open,
            reports_of(step_spec(state, event).1),
        )),
{
    lemma_scan_by_push();
}

/// No worker reports `Connected` twice without a `Disconnected` between
/// them: over any events, from any state, given that `open` is false
/// wherever the worker starts without an open link. What the reports leave
/// behind is in line with the worker: closed where the worker has no open
/// link, and open where it has one, given that it was so at the start.
pub proof fn law_connected_once(state: WorkerStateView, open: bool, events: Seq<WorkerEventView>)
    requires
        link_closed(state) ==> !open,
    ensures
        connects_once(open, run_spec(state, events).1),
        link_closed(run_spec(state, events).0) ==> !open_after(open, run_spec(state, events).1),
        (link_open(state) ==> open) ==> (link_open(run_spec(state, events).0) ==> open_after(
            open,
            run_spec(state, events).1,
        )),
    decreases events.len(),
{
    if events.len() > 0 {
        let before = run_spec(state, events.drop_last());
        law_connected_once(state, open, events.drop_last());
        let step = step_spec(before.0, events.last());
        let reports = reports_of(step.1);
        let open_now = open_after(open, before.1);
        lemma_step_connects_once(before.0, events.last(), open_now);
        lemma_connects_once_concat(open, before.1, reports);
        lemma_open_after_concat(open, before.1, reports);
    }
}

/// Every `Error` and `Message` among `reports` comes after a `Connected`.
pub open spec fn silent_until_connected(reports: Seq<StatusView>) -> bool {
    forall|i: int|
        0 <= i < reports.len() && (reports[i] is Error || reports[i] is Message) ==> exists|j: int|
            0 <= j < i && #[trigger] reports[j] is Connected
}

spec fn has_connected(reports: Seq<StatusView>) -> bool {
    exists|j: int| 0 <= j < reports.len() && #[trigger] reports[j] is Connected
}

/// The worker has reported `Disconnected` or `Connected` at some time, or has ended.
pub open spec fn past_idle(state: WorkerStateView) -> bool {
    !(state is Idle) && !(state is Opening)
}

proof fn lemma_step_silent(state: WorkerStateView, event: WorkerEventView)
    requires
        past_idle(state),
    ensures
        ({
            let reports = reports_of(step_spec(state, event).1);
            &&& past_idle(step_spec(state, event).0)
            &&& reports.len() <= 2
            &&& !link_open(state) ==> forall|i: int|
                0 <= i < reports.len() ==> !(#[trigger] reports[i] is Error) && !(reports[i]
                    is Message)
            &&& link_open(step_spec(state, event).0) && !link_open(state) ==> reports.len() == 1
                && reports[0] is Connected
        }),
{
    lemma_scan_by_push();
}

proof fn lemma_run_silent(events: Seq<WorkerEventView>)
    ensures
        silent_until_connected(run_spec(WorkerStateView::Closed, events).1),
        past_idle(run_spec(WorkerStateView::Closed, events).0),
        link_open(run_spec(WorkerStateView::Closed, events).0) ==> has_connected(
            run_spec(WorkerStateView::Closed, events).1,
        ),
    decreases events.len(),
{
    if events.len() > 0 {
        let closed = WorkerStateView::Closed;
        let earlier = events.drop_last();
        lemma_run_silent(earlier);
        let before = run_spec(closed, earlier);
        lemma_step_silent(before.0, events.last());
        let step = step_spec(before.0, events.last());
        let reports = reports_of(step.1);
        let all = before.1 + reports;
        assert forall|i: int|
            0 <= i < all.len() && (all[i] is Error || all[i] is Message) implies exists|j: int|
            0 <= j < i && #[trigger] all[j] is Connected by {
            if i < before.1.len() {
                let j = choose|j: int| 0 <= j < i && #[trigger] before.1[j] is Connected;
                assert(all[j] is Connected);
            } else {
                assert(all[i] == reports[i - before.1.len()]);
                assert(link_open(before.0));
                let j = choose|j: int|
                    0 <= j < before.1.len() && #[trigger] before.1[j] is Connected;
                assert(all[j] is Connected);
            }
        }
        if link_open(step.0) {
            if link_open(before.0) {
                let j = choose|j: int|
                    0 <= j < before.1.len() && #[trigger] before.1[j] is Connected;
                assert(all[j] is Connected);
            } else {
                assert(all[before.1.len() as int] == reports[0]);
                assert(all[before.1.len() as int] is Connected);
            }
        }
    }
}

/// Once a worker is closed, as after a transport failure or a disconnect,
/// it reports no `Error` and no `Message` until it has reported `Connected`
/// again: whatever it is told, in whatever order.
pub proof fn law_silent_until_reconnected(events: Seq<WorkerEventView>)
    ensures
        silent_until_connected(run_spec(WorkerStateView::Closed, events).1),
{
    lemma_run_silent(events);
}

/// Running over `first + next` is running over `first` and going on over `next`.
pub proof fn lemma_run_concat(
    state: WorkerStateView,
    first: Seq<WorkerEventView>,
    next: Seq<WorkerEventView>,
)
    ensures
        run_spec(state, first + next).0 == run_spec(run_spec(state, first).0, next).0,
        run_spec(state, first + next).1 == run_spec(state, first).1 + run_spec(
            run_spec(state, first).0,
            next,
        ).1,
    decreases next.len(),
{
    if next.len() == 0 {
        assert(first + next =~= first);
        assert(run_spec(state, first).1 + Seq::<StatusView>::empty() =~= run_spec(state, first).1);
    } else {
        assert((first + next).drop_last() =~= first + next.drop_last());
        assert((first + next).last() == next.last());
        lemma_run_concat(state, first, next.drop_last());
        let middle = run_spec(state, first);
        let before = run_spec(middle.0, next.drop_last());
        let last = reports_of(step_spec(before.0, next.last()).1);
        assert((middle.1 + before.1) + last =~= middle.1 + (before.1 + last));
    }
}

/// A write that fails, and whatever comes after it: the worker reports one
/// `Error`, then one `Disconnected` with the same words, and after these no
/// `Error` and no `Message` before it has reported `Connected` again,
/// whatever commands were queued behind the one that failed.
pub proof fn law_failure_then_silence(why: Seq<char>, events: Seq<WorkerEventView>)
    ensures
        run_spec(
            WorkerStateView::Sending,
            Seq::empty().push(WorkerEventView::WriteFailed(why)) + events,
        ).1 == failure_reports(write_failure_text(why)) + run_spec(
            WorkerStateView::Closed,
            events,
        ).1,
        silent_until_connected(run_spec(WorkerStateView::Closed, events).1),
{
    let failed = Seq::empty().push(WorkerEventView::WriteFailed(why));
    law_transport_failure(why);
    assert(failed.drop_last() =~= Seq::<WorkerEventView>::empty());
    assert(run_spec(WorkerStateView::Sending, failed.drop_last()).1 =~= Seq::<StatusView>::empty());
    assert(run_spec(WorkerStateView::Sending, failed).1 =~= failure_reports(
        write_failure_text(why),
    ));
    lemma_run_concat(WorkerStateView::Sending, failed, events);
    law_silent_until_reconnected(events);
}

proof fn lemma_disconnected_after_concat(before: bool, a: Seq<StatusView>, b: Seq<StatusView>)
    ensures
        disconnected_after(before, a + b) == disconnected_after(disconnected_after(before, a), b),
    decreases b.len(),
{
    if b.len() == 0 {
        assert(a + b =~= a);
    } else {
        assert((a + b).drop_last() =~= a + b.drop_last());
        assert((a + b).last() == b.last());
        lemma_disconnected_after_concat(before, a, b.drop_last());
    }
}

proof fn lemma_silent_concat(before: bool, a: Seq<StatusView>, b: Seq<StatusView>)
    ensures
        silent_while_disconnected(before, a + b) == (silent_while_disconnected(before, a)
            && silent_while_disconnected(disconnected_after(before, a), b)),
    decreases b.len(),
{
    if b.len() == 0 {
        assert(a + b =~= a);
    } else {
        assert((a + b).drop_last() =~= a + b.drop_last());
        assert((a + b).last() == b.last());
        lemma_silent_concat(before, a, b.drop_last());
        lemma_disconnected_after_concat(before, a, b.drop_last());
    }
}

proof fn lemma_silence_by_push()
    ensures
        forall|before: bool, r: Seq<StatusView>, s: StatusView| #[trigger]
            disconnected_after(before, r.push(s)) == (match s {
                StatusView::Disconnected(_) => true,
                StatusView::Connected => false,
                _ => disconnected_after(before, r),
            }),
        forall|before: bool, r: Seq<StatusView>, s: StatusView| #[trigger]
            silent_while_disconnected(before, r.push(s)) == (silent_while_disconnected(before, r)
                && ((s is Error || s is Message) ==> !disconnected_after(before, r))),
{
    assert forall|before: bool, r: Seq<StatusView>, s: StatusView| #[trigger]
        disconnected_after(before, r.push(s)) == (match s {
            StatusView::Disconnected(_) => true,
            StatusView::Connected => false,
            _ => disconnected_after(before, r),
        }) by {
        assert(r.push(s).drop_last() =~= r);
    }
    assert forall|before: bool, r: Seq<StatusView>, s: StatusView| #[trigger]
        silent_while_disconnected(before, r.push(s)) == (silent_while_disconnected(before, r)
            && ((s is Error || s is Message) ==> !disconnected_after(before, r))) by {
        assert(r.push(s).drop_last() =~= r);
    }
}

/// The worker is closed, is opening again, or has ended.
pub open spec fn stays_silent(state: WorkerStateView) -> bool {
    state is Closed || state is Reopening || state is Stopped
}

proof fn lemma_step_silent_while_disconnected(
    state: WorkerStateView,
    event: WorkerEventView,
    before: bool,
)
    requires
        before ==> stays_silent(state),
    ensures
        silent_while_disconnected(before, reports_of(step_spec(state, event).1)),
        disconnected_after(before, reports_of(step_spec(state, event).1)) ==> stays_silent(
            step_spec(state, event).0,
        ),
{
    lemma_scan_by_push();
    lemma_silence_by_push();
}

/// Between a `Disconnected` and the next `Connected` no worker reports an
/// `Error` or a `Message`: over any events, from any state, given that
/// `before` is set only where the worker starts closed, opening again or
/// ended.
pub proof fn law_silent_while_disconnected(
    state: WorkerStateView,
    before: bool,
    events: Seq<WorkerEventView>,
)
    requires
        before ==> stays_silent(state),
    ensures
        silent_while_disconnected(before, run_spec(state, events).1),
        disconnected_after(before, run_spec(state, events).1) ==> stays_silent(
            run_spec(state, events).0,
        ),
    decreases events.len(),
{
    if events.len() > 0 {
        let earlier = run_spec(state, events.drop_last());
        law_silent_while_disconnected(state, before, events.drop_last());
        let reports = reports_of(step_spec(earlier.0, events.last()).1);
        lemma_step_silent_while_disconnected(
            earlier.0,
            events.last(),
            disconnected_after(before, earlier.1),
        );
        lemma_silent_concat(before, earlier.1, reports);
        lemma_disconnected_after_concat(before, earlier.1, reports);
    }
}

/// A worker that has ended does nothing more, whatever it is told.
pub proof fn law_stopped_is_final(event: WorkerEventView)
    ensures
        step_spec(WorkerStateView::Stopped, event).0 is Stopped,
        step_spec(WorkerStateView::Stopped, event).1.len() == 0,
{
}

/// The link is touched only in the state that has it to touch: a port is
/// opened only by an idle or closed worker, written to and read from only by a
/// connected one, and closed only where one is open.
pub proof fn law_link_is_used_in_place(state: WorkerStateView, event: WorkerEventView)
    ensures
        forall|i: int|
            0 <= i < step_spec(state, event).1.len() ==> match #[trigger] step_spec(
                state,
                event,
            ).1[i] {
                WorkerActionView::Open(_, _) => state is Idle || state is Closed,
                WorkerActionView::WriteLine(_) => state is Connected,
                WorkerActionView::Read => state is Connected,
                WorkerActionView::Close => link_open(state),
                _ => true,
            },
{
}

/// A worker that reports `Disconnected` holds no open link afterwards, and
/// where it held one before, it has closed it before the report goes out.
pub proof fn law_disconnected_means_closed(state: WorkerStateView, event: WorkerEventView)
    ensures
        forall|i: int|
            0 <= i < step_spec(state, event).1.len() && (#[trigger] step_spec(state, event).1[i]
                matches WorkerActionView::Emit(StatusView::Disconnected(_))) ==> {
                &&& !link_open(step_spec(state, event).0)
                &&& link_open(state) ==> exists|j: int|
                    0 <= j < i && #[trigger] step_spec(state, event).1[j] is Close
            },
{
    let actions = step_spec(state, event).1;
    assert forall|i: int|
        0 <= i < actions.len() && (#[trigger] actions[i] matches WorkerActionView::Emit(
            StatusView::Disconnected(_),
        )) implies {
        &&& !link_open(step_spec(state, event).0)
        &&& link_open(state) ==> exists|j: int| 0 <= j < i && #[trigger] actions[j] is Close
    } by {
        if link_open(state) {
            if actions[0] is Close {
                assert(0 <= 0 < i && actions[0] is Close);
            } else {
                assert(actions[1] is Close);
            }
        }
    }
}

} // verus!

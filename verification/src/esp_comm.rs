//! The messages exchanged between a device worker and its owner.

use vstd::prelude::*;

verus! {

/// A request from the owner to a device worker.
#[derive(Clone, Debug, PartialEq, Eq)]
pub enum EspCommand {
    /// Open the serial link at this port name and baud rate.
    Connect(String, u32),
    /// Close the serial link; the worker keeps running.
    Disconnect,
    /// Write this line of text to the device.
    SendCommand(String),
    /// Close the link and end the worker.
    StopThread,
}

/// A report from a device worker to its owner.
#[derive(Clone, Debug, PartialEq, Eq)]
pub enum EspStatus {
    /// The serial link is open.
    Connected,
    /// The serial link is closed, with the reason where one is known.
    Disconnected(Option<String>),
    /// Something failed; the text says what.
    Error(String),
    /// A line received from the device, or a note from the worker.
    Message(String),
}

/// What an [`EspCommand`] says, with its texts as character sequences.
pub enum CommandView {
    Connect(Seq<char>, u32),
    Disconnect,
    SendCommand(Seq<char>),
    StopThread,
}

/// What an [`EspStatus`] says, with its texts as character sequences.
pub enum StatusView {
    Connected,
    Disconnected(Option<Seq<char>>),
    Error(Seq<char>),
    Message(Seq<char>),
}

impl View for EspCommand {
    type V = CommandView;

    open spec fn view(&self) -> CommandView {
        match *self {
            EspCommand::Connect(port, baud) => CommandView::Connect(port@, baud),
            EspCommand::Disconnect => CommandView::Disconnect,
            EspCommand::SendCommand(text) => CommandView::SendCommand(text@),
            EspCommand::StopThread => CommandView::StopThread,
        }
    }
}

impl View for EspStatus {
    type V = StatusView;

    open spec fn view(&self) -> StatusView {
        match *self {
            EspStatus::Connected => StatusView::Connected,
            EspStatus::Disconnected(Some(reason)) => StatusView::Disconnected(Some(reason@)),
            EspStatus::Disconnected(None) => StatusView::Disconnected(None),
            EspStatus::Error(text) => StatusView::Error(text@),
            EspStatus::Message(text) => StatusView::Message(text@),
        }
    }
}

/// The views of the items of `s`, in order.
pub open spec fn views_of<T: View>(s: Seq<T>) -> Seq<T::V> {
    Seq::new(s.len(), |i: int| s[i]@)
}

/// The link state that a sequence of reports leaves behind, starting from
/// `open`: the last `Connected` or `Disconnected` among them decides.
pub open spec fn open_after(open: bool, reports: Seq<StatusView>) -> bool
    decreases reports.len(),
{
    if reports.len() == 0 {
        open
    } else {
        match reports.last() {
            StatusView::Connected => true,
            StatusView::Disconnected(_) => false,
            _ => open_after(open, reports.drop_last()),
        }
    }
}

/// No `Connected` is reported while the link counts as open.
pub open spec fn connects_once(open: bool, reports: Seq<StatusView>) -> bool
    decreases reports.len(),
{
    if reports.len() == 0 {
        true
    } else {
        &&& connects_once(open, reports.drop_last())
        &&& reports.last() is Connected ==> !open_after(open, reports.drop_last())
    }
}

/// Whether a run of reports ends disconnected: the last `Disconnected` or
/// `Connected` among them is a `Disconnected`; `before` where there is neither.
pub open spec fn disconnected_after(before: bool, reports: Seq<StatusView>) -> bool
    decreases reports.len(),
{
    if reports.len() == 0 {
        before
    } else {
        match reports.last() {
            StatusView::Disconnected(_) => true,
            StatusView::Connected => false,
            _ => disconnected_after(before, reports.drop_last()),
        }
    }
}

/// No `Error` and no `Message` is reported between a `Disconnected` and
/// the next `Connected`; `before` says whether the run begins disconnected.
pub open spec fn silent_while_disconnected(before: bool, reports: Seq<StatusView>) -> bool
    decreases reports.len(),
{
    if reports.len() == 0 {
        true
    } else {
        &&& silent_while_disconnected(before, reports.drop_last())
        &&& (reports.last() is Error || reports.last() is Message) ==> !disconnected_after(
            before,
            reports.drop_last(),
        )
    }
}

/// Scanning `a + b` is scanning `a` and then `b`.
pub proof fn lemma_open_after_concat(open: bool, a: Seq<StatusView>, b: Seq<StatusView>)
    ensures
        open_after(open, a + b) == open_after(open_after(open, a), b),
    decreases b.len(),
{
    if b.len() == 0 {
        assert(a + b =~= a);
    } else {
        assert((a + b).drop_last() =~= a + b.drop_last());
        assert((a + b).last() == b.last());
        lemma_open_after_concat(open, a, b.drop_last());
    }
}

/// `a + b` connects once exactly if `a` does and `b` does after it.
pub proof fn lemma_connects_once_concat(open: bool, a: Seq<StatusView>, b: Seq<StatusView>)
    ensures
        connects_once(open, a + b) == (connects_once(open, a) && connects_once(
            open_after(open, a),
            b,
        )),
    decreases b.len(),
{
    if b.len() == 0 {
        assert(a + b =~= a);
    } else {
        assert((a + b).drop_last() =~= a + b.drop_last());
        assert((a + b).last() == b.last());
        lemma_connects_once_concat(open, a, b.drop_last());
        lemma_open_after_concat(open, a, b.drop_last());
    }
}

} // verus!

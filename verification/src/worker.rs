//! The device worker as a state machine.
//!
//! A worker owns one serial link. It begins idle; once it has reported
//! `Disconnected` it is closed, and says nothing more of errors or messages
//! until a link is open again. The loop that runs it pulls a command or
//! notices that none is pending, hands that to [`worker_step`] as an event,
//! and performs the actions that come back, in order. An action that touches
//! the link (`Open`, `WriteLine`, `Read`) is answered with the event that
//! tells its outcome before the loop pulls again.

use vstd::prelude::*;
use crate::esp_comm::{views_of, CommandView, EspCommand, EspStatus, StatusView};
use crate::text::{join3, trim_text, trimmed};

verus! {

/// Where a worker stands between two events.
#[derive(Clone, Debug, PartialEq, Eq)]
pub enum WorkerState {
    /// No link is open, and none was closed since the worker began.
    Idle,
    /// An `Open` for this port was requested by an idle worker; its outcome is awaited.
    Opening(String),
    /// No link is open: the worker has reported `Disconnected`. Until a
    /// link is open again it reports no `Error` and no `Message`.
    Closed,
    /// An `Open` for this port was requested by a worker that had reported
    /// `Disconnected`; its outcome is awaited.
    Reopening(String),
    /// The link is open and nothing is in flight.
    Connected,
    /// A `WriteLine` was requested; its outcome is awaited.
    Sending,
    /// A `Read` was requested; its outcome is awaited.
    Reading,
    /// The worker has ended.
    Stopped,
}

/// What the loop tells the state machine.
#[derive(Clone, Debug, PartialEq, Eq)]
pub enum WorkerEvent {
    /// A command was pulled from the owner.
    Command(EspCommand),
    /// No command is pending.
    NoCommand,
    /// The owner has dropped its end of the command channel.
    ChannelClosed,
    /// The requested `Open` succeeded.
    Opened,
    /// The requested `Open` failed, with the transport's words.
    OpenFailed(String),
    /// The requested `WriteLine` was written and flushed.
    Sent,
    /// Writing failed, with the transport's words.
    WriteFailed(String),
    /// Flushing failed, with the transport's words.
    FlushFailed(String),
    /// The requested `Read` returned these bytes (possibly none).
    Received(Vec<u8>),
    /// The requested `Read` timed out.
    ReadTimedOut,
    /// The requested `Read` failed otherwise, with the transport's words.
    ReadFailed(String),
}

/// What the state machine asks the loop to do.
#[derive(Clone, Debug, PartialEq, Eq)]
pub enum WorkerAction {
    /// Report this status to the owner; a failure to deliver it is ignored.
    Emit(EspStatus),
    /// Open the port of this name at this baud rate, with a read timeout of one second.
    Open(String, u32),
    /// Write this text, which ends in a newline, and flush.
    WriteLine(String),
    /// Make one bounded read attempt.
    Read,
    /// Close the link.
    Close,
    /// Sleep for the loop's pause of twenty milliseconds.
    Pause,
    /// Leave the loop.
    Exit,
}

pub enum WorkerStateView {
    Idle,
    Opening(Seq<char>),
    Closed,
    Reopening(Seq<char>),
    Connected,
    Sending,
    Reading,
    Stopped,
}

pub enum WorkerEventView {
    Command(CommandView),
    NoCommand,
    ChannelClosed,
    Opened,
    OpenFailed(Seq<char>),
    Sent,
    WriteFailed(Seq<char>),
    FlushFailed(Seq<char>),
    Received(Seq<u8>),
    ReadTimedOut,
    ReadFailed(Seq<char>),
}

pub enum WorkerActionView {
    Emit(StatusView),
    Open(Seq<char>, u32),
    WriteLine(Seq<char>),
    Read,
    Close,
    Pause,
    Exit,
}

impl View for WorkerState {
    type V = WorkerStateView;

    open spec fn view(&self) -> WorkerStateView {
        match *self {
            WorkerState::Idle => WorkerStateView::Idle,
            WorkerState::Opening(port) => WorkerStateView::Opening(port@),
            WorkerState::Closed => WorkerStateView::Closed,
            WorkerState::Reopening(port) => WorkerStateView::Reopening(port@),
            WorkerState::Connected => WorkerStateView::Connected,
            WorkerState::Sending => WorkerStateView::Sending,
            WorkerState::Reading => WorkerStateView::Reading,
            WorkerState::Stopped => WorkerStateView::Stopped,
        }
    }
}

impl View for WorkerEvent {
    type V = WorkerEventView;

    open spec fn view(&self) -> WorkerEventView {
        match *self {
            WorkerEvent::Command(command) => WorkerEventView::Command(command@),
            WorkerEvent::NoCommand => WorkerEventView::NoCommand,
            WorkerEvent::ChannelClosed => WorkerEventView::ChannelClosed,
            WorkerEvent::Opened => WorkerEventView::Opened,
            WorkerEvent::OpenFailed(why) => WorkerEventView::OpenFailed(why@),
            WorkerEvent::Sent => WorkerEventView::Sent,
            WorkerEvent::WriteFailed(why) => WorkerEventView::WriteFailed(why@),
            WorkerEvent::FlushFailed(why) => WorkerEventView::FlushFailed(why@),
            WorkerEvent::Received(bytes) => WorkerEventView::Received(bytes@),
            WorkerEvent::ReadTimedOut => WorkerEventView::ReadTimedOut,
            WorkerEvent::ReadFailed(why) => WorkerEventView::ReadFailed(why@),
        }
    }
}

impl View for WorkerAction {
    type V = WorkerActionView;

    open spec fn view(&self) -> WorkerActionView {
        match *self {
            WorkerAction::Emit(status) => WorkerActionView::Emit(status@),
            WorkerAction::Open(port, baud) => WorkerActionView::Open(port@, baud),
            WorkerAction::WriteLine(line) => WorkerActionView::WriteLine(line@),
            WorkerAction::Read => WorkerActionView::Read,
            WorkerAction::Close => WorkerActionView::Close,
            WorkerAction::Pause => WorkerActionView::Pause,
            WorkerAction::Exit => WorkerActionView::Exit,
        }
    }
}

/// The text that `String::from_utf8_lossy` makes of `bytes`.
pub uninterp spec fn utf8_lossy_text(bytes: Seq<u8>) -> Seq<char>;

/// Decodes `bytes` with `String::from_utf8_lossy`, which puts U+FFFD in
/// place of what is not UTF-8. Nothing is claimed of the text but that it is
/// the one that function makes of these bytes.
#[verifier::external_body]
fn lossy_text(bytes: &Vec<u8>) -> (text: String)
    ensures
        text@ == utf8_lossy_text(bytes@),
{
    String::from_utf8_lossy(bytes.as_slice()).into_owned()
}

/// The report for text that the device sent: the text, trimmed.
pub fn received_message(text: &str) -> (status: EspStatus)
    ensures
        status@ == StatusView::Message(trimmed(text@)),
{
    EspStatus::Message(trim_text(text))
}

pub open spec fn already_connected_text() -> Seq<char> {
    "Already connected or connection attempt in progress."@
}

pub open spec fn not_connected_text() -> Seq<char> {
    "Not connected to ESP. Cannot send command."@
}

pub open spec fn already_disconnected_text() -> Seq<char> {
    "Already disconnected."@
}

pub open spec fn by_user_text() -> Seq<char> {
    "by user"@
}

pub open spec fn stopped_text() -> Seq<char> {
    "ESP worker thread stopped."@
}

pub open spec fn open_failure_text(port: Seq<char>, why: Seq<char>) -> Seq<char> {
    "Failed to connect to "@ + port + ": "@ + why
}

pub open spec fn write_failure_text(why: Seq<char>) -> Seq<char> {
    "Failed to send command: "@ + why + ". Disconnecting."@
}

pub open spec fn flush_failure_text(why: Seq<char>) -> Seq<char> {
    "Failed to flush serial port: "@ + why + ". Disconnecting."@
}

pub open spec fn read_failure_text(why: Seq<char>) -> Seq<char> {
    "Serial read error: "@ + why + ". Disconnecting."@
}

/// `text` followed by the newline that ends a command on the wire.
pub open spec fn wire_line(text: Seq<char>) -> Seq<char> {
    text + "\n"@
}

/// A list of one action.
pub open spec fn one(a: WorkerActionView) -> Seq<WorkerActionView> {
    Seq::empty().push(a)
}

/// A list of two actions.
pub open spec fn two(a: WorkerActionView, b: WorkerActionView) -> Seq<WorkerActionView> {
    Seq::empty().push(a).push(b)
}

/// A list of three actions.
pub open spec fn three(a: WorkerActionView, b: WorkerActionView, c: WorkerActionView) -> Seq<
    WorkerActionView,
> {
    Seq::empty().push(a).push(b).push(c)
}

/// A list of four actions.
pub open spec fn four(
    a: WorkerActionView,
    b: WorkerActionView,
    c: WorkerActionView,
    d: WorkerActionView,
) -> Seq<WorkerActionView> {
    Seq::empty().push(a).push(b).push(c).push(d)
}

/// What a worker does when the transport fails under an open link: it
/// reports the error, closes the link and reports the disconnection with the
/// same words.
pub open spec fn teardown(text: Seq<char>) -> Seq<WorkerActionView> {
    four(
        WorkerActionView::Emit(StatusView::Error(text)),
        WorkerActionView::Close,
        WorkerActionView::Emit(StatusView::Disconnected(Some(text))),
        WorkerActionView::Pause,
    )
}

/// The transition table: the state after `event` in `state`, and the actions
/// to perform, in order. An event that the state does not await changes
/// nothing and asks for nothing.
///
/// A worker that has reported `Disconnected` is `Closed`, not `Idle`. Until
/// it holds an open link again it reports no `Error` and no `Message`:
/// commands to send or to disconnect are dropped, and an open that fails is
/// reported as one more `Disconnected`, with the failure as its reason.
pub open spec fn step_spec(state: WorkerStateView, event: WorkerEventView) -> (
    WorkerStateView,
    Seq<WorkerActionView>,
) {
    match (state, event) {
        (WorkerStateView::Idle, WorkerEventView::Command(CommandView::Connect(port, baud))) => (
            WorkerStateView::Opening(port),
            one(WorkerActionView::Open(port, baud)),
        ),
        (WorkerStateView::Idle, WorkerEventView::Command(CommandView::SendCommand(_))) => (
            WorkerStateView::Idle,
            two(
                WorkerActionView::Emit(StatusView::Error(not_connected_text())),
                WorkerActionView::Pause,
            ),
        ),
        (WorkerStateView::Idle, WorkerEventView::Command(CommandView::Disconnect)) => (
            WorkerStateView::Idle,
            two(
                WorkerActionView::Emit(StatusView::Message(already_disconnected_text())),
                WorkerActionView::Pause,
            ),
        ),
        (WorkerStateView::Idle, WorkerEventView::Command(CommandView::StopThread)) => (
            WorkerStateView::Stopped,
            two(
                WorkerActionView::Emit(StatusView::Disconnected(Some(stopped_text()))),
                WorkerActionView::Exit,
            ),
        ),
        (WorkerStateView::Idle, WorkerEventView::NoCommand) => (
            WorkerStateView::Idle,
            one(WorkerActionView::Pause),
        ),
        (WorkerStateView::Idle, WorkerEventView::ChannelClosed) => (
            WorkerStateView::Stopped,
            one(WorkerActionView::Exit),
        ),
        (WorkerStateView::Opening(_), WorkerEventView::Opened) => (
            WorkerStateView::Connected,
            two(
                WorkerActionView::Emit(StatusView::Connected),
                WorkerActionView::Pause,
            ),
        ),
        (WorkerStateView::Opening(port), WorkerEventView::OpenFailed(why)) => (
            WorkerStateView::Idle,
            two(
                WorkerActionView::Emit(StatusView::Error(open_failure_text(port, why))),
                WorkerActionView::Pause,
            ),
        ),
        (WorkerStateView::Closed, WorkerEventView::Command(CommandView::Connect(port, baud))) => (
            WorkerStateView::Reopening(port),
            one(WorkerActionView::Open(port, baud)),
        ),
        (WorkerStateView::Closed, WorkerEventView::Command(CommandView::SendCommand(_))) => (
            WorkerStateView::Closed,
            one(WorkerActionView::Pause),
        ),
        (WorkerStateView::Closed, WorkerEventView::Command(CommandView::Disconnect)) => (
            WorkerStateView::Closed,
            one(WorkerActionView::Pause),
        ),
        (WorkerStateView::Closed, WorkerEventView::Command(CommandView::StopThread)) => (
            WorkerStateView::Stopped,
            two(
                WorkerActionView::Emit(StatusView::Disconnected(Some(stopped_text()))),
                WorkerActionView::Exit,
            ),
        ),
        (WorkerStateView::Closed, WorkerEventView::NoCommand) => (
            WorkerStateView::Closed,
            one(WorkerActionView::Pause),
        ),
        (WorkerStateView::Closed, WorkerEventView::ChannelClosed) => (
            WorkerStateView::Stopped,
            one(WorkerActionView::Exit),
        ),
        (WorkerStateView::Reopening(_), WorkerEventView::Opened) => (
            WorkerStateView::Connected,
            two(WorkerActionView::Emit(StatusView::Connected), WorkerActionView::Pause),
        ),
        (WorkerStateView::Reopening(port), WorkerEventView::OpenFailed(why)) => (
            WorkerStateView::Closed,
            two(
                WorkerActionView::Emit(
                    StatusView::Disconnected(Some(open_failure_text(port, why))),
                ),
                WorkerActionView::Pause,
            ),
        ),
        (WorkerStateView::Connected, WorkerEventView::Command(CommandView::Connect(_, _))) => (
            WorkerStateView::Connected,
            two(
                WorkerActionView::Emit(StatusView::Error(already_connected_text())),
                WorkerActionView::Pause,
            ),
        ),
        (WorkerStateView::Connected, WorkerEventView::Command(CommandView::SendCommand(text))) => (
            WorkerStateView::Sending,
            one(WorkerActionView::WriteLine(wire_line(text))),
        ),
        (WorkerStateView::Connected, WorkerEventView::Command(CommandView::Disconnect)) => (
            WorkerStateView::Closed,
            three(
                WorkerActionView::Close,
                WorkerActionView::Emit(StatusView::Disconnected(Some(by_user_text()))),
                WorkerActionView::Pause,
            ),
        ),
        (WorkerStateView::Connected, WorkerEventView::Command(CommandView::StopThread)) => (
            WorkerStateView::Stopped,
            three(
                WorkerActionView::Close,
                WorkerActionView::Emit(StatusView::Disconnected(Some(stopped_text()))),
                WorkerActionView::Exit,
            ),
        ),
        (WorkerStateView::Connected, WorkerEventView::NoCommand) => (
            WorkerStateView::Reading,
            one(WorkerActionView::Read),
        ),
        (WorkerStateView::Connected, WorkerEventView::ChannelClosed) => (
            WorkerStateView::Stopped,
            two(
                WorkerActionView::Close,
                WorkerActionView::Exit,
            ),
        ),
        (WorkerStateView::Sending, WorkerEventView::Sent) => (
            WorkerStateView::Connected,
            one(WorkerActionView::Pause),
        ),
        (WorkerStateView::Sending, WorkerEventView::WriteFailed(why)) => (
            WorkerStateView::Closed,
            teardown(write_failure_text(why)),
        ),
        (WorkerStateView::Sending, WorkerEventView::FlushFailed(why)) => (
            WorkerStateView::Closed,
            teardown(flush_failure_text(why)),
        ),
        (WorkerStateView::Reading, WorkerEventView::Received(bytes)) => (
            WorkerStateView::Connected,
            if bytes.len() > 0 {
                two(
                    WorkerActionView::Emit(StatusView::Message(trimmed(utf8_lossy_text(bytes)))),
                    WorkerActionView::Pause,
                )
            } else {
                one(WorkerActionView::Pause)
            },
        ),
        (WorkerStateView::Reading, WorkerEventView::ReadTimedOut) => (
            WorkerStateView::Connected,
            one(WorkerActionView::Pause),
        ),
        (WorkerStateView::Reading, WorkerEventView::ReadFailed(why)) => (
            WorkerStateView::Closed,
            teardown(read_failure_text(why)),
        ),
        _ => (state, Seq::empty()),
    }
}

fn teardown_actions(text: String) -> (actions: Vec<WorkerAction>)
    ensures
        views_of(actions@) == teardown(text@),
{
    let again = text.clone();
    let actions = vec![
        WorkerAction::Emit(EspStatus::Error(again)),
        WorkerAction::Close,
        WorkerAction::Emit(EspStatus::Disconnected(Some(text))),
        WorkerAction::Pause,
    ];
    assert(views_of(actions@) =~= teardown(text@));
    actions
}

fn emit_and_pause(status: EspStatus) -> (actions: Vec<WorkerAction>)
    ensures
        views_of(actions@) == two(WorkerActionView::Emit(status@), WorkerActionView::Pause),
{
    let actions = vec![WorkerAction::Emit(status), WorkerAction::Pause];
    assert(views_of(actions@) =~= two(WorkerActionView::Emit(status@), WorkerActionView::Pause));
    actions
}

fn only(action: WorkerAction) -> (actions: Vec<WorkerAction>)
    ensures
        views_of(actions@) == one(action@),
{
    let actions = vec![action];
    assert(views_of(actions@) =~= one(action@));
    actions
}

/// One step of the worker: the state after `event`, and what the loop is to
/// do now, in order.
pub fn worker_step(state: WorkerState, event: WorkerEvent) -> (r: (WorkerState, Vec<WorkerAction>))
    ensures
        r.0@ == step_spec(state@, event@).0,
        views_of(r.1@) == step_spec(state@, event@).1,
{
    match (state, event) {
        (WorkerState::Idle, WorkerEvent::Command(EspCommand::Connect(port, baud))) => {
            let name = port.clone();
            (WorkerState::Opening(name), only(WorkerAction::Open(port, baud)))
        },
        (WorkerState::Idle, WorkerEvent::Command(EspCommand::SendCommand(_))) => (
            WorkerState::Idle,
            emit_and_pause(
                EspStatus::Error(String::from_str("Not connected to ESP. Cannot send command.")),
            ),
        ),
        (WorkerState::Idle, WorkerEvent::Command(EspCommand::Disconnect)) => (
            WorkerState::Idle,
            emit_and_pause(EspStatus::Message(String::from_str("Already disconnected."))),
        ),
        (WorkerState::Idle, WorkerEvent::Command(EspCommand::StopThread)) => {
            let actions = vec![
                WorkerAction::Emit(
                    EspStatus::Disconnected(Some(String::from_str("ESP worker thread stopped."))),
                ),
                WorkerAction::Exit,
            ];
            assert(views_of(actions@) =~= step_spec(state@, event@).1);
            (WorkerState::Stopped, actions)
        },
        (WorkerState::Idle, WorkerEvent::NoCommand) => (
            WorkerState::Idle,
            only(WorkerAction::Pause),
        ),
        (WorkerState::Idle, WorkerEvent::ChannelClosed) => (
            WorkerState::Stopped,
            only(WorkerAction::Exit),
        ),
        (WorkerState::Opening(_), WorkerEvent::Opened) => (
            WorkerState::Connected,
            emit_and_pause(EspStatus::Connected),
        ),
        (WorkerState::Opening(port), WorkerEvent::OpenFailed(why)) => {
            let mut text = String::from_str("Failed to connect to ");
            text.append(port.as_str());
            text.append(": ");
            text.append(why.as_str());
            (WorkerState::Idle, emit_and_pause(EspStatus::Error(text)))
        },
        (WorkerState::Closed, WorkerEvent::Command(EspCommand::Connect(port, baud))) => {
            let name = port.clone();
            (WorkerState::Reopening(name), only(WorkerAction::Open(port, baud)))
        },
        (WorkerState::Closed, WorkerEvent::Command(EspCommand::SendCommand(_))) => (
            WorkerState::Closed,
            only(WorkerAction::Pause),
        ),
        (WorkerState::Closed, WorkerEvent::Command(EspCommand::Disconnect)) => (
            WorkerState::Closed,
            only(WorkerAction::Pause),
        ),
        (WorkerState::Closed, WorkerEvent::Command(EspCommand::StopThread)) => {
            let actions = vec![
                WorkerAction::Emit(
                    EspStatus::Disconnected(Some(String::from_str("ESP worker thread stopped."))),
                ),
                WorkerAction::Exit,
            ];
            assert(views_of(actions@) =~= step_spec(state@, event@).1);
            (WorkerState::Stopped, actions)
        },
        (WorkerState::Closed, WorkerEvent::NoCommand) => (
            WorkerState::Closed,
            only(WorkerAction::Pause),
        ),
        (WorkerState::Closed, WorkerEvent::ChannelClosed) => (
            WorkerState::Stopped,
            only(WorkerAction::Exit),
        ),
        (WorkerState::Reopening(_), WorkerEvent::Opened) => (
            WorkerState::Connected,
            emit_and_pause(EspStatus::Connected),
        ),
        (WorkerState::Reopening(port), WorkerEvent::OpenFailed(why)) => {
            let mut text = String::from_str("Failed to connect to ");
            text.append(port.as_str());
            text.append(": ");
            text.append(why.as_str());
            (WorkerState::Closed, emit_and_pause(EspStatus::Disconnected(Some(text))))
        },
        (WorkerState::Connected, WorkerEvent::Command(EspCommand::Connect(_, _))) => (
            WorkerState::Connected,
            emit_and_pause(
                EspStatus::Error(
                    String::from_str("Already connected or connection attempt in progress."),
                ),
            ),
        ),
        (WorkerState::Connected, WorkerEvent::Command(EspCommand::SendCommand(text))) => {
            let mut line = text;
            line.append("\n");
            (WorkerState::Sending, only(WorkerAction::WriteLine(line)))
        },
        (WorkerState::Connected, WorkerEvent::Command(EspCommand::Disconnect)) => {
            let actions = vec![
                WorkerAction::Close,
                WorkerAction::Emit(EspStatus::Disconnected(Some(String::from_str("by user")))),
                WorkerAction::Pause,
            ];
            assert(views_of(actions@) =~= step_spec(state@, event@).1);
            (WorkerState::Closed, actions)
        },
        (WorkerState::Connected, WorkerEvent::Command(EspCommand::StopThread)) => {
            let actions = vec![
                WorkerAction::Close,
                WorkerAction::Emit(
                    EspStatus::Disconnected(Some(String::from_str("ESP worker thread stopped."))),
                ),
                WorkerAction::Exit,
            ];
            assert(views_of(actions@) =~= step_spec(state@, event@).1);
            (WorkerState::Stopped, actions)
        },
        (WorkerState::Connected, WorkerEvent::NoCommand) => (
            WorkerState::Reading,
            only(WorkerAction::Read),
        ),
        (WorkerState::Connected, WorkerEvent::ChannelClosed) => {
            let actions = vec![WorkerAction::Close, WorkerAction::Exit];
            assert(views_of(actions@) =~= step_spec(state@, event@).1);
            (WorkerState::Stopped, actions)
        },
        (WorkerState::Sending, WorkerEvent::Sent) => (
            WorkerState::Connected,
            only(WorkerAction::Pause),
        ),
        (WorkerState::Sending, WorkerEvent::WriteFailed(why)) => (
            WorkerState::Closed,
            teardown_actions(join3("Failed to send command: ", why.as_str(), ". Disconnecting.")),
        ),
        (WorkerState::Sending, WorkerEvent::FlushFailed(why)) => (
            WorkerState::Closed,
            teardown_actions(
                join3("Failed to flush serial port: ", why.as_str(), ". Disconnecting."),
            ),
        ),
        (WorkerState::Reading, WorkerEvent::Received(bytes)) => {
            if bytes.len() > 0 {
                let text = lossy_text(&bytes);
                (WorkerState::Connected, emit_and_pause(received_message(text.as_str())))
            } else {
                (WorkerState::Connected, only(WorkerAction::Pause))
            }
        },
        (WorkerState::Reading, WorkerEvent::ReadTimedOut) => (
            WorkerState::Connected,
            only(WorkerAction::Pause),
        ),
        (WorkerState::Reading, WorkerEvent::ReadFailed(why)) => (
            WorkerState::Closed,
            teardown_actions(join3("Serial read error: ", why.as_str(), ". Disconnecting.")),
        ),
        (state, _) => {
            let actions: Vec<WorkerAction> = Vec::new();
            assert(views_of(actions@) =~= Seq::<WorkerActionView>::empty());
            (state, actions)
        },
    }
}

} // verus!

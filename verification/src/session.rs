//! The owner's record of one device: what it holds of the worker, what it
//! last heard from it, and the setpoint it wants it to have.
//!
//! The record itself holds no thread and no channel. Each operation says
//! what the owner is to do with them: which command to send, whether to
//! join the worker, which ends to drop.

use vstd::prelude::*;
use crate::esp_comm::{
    disconnected_after, views_of, CommandView, EspCommand, EspStatus, StatusView,
};
use crate::log::{
    lemma_logged_nothing, lemma_logged_then, lemma_written_concat, lemma_written_push, logged,
    written, Note, RollingLog,
};
use crate::telemetry::{is_number, is_number_text, skin_temp_values, skin_values};
use crate::text::{decimal, join2, join3, push_decimal, push_signed_decimal, signed_decimal};

verus! {

/// The setpoint that no device was ever sent, so that the first target counts as a change.
pub const NEVER_SENT: i8 = -127;

/// The owner's record of one device.
#[derive(Debug)]
pub struct DeviceSession {
    /// The name under which the device appears in messages.
    pub label: String,
    /// The serial port's name.
    pub port: String,
    /// The serial link's baud rate.
    pub baud_rate: u32,
    /// The owner holds the sending end of the command channel.
    pub has_sender: bool,
    /// The owner holds the receiving end of the status channel.
    pub has_receiver: bool,
    /// The owner holds the handle of a worker thread.
    pub has_thread: bool,
    /// The worker last reported the link as open.
    pub connected: bool,
    /// The last status text, as shown beside the device.
    pub status_message: String,
    /// The temperature that the device should reach.
    pub target_temperature: i8,
    /// The target as it stood when a change was last acted on.
    pub previous_sent_temperature: i8,
    /// While set, setpoints from outside are ignored.
    pub manual_override: bool,
    /// The skin temperature as the device last wrote it, known to be a number.
    pub skin_temperature: Option<String>,
}

/// A [`DeviceSession`] with its texts as character sequences.
pub struct SessionView {
    pub label: Seq<char>,
    pub port: Seq<char>,
    pub baud_rate: u32,
    pub has_sender: bool,
    pub has_receiver: bool,
    pub has_thread: bool,
    pub connected: bool,
    pub status_message: Seq<char>,
    pub target_temperature: i8,
    pub previous_sent_temperature: i8,
    pub manual_override: bool,
    pub skin_temperature: Option<Seq<char>>,
}

impl View for DeviceSession {
    type V = SessionView;

    open spec fn view(&self) -> SessionView {
        SessionView {
            label: self.label@,
            port: self.port@,
            baud_rate: self.baud_rate,
            has_sender: self.has_sender,
            has_receiver: self.has_receiver,
            has_thread: self.has_thread,
            connected: self.connected,
            status_message: self.status_message@,
            target_temperature: self.target_temperature,
            previous_sent_temperature: self.previous_sent_temperature,
            manual_override: self.manual_override,
            skin_temperature: match self.skin_temperature {
                Some(text) => Some(text@),
                None => None,
            },
        }
    }
}

/// One thing that the owner is to do with a worker's thread or channels.
/// Operations hand these out as a list, to be done in the list's order.
#[derive(Clone, Copy, Debug, PartialEq, Eq, Structural)]
pub enum OwnerStep {
    /// Send `StopThread` on the command channel; a failure to deliver it is ignored.
    SendStop,
    /// Drop the sending end of the command channel. A worker that still
    /// runs ends once it finds the channel closed.
    DropSender,
    /// Join the worker's thread, and report a failure of the join.
    JoinWorker,
    /// Let go of the thread's handle without joining.
    DiscardWorker,
    /// Drop the receiving end of the status channel.
    DropReceiver,
}

/// The list of `step` alone where it is wanted, and the empty list where not.
pub open spec fn step_if(wanted: bool, step: OwnerStep) -> Seq<OwnerStep> {
    if wanted {
        Seq::empty().push(step)
    } else {
        Seq::empty()
    }
}

/// The steps that are wanted, in the order in which the owner takes them:
/// the stop is sent before the sender is dropped, the sender is dropped
/// before the worker is joined, so that a worker that waits for commands
/// ends and the join returns, and the receiver goes last.
pub open spec fn steps_in_order(
    stop: bool,
    sender: bool,
    join: bool,
    discard: bool,
    receiver: bool,
) -> Seq<OwnerStep> {
    step_if(stop, OwnerStep::SendStop) + step_if(sender, OwnerStep::DropSender) + step_if(
        join,
        OwnerStep::JoinWorker,
    ) + step_if(discard, OwnerStep::DiscardWorker) + step_if(receiver, OwnerStep::DropReceiver)
}

/// Builds [`steps_in_order`].
pub fn ordered_steps(stop: bool, sender: bool, join: bool, discard: bool, receiver: bool) -> (steps:
    Vec<OwnerStep>)
    ensures
        steps@ == steps_in_order(stop, sender, join, discard, receiver),
{
    let mut steps: Vec<OwnerStep> = Vec::new();
    if stop {
        steps.push(OwnerStep::SendStop);
    }
    if sender {
        steps.push(OwnerStep::DropSender);
    }
    if join {
        steps.push(OwnerStep::JoinWorker);
    }
    if discard {
        steps.push(OwnerStep::DiscardWorker);
    }
    if receiver {
        steps.push(OwnerStep::DropReceiver);
    }
    assert(steps@ =~= steps_in_order(stop, sender, join, discard, receiver));
    steps
}

pub open spec fn note(source: Seq<char>, text: Seq<char>) -> Note {
    Note { source, text }
}

pub open spec fn one_note(source: Seq<char>, text: Seq<char>) -> Seq<Note> {
    Seq::empty().push(note(source, text))
}

/// `text` under the device's name, as a status text.
pub open spec fn labelled(label: Seq<char>, text: Seq<char>) -> Seq<char> {
    label + ": "@ + text
}

pub open spec fn not_connected_text() -> Seq<char> {
    "Not connected."@
}

pub open spec fn busy_text() -> Seq<char> {
    "Already connected or connection attempt in progress."@
}

pub open spec fn attempting_text(label: Seq<char>, port: Seq<char>, baud: u32) -> Seq<char> {
    "Attempting to connect to "@ + label + " @ "@ + port + " ("@ + decimal(baud as nat)
        + " baud)..."@
}

pub open spec fn connect_failed_text(why: Seq<char>) -> Seq<char> {
    "Failed to send connect cmd: "@ + why
}

pub open spec fn disconnect_failed_text(why: Seq<char>) -> Seq<char> {
    "Failed to send disconnect cmd: "@ + why
}

pub open spec fn disconnect_sent_text() -> Seq<char> {
    "Disconnect command sent."@
}

pub open spec fn send_failed_text(why: Seq<char>) -> Seq<char> {
    "Error sending command: "@ + why
}

pub open spec fn undelivered_text(line: Seq<char>, why: Seq<char>) -> Seq<char> {
    "Failed to send '"@ + line + "': "@ + why
}

pub open spec fn sent_text(line: Seq<char>) -> Seq<char> {
    "Sent command: "@ + line
}

pub open spec fn set_temp_line(target: i8) -> Seq<char> {
    "setTemp "@ + signed_decimal(target as int)
}

pub open spec fn activation_line(on: bool) -> Seq<char> {
    if on {
        "tempActive 1"@
    } else {
        "tempActive 0"@
    }
}

pub open spec fn unreachable_text(label: Seq<char>) -> Seq<char> {
    "Attempted to send command while "@ + label + " not connected."@
}

pub open spec fn connected_status_text(label: Seq<char>) -> Seq<char> {
    label + " Connected."@
}

pub open spec fn connected_text() -> Seq<char> {
    "Connected."@
}

pub open spec fn by_worker_text() -> Seq<char> {
    "Disconnected by worker."@
}

pub open spec fn error_text(what: Seq<char>) -> Seq<char> {
    "Error: "@ + what
}

pub open spec fn message_text(line: Seq<char>) -> Seq<char> {
    "MSG: "@ + line
}

pub open spec fn parse_failure_text(value: Seq<char>) -> Seq<char> {
    "Failed to parse Skin_Temp_Smoothed value: '"@ + value + "'"@
}

pub open spec fn join_failed_text(what: Seq<char>) -> Seq<char> {
    "Thread panicked or error on join: "@ + what
}

pub open spec fn stale_sender_text() -> Seq<char> {
    "Cleared command sender as thread handle is gone."@
}

/// The session with nothing held of a worker, and the link counted as closed.
pub open spec fn torn_down(s: SessionView) -> SessionView {
    SessionView { has_sender: false, has_receiver: false, has_thread: false, connected: false, ..s }
}

/// The reading that stands after the values of one line: the last of them
/// that is a number, or the earlier reading where none is.
pub open spec fn latest_reading(earlier: Option<Seq<char>>, values: Seq<Seq<char>>) -> Option<
    Seq<char>,
>
    decreases values.len(),
{
    if values.len() == 0 {
        earlier
    } else if is_number_text(values.last()) {
        Some(values.last())
    } else {
        latest_reading(earlier, values.drop_last())
    }
}

/// One note for each value that is no number, in order.
pub open spec fn parse_failures(label: Seq<char>, values: Seq<Seq<char>>) -> Seq<Note>
    decreases values.len(),
{
    if values.len() == 0 {
        Seq::empty()
    } else if is_number_text(values.last()) {
        parse_failures(label, values.drop_last())
    } else {
        parse_failures(label, values.drop_last()).push(
            note(label, parse_failure_text(values.last())),
        )
    }
}

/// The words of a disconnection: the worker's reason, or a standing text.
pub open spec fn reason_text(reason: Option<Seq<char>>) -> Seq<char> {
    match reason {
        Some(text) => text,
        None => by_worker_text(),
    }
}

/// The session after one report from its worker.
pub open spec fn after_status(s: SessionView, status: StatusView) -> SessionView {
    match status {
        StatusView::Connected => SessionView {
            connected: true,
            status_message: connected_status_text(s.label),
            ..s
        },
        StatusView::Disconnected(reason) => SessionView {
            status_message: labelled(s.label, reason_text(reason)),
            ..torn_down(s)
        },
        StatusView::Error(what) => SessionView {
            status_message: labelled(s.label, error_text(what)),
            ..s
        },
        StatusView::Message(line) => SessionView {
            skin_temperature: latest_reading(s.skin_temperature, skin_values(line)),
            ..s
        },
    }
}

/// What one report from the worker of `label` writes to the log.
pub open spec fn status_notes(label: Seq<char>, status: StatusView) -> Seq<Note> {
    match status {
        StatusView::Connected => one_note(label, connected_text()),
        StatusView::Disconnected(reason) => one_note(label, reason_text(reason)),
        StatusView::Error(what) => one_note(label, error_text(what)),
        StatusView::Message(line) => one_note(label, message_text(line)) + parse_failures(
            label,
            skin_values(line),
        ),
    }
}

/// The last of `reports` is not taken in: it is an `Error` or a `Message`
/// that comes after a `Disconnected` of the same pass with no `Connected`
/// between them. No worker sends such a report; one that turns up all the
/// same is not shown in place of the disconnection.
pub open spec fn last_is_dropped(reports: Seq<StatusView>) -> bool
    recommends
        reports.len() > 0,
{
    &&& reports.last() is Error || reports.last() is Message
    &&& disconnected_after(false, reports.drop_last())
}

/// The session after the reports of one pass, in order, each taken in
/// unless it is dropped.
pub open spec fn after_statuses(s: SessionView, reports: Seq<StatusView>) -> SessionView
    decreases reports.len(),
{
    if reports.len() == 0 {
        s
    } else if last_is_dropped(reports) {
        after_statuses(s, reports.drop_last())
    } else {
        after_status(after_statuses(s, reports.drop_last()), reports.last())
    }
}

/// What the reports of one pass write to the log, in order.
pub open spec fn notes_of_statuses(label: Seq<char>, reports: Seq<StatusView>) -> Seq<Note>
    decreases reports.len(),
{
    if reports.len() == 0 {
        Seq::empty()
    } else if last_is_dropped(reports) {
        notes_of_statuses(label, reports.drop_last())
    } else {
        notes_of_statuses(label, reports.drop_last()) + status_notes(label, reports.last())
    }
}

/// A `Disconnected` is among the reports.
pub open spec fn saw_disconnected(reports: Seq<StatusView>) -> bool {
    exists|i: int| 0 <= i < reports.len() && #[trigger] reports[i] is Disconnected
}

/// What is to be done where a reconciliation pass took the session from
/// `before` to `after`: the sender that the session held and holds no more
/// is dropped first, then the thread that it gave up is joined, then the
/// receiver is dropped.
pub open spec fn reclaim_steps(before: SessionView, after: SessionView) -> Seq<OwnerStep> {
    steps_in_order(
        false,
        before.has_sender && !after.has_sender,
        before.has_thread && !after.has_thread,
        false,
        before.has_receiver && !after.has_receiver,
    )
}

/// What is to be done where a command that could not be delivered took
/// the session from `before` to `after`: what the session held and holds no
/// more is dropped, and the thread's handle is let go without a join.
pub open spec fn teardown_steps(before: SessionView, after: SessionView) -> Seq<OwnerStep> {
    steps_in_order(
        false,
        before.has_sender && !after.has_sender,
        false,
        before.has_thread && !after.has_thread,
        before.has_receiver && !after.has_receiver,
    )
}

/// What is to be done with the worker of a session at the end of the
/// program: where a sender is held, `StopThread` is sent and the sender
/// dropped; after that the thread, where one is held, is joined.
pub open spec fn shutdown_steps(before: SessionView) -> Seq<OwnerStep> {
    steps_in_order(before.has_sender, before.has_sender, before.has_thread, false, false)
}

/// Both sessions hold the same of their worker.
pub open spec fn holds_same_worker(a: SessionView, b: SessionView) -> bool {
    a.has_thread == b.has_thread && a.has_sender == b.has_sender && a.has_receiver
        == b.has_receiver
}

/// The sender is stale: the owner holds it, but no thread to hear it.
pub open spec fn sender_is_stale(s: SessionView) -> bool {
    s.has_sender && !s.has_thread
}

/// The session after a reconciliation pass over `reports`: each report has
/// had its effect, and a stale sender is cleared.
pub open spec fn reconciled(s: SessionView, reports: Seq<StatusView>) -> SessionView {
    let after = after_statuses(s, reports);
    SessionView { has_sender: after.has_sender && after.has_thread, ..after }
}

/// What a reconciliation pass over `reports` writes to the log.
pub open spec fn reconcile_notes(s: SessionView, reports: Seq<StatusView>) -> Seq<Note> {
    if sender_is_stale(after_statuses(s, reports)) {
        notes_of_statuses(s.label, reports).push(note(s.label, stale_sender_text()))
    } else {
        notes_of_statuses(s.label, reports)
    }
}

/// The session after the owner has learnt how sending `command` went:
/// `failure` holds the channel's words where the command was not delivered.
pub open spec fn after_sending(
    s: SessionView,
    command: CommandView,
    failure: Option<Seq<char>>,
) -> SessionView {
    match (command, failure) {
        (CommandView::StopThread, _) => s,
        (CommandView::Connect(port, baud), None) => SessionView {
            status_message: attempting_text(s.label, port, baud),
            ..s
        },
        (CommandView::Connect(_, _), Some(why)) => SessionView {
            status_message: labelled(s.label, connect_failed_text(why)),
            ..torn_down(s)
        },
        (CommandView::Disconnect, None) => SessionView {
            status_message: labelled(s.label, disconnect_sent_text()),
            ..s
        },
        (CommandView::Disconnect, Some(why)) => SessionView {
            status_message: labelled(s.label, disconnect_failed_text(why)),
            ..torn_down(s)
        },
        (CommandView::SendCommand(_), None) => s,
        (CommandView::SendCommand(_), Some(why)) => SessionView {
            status_message: labelled(s.label, send_failed_text(why)),
            ..torn_down(s)
        },
    }
}

/// What the owner writes to the log on learning how sending `command` went.
pub open spec fn sending_notes(
    label: Seq<char>,
    command: CommandView,
    failure: Option<Seq<char>>,
) -> Seq<Note> {
    match (command, failure) {
        (CommandView::StopThread, _) => Seq::empty(),
        (CommandView::Connect(port, baud), None) => one_note(
            label,
            attempting_text(label, port, baud),
        ),
        (CommandView::Connect(_, _), Some(why)) => one_note(label, connect_failed_text(why)),
        (CommandView::Disconnect, None) => one_note(label, disconnect_sent_text()),
        (CommandView::Disconnect, Some(why)) => one_note(label, disconnect_failed_text(why)),
        (CommandView::SendCommand(line), None) => one_note(label, sent_text(line)),
        (CommandView::SendCommand(line), Some(why)) => one_note(
            label,
            undelivered_text(line, why),
        ),
    }
}

/// The session after a setpoint from outside: the value is the new target
/// unless the manual override is set.
pub open spec fn after_external(s: SessionView, value: i8) -> SessionView {
    if s.manual_override {
        s
    } else {
        SessionView { target_temperature: value, ..s }
    }
}

/// The session after a run of setpoints from outside, in order.
pub open spec fn after_externals(s: SessionView, values: Seq<i8>) -> SessionView
    decreases values.len(),
{
    if values.len() == 0 {
        s
    } else {
        after_external(after_externals(s, values.drop_last()), values.last())
    }
}

/// The target differs from the one last acted on.
pub open spec fn setpoint_changed(s: SessionView) -> bool {
    s.target_temperature != s.previous_sent_temperature
}

pub open spec fn unchanged_text() -> Seq<char> {
    "Status unchanged."@
}

pub open spec fn cannot_switch_text(on: bool) -> Seq<char> {
    if on {
        "Cannot START, not connected."@
    } else {
        "Cannot STOP, not connected."@
    }
}

pub open spec fn switch_attempt_text(on: bool, label: Seq<char>) -> Seq<char> {
    (if on {
        "Attempted START while "@
    } else {
        "Attempted STOP while "@
    }) + label + " not connected."@
}

/// The command that starts or stops temperature control, where the
/// device is connected and a sender is held.
pub open spec fn switch_command(s: SessionView, on: bool) -> Option<CommandView> {
    if s.connected && s.has_sender {
        Some(CommandView::SendCommand(activation_line(on)))
    } else {
        None
    }
}

/// The session after a request to start or stop temperature control.
pub open spec fn after_switch(s: SessionView, on: bool) -> SessionView {
    SessionView {
        status_message: if !s.connected {
            labelled(s.label, cannot_switch_text(on))
        } else if !s.has_sender {
            labelled(s.label, unchanged_text())
        } else {
            s.status_message
        },
        ..s
    }
}

/// What a request to start or stop temperature control writes to the log.
pub open spec fn switch_notes(s: SessionView, on: bool) -> Seq<Note> {
    if !s.connected {
        one_note(s.label, switch_attempt_text(on, s.label))
    } else {
        Seq::empty()
    }
}

pub open spec fn switch_outcome_text(on: bool, failure: Option<Seq<char>>) -> Seq<char> {
    match failure {
        None => if on {
            "START command sent."@
        } else {
            "STOP command sent."@
        },
        Some(why) => (if on {
            "Error sending START: "@
        } else {
            "Error sending STOP: "@
        }) + why,
    }
}

pub open spec fn exit_join_failed_text(label: Seq<char>, what: Seq<char>) -> Seq<char> {
    label + " thread panicked or error on join: "@ + what
}

/// The text that an optional string holds.
pub open spec fn text_of(text: Option<String>) -> Option<Seq<char>> {
    match text {
        Some(t) => Some(t@),
        None => None,
    }
}

/// The command that a request hands out, as character sequences.
pub open spec fn command_of(command: Option<EspCommand>) -> Option<CommandView> {
    match command {
        Some(c) => Some(c@),
        None => None,
    }
}

/// Reads the skin temperature values of one telemetry line: the last that
/// is a number becomes the reading, and each that is none is noted in the
/// log under `label`.
pub fn read_telemetry(
    label: &str,
    earlier: Option<String>,
    line: &str,
    log: &mut RollingLog,
) -> (reading: Option<String>)
    requires
        old(log).wf(),
    ensures
        text_of(reading) == latest_reading(text_of(earlier), skin_values(line@)),
        final(log).notes() == written(
            old(log).notes(),
            parse_failures(label@, skin_values(line@)),
        ),
        logged(old(log)@, final(log)@,
            parse_failures(label@, skin_values(line@)),
        ),
        final(log).wf(),
{
    let values = skin_temp_values(line);
    let ghost all = views_of(values@);
    let ghost start = text_of(earlier);
    let mut reading = earlier;
    let mut i: usize = 0;
    assert(all.take(0) =~= Seq::<Seq<char>>::empty());
    proof {
        lemma_logged_nothing(old(log)@);
    }
    while i < values.len()
        invariant
            i <= values.len(),
            all == views_of(values@),
            all == skin_values(line@),
            log.wf(),
            text_of(reading) == latest_reading(start, all.take(i as int)),
            log.notes() == written(old(log).notes(), parse_failures(label@, all.take(i as int))),
            logged(old(log)@, log@, parse_failures(label@, all.take(i as int))),
        decreases values.len() - i,
    {
        proof {
            assert(all.take(i + 1).drop_last() =~= all.take(i as int));
            assert(all.take(i + 1).last() == values@[i as int]@);
        }
        if is_number(values[i].as_str()) {
            reading = Some(values[i].clone());
        } else {
            let text = join3(
                "Failed to parse Skin_Temp_Smoothed value: '",
                values[i].as_str(),
                "'",
            );
            proof {
                lemma_written_push(
                    old(log).notes(),
                    parse_failures(label@, all.take(i as int)),
                    note(label@, text@),
                );
            }
            let ghost earlier = log@;
            log.push(label, text);
            proof {
                let so_far = parse_failures(label@, all.take(i as int));
                lemma_logged_then(old(log)@, earlier, log@, so_far, one_note(label@, text@));
                assert(so_far.push(note(label@, text@)) =~= so_far + one_note(label@, text@));
            }
        }
        i += 1;
    }
    assert(all.take(values.len() as int) =~= all);
    reading
}

impl DeviceSession {
    /// A session as it starts: nothing held of a worker, the link closed,
    /// the target at 0 and never sent, at 115200 baud.
    pub open spec fn default_view(label: Seq<char>, port: Seq<char>) -> SessionView {
        SessionView {
            label,
            port,
            baud_rate: 115200,
            has_sender: false,
            has_receiver: false,
            has_thread: false,
            connected: false,
            status_message: labelled(label, not_connected_text()),
            target_temperature: 0,
            previous_sent_temperature: NEVER_SENT,
            manual_override: false,
            skin_temperature: None,
        }
    }

    /// A session for the device of this name, with nothing held of a worker.
    pub fn new(label: &str, port: &str, baud_rate: u32) -> (session: DeviceSession)
        ensures
            session@ == (SessionView { baud_rate, ..Self::default_view(label@, port@) }),
    {
        DeviceSession {
            label: String::from_str(label),
            port: String::from_str(port),
            baud_rate,
            has_sender: false,
            has_receiver: false,
            has_thread: false,
            connected: false,
            status_message: join3(label, ": ", "Not connected."),
            target_temperature: 0,
            previous_sent_temperature: NEVER_SENT,
            manual_override: false,
            skin_temperature: None,
        }
    }

    fn write(&self, log: &mut RollingLog, text: String)
        requires
            old(log).wf(),
        ensures
            final(log).notes() == written(old(log).notes(), one_note(self@.label, text@)),
            logged(old(log)@, final(log)@, one_note(self@.label, text@)),
            final(log).wf(),
    {
        proof {
            lemma_written_push(old(log).notes(), Seq::empty(), note(self@.label, text@));
        }
        log.push(self.label.as_str(), text);
    }

    fn show(&mut self, text: &str)
        ensures
            final(self)@ == (SessionView {
                status_message: labelled(old(self)@.label, text@),
                ..old(self)@
            }),
    {
        self.status_message = join3(self.label.as_str(), ": ", text);
    }

    fn tear_down(&mut self)
        ensures
            final(self)@ == torn_down(old(self)@),
    {
        self.has_sender = false;
        self.has_receiver = false;
        self.has_thread = false;
        self.connected = false;
    }

    /// The connect action. Where the session holds no worker, it now counts
    /// one as held, with both channels, and hands out the `Connect` command:
    /// the owner spawns the worker, sends the command and tells how that
    /// went. Where a worker is held already, the misuse is reported and
    /// nothing is handed out.
    pub fn request_connect(&mut self, log: &mut RollingLog) -> (command: Option<EspCommand>)
        requires
            old(log).wf(),
        ensures
            final(log).wf(),
            !old(self)@.has_thread ==> {
                &&& command_of(command) == Some(
                    CommandView::Connect(old(self)@.port, old(self)@.baud_rate),
                )
                &&& final(self)@ == (SessionView {
                    has_sender: true,
                    has_receiver: true,
                    has_thread: true,
                    ..old(self)@
                })
                &&& final(log)@ == old(log)@
            },
            old(self)@.has_thread ==> {
                &&& command is None
                &&& final(self)@ == (SessionView {
                    status_message: labelled(old(self)@.label, busy_text()),
                    ..old(self)@
                })
                &&& final(log).notes() == written(
                    old(log).notes(),
                    one_note(old(self)@.label, busy_text()),
                )
                &&& logged(old(log)@, final(log)@,
                    one_note(old(self)@.label, busy_text()),
                )
            },
    {
        if self.has_thread {
            self.show("Already connected or connection attempt in progress.");
            self.write(
                log,
                String::from_str("Already connected or connection attempt in progress."),
            );
            None
        } else {
            self.has_sender = true;
            self.has_receiver = true;
            self.has_thread = true;
            Some(EspCommand::Connect(self.port.clone(), self.baud_rate))
        }
    }

    fn report_not_connected(&mut self, log: &mut RollingLog)
        requires
            old(log).wf(),
        ensures
            final(log).wf(),
            final(self)@ == (SessionView {
                status_message: labelled(old(self)@.label, not_connected_text()),
                ..old(self)@
            }),
            final(log).notes() == written(
                old(log).notes(),
                one_note(old(self)@.label, not_connected_text()),
            ),
            logged(old(log)@, final(log)@,
                one_note(old(self)@.label, not_connected_text()),
            ),
    {
        self.show("Not connected.");
        self.write(log, String::from_str("Not connected."));
    }

    /// The disconnect action: hands out `Disconnect` where the session holds
    /// a sender; otherwise reports that the device is not connected.
    pub fn request_disconnect(&mut self, log: &mut RollingLog) -> (command: Option<EspCommand>)
        requires
            old(log).wf(),
        ensures
            final(log).wf(),
            old(self)@.has_sender ==> {
                &&& command_of(command) == Some(CommandView::Disconnect)
                &&& final(self)@ == old(self)@
                &&& final(log)@ == old(log)@
            },
            !old(self)@.has_sender ==> {
                &&& command is None
                &&& final(self)@ == (SessionView {
                    status_message: labelled(old(self)@.label, not_connected_text()),
                    ..old(self)@
                })
                &&& final(log).notes() == written(
                    old(log).notes(),
                    one_note(old(self)@.label, not_connected_text()),
                )
                &&& logged(old(log)@, final(log)@,
                    one_note(old(self)@.label, not_connected_text()),
                )
            },
    {
        if self.has_sender {
            Some(EspCommand::Disconnect)
        } else {
            self.report_not_connected(log);
            None
        }
    }

    /// The send action: hands out `SendCommand` with this line where the
    /// session holds a sender; otherwise reports that the device is not
    /// connected.
    pub fn request_send(&mut self, log: &mut RollingLog, line: String) -> (command: Option<
        EspCommand,
    >)
        requires
            old(log).wf(),
        ensures
            final(log).wf(),
            old(self)@.has_sender ==> {
                &&& command_of(command) == Some(CommandView::SendCommand(line@))
                &&& final(self)@ == old(self)@
                &&& final(log)@ == old(log)@
            },
            !old(self)@.has_sender ==> {
                &&& command is None
                &&& final(self)@ == (SessionView {
                    status_message: labelled(old(self)@.label, not_connected_text()),
                    ..old(self)@
                })
                &&& final(log).notes() == written(
                    old(log).notes(),
                    one_note(old(self)@.label, not_connected_text()),
                )
                &&& logged(old(log)@, final(log)@,
                    one_note(old(self)@.label, not_connected_text()),
                )
            },
    {
        if self.has_sender {
            Some(EspCommand::SendCommand(line))
        } else {
            self.report_not_connected(log);
            None
        }
    }

    /// Takes note of how sending `command` went. A command that could not
    /// be delivered has the session torn down at once, so that nothing of a
    /// vanished worker stays behind; `StopThread` alone is sent without a
    /// care for the outcome. The result holds the owner's steps, in order: the
    /// ends to drop, and the thread's handle to let go without a join.
    pub fn command_sent(
        &mut self,
        log: &mut RollingLog,
        command: &EspCommand,
        failure: Option<String>,
    ) -> (steps: Vec<OwnerStep>)
        requires
            old(log).wf(),
        ensures
            final(log).wf(),
            final(self)@ == after_sending(old(self)@, command@, text_of(failure)),
            final(log).notes() == written(
                old(log).notes(),
                sending_notes(old(self)@.label, command@, text_of(failure)),
            ),
            logged(old(log)@, final(log)@,
                sending_notes(old(self)@.label, command@, text_of(failure)),
            ),
            steps@ == teardown_steps(old(self)@, final(self)@),
    {
        let had_sender = self.has_sender;
        let had_thread = self.has_thread;
        let had_receiver = self.has_receiver;
        match command {
            EspCommand::StopThread => {
                proof {
                    lemma_logged_nothing(old(log)@);
                }
            },
            EspCommand::Connect(port, baud) => {
                match failure {
                    None => {
                        let mut text = String::from_str("Attempting to connect to ");
                        text.append(self.label.as_str());
                        text.append(" @ ");
                        text.append(port.as_str());
                        text.append(" (");
                        push_decimal(&mut text, *baud);
                        text.append(" baud)...");
                        self.status_message = text.clone();
                        self.write(log, text);
                    },
                    Some(why) => {
                        let text = join2("Failed to send connect cmd: ", why.as_str());
                        self.show(text.as_str());
                        self.write(log, text);
                        self.tear_down();
                    },
                }
            },
            EspCommand::Disconnect => {
                match failure {
                    None => {
                        self.show("Disconnect command sent.");
                        self.write(log, String::from_str("Disconnect command sent."));
                    },
                    Some(why) => {
                        let text = join2("Failed to send disconnect cmd: ", why.as_str());
                        self.show(text.as_str());
                        self.write(log, text);
                        self.tear_down();
                    },
                }
            },
            EspCommand::SendCommand(line) => {
                match failure {
                    None => {
                        self.write(log, join2("Sent command: ", line.as_str()));
                    },
                    Some(why) => {
                        let shown = join2("Error sending command: ", why.as_str());
                        self.show(shown.as_str());
                        let mut text = join3("Failed to send '", line.as_str(), "': ");
                        text.append(why.as_str());
                        self.write(log, text);
                        self.tear_down();
                    },
                }
            },
        }
        ordered_steps(
            false,
            had_sender && !self.has_sender,
            false,
            had_thread && !self.has_thread,
            had_receiver && !self.has_receiver,
        )
    }

    /// Takes in one report from the worker.
    pub fn handle_status(&mut self, log: &mut RollingLog, status: &EspStatus)
        requires
            old(log).wf(),
        ensures
            final(log).wf(),
            final(self)@ == after_status(old(self)@, status@),
            final(log).notes() == written(
                old(log).notes(),
                status_notes(old(self)@.label, status@),
            ),
            logged(old(log)@, final(log)@,
                status_notes(old(self)@.label, status@),
            ),
    {
        match status {
            EspStatus::Connected => {
                self.connected = true;
                self.status_message = join2(self.label.as_str(), " Connected.");
                self.write(log, String::from_str("Connected."));
            },
            EspStatus::Disconnected(reason) => {
                let text = match reason {
                    Some(words) => words.clone(),
                    None => String::from_str("Disconnected by worker."),
                };
                self.show(text.as_str());
                self.write(log, text);
                self.tear_down();
            },
            EspStatus::Error(what) => {
                let text = join2("Error: ", what.as_str());
                self.show(text.as_str());
                self.write(log, text);
            },
            EspStatus::Message(line) => {
                self.write(log, join2("MSG: ", line.as_str()));
                let ghost between = log@;
                let earlier = self.skin_temperature.take();
                self.skin_temperature = read_telemetry(
                    self.label.as_str(),
                    earlier,
                    line.as_str(),
                    log,
                );
                proof {
                    lemma_written_concat(
                        old(log).notes(),
                        one_note(self@.label, message_text(line@)),
                        parse_failures(self@.label, skin_values(line@)),
                    );
                    lemma_logged_then(
                        old(log)@,
                        between,
                        log@,
                        one_note(self@.label, message_text(line@)),
                        parse_failures(self@.label, skin_values(line@)),
                    );
                }
            },
        }
    }

    /// The reconciliation pass: takes in all reports that were queued, in
    /// order, and clears a sender that is left without a thread. An `Error`
    /// or a `Message` that comes after a `Disconnected` of this pass, with no
    /// `Connected` between them, is dropped. The result
    /// holds the owner's steps, in order: the sender is dropped before the
    /// worker is joined, so that the join returns.
    pub fn reconcile(&mut self, log: &mut RollingLog, statuses: &Vec<EspStatus>) -> (steps: Vec<
        OwnerStep,
    >)
        requires
            old(log).wf(),
        ensures
            final(log).wf(),
            final(self)@ == reconciled(old(self)@, views_of(statuses@)),
            final(log).notes() == written(
                old(log).notes(),
                reconcile_notes(old(self)@, views_of(statuses@)),
            ),
            logged(old(log)@, final(log)@,
                reconcile_notes(old(self)@, views_of(statuses@)),
            ),
            steps@ == reclaim_steps(old(self)@, final(self)@),
    {
        let had_thread = self.has_thread;
        let had_sender = self.has_sender;
        let had_receiver = self.has_receiver;
        let ghost all = views_of(statuses@);
        let ghost label = self@.label;
        let mut i: usize = 0;
        let mut disconnected = false;
        assert(all.take(0) =~= Seq::<StatusView>::empty());
        proof {
            lemma_logged_nothing(old(log)@);
        }
        while i < statuses.len()
            invariant
                i <= statuses.len(),
                all == views_of(statuses@),
                disconnected == disconnected_after(false, all.take(i as int)),
                label == old(self)@.label,
                self@.label == label,
                log.wf(),
                self@ == after_statuses(old(self)@, all.take(i as int)),
                log.notes() == written(
                    old(log).notes(),
                    notes_of_statuses(label, all.take(i as int)),
                ),
                logged(old(log)@, log@, notes_of_statuses(label, all.take(i as int))),
            decreases statuses.len() - i,
        {
            proof {
                assert(all.take(i + 1).drop_last() =~= all.take(i as int));
                assert(all.take(i + 1).last() == statuses@[i as int]@);
                lemma_written_concat(
                    old(log).notes(),
                    notes_of_statuses(label, all.take(i as int)),
                    status_notes(label, statuses@[i as int]@),
                );
            }
            let dropped = disconnected && match &statuses[i] {
                EspStatus::Error(_) => true,
                EspStatus::Message(_) => true,
                _ => false,
            };
            if !dropped {
                let ghost earlier = log@;
                self.handle_status(log, &statuses[i]);
                proof {
                    lemma_logged_then(
                        old(log)@,
                        earlier,
                        log@,
                        notes_of_statuses(label, all.take(i as int)),
                        status_notes(label, statuses@[i as int]@),
                    );
                }
            }
            disconnected = match &statuses[i] {
                EspStatus::Connected => false,
                EspStatus::Disconnected(_) => true,
                _ => disconnected,
            };
            i += 1;
        }
        assert(all.take(statuses.len() as int) =~= all);
        if self.has_sender && !self.has_thread {
            self.has_sender = false;
            proof {
                lemma_written_push(
                    old(log).notes(),
                    notes_of_statuses(label, all),
                    note(label, stale_sender_text()),
                );
            }
            let ghost earlier = log@;
            log.push(
                self.label.as_str(),
                String::from_str("Cleared command sender as thread handle is gone."),
            );
            proof {
                let so_far = notes_of_statuses(label, all);
                lemma_logged_then(
                    old(log)@,
                    earlier,
                    log@,
                    so_far,
                    one_note(label, stale_sender_text()),
                );
                assert(so_far.push(note(label, stale_sender_text())) =~= so_far + one_note(
                    label,
                    stale_sender_text(),
                ));
            }
        }
        ordered_steps(
            false,
            had_sender && !self.has_sender,
            had_thread && !self.has_thread,
            false,
            had_receiver && !self.has_receiver,
        )
    }

    /// Notes that joining the worker failed, with the words of the failure.
    /// The session is as it was: whatever befell the worker stays in the log.
    pub fn worker_panicked(&self, log: &mut RollingLog, what: &str)
        requires
            old(log).wf(),
        ensures
            final(log).wf(),
            final(log).notes() == written(
                old(log).notes(),
                one_note(self@.label, join_failed_text(what@)),
            ),
            logged(old(log)@, final(log)@,
                one_note(self@.label, join_failed_text(what@)),
            ),
    {
        self.write(log, join2("Thread panicked or error on join: ", what));
    }

    /// A setpoint from outside: it becomes the target unless the manual
    /// override is set, in which case it is ignored.
    pub fn apply_external(&mut self, value: i8)
        ensures
            final(self)@ == after_external(old(self)@, value),
    {
        if !self.manual_override {
            self.target_temperature = value;
        }
    }

    /// The manual-set action: the target becomes `value`, whatever the
    /// override says. Tells whether that changed the target.
    pub fn set_target(&mut self, value: i8) -> (changed: bool)
        ensures
            final(self)@ == (SessionView { target_temperature: value, ..old(self)@ }),
            changed == (old(self)@.target_temperature != value),
    {
        let changed = self.target_temperature != value;
        self.target_temperature = value;
        changed
    }

    /// Sets or clears the manual override. Setpoints that were ignored while
    /// it was set are not made up for.
    pub fn set_manual_override(&mut self, on: bool)
        ensures
            final(self)@ == (SessionView { manual_override: on, ..old(self)@ }),
    {
        self.manual_override = on;
    }

    /// Edge detection on the target, once per tick. A target that differs
    /// from the one last acted on is sent as `setTemp` where the device is
    /// connected and a sender is held; where the device is not connected, the
    /// failed delivery is reported. Either way the target counts as acted on:
    /// nothing is retried.
    pub fn request_setpoint(&mut self, log: &mut RollingLog) -> (command: Option<EspCommand>)
        requires
            old(log).wf(),
        ensures
            final(log).wf(),
            final(self)@ == (SessionView {
                previous_sent_temperature: old(self)@.target_temperature,
                status_message: if setpoint_changed(old(self)@) && !old(self)@.connected {
                    labelled(old(self)@.label, not_connected_text())
                } else {
                    old(self)@.status_message
                },
                ..old(self)@
            }),
            command_of(command) == (if setpoint_changed(old(self)@) && old(self)@.connected && old(
                self,
            )@.has_sender {
                Some(CommandView::SendCommand(set_temp_line(old(self)@.target_temperature)))
            } else {
                None
            }),
            final(log).notes() == (if setpoint_changed(old(self)@) && !old(self)@.connected {
                written(
                    old(log).notes(),
                    one_note(old(self)@.label, unreachable_text(old(self)@.label)),
                )
            } else {
                old(log).notes()
            }),
            if setpoint_changed(old(self)@) && !old(self)@.connected {
                logged(
                    old(log)@,
                    final(log)@,
                    one_note(old(self)@.label, unreachable_text(old(self)@.label)),
                )
            } else {
                final(log)@ == old(log)@
            },
    {
        let changed = self.target_temperature != self.previous_sent_temperature;
        self.previous_sent_temperature = self.target_temperature;
        if changed && self.connected {
            if self.has_sender {
                let mut line = String::from_str("setTemp ");
                push_signed_decimal(&mut line, self.target_temperature);
                Some(EspCommand::SendCommand(line))
            } else {
                None
            }
        } else if changed {
            self.show("Not connected.");
            let text = join3(
                "Attempted to send command while ",
                self.label.as_str(),
                " not connected.",
            );
            self.write(log, text);
            None
        } else {
            None
        }
    }

    /// The start or stop of temperature control on the device: hands out
    /// `tempActive 1` or `tempActive 0` where the device is connected and a
    /// sender is held; reports the attempt where it is not connected.
    pub fn request_activation(&mut self, log: &mut RollingLog, on: bool) -> (command: Option<
        EspCommand,
    >)
        requires
            old(log).wf(),
        ensures
            final(log).wf(),
            command_of(command) == switch_command(old(self)@, on),
            final(self)@ == after_switch(old(self)@, on),
            final(log).notes() == written(old(log).notes(), switch_notes(old(self)@, on)),
            logged(old(log)@, final(log)@, switch_notes(old(self)@, on)),
    {
        proof {
            lemma_logged_nothing(old(log)@);
        }
        if self.connected {
            if self.has_sender {
                Some(
                    EspCommand::SendCommand(
                        String::from_str(
                            if on {
                                "tempActive 1"
                            } else {
                                "tempActive 0"
                            },
                        ),
                    ),
                )
            } else {
                self.show("Status unchanged.");
                None
            }
        } else {
            self.show(
                if on {
                    "Cannot START, not connected."
                } else {
                    "Cannot STOP, not connected."
                },
            );
            let text = join3(
                if on {
                    "Attempted START while "
                } else {
                    "Attempted STOP while "
                },
                self.label.as_str(),
                " not connected.",
            );
            self.write(log, text);
            None
        }
    }

    /// Takes note of how sending the start or the stop went. A command that
    /// could not be delivered has the session torn down, as any other.
    pub fn activation_sent(
        &mut self,
        log: &mut RollingLog,
        on: bool,
        failure: Option<String>,
    ) -> (steps: Vec<OwnerStep>)
        requires
            old(log).wf(),
        ensures
            final(log).wf(),
            final(self)@ == (SessionView {
                status_message: labelled(
                    old(self)@.label,
                    switch_outcome_text(on, text_of(failure)),
                ),
                ..if failure is Some {
                    torn_down(old(self)@)
                } else {
                    old(self)@
                }
            }),
            final(log).notes() == written(
                old(log).notes(),
                one_note(old(self)@.label, switch_outcome_text(on, text_of(failure))),
            ),
            logged(old(log)@, final(log)@,
                one_note(old(self)@.label, switch_outcome_text(on, text_of(failure))),
            ),
            steps@ == teardown_steps(old(self)@, final(self)@),
    {
        let had_sender = self.has_sender;
        let had_thread = self.has_thread;
        let had_receiver = self.has_receiver;
        match failure {
            None => {
                let text = String::from_str(
                    if on {
                        "START command sent."
                    } else {
                        "STOP command sent."
                    },
                );
                self.show(text.as_str());
                self.write(log, text);
                ordered_steps(false, false, false, false, false)
            },
            Some(why) => {
                let text = join2(
                    if on {
                        "Error sending START: "
                    } else {
                        "Error sending STOP: "
                    },
                    why.as_str(),
                );
                self.show(text.as_str());
                self.write(log, text);
                self.tear_down();
                ordered_steps(false, had_sender, false, had_thread, had_receiver)
            },
        }
    }

    /// The end of the program: the session gives up its sender and its
    /// thread. The result holds the owner's steps, in order: `StopThread` is
    /// sent, without a care for the outcome, and the sender dropped before
    /// the worker is joined.
    pub fn request_shutdown(&mut self) -> (steps: Vec<OwnerStep>)
        ensures
            final(self)@ == (SessionView { has_sender: false, has_thread: false, ..old(self)@ }),
            steps@ == shutdown_steps(old(self)@),
    {
        let steps = ordered_steps(self.has_sender, self.has_sender, self.has_thread, false, false);
        self.has_sender = false;
        self.has_thread = false;
        steps
    }

    /// Notes that joining the worker at the end of the program failed.
    pub fn shutdown_join_failed(&self, log: &mut RollingLog, what: &str)
        requires
            old(log).wf(),
        ensures
            final(log).wf(),
            final(log).notes() == written(
                old(log).notes(),
                one_note(self@.label, exit_join_failed_text(self@.label, what@)),
            ),
            logged(old(log)@, final(log)@,
                one_note(self@.label, exit_join_failed_text(self@.label, what@)),
            ),
    {
        let text = join3(self.label.as_str(), " thread panicked or error on join: ", what);
        self.write(log, text);
    }
}

} // verus!

//! The application's state: two device sessions, their shared log, and the
//! settings around them.

use vstd::prelude::*;
use crate::esp_comm::{views_of, EspCommand, EspStatus, StatusView};
use crate::log::{
    lemma_logged_nothing, lemma_logged_then, lemma_written_concat, lemma_written_push, logged,
    written, LogLine, Note, RollingLog,
};
use crate::session::{
    after_external, after_switch, command_of, holds_same_worker, latest_reading, note, one_note,
    parse_failures, read_telemetry, reclaim_steps, reconcile_notes, reconciled, shutdown_steps,
    switch_command, switch_notes, DeviceSession, OwnerStep, SessionView,
};
use crate::telemetry::skin_values;
use crate::text::{
    parse_small_int, parse_unsigned, push_signed_decimal, same_text, signed_decimal, small_int_of,
    unsigned_of,
};

verus! {

/// The pages of the application.
#[derive(PartialEq, Eq, Structural, Copy, Clone, Debug)]
pub enum Page {
    Home,
    OscSettings,
    EspConnection,
    AppSettings,
}

/// The state of the application.
#[derive(Debug)]
pub struct TemplateApp {
    /// The address on which setpoint messages are heard.
    pub osc_ip: String,
    /// The upper end of the temperature range.
    pub value_max: i8,
    /// The lower end of the temperature range.
    pub value_min: i8,
    /// The port on which setpoint messages are heard.
    pub osc_port: String,
    /// Temperature control was started and not stopped since.
    pub is_running: bool,
    /// The left module, device 0.
    pub esp_1: DeviceSession,
    /// The right module, device 1.
    pub esp_2: DeviceSession,
    /// The page that is shown.
    pub current_page: Page,
    /// The log that both devices and the application write to.
    pub esp_log: RollingLog,
    /// The text of the manual temperature field of the left module.
    pub manual_pelt_1_temp_str: String,
    /// The text of the manual temperature field of the right module.
    pub manual_pelt_2_temp_str: String,
}

/// The application's state with its texts as character sequences, and its
/// log without the times.
pub struct AppView {
    pub osc_ip: Seq<char>,
    pub value_max: i8,
    pub value_min: i8,
    pub osc_port: Seq<char>,
    pub is_running: bool,
    pub esp_1: SessionView,
    pub esp_2: SessionView,
    pub current_page: Page,
    pub notes: Seq<Note>,
    pub manual_pelt_1_temp_str: Seq<char>,
    pub manual_pelt_2_temp_str: Seq<char>,
}

impl View for TemplateApp {
    type V = AppView;

    open spec fn view(&self) -> AppView {
        AppView {
            osc_ip: self.osc_ip@,
            value_max: self.value_max,
            value_min: self.value_min,
            osc_port: self.osc_port@,
            is_running: self.is_running,
            esp_1: self.esp_1@,
            esp_2: self.esp_2@,
            current_page: self.current_page,
            notes: self.esp_log.notes(),
            manual_pelt_1_temp_str: self.manual_pelt_1_temp_str@,
            manual_pelt_2_temp_str: self.manual_pelt_2_temp_str@,
        }
    }
}

/// The name under which the application itself writes to the log.
pub open spec fn app_label() -> Seq<char> {
    "APP"@
}

/// The name of the left module.
pub open spec fn left_label() -> Seq<char> {
    "ESP L"@
}

/// The name of the right module.
pub open spec fn right_label() -> Seq<char> {
    "ESP R"@
}

pub open spec fn invalid_id_text(id: i8) -> Seq<char> {
    "Invalid peltier _id: "@ + signed_decimal(id as int) + ". Defaulting to pelt_temp_1"@
}

pub open spec fn exiting_text() -> Seq<char> {
    "Application exiting. Stopping ESP workers."@
}

pub open spec fn manual_set_text(number: Seq<char>, value: i8) -> Seq<char> {
    "Manual override: Peltier "@ + number + " target directly set to "@ + signed_decimal(
        value as int,
    ) + "\u{b0}C"@
}

pub open spec fn invalid_input_text(number: Seq<char>, input: Seq<char>) -> Seq<char> {
    "Invalid temperature input for Peltier "@ + number + ": '"@ + input + "'"@
}

/// The application's state at the start of the program.
pub open spec fn initial_view() -> AppView {
    AppView {
        osc_ip: "127.0.0.1"@,
        value_max: 40,
        value_min: -10i8,
        osc_port: "9000"@,
        is_running: false,
        esp_1: DeviceSession::default_view(left_label(), "/dev/ttyUSB0"@),
        esp_2: DeviceSession::default_view(right_label(), "/dev/ttyUSB1"@),
        current_page: Page::Home,
        notes: Seq::empty(),
        manual_pelt_1_temp_str: "0"@,
        manual_pelt_2_temp_str: "0"@,
    }
}

/// The state after a setpoint from outside for the device `id`. Device 0
/// and device 1 take it unless their manual override is set. Any other id
/// is answered with a warning in the log and counts as meant for device 0,
/// which takes it unless its manual override is set.
pub open spec fn after_setpoint(a: AppView, id: i8, temp: i8) -> AppView {
    if id == 0 {
        AppView { esp_1: after_external(a.esp_1, temp), ..a }
    } else if id == 1 {
        AppView { esp_2: after_external(a.esp_2, temp), ..a }
    } else {
        AppView {
            esp_1: after_external(a.esp_1, temp),
            notes: written(a.notes, one_note(app_label(), invalid_id_text(id))),
            ..a
        }
    }
}

/// What a setpoint from outside for the device `id` writes to the log: a
/// warning where the id is of neither device.
pub open spec fn setpoint_notes(id: i8) -> Seq<Note> {
    if id == 0 || id == 1 {
        Seq::empty()
    } else {
        one_note(app_label(), invalid_id_text(id))
    }
}

/// What a run of setpoints from outside writes to the log, in order.
pub open spec fn setpoints_notes(events: Seq<(i8, i8)>) -> Seq<Note>
    decreases events.len(),
{
    if events.len() == 0 {
        Seq::empty()
    } else {
        setpoints_notes(events.drop_last()) + setpoint_notes(events.last().0)
    }
}

/// What one tick writes to the log: the warnings of the setpoints, then
/// the notes of device 0's reports, then those of device 1's.
pub open spec fn tick_notes(
    a: AppView,
    setpoints: Seq<(i8, i8)>,
    left: Seq<StatusView>,
    right: Seq<StatusView>,
) -> Seq<Note> {
    setpoints_notes(setpoints) + reconcile_notes(after_setpoints(a, setpoints).esp_1, left)
        + reconcile_notes(after_setpoints(a, setpoints).esp_2, right)
}

/// The state after a run of setpoints from outside, in order.
pub open spec fn after_setpoints(a: AppView, events: Seq<(i8, i8)>) -> AppView
    decreases events.len(),
{
    if events.len() == 0 {
        a
    } else {
        after_setpoint(after_setpoints(a, events.drop_last()), events.last().0, events.last().1)
    }
}

/// The state after a reconciliation pass for device 0 (`right` false) or
/// device 1 (`right` true) over `reports`.
pub open spec fn after_reconcile(a: AppView, right: bool, reports: Seq<StatusView>) -> AppView {
    if right {
        AppView {
            esp_2: reconciled(a.esp_2, reports),
            notes: written(a.notes, reconcile_notes(a.esp_2, reports)),
            ..a
        }
    } else {
        AppView {
            esp_1: reconciled(a.esp_1, reports),
            notes: written(a.notes, reconcile_notes(a.esp_1, reports)),
            ..a
        }
    }
}

/// Setpoints from outside change nothing of what the sessions hold of
/// their workers.
pub proof fn lemma_setpoints_keep_workers(a: AppView, events: Seq<(i8, i8)>)
    ensures
        holds_same_worker(a.esp_1, after_setpoints(a, events).esp_1),
        holds_same_worker(a.esp_2, after_setpoints(a, events).esp_2),
    decreases events.len(),
{
    if events.len() > 0 {
        lemma_setpoints_keep_workers(a, events.drop_last());
    }
}

/// What one tick of the control loop found to do with the workers.
#[derive(Clone, Debug, PartialEq, Eq)]
pub struct Tick {
    /// The owner's steps for the worker of device 0, in order.
    pub left: Vec<OwnerStep>,
    /// The owner's steps for the worker of device 1, in order.
    pub right: Vec<OwnerStep>,
    /// Something came in, so the state is worth showing again at once.
    pub changed: bool,
}

/// The session after the manual-set action on the text `input`.
pub open spec fn after_manual_set(s: SessionView, input: Seq<char>) -> SessionView {
    match small_int_of(input) {
        Some(value) => SessionView { target_temperature: value as i8, ..s },
        None => s,
    }
}

/// What the manual-set action on the text `input` writes to the log, for
/// the device that is shown under `number`.
pub open spec fn manual_set_notes(s: SessionView, number: Seq<char>, input: Seq<char>) -> Seq<
    Note,
> {
    match small_int_of(input) {
        Some(value) => if s.target_temperature != value {
            one_note(app_label(), manual_set_text(number, value as i8))
        } else {
            Seq::empty()
        },
        None => one_note(app_label(), invalid_input_text(number, input)),
    }
}

fn manual_set(session: &mut DeviceSession, log: &mut RollingLog, number: &str, input: &str)
    requires
        old(log).wf(),
    ensures
        final(log).wf(),
        final(session)@ == after_manual_set(old(session)@, input@),
        final(log).notes() == written(
            old(log).notes(),
            manual_set_notes(old(session)@, number@, input@),
        ),
        logged(old(log)@, final(log)@, manual_set_notes(old(session)@, number@, input@)),
{
    proof {
        lemma_logged_nothing(old(log)@);
    }
    match parse_small_int(input) {
        Some(value) => {
            if session.set_target(value) {
                let mut text = String::from_str("Manual override: Peltier ");
                text.append(number);
                text.append(" target directly set to ");
                push_signed_decimal(&mut text, value);
                text.append("\u{b0}C");
                proof {
                    lemma_written_push(old(log).notes(), Seq::empty(), note(app_label(), text@));
                }
                log.push("APP", text);
            }
        },
        None => {
            let mut text = String::from_str("Invalid temperature input for Peltier ");
            text.append(number);
            text.append(": '");
            text.append(input);
            text.append("'");
            proof {
                lemma_written_push(old(log).notes(), Seq::empty(), note(app_label(), text@));
            }
            log.push("APP", text);
        },
    }
}

impl TemplateApp {
    /// The log is within its capacity.
    pub open spec fn wf(&self) -> bool {
        self.esp_log.wf()
    }

    /// The lines of the log, times included.
    pub open spec fn lines(&self) -> Seq<LogLine> {
        self.esp_log@
    }

    /// The state at the start of the program: both devices idle, nothing in the log.
    pub fn new() -> (app: TemplateApp)
        ensures
            app.wf(),
            app@ == initial_view(),
            app.lines() == Seq::<LogLine>::empty(),
    {
        let app = TemplateApp {
            osc_ip: String::from_str("127.0.0.1"),
            value_max: 40,
            value_min: -10,
            osc_port: String::from_str("9000"),
            is_running: false,
            esp_1: DeviceSession::new("ESP L", "/dev/ttyUSB0", 115200),
            esp_2: DeviceSession::new("ESP R", "/dev/ttyUSB1", 115200),
            current_page: Page::Home,
            esp_log: RollingLog::new(),
            manual_pelt_1_temp_str: String::from_str("0"),
            manual_pelt_2_temp_str: String::from_str("0"),
        };
        assert(app@.notes =~= Seq::<Note>::empty());
        app
    }

    /// Writes a line to the log under the given name, with the present time.
    pub fn add_esp_log_message(&mut self, esp_identifier: &str, message: String)
        requires
            old(self).wf(),
        ensures
            final(self).wf(),
            final(self)@ == (AppView {
                notes: written(old(self)@.notes, one_note(esp_identifier@, message@)),
                ..old(self)@
            }),
            logged(old(self).lines(), final(self).lines(), one_note(esp_identifier@, message@)),
    {
        proof {
            lemma_written_push(old(self)@.notes, Seq::empty(), note(esp_identifier@, message@));
        }
        self.esp_log.push(esp_identifier, message);
    }

    /// A setpoint from outside for the device `_id`. Device 0 and device 1
    /// take it unless their manual override is set. Any other id is
    /// answered with a warning in the log and counts as meant for device 0,
    /// which takes it unless its manual override is set.
    pub fn update_pelt_temp(&mut self, _id: i8, temp: i8)
        requires
            old(self).wf(),
        ensures
            final(self).wf(),
            final(self)@ == after_setpoint(old(self)@, _id, temp),
            logged(old(self).lines(), final(self).lines(), setpoint_notes(_id)),
    {
        proof {
            lemma_logged_nothing(old(self).lines());
        }
        if _id == 0 {
            self.esp_1.apply_external(temp);
        } else if _id == 1 {
            self.esp_2.apply_external(temp);
        } else {
            let mut text = String::from_str("Invalid peltier _id: ");
            push_signed_decimal(&mut text, _id);
            text.append(". Defaulting to pelt_temp_1");
            self.add_esp_log_message("APP", text);
            self.esp_1.apply_external(temp);
        }
    }

    /// Takes in all setpoints from outside that were queued, in order.
    pub fn ingest_setpoints(&mut self, events: &Vec<(i8, i8)>)
        requires
            old(self).wf(),
        ensures
            final(self).wf(),
            final(self)@ == after_setpoints(old(self)@, events@),
            logged(old(self).lines(), final(self).lines(), setpoints_notes(events@)),
    {
        let mut i: usize = 0;
        assert(events@.take(0) =~= Seq::<(i8, i8)>::empty());
        proof {
            lemma_logged_nothing(old(self).lines());
        }
        while i < events.len()
            invariant
                i <= events.len(),
                self.wf(),
                self@ == after_setpoints(old(self)@, events@.take(i as int)),
                logged(old(self).lines(), self.lines(), setpoints_notes(events@.take(i as int))),
            decreases events.len() - i,
        {
            assert(events@.take(i + 1).drop_last() =~= events@.take(i as int));
            let event = events[i];
            let ghost earlier = self.lines();
            self.update_pelt_temp(event.0, event.1);
            proof {
                lemma_logged_then(
                    old(self).lines(),
                    earlier,
                    self.lines(),
                    setpoints_notes(events@.take(i as int)),
                    setpoint_notes(event.0),
                );
            }
            i += 1;
        }
        assert(events@.take(events.len() as int) =~= events@);
    }

    /// One tick of the control loop, over all that was queued since the
    /// last: first the setpoints from outside, then the reports of device 0,
    /// then those of device 1. Nothing here waits for anything.
    pub fn tick(
        &mut self,
        setpoints: &Vec<(i8, i8)>,
        left: &Vec<EspStatus>,
        right: &Vec<EspStatus>,
    ) -> (tick: Tick)
        requires
            old(self).wf(),
        ensures
            final(self).wf(),
            final(self)@ == after_reconcile(
                after_reconcile(
                    after_setpoints(old(self)@, setpoints@),
                    false,
                    views_of(left@),
                ),
                true,
                views_of(right@),
            ),
            tick.left@ == reclaim_steps(old(self)@.esp_1, final(self)@.esp_1),
            tick.right@ == reclaim_steps(old(self)@.esp_2, final(self)@.esp_2),
            tick.changed == (setpoints@.len() > 0 || left@.len() > 0 || right@.len() > 0),
            logged(
                old(self).lines(),
                final(self).lines(),
                tick_notes(old(self)@, setpoints@, views_of(left@), views_of(right@)),
            ),
    {
        self.ingest_setpoints(setpoints);
        proof {
            lemma_setpoints_keep_workers(old(self)@, setpoints@);
        }
        let ghost after_setpoints = self.lines();
        let ghost started = self@;
        let left_reclaim = self.reconcile(false, left);
        let ghost after_left = self.lines();
        let right_reclaim = self.reconcile(true, right);
        proof {
            lemma_logged_then(
                old(self).lines(),
                after_setpoints,
                after_left,
                setpoints_notes(setpoints@),
                reconcile_notes(started.esp_1, views_of(left@)),
            );
            lemma_logged_then(
                old(self).lines(),
                after_left,
                self.lines(),
                setpoints_notes(setpoints@) + reconcile_notes(started.esp_1, views_of(left@)),
                reconcile_notes(started.esp_2, views_of(right@)),
            );
        }
        Tick {
            left: left_reclaim,
            right: right_reclaim,
            changed: setpoints.len() > 0 || left.len() > 0 || right.len() > 0,
        }
    }

    /// Reads one telemetry line of the device that goes by `esp_id_str`.
    /// The last skin temperature in it that is a number becomes the
    /// reading of that device; one that is no number is noted under that
    /// name and changes no reading. A name that is neither device's has its
    /// failures noted all the same.
    pub fn parse_esp_message_and_update_state(&mut self, esp_id_str: &str, msg: &str)
        requires
            old(self).wf(),
        ensures
            final(self).wf(),
            final(self)@ == (AppView {
                esp_1: SessionView {
                    skin_temperature: if esp_id_str@ == left_label() {
                        latest_reading(old(self)@.esp_1.skin_temperature, skin_values(msg@))
                    } else {
                        old(self)@.esp_1.skin_temperature
                    },
                    ..old(self)@.esp_1
                },
                esp_2: SessionView {
                    skin_temperature: if esp_id_str@ != left_label() && esp_id_str@
                        == right_label() {
                        latest_reading(old(self)@.esp_2.skin_temperature, skin_values(msg@))
                    } else {
                        old(self)@.esp_2.skin_temperature
                    },
                    ..old(self)@.esp_2
                },
                notes: written(old(self)@.notes, parse_failures(esp_id_str@, skin_values(msg@))),
                ..old(self)@
            }),
            logged(
                old(self).lines(),
                final(self).lines(),
                parse_failures(esp_id_str@, skin_values(msg@)),
            ),
    {
        if same_text(esp_id_str, "ESP L") {
            let earlier = self.esp_1.skin_temperature.take();
            self.esp_1.skin_temperature = read_telemetry(
                esp_id_str,
                earlier,
                msg,
                &mut self.esp_log,
            );
        } else if same_text(esp_id_str, "ESP R") {
            let earlier = self.esp_2.skin_temperature.take();
            self.esp_2.skin_temperature = read_telemetry(
                esp_id_str,
                earlier,
                msg,
                &mut self.esp_log,
            );
        } else {
            let _ = read_telemetry(esp_id_str, None, msg, &mut self.esp_log);
        }
    }

    /// The reconciliation pass for device 0 (`right` false) or device 1
    /// (`right` true), over the reports that were queued for it.
    pub fn reconcile(&mut self, right: bool, statuses: &Vec<EspStatus>) -> (steps: Vec<
        OwnerStep,
    >)
        requires
            old(self).wf(),
        ensures
            final(self).wf(),
            final(self)@ == after_reconcile(old(self)@, right, views_of(statuses@)),
            logged(
                old(self).lines(),
                final(self).lines(),
                reconcile_notes(old(self).session(right), views_of(statuses@)),
            ),
            steps@ == reclaim_steps(old(self).session(right), final(self).session(right)),
    {
        if right {
            self.esp_2.reconcile(&mut self.esp_log, statuses)
        } else {
            self.esp_1.reconcile(&mut self.esp_log, statuses)
        }
    }

    /// The session of device 0 (`right` false) or device 1 (`right` true).
    pub open spec fn session(&self, right: bool) -> SessionView {
        if right {
            self.esp_2@
        } else {
            self.esp_1@
        }
    }

    /// The manual-set action for device 0 (`right` false) or device 1
    /// (`right` true): the text of the device's manual temperature field
    /// becomes its target where it is a number from -128 to 127; otherwise
    /// the input is reported as invalid.
    pub fn apply_manual_temp(&mut self, right: bool)
        requires
            old(self).wf(),
        ensures
            final(self).wf(),
            !right ==> final(self)@ == (AppView {
                esp_1: after_manual_set(old(self)@.esp_1, old(self)@.manual_pelt_1_temp_str),
                notes: written(
                    old(self)@.notes,
                    manual_set_notes(old(self)@.esp_1, "1"@, old(self)@.manual_pelt_1_temp_str),
                ),
                ..old(self)@
            }),
            right ==> final(self)@ == (AppView {
                esp_2: after_manual_set(old(self)@.esp_2, old(self)@.manual_pelt_2_temp_str),
                notes: written(
                    old(self)@.notes,
                    manual_set_notes(old(self)@.esp_2, "2"@, old(self)@.manual_pelt_2_temp_str),
                ),
                ..old(self)@
            }),
            logged(
                old(self).lines(),
                final(self).lines(),
                if right {
                    manual_set_notes(old(self)@.esp_2, "2"@, old(self)@.manual_pelt_2_temp_str)
                } else {
                    manual_set_notes(old(self)@.esp_1, "1"@, old(self)@.manual_pelt_1_temp_str)
                },
            ),
    {
        if right {
            manual_set(
                &mut self.esp_2,
                &mut self.esp_log,
                "2",
                self.manual_pelt_2_temp_str.as_str(),
            );
        } else {
            manual_set(
                &mut self.esp_1,
                &mut self.esp_log,
                "1",
                self.manual_pelt_1_temp_str.as_str(),
            );
        }
    }

    /// The start (`on` true) or stop of temperature control on both
    /// devices. The result holds, for device 0 and for device 1, the command
    /// to send where the device can be reached.
    pub fn switch_all(&mut self, on: bool) -> (commands: (Option<EspCommand>, Option<EspCommand>))
        requires
            old(self).wf(),
        ensures
            final(self).wf(),
            final(self)@ == (AppView {
                is_running: on,
                esp_1: after_switch(old(self)@.esp_1, on),
                esp_2: after_switch(old(self)@.esp_2, on),
                notes: written(
                    old(self)@.notes,
                    switch_notes(old(self)@.esp_1, on) + switch_notes(old(self)@.esp_2, on),
                ),
                ..old(self)@
            }),
            command_of(commands.0) == switch_command(old(self)@.esp_1, on),
            command_of(commands.1) == switch_command(old(self)@.esp_2, on),
            logged(
                old(self).lines(),
                final(self).lines(),
                switch_notes(old(self)@.esp_1, on) + switch_notes(old(self)@.esp_2, on),
            ),
    {
        self.is_running = on;
        let left = self.esp_1.request_activation(&mut self.esp_log, on);
        let ghost between = self.lines();
        let right = self.esp_2.request_activation(&mut self.esp_log, on);
        proof {
            lemma_logged_then(
                old(self).lines(),
                between,
                self.lines(),
                switch_notes(old(self)@.esp_1, on),
                switch_notes(old(self)@.esp_2, on),
            );
            lemma_written_concat(
                old(self)@.notes,
                switch_notes(old(self)@.esp_1, on),
                switch_notes(old(self)@.esp_2, on),
            );
        }
        (left, right)
    }

    /// Takes the text of a baud rate field for device 0 (`right` false) or
    /// device 1 (`right` true): where it is a number that fits 32 bits, it
    /// becomes the device's baud rate; otherwise nothing changes.
    pub fn edit_baud_rate(&mut self, right: bool, input: &str)
        ensures
            final(self).wf() == old(self).wf(),
            final(self).lines() == old(self).lines(),
            final(self)@ == (match unsigned_of(input@) {
                Some(baud) => if right {
                    AppView {
                        esp_2: SessionView { baud_rate: baud as u32, ..old(self)@.esp_2 },
                        ..old(self)@
                    }
                } else {
                    AppView {
                        esp_1: SessionView { baud_rate: baud as u32, ..old(self)@.esp_1 },
                        ..old(self)@
                    }
                },
                None => old(self)@,
            }),
    {
        match parse_unsigned(input) {
            Some(baud) => {
                if right {
                    self.esp_2.baud_rate = baud;
                } else {
                    self.esp_1.baud_rate = baud;
                }
            },
            None => {},
        }
    }

    /// The end of the program: the exit is noted, and both sessions give up
    /// their senders and threads. The result holds, for device 0 and for
    /// device 1, the owner's steps in order: the stop is sent and the sender
    /// dropped before the worker is joined.
    pub fn on_exit(&mut self) -> (plans: (Vec<OwnerStep>, Vec<OwnerStep>))
        requires
            old(self).wf(),
        ensures
            final(self).wf(),
            final(self)@ == (AppView {
                esp_1: SessionView { has_sender: false, has_thread: false, ..old(self)@.esp_1 },
                esp_2: SessionView { has_sender: false, has_thread: false, ..old(self)@.esp_2 },
                notes: written(old(self)@.notes, one_note(app_label(), exiting_text())),
                ..old(self)@
            }),
            plans.0@ == shutdown_steps(old(self)@.esp_1),
            plans.1@ == shutdown_steps(old(self)@.esp_2),
            logged(old(self).lines(), final(self).lines(), one_note(app_label(), exiting_text())),
    {
        self.add_esp_log_message(
            "APP",
            String::from_str("Application exiting. Stopping ESP workers."),
        );
        let left = self.esp_1.request_shutdown();
        let right = self.esp_2.request_shutdown();
        (left, right)
    }
}

impl Default for TemplateApp {
    fn default() -> (app: TemplateApp)
        ensures
            app.wf(),
            app@ == initial_view(),
            app.lines() == Seq::<LogLine>::empty(),
    {
        TemplateApp::new()
    }
}

} // verus!

use tempsense::app::{Page, TemplateApp};
use tempsense::esp_comm::{EspCommand, EspStatus};
use tempsense::log::RollingLog;
use tempsense::session::{ordered_steps, DeviceSession, OwnerStep};
use tempsense::worker::{worker_step, WorkerAction, WorkerEvent, WorkerState};

fn s(text: &str) -> String {
    text.to_string()
}

fn reports(actions: Vec<WorkerAction>) -> Vec<EspStatus> {
    let mut found = Vec::new();
    for action in actions {
        if let WorkerAction::Emit(status) = action {
            found.push(status);
        }
    }
    found
}

fn nothing() -> Vec<OwnerStep> {
    Vec::new()
}

fn everything() -> Vec<OwnerStep> {
    vec![OwnerStep::DropSender, OwnerStep::JoinWorker, OwnerStep::DropReceiver]
}

#[test]
fn application_starts_idle() {
    let app = TemplateApp::new();
    assert_eq!(app.osc_ip, "127.0.0.1");
    assert_eq!(app.osc_port, "9000");
    assert_eq!(app.value_max, 40);
    assert_eq!(app.value_min, -10);
    assert!(!app.is_running);
    assert_eq!(app.current_page, Page::Home);
    assert_eq!(app.esp_1.label, "ESP L");
    assert_eq!(app.esp_2.label, "ESP R");
    assert_eq!(app.esp_1.port, "/dev/ttyUSB0");
    assert_eq!(app.esp_2.port, "/dev/ttyUSB1");
    assert_eq!(app.esp_1.baud_rate, 115200);
    assert_eq!(app.esp_1.status_message, "ESP L: Not connected.");
    assert_eq!(app.esp_2.status_message, "ESP R: Not connected.");
    assert_eq!(app.esp_1.previous_sent_temperature, -127);
    assert!(!app.esp_1.connected && !app.esp_1.has_thread && !app.esp_1.has_sender);
    assert_eq!(app.manual_pelt_1_temp_str, "0");
    assert_eq!(app.esp_log.len(), 0);
    let other = TemplateApp::default();
    assert_eq!(other.esp_2.port, "/dev/ttyUSB1");
}

#[test]
fn connect_send_disconnect_end_to_end() {
    let mut app = TemplateApp::new();
    let mut worker = WorkerState::Idle;

    let command = app.esp_1.request_connect(&mut app.esp_log).unwrap();
    assert_eq!(command, EspCommand::Connect(s("/dev/ttyUSB0"), 115200));
    assert!(app.esp_1.has_thread && app.esp_1.has_sender && app.esp_1.has_receiver);
    assert_eq!(app.esp_1.command_sent(&mut app.esp_log, &command, None), nothing());
    let attempt = "Attempting to connect to ESP L @ /dev/ttyUSB0 (115200 baud)...";
    assert_eq!(app.esp_1.status_message, attempt);
    assert_eq!(app.esp_log.entry(0).unwrap().text, attempt);

    let (next, actions) = worker_step(worker, WorkerEvent::Command(command));
    assert_eq!(actions, vec![WorkerAction::Open(s("/dev/ttyUSB0"), 115200)]);
    let (next, actions) = worker_step(next, WorkerEvent::Opened);
    worker = next;
    let queued = reports(actions);
    assert_eq!(queued, vec![EspStatus::Connected]);

    assert_eq!(app.reconcile(false, &queued), nothing());
    assert!(app.esp_1.connected);
    assert!(!app.esp_2.connected);
    assert_eq!(app.esp_1.status_message, "ESP L Connected.");
    assert_eq!(app.esp_log.entry(1).unwrap().source, "ESP L");
    assert_eq!(app.esp_log.entry(1).unwrap().text, "Connected.");

    app.esp_1.set_target(10);
    let command = app.esp_1.request_setpoint(&mut app.esp_log).unwrap();
    assert_eq!(command, EspCommand::SendCommand(s("setTemp 10")));
    assert_eq!(app.esp_1.command_sent(&mut app.esp_log, &command, None), nothing());
    assert_eq!(app.esp_log.entry(2).unwrap().text, "Sent command: setTemp 10");
    let (next, actions) = worker_step(worker, WorkerEvent::Command(command));
    assert_eq!(actions, vec![WorkerAction::WriteLine(s("setTemp 10\n"))]);
    let (next, _) = worker_step(next, WorkerEvent::Sent);
    worker = next;

    let command = app.esp_1.request_disconnect(&mut app.esp_log).unwrap();
    assert_eq!(command, EspCommand::Disconnect);
    assert_eq!(app.esp_1.command_sent(&mut app.esp_log, &command, None), nothing());
    assert_eq!(app.esp_1.status_message, "ESP L: Disconnect command sent.");
    let (next, actions) = worker_step(worker, WorkerEvent::Command(command));
    assert_eq!(next, WorkerState::Closed);
    let queued = reports(actions);
    assert_eq!(queued, vec![EspStatus::Disconnected(Some(s("by user")))]);

    assert_eq!(app.reconcile(false, &queued), everything());
    assert!(!app.esp_1.connected);
    assert!(!app.esp_1.has_thread && !app.esp_1.has_sender && !app.esp_1.has_receiver);
    assert_eq!(app.esp_1.status_message, "ESP L: by user");
    assert_eq!(app.esp_log.entry(4).unwrap().text, "by user");
    assert_eq!(app.esp_log.len(), 5);
}

#[test]
fn connect_while_a_worker_is_held_is_refused() {
    let mut log = RollingLog::new();
    let mut session = DeviceSession::new("ESP R", "/dev/ttyUSB1", 9600);
    assert!(session.request_connect(&mut log).is_some());
    assert_eq!(session.request_connect(&mut log), None);
    assert_eq!(
        session.status_message,
        "ESP R: Already connected or connection attempt in progress."
    );
    assert_eq!(log.entry(0).unwrap().text, "Already connected or connection attempt in progress.");
}

#[test]
fn failed_connect_send_tears_the_session_down() {
    let mut log = RollingLog::new();
    let mut session = DeviceSession::new("ESP L", "/dev/ttyUSB0", 115200);
    let command = session.request_connect(&mut log).unwrap();
    let reclaim = session.command_sent(&mut log, &command, Some(s("sending on a closed channel")));
    assert_eq!(
        reclaim,
        vec![OwnerStep::DropSender, OwnerStep::DiscardWorker, OwnerStep::DropReceiver]
    );
    assert!(!session.has_thread && !session.has_sender && !session.has_receiver);
    assert_eq!(
        session.status_message,
        "ESP L: Failed to send connect cmd: sending on a closed channel"
    );
    assert_eq!(log.entry(0).unwrap().text, "Failed to send connect cmd: sending on a closed channel");
    assert!(session.request_connect(&mut log).is_some());
}

#[test]
fn actions_without_a_sender_report_not_connected() {
    let mut log = RollingLog::new();
    let mut session = DeviceSession::new("ESP L", "/dev/ttyUSB0", 115200);
    assert_eq!(session.request_disconnect(&mut log), None);
    assert_eq!(session.request_send(&mut log, s("PING")), None);
    assert_eq!(session.status_message, "ESP L: Not connected.");
    assert_eq!(log.len(), 2);
    assert_eq!(log.entry(1).unwrap().text, "Not connected.");
    session.has_sender = true;
    assert_eq!(session.request_send(&mut log, s("PING")), Some(EspCommand::SendCommand(s("PING"))));
}

#[test]
fn failed_sends_are_surfaced() {
    let mut log = RollingLog::new();
    let mut session = DeviceSession::new("ESP L", "/dev/ttyUSB0", 115200);
    session.has_sender = true;
    session.has_thread = true;
    session.connected = true;
    let reclaim =
        session.command_sent(&mut log, &EspCommand::SendCommand(s("PING")), Some(s("closed")));
    assert_eq!(reclaim, vec![OwnerStep::DropSender, OwnerStep::DiscardWorker]);
    assert_eq!(session.status_message, "ESP L: Error sending command: closed");
    assert_eq!(log.entry(0).unwrap().text, "Failed to send 'PING': closed");
    assert!(!session.connected && !session.has_thread);

    session.has_sender = true;
    session.command_sent(&mut log, &EspCommand::Disconnect, Some(s("closed")));
    assert_eq!(session.status_message, "ESP L: Failed to send disconnect cmd: closed");
    assert_eq!(log.entry(1).unwrap().text, "Failed to send disconnect cmd: closed");
    assert!(!session.has_sender);
}

#[test]
fn failed_stop_is_swallowed() {
    let mut log = RollingLog::new();
    let mut session = DeviceSession::new("ESP L", "/dev/ttyUSB0", 115200);
    session.has_sender = true;
    session.has_thread = true;
    let before = session.status_message.clone();
    let reclaim = session.command_sent(&mut log, &EspCommand::StopThread, Some(s("closed")));
    assert_eq!(reclaim, nothing());
    assert_eq!(session.status_message, before);
    assert!(session.has_sender && session.has_thread);
    assert_eq!(log.len(), 0);
}

#[test]
fn error_keeps_connectivity() {
    let mut app = TemplateApp::new();
    app.esp_2.connected = true;
    app.esp_2.has_thread = true;
    app.esp_2.has_sender = true;
    app.esp_2.has_receiver = true;
    let queued = vec![EspStatus::Error(s("boom"))];
    assert_eq!(app.reconcile(true, &queued), nothing());
    assert!(app.esp_2.connected);
    assert_eq!(app.esp_2.status_message, "ESP R: Error: boom");
    assert_eq!(app.esp_log.entry(0).unwrap().source, "ESP R");
    assert_eq!(app.esp_log.entry(0).unwrap().text, "Error: boom");
}

#[test]
fn reconcile_drains_every_report_in_order() {
    let mut app = TemplateApp::new();
    app.esp_1.request_connect(&mut app.esp_log);
    let queued = vec![
        EspStatus::Connected,
        EspStatus::Message(s("Skin_Temp_Smoothed:30.5,Skin_Temp_Smoothed:bad")),
        EspStatus::Error(s("Serial read error: gone. Disconnecting.")),
        EspStatus::Disconnected(None),
    ];
    assert_eq!(app.reconcile(false, &queued), everything());
    assert!(!app.esp_1.connected);
    assert_eq!(app.esp_1.skin_temperature.as_deref(), Some("30.5"));
    assert_eq!(app.esp_1.status_message, "ESP L: Disconnected by worker.");
    let texts: Vec<String> = (0..app.esp_log.len()).map(|i| app.esp_log.entry(i).unwrap().text.clone()).collect();
    assert_eq!(
        texts,
        vec![
            s("Connected."),
            s("MSG: Skin_Temp_Smoothed:30.5,Skin_Temp_Smoothed:bad"),
            s("Failed to parse Skin_Temp_Smoothed value: 'bad'"),
            s("Error: Serial read error: gone. Disconnecting."),
            s("Disconnected by worker."),
        ]
    );
}

#[test]
fn stale_sender_is_cleared() {
    let mut log = RollingLog::new();
    let mut session = DeviceSession::new("ESP L", "/dev/ttyUSB0", 115200);
    session.has_sender = true;
    let reclaim = session.reconcile(&mut log, &Vec::new());
    assert_eq!(reclaim, vec![OwnerStep::DropSender]);
    assert!(!session.has_sender);
    assert_eq!(log.entry(0).unwrap().text, "Cleared command sender as thread handle is gone.");
    assert_eq!(session.reconcile(&mut log, &Vec::new()), nothing());
    assert_eq!(log.len(), 1);
}

#[test]
fn join_failures_are_logged() {
    let mut log = RollingLog::new();
    let session = DeviceSession::new("ESP L", "/dev/ttyUSB0", 115200);
    session.worker_panicked(&mut log, "Any { .. }");
    assert_eq!(log.entry(0).unwrap().text, "Thread panicked or error on join: Any { .. }");
    session.shutdown_join_failed(&mut log, "Any { .. }");
    assert_eq!(log.entry(1).unwrap().source, "ESP L");
    assert_eq!(log.entry(1).unwrap().text, "ESP L thread panicked or error on join: Any { .. }");
}

#[test]
fn exit_stops_both_workers() {
    let mut app = TemplateApp::new();
    app.esp_1.request_connect(&mut app.esp_log);
    let (left, right) = app.on_exit();
    assert_eq!(left, vec![OwnerStep::SendStop, OwnerStep::DropSender, OwnerStep::JoinWorker]);
    assert_eq!(right, nothing());
    assert!(!app.esp_1.has_sender && !app.esp_1.has_thread);
    assert_eq!(app.esp_log.entry(0).unwrap().source, "APP");
    assert_eq!(app.esp_log.entry(0).unwrap().text, "Application exiting. Stopping ESP workers.");
    let (left, _) = app.on_exit();
    assert_eq!(left, nothing());
}

#[test]
fn log_messages_carry_their_source() {
    let mut app = TemplateApp::new();
    app.add_esp_log_message("ESP R", s("hello"));
    assert_eq!(app.esp_log.entry(0).unwrap().source, "ESP R");
    assert_eq!(app.esp_log.entry(0).unwrap().text, "hello");
}

#[test]
fn tick_takes_in_setpoints_then_reports() {
    let mut app = TemplateApp::new();
    app.esp_2.set_manual_override(true);
    app.esp_1.request_connect(&mut app.esp_log);
    let setpoints = vec![(0, 5), (1, 6), (9, 7), (0, 8)];
    let left = vec![EspStatus::Connected, EspStatus::Message(s("Skin_Temp_Smoothed: 20.25 "))];
    let right = vec![EspStatus::Error(s("x"))];
    let tick = app.tick(&setpoints, &left, &right);
    assert_eq!(tick.left, nothing());
    assert_eq!(tick.right, nothing());
    assert!(tick.changed);
    assert_eq!(app.esp_1.target_temperature, 8);
    assert_eq!(app.esp_2.target_temperature, 0);
    assert!(app.esp_1.connected);
    assert_eq!(app.esp_1.skin_temperature.as_deref(), Some("20.25"));
    assert_eq!(app.esp_2.status_message, "ESP R: Error: x");
    let texts: Vec<String> =
        (0..app.esp_log.len()).map(|i| app.esp_log.entry(i).unwrap().text.clone()).collect();
    assert_eq!(
        texts,
        vec![
            s("Invalid peltier _id: 9. Defaulting to pelt_temp_1"),
            s("Connected."),
            s("MSG: Skin_Temp_Smoothed: 20.25 "),
            s("Error: x"),
        ]
    );
    let tick = app.tick(&Vec::new(), &vec![EspStatus::Disconnected(Some(s("by user")))], &Vec::new());
    assert_eq!(tick.left, everything());
    assert!(tick.changed);
    let tick = app.tick(&Vec::new(), &Vec::new(), &Vec::new());
    assert_eq!(tick.left, nothing());
    assert!(!tick.changed);
}

#[test]
fn start_and_stop_reach_connected_devices_only() {
    let mut app = TemplateApp::new();
    app.esp_1.has_sender = true;
    app.esp_1.has_thread = true;
    app.esp_1.connected = true;
    let (left, right) = app.switch_all(true);
    assert!(app.is_running);
    assert_eq!(left, Some(EspCommand::SendCommand(s("tempActive 1"))));
    assert_eq!(right, None);
    assert_eq!(app.esp_2.status_message, "ESP R: Cannot START, not connected.");
    assert_eq!(app.esp_log.entry(0).unwrap().text, "Attempted START while ESP R not connected.");
    let reclaim = app.esp_1.activation_sent(&mut app.esp_log, true, None);
    assert_eq!(reclaim, nothing());
    assert_eq!(app.esp_1.status_message, "ESP L: START command sent.");
    assert_eq!(app.esp_log.entry(1).unwrap().text, "START command sent.");
    let (left, _) = app.switch_all(false);
    assert!(!app.is_running);
    assert_eq!(left, Some(EspCommand::SendCommand(s("tempActive 0"))));
    let reclaim = app.esp_1.activation_sent(&mut app.esp_log, false, Some(s("closed")));
    assert_eq!(reclaim, vec![OwnerStep::DropSender, OwnerStep::DiscardWorker]);
    assert_eq!(app.esp_1.status_message, "ESP L: Error sending STOP: closed");
    assert!(!app.esp_1.connected && !app.esp_1.has_sender && !app.esp_1.has_thread);
}

#[test]
fn baud_rate_field_takes_numbers_only() {
    let mut app = TemplateApp::new();
    app.edit_baud_rate(false, "9600");
    assert_eq!(app.esp_1.baud_rate, 9600);
    app.edit_baud_rate(false, "96oo");
    assert_eq!(app.esp_1.baud_rate, 9600);
    app.edit_baud_rate(true, "4294967295");
    assert_eq!(app.esp_2.baud_rate, 4294967295);
    app.edit_baud_rate(true, "4294967296");
    assert_eq!(app.esp_2.baud_rate, 4294967295);
    app.edit_baud_rate(true, "");
    assert_eq!(app.esp_2.baud_rate, 4294967295);
}

#[test]
fn steps_come_in_the_order_that_lets_a_join_return() {
    assert_eq!(
        ordered_steps(true, true, true, true, true),
        vec![
            OwnerStep::SendStop,
            OwnerStep::DropSender,
            OwnerStep::JoinWorker,
            OwnerStep::DiscardWorker,
            OwnerStep::DropReceiver,
        ]
    );
    assert_eq!(ordered_steps(false, false, false, false, false), nothing());
    assert_eq!(ordered_steps(false, true, true, false, false), vec![
        OwnerStep::DropSender,
        OwnerStep::JoinWorker,
    ]);
}

#[test]
fn disconnect_drops_the_sender_before_the_join() {
    let mut log = RollingLog::new();
    let mut session = DeviceSession::new("ESP L", "/dev/ttyUSB0", 115200);
    session.request_connect(&mut log);
    let steps = session.reconcile(
        &mut log,
        &vec![EspStatus::Connected, EspStatus::Disconnected(Some(s("by user")))],
    );
    let sender = steps.iter().position(|step| *step == OwnerStep::DropSender).unwrap();
    let join = steps.iter().position(|step| *step == OwnerStep::JoinWorker).unwrap();
    assert!(sender < join);
    assert_eq!(steps, everything());
}

#[test]
fn older_lines_keep_their_times() {
    let mut log = RollingLog::new();
    log.push_stamped(s("01:02:03.004"), "APP", s("first"));
    let mut session = DeviceSession::new("ESP L", "/dev/ttyUSB0", 115200);
    session.request_disconnect(&mut log);
    session.reconcile(&mut log, &vec![EspStatus::Error(s("x"))]);
    assert_eq!(log.len(), 3);
    assert_eq!(log.entry(0).unwrap().stamp, "01:02:03.004");
    assert_eq!(log.entry(0).unwrap().text, "first");
}

#[test]
fn stray_reports_after_a_disconnect_are_not_shown() {
    let mut app = TemplateApp::new();
    app.esp_1.request_connect(&mut app.esp_log);
    let queued = vec![
        EspStatus::Connected,
        EspStatus::Error(s("m")),
        EspStatus::Disconnected(Some(s("r"))),
        EspStatus::Error(s("x")),
        EspStatus::Message(s("Skin_Temp_Smoothed:1.5")),
    ];
    assert_eq!(app.reconcile(false, &queued), everything());
    assert_eq!(app.esp_1.status_message, "ESP L: r");
    assert_eq!(app.esp_1.skin_temperature, None);
    assert!(!app.esp_1.connected);
    let texts: Vec<String> =
        (0..app.esp_log.len()).map(|i| app.esp_log.entry(i).unwrap().text.clone()).collect();
    assert_eq!(texts, vec![s("Connected."), s("Error: m"), s("r")]);
}

#[test]
fn reports_after_a_new_connected_are_shown_again() {
    let mut log = RollingLog::new();
    let mut session = DeviceSession::new("ESP R", "/dev/ttyUSB1", 115200);
    session.request_connect(&mut log);
    let queued = vec![
        EspStatus::Disconnected(None),
        EspStatus::Error(s("dropped")),
        EspStatus::Connected,
        EspStatus::Error(s("shown")),
    ];
    session.reconcile(&mut log, &queued);
    assert_eq!(session.status_message, "ESP R: Error: shown");
    assert!(session.connected);
    assert_eq!(log.len(), 3);
}

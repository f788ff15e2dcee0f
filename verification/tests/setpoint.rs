use tempsense::app::TemplateApp;
use tempsense::esp_comm::EspCommand;
use tempsense::log::RollingLog;
use tempsense::osc::{route_address, Route};
use tempsense::session::DeviceSession;
use tempsense::text::{push_decimal, push_signed_decimal};

#[test]
fn override_gates_external_setpoints() {
    let mut app = TemplateApp::new();
    app.esp_1.set_manual_override(true);
    app.update_pelt_temp(0, 77);
    assert_eq!(app.esp_1.target_temperature, 0);
    app.esp_1.set_manual_override(false);
    assert_eq!(app.esp_1.target_temperature, 0);
    app.update_pelt_temp(0, 77);
    assert_eq!(app.esp_1.target_temperature, 77);
    assert_eq!(app.esp_2.target_temperature, 0);
    assert_eq!(app.esp_log.len(), 0);
}

#[test]
fn second_device_is_gated_on_its_own() {
    let mut app = TemplateApp::new();
    app.esp_1.set_manual_override(true);
    app.update_pelt_temp(1, -5);
    assert_eq!(app.esp_2.target_temperature, -5);
    assert_eq!(app.esp_1.target_temperature, 0);
    app.esp_2.set_manual_override(true);
    app.update_pelt_temp(1, 30);
    assert_eq!(app.esp_2.target_temperature, -5);
}

#[test]
fn unknown_id_goes_to_device_0_with_a_warning() {
    let mut app = TemplateApp::new();
    app.update_pelt_temp(5, 33);
    assert_eq!(app.esp_1.target_temperature, 33);
    assert_eq!(app.esp_2.target_temperature, 0);
    assert_eq!(app.esp_log.len(), 1);
    assert_eq!(app.esp_log.entry(0).unwrap().source, "APP");
    assert_eq!(app.esp_log.entry(0).unwrap().text, "Invalid peltier _id: 5. Defaulting to pelt_temp_1");
    app.update_pelt_temp(-128, -1);
    assert_eq!(app.esp_1.target_temperature, -1);
    assert_eq!(app.esp_log.entry(1).unwrap().text, "Invalid peltier _id: -128. Defaulting to pelt_temp_1");
}

#[test]
fn unknown_id_is_gated_by_the_override_of_device_0() {
    let mut app = TemplateApp::new();
    app.esp_1.set_manual_override(true);
    app.update_pelt_temp(2, 12);
    assert_eq!(app.esp_1.target_temperature, 0);
    assert_eq!(app.esp_log.len(), 1);
    assert_eq!(
        app.esp_log.entry(0).unwrap().text,
        "Invalid peltier _id: 2. Defaulting to pelt_temp_1"
    );
    app.esp_1.set_manual_override(false);
    app.update_pelt_temp(2, 12);
    assert_eq!(app.esp_1.target_temperature, 12);
    assert_eq!(app.esp_log.len(), 2);
}

#[test]
fn manual_set_works_under_override() {
    let mut app = TemplateApp::new();
    app.esp_1.set_manual_override(true);
    app.manual_pelt_1_temp_str = "25".to_string();
    app.apply_manual_temp(false);
    assert_eq!(app.esp_1.target_temperature, 25);
    assert_eq!(app.esp_log.len(), 1);
    assert_eq!(
        app.esp_log.entry(0).unwrap().text,
        "Manual override: Peltier 1 target directly set to 25\u{b0}C"
    );
    app.apply_manual_temp(false);
    assert_eq!(app.esp_log.len(), 1);
    app.manual_pelt_2_temp_str = "warm".to_string();
    app.apply_manual_temp(true);
    assert_eq!(app.esp_2.target_temperature, 0);
    assert_eq!(app.esp_log.entry(1).unwrap().source, "APP");
    assert_eq!(app.esp_log.entry(1).unwrap().text, "Invalid temperature input for Peltier 2: 'warm'");
    app.manual_pelt_2_temp_str = "-7".to_string();
    app.apply_manual_temp(true);
    assert_eq!(app.esp_2.target_temperature, -7);
    assert_eq!(
        app.esp_log.entry(2).unwrap().text,
        "Manual override: Peltier 2 target directly set to -7\u{b0}C"
    );
}

fn connected_session() -> DeviceSession {
    let mut session = DeviceSession::new("ESP L", "/dev/ttyUSB0", 115200);
    session.has_sender = true;
    session.has_receiver = true;
    session.has_thread = true;
    session.connected = true;
    session
}

#[test]
fn changed_target_is_sent_once() {
    let mut log = RollingLog::new();
    let mut session = connected_session();
    session.target_temperature = 10;
    assert_eq!(
        session.request_setpoint(&mut log),
        Some(EspCommand::SendCommand("setTemp 10".to_string()))
    );
    assert_eq!(session.previous_sent_temperature, 10);
    assert_eq!(session.request_setpoint(&mut log), None);
    session.target_temperature = -128;
    assert_eq!(
        session.request_setpoint(&mut log),
        Some(EspCommand::SendCommand("setTemp -128".to_string()))
    );
    assert_eq!(log.len(), 0);
}

#[test]
fn first_tick_sends_the_initial_target() {
    let mut log = RollingLog::new();
    let mut session = connected_session();
    assert_eq!(session.previous_sent_temperature, -127);
    assert_eq!(
        session.request_setpoint(&mut log),
        Some(EspCommand::SendCommand("setTemp 0".to_string()))
    );
}

#[test]
fn changed_target_without_connection_is_reported_not_retried() {
    let mut log = RollingLog::new();
    let mut session = DeviceSession::new("ESP R", "/dev/ttyUSB1", 115200);
    session.target_temperature = 5;
    assert_eq!(session.request_setpoint(&mut log), None);
    assert_eq!(session.status_message, "ESP R: Not connected.");
    assert_eq!(log.len(), 1);
    assert_eq!(log.entry(0).unwrap().source, "ESP R");
    assert_eq!(log.entry(0).unwrap().text, "Attempted to send command while ESP R not connected.");
    assert_eq!(session.previous_sent_temperature, 5);
    assert_eq!(session.request_setpoint(&mut log), None);
    assert_eq!(log.len(), 1);
}

#[test]
fn activation_needs_a_connection() {
    let mut log = RollingLog::new();
    let mut session = connected_session();
    assert_eq!(
        session.request_activation(&mut log, true),
        Some(EspCommand::SendCommand("tempActive 1".to_string()))
    );
    assert_eq!(
        session.request_activation(&mut log, false),
        Some(EspCommand::SendCommand("tempActive 0".to_string()))
    );
    assert_eq!(log.len(), 0);
    session.has_sender = false;
    assert_eq!(session.request_activation(&mut log, true), None);
    assert_eq!(session.status_message, "ESP L: Status unchanged.");
    session.connected = false;
    assert_eq!(session.request_activation(&mut log, true), None);
    assert_eq!(session.status_message, "ESP L: Cannot START, not connected.");
    assert_eq!(log.entry(0).unwrap().text, "Attempted START while ESP L not connected.");
    assert_eq!(session.request_activation(&mut log, false), None);
    assert_eq!(session.status_message, "ESP L: Cannot STOP, not connected.");
    assert_eq!(log.entry(1).unwrap().text, "Attempted STOP while ESP L not connected.");
}

#[test]
fn addresses_name_devices() {
    assert_eq!(route_address("/Pelt1"), Route { id: 0, matched: true });
    assert_eq!(route_address("/Pelt2"), Route { id: 1, matched: true });
    assert_eq!(route_address("/Pelt8"), Route { id: 7, matched: true });
    for other in ["/Pelt0", "/Pelt9", "/Pelt", "/Pelt10", "/pelt1", "Pelt1", "", "/Pelt\u{661}", "/Pelx1"] {
        assert_eq!(route_address(other), Route { id: 0, matched: false }, "{:?}", other);
    }
}

#[test]
fn decimal_text_agrees_with_std() {
    for n in [0u32, 1, 9, 10, 11, 99, 100, 101, 9600, 115200, 4294967295] {
        let mut out = "x".to_string();
        push_decimal(&mut out, n);
        assert_eq!(out, format!("x{}", n));
    }
    for n in i8::MIN..=i8::MAX {
        let mut out = String::new();
        push_signed_decimal(&mut out, n);
        assert_eq!(out, format!("{}", n));
    }
}

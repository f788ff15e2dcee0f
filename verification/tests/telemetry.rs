use tempsense::app::TemplateApp;
use tempsense::telemetry::{is_number, skin_temp_values};
use tempsense::text::parse_small_int;

#[test]
fn skin_temperature_is_read_from_a_line() {
    let mut app = TemplateApp::new();
    app.parse_esp_message_and_update_state(
        "ESP L",
        "Skin_Temp_Smoothed:12.12,Exterior_Temp:18.73",
    );
    let text = app.esp_1.skin_temperature.clone().unwrap();
    assert_eq!(text, "12.12");
    assert_eq!(text.parse::<f32>().unwrap(), 12.12_f32);
    assert_eq!(app.esp_2.skin_temperature, None);
    assert_eq!(app.esp_log.len(), 0);
}

#[test]
fn malformed_value_is_reported_and_keeps_the_reading() {
    let mut app = TemplateApp::new();
    app.parse_esp_message_and_update_state("ESP L", "Skin_Temp_Smoothed:12.12");
    app.parse_esp_message_and_update_state("ESP L", "Skin_Temp_Smoothed:abc");
    assert_eq!(app.esp_1.skin_temperature.as_deref(), Some("12.12"));
    assert_eq!(app.esp_log.len(), 1);
    let entry = app.esp_log.entry(0).unwrap();
    assert_eq!(entry.source, "ESP L");
    assert_eq!(entry.text, "Failed to parse Skin_Temp_Smoothed value: 'abc'");
}

#[test]
fn malformed_value_does_not_stop_the_line() {
    let mut app = TemplateApp::new();
    app.parse_esp_message_and_update_state(
        "ESP R",
        "Skin_Temp_Smoothed:oops, Skin_Temp_Smoothed : 21.5 ,Ambient:22.0",
    );
    assert_eq!(app.esp_2.skin_temperature.as_deref(), Some("21.5"));
    assert_eq!(app.esp_1.skin_temperature, None);
    assert_eq!(app.esp_log.len(), 1);
    assert_eq!(app.esp_log.entry(0).unwrap().source, "ESP R");
    assert_eq!(app.esp_log.entry(0).unwrap().text, "Failed to parse Skin_Temp_Smoothed value: 'oops'");
}

#[test]
fn unknown_device_name_stores_nothing() {
    let mut app = TemplateApp::new();
    app.parse_esp_message_and_update_state("ESP X", "Skin_Temp_Smoothed:1.0,Skin_Temp_Smoothed:?");
    assert_eq!(app.esp_1.skin_temperature, None);
    assert_eq!(app.esp_2.skin_temperature, None);
    assert_eq!(app.esp_log.len(), 1);
    assert_eq!(app.esp_log.entry(0).unwrap().source, "ESP X");
}

#[test]
fn values_are_found_by_key() {
    let none: Vec<String> = Vec::new();
    assert_eq!(skin_temp_values(""), none);
    assert_eq!(skin_temp_values("Skin_Temp_Smoothed"), none);
    assert_eq!(skin_temp_values("Exterior_Temp:18.73"), none);
    assert_eq!(skin_temp_values("skin_temp_smoothed:1"), none);
    assert_eq!(skin_temp_values("Skin_Temp_Smoothed:"), vec![String::new()]);
    assert_eq!(skin_temp_values(" Skin_Temp_Smoothed\t:  7 "), vec!["7".to_string()]);
    assert_eq!(skin_temp_values("Skin_Temp_Smoothed:1:2"), vec!["1:2".to_string()]);
    assert_eq!(
        skin_temp_values("a:b,,Skin_Temp_Smoothed:1,x,Skin_Temp_Smoothed:2,"),
        vec!["1".to_string(), "2".to_string()]
    );
    assert_eq!(
        skin_temp_values(
            "Skin_Temp_Smoothed:12.12,Exterior_Temp:18.73,Target_Temp:10.0,Heat_PID_output:0.0,Cool_PID_output:64.4,Ambient:22.0"
        ),
        vec!["12.12".to_string()]
    );
}

fn reference_values(line: &str) -> Vec<String> {
    let mut found = Vec::new();
    for part in line.split(',') {
        let mut pieces = part.splitn(2, ':');
        if let (Some(key), Some(value)) = (pieces.next(), pieces.next()) {
            if key.trim() == "Skin_Temp_Smoothed" {
                found.push(value.trim().to_string());
            }
        }
    }
    found
}

#[test]
fn values_agree_with_split_and_trim() {
    let lines = [
        "",
        ",",
        ":",
        ",:,",
        "Skin_Temp_Smoothed:1,Skin_Temp_Smoothed:2",
        "  Skin_Temp_Smoothed  :  3  ,",
        "Skin_Temp_Smoothed::4",
        "Skin_Temp_Smoothed,:5",
        "\u{a0}Skin_Temp_Smoothed\u{2003}:\u{3000}6\u{a0}",
        "x:Skin_Temp_Smoothed:7",
        "Skin_Temp_Smoothed : 8 : 9 , Skin_Temp_Smoothed",
    ];
    for line in lines {
        assert_eq!(skin_temp_values(line), reference_values(line), "{:?}", line);
    }
}

#[test]
fn numbers_agree_with_float_parsing() {
    let samples = [
        "", "0", "12.12", "-3", "+3", "+", "-", ".", "5.", ".5", "-.5", "+5.e3", "1e5", "1E5",
        "1e", "1e+", "1e-7", "1.5e+10", "e5", ".e5", "1.2.3", "1,5", "abc", "inf", "-inf", "+INF",
        "Infinity", "-iNfInItY", "infinit", "infinityy", "nan", "NaN", "-nan", "nan1", "0x10",
        "1_000", " 1", "1 ", "١٢", "1e5.5", "--1", "+-1", "00012.5000", "1e0005", "in", "na",
        "999999999999999999999999999999", "1e400", "i", "İnf",
    ];
    for sample in samples {
        assert_eq!(is_number(sample), sample.parse::<f32>().is_ok(), "{:?}", sample);
    }
}

#[test]
fn small_integers_agree_with_std() {
    for n in -300..=300 {
        let text = format!("{}", n);
        assert_eq!(parse_small_int(&text), text.parse::<i8>().ok(), "{:?}", text);
        let text = format!("+{}", n);
        assert_eq!(parse_small_int(&text), text.parse::<i8>().ok(), "{:?}", text);
        let text = format!("00{}", n);
        assert_eq!(parse_small_int(&text), text.parse::<i8>().ok(), "{:?}", text);
    }
    let samples = [
        "", "+", "-", "-0", "+0", "0000000000000000127", "0000000000000000128", "-128", "-129",
        "12a", "a12", " 12", "12 ", "1.0", "--1", "99999999999999999999", "٣", "1_0",
    ];
    for sample in samples {
        assert_eq!(parse_small_int(sample), sample.parse::<i8>().ok(), "{:?}", sample);
    }
    assert_eq!(parse_small_int("-128"), Some(-128));
    assert_eq!(parse_small_int("127"), Some(127));
    assert_eq!(parse_small_int("128"), None);
}

#[test]
fn unsigned_integers_agree_with_std() {
    let samples = [
        "", "+", "-", "0", "+0", "-0", "-1", "115200", "+115200", "0000115200", "4294967295",
        "4294967296", "42949672950", "99999999999999999999999", "00000000000000004294967295",
        "12a", " 12", "1 2", "١", "1e3", "1.0",
    ];
    for sample in samples {
        assert_eq!(
            tempsense::text::parse_unsigned(sample),
            sample.parse::<u32>().ok(),
            "{:?}",
            sample
        );
    }
}

#[test]
fn same_text_compares_by_characters() {
    assert!(tempsense::text::same_text("", ""));
    assert!(tempsense::text::same_text("ESP L", "ESP L"));
    assert!(!tempsense::text::same_text("ESP L", "ESP R"));
    assert!(!tempsense::text::same_text("ESP L", "ESP"));
    assert!(tempsense::text::same_text("\u{b0}C", "°C"));
}

#[test]
fn whitespace_agrees_with_std() {
    for code in 0u32..0x3100 {
        if let Some(c) = char::from_u32(code) {
            assert_eq!(tempsense::text::is_whitespace(c), c.is_whitespace(), "{:?}", c);
        }
    }
    assert!(!tempsense::text::is_whitespace('\u{feff}'));
    assert!(!tempsense::text::is_whitespace('\u{10ffff}'));
}

use tempsense::log::{RollingLog, LOG_CAPACITY};

#[test]
fn pushing_250_messages_keeps_the_latest_200() {
    let mut log = RollingLog::new();
    for i in 0..250 {
        log.push("APP", format!("message {}", i));
    }
    assert_eq!(log.len(), 200);
    for i in 0..200 {
        assert_eq!(log.entry(i).unwrap().text, format!("message {}", i + 50));
        assert_eq!(log.entry(i).unwrap().source, "APP");
    }
}

#[test]
fn log_grows_until_its_capacity() {
    let mut log = RollingLog::new();
    assert_eq!(log.len(), 0);
    for i in 0..LOG_CAPACITY {
        log.push_stamped("00:00:00.000".to_string(), "ESP L", format!("{}", i));
        assert_eq!(log.len(), i + 1);
    }
    assert_eq!(log.entry(0).unwrap().text, "0");
    log.push_stamped("00:00:00.001".to_string(), "ESP L", "last".to_string());
    assert_eq!(log.len(), LOG_CAPACITY);
    assert_eq!(log.entry(0).unwrap().text, "1");
    assert_eq!(log.entry(LOG_CAPACITY - 1).unwrap().text, "last");
    assert_eq!(log.entry(LOG_CAPACITY - 1).unwrap().stamp, "00:00:00.001");
}

#[test]
fn line_is_shown_with_time_and_source() {
    let mut log = RollingLog::new();
    log.push_stamped("12:34:56.789".to_string(), "ESP R", "Connected.".to_string());
    assert_eq!(log.line(0), Some("[12:34:56.789] [ESP R] Connected.".to_string()));
    assert_eq!(log.line(1), None);
}

#[test]
fn push_stamps_with_the_time_of_day() {
    let mut log = RollingLog::new();
    log.push("APP", "hello".to_string());
    let stamp = log.entry(0).unwrap().stamp.clone();
    let bytes = stamp.as_bytes();
    assert_eq!(bytes.len(), 12);
    for (index, byte) in bytes.iter().enumerate() {
        match index {
            2 | 5 => assert_eq!(*byte, b':'),
            8 => assert_eq!(*byte, b'.'),
            _ => assert!(byte.is_ascii_digit()),
        }
    }
    assert_eq!(log.line(0), Some(format!("[{}] [APP] hello", stamp)));
}

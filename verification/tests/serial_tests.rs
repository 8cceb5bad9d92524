use rustblock::serial::validate_serial_params;
use rustblock::serial::DataBits;
use rustblock::serial::HistoryLog;
use rustblock::serial::Parity;
use rustblock::serial::StopBits;
use rustblock::ConnectionHistory;
use rustblock::DeviceError;
use rustblock::LineBuffer;
use rustblock::SerialManager;

fn history(device_id: &str, timestamp: i64, success: bool) -> ConnectionHistory {
    ConnectionHistory {
        device_id: device_id.to_string(),
        port: String::new(),
        timestamp,
        success,
        error: if success { None } else { Some("failed".to_string()) },
    }
}

#[test]
fn valid_serial_params_pass_through() {
    let p = validate_serial_params(Some(9600), Some(8), Some(1), Some("none")).unwrap();
    assert_eq!(p.baud_rate, Some(9600));
    assert_eq!(p.data_bits, Some(DataBits::Eight));
    assert_eq!(p.stop_bits, Some(StopBits::One));
    assert_eq!(p.parity, Some(Parity::NoParity));

    let p = validate_serial_params(None, Some(5), Some(2), Some("even")).unwrap();
    assert_eq!(p.baud_rate, None);
    assert_eq!(p.data_bits, Some(DataBits::Five));
    assert_eq!(p.stop_bits, Some(StopBits::Two));
    assert_eq!(p.parity, Some(Parity::Even));

    let p = validate_serial_params(None, None, None, Some("odd")).unwrap();
    assert_eq!(p.parity, Some(Parity::Odd));
    assert!(p.data_bits.is_none() && p.stop_bits.is_none());
}

#[test]
fn invalid_serial_params_are_rejected_before_any_port_is_touched() {
    assert!(matches!(
        validate_serial_params(None, Some(9), None, None),
        Err(DeviceError::Unsupported(_))
    ));
    assert!(matches!(
        validate_serial_params(None, None, Some(3), None),
        Err(DeviceError::Unsupported(_))
    ));
    assert!(matches!(
        validate_serial_params(None, None, None, Some("mark")),
        Err(DeviceError::Unsupported(_))
    ));
}

#[test]
fn line_buffer_accumulates_until_a_terminator() {
    let mut buf = LineBuffer::new();
    assert!(!buf.push_byte(b'\n'), "leading terminators are swallowed");
    assert!(!buf.push_byte(b'\r'));
    assert!(!buf.push_byte(b'o'));
    assert!(!buf.push_byte(b'k'));
    assert!(buf.push_byte(b'\n'), "a terminator after content completes the line");
    assert_eq!(buf.take_bytes(), b"ok".to_vec());
}

#[test]
fn port_registry_refuses_a_second_open() {
    let mut manager = SerialManager::new();
    manager.connect("/dev/ttyUSB0", 9600).unwrap();
    assert!(manager.is_connected("/dev/ttyUSB0"));
    match manager.connect("/dev/ttyUSB0", 115200) {
        Err(DeviceError::AlreadyExists(m)) => {
            assert_eq!(m, "port already connected: /dev/ttyUSB0")
        },
        other => panic!("expected AlreadyExists, got {:?}", other),
    }
    manager.connect("/dev/ttyUSB1", 115200).unwrap();
    assert_eq!(manager.connected_ports(), vec!["/dev/ttyUSB0", "/dev/ttyUSB1"]);

    manager.disconnect("/dev/ttyUSB0").unwrap();
    assert!(!manager.is_connected("/dev/ttyUSB0"));
    assert!(matches!(
        manager.disconnect("/dev/ttyUSB0"),
        Err(DeviceError::NotFound(_))
    ));
}

#[test]
fn history_keeps_the_most_recent_hundred() {
    let mut log = HistoryLog::new();
    for i in 0..105i64 {
        log.record_connection_history(history("dev", i, true));
    }
    assert_eq!(log.entries.len(), 100);
    assert_eq!(log.entries[0].timestamp, 5, "the oldest entries are dropped");
    assert_eq!(log.entries[99].timestamp, 104);
}

#[test]
fn history_filters_by_device_id() {
    let mut log = HistoryLog::new();
    log.record_connection_history(history("a", 1, true));
    log.record_connection_history(history("b", 2, false));
    log.record_connection_history(history("a", 3, false));
    let all = log.get_connection_history(None);
    assert_eq!(all.len(), 3);
    let only_a = log.get_connection_history(Some("a"));
    assert_eq!(only_a.len(), 2);
    assert!(only_a.iter().all(|h| h.device_id == "a"));
    assert_eq!(only_a[1].error.as_deref(), Some("failed"));
}

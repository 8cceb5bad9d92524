use rustblock::detector::scan_from_ports;
use rustblock::detector::InstallAction;
use rustblock::driver::ProbeOutput;
use rustblock::plan_upload;
use rustblock::DeviceError;
use rustblock::DeviceDetector;
use rustblock::DeviceInfo;
use rustblock::DeviceType;
use rustblock::PortKind;
use rustblock::PortRecord;
use rustblock::UploadFamily;
use rustblock::UploadOptions;

fn usb_port(name: &str, vid: u16, pid: u16) -> PortRecord {
    PortRecord {
        port_name: name.to_string(),
        kind: PortKind::Usb,
        vendor_id: Some(vid),
        product_id: Some(pid),
        serial_number: None,
        manufacturer: Some("Test Vendor".to_string()),
        description: Some("Test Board".to_string()),
    }
}

fn bare_port(name: &str) -> PortRecord {
    PortRecord {
        port_name: name.to_string(),
        kind: PortKind::Unknown,
        vendor_id: None,
        product_id: None,
        serial_number: None,
        manufacturer: None,
        description: None,
    }
}

fn detector_with(devices: Vec<DeviceInfo>) -> DeviceDetector {
    let mut detector = DeviceDetector::new();
    detector.devices = devices;
    detector
}

#[test]
fn classification_table_is_exact() {
    let table = [
        (0x2341u16, 0x0043u16, DeviceType::Arduino),
        (0x2341, 0x0001, DeviceType::Arduino),
        (0x1a86, 0x7523, DeviceType::Arduino),
        (0x0d28, 0x0204, DeviceType::MicroBit),
        (0x10c4, 0xea60, DeviceType::ESP32),
        (0x303a, 0x1001, DeviceType::ESP32),
        (0x2e8a, 0x0005, DeviceType::RaspberryPiPico),
        (0x2e8a, 0x000a, DeviceType::RaspberryPiPico),
    ];
    for (vid, pid, expected) in table {
        assert_eq!(DeviceInfo::detect_device_type(Some(vid), Some(pid)), expected);
    }
}

#[test]
fn pairs_absent_from_table_classify_as_unknown() {
    assert_eq!(DeviceInfo::detect_device_type(Some(0x1234), Some(0x5678)), DeviceType::Unknown);
    assert_eq!(DeviceInfo::detect_device_type(Some(0x2341), Some(0x9999)), DeviceType::Unknown);
    assert_eq!(DeviceInfo::detect_device_type(None, Some(0x0043)), DeviceType::Unknown);
    assert_eq!(DeviceInfo::detect_device_type(Some(0x2341), None), DeviceType::Unknown);
    assert_eq!(DeviceInfo::detect_device_type(None, None), DeviceType::Unknown);
}

#[test]
fn scan_deduplicates_ports_sharing_one_usb_identity() {
    let ports = vec![
        usb_port("/dev/ttyUSB0", 0x1a86, 0x7523),
        usb_port("/dev/ttyUSB1", 0x1a86, 0x7523),
    ];
    let devices = scan_from_ports(&ports, 7);
    assert_eq!(devices.len(), 1);
    assert_eq!(devices[0].port, "/dev/ttyUSB0");
}

#[test]
fn scan_keeps_distinct_hardware_identities() {
    let ports = vec![
        usb_port("/dev/ttyUSB0", 0x1a86, 0x7523),
        usb_port("/dev/ttyUSB1", 0x0d28, 0x0204),
        bare_port("/dev/ttyS0"),
    ];
    let devices = scan_from_ports(&ports, 7);
    assert_eq!(devices.len(), 3);
}

#[test]
fn scan_drops_noise_ports() {
    let ports = vec![
        bare_port("/dev/cu.debug-console"),
        bare_port("/dev/cu.Bluetooth-Incoming-Port"),
        bare_port("/dev/cu.AMS-bridge"),
        bare_port("/dev/cu.AirPods-Wireless"),
        usb_port("/dev/ttyACM0", 0x2341, 0x0043),
    ];
    let devices = scan_from_ports(&ports, 7);
    assert_eq!(devices.len(), 1);
    assert_eq!(devices[0].port, "/dev/ttyACM0");
}

#[test]
fn scan_prefers_call_up_node_over_teletype_sibling() {
    let ports = vec![
        bare_port("/dev/tty.usbserial-10"),
        bare_port("/dev/cu.usbserial-10"),
    ];
    let devices = scan_from_ports(&ports, 7);
    assert_eq!(devices.len(), 1);
    assert_eq!(devices[0].port, "/dev/cu.usbserial-10");
}

#[test]
fn scan_classifies_and_fills_identity_fields() {
    let ports = vec![usb_port("/dev/ttyUSB7", 0x10c4, 0xea60)];
    let devices = scan_from_ports(&ports, 42);
    assert_eq!(devices.len(), 1);
    let d = &devices[0];
    assert_eq!(d.device_type, DeviceType::ESP32);
    assert_eq!(d.id, "/dev/ttyUSB7_42");
    assert_eq!(d.name, "ESP32 on /dev/ttyUSB7");
    assert_eq!(d.vendor_id, Some(0x10c4));
    assert_eq!(d.product_id, Some(0xea60));
    assert_eq!(d.manufacturer.as_deref(), Some("Test Vendor"));
    assert_eq!(d.description.as_deref(), Some("Test Board"));
    assert!(!d.connected);
}

#[test]
fn ch340_clone_scenario_classifies_arduino_with_its_defaults() {
    let ports = vec![usb_port("/dev/ttyUSB0", 0x1a86, 0x7523)];
    let detector = detector_with(scan_from_ports(&ports, 1));
    let id = detector.devices[0].id.clone();
    assert_eq!(detector.devices[0].device_type, DeviceType::Arduino);
    assert_eq!(detector.get_baud_rate(&id), 9600);
    assert_eq!(detector.get_recommended_language(&id), Some("arduino"));
}

#[test]
fn microbit_scenario_rejects_arduino_language() {
    let ports = vec![usb_port("/dev/ttyACM1", 0x0d28, 0x0204)];
    let detector = detector_with(scan_from_ports(&ports, 1));
    let id = detector.devices[0].id.clone();
    assert_eq!(detector.devices[0].device_type, DeviceType::MicroBit);
    assert_eq!(detector.get_baud_rate(&id), 115200);
    assert_eq!(detector.get_recommended_language(&id), Some("micropython"));
    assert!(!detector.supports_language(&id, "arduino"));
    assert!(detector.supports_language(&id, "micropython"));
}

#[test]
fn language_matrix_per_type() {
    let ports = vec![
        usb_port("/dev/a", 0x2341, 0x0043),
        usb_port("/dev/b", 0x10c4, 0xea60),
        usb_port("/dev/c", 0x0d28, 0x0204),
        usb_port("/dev/d", 0x2e8a, 0x0005),
        bare_port("/dev/e"),
    ];
    let detector = detector_with(scan_from_ports(&ports, 1));
    let ids: Vec<String> = detector.devices.iter().map(|d| d.id.clone()).collect();
    assert_eq!(detector.get_supported_languages(&ids[0]), vec!["arduino"]);
    assert_eq!(detector.get_supported_languages(&ids[1]), vec!["arduino", "micropython"]);
    assert_eq!(detector.get_supported_languages(&ids[2]), vec!["micropython"]);
    assert_eq!(detector.get_supported_languages(&ids[3]), vec!["micropython", "arduino"]);
    assert_eq!(detector.get_supported_languages(&ids[4]), vec!["arduino"]);
    assert_eq!(detector.get_baud_rate("no-such-device"), 9600);
    assert_eq!(detector.get_recommended_language("no-such-device"), None);
    assert!(detector.get_supported_languages("no-such-device").is_empty());
}

#[test]
fn unknown_device_queries_fall_back() {
    let detector = detector_with(Vec::new());
    assert!(detector.get_device("missing").is_none());
    assert!(!detector.is_device_ready("missing"));
    assert!(detector.get_device_status("missing").is_none());
}

#[test]
fn enumeration_wrapper_answers_without_panicking() {
    let mut detector = DeviceDetector::new();
    let _ = detector.scan_devices();
    let _ = rustblock::serial::list_serial_ports();
}

#[test]
fn upload_dispatch_checks_device_language_and_readiness() {
    let ports = vec![
        usb_port("/dev/ttyUSB0", 0x1a86, 0x7523),
        usb_port("/dev/ttyACM0", 0x0d28, 0x0204),
    ];
    let mut detector = detector_with(scan_from_ports(&ports, 1));
    let arduino_id = detector.devices[0].id.clone();
    let microbit_id = detector.devices[1].id.clone();

    let request = |id: &str, language: &str| UploadOptions {
        device_id: id.to_string(),
        code: "code".to_string(),
        language: language.to_string(),
        board_type: "arduino".to_string(),
    };

    assert!(matches!(
        plan_upload(&detector, &request("missing", "arduino")),
        Err(DeviceError::NotFound(_))
    ));
    assert!(matches!(
        plan_upload(&detector, &request(&microbit_id, "arduino")),
        Err(DeviceError::Unsupported(_))
    ));
    assert!(matches!(
        plan_upload(&detector, &request(&arduino_id, "arduino")),
        Err(DeviceError::NotReady(_)),
    ));

    let probes = vec![ProbeOutput::LinuxModuleListing("ch341 1 0".to_string())];
    let _ = detector.driver_manager.scan_installed_drivers(&probes);
    assert!(detector.is_device_ready(&arduino_id));
    assert_eq!(
        plan_upload(&detector, &request(&arduino_id, "arduino")).unwrap(),
        UploadFamily::Compiled
    );
}

#[test]
fn install_actions_follow_ids_then_device_type() {
    let ports = vec![
        usb_port("/dev/ttyUSB0", 0x1a86, 0x7523),
        bare_port("/dev/ttyS0"),
    ];
    let detector = detector_with(scan_from_ports(&ports, 1));
    let with_ids = detector.devices[0].id.clone();
    let bare = detector.devices[1].id.clone();

    match detector.install_device_driver(&with_ids).unwrap() {
        InstallAction::RunInstaller(key) => assert_eq!(key, "ch340"),
        other => panic!("expected RunInstaller, got {:?}", other),
    }
    match detector.install_device_driver(&bare).unwrap() {
        InstallAction::ManualGuidance(m) => assert!(m.contains("unknown device type")),
        other => panic!("expected ManualGuidance, got {:?}", other),
    }
    assert!(detector.install_device_driver("missing").is_err());
}

#[test]
fn device_status_composes_identity_driver_and_languages() {
    let ports = vec![usb_port("/dev/ttyUSB0", 0x1a86, 0x7523)];
    let detector = detector_with(scan_from_ports(&ports, 1));
    let id = detector.devices[0].id.clone();
    let status = detector.get_device_status(&id).unwrap();
    assert_eq!(status.device_info.id, id);
    assert!(!status.ready);
    let driver_status = status.driver_status.unwrap();
    assert!(!driver_status.installed);
    assert_eq!(driver_status.driver_info.unwrap().name, "CH340/CH341 USB Serial Driver");
    assert_eq!(status.recommended_language.as_deref(), Some("arduino"));
    assert_eq!(status.supported_languages, vec!["arduino"]);
    let info = detector.get_device_driver_info(&id).unwrap();
    assert!(!info.0);
    assert!(info.1.is_some());
}

#[test]
fn generated_ids_render_the_stamp_in_decimal() {
    let zero = DeviceInfo::new_at("/dev/x".to_string(), None, None, 0);
    assert_eq!(zero.id, "/dev/x_0");
    let big = DeviceInfo::new_at("/dev/x".to_string(), None, None, 1_700_000_001);
    assert_eq!(big.id, "/dev/x_1700000001");
}

#[test]
fn rescanning_the_same_ports_yields_the_same_catalog() {
    let ports = vec![
        usb_port("/dev/ttyUSB0", 0x1a86, 0x7523),
        usb_port("/dev/ttyUSB1", 0x1a86, 0x7523),
        bare_port("/dev/ttyS0"),
    ];
    let first = scan_from_ports(&ports, 9);
    let second = scan_from_ports(&ports, 9);
    assert_eq!(first.len(), second.len());
    for (a, b) in first.iter().zip(second.iter()) {
        assert_eq!(a.id, b.id);
        assert_eq!(a.name, b.name);
        assert_eq!(a.port, b.port);
        assert_eq!(a.device_type, b.device_type);
    }
}

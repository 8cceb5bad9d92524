use rustblock::uploader::after_compile;
use rustblock::uploader::after_platformio;
use rustblock::uploader::after_push;
use rustblock::uploader::after_upload;
use rustblock::ArduinoToolchain;
use rustblock::DeviceError;
use rustblock::DeviceType;
use rustblock::DeviceUploader;
use rustblock::PushTool;
use rustblock::ToolAvailability;
use rustblock::UploadOptions;

fn options(language: &str, board_type: &str) -> UploadOptions {
    UploadOptions {
        device_id: "/dev/ttyUSB0".to_string(),
        code: "void setup() {}\nvoid loop() {}\n".to_string(),
        language: language.to_string(),
        board_type: board_type.to_string(),
    }
}

fn no_tools() -> ToolAvailability {
    ToolAvailability {
        arduino_cli: false,
        platformio: false,
        mpremote: false,
        ampy: false,
        rshell: false,
        esptool: false,
    }
}

#[test]
fn board_table_holds_the_documented_definitions() {
    let uploader = DeviceUploader::new();
    let arduino = uploader.get_board_configs(&DeviceType::Arduino);
    assert_eq!(arduino.len(), 3);
    assert_eq!(arduino[0].name, "Arduino Uno");
    assert_eq!(arduino[0].fqbn, "arduino:avr:uno");
    assert_eq!(arduino[0].upload_protocol, "arduino");
    assert_eq!(arduino[0].upload_speed, 115200);
    let esp32 = uploader.get_board_configs(&DeviceType::ESP32);
    assert_eq!(esp32.len(), 2);
    assert_eq!(esp32[0].fqbn, "esp32:esp32:esp32");
    assert_eq!(esp32[0].upload_speed, 921600);
    assert_eq!(
        esp32[0].extra_flags,
        vec!["--before=default_reset".to_string(), "--after=hard_reset".to_string()]
    );
    assert_eq!(uploader.get_board_configs(&DeviceType::MicroBit).len(), 1);
    assert_eq!(uploader.get_board_configs(&DeviceType::RaspberryPiPico).len(), 1);
    assert!(uploader.get_board_configs(&DeviceType::Unknown).is_empty());
}

#[test]
fn default_board_is_the_first_of_the_list() {
    let uploader = DeviceUploader::new();
    let board = uploader.get_default_board_config(&DeviceType::Arduino).unwrap();
    assert_eq!(board.name, "Arduino Uno");
    assert!(uploader.get_default_board_config(&DeviceType::Unknown).is_err());
}

#[test]
fn board_strings_parse_case_insensitively() {
    let uploader = DeviceUploader::new();
    assert_eq!(uploader.parse_device_type("Arduino Uno").unwrap(), DeviceType::Arduino);
    assert_eq!(uploader.parse_device_type("ESP32-S2").unwrap(), DeviceType::ESP32);
    assert_eq!(uploader.parse_device_type("BBC micro:bit").unwrap(), DeviceType::MicroBit);
    assert_eq!(uploader.parse_device_type("microbit").unwrap(), DeviceType::MicroBit);
    assert_eq!(uploader.parse_device_type("raspberry pico").unwrap(), DeviceType::RaspberryPiPico);
    assert!(uploader.parse_device_type("toaster").is_err());
}

#[test]
fn absent_primary_toolchain_falls_back_to_the_build_system() {
    let uploader = DeviceUploader::new();
    let plan = uploader.upload_arduino_code(&options("arduino", "esp32"), false).unwrap();
    assert_eq!(plan.toolchain, ArduinoToolchain::PlatformIo);
    assert_eq!(plan.board.fqbn, "esp32:esp32:esp32");

    let plan = uploader.upload_arduino_code(&options("arduino", "esp32"), true).unwrap();
    assert_eq!(plan.toolchain, ArduinoToolchain::ArduinoCli);
}

#[test]
fn missing_push_tools_name_all_three() {
    let uploader = DeviceUploader::new();
    let err = uploader.upload_micropython_code(&options("micropython", "microbit"), &no_tools());
    match err {
        Err(DeviceError::ToolMissing(m)) => {
            assert_eq!(m, "MicroPython upload tool not found (mpremote, ampy, rshell)");
            assert!(m.contains("mpremote") && m.contains("ampy") && m.contains("rshell"));
        },
        other => panic!("expected ToolMissing, got {:?}", other),
    }
}

#[test]
fn push_tools_are_tried_in_priority_order() {
    let uploader = DeviceUploader::new();
    let opts = options("micropython", "microbit");
    let mut tools = no_tools();
    tools.rshell = true;
    assert_eq!(uploader.upload_micropython_code(&opts, &tools).unwrap().tool, PushTool::Rshell);
    tools.ampy = true;
    assert_eq!(uploader.upload_micropython_code(&opts, &tools).unwrap().tool, PushTool::Ampy);
    tools.mpremote = true;
    assert_eq!(uploader.upload_micropython_code(&opts, &tools).unwrap().tool, PushTool::Mpremote);
}

#[test]
fn compile_failure_short_circuits_with_the_compiler_text() {
    assert!(after_compile(true, "").is_ok());
    match after_compile(false, "sketch.ino:1: error: expected ';'") {
        Err(DeviceError::CompileFailed(m)) => {
            assert_eq!(m, "Arduino compile failed: sketch.ino:1: error: expected ';'");
        },
        other => panic!("expected CompileFailed, got {:?}", other),
    }
}

#[test]
fn upload_outcomes_carry_port_and_stderr() {
    assert_eq!(
        after_upload(true, "", "/dev/ttyUSB0").unwrap(),
        "Arduino code uploaded to port /dev/ttyUSB0"
    );
    match after_upload(false, "avrdude: sync error", "/dev/ttyUSB0") {
        Err(DeviceError::UploadFailed(m)) => {
            assert_eq!(m, "Arduino upload failed: avrdude: sync error")
        },
        other => panic!("expected UploadFailed, got {:?}", other),
    }
    assert_eq!(
        after_platformio(true, "", "/dev/ttyUSB1").unwrap(),
        "code uploaded through PlatformIO to port /dev/ttyUSB1"
    );
    assert_eq!(
        after_push(PushTool::Ampy, true, "", "/dev/ttyACM0").unwrap(),
        "MicroPython code uploaded through ampy to port /dev/ttyACM0"
    );
    match after_push(PushTool::Rshell, false, "timeout", "/dev/ttyACM0") {
        Err(DeviceError::UploadFailed(m)) => assert_eq!(m, "rshell upload failed: timeout"),
        other => panic!("expected UploadFailed, got {:?}", other),
    }
}

#[test]
fn build_system_descriptor_is_generated_from_the_board() {
    let uploader = DeviceUploader::new();
    let board = uploader.get_default_board_config(&DeviceType::ESP32).unwrap();
    let ini = uploader.generate_platformio_ini(&board, "/dev/ttyUSB0");
    assert_eq!(
        ini,
        "[env:default]\nplatform = espressif32\nboard = esp32dev\nupload_port = /dev/ttyUSB0\nupload_speed = 921600\nmonitor_speed = 9600\n"
    );
    assert_eq!(uploader.get_platform_for_board("arduino:avr:nano"), "atmelavr");
    assert_eq!(uploader.get_platform_for_board("rp2040:rp2040:rpipico"), "raspberrypi");
    assert_eq!(uploader.get_platform_for_board("microbit"), "arduino");
    assert_eq!(uploader.get_board_for_fqbn("arduino:avr:nano"), "nanoatmega328");
    assert_eq!(uploader.get_board_for_fqbn("rp2040:rp2040:rpipico"), "pico");
    assert_eq!(uploader.get_board_for_fqbn("mystery"), "uno");
}

#[test]
fn upload_plan_rejects_unknown_board_strings() {
    let uploader = DeviceUploader::new();
    match uploader.upload_arduino_code(&options("arduino", "toaster"), true) {
        Err(DeviceError::Unsupported(m)) => {
            assert_eq!(m, "unsupported device type: toaster")
        },
        other => panic!("expected Unsupported, got {:?}", other),
    }
}

#[test]
fn tool_report_lists_the_six_tools() {
    let mut tools = no_tools();
    tools.mpremote = true;
    tools.esptool = true;
    let report = rustblock::uploader::check_tools(&tools);
    assert_eq!(report.len(), 6);
    let as_pairs: Vec<(&str, bool)> =
        report.iter().map(|(n, b)| (n.as_str(), *b)).collect();
    assert_eq!(
        as_pairs,
        vec![
            ("arduino-cli", false),
            ("platformio", false),
            ("mpremote", true),
            ("ampy", false),
            ("rshell", false),
            ("esptool", true),
        ]
    );
}

use rustblock::driver::InstallProbe;
use rustblock::driver::OsKind;
use rustblock::driver::ProbeOutput;
use rustblock::format_file_size;
use rustblock::tools::compile_code;
use rustblock::tools::compile_outcome;
use rustblock::tools::describe_tool;
use rustblock::tools::fqbn_for_device_type;
use rustblock::tools::upload_outcome;
use rustblock::tools::CompilePlan;
use rustblock::CacheItem;
use rustblock::DeviceError;
use rustblock::DriverManager;
use rustblock::LRUCache;

fn no_probe() -> InstallProbe {
    InstallProbe { trigger_ok: false, installed_after_rescan: false, tool_present: false }
}

#[test]
fn driver_catalog_lookup_is_exact_pair_matching() {
    let manager = DriverManager::new();
    assert_eq!(manager.get_all_drivers().len(), 5);
    let ch340 = manager.get_required_driver(0x1a86, 0x7523).unwrap();
    assert_eq!(ch340.name, "CH340/CH341 USB Serial Driver");
    assert!(!ch340.installed);
    assert!(manager.get_required_driver(0x1a86, 0x9999).is_none());
    assert!(manager.get_required_driver(0x9999, 0x7523).is_none());
    let (installed, info) = manager.check_device_driver(0x0d28, 0x0204);
    assert!(!installed);
    assert_eq!(info.unwrap().name, "micro:bit USB Driver");
    assert!(manager.get_installed_drivers().is_empty());
}

#[test]
fn probes_mark_drivers_by_known_substrings() {
    let mut manager = DriverManager::new();
    let outputs = vec![
        ProbeOutput::LinuxModuleListing("usbcore 16384 0\nch341 20480 0\n".to_string()),
        ProbeOutput::LinuxUsbListing("Bus 001 Device 004: ID 2341:0043 Arduino SA Uno".to_string()),
    ];
    let installed = manager.scan_installed_drivers(&outputs);
    let names: Vec<String> = installed.into_iter().map(|d| d.name).collect();
    assert_eq!(names, vec!["CH340/CH341 USB Serial Driver", "Arduino USB Driver"]);
}

#[test]
fn a_probe_that_sees_nothing_marks_nothing() {
    let mut manager = DriverManager::new();
    let outputs = vec![ProbeOutput::WindowsDeviceListing("USB Root Hub".to_string())];
    assert!(manager.scan_installed_drivers(&outputs).is_empty());
}

#[test]
fn windows_listing_matches_are_case_sensitive() {
    let mut manager = DriverManager::new();
    let outputs = vec![ProbeOutput::WindowsDeviceListing("ch340 lowercase".to_string())];
    assert!(manager.scan_installed_drivers(&outputs).is_empty());
    let outputs = vec![ProbeOutput::WindowsDeviceListing("USB-SERIAL CH340 (COM3)".to_string())];
    assert_eq!(manager.scan_installed_drivers(&outputs).len(), 1);
}

#[test]
fn install_driver_reports_and_marks_confirmed_attempts() {
    let mut manager = DriverManager::new();
    assert!(matches!(
        manager.install_driver("nonexistent", OsKind::Linux, &no_probe()),
        Err(DeviceError::NotFound(_))
    ));

    let mut probe = no_probe();
    probe.tool_present = true;
    let msg = manager.install_driver("ch340", OsKind::Linux, &probe).unwrap();
    assert_eq!(msg, "CH340 driver loaded");
    assert_eq!(manager.get_installed_drivers().len(), 1);

    let again = manager.install_driver("ch340", OsKind::Linux, &no_probe()).unwrap();
    assert_eq!(again, "driver already installed: CH340/CH341 USB Serial Driver");

    let advice = manager.install_driver("cp210x", OsKind::MacOs, &no_probe()).unwrap();
    assert_eq!(
        advice,
        "macOS recognizes most USB devices automatically; install the matching driver if needed"
    );
    assert_eq!(manager.get_installed_drivers().len(), 1, "unconfirmed attempts mark nothing");
}

#[test]
fn tool_probe_summaries() {
    let t = describe_tool(Some("arduino-cli 0.35.3".to_string()), Some("/usr/bin/arduino-cli".to_string()));
    assert!(t.installed);
    assert_eq!(t.version.as_deref(), Some("arduino-cli 0.35.3"));
    let t = describe_tool(None, None);
    assert!(!t.installed);
}

#[test]
fn compile_requests_dispatch_by_language() {
    match compile_code("print(1)", "micropython", "MicroBit").unwrap() {
        CompilePlan::Ready(c) => {
            assert!(c.success);
            assert_eq!(c.binary_size, Some(8));
            assert!(c.error.is_none());
        },
        other => panic!("expected Ready, got {:?}", other),
    }
    match compile_code("void loop(){}", "arduino", "ESP32").unwrap() {
        CompilePlan::RunArduinoCli(fqbn) => assert_eq!(fqbn, "esp32:esp32:esp32"),
        other => panic!("expected RunArduinoCli, got {:?}", other),
    }
    assert!(matches!(
        compile_code("x", "basic", "Arduino"),
        Err(DeviceError::Unsupported(_))
    ));
    assert_eq!(fqbn_for_device_type("MicroBit"), "sandeepmistry:nRF5:BBCmicrobit");
    assert_eq!(fqbn_for_device_type("anything else"), "arduino:avr:uno");
}

#[test]
fn subprocess_outcomes_are_interpreted_exactly() {
    let ok = compile_outcome(true, "", Some("/tmp/sketch.hex".to_string()), Some(9000)).unwrap();
    assert!(ok.success);
    assert_eq!(ok.firmware_path.as_deref(), Some("/tmp/sketch.hex"));
    assert_eq!(ok.binary_size, Some(9000));
    assert!(matches!(
        compile_outcome(false, "boom", None, None),
        Err(DeviceError::CompileFailed(m)) if m == "boom"
    ));
    let u = upload_outcome(false, "sync failed");
    assert!(!u.success);
    assert_eq!(u.error.as_deref(), Some("sync failed"));
    assert!(upload_outcome(true, "").error.is_none());
}

#[test]
fn cache_items_track_access_and_expiry() {
    let mut item = CacheItem::new("value", 1_000);
    assert_eq!(item.access_count, 1);
    assert!(!item.is_expired(500, 1_400));
    assert!(item.is_expired(500, 1_501));
    let v = item.access(2_000);
    assert_eq!(*v, "value");
    assert_eq!(item.access_count, 2);
    assert_eq!(item.last_accessed, 2_000);
    assert!(!item.should_evict(100, 2_050));
    assert!(item.should_evict(100, 2_101));
}

#[test]
fn cache_get_put_and_expiry() {
    let mut cache: LRUCache<i32> = LRUCache::new(10, 1_000, 10_000);
    assert_eq!(cache.size(), 0);
    cache.put("a".to_string(), 1, 0);
    cache.put("b".to_string(), 2, 0);
    assert_eq!(cache.size(), 2);
    assert_eq!(cache.get("a", 500), Some(&1));
    assert_eq!(cache.get("missing", 500), None);
    assert_eq!(cache.get("b", 2_000), None, "an expired entry reads as absent");
    assert_eq!(cache.size(), 1, "and is dropped on the way");
    cache.put("a".to_string(), 9, 600);
    assert_eq!(cache.get("a", 700), Some(&9), "put overwrites by key");
    cache.remove("a");
    assert_eq!(cache.size(), 0);
}

#[test]
fn cache_evicts_the_least_recently_used_when_full() {
    let mut cache: LRUCache<&str> = LRUCache::new(2, 1_000_000, 1_000_000);
    cache.put("old".to_string(), "x", 100);
    cache.put("fresh".to_string(), "y", 200);
    let _ = cache.get("old", 300);
    cache.put("new".to_string(), "z", 400);
    assert_eq!(cache.size(), 2);
    assert!(cache.get("fresh", 500).is_none(), "the least recently touched entry left");
    assert!(cache.get("old", 500).is_some());
    assert!(cache.get("new", 500).is_some());
}

#[test]
fn cache_cleanup_sweeps_expired_and_idle_entries() {
    let mut cache: LRUCache<i32> = LRUCache::new(10, 1_000, 2_000);
    cache.put("expired".to_string(), 1, 0);
    cache.put("idle".to_string(), 2, 4_000);
    cache.put("live".to_string(), 3, 6_500);
    cache.cleanup_expired(7_000);
    assert_eq!(cache.size(), 1);
    assert!(cache.get("live", 7_000).is_some());
    cache.clear();
    assert_eq!(cache.size(), 0);
}

#[test]
fn file_sizes_format_with_one_decimal() {
    assert_eq!(format_file_size(0), "0.0 B");
    assert_eq!(format_file_size(512), "512.0 B");
    assert_eq!(format_file_size(1023), "1023.0 B");
    assert_eq!(format_file_size(1024), "1.0 KB");
    assert_eq!(format_file_size(1536), "1.5 KB");
    assert_eq!(format_file_size(10 * 1024 * 1024), "10.0 MB");
    assert_eq!(format_file_size(3 * 1024 * 1024 * 1024), "3.0 GB");
    assert_eq!(format_file_size(1250), "1.2 KB");
    assert_eq!(format_file_size(1280), "1.2 KB", "a half rounds to the even tenth");
    assert_eq!(format_file_size(1792), "1.8 KB", "a half rounds to the even tenth");
    assert_eq!(format_file_size(1331), "1.3 KB");
}

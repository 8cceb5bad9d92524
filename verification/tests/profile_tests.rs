use rustblock::profile::ConnectionManager;
use rustblock::DeviceProfile;
use rustblock::DeviceType;
use rustblock::SettingValue;

#[test]
fn test_profile_management() {
    let mut manager = ConnectionManager::new();

    let profile = DeviceProfile::new("Arduino测试".to_string(), DeviceType::Arduino);
    let profile_id = manager.create_profile(profile).unwrap();

    let retrieved = manager.get_profile(&profile_id).unwrap();
    assert_eq!(retrieved.name, "Arduino测试");

    let updates = vec![("baud_rate".to_string(), SettingValue::UInt(115200))];
    manager.update_profile(&profile_id, &updates).unwrap();

    let updated = manager.get_profile(&profile_id).unwrap();
    assert_eq!(updated.baud_rate, 115200);

    manager.delete_profile(&profile_id).unwrap();
    assert!(manager.get_profile(&profile_id).is_err());
}

#[test]
fn test_device_association() {
    let mut manager = ConnectionManager::new();

    let profile = DeviceProfile::new("ESP32配置".to_string(), DeviceType::ESP32);
    let profile_id = manager.create_profile(profile).unwrap();

    let device_id = "test_device_123";
    manager.associate_device_profile(device_id, &profile_id).unwrap();

    let device_profile = manager.get_device_profile(device_id).unwrap();
    assert_eq!(device_profile.name, "ESP32配置");
}

#[test]
fn new_profile_carries_type_defaults_and_generated_id() {
    let p = DeviceProfile::new("board".to_string(), DeviceType::MicroBit);
    assert_eq!(p.id.len(), 36);
    assert_eq!(p.preferred_language, "micropython");
    assert_eq!(p.baud_rate, 115200);
    assert!(p.auto_reconnect);
    assert_eq!(p.reconnect_interval_ms, 5000);
    assert!(p.custom_settings.is_empty());
    assert_eq!(p.created_at, p.last_modified);

    let q = DeviceProfile::new("uno".to_string(), DeviceType::Arduino);
    assert_eq!(q.preferred_language, "arduino");
    assert_eq!(q.baud_rate, 9600);
    assert_ne!(p.id, q.id);
}

#[test]
fn unknown_update_keys_land_in_custom_settings() {
    let mut manager = ConnectionManager::new();
    let profile = DeviceProfile::new("custom".to_string(), DeviceType::Arduino);
    let id = manager.create_profile(profile).unwrap();
    let updates = vec![
        ("name".to_string(), SettingValue::Str("renamed".to_string())),
        ("theme".to_string(), SettingValue::Str("dark".to_string())),
        ("auto_reconnect".to_string(), SettingValue::Bool(false)),
        ("baud_rate".to_string(), SettingValue::Str("not a number".to_string())),
        ("theme".to_string(), SettingValue::Str("light".to_string())),
    ];
    manager.update_profile(&id, &updates).unwrap();
    let p = manager.get_profile(&id).unwrap();
    assert_eq!(p.name, "renamed");
    assert!(!p.auto_reconnect);
    assert_eq!(p.baud_rate, 9600, "a wrongly typed value leaves the field unchanged");
    assert_eq!(p.custom_settings.len(), 1);
    assert_eq!(p.custom_settings[0].0, "theme");
    assert!(matches!(&p.custom_settings[0].1, SettingValue::Str(s) if s == "light"));
}

#[test]
fn updating_a_missing_profile_is_not_found() {
    let mut manager = ConnectionManager::new();
    let updates = vec![("name".to_string(), SettingValue::Str("x".to_string()))];
    assert!(manager.update_profile("absent", &updates).is_err());
}

#[test]
fn deleting_a_profile_clears_every_association_to_it() {
    let mut manager = ConnectionManager::new();
    let keep = manager
        .create_profile(DeviceProfile::new("keep".to_string(), DeviceType::Arduino))
        .unwrap();
    let gone = manager
        .create_profile(DeviceProfile::new("gone".to_string(), DeviceType::ESP32))
        .unwrap();
    manager.associate_device_profile("dev-1", &gone).unwrap();
    manager.associate_device_profile("dev-2", &keep).unwrap();
    manager.associate_device_profile("dev-3", &gone).unwrap();

    manager.delete_profile(&gone).unwrap();

    assert!(manager.get_profile(&gone).is_err(), "a deleted id reads as not found");
    assert!(manager.get_device_profile("dev-1").is_none());
    assert!(manager.get_device_profile("dev-3").is_none());
    let still = manager.get_device_profile("dev-2").unwrap();
    assert_eq!(still.name, "keep");
}

#[test]
fn associating_with_a_missing_profile_fails() {
    let mut manager = ConnectionManager::new();
    assert!(manager.associate_device_profile("dev", "no-such-profile").is_err());
}

#[test]
fn reassociation_overwrites_the_prior_mapping() {
    let mut manager = ConnectionManager::new();
    let a = manager
        .create_profile(DeviceProfile::new("a".to_string(), DeviceType::Arduino))
        .unwrap();
    let b = manager
        .create_profile(DeviceProfile::new("b".to_string(), DeviceType::ESP32))
        .unwrap();
    manager.associate_device_profile("dev", &a).unwrap();
    manager.associate_device_profile("dev", &b).unwrap();
    assert_eq!(manager.get_device_profile("dev").unwrap().name, "b");
    assert_eq!(manager.device_profiles.len(), 1);
}

#[test]
fn starting_auto_reconnect_twice_leaves_one_loop() {
    let mut manager = ConnectionManager::new();
    let pid = manager
        .create_profile(DeviceProfile::new("auto".to_string(), DeviceType::Arduino))
        .unwrap();
    manager.associate_device_profile("dev-9", &pid).unwrap();

    let first = manager.start_auto_reconnect("dev-9").unwrap();
    assert_eq!(first, Some(5000));
    let second = manager.start_auto_reconnect("dev-9").unwrap();
    assert_eq!(second, Some(5000));

    let active: Vec<&String> =
        manager.reconnect_active.iter().filter(|d| d.as_str() == "dev-9").collect();
    assert_eq!(active.len(), 1, "exactly one active loop per device id");

    manager.stop_auto_reconnect("dev-9").unwrap();
    assert!(manager.reconnect_active.is_empty());
    manager.stop_auto_reconnect("dev-9").unwrap();
}

#[test]
fn auto_reconnect_respects_profile_flag_and_association() {
    let mut manager = ConnectionManager::new();
    assert!(manager.start_auto_reconnect("unassociated").is_err());

    let pid = manager
        .create_profile(DeviceProfile::new("manual".to_string(), DeviceType::Arduino))
        .unwrap();
    let updates = vec![("auto_reconnect".to_string(), SettingValue::Bool(false))];
    manager.update_profile(&pid, &updates).unwrap();
    manager.associate_device_profile("dev-off", &pid).unwrap();
    assert_eq!(manager.start_auto_reconnect("dev-off").unwrap(), None);
    assert!(manager.reconnect_active.is_empty());
}

#[test]
fn reconnect_steps_track_attempts_and_success() {
    let mut manager = ConnectionManager::new();
    manager.update_connection_status_at("dev", false, None, 1_000);
    assert!(manager.should_attempt_reconnect("dev"));

    manager.reconnect_step_at("dev", false, 2_000);
    manager.reconnect_step_at("dev", false, 3_000);
    let st = manager.get_connection_status("dev").unwrap();
    assert!(!st.connected);
    assert_eq!(st.connection_attempts, 2);
    assert_eq!(st.last_error.as_deref(), Some("reconnect failed"));
    assert_eq!(st.last_seen, 1_000, "a failed attempt does not refresh last seen");

    manager.reconnect_step_at("dev", true, 4_000);
    let st = manager.get_connection_status("dev").unwrap();
    assert!(st.connected);
    assert_eq!(st.connection_attempts, 0);
    assert!(st.last_error.is_none());
    assert_eq!(st.last_seen, 4_000);
    assert!(!manager.should_attempt_reconnect("dev"));
}

#[test]
fn status_upsert_is_lazy_and_stamps_last_seen() {
    let mut manager = ConnectionManager::new();
    assert!(manager.get_connection_status("dev").is_none());
    manager.update_connection_status_at("dev", true, None, 10);
    let st = manager.get_connection_status("dev").unwrap();
    assert!(st.connected);
    assert_eq!(st.last_seen, 10);
    assert_eq!(st.connection_attempts, 0);
    assert!(st.last_error.is_none());

    manager.update_connection_status_at("dev", false, Some("unplugged".to_string()), 20);
    let st = manager.get_connection_status("dev").unwrap();
    assert!(!st.connected);
    assert_eq!(st.last_seen, 20);
    assert_eq!(st.last_error.as_deref(), Some("unplugged"));
}

#[test]
fn cleanup_drops_only_old_disconnected_statuses() {
    let mut manager = ConnectionManager::new();
    manager.update_connection_status_at("old-disconnected", false, None, 100);
    manager.update_connection_status_at("old-connected", true, None, 100);
    manager.update_connection_status_at("fresh-disconnected", false, None, 5_000);

    manager.cleanup_disconnected_at(1_000);

    assert!(manager.get_connection_status("old-disconnected").is_none());
    let kept = manager.get_connection_status("old-connected").unwrap();
    assert!(kept.connected, "a connected status is never removed, however old");
    assert!(manager.get_connection_status("fresh-disconnected").is_some());
}

#[test]
fn batch_connect_isolates_the_failing_device() {
    let mut manager = ConnectionManager::new();
    let ids = vec!["a".to_string(), "bad".to_string(), "c".to_string()];
    let results = manager.batch_connect(ids, |id: &str| {
        if id == "bad" {
            Err("no such device".to_string())
        } else {
            Ok(())
        }
    });
    assert_eq!(results.len(), 3);
    let failures: Vec<&str> = results
        .iter()
        .filter(|(_, r)| r.is_err())
        .map(|(id, _)| id.as_str())
        .collect();
    assert_eq!(failures, vec!["bad"]);
    assert!(manager.get_connection_status("a").unwrap().connected);
    let bad = manager.get_connection_status("bad").unwrap();
    assert!(!bad.connected);
    assert_eq!(bad.last_error.as_deref(), Some("no such device"));
    assert!(manager.get_connection_status("c").unwrap().connected);
}

#[test]
fn batch_disconnect_stops_loops_and_records_statuses() {
    let mut manager = ConnectionManager::new();
    let pid = manager
        .create_profile(DeviceProfile::new("auto".to_string(), DeviceType::Arduino))
        .unwrap();
    manager.associate_device_profile("a", &pid).unwrap();
    manager.start_auto_reconnect("a").unwrap();

    let ids = vec!["a".to_string(), "b".to_string()];
    let results = manager.batch_disconnect(ids, |_: &str| Ok(()));
    assert_eq!(results.len(), 2);
    assert!(results.iter().all(|(_, r)| r.is_ok()));
    assert!(manager.reconnect_active.is_empty());
    assert!(!manager.get_connection_status("a").unwrap().connected);
    assert!(!manager.get_connection_status("b").unwrap().connected);
}

#[test]
fn batch_apply_profile_reports_per_device() {
    let mut manager = ConnectionManager::new();
    let pid = manager
        .create_profile(DeviceProfile::new("shared".to_string(), DeviceType::Arduino))
        .unwrap();
    let ids = vec!["x".to_string(), "y".to_string()];
    let results = manager.batch_apply_profile(ids, &pid);
    assert_eq!(results.len(), 2);
    assert!(results.iter().all(|(_, r)| r.is_ok()));
    assert_eq!(manager.get_device_profile("x").unwrap().name, "shared");
    assert_eq!(manager.get_device_profile("y").unwrap().name, "shared");

    let missing = manager.batch_apply_profile(vec!["z".to_string()], "absent");
    assert_eq!(missing.len(), 1);
    assert!(missing[0].1.is_err());
}

#[test]
fn import_merges_by_id_and_keeps_others() {
    let mut manager = ConnectionManager::new();
    let existing = DeviceProfile::new("existing".to_string(), DeviceType::Arduino);
    let existing_id = manager.create_profile(existing).unwrap();

    let mut overwriting = DeviceProfile::new("overwritten".to_string(), DeviceType::ESP32);
    overwriting.id = existing_id.clone();
    let fresh = DeviceProfile::new("fresh".to_string(), DeviceType::MicroBit);
    let fresh_id = fresh.id.clone();

    let count = manager.import_profiles(vec![overwriting, fresh]);
    assert_eq!(count, 2);
    assert_eq!(manager.get_profile(&existing_id).unwrap().name, "overwritten");
    assert_eq!(manager.get_profile(&fresh_id).unwrap().name, "fresh");
    assert_eq!(manager.list_profiles().len(), 2);
}

#[test]
fn list_profiles_returns_the_whole_table() {
    let mut manager = ConnectionManager::new();
    assert!(manager.list_profiles().is_empty());
    manager
        .create_profile(DeviceProfile::new("one".to_string(), DeviceType::Arduino))
        .unwrap();
    manager
        .create_profile(DeviceProfile::new("two".to_string(), DeviceType::ESP32))
        .unwrap();
    let names: Vec<String> = manager.list_profiles().into_iter().map(|p| p.name).collect();
    assert_eq!(names, vec!["one", "two"]);
}

#[test]
fn update_profile_at_stamps_the_given_instant() {
    let mut manager = ConnectionManager::new();
    let id = manager
        .create_profile(DeviceProfile::new("stamped".to_string(), DeviceType::Arduino))
        .unwrap();
    let updates = vec![("name".to_string(), SettingValue::Str("renamed".to_string()))];
    manager.update_profile_at(&id, &updates, 777).unwrap();
    let p = manager.get_profile(&id).unwrap();
    assert_eq!(p.name, "renamed");
    assert_eq!(p.last_modified, 777);
}

#[test]
fn cleanup_accepts_any_hour_count() {
    let mut manager = ConnectionManager::new();
    manager.update_connection_status_at("dev", false, None, 100);
    manager.cleanup_disconnected_devices(i64::MAX);
    assert!(manager.get_connection_status("dev").is_some(), "an absurd cutoff removes nothing");
    manager.cleanup_disconnected_devices(0);
    assert!(manager.get_connection_status("dev").is_none());
}

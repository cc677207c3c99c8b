use cosmic_monitor_positiond::monitor::{
    all_monitors_found, check_monitors_present, needs_initial_save, presence_verdict,
    MonitorConfig, MonitorState, OutputHead, StateFileError,
};

fn monitor(name: &str, x: i32, y: i32) -> MonitorConfig {
    MonitorConfig { name: name.to_string(), position: (x, y) }
}

fn head(name: &str, enabled: bool, x: i32, y: i32) -> OutputHead {
    OutputHead { name: name.to_string(), enabled, position_x: x, position_y: y }
}

#[test]
fn load_reads_tables_in_order() {
    let text = "[DP-1]\nx = 0\ny = 0\n\n[HDMI-A-1]\nx = 2560\ny = -120\n";
    let state = MonitorState::from_state_file(text).unwrap();
    assert_eq!(state.monitors, vec![monitor("DP-1", 0, 0), monitor("HDMI-A-1", 2560, -120)]);
}

#[test]
fn load_skips_entries_that_are_not_monitors() {
    let text = "version = 3\n[eDP-1]\nx = 10\n[DP-2]\nx = 1\ny = \"top\"\n[DP-3]\nx = 5\ny = 6\nscale = 2\n";
    let state = MonitorState::from_state_file(text).unwrap();
    assert_eq!(state.monitors, vec![monitor("DP-3", 5, 6)]);
}

#[test]
fn load_skips_inline_tables() {
    let text = "DP-1 = { x = 1, y = 2 }\n[DP-2]\nx = 3\ny = 4\n";
    let state = MonitorState::from_state_file(text).unwrap();
    assert_eq!(state.monitors, vec![monitor("DP-2", 3, 4)]);
}

#[test]
fn load_keeps_low_bits_of_large_integers() {
    let text = "[DP-1]\nx = 4294967297\ny = -4294967296\n";
    let state = MonitorState::from_state_file(text).unwrap();
    assert_eq!(state.monitors, vec![monitor("DP-1", 1, 0)]);
}

#[test]
fn load_of_empty_file_has_no_monitors() {
    let state = MonitorState::from_state_file("").unwrap();
    assert!(state.monitors.is_empty());
}

#[test]
fn load_rejects_invalid_toml() {
    match MonitorState::from_state_file("[DP-1\nx = 1") {
        Err(StateFileError::InvalidToml(msg)) => assert!(!msg.is_empty()),
        Ok(_) => panic!("invalid TOML was accepted"),
    }
}

#[test]
fn save_new_file_then_load() {
    let state = MonitorState { monitors: vec![monitor("DP-1", 0, 0), monitor("HDMI-A-1", 1920, -40)] };
    let text = state.state_file_text(None).unwrap();
    let loaded = MonitorState::from_state_file(&text).unwrap();
    assert_eq!(loaded, state);
}

#[test]
fn save_new_file_text() {
    let state = MonitorState { monitors: vec![monitor("DP-1", 0, 10)] };
    assert_eq!(state.state_file_text(None).unwrap(), "[DP-1]\nx = 0\ny = 10\n");
}

#[test]
fn save_keeps_other_entries_and_replaces_same_name() {
    let existing = "[DP-1]\nx = 5\ny = 5\n\n# the projector\n[HDMI-A-1]\nx = 7\ny = 8\n";
    let state = MonitorState { monitors: vec![monitor("DP-1", 100, 200), monitor("DP-2", -3, 4)] };
    let text = state.state_file_text(Some(existing)).unwrap();
    assert!(text.contains("# the projector\n[HDMI-A-1]"), "{}", text);
    let loaded = MonitorState::from_state_file(&text).unwrap();
    assert_eq!(
        loaded.monitors,
        vec![monitor("DP-1", 100, 200), monitor("HDMI-A-1", 7, 8), monitor("DP-2", -3, 4)]
    );
}

#[test]
fn save_rejects_invalid_existing_file() {
    let state = MonitorState { monitors: vec![monitor("DP-1", 1, 1)] };
    assert!(matches!(state.state_file_text(Some("x = = 1")), Err(StateFileError::InvalidToml(_))));
}

#[test]
fn save_with_extreme_positions_round_trips() {
    let state = MonitorState { monitors: vec![monitor("A", i32::MIN, i32::MAX)] };
    let text = state.state_file_text(None).unwrap();
    assert_eq!(MonitorState::from_state_file(&text).unwrap(), state);
}

#[test]
fn toml_table_round_trip() {
    let m = monitor("DP-1", -1280, 300);
    let table = m.to_toml_table();
    assert_eq!(table.get("x").and_then(|i| i.as_integer()), Some(-1280));
    assert_eq!(table.get("y").and_then(|i| i.as_integer()), Some(300));
    let back = MonitorConfig::from_toml_table("DP-1".to_string(), &table).unwrap();
    assert_eq!(back, m);
}

#[test]
fn from_toml_table_needs_both_coordinates() {
    let mut table = toml_edit::Table::new();
    table.insert("x", toml_edit::value(3));
    assert_eq!(MonitorConfig::from_toml_table("DP-1".to_string(), &table), None);
    table.insert("y", toml_edit::value("left"));
    assert_eq!(MonitorConfig::from_toml_table("DP-1".to_string(), &table), None);
    table.insert("y", toml_edit::value(9));
    assert_eq!(MonitorConfig::from_toml_table("DP-1".to_string(), &table), Some(monitor("DP-1", 3, 9)));
}

#[test]
fn merge_into_document() {
    let mut doc: toml_edit::DocumentMut = "[DP-1]\nx = 1\ny = 1\n".parse().unwrap();
    let state = MonitorState { monitors: vec![monitor("DP-1", 2, 3)] };
    state.merge_into(&mut doc);
    assert_eq!(doc["DP-1"]["x"].as_integer(), Some(2));
    assert_eq!(doc["DP-1"]["y"].as_integer(), Some(3));
    assert_eq!(MonitorState::from_document(&doc), state);
}

#[test]
fn current_layout_takes_enabled_outputs() {
    let heads = vec![head("DP-1", true, 0, 0), head("DP-2", false, 99, 99), head("HDMI-A-1", true, 2560, 0)];
    let state = MonitorState::from_heads(&heads);
    assert_eq!(state.monitors, vec![monitor("DP-1", 0, 0), monitor("HDMI-A-1", 2560, 0)]);
}

#[test]
fn current_layout_of_no_enabled_outputs_is_refused() {
    let heads = vec![head("DP-2", false, 0, 0)];
    let state = MonitorState::from_heads(&heads);
    assert_eq!(state.require_enabled_monitors(), Err("No enabled monitors found".to_string()));
    let heads = vec![head("DP-1", true, 0, 0)];
    assert_eq!(MonitorState::from_heads(&heads).require_enabled_monitors(), Ok(()));
}

#[test]
fn presence_needs_enabled_output_of_same_name() {
    let heads = vec![head("DP-1", true, 0, 0), head("DP-2", false, 0, 0)];
    let expected = vec![monitor("DP-1", 5, 5), monitor("DP-2", 0, 0), monitor("DP-3", 0, 0)];
    let found = check_monitors_present(&heads, &expected);
    assert_eq!(
        found,
        vec![("DP-1".to_string(), true), ("DP-2".to_string(), false), ("DP-3".to_string(), false)]
    );
    assert!(!all_monitors_found(&found));
    assert_eq!(presence_verdict(&found), Err("Not all monitors detected".to_string()));
}

#[test]
fn saved_current_layout_is_present() {
    let heads = vec![head("DP-1", true, 0, 0), head("DP-2", false, 0, 0), head("eDP-1", true, 1, 1)];
    let state = MonitorState::from_heads(&heads);
    let found = check_monitors_present(&heads, &state.monitors);
    assert!(all_monitors_found(&found));
    assert_eq!(presence_verdict(&found), Ok(()));
}

#[test]
fn nothing_to_find_is_all_found() {
    assert!(all_monitors_found(&[]));
}

#[test]
fn applying_needs_a_configured_monitor() {
    let empty = MonitorState { monitors: vec![] };
    assert_eq!(empty.require_configured(), Err("No monitors configured".to_string()));
    let one = MonitorState { monitors: vec![monitor("DP-1", 0, 0)] };
    assert_eq!(one.require_configured(), Ok(()));
}

#[test]
fn initial_save_when_state_missing_or_empty() {
    assert!(needs_initial_save(None));
    assert!(needs_initial_save(Some(&MonitorState { monitors: vec![] })));
    assert!(!needs_initial_save(Some(&MonitorState { monitors: vec![monitor("DP-1", 0, 0)] })));
}

#[test]
fn duplicate_copies_name_and_position() {
    let m = monitor("DP-1", 4, -4);
    assert_eq!(m.duplicate(), m);
}

#[test]
fn save_twice_is_save_once() {
    let existing = "[DP-1]\nx = 5\ny = 5\n\n[HDMI-A-1]\nx = 7\ny = 8\n";
    let state = MonitorState { monitors: vec![monitor("DP-2", 1, 2), monitor("DP-1", 3, 4)] };
    let once = state.state_file_text(Some(existing)).unwrap();
    let twice = state.state_file_text(Some(&once)).unwrap();
    assert_eq!(once, twice);
    assert_eq!(MonitorState::from_state_file(&once), MonitorState::from_state_file(&twice));
}

#[test]
fn save_with_repeated_name_keeps_last() {
    let state = MonitorState { monitors: vec![monitor("DP-1", 1, 1), monitor("DP-2", 2, 2), monitor("DP-1", 9, 9)] };
    let text = state.state_file_text(None).unwrap();
    let loaded = MonitorState::from_state_file(&text).unwrap();
    assert_eq!(loaded.monitors, vec![monitor("DP-1", 9, 9), monitor("DP-2", 2, 2)]);
}

#[test]
fn fresh_save_reads_back_exactly() {
    let state = MonitorState { monitors: vec![monitor("HDMI-A-1", 0, 0), monitor("DP-1", 1920, 0), monitor("eDP-1", -1280, 200)] };
    let text = state.state_file_text(None).unwrap();
    assert_eq!(MonitorState::from_state_file(&text).unwrap(), state);
}

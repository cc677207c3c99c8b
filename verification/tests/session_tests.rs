use cosmic_monitor_positiond::session::{
    config_path_for_home, configuration_outcome, is_manager_done, session_response, RandrMessage,
    SessionEvent, SessionResponse, IDLE_TIMEOUT_MS,
};

#[test]
fn config_path_under_home() {
    assert_eq!(
        config_path_for_home("/home/alice"),
        "/home/alice/.config/cosmic-monitor-positiond/state.toml"
    );
}

#[test]
fn config_path_home_with_trailing_slash() {
    assert_eq!(
        config_path_for_home("/home/alice/"),
        "/home/alice/.config/cosmic-monitor-positiond/state.toml"
    );
}

#[test]
fn config_path_matches_pathbuf_join() {
    for home in ["/home/bob", "/", "relative/dir", "", "/home/jörg"] {
        let expected = std::path::PathBuf::from(home)
            .join(".config")
            .join("cosmic-monitor-positiond")
            .join("state.toml");
        assert_eq!(config_path_for_home(home), expected.to_str().unwrap());
    }
}

#[test]
fn manager_done_ends_the_wait() {
    assert!(is_manager_done(RandrMessage::ManagerDone));
    assert!(!is_manager_done(RandrMessage::ConfigurationSucceeded));
    assert!(!is_manager_done(RandrMessage::Other));
}

#[test]
fn configuration_messages() {
    assert_eq!(configuration_outcome(RandrMessage::ConfigurationSucceeded), Some(Ok(())));
    assert_eq!(
        configuration_outcome(RandrMessage::ConfigurationFailed),
        Some(Err("configuration failed".to_string()))
    );
    assert_eq!(
        configuration_outcome(RandrMessage::ConfigurationCancelled),
        Some(Err("configuration cancelled".to_string()))
    );
    assert_eq!(configuration_outcome(RandrMessage::ManagerDone), None);
    assert_eq!(configuration_outcome(RandrMessage::Other), None);
}

#[test]
fn resume_and_hotplug_request_reposition() {
    assert_eq!(session_response(SessionEvent::Idled), SessionResponse::Nothing);
    assert_eq!(session_response(SessionEvent::Resumed), SessionResponse::RequestReposition);
    assert_eq!(session_response(SessionEvent::Hotplug), SessionResponse::RequestReposition);
}

#[test]
fn idle_timeout_is_five_minutes() {
    assert_eq!(IDLE_TIMEOUT_MS, 300_000);
}

use tomoon::error::{ClashError, ClashErrorKind, DownloadStatus};
use tomoon::persistence::{
    health_check, parse_settings, persistence_step, render_settings, settings_path, Settings, State,
};
use tomoon::supervisor::Clash;

fn s(x: &str) -> String {
    x.to_string()
}

#[test]
fn health_check_recovers_unclean_shutdown() {
    let mut settings = Settings { enable: true };
    let reset = health_check(&mut settings, false);
    assert!(reset);
    assert!(!settings.enable);
}

#[test]
fn health_check_leaves_running_core_alone() {
    let mut settings = Settings { enable: true };
    let reset = health_check(&mut settings, true);
    assert!(!reset);
    assert!(settings.enable);
}

#[test]
fn health_check_leaves_disabled_settings_alone() {
    let mut settings = Settings { enable: false };
    assert!(!health_check(&mut settings, false));
    assert!(!settings.enable);
    assert!(!health_check(&mut settings, true));
    assert!(!settings.enable);
}

#[test]
fn persistence_step_writes_once_per_dirty_transition() {
    let mut state = State { home: s("/home/deck"), dirty: true };
    let settings = Settings { enable: true };
    let w = persistence_step(&mut state, &settings).unwrap();
    assert_eq!(w.path, s("/home/deck/.config/tomoon/tomoon.json"));
    assert_eq!(w.content, s("{\"enable\":true}"));
    assert!(!state.dirty);
    // Clean state: no write at all.
    assert!(persistence_step(&mut state, &settings).is_none());
    assert!(persistence_step(&mut state, &settings).is_none());
    // Marked dirty again: exactly one more write.
    state.dirty = true;
    assert!(persistence_step(&mut state, &settings).is_some());
    assert!(persistence_step(&mut state, &settings).is_none());
}

#[test]
fn settings_path_is_under_home() {
    assert_eq!(settings_path("/home/deck"), s("/home/deck/.config/tomoon/tomoon.json"));
    assert_eq!(settings_path(""), s("/.config/tomoon/tomoon.json"));
}

#[test]
fn settings_round_trip() {
    for enable in [true, false] {
        let rendered = render_settings(&Settings { enable });
        let parsed = parse_settings(rendered.as_str()).unwrap();
        assert_eq!(parsed.enable, enable);
    }
    assert!(parse_settings("").is_none());
    assert!(parse_settings("{\"enable\":maybe}").is_none());
}

#[test]
fn stop_without_handle_is_a_noop() {
    let mut clash = Clash::new(s("/app/bin/core/clash"), s("/app/bin/core/config.yaml"));
    let plan = clash.stop();
    assert!(!plan.terminate);
    assert_eq!(clash.path, s("/app/bin/core/clash"));
    assert_eq!(clash.config, s("/app/bin/core/config.yaml"));
    assert!(!clash.active);
}

#[test]
fn stop_after_spawn_terminates() {
    let mut clash = Clash::new(s("/app/bin/core/clash"), s("/app/bin/core/config.yaml"));
    assert!(clash.can_start());
    clash.on_spawn(true, s("")).unwrap();
    assert!(clash.active);
    assert!(!clash.can_start());
    let plan = clash.stop();
    assert!(plan.terminate);
    assert!(!clash.active);
    assert!(clash.can_start());
}

#[test]
fn failed_spawn_reports_launch_failure() {
    let mut clash = Clash::new(s("/app/bin/core/clash"), s("/app/bin/core/config.yaml"));
    let err = clash.on_spawn(false, s("No such file or directory")).err().unwrap();
    assert!(matches!(err.kind, ClashErrorKind::CoreNotFound));
    assert_eq!(err.message, s("No such file or directory"));
    assert!(!clash.active);
}

#[test]
fn failed_network_apply_reports_network_error() {
    let mut clash = Clash::new(s("/c"), s("/y"));
    clash.on_spawn(true, s("")).unwrap();
    let err = clash.on_network_apply(false, s("resolv.conf is busy")).err().unwrap();
    assert!(matches!(err.kind, ClashErrorKind::NetworkError));
    assert_eq!(err.message, s("resolv.conf is busy"));
    // The process stays active: the caller decides what to do about it.
    assert!(clash.active);
    assert!(clash.on_network_apply(true, s("")).is_ok());
}

#[test]
fn transform_failure_is_wrapped_as_format_error() {
    let err = Clash::on_transform_failure(s("bad document"));
    assert!(matches!(err.kind, ClashErrorKind::ConfigFormatError));
    assert_eq!(err.message, s("bad document"));
}

#[test]
fn second_start_is_rejected() {
    let mut clash = Clash::new(s("/c"), s("/y"));
    clash.on_spawn(true, s("")).unwrap();
    assert!(!clash.can_start());
    let err = Clash::already_running_error();
    assert!(matches!(err.kind, ClashErrorKind::Default));
}

#[test]
fn update_config_path_replaces_target() {
    let mut clash = Clash::new(s("/c"), s("/old.yaml"));
    clash.update_config_path("/new.yaml");
    assert_eq!(clash.config, s("/new.yaml"));
    assert_eq!(clash.path, s("/c"));
}

#[test]
fn error_construction_and_description() {
    let e = ClashError::new();
    assert!(matches!(e.kind, ClashErrorKind::Default));
    assert_eq!(e.message, s(""));
    let e = ClashError::of(ClashErrorKind::ConfigNotFound, s("missing"));
    assert!(matches!(e.kind, ClashErrorKind::ConfigNotFound));
    assert_eq!(e.describe(), s("ConfigNotFound: missing"));
}

#[test]
fn download_status_labels() {
    assert_eq!(DownloadStatus::Downloading.label(), s("Downloading"));
    assert_eq!(DownloadStatus::Failed.label(), s("Failed"));
    assert_eq!(DownloadStatus::Success.label(), s("Success"));
    assert_eq!(DownloadStatus::Error.label(), s("Error"));
    assert_eq!(DownloadStatus::Idle.label(), s("None"));
}

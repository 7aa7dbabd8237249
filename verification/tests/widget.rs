use zjstatus::config::ModeInfo;
use zjstatus::widgets::widget::should_hide_when_nested;

#[test]
fn test_not_nested_never_hides() {
    assert!(!should_hide_when_nested(false, &ModeInfo::default()));
    assert!(!should_hide_when_nested(true, &ModeInfo::default()));
}

#[test]
fn test_nested_show_true_never_hides() {
    let mode = ModeInfo {
        session_ascended: Some(true),
        ..ModeInfo::default()
    };

    assert!(!should_hide_when_nested(true, &mode));
}

#[test]
fn test_nested_show_false_hides_when_ascended() {
    let mode = ModeInfo {
        session_ascended: Some(true),
        ..ModeInfo::default()
    };

    assert!(should_hide_when_nested(false, &mode));
}

#[test]
fn test_nested_show_false_hides_when_dimmed() {
    let mode = ModeInfo {
        session_dimmed: Some(true),
        ..ModeInfo::default()
    };

    assert!(should_hide_when_nested(false, &mode));
}

#[test]
fn test_nested_show_false_hides_when_ancestry_present() {
    let mode = ModeInfo {
        session_ancestry: vec!["host-session".to_owned()],
        ..ModeInfo::default()
    };

    assert!(should_hide_when_nested(false, &mode));
}

#[test]
fn test_host_fullscreen_overrides_hiding() {
    let mode = ModeInfo {
        session_dimmed: Some(true),
        host_fullscreen: Some(true),
        ..ModeInfo::default()
    };

    assert!(!should_hide_when_nested(false, &mode));
}

#[test]
fn flags_set_to_false_do_not_count_as_nested() {
    let mode = ModeInfo {
        session_ascended: Some(false),
        session_dimmed: Some(false),
        host_fullscreen: Some(false),
        ..ModeInfo::default()
    };

    assert!(!should_hide_when_nested(false, &mode));
}

#[test]
fn host_fullscreen_false_does_not_override_hiding() {
    let mode = ModeInfo {
        session_ascended: Some(true),
        host_fullscreen: Some(false),
        ..ModeInfo::default()
    };

    assert!(should_hide_when_nested(false, &mode));
}

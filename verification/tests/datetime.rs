use std::collections::BTreeMap;

use zjstatus::config::{ModeInfo, ZellijState};
use zjstatus::widgets::datetime::{DateTimeWidget, Instant};

#[test]
fn datetime_test_hidden_when_nested_and_nested_show_false() {
    let config = BTreeMap::from([
        ("datetime".to_owned(), "{time}".to_owned()),
        ("datetime_nested_show".to_owned(), "false".to_owned()),
    ]);
    let widget = DateTimeWidget::new(&config);

    let state = ZellijState {
        mode: ModeInfo {
            session_dimmed: Some(true),
            ..ModeInfo::default()
        },
        ..ZellijState::default()
    };

    assert_eq!(widget.process("datetime", &state).unwrap(), "");
}

#[test]
fn datetime_test_shown_by_default_when_nested() {
    let config = BTreeMap::from([("datetime".to_owned(), "{time}".to_owned())]);
    let widget = DateTimeWidget::new(&config);

    let state = ZellijState {
        mode: ModeInfo {
            session_dimmed: Some(true),
            ..ModeInfo::default()
        },
        ..ZellijState::default()
    };

    assert_ne!(widget.process("datetime", &state).unwrap(), "");
}

#[test]
fn datetime_test_shown_when_host_fullscreen_despite_nested_show_false() {
    let config = BTreeMap::from([
        ("datetime".to_owned(), "{time}".to_owned()),
        ("datetime_nested_show".to_owned(), "false".to_owned()),
    ]);
    let widget = DateTimeWidget::new(&config);

    let state = ZellijState {
        mode: ModeInfo {
            session_dimmed: Some(true),
            host_fullscreen: Some(true),
            ..ModeInfo::default()
        },
        ..ZellijState::default()
    };

    assert_ne!(widget.process("datetime", &state).unwrap(), "");
}

const EPOCH: Instant = Instant { secs: 0, nanos: 0 };

#[test]
fn datetime_defaults_at_epoch_in_utc() {
    let config = BTreeMap::from([(
        "datetime".to_owned(),
        "{date} {time} {format}".to_owned(),
    )]);
    let widget = DateTimeWidget::new(&config);

    assert_eq!(
        widget.render_at(&ZellijState::default(), &EPOCH).unwrap(),
        "1970-01-01 00:00 00:00"
    );
}

#[test]
fn datetime_configured_time_zone_is_used() {
    let config = BTreeMap::from([
        ("datetime".to_owned(), "{time}".to_owned()),
        ("datetime_timezone".to_owned(), "Asia/Tokyo".to_owned()),
    ]);
    let widget = DateTimeWidget::new(&config);

    assert_eq!(widget.render_at(&ZellijState::default(), &EPOCH).unwrap(), "09:00");
}

#[test]
fn datetime_unknown_time_zone_falls_back_to_utc() {
    let config = BTreeMap::from([
        ("datetime".to_owned(), "{time}".to_owned()),
        ("datetime_timezone".to_owned(), "Nowhere/Atlantis".to_owned()),
    ]);
    let widget = DateTimeWidget::new(&config);

    assert_eq!(widget.render_at(&ZellijState::default(), &EPOCH).unwrap(), "00:00");
}

#[test]
fn datetime_custom_formats_and_styling() {
    let config = BTreeMap::from([
        ("datetime".to_owned(), "#[fg=2]{format}".to_owned()),
        ("datetime_format".to_owned(), "%Y/%m/%d %H:%M:%S".to_owned()),
    ]);
    let widget = DateTimeWidget::new(&config);

    let at = Instant { secs: 86_400 + 3_661, nanos: 0 };
    assert_eq!(
        widget.render_at(&ZellijState::default(), &at).unwrap(),
        "\u{1b}[38;5;2m1970/01/02 01:01:01\u{1b}[0m"
    );
}

#[test]
fn datetime_invalid_format_is_reported_only_when_used() {
    let used = BTreeMap::from([
        ("datetime".to_owned(), "{time}".to_owned()),
        ("datetime_time_format".to_owned(), "%Q".to_owned()),
    ]);
    assert_eq!(DateTimeWidget::new(&used).render_at(&ZellijState::default(), &EPOCH), None);

    let unused = BTreeMap::from([
        ("datetime".to_owned(), "{date}".to_owned()),
        ("datetime_time_format".to_owned(), "%Q".to_owned()),
    ]);
    assert_eq!(
        DateTimeWidget::new(&unused)
            .render_at(&ZellijState::default(), &EPOCH)
            .unwrap(),
        "1970-01-01"
    );
}

#[test]
fn datetime_unconfigured_is_empty() {
    let widget = DateTimeWidget::new(&BTreeMap::new());

    assert_eq!(widget.process("datetime", &ZellijState::default()).unwrap(), "");
}

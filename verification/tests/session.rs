use std::collections::BTreeMap;

use zjstatus::config::{ModeInfo, ZellijState};
use zjstatus::widgets::session::SessionWidget;
use zjstatus::widgets::widget::{ClickAction, Widget};

fn nested_state() -> ZellijState {
    ZellijState {
        mode: ModeInfo {
            session_name: Some("my-session".to_owned()),
            session_dimmed: Some(true),
            ..ModeInfo::default()
        },
        ..ZellijState::default()
    }
}

#[test]
fn session_test_hidden_when_nested_and_nested_show_false() {
    let config = BTreeMap::from([("session_nested_show".to_owned(), "false".to_owned())]);
    let widget = SessionWidget::new(&config);

    assert_eq!(widget.process("session", &nested_state()), "");
}

#[test]
fn session_test_shown_by_default_when_nested() {
    let widget = SessionWidget::new(&BTreeMap::new());

    assert_eq!(widget.process("session", &nested_state()), "my-session");
}

#[test]
fn session_without_name_is_empty() {
    let widget = SessionWidget::new(&BTreeMap::new());

    assert_eq!(widget.process("session", &ZellijState::default()), "");
}

#[test]
fn session_nested_show_other_than_true_counts_as_off() {
    let config = BTreeMap::from([("session_nested_show".to_owned(), "yes".to_owned())]);
    let widget = SessionWidget::new(&config);

    assert_eq!(widget.process("session", &nested_state()), "");
}

#[test]
fn session_click_does_nothing() {
    let widget = SessionWidget::new(&BTreeMap::new());

    assert_eq!(widget.process_click("session", &nested_state(), 0), ClickAction::Nothing);
}

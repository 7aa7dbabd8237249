use std::collections::BTreeMap;

use zjstatus::config::{ModeInfo, TabInfo, ZellijState};
use zjstatus::widgets::swap_layout::SwapLayoutWidget;
use zjstatus::widgets::widget::{ClickAction, Widget};

fn nested_state() -> ZellijState {
    ZellijState {
        mode: ModeInfo {
            session_dimmed: Some(true),
            ..ModeInfo::default()
        },
        tabs: vec![TabInfo {
            active: true,
            active_swap_layout_name: Some("compact".to_owned()),
            ..TabInfo::default()
        }],
        ..ZellijState::default()
    }
}

fn tabs_state(tabs: Vec<TabInfo>) -> ZellijState {
    ZellijState {
        tabs,
        ..ZellijState::default()
    }
}

#[test]
fn swap_layout_test_hidden_when_nested_and_nested_show_false() {
    let config = BTreeMap::from([("swap_layout_nested_show".to_owned(), "false".to_owned())]);
    let widget = SwapLayoutWidget::new(&config);

    assert_eq!(widget.process("swap_layout", &nested_state()), "");
}

#[test]
fn swap_layout_test_shown_by_default_when_nested() {
    let widget = SwapLayoutWidget::new(&BTreeMap::new());

    assert_eq!(widget.process("swap_layout", &nested_state()), "compact");
}

#[test]
fn swap_layout_uses_first_active_tab() {
    let widget = SwapLayoutWidget::new(&BTreeMap::new());
    let state = tabs_state(vec![
        TabInfo {
            active: false,
            active_swap_layout_name: Some("inactive".to_owned()),
        },
        TabInfo {
            active: true,
            active_swap_layout_name: Some("first".to_owned()),
        },
        TabInfo {
            active: true,
            active_swap_layout_name: Some("second".to_owned()),
        },
    ]);

    assert_eq!(widget.process("swap_layout", &state), "first");
}

#[test]
fn swap_layout_empty_without_active_tab() {
    let config = BTreeMap::from([("swap_layout_format".to_owned(), "[{name}]".to_owned())]);
    let widget = SwapLayoutWidget::new(&config);
    let state = tabs_state(vec![TabInfo {
        active: false,
        active_swap_layout_name: Some("compact".to_owned()),
    }]);

    assert_eq!(widget.process("swap_layout", &state), "");
}

#[test]
fn swap_layout_format_replaces_name() {
    let config = BTreeMap::from([("swap_layout_format".to_owned(), "<{name}> {name}".to_owned())]);
    let widget = SwapLayoutWidget::new(&config);

    assert_eq!(widget.process("swap_layout", &nested_state()), "<compact> compact");
}

#[test]
fn swap_layout_hide_if_empty() {
    let unnamed = tabs_state(vec![TabInfo {
        active: true,
        active_swap_layout_name: None,
    }]);

    let config = BTreeMap::from([
        ("swap_layout_format".to_owned(), "x{name}x".to_owned()),
        ("swap_layout_hide_if_empty".to_owned(), "true".to_owned()),
    ]);
    assert_eq!(SwapLayoutWidget::new(&config).process("swap_layout", &unnamed), "");

    let config = BTreeMap::from([("swap_layout_format".to_owned(), "x{name}x".to_owned())]);
    assert_eq!(SwapLayoutWidget::new(&config).process("swap_layout", &unnamed), "xx");
}

#[test]
fn swap_layout_click_asks_for_next_layout() {
    let widget = SwapLayoutWidget::new(&BTreeMap::new());

    assert_eq!(
        widget.process_click("swap_layout", &nested_state(), 3),
        ClickAction::NextSwapLayout
    );
}

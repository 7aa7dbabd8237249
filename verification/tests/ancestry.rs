use std::collections::BTreeMap;

use zjstatus::config::{ModeInfo, ZellijState};
use zjstatus::widgets::ancestry::AncestryWidget;
use zjstatus::widgets::widget::Widget;

fn state_with_ancestry(ancestry: Vec<&str>) -> ZellijState {
    ZellijState {
        mode: ModeInfo {
            session_ancestry: ancestry.into_iter().map(|s| s.to_owned()).collect(),
            ..ModeInfo::default()
        },
        ..ZellijState::default()
    }
}

#[test]
fn test_empty_when_not_nested() {
    let widget = AncestryWidget::new(&BTreeMap::new());

    let state = state_with_ancestry(vec![]);

    assert_eq!(widget.process("ancestry", &state), "");
}

#[test]
fn test_defaults_to_plain_name_per_item() {
    let widget = AncestryWidget::new(&BTreeMap::new());

    let state = state_with_ancestry(vec!["host", "middle"]);

    assert_eq!(widget.process("ancestry", &state), "hostmiddle");
}

#[test]
fn test_ancestry_format_applies_to_each_item() {
    let config = BTreeMap::from([("ancestry_format".to_owned(), "{name} > ".to_owned())]);
    let widget = AncestryWidget::new(&config);

    let state = state_with_ancestry(vec!["host", "middle"]);

    assert_eq!(widget.process("ancestry", &state), "host > middle > ");
}

#[test]
fn test_ancestry_format_styling_applies_per_item() {
    let config = BTreeMap::from([("ancestry_format".to_owned(), "#[fg=3]{name}".to_owned())]);
    let widget = AncestryWidget::new(&config);

    let state = state_with_ancestry(vec!["host"]);

    let output = widget.process("ancestry", &state);

    assert!(output.contains("host"));
    assert_ne!(output, "host", "expected ANSI styling to wrap {{name}}");
}

#[test]
fn test_separator_rendered_between_items_only() {
    let config = BTreeMap::from([("ancestry_separator".to_owned(), " > ".to_owned())]);
    let widget = AncestryWidget::new(&config);

    let state = state_with_ancestry(vec!["host", "middle", "guest"]);

    assert_eq!(widget.process("ancestry", &state), "host > middle > guest");
}

#[test]
fn test_no_separator_for_single_item() {
    let config = BTreeMap::from([("ancestry_separator".to_owned(), " > ".to_owned())]);
    let widget = AncestryWidget::new(&config);

    let state = state_with_ancestry(vec!["host"]);

    assert_eq!(widget.process("ancestry", &state), "host");
}

#[test]
fn test_no_separator_when_unconfigured() {
    let widget = AncestryWidget::new(&BTreeMap::new());

    let state = state_with_ancestry(vec!["host", "middle"]);

    assert_eq!(widget.process("ancestry", &state), "hostmiddle");
}

#[test]
fn ancestry_test_hidden_when_nested_and_nested_show_false() {
    let config = BTreeMap::from([("ancestry_nested_show".to_owned(), "false".to_owned())]);
    let widget = AncestryWidget::new(&config);

    let state = state_with_ancestry(vec!["host"]);

    assert_eq!(widget.process("ancestry", &state), "");
}

#[test]
fn ancestry_test_shown_by_default_when_nested() {
    let widget = AncestryWidget::new(&BTreeMap::new());

    let state = state_with_ancestry(vec!["host"]);

    assert_eq!(widget.process("ancestry", &state), "host");
}

#[test]
fn ancestry_test_shown_when_host_fullscreen_despite_nested_show_false() {
    let config = BTreeMap::from([("ancestry_nested_show".to_owned(), "false".to_owned())]);
    let widget = AncestryWidget::new(&config);

    let mut state = state_with_ancestry(vec!["host"]);
    state.mode.host_fullscreen = Some(true);

    assert_eq!(widget.process("ancestry", &state), "host");
}

#[test]
fn ancestry_styled_item_exact_escapes() {
    let config = BTreeMap::from([("ancestry_format".to_owned(), "#[fg=3]{name}".to_owned())]);
    let widget = AncestryWidget::new(&config);

    let state = state_with_ancestry(vec!["host"]);

    assert_eq!(widget.process("ancestry", &state), "\u{1b}[38;5;3mhost\u{1b}[0m");
}

#[test]
fn ancestry_styled_separator_between_items() {
    let config = BTreeMap::from([("ancestry_separator".to_owned(), "#[bold]/".to_owned())]);
    let widget = AncestryWidget::new(&config);

    let state = state_with_ancestry(vec!["a", "b"]);

    assert_eq!(widget.process("ancestry", &state), "a\u{1b}[1m/\u{1b}[0mb");
}

use std::collections::BTreeMap;

use zjstatus::config::{InputMode, ModeInfo, ZellijState};
use zjstatus::widgets::mode::{map_string_to_mode, ModeWidget};
use zjstatus::widgets::widget::{ClickAction, Widget};

fn state_with_mode(mode: ModeInfo) -> ZellijState {
    ZellijState {
        mode,
        ..ZellijState::default()
    }
}

#[test]
pub fn test_regular_format_used_when_not_nested() {
    let config = BTreeMap::from([
        ("mode_normal".to_owned(), "{name}".to_owned()),
        ("mode_nested_ascended".to_owned(), "(bg) {mode}".to_owned()),
        ("mode_nested_dimmed".to_owned(), "(dim) {mode}".to_owned()),
    ]);
    let widget = ModeWidget::new(&config);

    let state = state_with_mode(ModeInfo::default());

    assert_eq!(widget.process("mode", &state), "Normal");
}

#[test]
pub fn test_nested_ascended_format_replaces_regular_format() {
    let config = BTreeMap::from([
        ("mode_normal".to_owned(), "{name}".to_owned()),
        ("mode_nested_ascended".to_owned(), "(bg) {mode}".to_owned()),
        ("mode_nested_dimmed".to_owned(), "(dim) {mode}".to_owned()),
    ]);
    let widget = ModeWidget::new(&config);

    let state = state_with_mode(ModeInfo {
        session_ascended: Some(true),
        ..ModeInfo::default()
    });

    assert_eq!(widget.process("mode", &state), "(bg) Normal");
}

#[test]
pub fn test_nested_dimmed_format_replaces_regular_format() {
    let config = BTreeMap::from([
        ("mode_normal".to_owned(), "{name}".to_owned()),
        ("mode_nested_ascended".to_owned(), "(bg) {mode}".to_owned()),
        ("mode_nested_dimmed".to_owned(), "(dim) {mode}".to_owned()),
    ]);
    let widget = ModeWidget::new(&config);

    let state = state_with_mode(ModeInfo {
        session_dimmed: Some(true),
        ..ModeInfo::default()
    });

    assert_eq!(widget.process("mode", &state), "(dim) Normal");
}

#[test]
pub fn test_nested_ascended_takes_precedence_over_dimmed() {
    let config = BTreeMap::from([
        ("mode_normal".to_owned(), "{name}".to_owned()),
        ("mode_nested_ascended".to_owned(), "bg".to_owned()),
        ("mode_nested_dimmed".to_owned(), "dim".to_owned()),
    ]);
    let widget = ModeWidget::new(&config);

    let state = state_with_mode(ModeInfo {
        session_ascended: Some(true),
        session_dimmed: Some(true),
        ..ModeInfo::default()
    });

    assert_eq!(widget.process("mode", &state), "bg");
}

#[test]
pub fn test_nested_falls_back_to_regular_format_when_unconfigured() {
    let config = BTreeMap::from([("mode_normal".to_owned(), "{name}".to_owned())]);
    let widget = ModeWidget::new(&config);

    let state = state_with_mode(ModeInfo {
        session_dimmed: Some(true),
        ..ModeInfo::default()
    });

    assert_eq!(widget.process("mode", &state), "Normal");
}

#[test]
pub fn test_nested_name_placeholder_takes_wrapper_styling() {
    let config = BTreeMap::from([
        ("mode_normal".to_owned(), "#[fg=1]{name}".to_owned()),
        (
            "mode_nested_dimmed".to_owned(),
            "#[fg=3,bold]{name}".to_owned(),
        ),
    ]);
    let widget = ModeWidget::new(&config);

    let state = state_with_mode(ModeInfo {
        session_dimmed: Some(true),
        ..ModeInfo::default()
    });

    let output = widget.process("mode", &state);
    let regular_output = widget.render_regular_format(&state, "Normal");

    assert!(output.contains("Normal"));
    assert_ne!(
        output, regular_output,
        "{{name}} should be styled by the nested wrapper, not by mode_normal"
    );
}

#[test]
pub fn test_nested_mode_placeholder_embeds_whole_regular_format() {
    let config = BTreeMap::from([
        ("mode_normal".to_owned(), "#[fg=1]{name}".to_owned()),
        (
            "mode_nested_dimmed".to_owned(),
            "(dim) {mode}".to_owned(),
        ),
    ]);
    let widget = ModeWidget::new(&config);

    let state = state_with_mode(ModeInfo {
        session_dimmed: Some(true),
        ..ModeInfo::default()
    });

    let output = widget.process("mode", &state);
    let regular_output = widget.render_regular_format(&state, "Normal");

    assert_eq!(output, format!("(dim) {regular_output}"));
}

#[test]
pub fn test_nested_format_can_use_both_name_and_mode_placeholders() {
    let config = BTreeMap::from([
        ("mode_normal".to_owned(), "#[fg=1]{name}".to_owned()),
        (
            "mode_nested_dimmed".to_owned(),
            "{name}: {mode}".to_owned(),
        ),
    ]);
    let widget = ModeWidget::new(&config);

    let state = state_with_mode(ModeInfo {
        session_dimmed: Some(true),
        ..ModeInfo::default()
    });

    let output = widget.process("mode", &state);
    let regular_output = widget.render_regular_format(&state, "Normal");

    assert_eq!(output, format!("Normal: {regular_output}"));
}

#[test]
pub fn test_nested_active_used_when_ancestry_present_and_not_ascended_or_dimmed() {
    let config = BTreeMap::from([
        ("mode_normal".to_owned(), "{name}".to_owned()),
        ("mode_nested_active".to_owned(), "(active) {mode}".to_owned()),
    ]);
    let widget = ModeWidget::new(&config);

    let state = state_with_mode(ModeInfo {
        session_ancestry: vec!["host-session".to_owned()],
        ..ModeInfo::default()
    });

    assert_eq!(widget.process("mode", &state), "(active) Normal");
}

#[test]
pub fn test_nested_active_not_used_without_ancestry() {
    let config = BTreeMap::from([
        ("mode_normal".to_owned(), "{name}".to_owned()),
        ("mode_nested_active".to_owned(), "(active) {mode}".to_owned()),
    ]);
    let widget = ModeWidget::new(&config);

    let state = state_with_mode(ModeInfo::default());

    assert_eq!(widget.process("mode", &state), "Normal");
}

#[test]
pub fn test_nested_ascended_and_dimmed_take_precedence_over_active() {
    let config = BTreeMap::from([
        ("mode_normal".to_owned(), "{name}".to_owned()),
        ("mode_nested_ascended".to_owned(), "bg".to_owned()),
        ("mode_nested_active".to_owned(), "active".to_owned()),
    ]);
    let widget = ModeWidget::new(&config);

    let state = state_with_mode(ModeInfo {
        session_ascended: Some(true),
        session_ancestry: vec!["host-session".to_owned()],
        ..ModeInfo::default()
    });

    assert_eq!(widget.process("mode", &state), "bg");
}

#[test]
pub fn mode_test_hidden_when_nested_and_nested_show_false() {
    let config = BTreeMap::from([
        ("mode_normal".to_owned(), "{name}".to_owned()),
        ("mode_nested_show".to_owned(), "false".to_owned()),
    ]);
    let widget = ModeWidget::new(&config);

    let state = state_with_mode(ModeInfo {
        session_dimmed: Some(true),
        ..ModeInfo::default()
    });

    assert_eq!(widget.process("mode", &state), "");
}

#[test]
pub fn mode_test_shown_when_host_fullscreen_despite_nested_show_false() {
    let config = BTreeMap::from([
        ("mode_normal".to_owned(), "{name}".to_owned()),
        ("mode_nested_show".to_owned(), "false".to_owned()),
    ]);
    let widget = ModeWidget::new(&config);

    let state = state_with_mode(ModeInfo {
        session_dimmed: Some(true),
        host_fullscreen: Some(true),
        ..ModeInfo::default()
    });

    assert_eq!(widget.process("mode", &state), "Normal");
}

#[test]
fn mode_own_format_per_mode() {
    let config = BTreeMap::from([
        ("mode_normal".to_owned(), "N".to_owned()),
        ("mode_locked".to_owned(), "L:{name}".to_owned()),
    ]);
    let widget = ModeWidget::new(&config);

    let state = state_with_mode(ModeInfo {
        mode: InputMode::Locked,
        ..ModeInfo::default()
    });

    assert_eq!(widget.process("mode", &state), "L:Locked");
}

#[test]
fn mode_falls_back_to_default_mode_then_normal() {
    let config = BTreeMap::from([
        ("mode_normal".to_owned(), "N".to_owned()),
        ("mode_tab".to_owned(), "T:{name}".to_owned()),
        ("mode_default_to_mode".to_owned(), "tab".to_owned()),
    ]);
    let widget = ModeWidget::new(&config);
    let state = state_with_mode(ModeInfo {
        mode: InputMode::RenamePane,
        ..ModeInfo::default()
    });
    assert_eq!(widget.process("mode", &state), "T:RenamePane");

    let config = BTreeMap::from([
        ("mode_normal".to_owned(), "N".to_owned()),
        ("mode_default_to_mode".to_owned(), "pane".to_owned()),
    ]);
    let widget = ModeWidget::new(&config);
    assert_eq!(widget.process("mode", &state), "N");

    let config = BTreeMap::from([
        ("mode_normal".to_owned(), "N".to_owned()),
        ("mode_tab".to_owned(), "T".to_owned()),
        ("mode_default_to_mode".to_owned(), "Tab".to_owned()),
    ]);
    let widget = ModeWidget::new(&config);
    assert_eq!(widget.process("mode", &state), "N");
}

#[test]
fn mode_unconfigured_is_empty() {
    let widget = ModeWidget::new(&BTreeMap::new());

    assert_eq!(widget.process("mode", &state_with_mode(ModeInfo::default())), "");
}

#[test]
fn mode_names_are_variant_names() {
    assert_eq!(InputMode::EnterSearch.name(), "EnterSearch");
    assert_eq!(InputMode::Tmux.name(), "Tmux");
    assert_eq!(map_string_to_mode("enter_search"), Some(InputMode::EnterSearch));
    assert_eq!(map_string_to_mode("rename_tab"), Some(InputMode::RenameTab));
    assert_eq!(map_string_to_mode("Normal"), None);
}

#[test]
fn mode_nested_format_for_selects_by_precedence() {
    let config = BTreeMap::from([
        ("mode_nested_dimmed".to_owned(), "d".to_owned()),
        ("mode_nested_active".to_owned(), "a".to_owned()),
    ]);
    let widget = ModeWidget::new(&config);

    let plain = state_with_mode(ModeInfo::default());
    assert!(widget.nested_format_for(&plain).is_none());

    let both = state_with_mode(ModeInfo {
        session_ascended: Some(true),
        session_dimmed: Some(true),
        session_ancestry: vec!["h".to_owned()],
        ..ModeInfo::default()
    });
    let chosen = widget.nested_format_for(&both).unwrap();
    assert_eq!(chosen.len(), 1);
    assert_eq!(chosen[0].content, "d");
}

#[test]
fn mode_click_does_nothing() {
    let widget = ModeWidget::new(&BTreeMap::new());

    assert_eq!(
        widget.process_click("mode", &state_with_mode(ModeInfo::default()), 0),
        ClickAction::Nothing
    );
}

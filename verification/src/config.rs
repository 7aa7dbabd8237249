//! The user's configuration: a map from option names to option values.
use std::collections::BTreeMap;
use vstd::prelude::*;

use crate::text::{chars_eq, chars_of};

verus! {

/// The configuration as a map from option names to option values.
pub open spec fn config_view(config: &BTreeMap<String, String>) -> Map<Seq<char>, Seq<char>> {
    config.deep_view()
}

/// The value configured for `key`, if any.
pub open spec fn lookup(cfg: Map<Seq<char>, Seq<char>>, key: Seq<char>) -> Option<Seq<char>> {
    if cfg.contains_key(key) {
        Some(cfg[key])
    } else {
        None
    }
}

/// The characters held by an optional string.
pub open spec fn opt_view(o: Option<&String>) -> Option<Seq<char>> {
    match o {
        Some(s) => Some(s@),
        None => None,
    }
}

/// Looks `key` up in the configuration with `BTreeMap::get`, which finds
/// the entry whose key has the same characters as `key`.
#[verifier::external_body]
pub fn config_get<'a>(config: &'a BTreeMap<String, String>, key: &str) -> (r: Option<&'a String>)
    ensures
        opt_view(r) == lookup(config_view(config), key@),
{
    config.get(key)
}


/// The input mode of the multiplexer.
#[derive(Clone, Copy, Debug, PartialEq, Eq, Structural)]
pub enum InputMode {
    Normal,
    Locked,
    Resize,
    Pane,
    Tab,
    Scroll,
    EnterSearch,
    Search,
    RenameTab,
    RenamePane,
    Session,
    Move,
    Prompt,
    Tmux,
}

/// The name of an input mode, as its variant is written.
pub open spec fn mode_name(m: InputMode) -> Seq<char> {
    match m {
        InputMode::Normal => "Normal"@,
        InputMode::Locked => "Locked"@,
        InputMode::Resize => "Resize"@,
        InputMode::Pane => "Pane"@,
        InputMode::Tab => "Tab"@,
        InputMode::Scroll => "Scroll"@,
        InputMode::EnterSearch => "EnterSearch"@,
        InputMode::Search => "Search"@,
        InputMode::RenameTab => "RenameTab"@,
        InputMode::RenamePane => "RenamePane"@,
        InputMode::Session => "Session"@,
        InputMode::Move => "Move"@,
        InputMode::Prompt => "Prompt"@,
        InputMode::Tmux => "Tmux"@,
    }
}

impl InputMode {
    /// The name of the mode, as its variant is written.
    pub fn name(&self) -> (r: String)
        ensures
            r@ == mode_name(*self),
    {
        match self {
            InputMode::Normal => "Normal".to_owned(),
            InputMode::Locked => "Locked".to_owned(),
            InputMode::Resize => "Resize".to_owned(),
            InputMode::Pane => "Pane".to_owned(),
            InputMode::Tab => "Tab".to_owned(),
            InputMode::Scroll => "Scroll".to_owned(),
            InputMode::EnterSearch => "EnterSearch".to_owned(),
            InputMode::Search => "Search".to_owned(),
            InputMode::RenameTab => "RenameTab".to_owned(),
            InputMode::RenamePane => "RenamePane".to_owned(),
            InputMode::Session => "Session".to_owned(),
            InputMode::Move => "Move".to_owned(),
            InputMode::Prompt => "Prompt".to_owned(),
            InputMode::Tmux => "Tmux".to_owned(),
        }
    }
}

impl Default for InputMode {
    fn default() -> (r: InputMode)
        ensures
            r == InputMode::Normal,
    {
        InputMode::Normal
    }
}

/// What the widgets read of the multiplexer's mode and session.
#[derive(Debug)]
pub struct ModeInfo {
    /// The current input mode.
    pub mode: InputMode,
    /// The name of the current session.
    pub session_name: Option<String>,
    /// The names of the sessions this one is nested in, outermost first.
    pub session_ancestry: Vec<String>,
    /// Whether input currently goes to the host rather than the nested guest.
    pub session_ascended: Option<bool>,
    /// Whether this session is drawn dimmed.
    pub session_dimmed: Option<bool>,
    /// Whether the host is fully zoomed into a nested guest.
    pub host_fullscreen: Option<bool>,
}

impl Default for ModeInfo {
    fn default() -> (r: ModeInfo)
        ensures
            r.mode == InputMode::Normal,
            r.session_name is None,
            r.session_ancestry@.len() == 0,
            r.session_ascended is None,
            r.session_dimmed is None,
            r.host_fullscreen is None,
    {
        ModeInfo {
            mode: InputMode::Normal,
            session_name: None,
            session_ancestry: Vec::new(),
            session_ascended: None,
            session_dimmed: None,
            host_fullscreen: None,
        }
    }
}

/// What the widgets read of a tab.
#[derive(Debug)]
pub struct TabInfo {
    /// Whether this is the focused tab.
    pub active: bool,
    /// The name of the swap layout in use in the tab, if any.
    pub active_swap_layout_name: Option<String>,
}

impl Default for TabInfo {
    fn default() -> (r: TabInfo)
        ensures
            !r.active,
            r.active_swap_layout_name is None,
    {
        TabInfo { active: false, active_swap_layout_name: None }
    }
}

/// The multiplexer's state as the widgets see it.
#[derive(Debug)]
pub struct ZellijState {
    pub mode: ModeInfo,
    pub tabs: Vec<TabInfo>,
}

impl Default for ZellijState {
    fn default() -> (r: ZellijState)
        ensures
            r.mode.mode == InputMode::Normal,
            r.mode.session_name is None,
            r.mode.session_ancestry@.len() == 0,
            r.mode.session_ascended is None,
            r.mode.session_dimmed is None,
            r.mode.host_fullscreen is None,
            r.tabs@.len() == 0,
    {
        ZellijState { mode: ModeInfo::default(), tabs: Vec::new() }
    }
}

/// Whether an optional flag is set.
pub open spec fn flag(o: Option<bool>) -> bool {
    o == Some(true)
}


/// An on/off option: on exactly when its value is `true`; `default` when it
/// is not configured.
pub open spec fn switch_setting(cfg: Map<Seq<char>, Seq<char>>, key: Seq<char>, default: bool) -> bool {
    match lookup(cfg, key) {
        Some(v) => v == "true"@,
        None => default,
    }
}

/// Reads an on/off option.
pub fn read_switch(config: &BTreeMap<String, String>, key: &str, default: bool) -> (r: bool)
    ensures
        r == switch_setting(config_view(config), key@, default),
{
    match config_get(config, key) {
        Some(v) => chars_eq(&chars_of(v.as_str()), &chars_of("true")),
        None => default,
    }
}

/// The characters held by a list of strings.
pub open spec fn string_views(v: Seq<String>) -> Seq<Seq<char>> {
    v.map_values(|s: String| s@)
}

} // verus!

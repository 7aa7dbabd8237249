use vstd::prelude::*;

use crate::config::{flag, ModeInfo, ZellijState};

verus! {

/// What the host has to do after a click on a widget.
#[derive(Clone, Copy, Debug, PartialEq, Eq, Structural)]
pub enum ClickAction {
    /// Nothing.
    Nothing,
    /// Switch the focused tab to its next swap layout.
    NextSwapLayout,
}

/// A piece of the status bar.
pub trait Widget {
    /// The text of the widget for the given state.
    fn process(&self, name: &str, state: &ZellijState) -> String;

    /// What a click at `pos` on the widget asks the host to do.
    fn process_click(&self, name: &str, state: &ZellijState, pos: usize) -> ClickAction;
}

/// Whether the session is nested: input goes to the host, the session is
/// dimmed, or it has ancestors.
pub open spec fn is_nested(mode: &ModeInfo) -> bool {
    flag(mode.session_ascended) || flag(mode.session_dimmed) || mode.session_ancestry@.len() > 0
}

/// Whether a widget with the given `nested_show` setting hides itself.
pub open spec fn hides_when_nested(nested_show: bool, mode: &ModeInfo) -> bool {
    !nested_show && !flag(mode.host_fullscreen) && is_nested(mode)
}

/// Whether a widget configured with `nested_show = false` should hide itself, given the
/// current session's nesting state. A host that is fully zoomed into a nested guest
/// (`host_fullscreen`) always shows its widgets regardless of `nested_show`.
pub fn should_hide_when_nested(nested_show: bool, mode: &ModeInfo) -> (r: bool)
    ensures
        r == hides_when_nested(nested_show, mode),
        nested_show ==> !r,
        flag(mode.host_fullscreen) ==> !r,
        !is_nested(mode) ==> !r,
{
    if nested_show || mode.host_fullscreen.unwrap_or(false) {
        return false;
    }
    mode.session_ascended.unwrap_or(false) || mode.session_dimmed.unwrap_or(false)
        || !mode.session_ancestry.is_empty()
}

} // verus!

use std::collections::BTreeMap;
use vstd::prelude::*;

use crate::config::{config_view, read_switch, switch_setting, ZellijState};
use crate::widgets::widget::{
    hides_when_nested, should_hide_when_nested, ClickAction, Widget,
};

verus! {

/// Shows the name of the current session.
pub struct SessionWidget {
    nested_show: bool,
}

impl SessionWidget {
    /// Whether the widget stays visible in a nested session.
    pub closed spec fn shows_when_nested(&self) -> bool {
        self.nested_show
    }

    /// The widget's text for a state.
    pub open spec fn text(&self, state: &ZellijState) -> Seq<char> {
        if hides_when_nested(self.shows_when_nested(), &state.mode) {
            Seq::empty()
        } else {
            match state.mode.session_name {
                Some(name) => name@,
                None => Seq::empty(),
            }
        }
    }

    /// Reads `session_nested_show` (shown when nested unless it is set to
    /// something other than `true`).
    pub fn new(config: &BTreeMap<String, String>) -> (w: Self)
        ensures
            w.shows_when_nested() == switch_setting(
                config_view(config),
                "session_nested_show"@,
                true,
            ),
    {
        let nested_show = read_switch(config, "session_nested_show", true);
        Self { nested_show }
    }
}


/// When the widget does not hide, its text is the characters of the
/// current session's own name, or nothing when the session has no name;
/// the sessions it is nested in play no part.
pub proof fn lemma_session_shows_own_name(w: &SessionWidget, state: &ZellijState)
    requires
        !hides_when_nested(w.shows_when_nested(), &state.mode),
    ensures
        state.mode.session_name matches Some(n) ==> w.text(state) == n@,
        state.mode.session_name is None ==> w.text(state).len() == 0,
{
}

/// A widget that stays visible when nested shows the same text for two
/// states with the same session name, whatever their ancestry and nesting
/// flags.
pub proof fn lemma_session_text_depends_on_name_only(
    w: &SessionWidget,
    s1: &ZellijState,
    s2: &ZellijState,
)
    requires
        w.shows_when_nested(),
        s1.mode.session_name is Some <==> s2.mode.session_name is Some,
        s1.mode.session_name is Some ==> s1.mode.session_name->0@ == s2.mode.session_name->0@,
    ensures
        w.text(s1) == w.text(s2),
{
}

impl Widget for SessionWidget {
    fn process(&self, _name: &str, state: &ZellijState) -> (r: String)
        ensures
            r@ == self.text(state),
            hides_when_nested(self.shows_when_nested(), &state.mode) ==> r@.len() == 0,
    {
        if should_hide_when_nested(self.nested_show, &state.mode) {
            return String::new();
        }
        match &state.mode.session_name {
            Some(name) => name.clone(),
            None => String::new(),
        }
    }

    fn process_click(&self, _name: &str, _state: &ZellijState, _pos: usize) -> (r: ClickAction)
        ensures
            r == ClickAction::Nothing,
    {
        ClickAction::Nothing
    }
}

} // verus!

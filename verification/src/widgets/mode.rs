use std::collections::BTreeMap;
use vstd::prelude::*;

use crate::config::{
    config_get, config_view, flag, lookup, mode_name, read_switch, switch_setting, InputMode,
    ZellijState,
};
use crate::render::{
    lemma_styled_is_wrapped, lemma_styled_text_wraps, plain_style, reset_code, style_prefix,
    parse_parts, parts_view, render_with, render_with_exec, styled, substitute, substitute_exec,
    FormattedPart, PartView,
};
use crate::text::{contains, append_chars, chars_eq, chars_of, string_of};
use crate::widgets::widget::{is_nested, hides_when_nested, should_hide_when_nested, ClickAction, Widget};

verus! {

/// Shows the current input mode, with a format per mode and formats that
/// take over in a nested session.
#[derive(Debug)]
pub struct ModeWidget {
    normal_format: Vec<FormattedPart>,
    locked_format: Vec<FormattedPart>,
    resize_format: Vec<FormattedPart>,
    pane_format: Vec<FormattedPart>,
    tab_format: Vec<FormattedPart>,
    scroll_format: Vec<FormattedPart>,
    enter_search_format: Vec<FormattedPart>,
    search_format: Vec<FormattedPart>,
    rename_tab_format: Vec<FormattedPart>,
    rename_pane_format: Vec<FormattedPart>,
    session_format: Vec<FormattedPart>,
    move_format: Vec<FormattedPart>,
    prompt_format: Vec<FormattedPart>,
    tmux_format: Vec<FormattedPart>,
    default_to_mode: Option<String>,
    nested_ascended_format: Vec<FormattedPart>,
    nested_dimmed_format: Vec<FormattedPart>,
    nested_active_format: Vec<FormattedPart>,
    nested_show: bool,
}

/// A mode widget's settings, as values.
pub struct ModeView {
    pub normal_format: Seq<PartView>,
    pub locked_format: Seq<PartView>,
    pub resize_format: Seq<PartView>,
    pub pane_format: Seq<PartView>,
    pub tab_format: Seq<PartView>,
    pub scroll_format: Seq<PartView>,
    pub enter_search_format: Seq<PartView>,
    pub search_format: Seq<PartView>,
    pub rename_tab_format: Seq<PartView>,
    pub rename_pane_format: Seq<PartView>,
    pub session_format: Seq<PartView>,
    pub move_format: Seq<PartView>,
    pub prompt_format: Seq<PartView>,
    pub tmux_format: Seq<PartView>,
    /// The mode whose format stands in for a mode without one.
    pub default_to_mode: Option<Seq<char>>,
    /// Used while input goes to the host of a nested session.
    pub nested_ascended_format: Seq<PartView>,
    /// Used while the session is dimmed.
    pub nested_dimmed_format: Seq<PartView>,
    /// Used in a nested session that is neither of the above.
    pub nested_active_format: Seq<PartView>,
    /// Whether the widget stays visible in a nested session.
    pub nested_show: bool,
}

impl View for ModeWidget {
    type V = ModeView;

    closed spec fn view(&self) -> ModeView {
        ModeView {
            normal_format: parts_view(self.normal_format@),
            locked_format: parts_view(self.locked_format@),
            resize_format: parts_view(self.resize_format@),
            pane_format: parts_view(self.pane_format@),
            tab_format: parts_view(self.tab_format@),
            scroll_format: parts_view(self.scroll_format@),
            enter_search_format: parts_view(self.enter_search_format@),
            search_format: parts_view(self.search_format@),
            rename_tab_format: parts_view(self.rename_tab_format@),
            rename_pane_format: parts_view(self.rename_pane_format@),
            session_format: parts_view(self.session_format@),
            move_format: parts_view(self.move_format@),
            prompt_format: parts_view(self.prompt_format@),
            tmux_format: parts_view(self.tmux_format@),
            default_to_mode: match self.default_to_mode {
                Some(s) => Some(s@),
                None => None,
            },
            nested_ascended_format: parts_view(self.nested_ascended_format@),
            nested_dimmed_format: parts_view(self.nested_dimmed_format@),
            nested_active_format: parts_view(self.nested_active_format@),
            nested_show: self.nested_show,
        }
    }
}

/// The parts of the format configured under `key`; none when it is not
/// configured.
pub open spec fn format_setting(cfg: Map<Seq<char>, Seq<char>>, key: Seq<char>) -> Seq<PartView> {
    match lookup(cfg, key) {
        Some(f) => parse_parts(f, cfg),
        None => Seq::empty(),
    }
}

/// The format configured for a mode.
pub open spec fn format_by_mode(w: ModeView, m: InputMode) -> Seq<PartView> {
    match m {
        InputMode::Normal => w.normal_format,
        InputMode::Locked => w.locked_format,
        InputMode::Resize => w.resize_format,
        InputMode::Pane => w.pane_format,
        InputMode::Tab => w.tab_format,
        InputMode::Scroll => w.scroll_format,
        InputMode::EnterSearch => w.enter_search_format,
        InputMode::Search => w.search_format,
        InputMode::RenameTab => w.rename_tab_format,
        InputMode::RenamePane => w.rename_pane_format,
        InputMode::Session => w.session_format,
        InputMode::Move => w.move_format,
        InputMode::Prompt => w.prompt_format,
        InputMode::Tmux => w.tmux_format,
    }
}

/// The mode named by a `mode_default_to_mode` value.
pub open spec fn mode_from_name(s: Seq<char>) -> Option<InputMode> {
    if s == "normal"@ {
        Some(InputMode::Normal)
    } else if s == "locked"@ {
        Some(InputMode::Locked)
    } else if s == "resize"@ {
        Some(InputMode::Resize)
    } else if s == "pane"@ {
        Some(InputMode::Pane)
    } else if s == "tab"@ {
        Some(InputMode::Tab)
    } else if s == "scroll"@ {
        Some(InputMode::Scroll)
    } else if s == "enter_search"@ {
        Some(InputMode::EnterSearch)
    } else if s == "search"@ {
        Some(InputMode::Search)
    } else if s == "rename_tab"@ {
        Some(InputMode::RenameTab)
    } else if s == "rename_pane"@ {
        Some(InputMode::RenamePane)
    } else if s == "session"@ {
        Some(InputMode::Session)
    } else if s == "move"@ {
        Some(InputMode::Move)
    } else if s == "prompt"@ {
        Some(InputMode::Prompt)
    } else if s == "tmux"@ {
        Some(InputMode::Tmux)
    } else {
        None
    }
}

/// The format drawn for a mode: its own when it has one; otherwise that of
/// the `mode_default_to_mode` mode when it names a mode that has one;
/// otherwise the normal mode's.
pub open spec fn select_format(w: ModeView, m: InputMode) -> Seq<PartView> {
    let own = format_by_mode(w, m);
    if own.len() > 0 {
        own
    } else {
        match w.default_to_mode {
            Some(d) => match mode_from_name(d) {
                Some(dm) => if format_by_mode(w, dm).len() > 0 {
                    format_by_mode(w, dm)
                } else {
                    w.normal_format
                },
                None => w.normal_format,
            },
            None => w.normal_format,
        }
    }
}

/// The nested format that takes over, if any: the ascended format while
/// input goes to the host, else the dimmed format while dimmed, else the
/// active format when the session has ancestors; each only when it is
/// configured.
pub open spec fn nested_format(w: ModeView, state: &ZellijState) -> Option<Seq<PartView>> {
    if flag(state.mode.session_ascended) && w.nested_ascended_format.len() > 0 {
        Some(w.nested_ascended_format)
    } else if flag(state.mode.session_dimmed) && w.nested_dimmed_format.len() > 0 {
        Some(w.nested_dimmed_format)
    } else if state.mode.session_ancestry@.len() > 0 && w.nested_active_format.len() > 0 {
        Some(w.nested_active_format)
    } else {
        None
    }
}

/// The regular rendering: the selected format with `{name}` replaced by
/// the mode's name.
pub open spec fn regular_text(w: ModeView, state: &ZellijState, name: Seq<char>) -> Seq<char> {
    render_with(select_format(w, state.mode.mode), "{name}"@, name)
}

/// A nested format drawn with `{name}` replaced by the mode's name and
/// `{mode}` by the whole regular rendering.
pub open spec fn render_nested(parts: Seq<PartView>, name: Seq<char>, regular: Seq<char>) -> Seq<
    char,
>
    decreases parts.len(),
{
    if parts.len() == 0 {
        Seq::empty()
    } else {
        render_nested(parts.drop_last(), name, regular) + styled(
            parts.last().style,
            substitute(substitute(parts.last().content, "{name}"@, name), "{mode}"@, regular),
        )
    }
}

/// The widget's text for a state: empty when it hides itself; the nested
/// format when one takes over; otherwise the regular rendering.
pub open spec fn mode_text(w: ModeView, state: &ZellijState) -> Seq<char> {
    if hides_when_nested(w.nested_show, &state.mode) {
        Seq::empty()
    } else {
        let name = mode_name(state.mode.mode);
        let regular = regular_text(w, state, name);
        match nested_format(w, state) {
            None => regular,
            Some(f) => render_nested(f, name, regular),
        }
    }
}


proof fn lemma_render_nested_each_part(parts: Seq<PartView>, name: Seq<char>, regular: Seq<char>)
    ensures
        render_nested(parts, name, regular) == parts.fold_left(
            Seq::<char>::empty(),
            |acc: Seq<char>, p: PartView|
                acc + styled(
                    p.style,
                    substitute(substitute(p.content, "{name}"@, name), "{mode}"@, regular),
                ),
        ),
    decreases parts.len(),
{
    if parts.len() > 0 {
        lemma_render_nested_each_part(parts.drop_last(), name, regular);
    }
}

/// When a nested format takes over, every one of its parts is drawn in that
/// part's own style, with `{name}` replaced by the mode's name and `{mode}`
/// by the regular rendering; the text is these drawings in order.
pub proof fn lemma_nested_format_draws_each_part(
    w: ModeView,
    state: &ZellijState,
    f: Seq<PartView>,
)
    requires
        !hides_when_nested(w.nested_show, &state.mode),
        nested_format(w, state) == Some(f),
    ensures
        mode_text(w, state) == f.fold_left(
            Seq::<char>::empty(),
            |acc: Seq<char>, p: PartView|
                acc + styled(
                    p.style,
                    substitute(
                        substitute(p.content, "{name}"@, mode_name(state.mode.mode)),
                        "{mode}"@,
                        render_with(select_format(w, state.mode.mode), "{name}"@, mode_name(state.mode.mode)),
                    ),
                ),
        ),
{
    lemma_render_nested_each_part(
        f,
        mode_name(state.mode.mode),
        regular_text(w, state, mode_name(state.mode.mode)),
    );
}

/// When a nested format of a single part with a style takes over, the text
/// is that style's escape sequences, the part's filled-in content, then a
/// reset: it holds the filled-in content and differs from it.
pub proof fn lemma_nested_single_styled_part(w: ModeView, state: &ZellijState, p: PartView)
    requires
        !hides_when_nested(w.nested_show, &state.mode),
        nested_format(w, state) == Some(seq![p]),
        p.style != plain_style(),
    ensures
        ({
            let name = mode_name(state.mode.mode);
            let regular = render_with(select_format(w, state.mode.mode), "{name}"@, name);
            let filled = substitute(substitute(p.content, "{name}"@, name), "{mode}"@, regular);
            &&& mode_text(w, state) == style_prefix(p.style) + filled + reset_code()
            &&& style_prefix(p.style).len() > 0
            &&& contains(mode_text(w, state), filled)
            &&& mode_text(w, state) != filled
        }),
{
    let name = mode_name(state.mode.mode);
    let regular = render_with(select_format(w, state.mode.mode), "{name}"@, name);
    let filled = substitute(substitute(p.content, "{name}"@, name), "{mode}"@, regular);
    let single = seq![p];
    assert(single.drop_last() =~= Seq::<PartView>::empty());
    assert(single.last() == p);
    assert(render_nested(single.drop_last(), name, regular) == Seq::<char>::empty());
    assert(render_nested(single, name, regular) == Seq::<char>::empty() + styled(p.style, filled));
    assert(Seq::<char>::empty() + styled(p.style, filled) =~= styled(p.style, filled));
    lemma_styled_is_wrapped(p.style, filled);
    lemma_styled_text_wraps(p.style, filled);
}

/// The parts of the format configured under `key`; none when it is not
/// configured.
fn read_format(config: &BTreeMap<String, String>, key: &str) -> (r: Vec<FormattedPart>)
    ensures
        parts_view(r@) == format_setting(config_view(config), key@),
{
    match config_get(config, key) {
        Some(form) => FormattedPart::multiple_from_format_string(form.as_str(), config),
        None => {
            let r: Vec<FormattedPart> = Vec::new();
            assert(parts_view(r@) =~= Seq::<PartView>::empty());
            r
        },
    }
}

/// The mode named by a `mode_default_to_mode` value.
pub fn map_string_to_mode(s: &str) -> (r: Option<InputMode>)
    ensures
        r == mode_from_name(s@),
{
    let c = chars_of(s);
    if chars_eq(&c, &chars_of("normal")) {
        return Some(InputMode::Normal);
    }
    if chars_eq(&c, &chars_of("locked")) {
        return Some(InputMode::Locked);
    }
    if chars_eq(&c, &chars_of("resize")) {
        return Some(InputMode::Resize);
    }
    if chars_eq(&c, &chars_of("pane")) {
        return Some(InputMode::Pane);
    }
    if chars_eq(&c, &chars_of("tab")) {
        return Some(InputMode::Tab);
    }
    if chars_eq(&c, &chars_of("scroll")) {
        return Some(InputMode::Scroll);
    }
    if chars_eq(&c, &chars_of("enter_search")) {
        return Some(InputMode::EnterSearch);
    }
    if chars_eq(&c, &chars_of("search")) {
        return Some(InputMode::Search);
    }
    if chars_eq(&c, &chars_of("rename_tab")) {
        return Some(InputMode::RenameTab);
    }
    if chars_eq(&c, &chars_of("rename_pane")) {
        return Some(InputMode::RenamePane);
    }
    if chars_eq(&c, &chars_of("session")) {
        return Some(InputMode::Session);
    }
    if chars_eq(&c, &chars_of("move")) {
        return Some(InputMode::Move);
    }
    if chars_eq(&c, &chars_of("prompt")) {
        return Some(InputMode::Prompt);
    }
    if chars_eq(&c, &chars_of("tmux")) {
        return Some(InputMode::Tmux);
    }
    None
}

impl ModeWidget {
    /// Reads a format per mode (`mode_normal`, `mode_locked`, ...), the
    /// nested formats, `mode_default_to_mode` and `mode_nested_show`.
    pub fn new(config: &BTreeMap<String, String>) -> (w: Self)
        ensures
            w@.normal_format == format_setting(config_view(config), "mode_normal"@),
            w@.locked_format == format_setting(config_view(config), "mode_locked"@),
            w@.resize_format == format_setting(config_view(config), "mode_resize"@),
            w@.pane_format == format_setting(config_view(config), "mode_pane"@),
            w@.tab_format == format_setting(config_view(config), "mode_tab"@),
            w@.scroll_format == format_setting(config_view(config), "mode_scroll"@),
            w@.enter_search_format == format_setting(config_view(config), "mode_enter_search"@),
            w@.search_format == format_setting(config_view(config), "mode_search"@),
            w@.rename_tab_format == format_setting(config_view(config), "mode_rename_tab"@),
            w@.rename_pane_format == format_setting(config_view(config), "mode_rename_pane"@),
            w@.session_format == format_setting(config_view(config), "mode_session"@),
            w@.move_format == format_setting(config_view(config), "mode_move"@),
            w@.prompt_format == format_setting(config_view(config), "mode_prompt"@),
            w@.tmux_format == format_setting(config_view(config), "mode_tmux"@),
            w@.default_to_mode == lookup(config_view(config), "mode_default_to_mode"@),
            w@.nested_ascended_format == format_setting(config_view(config), "mode_nested_ascended"@),
            w@.nested_dimmed_format == format_setting(config_view(config), "mode_nested_dimmed"@),
            w@.nested_active_format == format_setting(config_view(config), "mode_nested_active"@),
            w@.nested_show == switch_setting(config_view(config), "mode_nested_show"@, true),
    {
        let normal_format = read_format(config, "mode_normal");
        let locked_format = read_format(config, "mode_locked");
        let resize_format = read_format(config, "mode_resize");
        let pane_format = read_format(config, "mode_pane");
        let tab_format = read_format(config, "mode_tab");
        let scroll_format = read_format(config, "mode_scroll");
        let enter_search_format = read_format(config, "mode_enter_search");
        let search_format = read_format(config, "mode_search");
        let rename_tab_format = read_format(config, "mode_rename_tab");
        let rename_pane_format = read_format(config, "mode_rename_pane");
        let session_format = read_format(config, "mode_session");
        let move_format = read_format(config, "mode_move");
        let prompt_format = read_format(config, "mode_prompt");
        let tmux_format = read_format(config, "mode_tmux");
        let default_to_mode = match config_get(config, "mode_default_to_mode") {
            Some(s) => Some(s.clone()),
            None => None,
        };
        let nested_ascended_format = read_format(config, "mode_nested_ascended");
        let nested_dimmed_format = read_format(config, "mode_nested_dimmed");
        let nested_active_format = read_format(config, "mode_nested_active");
        let nested_show = read_switch(config, "mode_nested_show", true);
        Self {
            normal_format,
            locked_format,
            resize_format,
            pane_format,
            tab_format,
            scroll_format,
            enter_search_format,
            search_format,
            rename_tab_format,
            rename_pane_format,
            session_format,
            move_format,
            prompt_format,
            tmux_format,
            default_to_mode,
            nested_ascended_format,
            nested_dimmed_format,
            nested_active_format,
            nested_show,
        }
    }

    /// The nested format that takes over in this state, if any.
    pub fn nested_format_for(&self, state: &ZellijState) -> (r: Option<&Vec<FormattedPart>>)
        ensures
            match r {
                Some(f) => nested_format(self@, state) == Some(parts_view(f@)),
                None => nested_format(self@, state) is None,
            },
            !is_nested(&state.mode) ==> r is None,
    {
        if state.mode.session_ascended.unwrap_or(false) && !self.nested_ascended_format.is_empty() {
            Some(&self.nested_ascended_format)
        } else if state.mode.session_dimmed.unwrap_or(false)
            && !self.nested_dimmed_format.is_empty() {
            Some(&self.nested_dimmed_format)
        } else if !state.mode.session_ancestry.is_empty() && !self.nested_active_format.is_empty() {
            Some(&self.nested_active_format)
        } else {
            None
        }
    }

    /// The selected format for the current mode, drawn with `{name}`
    /// replaced by `mode_name`.
    pub fn render_regular_format(&self, state: &ZellijState, mode_name: &str) -> (r: String)
        ensures
            r@ == regular_text(self@, state, mode_name@),
    {
        let placeholder = chars_of("{name}");
        proof {
            reveal_strlit("{name}");
        }
        let parts = self.select_format(state.mode.mode);
        string_of(&render_with_exec(parts, &placeholder, &chars_of(mode_name)))
    }

    /// The format configured for a mode.
    fn get_format_by_mode(&self, mode: InputMode) -> (r: &Vec<FormattedPart>)
        ensures
            parts_view(r@) == format_by_mode(self@, mode),
    {
        match mode {
            InputMode::Normal => &self.normal_format,
            InputMode::Locked => &self.locked_format,
            InputMode::Resize => &self.resize_format,
            InputMode::Pane => &self.pane_format,
            InputMode::Tab => &self.tab_format,
            InputMode::Scroll => &self.scroll_format,
            InputMode::EnterSearch => &self.enter_search_format,
            InputMode::Search => &self.search_format,
            InputMode::RenameTab => &self.rename_tab_format,
            InputMode::RenamePane => &self.rename_pane_format,
            InputMode::Session => &self.session_format,
            InputMode::Move => &self.move_format,
            InputMode::Prompt => &self.prompt_format,
            InputMode::Tmux => &self.tmux_format,
        }
    }

    /// The format drawn for a mode, falling back to the default mode's and
    /// then to the normal mode's.
    fn select_format(&self, mode: InputMode) -> (r: &Vec<FormattedPart>)
        ensures
            parts_view(r@) == select_format(self@, mode),
    {
        let output = self.get_format_by_mode(mode);
        if output.is_empty() {
            return match &self.default_to_mode {
                Some(name) => match map_string_to_mode(name.as_str()) {
                    Some(m) => {
                        let out = self.get_format_by_mode(m);
                        if out.is_empty() {
                            return &self.normal_format;
                        }
                        out
                    },
                    None => &self.normal_format,
                },
                None => &self.normal_format,
            };
        }
        output
    }
}

/// A nested format drawn with `{name}` replaced by the mode's name and
/// `{mode}` by the regular rendering.
fn render_nested_exec(parts: &Vec<FormattedPart>, name: &Vec<char>, regular: &Vec<char>) -> (r: Vec<
    char,
>)
    ensures
        r@ == render_nested(parts_view(parts@), name@, regular@),
{
    let name_ph = chars_of("{name}");
    let mode_ph = chars_of("{mode}");
    proof {
        reveal_strlit("{name}");
        reveal_strlit("{mode}");
    }
    let mut out: Vec<char> = Vec::new();
    let mut i: usize = 0;
    while i < parts.len()
        invariant
            name_ph@ == "{name}"@,
            mode_ph@ == "{mode}"@,
            name_ph@.len() > 0,
            mode_ph@.len() > 0,
            i <= parts.len(),
            out@ == render_nested(parts_view(parts@).take(i as int), name@, regular@),
        decreases parts.len() - i,
    {
        let f = &parts[i];
        let with_name = substitute_exec(&chars_of(f.content.as_str()), &name_ph, name);
        let content = substitute_exec(&with_name, &mode_ph, regular);
        append_chars(&mut out, &f.format_chars(&content));
        proof {
            let pv = parts_view(parts@);
            assert(pv.take(i + 1).drop_last() =~= pv.take(i as int));
            assert(pv.take(i + 1).last() == parts@[i as int]@);
        }
        i = i + 1;
    }
    assert(parts_view(parts@).take(parts.len() as int) =~= parts_view(parts@));
    out
}

impl Widget for ModeWidget {
    fn process(&self, _name: &str, state: &ZellijState) -> (r: String)
        ensures
            r@ == mode_text(self@, state),
            hides_when_nested(self@.nested_show, &state.mode) ==> r@.len() == 0,
            !is_nested(&state.mode) ==> r@ == regular_text(self@, state, mode_name(state.mode.mode)),
    {
        if should_hide_when_nested(self.nested_show, &state.mode) {
            return String::new();
        }
        let mode_name = state.mode.mode.name();
        let regular_format = self.render_regular_format(state, mode_name.as_str());
        let format = match self.nested_format_for(state) {
            Some(f) => f,
            None => return regular_format,
        };
        string_of(
            &render_nested_exec(
                format,
                &chars_of(mode_name.as_str()),
                &chars_of(regular_format.as_str()),
            ),
        )
    }

    fn process_click(&self, _name: &str, _state: &ZellijState, _pos: usize) -> (r: ClickAction)
        ensures
            r == ClickAction::Nothing,
    {
        ClickAction::Nothing
    }
}

} // verus!

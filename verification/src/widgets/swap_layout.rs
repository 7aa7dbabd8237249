use std::collections::BTreeMap;
use vstd::prelude::*;

use crate::config::{config_get, config_view, lookup, read_switch, switch_setting, TabInfo, ZellijState};
use crate::render::{lemma_render_with_each_part, lemma_styled_is_wrapped, plain_style, reset_code, style_prefix, styled, substitute, parse_parts, parts_view, render_with, render_with_exec, FormattedPart, PartView};
use crate::text::{chars_of, string_of};
use crate::widgets::widget::{
    hides_when_nested, should_hide_when_nested, ClickAction, Widget,
};

verus! {

/// Shows the swap layout of the focused tab; a click switches to the next
/// swap layout.
pub struct SwapLayoutWidget {
    format: Vec<FormattedPart>,
    hide_if_empty: bool,
    nested_show: bool,
}

/// A swap layout widget's settings, as values.
pub struct SwapLayoutView {
    /// The parts drawn, with `{name}` standing for the layout's name.
    pub format: Seq<PartView>,
    /// Whether nothing is shown when the layout has no name.
    pub hide_if_empty: bool,
    /// Whether the widget stays visible in a nested session.
    pub nested_show: bool,
}

impl View for SwapLayoutWidget {
    type V = SwapLayoutView;

    closed spec fn view(&self) -> SwapLayoutView {
        SwapLayoutView {
            format: parts_view(self.format@),
            hide_if_empty: self.hide_if_empty,
            nested_show: self.nested_show,
        }
    }
}

/// Tab `i` is the first active tab.
pub open spec fn is_first_active(tabs: Seq<TabInfo>, i: int) -> bool {
    &&& 0 <= i < tabs.len()
    &&& tabs[i].active
    &&& forall|j: int| 0 <= j < i ==> !(#[trigger] tabs[j]).active
}

/// The name of the swap layout of the focused tab (the first active one),
/// empty when it has none; `None` when no tab is active.
pub open spec fn active_layout_name(tabs: Seq<TabInfo>) -> Option<Seq<char>> {
    if exists|i: int| is_first_active(tabs, i) {
        let i = choose|i: int| is_first_active(tabs, i);
        match tabs[i].active_swap_layout_name {
            Some(n) => Some(n@),
            None => Some(Seq::empty()),
        }
    } else {
        None
    }
}

/// The widget's text for a state: empty when it hides itself, when no tab
/// is active, or when the layout has no name and `hide_if_empty` is set;
/// the bare name when no format is configured; otherwise the format with
/// `{name}` replaced by the name.
pub open spec fn swap_layout_text(w: SwapLayoutView, state: &ZellijState) -> Seq<char> {
    if hides_when_nested(w.nested_show, &state.mode) {
        Seq::empty()
    } else {
        match active_layout_name(state.tabs@) {
            None => Seq::empty(),
            Some(name) => if name.len() == 0 && w.hide_if_empty {
                Seq::empty()
            } else if w.format.len() == 0 {
                name
            } else {
                render_with(w.format, "{name}"@, name)
            },
        }
    }
}


/// The name of the swap layout of tab `i`, empty when it has none.
proof fn lemma_active_layout_is_first_active(tabs: Seq<TabInfo>, i: int)
    requires
        is_first_active(tabs, i),
    ensures
        active_layout_name(tabs) == Some(
            match tabs[i].active_swap_layout_name {
                Some(n) => n@,
                None => Seq::<char>::empty(),
            },
        ),
{
    let c = choose|j: int| is_first_active(tabs, j);
    assert(is_first_active(tabs, c));
    if c < i {
        assert(!tabs[c].active);
    }
    if i < c {
        assert(!tabs[i].active);
    }
    assert(c == i);
}

/// With a format configured, the first active tab's layout name `name`
/// shown, every part of the format is drawn in that part's own style with
/// `{name}` replaced by the layout name; the text is these drawings in
/// order.
pub proof fn lemma_swap_layout_draws_each_part(w: SwapLayoutView, state: &ZellijState, i: int)
    requires
        !hides_when_nested(w.nested_show, &state.mode),
        is_first_active(state.tabs@, i),
        w.format.len() > 0,
        !(state.tabs@[i].active_swap_layout_name matches Some(n) && n@.len() == 0
            && w.hide_if_empty),
        !(state.tabs@[i].active_swap_layout_name is None && w.hide_if_empty),
    ensures
        ({
            let name = match state.tabs@[i].active_swap_layout_name {
                Some(n) => n@,
                None => Seq::<char>::empty(),
            };
            swap_layout_text(w, state) == w.format.fold_left(
                Seq::<char>::empty(),
                |acc: Seq<char>, p: PartView|
                    acc + styled(p.style, substitute(p.content, "{name}"@, name)),
            )
        }),
{
    let name = match state.tabs@[i].active_swap_layout_name {
        Some(n) => n@,
        None => Seq::<char>::empty(),
    };
    lemma_active_layout_is_first_active(state.tabs@, i);
    lemma_render_with_each_part(w.format, "{name}"@, name);
}

/// With a single styled part as the format, the text is that style's escape
/// sequences, the part's content with `{name}` replaced by the layout name,
/// then a reset.
pub proof fn lemma_swap_layout_single_styled_part(
    w: SwapLayoutView,
    state: &ZellijState,
    i: int,
    p: PartView,
    name: Seq<char>,
)
    requires
        !hides_when_nested(w.nested_show, &state.mode),
        is_first_active(state.tabs@, i),
        state.tabs@[i].active_swap_layout_name matches Some(n) && n@ == name,
        !(name.len() == 0 && w.hide_if_empty),
        w.format == seq![p],
        p.style != plain_style(),
    ensures
        swap_layout_text(w, state) == style_prefix(p.style) + substitute(p.content, "{name}"@, name)
            + reset_code(),
        style_prefix(p.style).len() > 0,
{
    lemma_active_layout_is_first_active(state.tabs@, i);
    let single = seq![p];
    assert(single.drop_last() =~= Seq::<PartView>::empty());
    assert(single.last() == p);
    assert(render_with(single.drop_last(), "{name}"@, name) == Seq::<char>::empty());
    let filled = substitute(p.content, "{name}"@, name);
    assert(Seq::<char>::empty() + styled(p.style, filled) =~= styled(p.style, filled));
    lemma_styled_is_wrapped(p.style, filled);
}

impl SwapLayoutWidget {
    /// Reads `swap_layout_format`, `swap_layout_hide_if_empty` and
    /// `swap_layout_nested_show`.
    pub fn new(config: &BTreeMap<String, String>) -> (w: Self)
        ensures
            w@.format == match lookup(config_view(config), "swap_layout_format"@) {
                Some(f) => parse_parts(f, config_view(config)),
                None => Seq::empty(),
            },
            w@.hide_if_empty == switch_setting(
                config_view(config),
                "swap_layout_hide_if_empty"@,
                false,
            ),
            w@.nested_show == switch_setting(
                config_view(config),
                "swap_layout_nested_show"@,
                true,
            ),
    {
        let mut format: Vec<FormattedPart> = Vec::new();
        if let Some(form) = config_get(config, "swap_layout_format") {
            format = FormattedPart::multiple_from_format_string(form.as_str(), config);
        }
        assert(format@.len() == 0 ==> parts_view(format@) =~= Seq::<PartView>::empty());
        let hide_if_empty = read_switch(config, "swap_layout_hide_if_empty", false);
        let nested_show = read_switch(config, "swap_layout_nested_show", true);
        Self { format, hide_if_empty, nested_show }
    }
}

/// The index of the first active tab, if any.
fn find_active(tabs: &Vec<TabInfo>) -> (r: Option<usize>)
    ensures
        match r {
            Some(i) => is_first_active(tabs@, i as int),
            None => !exists|i: int| is_first_active(tabs@, i),
        },
{
    let mut i: usize = 0;
    while i < tabs.len()
        invariant
            i <= tabs.len(),
            forall|j: int| 0 <= j < i ==> !(#[trigger] tabs@[j]).active,
        decreases tabs.len() - i,
    {
        if tabs[i].active {
            return Some(i);
        }
        i = i + 1;
    }
    None
}

impl Widget for SwapLayoutWidget {
    fn process(&self, _name: &str, state: &ZellijState) -> (r: String)
        ensures
            r@ == swap_layout_text(self@, state),
            hides_when_nested(self@.nested_show, &state.mode) ==> r@.len() == 0,
    {
        if should_hide_when_nested(self.nested_show, &state.mode) {
            return String::new();
        }
        let idx = match find_active(&state.tabs) {
            Some(i) => i,
            None => return String::new(),
        };
        proof {
            let c = choose|i: int| is_first_active(state.tabs@, i);
            assert(is_first_active(state.tabs@, c));
            if c < idx {
                assert(!state.tabs@[c].active);
            }
            if idx < c {
                assert(!state.tabs@[idx as int].active);
            }
            assert(c == idx);
        }
        let active_tab = &state.tabs[idx];
        let name = match &active_tab.active_swap_layout_name {
            Some(n) => chars_of(n.as_str()),
            None => Vec::new(),
        };
        if name.len() == 0 && self.hide_if_empty {
            return String::new();
        }
        if self.format.len() == 0 {
            return string_of(&name);
        }
        let placeholder = chars_of("{name}");
        proof {
            reveal_strlit("{name}");
        }
        string_of(&render_with_exec(&self.format, &placeholder, &name))
    }

    fn process_click(&self, _name: &str, _state: &ZellijState, _pos: usize) -> (r: ClickAction)
        ensures
            r == ClickAction::NextSwapLayout,
    {
        ClickAction::NextSwapLayout
    }
}

} // verus!

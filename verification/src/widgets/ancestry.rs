use std::collections::BTreeMap;
use vstd::prelude::*;

use crate::config::{
    config_get, config_view, lookup, read_switch, string_views, switch_setting, ZellijState,
};
use crate::render::{lemma_render_with_each_part, substitute, 
    parse_part, parse_parts, parts_view, render_with, render_with_exec, styled, FormattedPart,
    PartView,
};
use crate::text::{join, lemma_join_push, append_chars, chars_of, string_of};
use crate::widgets::widget::{
    hides_when_nested, should_hide_when_nested, ClickAction, Widget,
};

verus! {

/// Shows the sessions the current one is nested in, outermost first.
pub struct AncestryWidget {
    format: Vec<FormattedPart>,
    separator: Option<FormattedPart>,
    nested_show: bool,
}

/// An ancestry widget's settings, as values.
pub struct AncestryView {
    /// The parts drawn for every ancestor, with `{name}` standing for it.
    pub format: Seq<PartView>,
    /// The part drawn between two neighbouring ancestors.
    pub separator: Option<PartView>,
    /// Whether the widget stays visible in a nested session.
    pub nested_show: bool,
}

impl View for AncestryWidget {
    type V = AncestryView;

    closed spec fn view(&self) -> AncestryView {
        AncestryView {
            format: parts_view(self.format@),
            separator: match self.separator {
                Some(p) => Some(p@),
                None => None,
            },
            nested_show: self.nested_show,
        }
    }
}

/// The separator drawn after the `i`-th of `n` ancestors: its own content
/// in its own style, except after the last one.
pub open spec fn separator_after(sep: Option<PartView>, i: int, n: int) -> Seq<char> {
    match sep {
        Some(p) => if i + 1 < n {
            styled(p.style, p.content)
        } else {
            Seq::empty()
        },
        None => Seq::empty(),
    }
}

/// The text of the first `k` ancestors: each drawn with the format, with
/// `{name}` replaced by the ancestor's name, followed by its separator.
pub open spec fn ancestry_prefix(w: AncestryView, names: Seq<Seq<char>>, k: int) -> Seq<char>
    decreases k,
{
    if k <= 0 {
        Seq::empty()
    } else {
        ancestry_prefix(w, names, k - 1) + render_with(w.format, "{name}"@, names[k - 1])
            + separator_after(w.separator, k - 1, names.len() as int)
    }
}

/// The widget's text for a state: empty when it hides itself, otherwise
/// every ancestor in turn.
pub open spec fn ancestry_text(w: AncestryView, state: &ZellijState) -> Seq<char> {
    if hides_when_nested(w.nested_show, &state.mode) {
        Seq::empty()
    } else {
        let names = string_views(state.mode.session_ancestry@);
        ancestry_prefix(w, names, names.len() as int)
    }
}

/// The format used for every ancestor: `ancestry_format`, or `{name}` when
/// it is not configured.
pub open spec fn ancestry_format_setting(cfg: Map<Seq<char>, Seq<char>>) -> Seq<char> {
    match lookup(cfg, "ancestry_format"@) {
        Some(f) => f,
        None => "{name}"@,
    }
}


/// Each ancestor's name drawn with the format.
pub open spec fn rendered_names(w: AncestryView, names: Seq<Seq<char>>) -> Seq<Seq<char>> {
    names.map_values(|n: Seq<char>| render_with(w.format, "{name}"@, n))
}

proof fn lemma_prefix_is_join(w: AncestryView, names: Seq<Seq<char>>, k: int)
    requires
        w.separator is Some,
        1 <= k <= names.len(),
    ensures
        ancestry_prefix(w, names, k) == join(
            rendered_names(w, names).take(k),
            styled(w.separator->0.style, w.separator->0.content),
        ) + separator_after(w.separator, k - 1, names.len() as int),
    decreases k,
{
    let sep = styled(w.separator->0.style, w.separator->0.content);
    let items = rendered_names(w, names);
    let n = names.len() as int;
    if k == 1 {
        assert(items.take(1) =~= seq![items[0]]);
        assert(ancestry_prefix(w, names, 0) == Seq::<char>::empty());
        assert(ancestry_prefix(w, names, 1) =~= join(items.take(1), sep) + separator_after(
            w.separator,
            0,
            n,
        ));
    } else {
        lemma_prefix_is_join(w, names, k - 1);
        assert(separator_after(w.separator, k - 2, n) == sep);
        assert(items.take(k) =~= items.take(k - 1).push(items[k - 1]));
        lemma_join_push(items.take(k - 1), items[k - 1], sep);
        assert(ancestry_prefix(w, names, k) =~= join(items.take(k), sep) + separator_after(
            w.separator,
            k - 1,
            n,
        ));
    }
}

/// With a separator configured, the ancestors are drawn with the separator
/// between neighbours only: never before the first, never after the last.
pub proof fn lemma_separator_between_items(w: AncestryView, names: Seq<Seq<char>>)
    requires
        w.separator is Some,
        names.len() >= 1,
    ensures
        ancestry_prefix(w, names, names.len() as int) == join(
            rendered_names(w, names),
            styled(w.separator->0.style, w.separator->0.content),
        ),
{
    let n = names.len() as int;
    lemma_prefix_is_join(w, names, n);
    assert(rendered_names(w, names).take(n) =~= rendered_names(w, names));
    assert(separator_after(w.separator, n - 1, n) =~= Seq::<char>::empty());
}

/// Without a separator, the ancestors are drawn one right after the other.
pub proof fn lemma_no_separator_concatenates(w: AncestryView, names: Seq<Seq<char>>, k: int)
    requires
        w.separator is None,
        0 <= k <= names.len(),
    ensures
        ancestry_prefix(w, names, k) == rendered_names(w, names).take(k).fold_left(
            Seq::<char>::empty(),
            |acc: Seq<char>, item: Seq<char>| acc + item,
        ),
    decreases k,
{
    let items = rendered_names(w, names);
    if k > 0 {
        lemma_no_separator_concatenates(w, names, k - 1);
        assert(items.take(k).drop_last() =~= items.take(k - 1));
    } else {
        assert(items.take(0) =~= Seq::<Seq<char>>::empty());
    }
}


/// When the widget does not hide, its text is every ancestor drawn in turn:
/// with a separator, the drawings joined by it; without one, the drawings
/// one after the other. Whether the session is dimmed or ascended plays no
/// part beyond the hiding rule.
pub proof fn lemma_ancestry_shown_text(w: AncestryView, state: &ZellijState)
    requires
        !hides_when_nested(w.nested_show, &state.mode),
    ensures
        ({
            let names = string_views(state.mode.session_ancestry@);
            &&& (w.separator is Some && names.len() >= 1) ==> ancestry_text(w, state) == join(
                rendered_names(w, names),
                styled(w.separator->0.style, w.separator->0.content),
            )
            &&& w.separator is None ==> ancestry_text(w, state) == rendered_names(w, names).fold_left(
                Seq::<char>::empty(),
                |acc: Seq<char>, item: Seq<char>| acc + item,
            )
            &&& names.len() == 0 ==> ancestry_text(w, state).len() == 0
        }),
{
    let names = string_views(state.mode.session_ancestry@);
    if w.separator is Some && names.len() >= 1 {
        lemma_separator_between_items(w, names);
    }
    if w.separator is None {
        lemma_no_separator_concatenates(w, names, names.len() as int);
        assert(rendered_names(w, names).take(names.len() as int) =~= rendered_names(w, names));
    }
}

/// A widget that stays visible when nested shows the same text for two
/// states with the same ancestors, whatever their nesting flags.
pub proof fn lemma_ancestry_depends_on_names_only(
    w: AncestryView,
    s1: &ZellijState,
    s2: &ZellijState,
)
    requires
        w.nested_show,
        string_views(s1.mode.session_ancestry@) == string_views(s2.mode.session_ancestry@),
    ensures
        ancestry_text(w, s1) == ancestry_text(w, s2),
{
}

/// Each ancestor is drawn with every part of the format in that part's own
/// style, with `{name}` replaced by the ancestor's name.
pub proof fn lemma_ancestor_drawn_with_format(w: AncestryView, name: Seq<char>)
    ensures
        render_with(w.format, "{name}"@, name) == w.format.fold_left(
            Seq::<char>::empty(),
            |acc: Seq<char>, p: PartView| acc + styled(p.style, substitute(p.content, "{name}"@, name)),
        ),
{
    lemma_render_with_each_part(w.format, "{name}"@, name);
}

impl AncestryWidget {
    /// Reads `ancestry_format`, `ancestry_separator` and
    /// `ancestry_nested_show`.
    pub fn new(config: &BTreeMap<String, String>) -> (w: Self)
        ensures
            w@.format == parse_parts(ancestry_format_setting(config_view(config)), config_view(config)),
            w@.separator == match lookup(config_view(config), "ancestry_separator"@) {
                Some(s) => Some(parse_part(s, config_view(config))),
                None => None,
            },
            w@.nested_show == switch_setting(
                config_view(config),
                "ancestry_nested_show"@,
                true,
            ),
    {
        let format = match config_get(config, "ancestry_format") {
            Some(f) => FormattedPart::multiple_from_format_string(f.as_str(), config),
            None => FormattedPart::multiple_from_format_string("{name}", config),
        };
        let separator = match config_get(config, "ancestry_separator") {
            Some(s) => Some(FormattedPart::from_format_string(s.as_str(), config)),
            None => None,
        };
        let nested_show = read_switch(config, "ancestry_nested_show", true);
        Self { format, separator, nested_show }
    }
}

impl Widget for AncestryWidget {
    fn process(&self, _name: &str, state: &ZellijState) -> (r: String)
        ensures
            r@ == ancestry_text(self@, state),
            hides_when_nested(self@.nested_show, &state.mode) ==> r@.len() == 0,
    {
        if should_hide_when_nested(self.nested_show, &state.mode) {
            return String::new();
        }
        let names = &state.mode.session_ancestry;
        let ghost names_view = string_views(names@);
        let placeholder = chars_of("{name}");
        proof {
            reveal_strlit("{name}");
        }
        let mut out: Vec<char> = Vec::new();
        let mut i: usize = 0;
        while i < names.len()
            invariant
                placeholder@ == "{name}"@,
                placeholder@.len() > 0,
                names_view == string_views(names@),
                i <= names.len(),
                out@ == ancestry_prefix(self@, names_view, i as int),
            decreases names.len() - i,
        {
            let name = chars_of(names[i].as_str());
            assert(name@ == names_view[i as int]);
            append_chars(&mut out, &render_with_exec(&self.format, &placeholder, &name));
            if i + 1 < names.len() {
                match &self.separator {
                    Some(sep) => {
                        append_chars(&mut out, &sep.format_chars(&chars_of(sep.content.as_str())));
                    },
                    None => {},
                }
            }
            i = i + 1;
            assert(out@ =~= ancestry_prefix(self@, names_view, i as int));
        }
        string_of(&out)
    }

    fn process_click(&self, _name: &str, _state: &ZellijState, _pos: usize) -> (r: ClickAction)
        ensures
            r == ClickAction::Nothing,
    {
        ClickAction::Nothing
    }
}

} // verus!

use std::collections::BTreeMap;
use std::fmt::Write;
use std::str::FromStr;

use chrono::{DateTime, Local};
use chrono_tz::Tz;
use vstd::prelude::*;

use crate::config::{config_get, config_view, lookup, read_switch, switch_setting, ZellijState};
use crate::render::{parse_parts, parts_view, styled, FormattedPart, PartView};
use crate::text::{
    append_chars, chars_of, contains, contains_exec, replace_all, replace_exec, string_of,
};
use crate::widgets::widget::{hides_when_nested, should_hide_when_nested, ClickAction};

verus! {

/// Whether `chrono_tz` knows a time zone by this name (`Tz::from_str`
/// succeeds on it).
pub uninterp spec fn is_known_time_zone(name: Seq<char>) -> bool;

/// The text that `chrono` gives for the instant `secs` seconds and `nanos`
/// nanoseconds after the Unix epoch, seen in the time zone named `zone`,
/// formatted with the strftime-style `format`; `None` when `zone` names no
/// known time zone or `format` holds a specifier that `chrono` cannot
/// format.
pub uninterp spec fn time_text(secs: i64, nanos: u32, zone: Seq<char>, format: Seq<char>) -> Option<
    Seq<char>,
>;

/// A point in time: seconds and nanoseconds since the Unix epoch.
#[derive(Clone, Copy, Debug, PartialEq, Eq)]
pub struct Instant {
    pub secs: i64,
    pub nanos: u32,
}

/// Calls `chrono_tz::Tz::from_str`; the result is whether it succeeds.
#[verifier::external_body]
fn time_zone_known(name: &str) -> (r: bool)
    ensures
        r == is_known_time_zone(name@),
{
    Tz::from_str(name).is_ok()
}

/// Calls `chrono::Local::now` and returns its seconds and nanoseconds since
/// the epoch. Nothing is promised of the result: it is the clock's reading.
#[verifier::external_body]
fn current_instant() -> (r: Instant) {
    let now = Local::now();
    Instant { secs: now.timestamp(), nanos: now.timestamp_subsec_nanos() }
}

/// The characters held by an optional string.
pub open spec fn opt_string_view(o: Option<String>) -> Option<Seq<char>> {
    match o {
        Some(s) => Some(s@),
        None => None,
    }
}

/// Formats an instant in a time zone: `Tz::from_str(zone)`, then
/// `DateTime::from_timestamp`, `with_timezone` and `format(format)`
/// written into a string. The result is named by `time_text`; formatting
/// errors of `chrono` come back as `None`.
#[verifier::external_body]
fn format_time(at: &Instant, zone: &str, format: &str) -> (r: Option<String>)
    ensures
        opt_string_view(r) == time_text(at.secs, at.nanos, zone@, format@),
{
    let tz = match Tz::from_str(zone) {
        Ok(tz) => tz,
        Err(_) => return None,
    };
    let utc = match DateTime::from_timestamp(at.secs, at.nanos) {
        Some(d) => d,
        None => return None,
    };
    let mut out = String::new();
    match write!(out, "{}", utc.with_timezone(&tz).format(format)) {
        Ok(()) => Some(out),
        Err(_) => None,
    }
}

/// Shows the date and time.
pub struct DateTimeWidget {
    format: String,
    time_format: String,
    date_format: String,
    color_format: Vec<FormattedPart>,
    time_zone: Option<String>,
    nested_show: bool,
}

/// A date and time widget's settings, as values.
pub struct DateTimeView {
    /// The strftime-style format that `{format}` stands for.
    pub format: Seq<char>,
    /// The strftime-style format that `{time}` stands for.
    pub time_format: Seq<char>,
    /// The strftime-style format that `{date}` stands for.
    pub date_format: Seq<char>,
    /// The parts drawn.
    pub color_format: Seq<PartView>,
    /// The configured time zone, when it is a known one.
    pub time_zone: Option<Seq<char>>,
    /// Whether the widget stays visible in a nested session.
    pub nested_show: bool,
}

impl View for DateTimeWidget {
    type V = DateTimeView;

    closed spec fn view(&self) -> DateTimeView {
        DateTimeView {
            format: self.format@,
            time_format: self.time_format@,
            date_format: self.date_format@,
            color_format: parts_view(self.color_format@),
            time_zone: match self.time_zone {
                Some(z) => Some(z@),
                None => None,
            },
            nested_show: self.nested_show,
        }
    }
}

/// The configured value of `key`, or `default`.
pub open spec fn setting_or(cfg: Map<Seq<char>, Seq<char>>, key: Seq<char>, default: Seq<char>) -> Seq<
    char,
> {
    match lookup(cfg, key) {
        Some(v) => v,
        None => default,
    }
}

/// The time zone the widget draws in: the configured one, or UTC.
pub open spec fn zone_used(w: DateTimeView) -> Seq<char> {
    match w.time_zone {
        Some(z) => z,
        None => "UTC"@,
    }
}

/// `content` with the placeholder replaced by the formatted time when it
/// occurs; `None` when the time is needed and cannot be formatted.
pub open spec fn fill(content: Seq<char>, placeholder: Seq<char>, time: Option<Seq<char>>) -> Option<
    Seq<char>,
> {
    if contains(content, placeholder) {
        match time {
            Some(t) => Some(replace_all(content, placeholder, t)),
            None => None,
        }
    } else {
        Some(content)
    }
}

/// A part's content at instant `at`: `{format}`, then `{date}`, then
/// `{time}` replaced by the instant formatted with the matching format.
pub open spec fn content_at(w: DateTimeView, content: Seq<char>, at: Instant) -> Option<Seq<char>> {
    let zone = zone_used(w);
    match fill(content, "{format}"@, time_text(at.secs, at.nanos, zone, w.format)) {
        None => None,
        Some(c1) => match fill(c1, "{date}"@, time_text(at.secs, at.nanos, zone, w.date_format)) {
            None => None,
            Some(c2) => fill(c2, "{time}"@, time_text(at.secs, at.nanos, zone, w.time_format)),
        },
    }
}

/// The parts drawn one after the other at instant `at`; `None` when a part
/// needs a time that cannot be formatted.
pub open spec fn parts_at(w: DateTimeView, parts: Seq<PartView>, at: Instant) -> Option<Seq<char>>
    decreases parts.len(),
{
    if parts.len() == 0 {
        Some(Seq::empty())
    } else {
        match (parts_at(w, parts.drop_last(), at), content_at(w, parts.last().content, at)) {
            (Some(a), Some(c)) => Some(a + styled(parts.last().style, c)),
            _ => None,
        }
    }
}

/// Once a prefix of the parts cannot be drawn, neither can the whole list.
proof fn lemma_parts_at_none(w: DateTimeView, parts: Seq<PartView>, at: Instant, k: int)
    requires
        0 <= k <= parts.len(),
        parts_at(w, parts.take(k), at) is None,
    ensures
        parts_at(w, parts, at) is None,
    decreases parts.len() - k,
{
    if k == parts.len() {
        assert(parts.take(k) =~= parts);
    } else {
        assert(parts.take(k + 1).drop_last() =~= parts.take(k));
        lemma_parts_at_none(w, parts, at, k + 1);
    }
}

/// The widget's text at instant `at`: empty when it hides itself,
/// otherwise its parts drawn at that instant.
pub open spec fn datetime_text_at(w: DateTimeView, state: &ZellijState, at: Instant) -> Option<
    Seq<char>,
> {
    if hides_when_nested(w.nested_show, &state.mode) {
        Some(Seq::empty())
    } else {
        parts_at(w, w.color_format, at)
    }
}

/// The configured value of `key`, or `default`.
fn read_setting(config: &BTreeMap<String, String>, key: &str, default: &str) -> (r: String)
    ensures
        r@ == setting_or(config_view(config), key@, default@),
{
    match config_get(config, key) {
        Some(v) => v.clone(),
        None => default.to_owned(),
    }
}

/// `content` with the placeholder replaced by `format` formatted at `at`.
fn fill_exec(
    content: Vec<char>,
    placeholder: &str,
    at: &Instant,
    zone: &str,
    format: &str,
) -> (r: Option<Vec<char>>)
    requires
        placeholder@.len() > 0,
    ensures
        match r {
            Some(c) => fill(content@, placeholder@, time_text(at.secs, at.nanos, zone@, format@))
                == Some(c@),
            None => fill(content@, placeholder@, time_text(at.secs, at.nanos, zone@, format@))
                is None,
        },
{
    let ph = chars_of(placeholder);
    if contains_exec(&content, &ph) {
        match format_time(at, zone, format) {
            Some(t) => Some(replace_exec(&content, &ph, &chars_of(t.as_str()))),
            None => None,
        }
    } else {
        Some(content)
    }
}

impl DateTimeWidget {
    /// Reads `datetime_format`, `datetime_time_format`,
    /// `datetime_date_format`, `datetime_timezone`, `datetime` and
    /// `datetime_nested_show`.
    pub fn new(config: &BTreeMap<String, String>) -> (w: Self)
        ensures
            w@.format == setting_or(config_view(config), "datetime_format"@, "%H:%M"@),
            w@.time_format == setting_or(config_view(config), "datetime_time_format"@, "%H:%M"@),
            w@.date_format == setting_or(
                config_view(config),
                "datetime_date_format"@,
                "%Y-%m-%d"@,
            ),
            w@.time_zone == (if is_known_time_zone(
                setting_or(config_view(config), "datetime_timezone"@, "Etc/UTC"@),
            ) {
                Some(setting_or(config_view(config), "datetime_timezone"@, "Etc/UTC"@))
            } else {
                None
            }),
            w@.color_format == parse_parts(
                setting_or(config_view(config), "datetime"@, ""@),
                config_view(config),
            ),
            w@.nested_show == switch_setting(config_view(config), "datetime_nested_show"@, true),
    {
        let format = read_setting(config, "datetime_format", "%H:%M");
        let time_format = read_setting(config, "datetime_time_format", "%H:%M");
        let date_format = read_setting(config, "datetime_date_format", "%Y-%m-%d");
        let zone = read_setting(config, "datetime_timezone", "Etc/UTC");
        let time_zone = if time_zone_known(zone.as_str()) {
            Some(zone)
        } else {
            None
        };
        let color = read_setting(config, "datetime", "");
        let color_format = FormattedPart::multiple_from_format_string(color.as_str(), config);
        let nested_show = read_switch(config, "datetime_nested_show", true);
        Self { format, time_format, date_format, color_format, time_zone, nested_show }
    }

    /// The widget's text at instant `at`; `None` where a needed time cannot
    /// be formatted.
    pub fn render_at(&self, state: &ZellijState, at: &Instant) -> (r: Option<String>)
        ensures
            opt_string_view(r) == datetime_text_at(self@, state, *at),
    {
        if should_hide_when_nested(self.nested_show, &state.mode) {
            return Some(String::new());
        }
        let zone: &str = match &self.time_zone {
            Some(z) => z.as_str(),
            None => "UTC",
        };
        assert(zone@ == zone_used(self@));
        proof {
            reveal_strlit("{format}");
            reveal_strlit("{date}");
            reveal_strlit("{time}");
        }
        let parts = &self.color_format;
        let mut out: Vec<char> = Vec::new();
        let mut i: usize = 0;
        while i < parts.len()
            invariant
                zone@ == zone_used(self@),
                !hides_when_nested(self@.nested_show, &state.mode),
                parts_view(parts@) == self@.color_format,
                "{format}"@.len() > 0,
                "{date}"@.len() > 0,
                "{time}"@.len() > 0,
                i <= parts.len(),
                parts_at(self@, parts_view(parts@).take(i as int), *at) == Some(out@),
            decreases parts.len() - i,
        {
            let f = &parts[i];
            proof {
                let pv = parts_view(parts@);
                assert(pv.take(i + 1).drop_last() =~= pv.take(i as int));
                assert(pv.take(i + 1).last() == parts@[i as int]@);
            }
            let c0 = chars_of(f.content.as_str());
            let c1 = match fill_exec(c0, "{format}", at, zone, self.format.as_str()) {
                Some(c) => c,
                None => {
                    proof {
                        lemma_parts_at_none(self@, parts_view(parts@), *at, i + 1);
                    }
                    return None;
                },
            };
            let c2 = match fill_exec(c1, "{date}", at, zone, self.date_format.as_str()) {
                Some(c) => c,
                None => {
                    proof {
                        lemma_parts_at_none(self@, parts_view(parts@), *at, i + 1);
                    }
                    return None;
                },
            };
            let c3 = match fill_exec(c2, "{time}", at, zone, self.time_format.as_str()) {
                Some(c) => c,
                None => {
                    proof {
                        lemma_parts_at_none(self@, parts_view(parts@), *at, i + 1);
                    }
                    return None;
                },
            };
            append_chars(&mut out, &f.format_chars(&c3));
            i = i + 1;
        }
        assert(parts_view(parts@).take(parts.len() as int) =~= parts_view(parts@));
        Some(string_of(&out))
    }

    /// The widget's text now: read the clock, then draw at that instant.
    /// `None` where a needed time cannot be formatted.
    pub fn process(&self, _name: &str, state: &ZellijState) -> (r: Option<String>)
        ensures
            hides_when_nested(self@.nested_show, &state.mode) ==> opt_string_view(r) == Some(Seq::<char>::empty()),
            exists|at: Instant| opt_string_view(r) == datetime_text_at(self@, state, at),
    {
        if should_hide_when_nested(self.nested_show, &state.mode) {
            let r = Some(String::new());
            assert(opt_string_view(r) == datetime_text_at(self@, state, Instant { secs: 0, nanos: 0 }));
            return r;
        }
        let at = current_instant();
        self.render_at(state, &at)
    }

    /// A click on the widget asks the host for nothing.
    pub fn process_click(&self, _name: &str, _state: &ZellijState, _pos: usize) -> (r: ClickAction)
        ensures
            r == ClickAction::Nothing,
    {
        ClickAction::Nothing
    }
}

} // verus!

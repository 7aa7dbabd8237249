use std::collections::BTreeMap;

use zjstatus::render::{Color, FormattedPart, Style};

fn no_config() -> BTreeMap<String, String> {
    BTreeMap::new()
}

#[test]
fn plain_part_keeps_text() {
    let part = FormattedPart::from_format_string("{name} > ", &no_config());
    assert_eq!(part.style, Style::plain());
    assert_eq!(part.content, "{name} > ");
    assert_eq!(part.format_string("host > "), "host > ");
}

#[test]
fn attributes_before_bracket() {
    let part = FormattedPart::from_format_string("#[fg=red,bg=#ff0080,us=200,bold,italic]x]y", &no_config());
    assert_eq!(part.style.fg, Some(Color::Ansi(1)));
    assert_eq!(part.style.bg, Some(Color::Rgb(255, 0, 128)));
    assert_eq!(part.style.us, Some(Color::Ansi256(200)));
    assert!(part.style.bold && part.style.italic && !part.style.dim);
    assert_eq!(part.content, "x]y");
    assert_eq!(
        part.format_string("t"),
        "\u{1b}[1m\u{1b}[3m\u{1b}[31m\u{1b}[48;2;255;0;128m\u{1b}[58;5;200mt\u{1b}[0m"
    );
}

#[test]
fn color_alias_and_invalid_colors() {
    let config = BTreeMap::from([("color_accent".to_owned(), "#0A0b0C".to_owned())]);
    let part = FormattedPart::from_format_string("#[fg=$accent,bg=$missing,us=256]", &config);
    assert_eq!(part.style.fg, Some(Color::Rgb(10, 11, 12)));
    assert_eq!(part.style.bg, None);
    assert_eq!(part.style.us, None);
    assert_eq!(part.content, "");

    let part = FormattedPart::from_format_string("#[fg=+7,bg=#12345,us=white]", &no_config());
    assert_eq!(part.style.fg, Some(Color::Ansi256(7)));
    assert_eq!(part.style.bg, None);
    assert_eq!(part.style.us, Some(Color::Ansi(7)));
    assert_eq!(part.format_string("z"), "\u{1b}[38;5;7m\u{1b}[58;5;7mz\u{1b}[0m");
}

#[test]
fn later_attribute_overrides_earlier() {
    let part = FormattedPart::from_format_string("#[fg=1,fg=nonsense,blink]a", &no_config());
    assert_eq!(part.style.fg, None);
    assert!(part.style.blink);
    assert_eq!(part.format_string("a"), "\u{1b}[5ma\u{1b}[0m");
}

#[test]
fn multiple_parts_split_at_markers() {
    let parts = FormattedPart::multiple_from_format_string("a#[fg=1]b#[bg=blue]c", &no_config());
    assert_eq!(parts.len(), 3);
    assert_eq!(parts[0].content, "a");
    assert_eq!(parts[0].style, Style::plain());
    assert_eq!(parts[1].content, "b");
    assert_eq!(parts[1].style.fg, Some(Color::Ansi256(1)));
    assert_eq!(parts[2].content, "c");
    assert_eq!(parts[2].style.bg, Some(Color::Ansi(4)));
    assert_eq!(parts[2].format_string("c"), "\u{1b}[44mc\u{1b}[0m");
}

#[test]
fn leading_marker_gives_empty_first_part() {
    let parts = FormattedPart::multiple_from_format_string("#[dim]x", &no_config());
    assert_eq!(parts.len(), 2);
    assert_eq!(parts[0].content, "");
    assert!(parts[1].style.dim);
}

#[test]
fn every_effect_has_its_code() {
    let part = FormattedPart::from_format_string(
        "#[strikethrough,hidden,reverse,blink,underscore,italic,dim,bold]",
        &no_config(),
    );
    assert_eq!(
        part.format_string(""),
        "\u{1b}[1m\u{1b}[2m\u{1b}[3m\u{1b}[4m\u{1b}[5m\u{1b}[7m\u{1b}[8m\u{1b}[9m\u{1b}[0m"
    );
}

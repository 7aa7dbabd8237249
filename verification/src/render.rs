//! Format strings and styled text.
//!
//! A format string such as `#[fg=3,bold]{name} #[bg=$accent]x` is split at
//! every `#[` into parts. Each part may open with a bracketed list of
//! comma-separated attributes (`fg=`, `bg=`, `us=` colors and effect words)
//! closed by `]`; what follows is the part's content. Rendering a part wraps
//! a text in ANSI SGR escape sequences for its style, and leaves it
//! untouched when the style is plain.
use std::collections::BTreeMap;
use vstd::prelude::*;

use crate::config::{config_get, config_view, lookup, opt_view};
use crate::text::{join, lemma_split_absent, lemma_starts_with_contains, occurs_at, contains, contains_exec, replace_all, replace_exec, lemma_split_head, lemma_split_nonempty, append_chars, chars_eq, chars_of, slice_chars, split, split_exec, starts_with, starts_with_exec, string_of, views};

verus! {

// ---------------------------------------------------------------------------
// Colors
// ---------------------------------------------------------------------------

/// A terminal color.
#[derive(Clone, Copy, Debug, PartialEq, Eq)]
pub enum Color {
    /// One of the eight basic colors, numbered 0 (black) to 7 (white).
    Ansi(u8),
    /// An entry of the 256-color palette.
    Ansi256(u8),
    /// A 24-bit color.
    Rgb(u8, u8, u8),
}

/// The value of a decimal digit character.
pub open spec fn digit_value(c: char) -> Option<nat> {
    if '0' <= c && c <= '9' {
        Some((c as int - '0' as int) as nat)
    } else {
        None
    }
}

/// The value of a hexadecimal digit character, in either case.
pub open spec fn hex_value(c: char) -> Option<nat> {
    if '0' <= c && c <= '9' {
        Some((c as int - '0' as int) as nat)
    } else if 'a' <= c && c <= 'f' {
        Some((c as int - 'a' as int + 10) as nat)
    } else if 'A' <= c && c <= 'F' {
        Some((c as int - 'A' as int + 10) as nat)
    } else {
        None
    }
}

/// The value of a non-empty run of decimal digits.
pub open spec fn digits_value(t: Seq<char>) -> Option<nat>
    decreases t.len(),
{
    if t.len() == 0 {
        None
    } else if t.len() == 1 {
        digit_value(t[0])
    } else {
        match (digits_value(t.drop_last()), digit_value(t.last())) {
            (Some(v), Some(d)) => Some(10 * v + d),
            _ => None,
        }
    }
}

/// A number from 0 to 255 written in decimal, with an optional leading `+`.
pub open spec fn parse_u8(t: Seq<char>) -> Option<u8> {
    let d = if t.len() > 0 && t[0] == '+' {
        t.drop_first()
    } else {
        t
    };
    match digits_value(d) {
        Some(v) => if v <= 255 {
            Some(v as u8)
        } else {
            None
        },
        None => None,
    }
}

/// A byte written as two hexadecimal digits.
pub open spec fn hex_byte(hi: char, lo: char) -> Option<u8> {
    match (hex_value(hi), hex_value(lo)) {
        (Some(h), Some(l)) => Some((16 * h + l) as u8),
        _ => None,
    }
}

/// A 24-bit color written as six hexadecimal digits (after the `#`).
pub open spec fn hex_rgb(t: Seq<char>) -> Option<Color> {
    if t.len() != 6 {
        None
    } else {
        match (hex_byte(t[0], t[1]), hex_byte(t[2], t[3]), hex_byte(t[4], t[5])) {
            (Some(r), Some(g), Some(b)) => Some(Color::Rgb(r, g, b)),
            _ => None,
        }
    }
}

/// The number of a basic color name.
pub open spec fn named_color(t: Seq<char>) -> Option<u8> {
    if t == "black"@ {
        Some(0)
    } else if t == "red"@ {
        Some(1)
    } else if t == "green"@ {
        Some(2)
    } else if t == "yellow"@ {
        Some(3)
    } else if t == "blue"@ {
        Some(4)
    } else if t == "magenta"@ {
        Some(5)
    } else if t == "cyan"@ {
        Some(6)
    } else if t == "white"@ {
        Some(7)
    } else {
        None
    }
}

/// A color written as `#rrggbb`, as a basic color name, or as a palette
/// number from 0 to 255.
pub open spec fn color_value(t: Seq<char>) -> Option<Color> {
    if starts_with(t, "#"@) {
        hex_rgb(t.skip(1))
    } else if named_color(t) is Some {
        Some(Color::Ansi(named_color(t).unwrap()))
    } else if parse_u8(t) is Some {
        Some(Color::Ansi256(parse_u8(t).unwrap()))
    } else {
        None
    }
}

/// A color attribute value: either a color, or `$alias` naming the
/// configuration option `color_alias` whose value is the color.
pub open spec fn parse_color(t: Seq<char>, cfg: Map<Seq<char>, Seq<char>>) -> Option<Color> {
    if starts_with(t, "$"@) {
        match lookup(cfg, "color_"@ + t.skip(1)) {
            Some(v) => color_value(v),
            None => None,
        }
    } else {
        color_value(t)
    }
}

fn digit_of(c: char) -> (r: Option<u8>)
    ensures
        match r {
            Some(d) => digit_value(c) == Some(d as nat),
            None => digit_value(c) is None,
        },
{
    if '0' <= c && c <= '9' {
        Some(((c as u32) - ('0' as u32)) as u8)
    } else {
        None
    }
}

fn hex_of(c: char) -> (r: Option<u8>)
    ensures
        match r {
            Some(d) => hex_value(c) == Some(d as nat) && d < 16,
            None => hex_value(c) is None,
        },
{
    if '0' <= c && c <= '9' {
        Some(((c as u32) - ('0' as u32)) as u8)
    } else if 'a' <= c && c <= 'f' {
        Some(((c as u32) - ('a' as u32) + 10) as u8)
    } else if 'A' <= c && c <= 'F' {
        Some(((c as u32) - ('A' as u32) + 10) as u8)
    } else {
        None
    }
}

proof fn lemma_digits_prefix(t: Seq<char>, i: int)
    requires
        0 < i < t.len(),
    ensures
        t.take(i + 1).drop_last() == t.take(i),
        t.take(i + 1).last() == t[i],
{
    assert(t.take(i + 1).drop_last() =~= t.take(i));
}

/// Reads a number from 0 to 255 written in decimal with an optional `+`.
pub fn parse_u8_exec(t: &Vec<char>) -> (r: Option<u8>)
    ensures
        r == parse_u8(t@),
{
    let start: usize = if t.len() > 0 && t[0] == '+' {
        1
    } else {
        0
    };
    let ghost d = if t@.len() > 0 && t@[0] == '+' {
        t@.drop_first()
    } else {
        t@
    };
    assert(d =~= t@.skip(start as int));
    if start >= t.len() {
        return None;
    }
    // `acc` is the value read so far, capped at 256.
    let mut acc: u32 = 0;
    let mut i: usize = start;
    while i < t.len()
        invariant
            start < t.len(),
            start <= i <= t.len(),
            d == t@.skip(start as int),
            d == (if t@.len() > 0 && t@[0] == '+' {
                t@.drop_first()
            } else {
                t@
            }),
            acc <= 256,
            i == start ==> acc == 0,
            i > start ==> digits_value(d.take(i - start)) is Some,
            i > start ==> acc == (if digits_value(d.take(i - start)).unwrap() < 256 {
                digits_value(d.take(i - start)).unwrap()
            } else {
                256
            }),
        decreases t.len() - i,
    {
        let k = i - start;
        let c = t[i];
        assert(d[k as int] == c);
        match digit_of(c) {
            None => {
                proof {
                    if k == 0 {
                        assert(d.take(1) =~= seq![c]);
                        assert(digits_value(d.take(1)) == digit_value(c));
                    } else {
                        lemma_digits_prefix(d, k as int);
                        assert(digits_value(d.take(k + 1)) is None);
                    }
                    assert(digits_value(d.take(k + 1)) is None);
                    lemma_digits_none_extends(d, k as int + 1);
                    assert(digits_value(d) is None);
                    assert(parse_u8(t@) is None);
                }
                return None;
            },
            Some(dv) => {
                proof {
                    if k == 0 {
                        assert(d.take(1) =~= seq![c]);
                        assert(digits_value(d.take(1)) == Some(dv as nat));
                    } else {
                        lemma_digits_prefix(d, k as int);
                        let v = digits_value(d.take(k as int)).unwrap();
                        assert(digits_value(d.take(k + 1)) == Some((10 * v + dv) as nat));
                    }
                }
                let next = acc * 10 + dv as u32;
                acc = if next > 256 {
                    256
                } else {
                    next
                };
                i = i + 1;
            },
        }
    }
    assert(d.take(d.len() as int) =~= d);
    if acc <= 255 {
        Some(acc as u8)
    } else {
        None
    }
}

proof fn lemma_digits_none_extends(t: Seq<char>, i: int)
    requires
        0 < i <= t.len(),
        digits_value(t.take(i)) is None,
    ensures
        digits_value(t) is None,
    decreases t.len() - i,
{
    if i == t.len() {
        assert(t.take(i) =~= t);
    } else {
        lemma_digits_prefix(t, i);
        lemma_digits_none_extends(t, i + 1);
    }
}


fn hex_byte_exec(hi: char, lo: char) -> (r: Option<u8>)
    ensures
        r == hex_byte(hi, lo),
{
    match (hex_of(hi), hex_of(lo)) {
        (Some(h), Some(l)) => Some(16 * h + l),
        _ => None,
    }
}

fn hex_rgb_exec(t: &Vec<char>) -> (r: Option<Color>)
    ensures
        r == hex_rgb(t@),
{
    if t.len() != 6 {
        return None;
    }
    match (hex_byte_exec(t[0], t[1]), hex_byte_exec(t[2], t[3]), hex_byte_exec(t[4], t[5])) {
        (Some(r), Some(g), Some(b)) => Some(Color::Rgb(r, g, b)),
        _ => None,
    }
}

fn named_color_exec(t: &Vec<char>) -> (r: Option<u8>)
    ensures
        r == named_color(t@),
{
    if chars_eq(t, &chars_of("black")) {
        Some(0)
    } else if chars_eq(t, &chars_of("red")) {
        Some(1)
    } else if chars_eq(t, &chars_of("green")) {
        Some(2)
    } else if chars_eq(t, &chars_of("yellow")) {
        Some(3)
    } else if chars_eq(t, &chars_of("blue")) {
        Some(4)
    } else if chars_eq(t, &chars_of("magenta")) {
        Some(5)
    } else if chars_eq(t, &chars_of("cyan")) {
        Some(6)
    } else if chars_eq(t, &chars_of("white")) {
        Some(7)
    } else {
        None
    }
}

fn color_value_exec(t: &Vec<char>) -> (r: Option<Color>)
    ensures
        r == color_value(t@),
{
    let hash = chars_of("#");
    proof {
        reveal_strlit("#");
    }
    if starts_with_exec(t, &hash) {
        return hex_rgb_exec(&slice_chars(t, 1, t.len()));
    }
    if let Some(n) = named_color_exec(t) {
        return Some(Color::Ansi(n));
    }
    match parse_u8_exec(t) {
        Some(n) => Some(Color::Ansi256(n)),
        None => None,
    }
}

/// Reads a color attribute value, resolving a `$alias` through the
/// `color_alias` configuration option.
pub fn parse_color_exec(t: &Vec<char>, config: &BTreeMap<String, String>) -> (r: Option<Color>)
    ensures
        r == parse_color(t@, config_view(config)),
{
    let dollar = chars_of("$");
    proof {
        reveal_strlit("$");
    }
    if starts_with_exec(t, &dollar) {
        let mut key = chars_of("color_");
        append_chars(&mut key, &slice_chars(t, 1, t.len()));
        assert(key@ == "color_"@ + t@.skip(1));
        let key_string = string_of(&key);
        match config_get(config, key_string.as_str()) {
            Some(v) => color_value_exec(&chars_of(v.as_str())),
            None => None,
        }
    } else {
        color_value_exec(t)
    }
}


// ---------------------------------------------------------------------------
// Styles and their escape sequences
// ---------------------------------------------------------------------------

/// How a part's text is drawn: colors for the text, its background and its
/// underline, and effects.
#[derive(Clone, Copy, Debug, PartialEq, Eq)]
pub struct Style {
    pub fg: Option<Color>,
    pub bg: Option<Color>,
    pub us: Option<Color>,
    pub bold: bool,
    pub dim: bool,
    pub italic: bool,
    pub underscore: bool,
    pub blink: bool,
    pub reverse: bool,
    pub hidden: bool,
    pub strikethrough: bool,
}

/// The style with no color and no effect.
pub open spec fn plain_style() -> Style {
    Style {
        fg: None,
        bg: None,
        us: None,
        bold: false,
        dim: false,
        italic: false,
        underscore: false,
        blink: false,
        reverse: false,
        hidden: false,
        strikethrough: false,
    }
}

impl Style {
    /// The style with no color and no effect.
    pub fn plain() -> (r: Style)
        ensures
            r == plain_style(),
    {
        Style {
            fg: None,
            bg: None,
            us: None,
            bold: false,
            dim: false,
            italic: false,
            underscore: false,
            blink: false,
            reverse: false,
            hidden: false,
            strikethrough: false,
        }
    }

    /// Whether the style has no color and no effect.
    pub fn is_plain(&self) -> (r: bool)
        ensures
            r == (*self == plain_style()),
    {
        self.fg.is_none() && self.bg.is_none() && self.us.is_none() && !self.bold && !self.dim
            && !self.italic && !self.underscore && !self.blink && !self.reverse && !self.hidden
            && !self.strikethrough
    }
}

/// The character of a decimal digit.
pub open spec fn digit_char(d: nat) -> char {
    ((d + 48) as u8) as char
}

/// A number written in decimal.
pub open spec fn decimal(n: nat) -> Seq<char>
    decreases n,
{
    if n < 10 {
        seq![digit_char(n)]
    } else {
        decimal(n / 10).push(digit_char(n % 10))
    }
}

fn digit_char_exec(d: u8) -> (c: char)
    requires
        d < 10,
    ensures
        c == digit_char(d as nat),
{
    (d + 48) as char
}

/// A byte written in decimal.
pub fn decimal_exec(n: u8) -> (r: Vec<char>)
    ensures
        r@ == decimal(n as nat),
{
    let mut r: Vec<char> = Vec::new();
    if n >= 100 {
        r.push(digit_char_exec(n / 100));
    }
    if n >= 10 {
        r.push(digit_char_exec((n / 10) % 10));
    }
    r.push(digit_char_exec(n % 10));
    proof {
        if n >= 100 {
            assert(decimal((n / 100) as nat) == seq![digit_char((n / 100) as nat)]);
            assert(((n / 10) as nat) / 10 == (n / 100) as nat);
            assert(decimal((n / 10) as nat) == decimal((n / 100) as nat).push(
                digit_char(((n / 10) as nat) % 10),
            ));
        } else if n >= 10 {
            assert(decimal((n / 10) as nat) == seq![digit_char((n / 10) as nat)]);
        }
        assert(r@ =~= decimal(n as nat));
    }
    r
}

/// The escape sequence that selects the graphic rendition `params`.
pub open spec fn sgr(params: Seq<char>) -> Seq<char> {
    seq!['\x1b', '['] + params + seq!['m']
}

/// The escape sequence that turns an effect on, when it is set.
pub open spec fn effect_code(on: bool, code: char) -> Seq<char> {
    if on {
        sgr(seq![code])
    } else {
        Seq::empty()
    }
}

/// The escape sequences of the effects of a style, in the order bold, dim,
/// italic, underscore, blink, reverse, hidden, strikethrough.
pub open spec fn effects_codes(st: Style) -> Seq<char> {
    effect_code(st.bold, '1') + effect_code(st.dim, '2') + effect_code(st.italic, '3')
        + effect_code(st.underscore, '4') + effect_code(st.blink, '5') + effect_code(
        st.reverse,
        '7',
    ) + effect_code(st.hidden, '8') + effect_code(st.strikethrough, '9')
}

/// Where a color applies: the text (`3x`/`38`), its background (`4x`/`48`)
/// or its underline (`58`).
#[derive(Clone, Copy, Debug, PartialEq, Eq)]
pub enum Layer {
    Text,
    Background,
    Underline,
}

/// The parameters `38;2;r;g;b` (or `48`, `58`) of a 24-bit color.
pub open spec fn rgb_params(lead: char, r: u8, g: u8, b: u8) -> Seq<char> {
    seq![lead, '8', ';', '2', ';'] + decimal(r as nat) + seq![';'] + decimal(g as nat) + seq![';']
        + decimal(b as nat)
}

/// The parameters `38;5;n` (or `48`, `58`) of a palette color.
pub open spec fn palette_params(lead: char, n: u8) -> Seq<char> {
    seq![lead, '8', ';', '5', ';'] + decimal(n as nat)
}

/// The first digit of the parameters for a layer.
pub open spec fn layer_lead(layer: Layer) -> char {
    match layer {
        Layer::Text => '3',
        Layer::Background => '4',
        Layer::Underline => '5',
    }
}

/// The escape sequence that selects color `c` for `layer`. A basic color
/// on the text or the background has its own short code; on the underline
/// it is selected through the palette.
pub open spec fn color_code(c: Color, layer: Layer) -> Seq<char> {
    let lead = layer_lead(layer);
    match c {
        Color::Ansi(n) => match layer {
            Layer::Text => sgr(decimal((30 + n) as nat)),
            Layer::Background => sgr(decimal((40 + n) as nat)),
            Layer::Underline => sgr(palette_params(lead, n)),
        },
        Color::Ansi256(n) => sgr(palette_params(lead, n)),
        Color::Rgb(r, g, b) => sgr(rgb_params(lead, r, g, b)),
    }
}

/// The escape sequence of an optional color; nothing when it is absent.
pub open spec fn opt_color_code(c: Option<Color>, layer: Layer) -> Seq<char> {
    match c {
        Some(c) => color_code(c, layer),
        None => Seq::empty(),
    }
}

/// Everything written before a text drawn in style `st`: the effects,
/// then the text color, the background color and the underline color.
pub open spec fn style_prefix(st: Style) -> Seq<char> {
    effects_codes(st) + opt_color_code(st.fg, Layer::Text) + opt_color_code(st.bg, Layer::Background)
        + opt_color_code(st.us, Layer::Underline)
}

/// The escape sequence that resets every attribute.
pub open spec fn reset_code() -> Seq<char> {
    sgr(seq!['0'])
}

/// `text` drawn in style `st`: unchanged when the style is plain,
/// otherwise preceded by the style's escape sequences and followed by a
/// reset.
pub open spec fn styled(st: Style, text: Seq<char>) -> Seq<char> {
    if st == plain_style() {
        text
    } else {
        style_prefix(st) + text + reset_code()
    }
}

fn sgr_exec(params: &Vec<char>) -> (r: Vec<char>)
    ensures
        r@ == sgr(params@),
{
    let mut r: Vec<char> = Vec::new();
    r.push('\x1b');
    r.push('[');
    append_chars(&mut r, params);
    r.push('m');
    assert(r@ =~= sgr(params@));
    r
}

fn push_effect(out: &mut Vec<char>, on: bool, code: char)
    ensures
        final(out)@ == old(out)@ + effect_code(on, code),
{
    if on {
        let mut p: Vec<char> = Vec::new();
        p.push(code);
        assert(p@ =~= seq![code]);
        append_chars(out, &sgr_exec(&p));
    } else {
        assert(old(out)@ + effect_code(on, code) =~= old(out)@);
    }
}

fn lead_exec(layer: Layer) -> (c: char)
    ensures
        c == layer_lead(layer),
{
    match layer {
        Layer::Text => '3',
        Layer::Background => '4',
        Layer::Underline => '5',
    }
}

fn color_code_exec(c: Color, layer: Layer) -> (r: Vec<char>)
    ensures
        r@ == color_code(c, layer),
{
    let lead = lead_exec(layer);
    let mut params: Vec<char> = Vec::new();
    match c {
        Color::Ansi(n) if !matches!(layer, Layer::Underline) => {
            let base: u16 = match layer {
                Layer::Text => 30,
                _ => 40,
            };
            params = decimal_wide(base + n as u16);
        },
        Color::Ansi(n) | Color::Ansi256(n) => {
            params.push(lead);
            params.push('8');
            params.push(';');
            params.push('5');
            params.push(';');
            append_chars(&mut params, &decimal_exec(n));
            assert(params@ =~= palette_params(lead, n));
        },
        Color::Rgb(r, g, b) => {
            params.push(lead);
            params.push('8');
            params.push(';');
            params.push('2');
            params.push(';');
            append_chars(&mut params, &decimal_exec(r));
            params.push(';');
            append_chars(&mut params, &decimal_exec(g));
            params.push(';');
            append_chars(&mut params, &decimal_exec(b));
            assert(params@ =~= rgb_params(lead, r, g, b));
        },
    }
    sgr_exec(&params)
}

/// A number below 300 written in decimal.
fn decimal_wide(n: u16) -> (r: Vec<char>)
    requires
        n < 300,
    ensures
        r@ == decimal(n as nat),
{
    let mut r: Vec<char> = Vec::new();
    if n >= 100 {
        r.push(digit_char_exec((n / 100) as u8));
    }
    if n >= 10 {
        r.push(digit_char_exec(((n / 10) % 10) as u8));
    }
    r.push(digit_char_exec((n % 10) as u8));
    proof {
        if n >= 100 {
            assert(decimal((n / 100) as nat) == seq![digit_char((n / 100) as nat)]);
            assert(((n / 10) as nat) / 10 == (n / 100) as nat);
            assert(decimal((n / 10) as nat) == decimal((n / 100) as nat).push(
                digit_char(((n / 10) as nat) % 10),
            ));
        } else if n >= 10 {
            assert(decimal((n / 10) as nat) == seq![digit_char((n / 10) as nat)]);
        }
        assert(r@ =~= decimal(n as nat));
    }
    r
}

fn push_color(out: &mut Vec<char>, c: Option<Color>, layer: Layer)
    ensures
        final(out)@ == old(out)@ + opt_color_code(c, layer),
{
    match c {
        Some(c) => append_chars(out, &color_code_exec(c, layer)),
        None => {
            assert(old(out)@ + opt_color_code(None, layer) =~= old(out)@);
        },
    }
}

/// The escape sequences written before a text drawn in `st`.
pub fn style_prefix_exec(st: &Style) -> (r: Vec<char>)
    ensures
        r@ == style_prefix(*st),
{
    let mut r: Vec<char> = Vec::new();
    push_effect(&mut r, st.bold, '1');
    push_effect(&mut r, st.dim, '2');
    push_effect(&mut r, st.italic, '3');
    push_effect(&mut r, st.underscore, '4');
    push_effect(&mut r, st.blink, '5');
    push_effect(&mut r, st.reverse, '7');
    push_effect(&mut r, st.hidden, '8');
    push_effect(&mut r, st.strikethrough, '9');
    assert(r@ =~= effects_codes(*st));
    push_color(&mut r, st.fg, Layer::Text);
    push_color(&mut r, st.bg, Layer::Background);
    push_color(&mut r, st.us, Layer::Underline);
    r
}

/// `text` drawn in style `st`.
pub fn styled_exec(st: &Style, text: &Vec<char>) -> (r: Vec<char>)
    ensures
        r@ == styled(*st, text@),
{
    if st.is_plain() {
        return text.clone();
    }
    let mut r = style_prefix_exec(st);
    append_chars(&mut r, text);
    let mut zero: Vec<char> = Vec::new();
    zero.push('0');
    assert(zero@ =~= seq!['0']);
    append_chars(&mut r, &sgr_exec(&zero));
    r
}


// ---------------------------------------------------------------------------
// Format strings
// ---------------------------------------------------------------------------

/// A style attribute applied to a style: `fg=`, `bg=` and `us=` set a color
/// (or clear it when the value is no color); an effect word turns that
/// effect on; anything else is ignored.
pub open spec fn apply_attr(st: Style, a: Seq<char>, cfg: Map<Seq<char>, Seq<char>>) -> Style {
    if starts_with(a, "fg="@) {
        Style { fg: parse_color(a.skip(3), cfg), ..st }
    } else if starts_with(a, "bg="@) {
        Style { bg: parse_color(a.skip(3), cfg), ..st }
    } else if starts_with(a, "us="@) {
        Style { us: parse_color(a.skip(3), cfg), ..st }
    } else if a == "bold"@ {
        Style { bold: true, ..st }
    } else if a == "dim"@ {
        Style { dim: true, ..st }
    } else if a == "italic"@ {
        Style { italic: true, ..st }
    } else if a == "underscore"@ {
        Style { underscore: true, ..st }
    } else if a == "blink"@ {
        Style { blink: true, ..st }
    } else if a == "reverse"@ {
        Style { reverse: true, ..st }
    } else if a == "hidden"@ {
        Style { hidden: true, ..st }
    } else if a == "strikethrough"@ {
        Style { strikethrough: true, ..st }
    } else {
        st
    }
}

/// The attributes applied one after the other, from the first.
pub open spec fn apply_attrs(st: Style, attrs: Seq<Seq<char>>, cfg: Map<Seq<char>, Seq<char>>) -> Style
    decreases attrs.len(),
{
    if attrs.len() == 0 {
        st
    } else {
        apply_attrs(apply_attr(st, attrs[0], cfg), attrs.drop_first(), cfg)
    }
}

/// A part's text without its leading `#[`, if it has one.
pub open spec fn strip_open(f: Seq<char>) -> Seq<char> {
    if starts_with(f, "#["@) {
        f.skip(2)
    } else {
        f
    }
}

/// The style of a part: plain when its text has no `]`; otherwise the
/// comma-separated attributes before the first `]`, applied to the plain
/// style.
pub open spec fn part_style(format: Seq<char>, cfg: Map<Seq<char>, Seq<char>>) -> Style {
    let f = strip_open(format);
    let pieces = split(f, "]"@);
    if pieces.len() == 1 {
        plain_style()
    } else {
        apply_attrs(plain_style(), split(pieces[0], ","@), cfg)
    }
}

/// The content of a part: its whole text when it has no `]`; otherwise
/// everything after the first `]`.
pub open spec fn part_content(format: Seq<char>) -> Seq<char> {
    let f = strip_open(format);
    let pieces = split(f, "]"@);
    if pieces.len() == 1 {
        f
    } else {
        f.skip(pieces[0].len() + 1int)
    }
}

/// A parsed part, as values.
pub struct PartView {
    pub style: Style,
    pub content: Seq<char>,
}

/// The part that a piece of a format string describes.
pub open spec fn parse_part(format: Seq<char>, cfg: Map<Seq<char>, Seq<char>>) -> PartView {
    PartView { style: part_style(format, cfg), content: part_content(format) }
}

/// The parts of a format string: one for every piece between the `#[`
/// markers, in order.
pub open spec fn parse_parts(format: Seq<char>, cfg: Map<Seq<char>, Seq<char>>) -> Seq<PartView> {
    split(format, "#["@).map_values(|piece: Seq<char>| parse_part(piece, cfg))
}

/// A piece of a format string: a style and the content it applies to.
#[derive(Debug)]
pub struct FormattedPart {
    pub style: Style,
    pub content: String,
}

impl View for FormattedPart {
    type V = PartView;

    open spec fn view(&self) -> PartView {
        PartView { style: self.style, content: self.content@ }
    }
}

/// The values of a list of parts.
pub open spec fn parts_view(parts: Seq<FormattedPart>) -> Seq<PartView> {
    parts.map_values(|p: FormattedPart| p@)
}

fn set_effect(st: &mut Style, a: &Vec<char>, config: &BTreeMap<String, String>)
    ensures
        !starts_with(a@, "fg="@) && !starts_with(a@, "bg="@) && !starts_with(a@, "us="@)
            ==> *final(st) == apply_attr(*old(st), a@, config_view(config)),
{
    if chars_eq(a, &chars_of("bold")) {
        st.bold = true;
    } else if chars_eq(a, &chars_of("dim")) {
        st.dim = true;
    } else if chars_eq(a, &chars_of("italic")) {
        st.italic = true;
    } else if chars_eq(a, &chars_of("underscore")) {
        st.underscore = true;
    } else if chars_eq(a, &chars_of("blink")) {
        st.blink = true;
    } else if chars_eq(a, &chars_of("reverse")) {
        st.reverse = true;
    } else if chars_eq(a, &chars_of("hidden")) {
        st.hidden = true;
    } else if chars_eq(a, &chars_of("strikethrough")) {
        st.strikethrough = true;
    }
}

/// Applies one style attribute to `st`.
pub fn apply_attr_exec(st: &mut Style, a: &Vec<char>, config: &BTreeMap<String, String>)
    ensures
        *final(st) == apply_attr(*old(st), a@, config_view(config)),
{
    proof {
        reveal_strlit("fg=");
        reveal_strlit("bg=");
        reveal_strlit("us=");
    }
    if starts_with_exec(a, &chars_of("fg=")) {
        st.fg = parse_color_exec(&slice_chars(a, 3, a.len()), config);
    } else if starts_with_exec(a, &chars_of("bg=")) {
        st.bg = parse_color_exec(&slice_chars(a, 3, a.len()), config);
    } else if starts_with_exec(a, &chars_of("us=")) {
        st.us = parse_color_exec(&slice_chars(a, 3, a.len()), config);
    } else {
        set_effect(st, a, config);
    }
}

/// The style that a list of attributes gives the plain style.
pub fn apply_attrs_exec(attrs: &Vec<Vec<char>>, config: &BTreeMap<String, String>) -> (st: Style)
    ensures
        st == apply_attrs(plain_style(), views(attrs@), config_view(config)),
{
    let mut st = Style::plain();
    let mut i: usize = 0;
    assert(views(attrs@).skip(0) =~= views(attrs@));
    while i < attrs.len()
        invariant
            i <= attrs.len(),
            apply_attrs(plain_style(), views(attrs@), config_view(config)) == apply_attrs(
                st,
                views(attrs@).skip(i as int),
                config_view(config),
            ),
        decreases attrs.len() - i,
    {
        let ghost rest = views(attrs@).skip(i as int);
        assert(rest[0] == attrs@[i as int]@);
        assert(rest.drop_first() =~= views(attrs@).skip(i + 1));
        apply_attr_exec(&mut st, &attrs[i], config);
        i = i + 1;
    }
    st
}

impl FormattedPart {
    /// The part described by one piece of a format string, given as
    /// characters.
    pub fn from_format_chars(format: &Vec<char>, config: &BTreeMap<String, String>) -> (r:
        FormattedPart)
        ensures
            r@ == parse_part(format@, config_view(config)),
    {
        proof {
            reveal_strlit("#[");
            reveal_strlit("]");
            reveal_strlit(",");
        }
        let f = if starts_with_exec(format, &chars_of("#[")) {
            slice_chars(format, 2, format.len())
        } else {
            format.clone()
        };
        assert(f@ == strip_open(format@));
        let close = chars_of("]");
        let pieces = split_exec(&f, &close);
        proof {
            lemma_split_nonempty(f@, close@);
        }
        if pieces.len() == 1 {
            return FormattedPart { style: Style::plain(), content: string_of(&f) };
        }
        let attrs = split_exec(&pieces[0], &chars_of(","));
        let style = apply_attrs_exec(&attrs, config);
        proof {
            lemma_split_head(f@, close@);
        }
        let head_len = pieces[0].len();
        let content = slice_chars(&f, head_len + 1, f.len());
        assert(content@ =~= f@.skip(head_len + 1));
        FormattedPart { style, content: string_of(&content) }
    }

    /// The part described by one piece of a format string.
    pub fn from_format_string(format: &str, config: &BTreeMap<String, String>) -> (r:
        FormattedPart)
        ensures
            r@ == parse_part(format@, config_view(config)),
    {
        Self::from_format_chars(&chars_of(format), config)
    }

    /// The parts of a format string, one for every piece between the `#[`
    /// markers.
    pub fn multiple_from_format_string(format: &str, config: &BTreeMap<String, String>) -> (r: Vec<
        FormattedPart,
    >)
        ensures
            parts_view(r@) == parse_parts(format@, config_view(config)),
    {
        proof {
            reveal_strlit("#[");
        }
        let pieces = split_exec(&chars_of(format), &chars_of("#["));
        let ghost cfg = config_view(config);
        let mut parts: Vec<FormattedPart> = Vec::new();
        let mut i: usize = 0;
        while i < pieces.len()
            invariant
                i <= pieces.len(),
                cfg == config_view(config),
                views(pieces@) == split(format@, "#["@),
                parts_view(parts@) == views(pieces@).take(i as int).map_values(
                    |piece: Seq<char>| parse_part(piece, cfg),
                ),
            decreases pieces.len() - i,
        {
            let part = Self::from_format_chars(&pieces[i], config);
            let ghost before = parts_view(parts@);
            let ghost pv = part@;
            assert(views(pieces@)[i as int] == pieces@[i as int]@);
            parts.push(part);
            assert(parts_view(parts@) =~= before.push(pv));
            assert(views(pieces@).take(i + 1) =~= views(pieces@).take(i as int).push(
                views(pieces@)[i as int],
            ));
            i = i + 1;
            assert(parts_view(parts@) =~= views(pieces@).take(i as int).map_values(
                |piece: Seq<char>| parse_part(piece, cfg),
            ));
        }
        assert(views(pieces@).take(pieces.len() as int) =~= views(pieces@));
        parts
    }

    /// `text` drawn in this part's style.
    pub fn format_chars(&self, text: &Vec<char>) -> (r: Vec<char>)
        ensures
            r@ == styled(self.style, text@),
    {
        styled_exec(&self.style, text)
    }

    /// `text` drawn in this part's style.
    pub fn format_string(&self, text: &str) -> (r: String)
        ensures
            r@ == styled(self.style, text@),
    {
        string_of(&self.format_chars(&chars_of(text)))
    }
}


// ---------------------------------------------------------------------------
// Placeholders
// ---------------------------------------------------------------------------

/// `content` with the placeholder replaced by `value` when it occurs.
pub open spec fn substitute(content: Seq<char>, placeholder: Seq<char>, value: Seq<char>) -> Seq<
    char,
> {
    if contains(content, placeholder) {
        replace_all(content, placeholder, value)
    } else {
        content
    }
}

/// The parts drawn one after the other, each with the placeholder in its
/// content replaced by `value`.
pub open spec fn render_with(parts: Seq<PartView>, placeholder: Seq<char>, value: Seq<char>) -> Seq<
    char,
>
    decreases parts.len(),
{
    if parts.len() == 0 {
        Seq::empty()
    } else {
        render_with(parts.drop_last(), placeholder, value) + styled(
            parts.last().style,
            substitute(parts.last().content, placeholder, value),
        )
    }
}

/// `content` with the non-empty placeholder replaced by `value` when it
/// occurs.
pub fn substitute_exec(content: &Vec<char>, placeholder: &Vec<char>, value: &Vec<char>) -> (r: Vec<
    char,
>)
    requires
        placeholder.len() > 0,
    ensures
        r@ == substitute(content@, placeholder@, value@),
{
    if contains_exec(content, placeholder) {
        replace_exec(content, placeholder, value)
    } else {
        content.clone()
    }
}

/// The parts drawn one after the other, each with the non-empty
/// placeholder in its content replaced by `value`.
pub fn render_with_exec(parts: &Vec<FormattedPart>, placeholder: &Vec<char>, value: &Vec<char>) -> (r:
    Vec<char>)
    requires
        placeholder.len() > 0,
    ensures
        r@ == render_with(parts_view(parts@), placeholder@, value@),
{
    let mut out: Vec<char> = Vec::new();
    let mut i: usize = 0;
    while i < parts.len()
        invariant
            placeholder.len() > 0,
            i <= parts.len(),
            out@ == render_with(parts_view(parts@).take(i as int), placeholder@, value@),
        decreases parts.len() - i,
    {
        let f = &parts[i];
        let content = substitute_exec(&chars_of(f.content.as_str()), placeholder, value);
        append_chars(&mut out, &f.format_chars(&content));
        proof {
            let pv = parts_view(parts@);
            assert(pv.take(i + 1).drop_last() =~= pv.take(i as int));
            assert(pv.take(i + 1).last() == parts@[i as int]@);
        }
        i = i + 1;
    }
    assert(parts_view(parts@).take(parts.len() as int) =~= parts_view(parts@));
    out
}


// ---------------------------------------------------------------------------
// Laws
// ---------------------------------------------------------------------------

/// A text drawn in the plain style is the text itself.
pub proof fn lemma_plain_style_keeps_text(text: Seq<char>)
    ensures
        styled(plain_style(), text) == text,
{
}

/// A text drawn in any other style still holds the text, and is longer
/// than it, so it differs from it.
pub proof fn lemma_styled_text_wraps(st: Style, text: Seq<char>)
    requires
        st != plain_style(),
    ensures
        contains(styled(st, text), text),
        styled(st, text).len() > text.len(),
        styled(st, text) != text,
{
    let out = styled(st, text);
    let pre = style_prefix(st);
    assert(out == pre + text + reset_code());
    assert(out.subrange(pre.len() as int, (pre.len() + text.len()) as int) =~= text);
    assert(occurs_at(out, text, pre.len() as int));
}

/// The content of a part with attributes is, as the pieces after the first
/// `]` joined again with `]`, everything after the first `]`.
pub proof fn lemma_part_content_is_rest(format: Seq<char>)
    requires
        split(strip_open(format), "]"@).len() >= 2,
    ensures
        part_content(format) == join(split(strip_open(format), "]"@).drop_first(), "]"@),
{
    reveal_strlit("]");
    lemma_split_head(strip_open(format), "]"@);
}

/// A format string with no `#[` and no `]` is one plain part whose content
/// is the whole string.
pub proof fn lemma_plain_format_string(format: Seq<char>, cfg: Map<Seq<char>, Seq<char>>)
    requires
        !contains(format, "#["@),
        !contains(format, "]"@),
    ensures
        parse_parts(format, cfg) == seq![PartView { style: plain_style(), content: format }],
{
    reveal_strlit("#[");
    reveal_strlit("]");
    lemma_split_absent(format, "#["@);
    if starts_with(format, "#["@) {
        lemma_starts_with_contains(format, "#["@);
    }
    assert(strip_open(format) == format);
    lemma_split_absent(format, "]"@);
    assert(parse_parts(format, cfg) =~= seq![parse_part(format, cfg)]);
}

/// Drawing plain parts whose contents do not hold the placeholder gives
/// their contents one after the other.
pub proof fn lemma_render_plain_parts(parts: Seq<PartView>, placeholder: Seq<char>, value: Seq<char>)
    requires
        forall|i: int|
            0 <= i < parts.len() ==> (#[trigger] parts[i]).style == plain_style() && !contains(
                parts[i].content,
                placeholder,
            ),
    ensures
        render_with(parts, placeholder, value) == parts.fold_left(
            Seq::<char>::empty(),
            |acc: Seq<char>, p: PartView| acc + p.content,
        ),
    decreases parts.len(),
{
    if parts.len() > 0 {
        let init = parts.drop_last();
        assert forall|i: int| 0 <= i < init.len() implies (#[trigger] init[i]).style
            == plain_style() && !contains(init[i].content, placeholder) by {
            assert(init[i] == parts[i]);
        }
        lemma_render_plain_parts(init, placeholder, value);
        assert(parts[parts.len() - 1] == parts.last());
    }
}


/// Drawing parts with a placeholder filled in is the concatenation, over the
/// parts in order, of each part's own style applied to its filled content.
pub proof fn lemma_render_with_each_part(parts: Seq<PartView>, placeholder: Seq<char>, value: Seq<char>)
    ensures
        render_with(parts, placeholder, value) == parts.fold_left(
            Seq::<char>::empty(),
            |acc: Seq<char>, p: PartView| acc + styled(p.style, substitute(p.content, placeholder, value)),
        ),
    decreases parts.len(),
{
    if parts.len() > 0 {
        lemma_render_with_each_part(parts.drop_last(), placeholder, value);
    }
}

proof fn lemma_sgr_nonempty(params: Seq<char>)
    ensures
        sgr(params).len() > 0,
{
}

proof fn lemma_color_code_nonempty(c: Color, layer: Layer)
    ensures
        color_code(c, layer).len() > 0,
{
    match c {
        Color::Ansi(n) => match layer {
            Layer::Text => lemma_sgr_nonempty(decimal((30 + n) as nat)),
            Layer::Background => lemma_sgr_nonempty(decimal((40 + n) as nat)),
            Layer::Underline => lemma_sgr_nonempty(palette_params(layer_lead(layer), n)),
        },
        Color::Ansi256(n) => lemma_sgr_nonempty(palette_params(layer_lead(layer), n)),
        Color::Rgb(r, g, b) => lemma_sgr_nonempty(rgb_params(layer_lead(layer), r, g, b)),
    }
}

/// A text drawn in a style other than the plain one is the style's escape
/// sequences, which are not empty, the text, then a reset.
pub proof fn lemma_styled_is_wrapped(st: Style, text: Seq<char>)
    requires
        st != plain_style(),
    ensures
        styled(st, text) == style_prefix(st) + text + reset_code(),
        style_prefix(st).len() > 0,
{
    let e = effects_codes(st);
    let f = opt_color_code(st.fg, Layer::Text);
    let b = opt_color_code(st.bg, Layer::Background);
    let u = opt_color_code(st.us, Layer::Underline);
    assert(style_prefix(st) == e + f + b + u);
    assert(style_prefix(st).len() == e.len() + f.len() + b.len() + u.len());
    if st.fg is Some {
        lemma_color_code_nonempty(st.fg->0, Layer::Text);
    } else if st.bg is Some {
        lemma_color_code_nonempty(st.bg->0, Layer::Background);
    } else if st.us is Some {
        lemma_color_code_nonempty(st.us->0, Layer::Underline);
    } else {
        lemma_sgr_nonempty(seq!['1']);
        assert(e.len() > 0);
    }
}

} // verus!

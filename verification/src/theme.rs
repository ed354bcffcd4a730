//! The colour palette: the CRT-green fallback, reading the theme's
//! `#rrggbb` colours over it, and which palette slot each kind of contact
//! and each climb/descent trend is drawn in.

use vstd::prelude::*;
use vstd::utf8::is_ascii_chars;
use crate::aircraft::AircraftKind;
use crate::text::{trim, trim_str};

verus! {

/// A 24-bit colour.
#[derive(Debug, Clone, Copy, PartialEq, Eq)]
pub struct Rgb {
    pub r: u8,
    pub g: u8,
    pub b: u8,
}

pub open spec fn rgb(r: u8, g: u8, b: u8) -> Rgb {
    Rgb { r, g, b }
}

#[derive(Debug, Clone, Copy, PartialEq, Eq)]
pub struct Palette {
    pub background: Rgb,
    pub foreground: Rgb,
    pub accent: Rgb,
    pub muted: Rgb,
    pub alert: Rgb,
    pub climb: Rgb,
    pub descent: Rgb,
    pub regional: Rgb,
    pub business_jet: Rgb,
    pub private: Rgb,
    pub helicopter: Rgb,
}

/// The classic CRT-green palette used when the theme file is missing or
/// unreadable.
pub open spec fn default_palette() -> Palette {
    Palette {
        background: rgb(0, 0, 0),
        foreground: rgb(0, 255, 0),
        accent: rgb(0, 255, 0),
        muted: rgb(80, 80, 80),
        alert: rgb(255, 0, 0),
        climb: rgb(0, 255, 0),
        descent: rgb(255, 255, 0),
        regional: rgb(0, 170, 255),
        business_jet: rgb(255, 0, 255),
        private: rgb(0, 255, 255),
        helicopter: rgb(255, 165, 0),
    }
}

impl Default for Palette {
    fn default() -> (p: Self)
        ensures
            p == default_palette(),
    {
        Palette {
            background: Rgb { r: 0, g: 0, b: 0 },
            foreground: Rgb { r: 0, g: 255, b: 0 },
            accent: Rgb { r: 0, g: 255, b: 0 },
            muted: Rgb { r: 80, g: 80, b: 80 },
            alert: Rgb { r: 255, g: 0, b: 0 },
            climb: Rgb { r: 0, g: 255, b: 0 },
            descent: Rgb { r: 255, g: 255, b: 0 },
            regional: Rgb { r: 0, g: 170, b: 255 },
            business_jet: Rgb { r: 255, g: 0, b: 255 },
            private: Rgb { r: 0, g: 255, b: 255 },
            helicopter: Rgb { r: 255, g: 165, b: 0 },
        }
    }
}

/// `s` without its leading `'#'` characters.
pub open spec fn strip_hashes(s: Seq<char>) -> Seq<char>
    decreases s.len(),
{
    if s.len() > 0 && s[0] == '#' {
        strip_hashes(s.drop_first())
    } else {
        s
    }
}

/// The digits of a colour string: trimmed, then without leading `'#'`s.
pub open spec fn hex_body(s: Seq<char>) -> Seq<char> {
    strip_hashes(trim(s))
}

/// The value of a base-16 digit.
pub open spec fn hex_digit(c: char) -> Option<u8> {
    let u = c as u32;
    if 0x30 <= u <= 0x39 {
        Some((u - 0x30) as u8)
    } else if 0x61 <= u <= 0x66 {
        Some((u - 0x61 + 10) as u8)
    } else if 0x41 <= u <= 0x46 {
        Some((u - 0x41 + 10) as u8)
    } else {
        None
    }
}

/// `u8::from_str_radix` in base 16 on a two-character string: an optional
/// `'+'` followed by digits.
pub open spec fn byte_from_pair(a: char, b: char) -> Option<u8> {
    if a == '+' {
        hex_digit(b)
    } else {
        match (hex_digit(a), hex_digit(b)) {
            (Some(x), Some(y)) => Some((16 * x + y) as u8),
            _ => None,
        }
    }
}

/// The colour a `#rrggbb` string denotes, if any.
pub open spec fn spec_parse_hex(s: Seq<char>) -> Option<Rgb> {
    let d = hex_body(s);
    if d.len() == 6 && is_ascii_chars(d) {
        match (byte_from_pair(d[0], d[1]), byte_from_pair(d[2], d[3]), byte_from_pair(d[4], d[5])) {
            (Some(r), Some(g), Some(b)) => Some(rgb(r, g, b)),
            _ => None,
        }
    } else {
        None
    }
}

fn strip_hashes_str(s: &str) -> (r: &str)
    ensures
        r@ == strip_hashes(s@),
{
    let n = s.unicode_len();
    let mut i: usize = 0;
    assert(s@.subrange(0, n as int) =~= s@);
    while i < n && s.get_char(i) == '#'
        invariant
            n == s@.len(),
            i <= n,
            strip_hashes(s@) == strip_hashes(s@.subrange(i as int, n as int)),
        decreases n - i,
    {
        assert(s@.subrange(i as int, n as int).drop_first() =~= s@.subrange(i + 1, n as int));
        i = i + 1;
    }
    s.substring_char(i, n)
}

fn hex_digit_exec(c: char) -> (r: Option<u8>)
    ensures
        r == hex_digit(c),
{
    let u = c as u32;
    if 0x30 <= u && u <= 0x39 {
        Some((u - 0x30) as u8)
    } else if 0x61 <= u && u <= 0x66 {
        Some((u - 0x61 + 10) as u8)
    } else if 0x41 <= u && u <= 0x46 {
        Some((u - 0x41 + 10) as u8)
    } else {
        None
    }
}

fn byte_from_pair_exec(a: char, b: char) -> (r: Option<u8>)
    ensures
        r == byte_from_pair(a, b),
{
    if a == '+' {
        hex_digit_exec(b)
    } else {
        match (hex_digit_exec(a), hex_digit_exec(b)) {
            (Some(x), Some(y)) => Some(16 * x + y),
            _ => None,
        }
    }
}

/// Reads a `#rrggbb` colour (surrounding whitespace and any number of
/// leading `'#'` allowed).
pub fn parse_hex(s: &str) -> (r: Option<Rgb>)
    ensures
        r == spec_parse_hex(s@),
{
    let d = strip_hashes_str(trim_str(s));
    if d.unicode_len() != 6 || !d.is_ascii() {
        return None;
    }
    let r = byte_from_pair_exec(d.get_char(0), d.get_char(1));
    let g = byte_from_pair_exec(d.get_char(2), d.get_char(3));
    let b = byte_from_pair_exec(d.get_char(4), d.get_char(5));
    match (r, g, b) {
        (Some(r), Some(g), Some(b)) => Some(Rgb { r, g, b }),
        _ => None,
    }
}

/// The colour slots of the theme file, as text; any may be absent.
#[derive(Debug)]
pub struct RawColors {
    pub background: Option<String>,
    pub foreground: Option<String>,
    pub accent: Option<String>,
    pub muted: Option<String>,
    pub red: Option<String>,
    pub green: Option<String>,
    pub yellow: Option<String>,
    pub orange: Option<String>,
    pub cyan: Option<String>,
    pub blue: Option<String>,
    pub magenta: Option<String>,
}

impl Clone for RawColors {
    fn clone(&self) -> (r: Self)
        ensures
            r == *self,
    {
        RawColors {
            background: self.background.clone(),
            foreground: self.foreground.clone(),
            accent: self.accent.clone(),
            muted: self.muted.clone(),
            red: self.red.clone(),
            green: self.green.clone(),
            yellow: self.yellow.clone(),
            orange: self.orange.clone(),
            cyan: self.cyan.clone(),
            blue: self.blue.clone(),
            magenta: self.magenta.clone(),
        }
    }
}

/// A slot's colour, or `fallback` when it is absent or not a colour.
pub open spec fn slot_or(o: Option<String>, fallback: Rgb) -> Rgb {
    match o {
        Some(s) => match spec_parse_hex(s@) {
            Some(c) => c,
            None => fallback,
        },
        None => fallback,
    }
}

/// The palette a theme file yields (`None`: no readable file), each slot
/// falling back to the default palette on its own.
pub open spec fn spec_palette_from(raw: Option<RawColors>) -> Palette {
    let d = default_palette();
    match raw {
        None => d,
        Some(raw) => Palette {
            background: slot_or(raw.background, d.background),
            foreground: slot_or(raw.foreground, d.foreground),
            accent: slot_or(raw.accent, d.accent),
            muted: slot_or(raw.muted, d.muted),
            alert: slot_or(raw.red, d.alert),
            climb: slot_or(raw.green, d.climb),
            descent: slot_or(raw.yellow, d.descent),
            regional: slot_or(raw.blue, d.regional),
            business_jet: slot_or(raw.magenta, d.business_jet),
            private: slot_or(raw.cyan, d.private),
            helicopter: slot_or(raw.orange, d.helicopter),
        },
    }
}

fn read_slot(o: &Option<String>, fallback: Rgb) -> (r: Rgb)
    ensures
        r == slot_or(*o, fallback),
{
    match o {
        Some(s) => match parse_hex(s.as_str()) {
            Some(c) => c,
            None => fallback,
        },
        None => fallback,
    }
}

/// The palette from a parsed theme file (`None` when the file is missing
/// or not valid TOML): the theme's `red` is the alert colour, `green`
/// climb, `yellow` descent, `blue` regional, `magenta` business jet,
/// `cyan` private, `orange` helicopter; any slot that is absent or not a
/// colour keeps its default.
pub fn palette_from_raw(raw: Option<RawColors>) -> (p: Palette)
    ensures
        p == spec_palette_from(raw),
{
    let fallback = Palette::default();
    match raw {
        None => fallback,
        Some(raw) => Palette {
            background: read_slot(&raw.background, fallback.background),
            foreground: read_slot(&raw.foreground, fallback.foreground),
            accent: read_slot(&raw.accent, fallback.accent),
            muted: read_slot(&raw.muted, fallback.muted),
            alert: read_slot(&raw.red, fallback.alert),
            climb: read_slot(&raw.green, fallback.climb),
            descent: read_slot(&raw.yellow, fallback.descent),
            regional: read_slot(&raw.blue, fallback.regional),
            business_jet: read_slot(&raw.magenta, fallback.business_jet),
            private: read_slot(&raw.cyan, fallback.private),
            helicopter: read_slot(&raw.orange, fallback.helicopter),
        },
    }
}

/// Which way a contact's altitude is moving, by the +/-100 ft/min
/// "level" threshold.
#[derive(Debug, Clone, Copy, PartialEq, Eq)]
pub enum ClimbTrend {
    /// Climbing faster than 100 ft/min.
    Climbing,
    /// Descending faster than 100 ft/min.
    Descending,
    /// Within +/-100 ft/min, or no rate reported.
    Level,
}

impl Palette {
    pub open spec fn spec_kind_color(&self, kind: AircraftKind) -> Rgb {
        match kind {
            AircraftKind::Airliner | AircraftKind::Unknown => self.foreground,
            AircraftKind::Regional => self.regional,
            AircraftKind::BusinessJet => self.business_jet,
            AircraftKind::Private => self.private,
            AircraftKind::Helicopter => self.helicopter,
        }
    }

    pub open spec fn spec_climb_rate_color(&self, trend: ClimbTrend) -> Option<Rgb> {
        match trend {
            ClimbTrend::Climbing => Some(self.climb),
            ClimbTrend::Descending => Some(self.descent),
            ClimbTrend::Level => None,
        }
    }

    /// Label colour for a contact of this kind; airliners and unknown
    /// contacts stay in the foreground colour.
    pub fn kind_color(&self, kind: AircraftKind) -> (c: Rgb)
        ensures
            c == self.spec_kind_color(kind),
    {
        match kind {
            AircraftKind::Airliner | AircraftKind::Unknown => self.foreground,
            AircraftKind::Regional => self.regional,
            AircraftKind::BusinessJet => self.business_jet,
            AircraftKind::Private => self.private,
            AircraftKind::Helicopter => self.helicopter,
        }
    }

    /// Colour of the climb/descent arrow; `None` when level (no arrow).
    pub fn climb_rate_color(&self, trend: ClimbTrend) -> (c: Option<Rgb>)
        ensures
            c == self.spec_climb_rate_color(trend),
    {
        match trend {
            ClimbTrend::Climbing => Some(self.climb),
            ClimbTrend::Descending => Some(self.descent),
            ClimbTrend::Level => None,
        }
    }
}

/// Whether the theme file must be read again: its modification time
/// (nanoseconds from the Unix epoch; `None` when it cannot be read) is
/// known and differs from the one last seen.
pub fn theme_changed(current: Option<i128>, last: Option<i128>) -> (r: bool)
    ensures
        r == (current is Some && current != last),
{
    match (current, last) {
        (None, _) => false,
        (Some(c), Some(l)) => c != l,
        (Some(_), None) => true,
    }
}


/// The colour a theme value denotes, if it is present and reads as one.
pub open spec fn theme_colour(o: Option<String>) -> Option<Rgb> {
    match o {
        Some(s) => spec_parse_hex(s@),
        None => None,
    }
}

/// Each palette slot takes the colour of its own theme key when that key
/// holds a colour, and keeps the default otherwise: background, foreground,
/// accent and muted from the keys of the same name; the alert colour from
/// `red`, climb from `green`, descent from `yellow`, regional from `blue`,
/// business jet from `magenta`, private from `cyan` and helicopter from
/// `orange`.
pub proof fn lemma_palette_slot_sources(raw: RawColors)
    ensures
        ({
            let p = spec_palette_from(Some(raw));
            let d = default_palette();
            &&& theme_colour(raw.background) == Some(p.background) || (theme_colour(raw.background) is None
                && p.background == d.background)
            &&& theme_colour(raw.foreground) == Some(p.foreground) || (theme_colour(raw.foreground) is None
                && p.foreground == d.foreground)
            &&& theme_colour(raw.accent) == Some(p.accent) || (theme_colour(raw.accent) is None && p.accent
                == d.accent)
            &&& theme_colour(raw.muted) == Some(p.muted) || (theme_colour(raw.muted) is None && p.muted
                == d.muted)
            &&& theme_colour(raw.red) == Some(p.alert) || (theme_colour(raw.red) is None && p.alert
                == d.alert)
            &&& theme_colour(raw.green) == Some(p.climb) || (theme_colour(raw.green) is None && p.climb
                == d.climb)
            &&& theme_colour(raw.yellow) == Some(p.descent) || (theme_colour(raw.yellow) is None
                && p.descent == d.descent)
            &&& theme_colour(raw.blue) == Some(p.regional) || (theme_colour(raw.blue) is None
                && p.regional == d.regional)
            &&& theme_colour(raw.magenta) == Some(p.business_jet) || (theme_colour(raw.magenta) is None
                && p.business_jet == d.business_jet)
            &&& theme_colour(raw.cyan) == Some(p.private) || (theme_colour(raw.cyan) is None
                && p.private == d.private)
            &&& theme_colour(raw.orange) == Some(p.helicopter) || (theme_colour(raw.orange) is None
                && p.helicopter == d.helicopter)
        }),
{
}


/// Contacts are drawn in their theme key's colour when it holds one:
/// airliners and unknown contacts in `foreground`, regional in `blue`,
/// business jets in `magenta`, private in `cyan`, helicopters in `orange`;
/// climbing contacts are marked in `green` and descending ones in `yellow`.
pub proof fn lemma_drawn_in_theme_colours(raw: RawColors)
    ensures
        ({
            let p = spec_palette_from(Some(raw));
            &&& theme_colour(raw.foreground) is Some ==> p.spec_kind_color(AircraftKind::Airliner)
                == theme_colour(raw.foreground)->0 && p.spec_kind_color(AircraftKind::Unknown)
                == theme_colour(raw.foreground)->0
            &&& theme_colour(raw.blue) is Some ==> p.spec_kind_color(AircraftKind::Regional)
                == theme_colour(raw.blue)->0
            &&& theme_colour(raw.magenta) is Some ==> p.spec_kind_color(AircraftKind::BusinessJet)
                == theme_colour(raw.magenta)->0
            &&& theme_colour(raw.cyan) is Some ==> p.spec_kind_color(AircraftKind::Private)
                == theme_colour(raw.cyan)->0
            &&& theme_colour(raw.orange) is Some ==> p.spec_kind_color(AircraftKind::Helicopter)
                == theme_colour(raw.orange)->0
            &&& theme_colour(raw.green) is Some ==> p.spec_climb_rate_color(ClimbTrend::Climbing)
                == theme_colour(raw.green)
            &&& theme_colour(raw.yellow) is Some ==> p.spec_climb_rate_color(ClimbTrend::Descending)
                == theme_colour(raw.yellow)
            &&& p.spec_climb_rate_color(ClimbTrend::Level) is None
        }),
{
}

} // verus!

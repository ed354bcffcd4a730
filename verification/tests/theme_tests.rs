use flyover::aircraft::AircraftKind;
use flyover::theme::{palette_from_raw, parse_hex, theme_changed, ClimbTrend, Palette, RawColors, Rgb};

fn rgb(r: u8, g: u8, b: u8) -> Rgb {
    Rgb { r, g, b }
}

fn empty_raw() -> RawColors {
    RawColors {
        background: None,
        foreground: None,
        accent: None,
        muted: None,
        red: None,
        green: None,
        yellow: None,
        orange: None,
        cyan: None,
        blue: None,
        magenta: None,
    }
}

#[test]
fn parse_hex_accepts_theme_colours() {
    assert_eq!(parse_hex("#00ff00"), Some(rgb(0, 255, 0)));
    assert_eq!(parse_hex("  ##A0b1C2\n"), Some(rgb(0xa0, 0xb1, 0xc2)));
    assert_eq!(parse_hex("1a2b3c"), Some(rgb(0x1a, 0x2b, 0x3c)));
    // u8::from_str_radix accepts a leading '+' in each pair.
    assert_eq!(parse_hex("+f+f+f"), Some(rgb(15, 15, 15)));
}

#[test]
fn parse_hex_rejects_non_colours() {
    assert_eq!(parse_hex("#00ff0"), None);
    assert_eq!(parse_hex("#00ff000"), None);
    assert_eq!(parse_hex("zz0000"), None);
    assert_eq!(parse_hex("-10000"), None);
    assert_eq!(parse_hex("++0000"), None);
    assert_eq!(parse_hex(""), None);
    assert_eq!(parse_hex("é1é1é1"), None);
}

#[test]
fn colour_split_inside_a_character_is_no_colour() {
    // "aéé1" is six bytes with a two-byte character across byte 2.
    assert_eq!(parse_hex("aéé1"), None);
    assert_eq!(parse_hex("aéb12"), None);
    let mut raw = empty_raw();
    raw.foreground = Some("aéé1".to_string());
    raw.accent = Some("#123456".to_string());
    let p = palette_from_raw(Some(raw));
    assert_eq!(p.foreground, Palette::default().foreground);
    assert_eq!(p.accent, rgb(0x12, 0x34, 0x56));
}

#[test]
fn default_palette_is_crt_green() {
    let p = Palette::default();
    assert_eq!(p.background, rgb(0, 0, 0));
    assert_eq!(p.foreground, rgb(0, 255, 0));
    assert_eq!(p.muted, rgb(80, 80, 80));
    assert_eq!(p.alert, rgb(255, 0, 0));
    assert_eq!(p.helicopter, rgb(255, 165, 0));
}

#[test]
fn palette_without_file_is_default() {
    assert_eq!(palette_from_raw(None), Palette::default());
    assert_eq!(palette_from_raw(Some(empty_raw())), Palette::default());
}

#[test]
fn palette_slots_fall_back_one_by_one() {
    let mut raw = empty_raw();
    raw.red = Some("#cc0000".to_string());
    raw.magenta = Some("not a colour".to_string());
    raw.background = Some("#101010".to_string());
    let p = palette_from_raw(Some(raw));
    let d = Palette::default();
    assert_eq!(p.alert, rgb(0xcc, 0, 0));
    assert_eq!(p.background, rgb(0x10, 0x10, 0x10));
    assert_eq!(p.business_jet, d.business_jet);
    assert_eq!(p.foreground, d.foreground);
}

#[test]
fn kind_and_climb_colours() {
    let p = Palette::default();
    assert_eq!(p.kind_color(AircraftKind::Airliner), p.foreground);
    assert_eq!(p.kind_color(AircraftKind::Unknown), p.foreground);
    assert_eq!(p.kind_color(AircraftKind::Regional), p.regional);
    assert_eq!(p.kind_color(AircraftKind::BusinessJet), p.business_jet);
    assert_eq!(p.kind_color(AircraftKind::Private), p.private);
    assert_eq!(p.kind_color(AircraftKind::Helicopter), p.helicopter);
    assert_eq!(p.climb_rate_color(ClimbTrend::Climbing), Some(p.climb));
    assert_eq!(p.climb_rate_color(ClimbTrend::Descending), Some(p.descent));
    assert_eq!(p.climb_rate_color(ClimbTrend::Level), None);
}

#[test]
fn theme_reload_only_on_new_mtime() {
    assert!(!theme_changed(None, Some(5)));
    assert!(!theme_changed(None, None));
    assert!(!theme_changed(Some(5), Some(5)));
    assert!(theme_changed(Some(6), Some(5)));
    assert!(theme_changed(Some(6), None));
}

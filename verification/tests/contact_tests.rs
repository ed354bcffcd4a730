use flyover::aircraft::{Aircraft, Altitude};
use flyover::contact::{altitude_line, altitude_text, climb_glyph, contact_style, rotor_alpha};
use flyover::theme::{ClimbTrend, Palette};

fn plane(category: &str, squawk: &str, alt: Option<Altitude>) -> Aircraft {
    Aircraft {
        hex: "abc123".to_string(),
        flight: Some("N247JH".to_string()),
        r: None,
        t: Some("C172".to_string()),
        alt_baro: alt,
        squawk: Some(squawk.to_string()),
        category: Some(category.to_string()),
    }
}

#[test]
fn altitude_text_flight_levels() {
    assert_eq!(altitude_text(Some(Altitude::Feet(35000))), "FL350");
    assert_eq!(altitude_text(Some(Altitude::Feet(4500))), "FL045");
    assert_eq!(altitude_text(Some(Altitude::Feet(99))), "FL000");
    assert_eq!(altitude_text(Some(Altitude::Feet(123456))), "FL1234");
    assert_eq!(altitude_text(Some(Altitude::Feet(-50))), "FL000");
    assert_eq!(altitude_text(Some(Altitude::Feet(-150))), "FL-01");
    assert_eq!(altitude_text(Some(Altitude::Feet(-1250))), "FL-12");
    assert_eq!(altitude_text(Some(Altitude::Feet(-12345))), "FL-123");
    assert_eq!(altitude_text(Some(Altitude::Feet(i64::MIN))), format!("FL{:03}", i64::MIN / 100));
    assert_eq!(altitude_text(Some(Altitude::Feet(i64::MAX))), format!("FL{:03}", i64::MAX / 100));
    assert_eq!(altitude_text(Some(Altitude::Ground)), "GND");
    assert_eq!(altitude_text(None), "?");
}

#[test]
fn altitude_text_matches_std_formatting() {
    for ft in [-100_000i64, -9999, -101, -100, -99, 0, 1, 100, 999, 1000, 9999, 41000, 10_000_000] {
        assert_eq!(altitude_text(Some(Altitude::Feet(ft))), format!("FL{:03}", ft / 100));
    }
}

#[test]
fn climb_glyphs_and_lines() {
    assert_eq!(climb_glyph(ClimbTrend::Climbing), " ▲");
    assert_eq!(climb_glyph(ClimbTrend::Descending), " ▼");
    assert_eq!(climb_glyph(ClimbTrend::Level), "");
    assert_eq!(altitude_line(Some(Altitude::Feet(8000)), ClimbTrend::Descending), "FL080 ▼");
    assert_eq!(altitude_line(None, ClimbTrend::Level), "?");
}

#[test]
fn style_of_ordinary_contact() {
    let p = Palette::default();
    let s = contact_style(&p, &plane("A1", "1200", Some(Altitude::Feet(4500))), ClimbTrend::Climbing, false);
    assert_eq!(s.blip, p.foreground);
    assert_eq!(s.callsign, p.private);
    assert_eq!(s.trail, p.private);
    assert_eq!(s.climb, Some(p.climb));
    assert!(s.labelled);
}

#[test]
fn emergency_overrides_category_colours() {
    let p = Palette::default();
    let s = contact_style(&p, &plane("A1", "7700", Some(Altitude::Feet(4500))), ClimbTrend::Climbing, false);
    assert_eq!(s.blip, p.alert);
    assert_eq!(s.callsign, p.alert);
    assert_eq!(s.trail, p.alert);
    assert_eq!(s.climb, None);
    assert!(s.labelled);
}

#[test]
fn ground_traffic_and_screensaver_get_no_label() {
    let p = Palette::default();
    let s = contact_style(&p, &plane("A3", "1200", Some(Altitude::Ground)), ClimbTrend::Level, false);
    assert!(!s.labelled);
    let s = contact_style(&p, &plane("A3", "1200", Some(Altitude::Feet(1000))), ClimbTrend::Level, true);
    assert!(!s.labelled);
    let s = contact_style(&p, &plane("A3", "1200", None), ClimbTrend::Level, false);
    assert!(s.labelled);
}

#[test]
fn rotor_is_two_thirds_alpha() {
    assert_eq!(rotor_alpha(255), 170);
    assert_eq!(rotor_alpha(100), 66);
    assert_eq!(rotor_alpha(0), 0);
}

//! What each contact on the scope is drawn with: its colours, whether it
//! carries a text label, and the altitude line of that label. Shared by
//! both render modes.

use vstd::prelude::*;
use crate::aircraft::{Aircraft, Altitude};
use crate::text::{decimal, pad_zeros, push_char, push_padded};
use crate::theme::{ClimbTrend, Palette, Rgb};

verus! {

/// Rust's `/` on integers: the quotient truncated toward zero.
pub open spec fn trunc_div(a: int, b: int) -> int {
    if a >= 0 {
        a / b
    } else {
        -((-a) / b)
    }
}

/// `format!("{:03}", q)`: zero-padded to three characters, the sign
/// counting toward the width.
pub open spec fn format_width3(q: int) -> Seq<char> {
    if q >= 0 {
        pad_zeros(decimal(q as nat), 3)
    } else {
        seq!['-'] + pad_zeros(decimal((-q) as nat), 2)
    }
}

/// The altitude text of a contact's label: its flight level (hundreds of
/// feet, e.g. "FL350"), "GND" on the ground, "?" when not reported.
pub open spec fn spec_altitude_text(alt: Option<Altitude>) -> Seq<char> {
    match alt {
        Some(Altitude::Feet(ft)) => "FL"@ + format_width3(trunc_div(ft as int, 100)),
        Some(Altitude::Ground) => "GND"@,
        None => "?"@,
    }
}

pub fn altitude_text(alt: Option<Altitude>) -> (r: String)
    ensures
        r@ == spec_altitude_text(alt),
{
    match alt {
        Some(Altitude::Feet(ft)) => {
            let mut s = String::from_str("FL");
            let neg = ft < 0;
            let mag: u64 = if neg {
                (-(ft as i128)) as u64
            } else {
                ft as u64
            };
            let q = mag / 100;
            if neg && q > 0 {
                push_char(&mut s, '-');
                push_padded(&mut s, q, 2);
                assert(s@ =~= "FL"@ + format_width3(trunc_div(ft as int, 100)));
            } else {
                push_padded(&mut s, q, 3);
                assert(s@ =~= "FL"@ + format_width3(trunc_div(ft as int, 100)));
            }
            s
        },
        Some(Altitude::Ground) => String::from_str("GND"),
        None => String::from_str("?"),
    }
}

/// The arrow appended to the altitude text for a climbing or descending
/// contact.
pub open spec fn spec_climb_glyph(trend: ClimbTrend) -> Seq<char> {
    match trend {
        ClimbTrend::Climbing => " ▲"@,
        ClimbTrend::Descending => " ▼"@,
        ClimbTrend::Level => ""@,
    }
}

pub fn climb_glyph(trend: ClimbTrend) -> (r: &'static str)
    ensures
        r@ == spec_climb_glyph(trend),
{
    match trend {
        ClimbTrend::Climbing => " ▲",
        ClimbTrend::Descending => " ▼",
        ClimbTrend::Level => "",
    }
}

/// The second line of a contact's label: altitude text, then the
/// climb/descent arrow.
pub fn altitude_line(alt: Option<Altitude>, trend: ClimbTrend) -> (r: String)
    ensures
        r@ == spec_altitude_text(alt) + spec_climb_glyph(trend),
{
    let mut s = altitude_text(alt);
    s.append(climb_glyph(trend));
    s
}

/// How one contact is drawn.
#[derive(Debug, Clone, Copy, PartialEq, Eq)]
pub struct ContactStyle {
    /// The blip or icon.
    pub blip: Rgb,
    /// The fading trail behind it.
    pub trail: Rgb,
    /// The callsign line of its label.
    pub callsign: Rgb,
    /// The climb/descent arrow, when there is one to colour.
    pub climb: Option<Rgb>,
    /// Whether it gets a text label at all.
    pub labelled: bool,
}

/// An emergency squawk overrides every category colour with the alert
/// colour; ground traffic, and every contact when labels are hidden, gets
/// no label.
pub open spec fn spec_contact_style(
    palette: Palette,
    ac: Aircraft,
    trend: ClimbTrend,
    hide_labels: bool,
) -> ContactStyle {
    let on_ground = ac.alt_baro == Some(Altitude::Ground);
    if ac.spec_emergency() {
        ContactStyle {
            blip: palette.alert,
            trail: palette.alert,
            callsign: palette.alert,
            climb: None,
            labelled: !on_ground && !hide_labels,
        }
    } else {
        ContactStyle {
            blip: palette.foreground,
            trail: palette.spec_kind_color(ac.spec_kind()),
            callsign: palette.spec_kind_color(ac.spec_kind()),
            climb: palette.spec_climb_rate_color(trend),
            labelled: !on_ground && !hide_labels,
        }
    }
}

pub fn contact_style(palette: &Palette, ac: &Aircraft, trend: ClimbTrend, hide_labels: bool) -> (r:
    ContactStyle)
    ensures
        r == spec_contact_style(*palette, *ac, trend, hide_labels),
{
    let on_ground = match ac.alt_baro {
        Some(Altitude::Ground) => true,
        _ => false,
    };
    let labelled = !on_ground && !hide_labels;
    if ac.is_emergency_squawk() {
        ContactStyle {
            blip: palette.alert,
            trail: palette.alert,
            callsign: palette.alert,
            climb: None,
            labelled,
        }
    } else {
        let kind_color = palette.kind_color(ac.kind());
        ContactStyle {
            blip: palette.foreground,
            trail: kind_color,
            callsign: kind_color,
            climb: palette.climb_rate_color(trend),
            labelled,
        }
    }
}

/// The helicopter icon's rotor disc is drawn at two thirds of the icon's
/// alpha.
pub fn rotor_alpha(alpha: u8) -> (r: u8)
    ensures
        r == alpha * 2 / 3,
{
    ((alpha as u16) * 2 / 3) as u8
}

/// An emergency squawk always wins: blip, callsign and trail all take
/// the alert colour and no climb/descent colour is drawn, whatever the
/// contact's category.
pub proof fn lemma_emergency_always_alert(p: Palette, ac: Aircraft, trend: ClimbTrend, hide_labels: bool)
    requires
        ac.spec_emergency(),
    ensures
        spec_contact_style(p, ac, trend, hide_labels).blip == p.alert,
        spec_contact_style(p, ac, trend, hide_labels).callsign == p.alert,
        spec_contact_style(p, ac, trend, hide_labels).trail == p.alert,
        spec_contact_style(p, ac, trend, hide_labels).climb is None,
{
}

/// Ground traffic never gets a text label, and in the screensaver nothing
/// does; every other contact does.
pub proof fn lemma_who_is_labelled(p: Palette, ac: Aircraft, trend: ClimbTrend, hide_labels: bool)
    ensures
        spec_contact_style(p, ac, trend, hide_labels).labelled <==> (ac.alt_baro != Some(
            Altitude::Ground,
        ) && !hide_labels),
{
}

} // verus!

//! The scope screen around the radar itself: the render mode, the
//! controls/status footer and the colour-key legend.

use vstd::prelude::*;
use crate::text::{decimal, push_decimal};
use crate::aircraft::AircraftKind;
use crate::theme::{ClimbTrend, Palette, Rgb};

verus! {

/// Which renderer draws the scope.
#[derive(Debug, Clone, Copy, PartialEq, Eq)]
pub enum RenderMode {
    /// Anti-aliased raster graphics sent as Sixel images.
    Sixel,
    /// Braille-dot canvas: character based, fast.
    Braille,
}

impl RenderMode {
    pub open spec fn spec_toggled(self) -> RenderMode {
        match self {
            RenderMode::Sixel => RenderMode::Braille,
            RenderMode::Braille => RenderMode::Sixel,
        }
    }

    /// The other render mode.
    pub fn toggled(self) -> (r: Self)
        ensures
            r == self.spec_toggled(),
    {
        match self {
            RenderMode::Sixel => RenderMode::Braille,
            RenderMode::Braille => RenderMode::Sixel,
        }
    }
}

/// Toggling twice gives back the mode one started with.
pub proof fn lemma_toggled_twice(m: RenderMode)
    ensures
        m.spec_toggled().spec_toggled() == m,
        m.spec_toggled() != m,
{
}

/// The key help shown in the footer.
pub const CONTROLS: &'static str = "q   +/-   0   v";

/// The footer: the key help, then the status when the footer is wide
/// enough for both, the two texts counted in bytes.
pub open spec fn spec_footer_text(width: u16, status: &str) -> Seq<char> {
    if width as int >= CONTROLS.len() + status.len() + 4 {
        CONTROLS@ + "   "@ + status@ + " "@
    } else {
        CONTROLS@ + " "@
    }
}

pub fn footer_text(width: u16, status: &str) -> (r: String)
    ensures
        r@ == spec_footer_text(width, status),
{
    let mut s = String::from_str(CONTROLS);
    let cl = CONTROLS.len();
    let sl = status.len();
    if cl <= 0xffff && sl <= 0xffff && width as usize >= cl + sl + 4 {
        s.append("   ");
        s.append(status);
        s.append(" ");
    } else {
        s.append(" ");
    }
    s
}

/// The colour key under the scope, in order. Airliner stands for
/// unknown contacts too, which share its colour.
pub open spec fn spec_legend_entries(p: Palette) -> Seq<(&'static str, Rgb)> {
    seq![
        ("Airliner", p.foreground),
        ("Regional", p.regional),
        ("Business", p.business_jet),
        ("Private", p.private),
        ("Helicopter", p.helicopter),
        ("▲ Climb", p.climb),
        ("▼ Descent", p.descent),
    ]
}

pub fn legend_entries(p: &Palette) -> (r: Vec<(&'static str, Rgb)>)
    ensures
        r@ == spec_legend_entries(*p),
{
    let mut v: Vec<(&'static str, Rgb)> = Vec::new();
    v.push(("Airliner", p.foreground));
    v.push(("Regional", p.regional));
    v.push(("Business", p.business_jet));
    v.push(("Private", p.private));
    v.push(("Helicopter", p.helicopter));
    v.push(("▲ Climb", p.climb));
    v.push(("▼ Descent", p.descent));
    assert(v@ =~= spec_legend_entries(*p));
    v
}

/// Total byte length of the labels.
pub open spec fn labels_len(e: Seq<(&'static str, Rgb)>) -> int
    decreases e.len(),
{
    if e.len() == 0 {
        0
    } else {
        labels_len(e.drop_last()) + e.last().0.len()
    }
}

/// The legend's width without styling: its labels, two spaces apart.
pub open spec fn legend_width(e: Seq<(&'static str, Rgb)>) -> int {
    labels_len(e) + 2 * (e.len() - 1)
}

/// Whether the legend fits in `width` columns. A legend that would not
/// fit is left out entirely rather than cut off.
pub fn legend_fits(width: u16, entries: &Vec<(&'static str, Rgb)>) -> (r: bool)
    requires
        entries@.len() > 0,
    ensures
        r == (width as int > legend_width(entries@)),
{
    let n = entries.len();
    let mut total: u128 = 0;
    let mut i: usize = 0;
    assert(entries@.subrange(0, 0) =~= Seq::<(&'static str, Rgb)>::empty());
    while i < n
        invariant
            n == entries@.len(),
            i <= n,
            total == labels_len(entries@.subrange(0, i as int)),
            total <= i * 0xffff_ffff_ffff_ffff,
        decreases n - i,
    {
        assert(entries@.subrange(0, i + 1).drop_last() =~= entries@.subrange(0, i as int));
        let len = entries[i].0.len();
        proof {
            assert(i + 1 <= 0xffff_ffff_ffff_ffff);
            assert((i + 1) * 0xffff_ffff_ffff_ffff <= 0xffff_ffff_ffff_ffff * 0xffff_ffff_ffff_ffff)
                by (nonlinear_arith)
                requires
                    i + 1 <= 0xffff_ffff_ffff_ffff,
            ;
        }
        total = total + len as u128;
        i = i + 1;
    }
    assert(entries@.subrange(0, n as int) =~= entries@);
    assert(total + 2 * (n - 1) <= 0xffff_ffff_ffff_ffff_ffff_ffff_ffff_ffff) by (nonlinear_arith)
        requires
            total <= n * 0xffff_ffff_ffff_ffff,
            1 <= n < 0x1_0000_0000_0000_0000,
    ;
    (width as u128) > total + 2 * ((n - 1) as u128)
}

/// The scope's title: the location, the number of contacts and, in the
/// interactive view, the displayed range.
pub open spec fn spec_scope_title(location: Seq<char>, contacts: nat, range_nm: Option<u32>) -> Seq<char> {
    " flyover — "@ + location + " — "@ + decimal(contacts) + " contact(s)"@ + match range_nm {
        Some(z) => " — "@ + decimal(z as nat) + "nm range "@,
        None => " "@,
    }
}

pub fn scope_title(location: &str, contacts: u64, range_nm: Option<u32>) -> (r: String)
    ensures
        r@ == spec_scope_title(location@, contacts as nat, range_nm),
{
    let mut s = String::from_str(" flyover — ");
    s.append(location);
    s.append(" — ");
    push_decimal(&mut s, contacts);
    s.append(" contact(s)");
    match range_nm {
        Some(z) => {
            s.append(" — ");
            push_decimal(&mut s, z as u64);
            s.append("nm range ");
        },
        None => {
            s.append(" ");
        },
    }
    assert(s@ =~= spec_scope_title(location@, contacts as nat, range_nm));
    s
}

/// The status shown in the footer: "err" after a failed fetch, else the
/// seconds to the next refresh, else (nothing fetched yet) an ellipsis.
pub open spec fn spec_status_text(has_error: bool, refresh_in_secs: Option<u64>) -> Seq<char> {
    if has_error {
        "err"@
    } else {
        match refresh_in_secs {
            Some(secs) => "↻"@ + decimal(secs as nat) + "s"@,
            None => "…"@,
        }
    }
}

pub fn status_text(has_error: bool, refresh_in_secs: Option<u64>) -> (r: String)
    ensures
        r@ == spec_status_text(has_error, refresh_in_secs),
{
    if has_error {
        String::from_str("err")
    } else {
        match refresh_in_secs {
            Some(secs) => {
                let mut s = String::from_str("↻");
                push_decimal(&mut s, secs);
                s.append("s");
                s
            },
            None => String::from_str("…"),
        }
    }
}

/// The key help is always shown, first; the status only ever follows it.
pub proof fn lemma_footer_starts_with_controls(width: u16, status: &str)
    ensures
        CONTROLS@.is_prefix_of(spec_footer_text(width, status)),
{
    let f = spec_footer_text(width, status);
    if width as int >= CONTROLS.len() + status.len() + 4 {
        assert(f.subrange(0, CONTROLS@.len() as int) =~= CONTROLS@);
    } else {
        assert(f.subrange(0, CONTROLS@.len() as int) =~= CONTROLS@);
    }
}


/// The kind of contact a legend label names, if it names one.
pub open spec fn legend_label_kind(label: Seq<char>) -> Option<AircraftKind> {
    if label == "Airliner"@ {
        Some(AircraftKind::Airliner)
    } else if label == "Regional"@ {
        Some(AircraftKind::Regional)
    } else if label == "Business"@ {
        Some(AircraftKind::BusinessJet)
    } else if label == "Private"@ {
        Some(AircraftKind::Private)
    } else if label == "Helicopter"@ {
        Some(AircraftKind::Helicopter)
    } else {
        None
    }
}

/// Some entry of the legend names kind `k`.
pub open spec fn legend_names_kind(e: Seq<(&'static str, Rgb)>, k: AircraftKind) -> bool {
    exists|i: int| 0 <= i < e.len() && legend_label_kind((#[trigger] e[i]).0@) == Some(k)
}

/// The climb trend a legend label names, if it names one.
pub open spec fn legend_label_trend(label: Seq<char>) -> Option<ClimbTrend> {
    if label == "▲ Climb"@ {
        Some(ClimbTrend::Climbing)
    } else if label == "▼ Descent"@ {
        Some(ClimbTrend::Descending)
    } else {
        None
    }
}

/// The colour key tells the truth: every entry that names a kind of
/// contact is shown in the colour contacts of that kind are drawn in, every
/// entry that names a climb trend in that trend's colour, and each drawn
/// kind (unknown contacts share the airliner colour) and trend has an
/// entry.
pub proof fn lemma_legend_matches_drawing(p: Palette)
    ensures
        forall|i: int|
            0 <= i < spec_legend_entries(p).len() ==> match legend_label_kind(
                (#[trigger] spec_legend_entries(p)[i]).0@,
            ) {
                Some(k) => spec_legend_entries(p)[i].1 == p.spec_kind_color(k),
                None => match legend_label_trend(spec_legend_entries(p)[i].0@) {
                    Some(t) => Some(spec_legend_entries(p)[i].1) == p.spec_climb_rate_color(t),
                    None => false,
                },
            },
        forall|k: AircraftKind|
            k != AircraftKind::Unknown ==> #[trigger] legend_names_kind(spec_legend_entries(p), k),
        exists|i: int|
            0 <= i < spec_legend_entries(p).len() && legend_label_trend(
                (#[trigger] spec_legend_entries(p)[i]).0@,
            ) == Some(ClimbTrend::Climbing),
        exists|i: int|
            0 <= i < spec_legend_entries(p).len() && legend_label_trend(
                (#[trigger] spec_legend_entries(p)[i]).0@,
            ) == Some(ClimbTrend::Descending),
        p.spec_kind_color(AircraftKind::Unknown) == p.spec_kind_color(AircraftKind::Airliner),
{
    reveal_strlit("Airliner");
    reveal_strlit("Regional");
    reveal_strlit("Business");
    reveal_strlit("Private");
    reveal_strlit("Helicopter");
    reveal_strlit("▲ Climb");
    reveal_strlit("▼ Descent");
    let e = spec_legend_entries(p);
    assert(e[0].0@ == "Airliner"@);
    assert(e[1].0@ == "Regional"@);
    assert(e[2].0@ == "Business"@);
    assert(e[3].0@ == "Private"@);
    assert(e[4].0@ == "Helicopter"@);
    assert(e[5].0@ == "▲ Climb"@);
    assert(e[6].0@ == "▼ Descent"@);
    assert("Regional"@[0] != "Airliner"@[0]);
    assert("Business"@[0] != "Airliner"@[0] && "Business"@[0] != "Regional"@[0]);
    assert("Private"@[0] != "Airliner"@[0] && "Private"@[0] != "Regional"@[0] && "Private"@[0]
        != "Business"@[0]);
    assert("Helicopter"@[0] != "Airliner"@[0] && "Helicopter"@[0] != "Regional"@[0] && "Helicopter"@[0]
        != "Business"@[0] && "Helicopter"@[0] != "Private"@[0]);
    assert("▲ Climb"@[0] != "Airliner"@[0] && "▲ Climb"@[0] != "Regional"@[0] && "▲ Climb"@[0]
        != "Business"@[0] && "▲ Climb"@[0] != "Private"@[0] && "▲ Climb"@[0] != "Helicopter"@[0]);
    assert("▼ Descent"@[0] != "Airliner"@[0] && "▼ Descent"@[0] != "Regional"@[0] && "▼ Descent"@[0]
        != "Business"@[0] && "▼ Descent"@[0] != "Private"@[0] && "▼ Descent"@[0] != "Helicopter"@[0]
        && "▼ Descent"@[0] != "▲ Climb"@[0]);
    assert forall|k: AircraftKind| k != AircraftKind::Unknown implies #[trigger] legend_names_kind(e, k) by {
        match k {
            AircraftKind::Airliner => assert(legend_label_kind(e[0].0@) == Some(k)),
            AircraftKind::Regional => assert(legend_label_kind(e[1].0@) == Some(k)),
            AircraftKind::BusinessJet => assert(legend_label_kind(e[2].0@) == Some(k)),
            AircraftKind::Private => assert(legend_label_kind(e[3].0@) == Some(k)),
            AircraftKind::Helicopter => assert(legend_label_kind(e[4].0@) == Some(k)),
            AircraftKind::Unknown => {},
        }
    }
    assert(legend_label_trend(e[5].0@) == Some(ClimbTrend::Climbing));
    assert(legend_label_trend(e[6].0@) == Some(ClimbTrend::Descending));
}

} // verus!

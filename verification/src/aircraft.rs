//! One aircraft as the adsb.lol feed reports it (the non-numeric part the
//! classification logic reads), and the rules that turn its ADS-B emitter
//! category and ICAO type designator into a coarse icon/colour bucket.

use vstd::prelude::*;
use crate::text::{starts_with, str_eq, trim, trim_str};

verus! {

/// Barometric altitude as the feed reports it: a number of feet, or the
/// literal string "ground" for aircraft on the ground.
#[derive(Debug, Clone, Copy, PartialEq, Eq)]
pub enum Altitude {
    Feet(i64),
    Ground,
}

/// The shape of a raw `alt_baro` JSON value, reduced to what decides its
/// meaning: a number (with its value when it fits in an `i64`), a string,
/// or anything else.
pub enum AltBaroJson {
    Number(Option<i64>),
    Text(String),
    Other,
}

/// Why an `alt_baro` value was refused.
#[derive(Debug, Clone, Copy, PartialEq, Eq)]
pub enum AltitudeError {
    /// A number that does not fit in an `i64` (a fraction or a huge value).
    OutOfRange,
    /// Neither a number nor the string "ground".
    Unexpected,
}

pub open spec fn spec_altitude_from_json(v: AltBaroJson) -> Result<Altitude, AltitudeError> {
    match v {
        AltBaroJson::Number(Some(n)) => Ok(Altitude::Feet(n)),
        AltBaroJson::Number(None) => Err(AltitudeError::OutOfRange),
        AltBaroJson::Text(s) => if s@ == "ground"@ {
            Ok(Altitude::Ground)
        } else {
            Err(AltitudeError::Unexpected)
        },
        AltBaroJson::Other => Err(AltitudeError::Unexpected),
    }
}

/// Decodes an `alt_baro` value: a number becomes `Feet` when it is a
/// whole `i64`, the string "ground" becomes `Ground`, everything else is
/// an error.
pub fn altitude_from_json(v: AltBaroJson) -> (r: Result<Altitude, AltitudeError>)
    ensures
        r == spec_altitude_from_json(v),
{
    match v {
        AltBaroJson::Number(Some(n)) => Ok(Altitude::Feet(n)),
        AltBaroJson::Number(None) => Err(AltitudeError::OutOfRange),
        AltBaroJson::Text(s) => if str_eq(s.as_str(), "ground") {
            Ok(Altitude::Ground)
        } else {
            Err(AltitudeError::Unexpected)
        },
        AltBaroJson::Other => Err(AltitudeError::Unexpected),
    }
}

/// One contact from the feed. Only the textual fields live here; the
/// numeric ones (speed, track, rates, position) are carried alongside by
/// the caller.
#[derive(Debug)]
pub struct Aircraft {
    /// ICAO 24-bit address, as hex.
    pub hex: String,
    pub flight: Option<String>,
    /// Registration; kept for later use, not read by anything yet.
    pub r: Option<String>,
    /// ICAO aircraft type designator (e.g. "B738", "C172", "GLF6").
    pub t: Option<String>,
    pub alt_baro: Option<Altitude>,
    pub squawk: Option<String>,
    /// ADS-B emitter category ("A1" light ... "A7" rotorcraft, "B*"/"C*"
    /// other craft and vehicles).
    pub category: Option<String>,
}

impl Clone for Aircraft {
    fn clone(&self) -> (r: Self)
        ensures
            r == *self,
    {
        Aircraft {
            hex: self.hex.clone(),
            flight: self.flight.clone(),
            r: self.r.clone(),
            t: self.t.clone(),
            alt_baro: self.alt_baro,
            squawk: self.squawk.clone(),
            category: self.category.clone(),
        }
    }
}

/// The feed's response: the list of aircraft in range.
#[derive(Debug)]
pub struct StatesResponse {
    pub ac: Vec<Aircraft>,
}

/// Broad shape bucket for the per-aircraft icon and label colour.
#[derive(Debug, Clone, Copy, PartialEq, Eq)]
pub enum AircraftKind {
    /// Category A3/A4/A5.
    Airliner,
    /// Category A2, or an uncategorised known turboprop type.
    Regional,
    /// Category A1/A2 (or uncategorised) whose type matches a business-jet family.
    BusinessJet,
    /// Category A1 that is not a recognised business jet.
    Private,
    /// Category A7.
    Helicopter,
    /// Anything else.
    Unknown,
}

/// Type-designator families that mark a business jet (prefix match).
pub open spec fn is_business_jet_type(t: Seq<char>) -> bool {
    ||| "GLF"@.is_prefix_of(t)
    ||| "CL3"@.is_prefix_of(t)
    ||| "CL6"@.is_prefix_of(t)
    ||| "LJ"@.is_prefix_of(t)
    ||| "FA"@.is_prefix_of(t)
    ||| "C25"@.is_prefix_of(t)
    ||| "C56"@.is_prefix_of(t)
    ||| "C68"@.is_prefix_of(t)
    ||| "C700"@.is_prefix_of(t)
    ||| "C750"@.is_prefix_of(t)
    ||| "PC24"@.is_prefix_of(t)
    ||| "E50"@.is_prefix_of(t)
    ||| "E55"@.is_prefix_of(t)
}

/// Type-designator families that mark a turboprop (prefix match).
pub open spec fn is_turboprop_type(t: Seq<char>) -> bool {
    ||| "AT4"@.is_prefix_of(t)
    ||| "AT7"@.is_prefix_of(t)
    ||| "DH8"@.is_prefix_of(t)
    ||| "SW4"@.is_prefix_of(t)
    ||| "B190"@.is_prefix_of(t)
    ||| "C208"@.is_prefix_of(t)
    ||| "PC12"@.is_prefix_of(t)
    ||| "TBM"@.is_prefix_of(t)
}

/// The icon bucket for an emitter category (if reported) and a type
/// designator (empty when not reported).
pub open spec fn kind_of(category: Option<Seq<char>>, type_code: Seq<char>) -> AircraftKind {
    let business_jet = is_business_jet_type(type_code);
    match category {
        Some(c) => if c == "A3"@ || c == "A4"@ || c == "A5"@ {
            AircraftKind::Airliner
        } else if c == "A7"@ {
            AircraftKind::Helicopter
        } else if c == "A1"@ {
            if business_jet {
                AircraftKind::BusinessJet
            } else {
                AircraftKind::Private
            }
        } else if c == "A2"@ {
            if business_jet {
                AircraftKind::BusinessJet
            } else {
                AircraftKind::Regional
            }
        } else {
            AircraftKind::Unknown
        },
        None => if business_jet {
            AircraftKind::BusinessJet
        } else if is_turboprop_type(type_code) {
            AircraftKind::Regional
        } else {
            AircraftKind::Unknown
        },
    }
}

pub fn business_jet_type(t: &str) -> (r: bool)
    ensures
        r == is_business_jet_type(t@),
{
    starts_with(t, "GLF") || starts_with(t, "CL3") || starts_with(t, "CL6") || starts_with(t, "LJ")
        || starts_with(t, "FA") || starts_with(t, "C25") || starts_with(t, "C56") || starts_with(
        t,
        "C68",
    ) || starts_with(t, "C700") || starts_with(t, "C750") || starts_with(t, "PC24") || starts_with(
        t,
        "E50",
    ) || starts_with(t, "E55")
}

pub fn turboprop_type(t: &str) -> (r: bool)
    ensures
        r == is_turboprop_type(t@),
{
    starts_with(t, "AT4") || starts_with(t, "AT7") || starts_with(t, "DH8") || starts_with(t, "SW4")
        || starts_with(t, "B190") || starts_with(t, "C208") || starts_with(t, "PC12") || starts_with(
        t,
        "TBM",
    )
}

/// The view of an optional string.
pub open spec fn opt_str(o: Option<String>) -> Option<Seq<char>> {
    match o {
        Some(s) => Some(s@),
        None => None,
    }
}

/// The emergency transponder codes: hijack, radio failure, general emergency.
pub open spec fn is_emergency_code(s: Seq<char>) -> bool {
    s == "7500"@ || s == "7600"@ || s == "7700"@
}

impl Aircraft {
    /// The type designator, empty when not reported.
    pub open spec fn type_code(&self) -> Seq<char> {
        match self.t {
            Some(t) => t@,
            None => Seq::empty(),
        }
    }

    /// The icon bucket of this aircraft.
    pub open spec fn spec_kind(&self) -> AircraftKind {
        kind_of(opt_str(self.category), self.type_code())
    }

    /// Whether the squawk is an emergency code.
    pub open spec fn spec_emergency(&self) -> bool {
        match self.squawk {
            Some(s) => is_emergency_code(s@),
            None => false,
        }
    }

    /// The text the callsign label shows before trimming: the flight
    /// number, else the hex address.
    pub open spec fn callsign_source(&self) -> Seq<char> {
        match self.flight {
            Some(f) => f@,
            None => self.hex@,
        }
    }

    /// The flight number (or, when there is none, the hex address) without
    /// surrounding whitespace.
    pub fn callsign(&self) -> (r: &str)
        ensures
            r@ == trim(self.callsign_source()),
    {
        match &self.flight {
            Some(f) => trim_str(f.as_str()),
            None => trim_str(self.hex.as_str()),
        }
    }

    /// Whether the transponder squawks 7500, 7600 or 7700.
    pub fn is_emergency_squawk(&self) -> (r: bool)
        ensures
            r == self.spec_emergency(),
    {
        match &self.squawk {
            Some(s) => str_eq(s.as_str(), "7500") || str_eq(s.as_str(), "7600") || str_eq(
                s.as_str(),
                "7700",
            ),
            None => false,
        }
    }

    /// The icon bucket: by emitter category first, the type designator
    /// breaking the A1/A2 tie between business jets and the rest, and the
    /// type designator alone when no category is reported.
    pub fn kind(&self) -> (r: AircraftKind)
        ensures
            r == self.spec_kind(),
    {
        let type_code: &str = match &self.t {
            Some(t) => t.as_str(),
            None => "",
        };
        proof {
            reveal_strlit("");
        }
        let is_business_jet = business_jet_type(type_code);
        match &self.category {
            Some(c) => {
                let c = c.as_str();
                if str_eq(c, "A3") || str_eq(c, "A4") || str_eq(c, "A5") {
                    AircraftKind::Airliner
                } else if str_eq(c, "A7") {
                    AircraftKind::Helicopter
                } else if str_eq(c, "A1") {
                    if is_business_jet {
                        AircraftKind::BusinessJet
                    } else {
                        AircraftKind::Private
                    }
                } else if str_eq(c, "A2") {
                    if is_business_jet {
                        AircraftKind::BusinessJet
                    } else {
                        AircraftKind::Regional
                    }
                } else {
                    AircraftKind::Unknown
                }
            },
            None => {
                if is_business_jet {
                    AircraftKind::BusinessJet
                } else if turboprop_type(type_code) {
                    AircraftKind::Regional
                } else {
                    AircraftKind::Unknown
                }
            },
        }
    }
}


/// Light (A1) and small (A2) aircraft, and aircraft with no category, whose
/// type designator belongs to one of the business-jet families (Gulfstream
/// `GLF`, Challenger `CL3`/`CL6`, Learjet `LJ`, Falcon `FA`, Citation
/// `C25`/`C56`/`C68`/`C700`/`C750`, `PC24`, Phenom `E50`/`E55`) are
/// business jets.
pub proof fn lemma_business_jet_families(a: Aircraft, family: Seq<char>)
    requires
        family == "GLF"@ || family == "CL3"@ || family == "CL6"@ || family == "LJ"@ || family == "FA"@
            || family == "C25"@ || family == "C56"@ || family == "C68"@ || family == "C700"@ || family
            == "C750"@ || family == "PC24"@ || family == "E50"@ || family == "E55"@,
        a.t is Some,
        family.is_prefix_of(a.t->0@),
        a.category is None || a.category->0@ == "A1"@ || a.category->0@ == "A2"@,
    ensures
        a.spec_kind() == AircraftKind::BusinessJet,
{
    lemma_categories_distinct();
    assert(is_business_jet_type(a.type_code()));
}

/// Large, high-vortex and heavy aircraft (A3, A4, A5) are airliners and
/// rotorcraft (A7) helicopters, whatever their type designator.
pub proof fn lemma_category_decides(a: Aircraft)
    requires
        a.category is Some,
    ensures
        (a.category->0@ == "A3"@ || a.category->0@ == "A4"@ || a.category->0@ == "A5"@) ==> a.spec_kind()
            == AircraftKind::Airliner,
        a.category->0@ == "A7"@ ==> a.spec_kind() == AircraftKind::Helicopter,
{
    lemma_categories_distinct();
}


/// The emitter-category literals that `kind_of` tells apart are distinct.
proof fn lemma_categories_distinct()
    ensures
        "A1"@ != "A2"@,
        "A1"@ != "A3"@,
        "A1"@ != "A4"@,
        "A1"@ != "A5"@,
        "A1"@ != "A7"@,
        "A2"@ != "A3"@,
        "A2"@ != "A4"@,
        "A2"@ != "A5"@,
        "A2"@ != "A7"@,
        "A7"@ != "A3"@,
        "A7"@ != "A4"@,
        "A7"@ != "A5"@,
{
    reveal_strlit("A1");
    reveal_strlit("A2");
    reveal_strlit("A3");
    reveal_strlit("A4");
    reveal_strlit("A5");
    reveal_strlit("A7");
    assert("A1"@[1] != "A2"@[1]);
    assert("A1"@[1] != "A3"@[1]);
    assert("A1"@[1] != "A4"@[1]);
    assert("A1"@[1] != "A5"@[1]);
    assert("A1"@[1] != "A7"@[1]);
    assert("A2"@[1] != "A3"@[1]);
    assert("A2"@[1] != "A4"@[1]);
    assert("A2"@[1] != "A5"@[1]);
    assert("A2"@[1] != "A7"@[1]);
    assert("A7"@[1] != "A3"@[1]);
    assert("A7"@[1] != "A4"@[1]);
    assert("A7"@[1] != "A5"@[1]);
}


/// With no category reported, an aircraft whose type designator belongs to
/// a turboprop family (`AT4`, `AT7`, `DH8`, `SW4`, `B190`, `C208`, `PC12`,
/// `TBM`) is regional.
pub proof fn lemma_uncategorised_turboprops(a: Aircraft, family: Seq<char>)
    requires
        family == "AT4"@ || family == "AT7"@ || family == "DH8"@ || family == "SW4"@ || family
            == "B190"@ || family == "C208"@ || family == "PC12"@ || family == "TBM"@,
        a.t is Some,
        family.is_prefix_of(a.t->0@),
        a.category is None,
    ensures
        a.spec_kind() == AircraftKind::Regional,
{
    let t = a.t->0@;
    reveal_strlit("AT4");
    reveal_strlit("AT7");
    reveal_strlit("DH8");
    reveal_strlit("SW4");
    reveal_strlit("B190");
    reveal_strlit("C208");
    reveal_strlit("PC12");
    reveal_strlit("TBM");
    reveal_strlit("GLF");
    reveal_strlit("CL3");
    reveal_strlit("CL6");
    reveal_strlit("LJ");
    reveal_strlit("FA");
    reveal_strlit("C25");
    reveal_strlit("C56");
    reveal_strlit("C68");
    reveal_strlit("C700");
    reveal_strlit("C750");
    reveal_strlit("PC24");
    reveal_strlit("E50");
    reveal_strlit("E55");
    assert(t[0] == family[0]);
    assert(t[1] == family[1]);
    assert(!is_business_jet_type(t)) by {
        if "C25"@.is_prefix_of(t) || "C56"@.is_prefix_of(t) || "C68"@.is_prefix_of(t) || "C700"@.is_prefix_of(t)
            || "C750"@.is_prefix_of(t) {
            assert(t[1] == '2' || t[1] == '5' || t[1] == '6' || t[1] == '7');
            assert(family == "C208"@);
            assert(t[2] == family[2]);
            assert(t[2] == "C25"@[2] || t[2] == "C56"@[2] || t[2] == "C68"@[2] || t[2] == "C700"@[2] || t[2] == "C750"@[2]);
        }
        if "PC24"@.is_prefix_of(t) {
            assert(t[2] == family[2]);
            assert(t[2] == "PC24"@[2]);
        }
    }
    assert(is_turboprop_type(t));
}


} // verus!

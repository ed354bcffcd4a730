use flyover::aircraft::{altitude_from_json, AltBaroJson, Aircraft, AircraftKind, Altitude, AltitudeError};

fn plane(category: Option<&str>, t: Option<&str>) -> Aircraft {
    Aircraft {
        hex: "a1b2c3".to_string(),
        flight: Some("UAL1234 ".to_string()),
        r: None,
        t: t.map(|s| s.to_string()),
        alt_baro: Some(Altitude::Feet(35000)),
        squawk: Some("1200".to_string()),
        category: category.map(|s| s.to_string()),
    }
}

#[test]
fn kind_by_category() {
    assert_eq!(plane(Some("A3"), Some("B738")).kind(), AircraftKind::Airliner);
    assert_eq!(plane(Some("A4"), None).kind(), AircraftKind::Airliner);
    assert_eq!(plane(Some("A5"), Some("B77W")).kind(), AircraftKind::Airliner);
    assert_eq!(plane(Some("A7"), Some("H60")).kind(), AircraftKind::Helicopter);
    assert_eq!(plane(Some("A1"), Some("C172")).kind(), AircraftKind::Private);
    assert_eq!(plane(Some("A2"), Some("E75L")).kind(), AircraftKind::Regional);
    assert_eq!(plane(Some("B1"), Some("GLF6")).kind(), AircraftKind::Unknown);
    assert_eq!(plane(Some("A6"), None).kind(), AircraftKind::Unknown);
}

#[test]
fn kind_business_jet_breaks_small_ties() {
    assert_eq!(plane(Some("A1"), Some("GLF6")).kind(), AircraftKind::BusinessJet);
    assert_eq!(plane(Some("A2"), Some("LJ35")).kind(), AircraftKind::BusinessJet);
    assert_eq!(plane(Some("A1"), Some("C56X")).kind(), AircraftKind::BusinessJet);
    assert_eq!(plane(Some("A1"), Some("PC24")).kind(), AircraftKind::BusinessJet);
    // A business-jet type never overrides a large category.
    assert_eq!(plane(Some("A3"), Some("GLF6")).kind(), AircraftKind::Airliner);
}

#[test]
fn kind_without_category_uses_type_code() {
    assert_eq!(plane(None, Some("FA7X")).kind(), AircraftKind::BusinessJet);
    assert_eq!(plane(None, Some("DH8D")).kind(), AircraftKind::Regional);
    assert_eq!(plane(None, Some("TBM9")).kind(), AircraftKind::Regional);
    assert_eq!(plane(None, Some("B738")).kind(), AircraftKind::Unknown);
    assert_eq!(plane(None, None).kind(), AircraftKind::Unknown);
    // Turboprop types only count when no category is reported.
    assert_eq!(plane(Some("A1"), Some("PC12")).kind(), AircraftKind::Private);
}

#[test]
fn callsign_trims_flight_or_falls_back_to_hex() {
    let a = plane(Some("A3"), None);
    assert_eq!(a.callsign(), "UAL1234");
    let mut b = a.clone();
    b.flight = None;
    assert_eq!(b.callsign(), "a1b2c3");
    let mut c = a.clone();
    c.flight = Some("\u{3000} N911PD\u{a0}\t".to_string());
    assert_eq!(c.callsign(), "N911PD");
    let mut d = a.clone();
    d.flight = Some("   ".to_string());
    assert_eq!(d.callsign(), "");
}

#[test]
fn emergency_squawks() {
    let mut a = plane(Some("A3"), None);
    for code in ["7500", "7600", "7700"] {
        a.squawk = Some(code.to_string());
        assert!(a.is_emergency_squawk());
    }
    for code in ["1200", "7701", "770", ""] {
        a.squawk = Some(code.to_string());
        assert!(!a.is_emergency_squawk());
    }
    a.squawk = None;
    assert!(!a.is_emergency_squawk());
}

#[test]
fn altitude_json_values() {
    assert_eq!(altitude_from_json(AltBaroJson::Number(Some(35000))), Ok(Altitude::Feet(35000)));
    assert_eq!(altitude_from_json(AltBaroJson::Number(Some(-200))), Ok(Altitude::Feet(-200)));
    assert_eq!(altitude_from_json(AltBaroJson::Number(None)), Err(AltitudeError::OutOfRange));
    assert_eq!(altitude_from_json(AltBaroJson::Text("ground".to_string())), Ok(Altitude::Ground));
    assert_eq!(
        altitude_from_json(AltBaroJson::Text("Ground".to_string())),
        Err(AltitudeError::Unexpected)
    );
    assert_eq!(altitude_from_json(AltBaroJson::Other), Err(AltitudeError::Unexpected));
}

use flyover::airports::{airport_idents, header_index, runway_columns, runway_rows};
use flyover::airspace::{class_b_name, collect_idents, load_towered_idents, FeatureProperties};

fn strings(v: &[&str]) -> Vec<String> {
    v.iter().map(|s| s.to_string()).collect()
}

#[test]
fn header_lookup_by_name() {
    let h = strings(&["id", "ident", "type", "ident"]);
    assert_eq!(header_index(&h, "ident"), Some(1));
    assert_eq!(header_index(&h, "type"), Some(2));
    assert_eq!(header_index(&h, "iata_code"), None);
}

#[test]
fn towered_airports_match_three_ways() {
    let headers = strings(&["id", "ident", "type", "iata_code"]);
    let records = vec![
        Ok(strings(&["1", "KLAX", "large_airport", "LAX"])),
        Ok(strings(&["2", "CYYZ", "large_airport", "YYZ"])),
        Ok(strings(&["3", "KHYS", "small_airport", ""])),
        Ok(strings(&["4", "KXYZ", "small_airport", ""])),
        Ok(strings(&["5", "KLAX", "large_airport", "LAX"])),
        Ok(strings(&["6"])),
    ];
    let towered = strings(&["LAX", "CYYZ", "HYS"]);
    let mut ids = airport_idents(&headers, &records, &towered).unwrap();
    ids.sort();
    assert_eq!(ids, strings(&["CYYZ", "KHYS", "KLAX"]));
}

#[test]
fn k_stripping_needs_four_bytes() {
    let headers = strings(&["ident", "iata_code"]);
    let records = vec![Ok(strings(&["KABCD", ""])), Ok(strings(&["KAB", ""]))];
    let towered = strings(&["ABCD", "AB"]);
    assert_eq!(airport_idents(&headers, &records, &towered).unwrap(), Vec::<String>::new());
}

#[test]
fn airport_list_errors() {
    let records: Vec<Result<Vec<String>, String>> = vec![];
    assert_eq!(
        airport_idents(&strings(&["iata_code"]), &records, &vec![]),
        Err("airports.csv missing 'ident' column".to_string())
    );
    assert_eq!(
        airport_idents(&strings(&["ident"]), &records, &vec![]),
        Err("airports.csv missing 'iata_code' column".to_string())
    );
    let records = vec![Ok(strings(&["KLAX", "LAX"])), Err("bad record".to_string()), Err("second".to_string())];
    assert_eq!(
        airport_idents(&strings(&["ident", "iata_code"]), &records, &strings(&["LAX"])),
        Err("bad record".to_string())
    );
}

fn runway_headers() -> Vec<String> {
    strings(&[
        "id",
        "airport_ident",
        "closed",
        "le_latitude_deg",
        "le_longitude_deg",
        "he_latitude_deg",
        "he_longitude_deg",
    ])
}

#[test]
fn runway_columns_by_name() {
    let c = runway_columns(&runway_headers()).unwrap();
    assert_eq!((c.airport_ident, c.closed, c.le_latitude, c.he_longitude), (1, 2, 3, 6));
    let mut h = runway_headers();
    h.remove(2);
    assert_eq!(runway_columns(&h), Err("runways.csv missing 'closed' column".to_string()));
}

#[test]
fn runway_rows_skip_closed_and_foreign() {
    let cols = runway_columns(&runway_headers()).unwrap();
    let records = vec![
        Ok(strings(&["1", "KLAX", "0", "33.9", "-118.4", "33.9", "-118.3"])),
        Ok(strings(&["2", "KLAX", "1", "33.9", "-118.4", "33.9", "-118.3"])),
        Ok(strings(&["3", "KSFO", "0", "37.6", "-122.3", "37.6", "-122.3"])),
        Ok(strings(&["4", "KLAX"])),
        Ok(strings(&["5"])),
    ];
    let idents = strings(&["KLAX"]);
    assert_eq!(runway_rows(&cols, &records, &idents), Ok(vec![0, 3]));
    let records = vec![Ok(strings(&["1", "KLAX", "0"])), Err("broken".to_string())];
    assert_eq!(runway_rows(&cols, &records, &idents), Err("broken".to_string()));
}

fn feature(name: Option<&str>, class: Option<&str>, ident: Option<&str>) -> FeatureProperties {
    FeatureProperties {
        name: name.map(|s| s.to_string()),
        class: class.map(|s| s.to_string()),
        ident: ident.map(|s| s.to_string()),
    }
}

#[test]
fn towered_idents_are_distinct() {
    let fs = vec![
        feature(Some("LOS ANGELES CLASS B"), Some("B"), Some("LAX")),
        feature(Some("LOS ANGELES CLASS B"), Some("B"), Some("LAX")),
        feature(Some("BURBANK CLASS C"), Some("C"), Some("BUR")),
        feature(Some("SOMEWHERE"), Some("C"), None),
    ];
    assert_eq!(load_towered_idents(&fs), strings(&["LAX", "BUR"]));
    assert_eq!(collect_idents(&vec![None, Some("HYS".to_string()), Some("HYS".to_string())]), strings(&["HYS"]));
}

#[test]
fn only_class_b_is_drawn() {
    let b = feature(Some("LOS ANGELES CLASS B"), Some("B"), Some("LAX"));
    assert_eq!(class_b_name(&b), Some(&"LOS ANGELES CLASS B".to_string()));
    assert_eq!(class_b_name(&feature(Some("BURBANK"), Some("C"), None)), None);
    assert_eq!(class_b_name(&feature(None, Some("B"), None)), None);
}

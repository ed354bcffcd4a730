use flyover::airports::{load_airport_idents, runway_rows_of, RunwayColumns};
use flyover::airspace::union_idents;

fn strings(v: &[&str]) -> Vec<String> {
    v.iter().map(|s| s.to_string()).collect()
}

const AIRPORTS: &str = "id,ident,type,iata_code\n\
1,KLAX,large_airport,LAX\n\
2,CYYZ,large_airport,YYZ\n\
3,KHYS,small_airport,\n\
4,KXYZ,small_airport,\n\
5,\"KSFO\",large_airport,\"SFO\"\n";

#[test]
fn airport_idents_from_file_bytes() {
    let towered = strings(&["LAX", "CYYZ", "HYS", "SFO"]);
    let mut ids = load_airport_idents(AIRPORTS.as_bytes(), &towered).unwrap();
    ids.sort();
    assert_eq!(ids, strings(&["CYYZ", "KHYS", "KLAX", "KSFO"]));
}

#[test]
fn airport_file_errors() {
    let towered = strings(&["LAX"]);
    assert_eq!(
        load_airport_idents(b"", &towered),
        Err("airports.csv missing 'ident' column".to_string())
    );
    assert_eq!(
        load_airport_idents(b"id,ident\n1,KLAX\n", &towered),
        Err("airports.csv missing 'iata_code' column".to_string())
    );
    let short_row = "id,ident,iata_code\n1,KLAX,LAX\n2,KSFO\n";
    let e = load_airport_idents(short_row.as_bytes(), &towered).unwrap_err();
    assert!(e.contains("found record with 2 fields"), "{e}");
    assert!(load_airport_idents(b"id,\xff\xfe\n1,2\n", &towered).is_err());
}

const RUNWAYS: &str = "id,airport_ident,length_ft,closed,le_latitude_deg,le_longitude_deg,he_latitude_deg,he_longitude_deg\n\
1,KLAX,12000,0,33.9,-118.4,33.9,-118.3\n\
2,KLAX,11000,1,33.8,-118.4,33.8,-118.3\n\
3,KSEA,9000,0,47.4,-122.3,47.5,-122.3\n\
4,KHYS,6500,0,38.8,-99.3,38.9,-99.3\n";

#[test]
fn runway_rows_from_file_bytes() {
    let idents = strings(&["KLAX", "KHYS"]);
    let (cols, rows) = runway_rows_of(RUNWAYS.as_bytes(), &idents).unwrap();
    assert_eq!(
        cols,
        RunwayColumns {
            airport_ident: 1,
            closed: 3,
            le_latitude: 4,
            le_longitude: 5,
            he_latitude: 6,
            he_longitude: 7,
        }
    );
    assert_eq!(rows.len(), 2);
    assert_eq!(rows[0], strings(&["1", "KLAX", "12000", "0", "33.9", "-118.4", "33.9", "-118.3"]));
    assert_eq!(rows[1][1], "KHYS");
    assert_eq!(rows[1][cols.he_latitude], "38.9");
}

#[test]
fn runway_file_errors() {
    let idents = strings(&["KLAX"]);
    assert_eq!(
        runway_rows_of(b"id,airport_ident,closed\n", &idents),
        Err("runways.csv missing 'le_latitude_deg' column".to_string())
    );
    let bad = "airport_ident,closed,le_latitude_deg,le_longitude_deg,he_latitude_deg,he_longitude_deg\n\
KLAX,0,1,2,3,4\n\
KLAX,0\n";
    let e = runway_rows_of(bad.as_bytes(), &idents).unwrap_err();
    assert!(e.contains("found record with 2 fields"), "{e}");
}

#[test]
fn class_de_idents_join_the_towered_ones() {
    let bc = strings(&["LAX", "SFO"]);
    let de = strings(&["HYS", "LAX"]);
    let mut all = union_idents(&bc, &de);
    all.sort();
    assert_eq!(all, strings(&["HYS", "LAX", "SFO"]));
    assert!(union_idents(&Vec::new(), &Vec::new()).is_empty());
}

//! Choosing which airports get a runway silhouette, and which runway rows
//! of the OurAirports CSV files are worth projecting. The files' bytes are
//! split into a header row and records (each record a row of cells, or the
//! error reading it produced) by the `csv` crate; the choice is made here.

use vstd::prelude::*;
use vstd::utf8::encode_utf8;
use crate::text::str_eq;

verus! {

/// The first position of `name` in `h` at or after `i`.
pub open spec fn first_from(h: Seq<Seq<char>>, name: Seq<char>, i: int) -> Option<int>
    decreases h.len() - i,
{
    if i < 0 || i >= h.len() {
        None
    } else if h[i] == name {
        Some(i)
    } else {
        first_from(h, name, i + 1)
    }
}

/// The column of a header row called `name` (the first, if repeated).
pub open spec fn spec_header_index(h: Seq<Seq<char>>, name: Seq<char>) -> Option<int> {
    first_from(h, name, 0)
}

pub open spec fn strings(v: Seq<String>) -> Seq<Seq<char>> {
    v.map_values(|s: String| s@)
}

/// A record as cells, or the error reading it produced.
pub open spec fn record_view(r: Result<Vec<String>, String>) -> Result<Seq<Seq<char>>, Seq<char>> {
    match r {
        Ok(row) => Ok(strings(row@)),
        Err(e) => Err(e@),
    }
}

pub open spec fn records_view(rs: Seq<Result<Vec<String>, String>>) -> Seq<Result<Seq<Seq<char>>, Seq<char>>> {
    rs.map_values(|r: Result<Vec<String>, String>| record_view(r))
}

/// A parsed CSV file (header row and records) or the error that stopped
/// its header row from being read.
pub open spec fn table_view(
    t: Result<(Vec<String>, Vec<Result<Vec<String>, String>>), String>,
) -> Result<(Seq<Seq<char>>, Seq<Result<Seq<Seq<char>>, Seq<char>>>), Seq<char>> {
    match t {
        Ok((h, rs)) => Ok((strings(h@), records_view(rs@))),
        Err(e) => Err(e@),
    }
}

/// What the `csv` crate's reader, with its default settings (a header row,
/// comma-separated, every record as long as the header), makes of a file's
/// bytes: the header row and every record, or the error reading the header.
pub uninterp spec fn csv_table(bytes: Seq<u8>) -> Result<(Seq<Seq<char>>, Seq<Result<Seq<Seq<char>>, Seq<char>>>), Seq<char>>;

/// Splits a CSV file into its header row and its records with
/// `csv::Reader::from_reader` (default settings), `Reader::headers` and
/// `Reader::records`; each error becomes its `Display` text. Claimed: the
/// result is `csv_table` of the bytes, so the same bytes always give the
/// same table. Nothing is claimed of what that table holds.
#[verifier::external_body]
fn read_csv(bytes: &[u8]) -> (r: Result<(Vec<String>, Vec<Result<Vec<String>, String>>), String>)
    ensures
        table_view(r) == csv_table(bytes@),
{
    let mut reader = csv::Reader::from_reader(bytes);
    let headers: Vec<String> = match reader.headers() {
        Ok(h) => h.iter().map(str::to_string).collect(),
        Err(e) => return Err(e.to_string()),
    };
    let records = reader.records().map(|r| match r {
        Ok(rec) => Ok(rec.iter().map(str::to_string).collect()),
        Err(e) => Err(e.to_string()),
    }).collect();
    Ok((headers, records))
}

/// Looks a column up by its header name.
pub fn header_index(headers: &Vec<String>, name: &str) -> (r: Option<usize>)
    ensures
        match r {
            Some(i) => spec_header_index(strings(headers@), name@) == Some(i as int),
            None => spec_header_index(strings(headers@), name@) is None,
        },
{
    let n = headers.len();
    let ghost h = strings(headers@);
    let mut i: usize = 0;
    while i < n
        invariant
            n == headers@.len(),
            h == strings(headers@),
            i <= n,
            spec_header_index(h, name@) == first_from(h, name@, i as int),
        decreases n - i,
    {
        if str_eq(headers[i].as_str(), name) {
            return Some(i);
        }
        i = i + 1;
    }
    None
}

/// The strings of `v`, as a set.
pub open spec fn string_set(v: Seq<String>) -> Set<Seq<char>> {
    Set::new(|k: Seq<char>| exists|i: int| 0 <= i < v.len() && v[i]@ == k)
}

/// `s` appears in `v`.
pub fn contains_str(v: &Vec<String>, s: &str) -> (r: bool)
    ensures
        r == string_set(v@).contains(s@),
{
    let n = v.len();
    let mut i: usize = 0;
    while i < n
        invariant
            n == v@.len(),
            i <= n,
            forall|j: int| 0 <= j < i ==> v@[j]@ != s@,
        decreases n - i,
    {
        if str_eq(v[i].as_str(), s) {
            return true;
        }
        i = i + 1;
    }
    false
}

/// The airspace data names a US airport by its three-letter code, the
/// airport list by its IATA code and its four-letter ICAO ident ("KLAX"),
/// Canadian ones by the ICAO ident: an airport is towered when its IATA
/// code, its ident, or its ident without a leading 'K' (four-byte idents
/// only) is a towered ident.
pub open spec fn towered_match(towered: Set<Seq<char>>, ident: Seq<char>, iata: Seq<char>) -> bool {
    ||| iata.len() > 0 && towered.contains(iata)
    ||| towered.contains(ident)
    ||| encode_utf8(ident).len() == 4 && ident.len() > 0 && ident[0] == 'K' && towered.contains(
        ident.drop_first(),
    )
}

/// The cell at column `i`, if the row has one.
pub open spec fn cell(row: Seq<Seq<char>>, i: int) -> Option<Seq<char>> {
    if 0 <= i < row.len() {
        Some(row[i])
    } else {
        None
    }
}

/// The error of the first record that could not be read.
pub open spec fn first_error(rs: Seq<Result<Seq<Seq<char>>, Seq<char>>>) -> Option<Seq<char>>
    decreases rs.len(),
{
    if rs.len() == 0 {
        None
    } else {
        match rs[0] {
            Err(e) => Some(e),
            Ok(_) => first_error(rs.drop_first()),
        }
    }
}

/// Whether the airport row `row` names a towered airport (its ident, when
/// it has one).
pub open spec fn airport_row_ident(
    row: Seq<Seq<char>>,
    ident_i: int,
    iata_i: int,
    towered: Set<Seq<char>>,
) -> Option<Seq<char>> {
    match cell(row, ident_i) {
        None => None,
        Some(ident) => {
            let iata = match cell(row, iata_i) {
                Some(c) => c,
                None => Seq::empty(),
            };
            if towered_match(towered, ident, iata) {
                Some(ident)
            } else {
                None
            }
        },
    }
}

/// The idents of the towered airports among the records.
pub open spec fn towered_airports(
    rs: Seq<Result<Seq<Seq<char>>, Seq<char>>>,
    ident_i: int,
    iata_i: int,
    towered: Set<Seq<char>>,
) -> Set<Seq<char>> {
    Set::new(
        |k: Seq<char>|
            exists|j: int|
                0 <= j < rs.len() && rs[j] is Ok && airport_row_ident(
                    rs[j]->Ok_0,
                    ident_i,
                    iata_i,
                    towered,
                ) == Some(k),
    )
}

/// No string occurs twice.
///
/// Sets of idents are held as `Vec<String>`s without repeats rather than as
/// `std::collections::HashSet`s: vstd specifies `HashSet` only for element
/// types that `obeys_key_model`, which it states for primitive types and
/// their boxes but not for `String`.
pub open spec fn distinct(v: Seq<String>) -> bool {
    forall|i: int, j: int| 0 <= i < j < v.len() ==> v[i]@ != v[j]@
}

/// The outcome of reading the airport list: the missing-column error,
/// else the first unreadable record's error, else the towered airports.
pub open spec fn spec_airport_idents(
    headers: Seq<Seq<char>>,
    rs: Seq<Result<Seq<Seq<char>>, Seq<char>>>,
    towered: Set<Seq<char>>,
) -> Result<Set<Seq<char>>, Seq<char>> {
    match spec_header_index(headers, "ident"@) {
        None => Err("airports.csv missing 'ident' column"@),
        Some(ident_i) => match spec_header_index(headers, "iata_code"@) {
            None => Err("airports.csv missing 'iata_code' column"@),
            Some(iata_i) => match first_error(rs) {
                Some(e) => Err(e),
                None => Ok(towered_airports(rs, ident_i, iata_i, towered)),
            },
        },
    }
}

fn airport_row_match<'a>(
    row: &'a Vec<String>,
    ident_i: usize,
    iata_i: usize,
    towered: &Vec<String>,
) -> (r: Option<&'a String>)
    ensures
        match r {
            Some(s) => airport_row_ident(strings(row@), ident_i as int, iata_i as int, string_set(towered@))
                == Some(s@),
            None => airport_row_ident(strings(row@), ident_i as int, iata_i as int, string_set(towered@))
                is None,
        },
{
    if ident_i >= row.len() {
        return None;
    }
    let ident = &row[ident_i];
    let iata: &str = if iata_i < row.len() {
        row[iata_i].as_str()
    } else {
        ""
    };
    proof {
        reveal_strlit("");
    }
    let id = ident.as_str();
    let by_iata = iata.unicode_len() > 0 && contains_str(towered, iata);
    let by_ident = contains_str(towered, id);
    let n = id.unicode_len();
    let by_stripped = id.as_bytes().len() == 4 && n > 0 && id.get_char(0) == 'K' && contains_str(
        towered,
        id.substring_char(1, n),
    );
    proof {
        if n > 0 {
            assert(id@.subrange(1, n as int) =~= id@.drop_first());
        }
    }
    proof {
        let ghost t = string_set(towered@);
        assert(cell(strings(row@), ident_i as int) == Some(id@));
        assert(by_iata == (iata@.len() > 0 && t.contains(iata@)));
        assert(by_ident == t.contains(id@));
        assert(by_stripped == (encode_utf8(id@).len() == 4 && id@.len() > 0 && id@[0] == 'K' && t.contains(id@.drop_first())));
        if iata_i < row.len() {
            assert(cell(strings(row@), iata_i as int) == Some(iata@));
        } else {
            assert(iata@ == Seq::<char>::empty());
        }
    }
    if by_iata || by_ident || by_stripped {
        Some(ident)
    } else {
        None
    }
}

/// Adds `s` to `out` unless it is already there.
pub(crate) fn insert_distinct(out: &mut Vec<String>, s: &String)
    requires
        distinct(old(out)@),
    ensures
        distinct(final(out)@),
        string_set(final(out)@) == string_set(old(out)@).insert(s@),
{
    if !contains_str(out, s.as_str()) {
        let ghost before = out@;
        out.push(s.clone());
        proof {
            assert forall|k: Seq<char>|
                string_set(out@).contains(k) == string_set(before).insert(s@).contains(k) by {
                if string_set(before).contains(k) {
                    let j = choose|j: int| 0 <= j < before.len() && before[j]@ == k;
                    assert(out@[j] == before[j]);
                }
                if string_set(out@).contains(k) {
                    let j = choose|j: int| 0 <= j < out@.len() && out@[j]@ == k;
                    if j < before.len() {
                        assert(out@[j] == before[j]);
                    }
                }
                if k == s@ {
                    assert(out@[before.len() as int]@ == k);
                }
            }
        }
    }
    assert(string_set(out@) =~= string_set(old(out)@).insert(s@));
}

/// Reads the airport list: each row whose ident, IATA code or K-less ident
/// is a towered ident contributes its ident (each ident once).
pub fn airport_idents(
    headers: &Vec<String>,
    records: &Vec<Result<Vec<String>, String>>,
    towered: &Vec<String>,
) -> (r: Result<Vec<String>, String>)
    ensures
        match r {
            Ok(v) => distinct(v@) && spec_airport_idents(
                strings(headers@),
                records_view(records@),
                string_set(towered@),
            ) == Ok::<Set<Seq<char>>, Seq<char>>(string_set(v@)),
            Err(e) => spec_airport_idents(strings(headers@), records_view(records@), string_set(towered@)) == Err::<
                Set<Seq<char>>,
                Seq<char>,
            >(e@),
        },
{
    let ident_i = match header_index(headers, "ident") {
        Some(i) => i,
        None => return Err(String::from_str("airports.csv missing 'ident' column")),
    };
    let iata_i = match header_index(headers, "iata_code") {
        Some(i) => i,
        None => return Err(String::from_str("airports.csv missing 'iata_code' column")),
    };
    let ghost tset = string_set(towered@);
    let ghost rs = records_view(records@);
    let mut out: Vec<String> = Vec::new();
    let n = records.len();
    assert(rs.subrange(0, n as int) =~= rs);
    assert(towered_airports(rs.subrange(0, 0), ident_i as int, iata_i as int, tset) =~= Set::empty());
    assert(string_set(out@) =~= Set::empty());
    let mut i: usize = 0;
    while i < n
        invariant
            n == rs.len(),
            rs == records_view(records@),
            i <= n,
            tset == string_set(towered@),
            spec_header_index(strings(headers@), "ident"@) == Some(ident_i as int),
            spec_header_index(strings(headers@), "iata_code"@) == Some(iata_i as int),
            distinct(out@),
            first_error(rs) == first_error(rs.subrange(i as int, n as int)),
            string_set(out@) == towered_airports(rs.subrange(0, i as int), ident_i as int, iata_i as int, tset),
        decreases n - i,
    {
        let ghost pre = rs.subrange(0, i as int);
        let ghost post = rs.subrange(0, i + 1);
        proof {
            assert(rs.subrange(i as int, n as int).drop_first() =~= rs.subrange(i + 1, n as int));
        }
        match &records[i] {
            Err(e) => {
                assert(rs[i as int] == record_view(records@[i as int]));
                assert(rs.subrange(i as int, n as int)[0] == rs[i as int]);
                assert(first_error(rs) == Some(e@));
                let e2 = e.clone();
                return Err(e2);
            },
            Ok(row) => {
                assert(rs[i as int] == record_view(records@[i as int]));
                let ghost before = string_set(out@);
                match airport_row_match(row, ident_i, iata_i, towered) {
                    Some(id) => {
                        insert_distinct(&mut out, id);
                    },
                    None => {},
                }
                proof {
                    assert forall|k: Seq<char>| #![trigger towered_airports(post, ident_i as int, iata_i as int, tset).contains(k)]
                        towered_airports(post, ident_i as int, iata_i as int, tset).contains(k)
                        == (towered_airports(pre, ident_i as int, iata_i as int, tset).contains(k)
                        || airport_row_ident(strings(row@), ident_i as int, iata_i as int, tset) == Some(k)) by {
                        if towered_airports(pre, ident_i as int, iata_i as int, tset).contains(k) {
                            let j = choose|j: int| 0 <= j < pre.len() && pre[j] is Ok && airport_row_ident(
                                pre[j]->Ok_0, ident_i as int, iata_i as int, tset) == Some(k);
                            assert(post[j] == pre[j]);
                        }
                        if airport_row_ident(strings(row@), ident_i as int, iata_i as int, tset) == Some(k) {
                            assert(post[i as int] == rs[i as int]);
                        }
                        if towered_airports(post, ident_i as int, iata_i as int, tset).contains(k) {
                            let j = choose|j: int| 0 <= j < post.len() && post[j] is Ok && airport_row_ident(
                                post[j]->Ok_0, ident_i as int, iata_i as int, tset) == Some(k);
                            if j < pre.len() {
                                assert(post[j] == pre[j]);
                            }
                        }
                    }
                    assert(string_set(out@) =~= towered_airports(post, ident_i as int, iata_i as int, tset));
                }
            },
        }
        i = i + 1;
    }
    assert(rs.subrange(0, n as int) =~= rs);
    assert(first_error(rs.subrange(n as int, n as int)) is None);
    Ok(out)
}

/// Where the columns the runway reader needs sit in `runways.csv`.
#[derive(Debug, Clone, Copy, PartialEq, Eq)]
pub struct RunwayColumns {
    pub airport_ident: usize,
    pub closed: usize,
    pub le_latitude: usize,
    pub le_longitude: usize,
    pub he_latitude: usize,
    pub he_longitude: usize,
}

/// The error for a column that `runways.csv` lacks.
pub open spec fn missing_runway_column(name: Seq<char>) -> Seq<char> {
    "runways.csv missing '"@ + name + "' column"@
}

/// The columns of `runways.csv`, or the error naming the first of them
/// (in the order listed in `RunwayColumns`) that is missing.
pub open spec fn spec_runway_columns(h: Seq<Seq<char>>) -> Result<RunwayColumns, Seq<char>> {
    match spec_header_index(h, "airport_ident"@) {
        None => Err(missing_runway_column("airport_ident"@)),
        Some(a) => match spec_header_index(h, "closed"@) {
            None => Err(missing_runway_column("closed"@)),
            Some(c) => match spec_header_index(h, "le_latitude_deg"@) {
                None => Err(missing_runway_column("le_latitude_deg"@)),
                Some(l1) => match spec_header_index(h, "le_longitude_deg"@) {
                    None => Err(missing_runway_column("le_longitude_deg"@)),
                    Some(l2) => match spec_header_index(h, "he_latitude_deg"@) {
                        None => Err(missing_runway_column("he_latitude_deg"@)),
                        Some(h1) => match spec_header_index(h, "he_longitude_deg"@) {
                            None => Err(missing_runway_column("he_longitude_deg"@)),
                            Some(h2) => Ok(
                                RunwayColumns {
                                    airport_ident: a as usize,
                                    closed: c as usize,
                                    le_latitude: l1 as usize,
                                    le_longitude: l2 as usize,
                                    he_latitude: h1 as usize,
                                    he_longitude: h2 as usize,
                                },
                            ),
                        },
                    },
                },
            },
        },
    }
}

fn runway_column(headers: &Vec<String>, name: &str) -> (r: Result<usize, String>)
    ensures
        match r {
            Ok(i) => spec_header_index(strings(headers@), name@) == Some(i as int),
            Err(e) => spec_header_index(strings(headers@), name@) is None && e@
                == missing_runway_column(name@),
        },
{
    match header_index(headers, name) {
        Some(i) => Ok(i),
        None => {
            let mut e = String::from_str("runways.csv missing '");
            e.append(name);
            e.append("' column");
            Err(e)
        },
    }
}

/// Looks up the columns of `runways.csv` by name.
pub fn runway_columns(headers: &Vec<String>) -> (r: Result<RunwayColumns, String>)
    ensures
        match r {
            Ok(c) => spec_runway_columns(strings(headers@)) == Ok::<RunwayColumns, Seq<char>>(c),
            Err(e) => spec_runway_columns(strings(headers@)) == Err::<RunwayColumns, Seq<char>>(e@),
        },
{
    let airport_ident = match runway_column(headers, "airport_ident") {
        Ok(i) => i,
        Err(e) => return Err(e),
    };
    let closed = match runway_column(headers, "closed") {
        Ok(i) => i,
        Err(e) => return Err(e),
    };
    let le_latitude = match runway_column(headers, "le_latitude_deg") {
        Ok(i) => i,
        Err(e) => return Err(e),
    };
    let le_longitude = match runway_column(headers, "le_longitude_deg") {
        Ok(i) => i,
        Err(e) => return Err(e),
    };
    let he_latitude = match runway_column(headers, "he_latitude_deg") {
        Ok(i) => i,
        Err(e) => return Err(e),
    };
    let he_longitude = match runway_column(headers, "he_longitude_deg") {
        Ok(i) => i,
        Err(e) => return Err(e),
    };
    Ok(RunwayColumns { airport_ident, closed, le_latitude, le_longitude, he_latitude, he_longitude })
}

/// A runway row is worth projecting when it is not marked closed and it
/// belongs to one of the chosen airports.
pub open spec fn runway_row_kept(row: Seq<Seq<char>>, cols: RunwayColumns, idents: Set<Seq<char>>) -> bool {
    &&& cell(row, cols.closed as int) != Some("1"@)
    &&& match cell(row, cols.airport_ident as int) {
        Some(id) => idents.contains(id),
        None => false,
    }
}

/// The positions, in order, of the kept rows among the first `n` records.
pub open spec fn kept_rows(
    rs: Seq<Result<Seq<Seq<char>>, Seq<char>>>,
    cols: RunwayColumns,
    idents: Set<Seq<char>>,
    n: int,
) -> Seq<usize>
    decreases n,
{
    if n <= 0 {
        Seq::empty()
    } else {
        let before = kept_rows(rs, cols, idents, n - 1);
        if rs[n - 1] is Ok && runway_row_kept(rs[n - 1]->Ok_0, cols, idents) {
            before.push((n - 1) as usize)
        } else {
            before
        }
    }
}

fn runway_row_selected(row: &Vec<String>, cols: &RunwayColumns, idents: &Vec<String>) -> (r: bool)
    ensures
        r == runway_row_kept(strings(row@), *cols, string_set(idents@)),
{
    if cols.closed < row.len() && str_eq(row[cols.closed].as_str(), "1") {
        return false;
    }
    if cols.airport_ident >= row.len() {
        return false;
    }
    contains_str(idents, row[cols.airport_ident].as_str())
}

/// Picks the runway rows to project: the first unreadable record's error,
/// else the positions of the open runways of the chosen airports. Their
/// coordinates are for the caller to read.
pub fn runway_rows(
    cols: &RunwayColumns,
    records: &Vec<Result<Vec<String>, String>>,
    idents: &Vec<String>,
) -> (r: Result<Vec<usize>, String>)
    ensures
        match r {
            Ok(v) => first_error(records_view(records@)) is None && v@ == kept_rows(
                records_view(records@),
                *cols,
                string_set(idents@),
                records@.len() as int,
            ),
            Err(e) => first_error(records_view(records@)) == Some(e@),
        },
{
    let ghost rs = records_view(records@);
    let ghost iset = string_set(idents@);
    let n = records.len();
    let mut out: Vec<usize> = Vec::new();
    let mut i: usize = 0;
    assert(rs.subrange(0, n as int) =~= rs);
    while i < n
        invariant
            n == rs.len(),
            rs == records_view(records@),
            iset == string_set(idents@),
            i <= n,
            first_error(rs) == first_error(rs.subrange(i as int, n as int)),
            out@ == kept_rows(rs, *cols, iset, i as int),
        decreases n - i,
    {
        proof {
            assert(rs.subrange(i as int, n as int).drop_first() =~= rs.subrange(i + 1, n as int));
            assert(rs.subrange(i as int, n as int)[0] == rs[i as int]);
            assert(rs[i as int] == record_view(records@[i as int]));
        }
        match &records[i] {
            Err(e) => {
                return Err(e.clone());
            },
            Ok(row) => {
                if runway_row_selected(row, cols, idents) {
                    out.push(i);
                }
            },
        }
        i = i + 1;
    }
    assert(first_error(rs.subrange(n as int, n as int)) is None);
    Ok(out)
}



/// Every towered airport of a readable airport list is picked, whichever
/// of its codes the airspace data uses: a row is picked when its non-empty
/// IATA code is a towered ident (US fields, and Hawaiian or Alaskan ones
/// such as PHNL/HNL whose ident has no leading 'K'), when its ident is one
/// (Canadian fields), or when its four-byte ident is 'K' followed by one.
pub proof fn lemma_towered_rows_picked(
    headers: Seq<Seq<char>>,
    rs: Seq<Result<Seq<Seq<char>>, Seq<char>>>,
    towered: Set<Seq<char>>,
    ident_col: int,
    iata_col: int,
    j: int,
)
    requires
        spec_header_index(headers, "ident"@) == Some(ident_col),
        spec_header_index(headers, "iata_code"@) == Some(iata_col),
        first_error(rs) is None,
        0 <= j < rs.len(),
        rs[j] is Ok,
        0 <= ident_col < rs[j]->Ok_0.len(),
    ensures
        ({
            let row = rs[j]->Ok_0;
            let ident = row[ident_col];
            let by_iata = 0 <= iata_col < row.len() && row[iata_col].len() > 0 && towered.contains(
                row[iata_col],
            );
            let by_ident = towered.contains(ident);
            let by_stripped = encode_utf8(ident).len() == 4 && ident.len() > 0 && ident[0] == 'K'
                && towered.contains(ident.drop_first());
            (by_iata || by_ident || by_stripped) ==> spec_airport_idents(headers, rs, towered) is Ok
                && spec_airport_idents(headers, rs, towered)->Ok_0.contains(ident)
        }),
{
    let row = rs[j]->Ok_0;
    let ident = row[ident_col];
    if 0 <= iata_col < row.len() {
        assert(cell(row, iata_col) == Some(row[iata_col]));
    }
    assert(cell(row, ident_col) == Some(ident));
    if airport_row_ident(row, ident_col, iata_col, towered) == Some(ident) {
        assert(towered_airports(rs, ident_col, iata_col, towered).contains(ident));
    }
}

/// Only towered airports are picked: every ident in the result is the
/// ident of a readable row matched in one of those three ways.
pub proof fn lemma_picked_rows_towered(
    headers: Seq<Seq<char>>,
    rs: Seq<Result<Seq<Seq<char>>, Seq<char>>>,
    towered: Set<Seq<char>>,
    ident_col: int,
    iata_col: int,
    k: Seq<char>,
)
    requires
        spec_header_index(headers, "ident"@) == Some(ident_col),
        spec_header_index(headers, "iata_code"@) == Some(iata_col),
        spec_airport_idents(headers, rs, towered) is Ok,
        spec_airport_idents(headers, rs, towered)->Ok_0.contains(k),
    ensures
        exists|j: int|
            0 <= j < rs.len() && (#[trigger] rs[j]) is Ok && 0 <= ident_col < rs[j]->Ok_0.len()
                && rs[j]->Ok_0[ident_col] == k && ((0 <= iata_col < rs[j]->Ok_0.len()
                && rs[j]->Ok_0[iata_col].len() > 0 && towered.contains(rs[j]->Ok_0[iata_col]))
                || towered.contains(k) || (encode_utf8(k).len() == 4 && k.len() > 0 && k[0] == 'K'
                && towered.contains(k.drop_first()))),
{
    let j = choose|j: int|
        0 <= j < rs.len() && rs[j] is Ok && airport_row_ident(rs[j]->Ok_0, ident_col, iata_col, towered)
            == Some(k);
    let row = rs[j]->Ok_0;
    if 0 <= iata_col < row.len() {
        assert(cell(row, iata_col) == Some(row[iata_col]));
    }
    assert(rs[j]->Ok_0[ident_col] == k);
}

/// The outcome of reading the airport list from a parsed file.
pub open spec fn spec_load_airport_idents(
    t: Result<(Seq<Seq<char>>, Seq<Result<Seq<Seq<char>>, Seq<char>>>), Seq<char>>,
    towered: Set<Seq<char>>,
) -> Result<Set<Seq<char>>, Seq<char>> {
    match t {
        Err(e) => Err(e),
        Ok((h, rs)) => spec_airport_idents(h, rs, towered),
    }
}

/// Reads the airport list from the bytes of `airports.csv`: the error
/// reading its header row, else what `airport_idents` makes of it.
pub fn load_airport_idents(airports_csv: &[u8], towered: &Vec<String>) -> (r: Result<Vec<String>, String>)
    ensures
        match r {
            Ok(v) => distinct(v@) && spec_load_airport_idents(csv_table(airports_csv@), string_set(towered@))
                == Ok::<Set<Seq<char>>, Seq<char>>(string_set(v@)),
            Err(e) => spec_load_airport_idents(csv_table(airports_csv@), string_set(towered@)) == Err::<
                Set<Seq<char>>,
                Seq<char>,
            >(e@),
        },
{
    match read_csv(airports_csv) {
        Err(e) => Err(e),
        Ok((headers, records)) => airport_idents(&headers, &records, towered),
    }
}

/// The runway rows worth projecting, from a parsed `runways.csv`: the
/// header error, else the missing-column error, else the first unreadable
/// record's error, else the columns and the kept rows, in file order.
pub open spec fn spec_runway_rows_of(
    t: Result<(Seq<Seq<char>>, Seq<Result<Seq<Seq<char>>, Seq<char>>>), Seq<char>>,
    idents: Set<Seq<char>>,
) -> Result<(RunwayColumns, Seq<Seq<Seq<char>>>), Seq<char>> {
    match t {
        Err(e) => Err(e),
        Ok((h, rs)) => match spec_runway_columns(h) {
            Err(e) => Err(e),
            Ok(c) => match first_error(rs) {
                Some(e) => Err(e),
                None => Ok(
                    (
                        c,
                        kept_rows(rs, c, idents, rs.len() as int).map_values(
                            |i: usize| rs[i as int]->Ok_0,
                        ),
                    ),
                ),
            },
        },
    }
}

/// Every kept position is a readable record among the first `n`.
proof fn lemma_kept_rows_ok(
    rs: Seq<Result<Seq<Seq<char>>, Seq<char>>>,
    cols: RunwayColumns,
    idents: Set<Seq<char>>,
    n: int,
)
    requires
        n <= rs.len(),
        rs.len() <= usize::MAX,
    ensures
        forall|j: int|
            0 <= j < kept_rows(rs, cols, idents, n).len() ==> (#[trigger] kept_rows(rs, cols, idents, n)[j])
                < n && rs[kept_rows(rs, cols, idents, n)[j] as int] is Ok,
    decreases n,
{
    if n > 0 {
        lemma_kept_rows_ok(rs, cols, idents, n - 1);
        let prev = kept_rows(rs, cols, idents, n - 1);
        let cur = kept_rows(rs, cols, idents, n);
        assert forall|j: int| 0 <= j < cur.len() implies (#[trigger] cur[j]) < n && rs[cur[j] as int] is Ok by {
            if j < prev.len() {
                assert(cur[j] == prev[j]);
            } else {
                assert(cur[j] == (n - 1) as usize);
            }
        }
    }
}

fn copy_row(row: &Vec<String>) -> (r: Vec<String>)
    ensures
        r@ == row@,
{
    let mut out: Vec<String> = Vec::new();
    let n = row.len();
    let mut i: usize = 0;
    while i < n
        invariant
            n == row@.len(),
            i <= n,
            out@ == row@.subrange(0, i as int),
        decreases n - i,
    {
        out.push(row[i].clone());
        i = i + 1;
    }
    assert(out@ =~= row@);
    out
}

/// Reads `runways.csv` from its bytes and picks the rows to project: the
/// columns and the open runways of the chosen airports, in file order.
/// Their coordinates are for the caller to read.
pub fn runway_rows_of(runways_csv: &[u8], idents: &Vec<String>) -> (r: Result<
    (RunwayColumns, Vec<Vec<String>>),
    String,
>)
    ensures
        match r {
            Ok((c, rows)) => spec_runway_rows_of(csv_table(runways_csv@), string_set(idents@)) == Ok::<
                (RunwayColumns, Seq<Seq<Seq<char>>>),
                Seq<char>,
            >((c, rows@.map_values(|row: Vec<String>| strings(row@)))),
            Err(e) => spec_runway_rows_of(csv_table(runways_csv@), string_set(idents@)) == Err::<
                (RunwayColumns, Seq<Seq<Seq<char>>>),
                Seq<char>,
            >(e@),
        },
{
    let (headers, records) = match read_csv(runways_csv) {
        Err(e) => return Err(e),
        Ok(t) => t,
    };
    let cols = match runway_columns(&headers) {
        Err(e) => return Err(e),
        Ok(c) => c,
    };
    let picked = match runway_rows(&cols, &records, idents) {
        Err(e) => return Err(e),
        Ok(v) => v,
    };
    let ghost rs = records_view(records@);
    let ghost kept = kept_rows(rs, cols, string_set(idents@), rs.len() as int);
    let nrec = records.len();
    proof {
        assert(rs.len() == nrec);
        lemma_kept_rows_ok(rs, cols, string_set(idents@), rs.len() as int);
    }
    let mut rows: Vec<Vec<String>> = Vec::new();
    let m = picked.len();
    let mut j: usize = 0;
    while j < m
        invariant
            m == picked@.len(),
            picked@ == kept,
            rs == records_view(records@),
            rs.len() == records@.len(),
            forall|q: int| 0 <= q < kept.len() ==> (#[trigger] kept[q]) < rs.len() && rs[kept[q] as int] is Ok,
            j <= m,
            rows@.map_values(|row: Vec<String>| strings(row@)) =~= kept.subrange(0, j as int).map_values(
                |i: usize| rs[i as int]->Ok_0,
            ),
        decreases m - j,
    {
        let k = picked[j];
        assert(kept[j as int] == k);
        assert(rs[k as int] == record_view(records@[k as int]));
        match &records[k] {
            Ok(row) => {
                let c = copy_row(row);
                let ghost before = rows@;
                rows.push(c);
                proof {
                    assert(rows@ == before.push(c));
                    assert(kept.subrange(0, j + 1) =~= kept.subrange(0, j as int).push(k));
                    assert(rows@.map_values(|row: Vec<String>| strings(row@)) =~= before.map_values(
                        |row: Vec<String>| strings(row@),
                    ).push(strings(c@)));
                    assert(kept.subrange(0, j + 1).map_values(|i: usize| rs[i as int]->Ok_0) =~= kept.subrange(
                        0,
                        j as int,
                    ).map_values(|i: usize| rs[i as int]->Ok_0).push(rs[k as int]->Ok_0));
                }
            },
            Err(_) => {
                assert(false);
            },
        }
        j = j + 1;
    }
    assert(kept.subrange(0, m as int) =~= kept);
    Ok((cols, rows))
}

} // verus!

//! Decoded CSV records. A record is the sequence of SQL parameter values that
//! one CSV row binds into its target table, decoded under a header-driven
//! column mapping. A decode failure on any row aborts the whole load of its
//! file; it is never skip-and-continue.

use vstd::prelude::*;
use crate::errors::GLErr;
use crate::parse::{is_i64_text, i64_val, is_decimal_text, parse_i64, check_decimal};

verus! {

/// Spec-level model of one bound SQL parameter value.
pub enum SqlV {
    Int(int),
    Text(Seq<char>),
    Null,
}

/// One SQL parameter value as the loader binds it: an integer, a text field,
/// or NULL for an absent optional column. Coordinate fields keep their
/// decimal text verbatim; the database's own numeric affinity converts them.
#[derive(Debug, PartialEq)]
pub enum SqlValue {
    Int(i64),
    Text(String),
    Null,
}

impl View for SqlValue {
    type V = SqlV;

    open spec fn view(&self) -> SqlV {
        match self {
            SqlValue::Int(i) => SqlV::Int(*i as int),
            SqlValue::Text(s) => SqlV::Text(s@),
            SqlValue::Null => SqlV::Null,
        }
    }
}

impl DeepView for SqlValue {
    type V = SqlV;

    open spec fn deep_view(&self) -> SqlV {
        self.view()
    }
}

impl Clone for SqlValue {
    fn clone(&self) -> (r: Self)
        ensures
            r@ == self@,
    {
        match self {
            SqlValue::Int(i) => SqlValue::Int(*i),
            SqlValue::Text(s) => SqlValue::Text(s.clone()),
            SqlValue::Null => SqlValue::Null,
        }
    }
}

/// The five decoded row shapes. Network shapes are shared by their IPv4 and
/// IPv6 datasets, which differ only in source file and target table.
#[derive(Clone, Copy, Debug, PartialEq, Eq, Structural)]
pub enum RecordShape {
    CountryLocation,
    CountryNetwork,
    CityLocation,
    CityNetwork,
    AsnNetwork,
}

/// Number of SQL parameters one decoded record of the shape binds.
pub open spec fn arity_of(shape: RecordShape) -> nat {
    match shape {
        RecordShape::CountryLocation => 6,
        RecordShape::CountryNetwork => 5,
        RecordShape::CityLocation => 13,
        RecordShape::CityNetwork => 9,
        RecordShape::AsnNetwork => 3,
    }
}

/// Index of the first header column named `name`.
pub open spec fn spec_col_index(h: Seq<Seq<char>>, name: Seq<char>) -> Option<int>
    decreases h.len(),
{
    if h.len() == 0 {
        None
    } else if h[0] == name {
        Some(0int)
    } else {
        match spec_col_index(h.skip(1), name) {
            Some(i) => Some(i + 1),
            None => None,
        }
    }
}

/// A forward scan that has seen no match up to `i` settles `spec_col_index`.
proof fn lemma_col_index_scan(h: Seq<Seq<char>>, name: Seq<char>, i: int)
    requires
        0 <= i <= h.len(),
        forall|j: int| 0 <= j < i ==> h[j] != name,
    ensures
        i == h.len() ==> spec_col_index(h, name) is None,
        i < h.len() && h[i] == name ==> spec_col_index(h, name) == Some(i),
    decreases h.len(),
{
    if h.len() > 0 && i > 0 {
        assert(h[0] != name);
        lemma_col_index_scan(h.skip(1), name, i - 1);
        assert(forall|j: int| 0 <= j < i - 1 ==> h.skip(1)[j] == h[j + 1]);
        if i < h.len() {
            assert(h.skip(1)[i - 1] == h[i]);
        }
    }
}

/// Finds the first header column named `name`.
pub fn col_index(header: &Vec<String>, name: &str) -> (r: Option<usize>)
    ensures
        match r {
            Some(i) => spec_col_index(header.deep_view(), name@) == Some(i as int),
            None => spec_col_index(header.deep_view(), name@) is None,
        },
{
    let needle = String::from_str(name);
    let n = header.len();
    let mut i: usize = 0;
    while i < n
        invariant
            i <= n == header@.len(),
            needle@ == name@,
            forall|j: int| 0 <= j < i ==> header.deep_view()[j] != name@,
        decreases n - i,
    {
        let h: &String = &header[i];
        assert(header.deep_view()[i as int] == header@[i as int]@);
        if *h == needle {
            proof {
                lemma_col_index_scan(header.deep_view(), name@, i as int);
            }
            return Some(i);
        }
        i = i + 1;
    }
    proof {
        lemma_col_index_scan(header.deep_view(), name@, n as int);
    }
    None
}

/// The text of the column named `name` in this row, if the header has the
/// column and the row is long enough to carry it.
pub open spec fn field_at(h: Seq<Seq<char>>, row: Seq<Seq<char>>, name: Seq<char>) -> Option<
    Seq<char>,
> {
    match spec_col_index(h, name) {
        Some(i) => if i < row.len() {
            Some(row[i])
        } else {
            None
        },
        None => None,
    }
}

/// A required signed-integer column.
pub open spec fn dec_req_i64(h: Seq<Seq<char>>, row: Seq<Seq<char>>, name: Seq<char>) -> Option<
    SqlV,
> {
    match field_at(h, row, name) {
        Some(f) => if is_i64_text(f) {
            Some(SqlV::Int(i64_val(f)))
        } else {
            None
        },
        None => None,
    }
}

/// An optional signed-integer column: an empty field becomes NULL.
pub open spec fn dec_opt_i64(h: Seq<Seq<char>>, row: Seq<Seq<char>>, name: Seq<char>) -> Option<
    SqlV,
> {
    match field_at(h, row, name) {
        Some(f) => if f.len() == 0 {
            Some(SqlV::Null)
        } else if is_i64_text(f) {
            Some(SqlV::Int(i64_val(f)))
        } else {
            None
        },
        None => None,
    }
}

/// A required free-text column, kept verbatim.
pub open spec fn dec_text(h: Seq<Seq<char>>, row: Seq<Seq<char>>, name: Seq<char>) -> Option<
    SqlV,
> {
    match field_at(h, row, name) {
        Some(f) => Some(SqlV::Text(f)),
        None => None,
    }
}

/// A membership flag, normalized to the one boolean representation both
/// location tables store: `1` is true; `0` or an empty field is false.
pub open spec fn dec_bool(h: Seq<Seq<char>>, row: Seq<Seq<char>>, name: Seq<char>) -> Option<
    SqlV,
> {
    match field_at(h, row, name) {
        Some(f) => if f == "1"@ {
            Some(SqlV::Int(1))
        } else if f == "0"@ || f.len() == 0 {
            Some(SqlV::Int(0))
        } else {
            None
        },
        None => None,
    }
}

/// An optional coordinate column: empty becomes NULL, otherwise the field
/// must have the plain decimal shape and is kept as its text.
pub open spec fn dec_opt_decimal(h: Seq<Seq<char>>, row: Seq<Seq<char>>, name: Seq<char>) -> Option<
    SqlV,
> {
    match field_at(h, row, name) {
        Some(f) => if f.len() == 0 {
            Some(SqlV::Null)
        } else if is_decimal_text(f) {
            Some(SqlV::Text(f))
        } else {
            None
        },
        None => None,
    }
}

/// One exec field result agrees with its spec-level counterpart.
pub open spec fn opt_matches(r: Option<SqlValue>, m: Option<SqlV>) -> bool {
    match m {
        Some(v) => r is Some && r->0@ == v,
        None => r is None,
    }
}

/// Looks the named column up in this row.
fn get_field<'a>(header: &Vec<String>, row: &'a Vec<String>, name: &str) -> (r: Option<
    &'a String,
>)
    ensures
        match field_at(header.deep_view(), row.deep_view(), name@) {
            Some(f) => r is Some && r->0@ == f,
            None => r is None,
        },
{
    match col_index(header, name) {
        Some(i) => if i < row.len() {
            assert(row.deep_view()[i as int] == row@[i as int]@);
            Some(&row[i])
        } else {
            None
        },
        None => None,
    }
}

fn take_req_i64(header: &Vec<String>, row: &Vec<String>, name: &str) -> (r: Option<SqlValue>)
    ensures
        opt_matches(r, dec_req_i64(header.deep_view(), row.deep_view(), name@)),
{
    match get_field(header, row, name) {
        Some(f) => match parse_i64(f.as_str()) {
            Some(v) => Some(SqlValue::Int(v)),
            None => None,
        },
        None => None,
    }
}

fn take_opt_i64(header: &Vec<String>, row: &Vec<String>, name: &str) -> (r: Option<SqlValue>)
    ensures
        opt_matches(r, dec_opt_i64(header.deep_view(), row.deep_view(), name@)),
{
    match get_field(header, row, name) {
        Some(f) => if f.as_str().is_empty() {
            Some(SqlValue::Null)
        } else {
            match parse_i64(f.as_str()) {
                Some(v) => Some(SqlValue::Int(v)),
                None => None,
            }
        },
        None => None,
    }
}

fn take_text(header: &Vec<String>, row: &Vec<String>, name: &str) -> (r: Option<SqlValue>)
    ensures
        opt_matches(r, dec_text(header.deep_view(), row.deep_view(), name@)),
{
    match get_field(header, row, name) {
        Some(f) => Some(SqlValue::Text(f.clone())),
        None => None,
    }
}

fn take_bool(header: &Vec<String>, row: &Vec<String>, name: &str) -> (r: Option<SqlValue>)
    ensures
        opt_matches(r, dec_bool(header.deep_view(), row.deep_view(), name@)),
{
    match get_field(header, row, name) {
        Some(f) => {
            let one = String::from_str("1");
            let zero = String::from_str("0");
            if *f == one {
                Some(SqlValue::Int(1))
            } else if *f == zero || f.as_str().is_empty() {
                Some(SqlValue::Int(0))
            } else {
                None
            }
        },
        None => None,
    }
}

fn take_opt_decimal(header: &Vec<String>, row: &Vec<String>, name: &str) -> (r: Option<SqlValue>)
    ensures
        opt_matches(r, dec_opt_decimal(header.deep_view(), row.deep_view(), name@)),
{
    match get_field(header, row, name) {
        Some(f) => if f.as_str().is_empty() {
            Some(SqlValue::Null)
        } else if check_decimal(f.as_str()) {
            Some(SqlValue::Text(f.clone()))
        } else {
            None
        },
        None => None,
    }
}

/// The decoded parameter sequence of one CSV row under a header, or nothing
/// where the row does not match the shape: a required column missing from the
/// header, a row too short to carry a mapped column, or a field that fails
/// its column's syntax.
pub open spec fn decode_spec(shape: RecordShape, h: Seq<Seq<char>>, row: Seq<Seq<char>>) -> Option<
    Seq<SqlV>,
> {
    match shape {
        RecordShape::CountryLocation => {
            let f0 = dec_req_i64(h, row, "geoname_id"@);
            let f1 = dec_text(h, row, "continent_code"@);
            let f2 = dec_text(h, row, "continent_name"@);
            let f3 = dec_text(h, row, "country_iso_code"@);
            let f4 = dec_text(h, row, "country_name"@);
            let f5 = dec_bool(h, row, "is_in_european_union"@);
            if f0 is Some && f1 is Some && f2 is Some && f3 is Some && f4 is Some && f5 is Some {
                Some(seq![f0->0, f1->0, f2->0, f3->0, f4->0, f5->0])
            } else {
                None
            }
        },
        RecordShape::CountryNetwork => {
            let f0 = dec_text(h, row, "network"@);
            let f1 = dec_opt_i64(h, row, "geoname_id"@);
            let f2 = dec_opt_i64(h, row, "registered_country_geoname_id"@);
            let f3 = dec_req_i64(h, row, "is_anonymous_proxy"@);
            let f4 = dec_req_i64(h, row, "is_satellite_provider"@);
            if f0 is Some && f1 is Some && f2 is Some && f3 is Some && f4 is Some {
                Some(seq![f0->0, f1->0, f2->0, f3->0, f4->0])
            } else {
                None
            }
        },
        RecordShape::CityLocation => {
            let f0 = dec_req_i64(h, row, "geoname_id"@);
            let f1 = dec_text(h, row, "continent_code"@);
            let f2 = dec_text(h, row, "continent_name"@);
            let f3 = dec_text(h, row, "country_iso_code"@);
            let f4 = dec_text(h, row, "country_name"@);
            let f5 = dec_text(h, row, "subdivision_1_iso_code"@);
            let f6 = dec_text(h, row, "subdivision_1_name"@);
            let f7 = dec_text(h, row, "subdivision_2_iso_code"@);
            let f8 = dec_text(h, row, "subdivision_2_name"@);
            let f9 = dec_text(h, row, "city_name"@);
            let f10 = dec_text(h, row, "metro_code"@);
            let f11 = dec_text(h, row, "time_zone"@);
            let f12 = dec_bool(h, row, "is_in_european_union"@);
            if f0 is Some && f1 is Some && f2 is Some && f3 is Some && f4 is Some && f5 is Some
                && f6 is Some && f7 is Some && f8 is Some && f9 is Some && f10 is Some
                && f11 is Some && f12 is Some {
                Some(
                    seq![
                        f0->0, f1->0, f2->0, f3->0, f4->0, f5->0, f6->0, f7->0, f8->0, f9->0,
                        f10->0, f11->0, f12->0,
                    ],
                )
            } else {
                None
            }
        },
        RecordShape::CityNetwork => {
            let f0 = dec_text(h, row, "network"@);
            let f1 = dec_opt_i64(h, row, "geoname_id"@);
            let f2 = dec_opt_i64(h, row, "registered_country_geoname_id"@);
            let f3 = dec_req_i64(h, row, "is_anonymous_proxy"@);
            let f4 = dec_req_i64(h, row, "is_satellite_provider"@);
            let f5 = dec_text(h, row, "postal_code"@);
            let f6 = dec_opt_decimal(h, row, "latitude"@);
            let f7 = dec_opt_decimal(h, row, "longitude"@);
            let f8 = dec_opt_i64(h, row, "accuracy_radius"@);
            if f0 is Some && f1 is Some && f2 is Some && f3 is Some && f4 is Some && f5 is Some
                && f6 is Some && f7 is Some && f8 is Some {
                Some(seq![f0->0, f1->0, f2->0, f3->0, f4->0, f5->0, f6->0, f7->0, f8->0])
            } else {
                None
            }
        },
        RecordShape::AsnNetwork => {
            let f0 = dec_text(h, row, "network"@);
            let f1 = dec_req_i64(h, row, "autonomous_system_number"@);
            let f2 = dec_text(h, row, "autonomous_system_organization"@);
            if f0 is Some && f1 is Some && f2 is Some {
                Some(seq![f0->0, f1->0, f2->0])
            } else {
                None
            }
        },
    }
}

/// Every decoded record binds exactly its shape's number of parameters.
pub proof fn lemma_decode_arity(shape: RecordShape, h: Seq<Seq<char>>, row: Seq<Seq<char>>)
    ensures
        decode_spec(shape, h, row) is Some ==> decode_spec(shape, h, row)->0.len() == arity_of(
            shape,
        ),
{
}

/// Decodes one CSV row into the parameter sequence of its dataset's shape.
pub fn decode_record(shape: RecordShape, header: &Vec<String>, row: &Vec<String>) -> (r: Result<
    Vec<SqlValue>,
    GLErr,
>)
    ensures
        r is Ok <==> decode_spec(shape, header.deep_view(), row.deep_view()) is Some,
        r is Ok ==> r->Ok_0.deep_view() == decode_spec(
            shape,
            header.deep_view(),
            row.deep_view(),
        )->0,
        r is Err ==> r->Err_0 == GLErr::DecodeErr,
{
    let mut v: Vec<SqlValue> = Vec::new();
    match shape {
        RecordShape::CountryLocation => {
            match take_req_i64(header, row, "geoname_id") {
                Some(f) => v.push(f),
                None => {
                    return Err(GLErr::DecodeErr);
                },
            }
            match take_text(header, row, "continent_code") {
                Some(f) => v.push(f),
                None => {
                    return Err(GLErr::DecodeErr);
                },
            }
            match take_text(header, row, "continent_name") {
                Some(f) => v.push(f),
                None => {
                    return Err(GLErr::DecodeErr);
                },
            }
            match take_text(header, row, "country_iso_code") {
                Some(f) => v.push(f),
                None => {
                    return Err(GLErr::DecodeErr);
                },
            }
            match take_text(header, row, "country_name") {
                Some(f) => v.push(f),
                None => {
                    return Err(GLErr::DecodeErr);
                },
            }
            match take_bool(header, row, "is_in_european_union") {
                Some(f) => v.push(f),
                None => {
                    return Err(GLErr::DecodeErr);
                },
            }
            assert(v.deep_view() =~= decode_spec(
                RecordShape::CountryLocation,
                header.deep_view(),
                row.deep_view(),
            )->0);
        },
        RecordShape::CountryNetwork => {
            match take_text(header, row, "network") {
                Some(f) => v.push(f),
                None => {
                    return Err(GLErr::DecodeErr);
                },
            }
            match take_opt_i64(header, row, "geoname_id") {
                Some(f) => v.push(f),
                None => {
                    return Err(GLErr::DecodeErr);
                },
            }
            match take_opt_i64(header, row, "registered_country_geoname_id") {
                Some(f) => v.push(f),
                None => {
                    return Err(GLErr::DecodeErr);
                },
            }
            match take_req_i64(header, row, "is_anonymous_proxy") {
                Some(f) => v.push(f),
                None => {
                    return Err(GLErr::DecodeErr);
                },
            }
            match take_req_i64(header, row, "is_satellite_provider") {
                Some(f) => v.push(f),
                None => {
                    return Err(GLErr::DecodeErr);
                },
            }
            assert(v.deep_view() =~= decode_spec(
                RecordShape::CountryNetwork,
                header.deep_view(),
                row.deep_view(),
            )->0);
        },
        RecordShape::CityLocation => {
            match take_req_i64(header, row, "geoname_id") {
                Some(f) => v.push(f),
                None => {
                    return Err(GLErr::DecodeErr);
                },
            }
            match take_text(header, row, "continent_code") {
                Some(f) => v.push(f),
                None => {
                    return Err(GLErr::DecodeErr);
                },
            }
            match take_text(header, row, "continent_name") {
                Some(f) => v.push(f),
                None => {
                    return Err(GLErr::DecodeErr);
                },
            }
            match take_text(header, row, "country_iso_code") {
                Some(f) => v.push(f),
                None => {
                    return Err(GLErr::DecodeErr);
                },
            }
            match take_text(header, row, "country_name") {
                Some(f) => v.push(f),
                None => {
                    return Err(GLErr::DecodeErr);
                },
            }
            match take_text(header, row, "subdivision_1_iso_code") {
                Some(f) => v.push(f),
                None => {
                    return Err(GLErr::DecodeErr);
                },
            }
            match take_text(header, row, "subdivision_1_name") {
                Some(f) => v.push(f),
                None => {
                    return Err(GLErr::DecodeErr);
                },
            }
            match take_text(header, row, "subdivision_2_iso_code") {
                Some(f) => v.push(f),
                None => {
                    return Err(GLErr::DecodeErr);
                },
            }
            match take_text(header, row, "subdivision_2_name") {
                Some(f) => v.push(f),
                None => {
                    return Err(GLErr::DecodeErr);
                },
            }
            match take_text(header, row, "city_name") {
                Some(f) => v.push(f),
                None => {
                    return Err(GLErr::DecodeErr);
                },
            }
            match take_text(header, row, "metro_code") {
                Some(f) => v.push(f),
                None => {
                    return Err(GLErr::DecodeErr);
                },
            }
            match take_text(header, row, "time_zone") {
                Some(f) => v.push(f),
                None => {
                    return Err(GLErr::DecodeErr);
                },
            }
            match take_bool(header, row, "is_in_european_union") {
                Some(f) => v.push(f),
                None => {
                    return Err(GLErr::DecodeErr);
                },
            }
            assert(v.deep_view() =~= decode_spec(
                RecordShape::CityLocation,
                header.deep_view(),
                row.deep_view(),
            )->0);
        },
        RecordShape::CityNetwork => {
            match take_text(header, row, "network") {
                Some(f) => v.push(f),
                None => {
                    return Err(GLErr::DecodeErr);
                },
            }
            match take_opt_i64(header, row, "geoname_id") {
                Some(f) => v.push(f),
                None => {
                    return Err(GLErr::DecodeErr);
                },
            }
            match take_opt_i64(header, row, "registered_country_geoname_id") {
                Some(f) => v.push(f),
                None => {
                    return Err(GLErr::DecodeErr);
                },
            }
            match take_req_i64(header, row, "is_anonymous_proxy") {
                Some(f) => v.push(f),
                None => {
                    return Err(GLErr::DecodeErr);
                },
            }
            match take_req_i64(header, row, "is_satellite_provider") {
                Some(f) => v.push(f),
                None => {
                    return Err(GLErr::DecodeErr);
                },
            }
            match take_text(header, row, "postal_code") {
                Some(f) => v.push(f),
                None => {
                    return Err(GLErr::DecodeErr);
                },
            }
            match take_opt_decimal(header, row, "latitude") {
                Some(f) => v.push(f),
                None => {
                    return Err(GLErr::DecodeErr);
                },
            }
            match take_opt_decimal(header, row, "longitude") {
                Some(f) => v.push(f),
                None => {
                    return Err(GLErr::DecodeErr);
                },
            }
            match take_opt_i64(header, row, "accuracy_radius") {
                Some(f) => v.push(f),
                None => {
                    return Err(GLErr::DecodeErr);
                },
            }
            assert(v.deep_view() =~= decode_spec(
                RecordShape::CityNetwork,
                header.deep_view(),
                row.deep_view(),
            )->0);
        },
        RecordShape::AsnNetwork => {
            match take_text(header, row, "network") {
                Some(f) => v.push(f),
                None => {
                    return Err(GLErr::DecodeErr);
                },
            }
            match take_req_i64(header, row, "autonomous_system_number") {
                Some(f) => v.push(f),
                None => {
                    return Err(GLErr::DecodeErr);
                },
            }
            match take_text(header, row, "autonomous_system_organization") {
                Some(f) => v.push(f),
                None => {
                    return Err(GLErr::DecodeErr);
                },
            }
            assert(v.deep_view() =~= decode_spec(
                RecordShape::AsnNetwork,
                header.deep_view(),
                row.deep_view(),
            )->0);
        },
    }
    Ok(v)
}

} // verus!

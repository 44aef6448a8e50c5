use geolite::errors::GLErr;
use geolite::record::{col_index, decode_record, RecordShape, SqlValue};

fn strings(fields: &[&str]) -> Vec<String> {
    fields.iter().map(|s| String::from(*s)).collect()
}

fn country_net_header() -> Vec<String> {
    strings(&[
        "network",
        "geoname_id",
        "registered_country_geoname_id",
        "is_anonymous_proxy",
        "is_satellite_provider",
    ])
}

#[test]
fn col_index_finds_first_match() {
    let header = country_net_header();
    assert_eq!(col_index(&header, "network"), Some(0));
    assert_eq!(col_index(&header, "is_satellite_provider"), Some(4));
    assert_eq!(col_index(&header, "city_name"), None);
}

#[test]
fn decode_country_location_row() {
    let header = strings(&[
        "geoname_id",
        "locale_code",
        "continent_code",
        "continent_name",
        "country_iso_code",
        "country_name",
        "is_in_european_union",
    ]);
    let row = strings(&["2750405", "en", "EU", "Europe", "NL", "Netherlands", "1"]);
    let rec = decode_record(RecordShape::CountryLocation, &header, &row).unwrap();
    assert_eq!(
        rec,
        vec![
            SqlValue::Int(2750405),
            SqlValue::Text(String::from("EU")),
            SqlValue::Text(String::from("Europe")),
            SqlValue::Text(String::from("NL")),
            SqlValue::Text(String::from("Netherlands")),
            SqlValue::Int(1),
        ]
    );
}

#[test]
fn decode_normalizes_membership_flag() {
    let header = strings(&[
        "geoname_id",
        "continent_code",
        "continent_name",
        "country_iso_code",
        "country_name",
        "is_in_european_union",
    ]);
    let row = strings(&["49518", "AF", "Africa", "RW", "Rwanda", "0"]);
    let rec = decode_record(RecordShape::CountryLocation, &header, &row).unwrap();
    assert_eq!(rec[5], SqlValue::Int(0));
    let row = strings(&["49518", "AF", "Africa", "RW", "Rwanda", ""]);
    let rec = decode_record(RecordShape::CountryLocation, &header, &row).unwrap();
    assert_eq!(rec[5], SqlValue::Int(0));
    let row = strings(&["49518", "AF", "Africa", "RW", "Rwanda", "2"]);
    assert_eq!(
        decode_record(RecordShape::CountryLocation, &header, &row),
        Err(GLErr::DecodeErr)
    );
}

#[test]
fn decode_country_network_optional_ids() {
    let header = country_net_header();
    let row = strings(&["1.0.0.0/24", "2077456", "", "0", "1"]);
    let rec = decode_record(RecordShape::CountryNetwork, &header, &row).unwrap();
    assert_eq!(
        rec,
        vec![
            SqlValue::Text(String::from("1.0.0.0/24")),
            SqlValue::Int(2077456),
            SqlValue::Null,
            SqlValue::Int(0),
            SqlValue::Int(1),
        ]
    );
}

#[test]
fn decode_fails_on_missing_required_column() {
    let header = strings(&["network", "geoname_id"]);
    let row = strings(&["1.0.0.0/24", "2077456"]);
    assert_eq!(
        decode_record(RecordShape::CountryNetwork, &header, &row),
        Err(GLErr::DecodeErr)
    );
}

#[test]
fn decode_fails_on_short_row() {
    let header = country_net_header();
    let row = strings(&["1.0.0.0/24", "2077456"]);
    assert_eq!(
        decode_record(RecordShape::CountryNetwork, &header, &row),
        Err(GLErr::DecodeErr)
    );
}

#[test]
fn decode_fails_on_non_numeric_id() {
    let header = country_net_header();
    let row = strings(&["1.0.0.0/24", "abc", "", "0", "0"]);
    assert_eq!(
        decode_record(RecordShape::CountryNetwork, &header, &row),
        Err(GLErr::DecodeErr)
    );
}

#[test]
fn decode_city_network_keeps_coordinates_as_text() {
    let header = strings(&[
        "network",
        "geoname_id",
        "registered_country_geoname_id",
        "represented_country_geoname_id",
        "is_anonymous_proxy",
        "is_satellite_provider",
        "postal_code",
        "latitude",
        "longitude",
        "accuracy_radius",
    ]);
    let row = strings(&[
        "81.2.69.142/31",
        "2643743",
        "6252001",
        "",
        "0",
        "0",
        "EC4N",
        "51.5142",
        "-0.0931",
        "10",
    ]);
    let rec = decode_record(RecordShape::CityNetwork, &header, &row).unwrap();
    assert_eq!(
        rec,
        vec![
            SqlValue::Text(String::from("81.2.69.142/31")),
            SqlValue::Int(2643743),
            SqlValue::Int(6252001),
            SqlValue::Int(0),
            SqlValue::Int(0),
            SqlValue::Text(String::from("EC4N")),
            SqlValue::Text(String::from("51.5142")),
            SqlValue::Text(String::from("-0.0931")),
            SqlValue::Int(10),
        ]
    );
    let bad = strings(&[
        "81.2.69.142/31",
        "2643743",
        "6252001",
        "",
        "0",
        "0",
        "EC4N",
        "51.51.42",
        "-0.0931",
        "10",
    ]);
    assert_eq!(
        decode_record(RecordShape::CityNetwork, &header, &bad),
        Err(GLErr::DecodeErr)
    );
}

#[test]
fn decode_asn_row() {
    let header = strings(&["network", "autonomous_system_number", "autonomous_system_organization"]);
    let row = strings(&["1.0.0.0/24", "13335", "CLOUDFLARENET"]);
    let rec = decode_record(RecordShape::AsnNetwork, &header, &row).unwrap();
    assert_eq!(
        rec,
        vec![
            SqlValue::Text(String::from("1.0.0.0/24")),
            SqlValue::Int(13335),
            SqlValue::Text(String::from("CLOUDFLARENET")),
        ]
    );
}

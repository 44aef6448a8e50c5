use geolite::batch::{descriptor_for, run_load, Dataset};
use geolite::db::{build_tables, SqlLog};
use geolite::errors::GLErr;
use geolite::swap::{promote, FsModel, GenSlot};

fn strings(fields: &[&str]) -> Vec<String> {
    fields.iter().map(|s| String::from(*s)).collect()
}

fn country_net_header() -> Vec<String> {
    strings(&[
        "network",
        "geoname_id",
        "registered_country_geoname_id",
        "is_anonymous_proxy",
        "is_satellite_provider",
    ])
}

#[test]
fn three_records_two_batches_then_lookup() {
    // Build the candidate database.
    let conn = rusqlite::Connection::open_in_memory().unwrap();
    let mut log = SqlLog::new();
    build_tables(&conn, &mut log).unwrap();
    let mut desc = descriptor_for(Dataset::CountryNetworks4);
    desc.batch_threshold = 2;
    let header = country_net_header();
    let rows = vec![
        strings(&["1.0.0.0/24", "2077456", "2077456", "0", "0"]),
        strings(&["1.0.1.0/24", "1814991", "1814991", "0", "0"]),
        strings(&["1.0.2.0/24", "1814991", "1814991", "0", "0"]),
    ];
    let sink = run_load(desc, &header, &rows, &conn, 10).unwrap();
    assert_eq!(sink.rows_done, 3);
    assert_eq!(sink.batches_done, 2);
    assert_eq!(sink.batch_sizes, vec![2, 1]);

    // Promote the candidate generation over the active one.
    let mut fs = FsModel {
        marker: GenSlot { active: Some(1000), candidate: Some(2000), retiring: None },
        db: GenSlot { active: Some(1), candidate: Some(2), retiring: None },
        staging: true,
    };
    promote(&mut fs).unwrap();
    assert_eq!(fs.marker.active, Some(2000));
    assert_eq!(fs.db.active, Some(2));
    assert_eq!(fs.marker.candidate, None);
    assert_eq!(fs.db.candidate, None);
    assert!(!fs.staging);

    // The promoted database answers the lookup.
    let gid: i64 = conn
        .query_row(
            "SELECT geoname_id FROM countries4 WHERE network = ?1",
            ["1.0.1.0/24"],
            |r| r.get(0),
        )
        .unwrap();
    assert_eq!(gid, 1814991);
}

#[test]
fn decode_error_on_second_row_aborts_and_leaves_active_untouched() {
    // The active generation before the refresh.
    let active = FsModel {
        marker: GenSlot { active: Some(1000), candidate: None, retiring: None },
        db: GenSlot { active: Some(1), candidate: None, retiring: None },
        staging: false,
    };

    // The candidate build fails on the second CSV row.
    let conn = rusqlite::Connection::open_in_memory().unwrap();
    let mut log = SqlLog::new();
    build_tables(&conn, &mut log).unwrap();
    let mut desc = descriptor_for(Dataset::CountryNetworks4);
    desc.batch_threshold = 2;
    let header = country_net_header();
    let rows = vec![
        strings(&["1.0.0.0/24", "2077456", "2077456", "0", "0"]),
        strings(&["1.0.1.0/24", "not-a-number", "1814991", "0", "0"]),
        strings(&["1.0.2.0/24", "1814991", "1814991", "0", "0"]),
    ];
    let err = match run_load(desc, &header, &rows, &conn, 10) {
        Ok(_) => panic!("a decode error on the second row must abort the load"),
        Err(e) => e,
    };
    assert_eq!(err, GLErr::DecodeErr);

    // The load aborted before any batch of this file was owed; no rename
    // ever runs on a failed refresh, so the active generation stands.
    let n: i64 = conn.query_row("SELECT COUNT(*) FROM countries4", [], |r| r.get(0)).unwrap();
    assert_eq!(n, 0);
    assert_eq!(active.marker.active, Some(1000));
    assert_eq!(active.db.active, Some(1));
    assert_eq!(active.marker.candidate, None);
    assert_eq!(active.db.retiring, None);
}

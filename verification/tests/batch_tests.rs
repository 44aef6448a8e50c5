use geolite::batch::{descriptor_for, run_load, Dataset, Handoff, Msg};
use geolite::db::{build_tables, SqlLog};
use geolite::record::SqlValue;
use geolite::sql::build_insert_sql;

fn strings(fields: &[&str]) -> Vec<String> {
    fields.iter().map(|s| String::from(*s)).collect()
}

fn asn_header() -> Vec<String> {
    strings(&["network", "autonomous_system_number", "autonomous_system_organization"])
}

fn asn_rows(n: usize) -> Vec<Vec<String>> {
    let mut rows = Vec::new();
    let mut i: usize = 0;
    while i < n {
        rows.push(strings(&[
            &format!("10.0.{}.0/24", i),
            &format!("{}", 1000 + i),
            &format!("org-{}", i),
        ]));
        i += 1;
    }
    rows
}

fn asn_row_count(conn: &rusqlite::Connection) -> i64 {
    conn.query_row("SELECT COUNT(*) FROM asn4", [], |r| r.get(0)).unwrap()
}

#[test]
fn backpressure_full_handoff_refuses_without_error() {
    let mut h = Handoff::new(3);
    for k in 0..3 {
        assert!(h.try_send(Msg::Rec(vec![SqlValue::Int(k)])).is_ok());
    }
    // The fourth send is refused and hands the message back unchanged; the
    // producer can only wait.
    match h.try_send(Msg::Rec(vec![SqlValue::Int(3)])) {
        Ok(()) => panic!("send against a full handoff must be refused"),
        Err(m) => assert_eq!(m, Msg::Rec(vec![SqlValue::Int(3)])),
    }
    assert_eq!(h.len(), 3);
    // Messages come out oldest first, and room made by the consumer lets
    // the producer go on.
    assert_eq!(h.try_recv(), Some(Msg::Rec(vec![SqlValue::Int(0)])));
    assert!(h.try_send(Msg::Rec(vec![SqlValue::Int(3)])).is_ok());
    assert_eq!(h.try_recv(), Some(Msg::Rec(vec![SqlValue::Int(1)])));
    assert_eq!(h.try_recv(), Some(Msg::Rec(vec![SqlValue::Int(2)])));
    assert_eq!(h.try_recv(), Some(Msg::Rec(vec![SqlValue::Int(3)])));
    assert_eq!(h.try_recv(), None);
}

#[test]
fn batch_count_is_ceiling_of_rows_over_threshold() {
    let conn = rusqlite::Connection::open_in_memory().unwrap();
    let mut log = SqlLog::new();
    build_tables(&conn, &mut log).unwrap();
    let mut desc = descriptor_for(Dataset::AsnNetworks4);
    desc.batch_threshold = 2;
    let header = asn_header();

    let sink = run_load(desc, &header, &asn_rows(5), &conn, 10).unwrap();
    assert_eq!(sink.rows_done, 5);
    assert_eq!(sink.batches_done, 3);
    assert_eq!(sink.batch_sizes, vec![2, 2, 1]);
    assert_eq!(asn_row_count(&conn), 5);
}

#[test]
fn exact_multiple_of_threshold_has_no_partial_batch() {
    let conn = rusqlite::Connection::open_in_memory().unwrap();
    let mut log = SqlLog::new();
    build_tables(&conn, &mut log).unwrap();
    let mut desc = descriptor_for(Dataset::AsnNetworks4);
    desc.batch_threshold = 2;
    let sink = run_load(desc, &asn_header(), &asn_rows(4), &conn, 10).unwrap();
    assert_eq!(sink.batches_done, 2);
    assert_eq!(sink.batch_sizes, vec![2, 2]);
    assert_eq!(asn_row_count(&conn), 4);
}

#[test]
fn empty_input_executes_no_batch() {
    let conn = rusqlite::Connection::open_in_memory().unwrap();
    let mut log = SqlLog::new();
    build_tables(&conn, &mut log).unwrap();
    let desc = descriptor_for(Dataset::AsnNetworks4);
    let sink = run_load(desc, &asn_header(), &Vec::new(), &conn, 10).unwrap();
    assert_eq!(sink.rows_done, 0);
    assert_eq!(sink.batches_done, 0);
    assert_eq!(sink.batch_sizes, Vec::<usize>::new());
    assert_eq!(asn_row_count(&conn), 0);
}

#[test]
fn rows_arrive_in_original_order() {
    let conn = rusqlite::Connection::open_in_memory().unwrap();
    let mut log = SqlLog::new();
    build_tables(&conn, &mut log).unwrap();
    let mut desc = descriptor_for(Dataset::AsnNetworks4);
    desc.batch_threshold = 3;
    // A handoff narrower than the input forces the producer to wait on the
    // consumer part way through.
    let sink = run_load(desc, &asn_header(), &asn_rows(8), &conn, 2).unwrap();
    assert_eq!(sink.rows_done, 8);
    assert_eq!(sink.batch_sizes, vec![3, 3, 2]);
    let mut stmt = conn.prepare("SELECT autonomous_system_number FROM asn4 ORDER BY rowid").unwrap();
    let got: Vec<i64> = stmt
        .query_map([], |r| r.get(0))
        .unwrap()
        .map(|v| v.unwrap())
        .collect();
    assert_eq!(got, vec![1000, 1001, 1002, 1003, 1004, 1005, 1006, 1007]);
}

#[test]
fn insert_failure_aborts_the_load() {
    // No tables were created, so the first flush must fail; the load
    // aborts loudly instead of dropping the batch and going on.
    let conn = rusqlite::Connection::open_in_memory().unwrap();
    let mut desc = descriptor_for(Dataset::AsnNetworks4);
    desc.batch_threshold = 2;
    match run_load(desc, &asn_header(), &asn_rows(3), &conn, 10) {
        Ok(_) => panic!("an insert failure must abort the load"),
        Err(e) => assert_eq!(e, geolite::errors::GLErr::SqliteErr),
    }
}

#[test]
fn insert_sql_text_is_exact() {
    let cols = strings(&["network", "autonomous_system_number", "autonomous_system_org"]);
    let sql = build_insert_sql("asn4", &cols, 2);
    assert_eq!(
        sql,
        "INSERT INTO asn4(network,autonomous_system_number,autonomous_system_org) \
         VALUES (?,?,?),(?,?,?)"
    );
    let sql = build_insert_sql("asn4", &cols, 1);
    assert_eq!(
        sql,
        "INSERT INTO asn4(network,autonomous_system_number,autonomous_system_org) VALUES (?,?,?)"
    );
}

#[test]
fn build_tables_is_idempotent() {
    let conn = rusqlite::Connection::open_in_memory().unwrap();
    let mut log = SqlLog::new();
    build_tables(&conn, &mut log).unwrap();
    build_tables(&conn, &mut log).unwrap();
    conn.execute(
        "INSERT INTO countries(geoname_id, continent_code, continent_name, country_iso_code, \
         country_name, is_in_eu) VALUES (1, 'EU', 'Europe', 'NL', 'Netherlands', 1)",
        [],
    )
    .unwrap();
    let n: i64 = conn.query_row("SELECT COUNT(*) FROM countries", [], |r| r.get(0)).unwrap();
    assert_eq!(n, 1);
}

#[test]
fn descriptors_route_asn_records_to_asn_tables() {
    let d4 = descriptor_for(Dataset::AsnNetworks4);
    assert_eq!(d4.table, "asn4");
    assert_eq!(d4.batch_threshold, 100000);
    let d6 = descriptor_for(Dataset::AsnNetworks6);
    assert_eq!(d6.table, "asn6");
    let c = descriptor_for(Dataset::CountryLocations);
    assert_eq!(c.table, "countries");
    assert_eq!(c.batch_threshold, 5000);
    assert_eq!(c.columns.len(), 6);
    let cn = descriptor_for(Dataset::CityNetworks6);
    assert_eq!(cn.table, "cities6");
    assert_eq!(cn.batch_threshold, 100000);
    assert_eq!(cn.columns.len(), 9);
}

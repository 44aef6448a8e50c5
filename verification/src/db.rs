//! The storage edge: the one trusted call into the SQL engine, a statement
//! transcript that lets contracts fix exactly what is handed to the engine,
//! and the schema builder that prepares the eight tables of a candidate
//! database. One connection is shared across a whole load, a deliberate,
//! documented choice; each statement still stands as its own implicit unit
//! of work, so no transaction ever spans two batches.

use vstd::prelude::*;
use vstd::seq_lib::*;
use crate::errors::GLErr;
use crate::record::SqlValue;

verus! {

/// Connection to the SQL database, declared so that signatures may carry it.
/// Verus sees nothing inside a value of this type.
#[verifier::external_type_specification]
#[verifier::external_body]
pub struct ExConnection(rusqlite::Connection);

/// Relies on rusqlite::Connection::execute: runs one SQL statement with the
/// given positional parameters and reports failure on any SQLite error.
/// Nothing is assumed of the statement's effect or of when it succeeds.
#[verifier::external_body]
pub(crate) fn execute_query(conn: &rusqlite::Connection, q: &str, params: &Vec<SqlValue>) -> (r: Result<
    usize,
    GLErr,
>)
    ensures
        r is Err ==> r->Err_0 == GLErr::SqliteErr,
{
    let mut vals: Vec<rusqlite::types::Value> = Vec::new();
    for p in params.iter() {
        vals.push(match p {
            SqlValue::Int(i) => rusqlite::types::Value::Integer(*i),
            SqlValue::Text(s) => rusqlite::types::Value::Text(s.clone()),
            SqlValue::Null => rusqlite::types::Value::Null,
        });
    }
    match conn.execute(q, rusqlite::params_from_iter(vals)) {
        Ok(n) => Ok(n),
        Err(_) => Err(GLErr::SqliteErr),
    }
}

/// A transcript of every statement text handed to the engine through it,
/// in order, whether or not the engine accepted the statement. Contracts
/// over the transcript fix exactly what a function issues.
pub struct SqlLog {
    pub issued: Ghost<Seq<Seq<char>>>,
}

impl SqlLog {
    pub fn new() -> (r: SqlLog)
        ensures
            r.issued@ == Seq::<Seq<char>>::empty(),
    {
        SqlLog { issued: Ghost(Seq::empty()) }
    }
}

/// Issues one statement and records its text in the transcript.
pub(crate) fn run_statement(
    conn: &rusqlite::Connection,
    log: &mut SqlLog,
    q: &str,
    params: &Vec<SqlValue>,
) -> (r: Result<usize, GLErr>)
    ensures
        final(log).issued@ == old(log).issued@.push(q@),
        r is Err ==> r->Err_0 == GLErr::SqliteErr,
{
    proof {
        log.issued@ = log.issued@.push(q@);
    }
    execute_query(conn, q, params)
}

/// The schema statement of the country-location table.
pub open spec fn ddl_countries() -> Seq<char> {
    "CREATE TABLE IF NOT EXISTS countries (
        geoname_id INT PRIMARY KEY,
        continent_code TEXT,
        continent_name TEXT,
        country_iso_code TEXT,
        country_name TEXT,
        is_in_eu INT);"@
}

/// The schema statement of the city-location table.
pub open spec fn ddl_cities() -> Seq<char> {
    "CREATE TABLE IF NOT EXISTS cities (
        geoname_id INT PRIMARY KEY,
        continent_code TEXT,
        continent_name TEXT,
        country_iso_code TEXT,
        country_name TEXT,
        subdivision_1_iso_code TEXT,
        subdivision_1_name TEXT,
        subdivision_2_iso_code TEXT,
        subdivision_2_name TEXT,
        city_name TEXT,
        metro_code TEXT,
        time_zone TEXT,
        is_in_eu INT);"@
}

/// The schema statement of the IPv4 country-network table.
pub open spec fn ddl_countries4() -> Seq<char> {
    "CREATE TABLE IF NOT EXISTS countries4(
        network TEXT PRIMARY KEY,
        geoname_id INT,
        registered_country_geoname_id INT,
        is_anonymous_proxy INT,
        is_satellite_provider INT)"@
}

/// The schema statement of the IPv6 country-network table.
pub open spec fn ddl_countries6() -> Seq<char> {
    "CREATE TABLE IF NOT EXISTS countries6(
        network TEXT PRIMARY KEY,
        geoname_id INT,
        registered_country_geoname_id INT,
        is_anonymous_proxy INT,
        is_satellite_provider INT)"@
}

/// The schema statement of the IPv4 city-network table.
pub open spec fn ddl_cities4() -> Seq<char> {
    "CREATE TABLE IF NOT EXISTS cities4(
        network TEXT PRIMARY KEY,
        geoname_id INT,
        registered_country_geoname_id INT,
        is_anonymous_proxy INT,
        is_satellite_provider INT,
        postal_code TEXT,
        latitude REAL,
        longitude REAL,
        accuracy_radius_km INT)"@
}

/// The schema statement of the IPv6 city-network table.
pub open spec fn ddl_cities6() -> Seq<char> {
    "CREATE TABLE IF NOT EXISTS cities6(
        network TEXT PRIMARY KEY,
        geoname_id INT,
        registered_country_geoname_id INT,
        is_anonymous_proxy INT,
        is_satellite_provider INT,
        postal_code TEXT,
        latitude REAL,
        longitude REAL,
        accuracy_radius_km INT)"@
}

/// The schema statement of the IPv4 autonomous-system table.
pub open spec fn ddl_asn4() -> Seq<char> {
    "CREATE TABLE IF NOT EXISTS asn4 (
        network TEXT PRIMARY KEY,
        autonomous_system_number INT,
        autonomous_system_org TEXT);"@
}

/// The schema statement of the IPv6 autonomous-system table.
pub open spec fn ddl_asn6() -> Seq<char> {
    "CREATE TABLE IF NOT EXISTS asn6 (
        network TEXT PRIMARY KEY,
        autonomous_system_number INT,
        autonomous_system_org TEXT);"@
}

/// The eight schema statements of a candidate database, in the order they
/// are issued: two location tables keyed by geoname id, then the six
/// network tables keyed by the network text.
pub open spec fn ddl_texts() -> Seq<Seq<char>> {
    seq![
        ddl_countries(),
        ddl_cities(),
        ddl_countries4(),
        ddl_countries6(),
        ddl_cities4(),
        ddl_cities6(),
        ddl_asn4(),
        ddl_asn6(),
    ]
}

fn build_table_counties(conn: &rusqlite::Connection, log: &mut SqlLog) -> (r: Result<(), GLErr>)
    ensures
        final(log).issued@ == old(log).issued@.push(ddl_countries()),
        r is Err ==> r->Err_0 == GLErr::SqliteErr,
{
    let params: Vec<SqlValue> = Vec::new();
    match run_statement(
        conn,
        log,
        "CREATE TABLE IF NOT EXISTS countries (
        geoname_id INT PRIMARY KEY,
        continent_code TEXT,
        continent_name TEXT,
        country_iso_code TEXT,
        country_name TEXT,
        is_in_eu INT);",
        &params,
    ) {
        Ok(_) => Ok(()),
        Err(e) => Err(e),
    }
}

fn build_table_cities(conn: &rusqlite::Connection, log: &mut SqlLog) -> (r: Result<(), GLErr>)
    ensures
        final(log).issued@ == old(log).issued@.push(ddl_cities()),
        r is Err ==> r->Err_0 == GLErr::SqliteErr,
{
    let params: Vec<SqlValue> = Vec::new();
    match run_statement(
        conn,
        log,
        "CREATE TABLE IF NOT EXISTS cities (
        geoname_id INT PRIMARY KEY,
        continent_code TEXT,
        continent_name TEXT,
        country_iso_code TEXT,
        country_name TEXT,
        subdivision_1_iso_code TEXT,
        subdivision_1_name TEXT,
        subdivision_2_iso_code TEXT,
        subdivision_2_name TEXT,
        city_name TEXT,
        metro_code TEXT,
        time_zone TEXT,
        is_in_eu INT);",
        &params,
    ) {
        Ok(_) => Ok(()),
        Err(e) => Err(e),
    }
}

fn build_table_countries4(conn: &rusqlite::Connection, log: &mut SqlLog) -> (r: Result<(), GLErr>)
    ensures
        final(log).issued@ == old(log).issued@.push(ddl_countries4()),
        r is Err ==> r->Err_0 == GLErr::SqliteErr,
{
    let params: Vec<SqlValue> = Vec::new();
    match run_statement(
        conn,
        log,
        "CREATE TABLE IF NOT EXISTS countries4(
        network TEXT PRIMARY KEY,
        geoname_id INT,
        registered_country_geoname_id INT,
        is_anonymous_proxy INT,
        is_satellite_provider INT)",
        &params,
    ) {
        Ok(_) => Ok(()),
        Err(e) => Err(e),
    }
}

fn build_table_countries6(conn: &rusqlite::Connection, log: &mut SqlLog) -> (r: Result<(), GLErr>)
    ensures
        final(log).issued@ == old(log).issued@.push(ddl_countries6()),
        r is Err ==> r->Err_0 == GLErr::SqliteErr,
{
    let params: Vec<SqlValue> = Vec::new();
    match run_statement(
        conn,
        log,
        "CREATE TABLE IF NOT EXISTS countries6(
        network TEXT PRIMARY KEY,
        geoname_id INT,
        registered_country_geoname_id INT,
        is_anonymous_proxy INT,
        is_satellite_provider INT)",
        &params,
    ) {
        Ok(_) => Ok(()),
        Err(e) => Err(e),
    }
}

fn build_table_cities4(conn: &rusqlite::Connection, log: &mut SqlLog) -> (r: Result<(), GLErr>)
    ensures
        final(log).issued@ == old(log).issued@.push(ddl_cities4()),
        r is Err ==> r->Err_0 == GLErr::SqliteErr,
{
    let params: Vec<SqlValue> = Vec::new();
    match run_statement(
        conn,
        log,
        "CREATE TABLE IF NOT EXISTS cities4(
        network TEXT PRIMARY KEY,
        geoname_id INT,
        registered_country_geoname_id INT,
        is_anonymous_proxy INT,
        is_satellite_provider INT,
        postal_code TEXT,
        latitude REAL,
        longitude REAL,
        accuracy_radius_km INT)",
        &params,
    ) {
        Ok(_) => Ok(()),
        Err(e) => Err(e),
    }
}

fn build_table_cities6(conn: &rusqlite::Connection, log: &mut SqlLog) -> (r: Result<(), GLErr>)
    ensures
        final(log).issued@ == old(log).issued@.push(ddl_cities6()),
        r is Err ==> r->Err_0 == GLErr::SqliteErr,
{
    let params: Vec<SqlValue> = Vec::new();
    match run_statement(
        conn,
        log,
        "CREATE TABLE IF NOT EXISTS cities6(
        network TEXT PRIMARY KEY,
        geoname_id INT,
        registered_country_geoname_id INT,
        is_anonymous_proxy INT,
        is_satellite_provider INT,
        postal_code TEXT,
        latitude REAL,
        longitude REAL,
        accuracy_radius_km INT)",
        &params,
    ) {
        Ok(_) => Ok(()),
        Err(e) => Err(e),
    }
}

fn build_table_asn4(conn: &rusqlite::Connection, log: &mut SqlLog) -> (r: Result<(), GLErr>)
    ensures
        final(log).issued@ == old(log).issued@.push(ddl_asn4()),
        r is Err ==> r->Err_0 == GLErr::SqliteErr,
{
    let params: Vec<SqlValue> = Vec::new();
    match run_statement(
        conn,
        log,
        "CREATE TABLE IF NOT EXISTS asn4 (
        network TEXT PRIMARY KEY,
        autonomous_system_number INT,
        autonomous_system_org TEXT);",
        &params,
    ) {
        Ok(_) => Ok(()),
        Err(e) => Err(e),
    }
}

fn build_table_asn6(conn: &rusqlite::Connection, log: &mut SqlLog) -> (r: Result<(), GLErr>)
    ensures
        final(log).issued@ == old(log).issued@.push(ddl_asn6()),
        r is Err ==> r->Err_0 == GLErr::SqliteErr,
{
    let params: Vec<SqlValue> = Vec::new();
    match run_statement(
        conn,
        log,
        "CREATE TABLE IF NOT EXISTS asn6 (
        network TEXT PRIMARY KEY,
        autonomous_system_number INT,
        autonomous_system_org TEXT);",
        &params,
    ) {
        Ok(_) => Ok(()),
        Err(e) => Err(e),
    }
}

/// Issues the idempotent schema statements for all eight tables of a
/// candidate database, in `ddl_texts()` order, and records each in the
/// transcript. Must run once per candidate before any load; any failure is
/// fatal to the run and stops at the first failing statement, which is
/// still recorded.
pub fn build_tables(conn: &rusqlite::Connection, log: &mut SqlLog) -> (r: Result<(), GLErr>)
    ensures
        r is Ok ==> final(log).issued@ == old(log).issued@ + ddl_texts(),
        r is Err ==> r->Err_0 == GLErr::SqliteErr,
        old(log).issued@.is_prefix_of(final(log).issued@),
        final(log).issued@.len() <= old(log).issued@.len() + ddl_texts().len(),
{
    let ghost pre = log.issued@;
    match build_table_counties(conn, log) {
        Ok(_) => {},
        Err(e) => {
            proof {
                lemma_push_is_prefix(pre, log.issued@, ddl_countries());
            }
            return Err(e);
        },
    }
    match build_table_cities(conn, log) {
        Ok(_) => {},
        Err(e) => {
            proof {
                lemma_pushes_are_prefix(pre, log.issued@, 2);
            }
            return Err(e);
        },
    }
    match build_table_countries4(conn, log) {
        Ok(_) => {},
        Err(e) => {
            proof {
                lemma_pushes_are_prefix(pre, log.issued@, 3);
            }
            return Err(e);
        },
    }
    match build_table_countries6(conn, log) {
        Ok(_) => {},
        Err(e) => {
            proof {
                lemma_pushes_are_prefix(pre, log.issued@, 4);
            }
            return Err(e);
        },
    }
    match build_table_cities4(conn, log) {
        Ok(_) => {},
        Err(e) => {
            proof {
                lemma_pushes_are_prefix(pre, log.issued@, 5);
            }
            return Err(e);
        },
    }
    match build_table_cities6(conn, log) {
        Ok(_) => {},
        Err(e) => {
            proof {
                lemma_pushes_are_prefix(pre, log.issued@, 6);
            }
            return Err(e);
        },
    }
    match build_table_asn4(conn, log) {
        Ok(_) => {},
        Err(e) => {
            proof {
                lemma_pushes_are_prefix(pre, log.issued@, 7);
            }
            return Err(e);
        },
    }
    match build_table_asn6(conn, log) {
        Ok(_) => {},
        Err(e) => {
            proof {
                lemma_pushes_are_prefix(pre, log.issued@, 8);
            }
            return Err(e);
        },
    }
    proof {
        assert(log.issued@ =~= pre + ddl_texts());
        lemma_pushes_are_prefix(pre, log.issued@, 8);
    }
    Ok(())
}

/// A sequence extended by one element keeps the old one as a prefix.
proof fn lemma_push_is_prefix(pre: Seq<Seq<char>>, now: Seq<Seq<char>>, x: Seq<char>)
    requires
        now == pre.push(x),
    ensures
        pre.is_prefix_of(now),
{
    assert(pre =~= now.subrange(0, pre.len() as int));
}

/// A sequence that grew by `k` elements keeps the old one as a prefix.
proof fn lemma_pushes_are_prefix(pre: Seq<Seq<char>>, now: Seq<Seq<char>>, k: int)
    requires
        k >= 0,
        now.len() == pre.len() + k,
        forall|i: int| 0 <= i < pre.len() ==> now[i] == pre[i],
    ensures
        pre.is_prefix_of(now),
{
    assert(pre =~= now.subrange(0, pre.len() as int));
}

} // verus!

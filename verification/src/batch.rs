//! The streaming batch-load pipeline: per-dataset descriptors, the bounded
//! handoff between the decode stage and the insert stage, and the batch sink
//! that turns accumulated records into one multi-row insert per batch.
//!
//! A failed batch insert aborts the whole load of its dataset; no batch is
//! ever dropped silently and the load never continues past lost rows.

use vstd::prelude::*;
use vstd::seq_lib::lemma_flatten_concat;
use vstd::arithmetic::div_mod::{lemma_basic_div, lemma_div_plus_one};
use vstd::string::StringExecFns;
use crate::errors::GLErr;
use crate::record::{
    RecordShape, SqlV, SqlValue, arity_of, decode_spec, decode_record, lemma_decode_arity,
};
use crate::sql::build_insert_sql;
use crate::db::execute_query;

verus! {

/// Static per-dataset configuration: record shape, target table, insert
/// columns, and the record count that triggers one multi-row insert.
pub struct Descriptor {
    pub shape: RecordShape,
    pub table: String,
    pub columns: Vec<String>,
    pub batch_threshold: usize,
}

impl Descriptor {
    pub open spec fn wf(self) -> bool {
        &&& self.batch_threshold >= 1
        &&& self.columns@.len() == arity_of(self.shape)
    }
}

/// The eight datasets one refresh loads, each from one CSV file into one
/// table. Autonomous-system records go to their own tables.
#[derive(Clone, Copy, Debug, PartialEq, Eq, Structural)]
pub enum Dataset {
    CountryLocations,
    CountryNetworks4,
    CountryNetworks6,
    CityLocations,
    CityNetworks4,
    CityNetworks6,
    AsnNetworks4,
    AsnNetworks6,
}

pub open spec fn shape_of(d: Dataset) -> RecordShape {
    match d {
        Dataset::CountryLocations => RecordShape::CountryLocation,
        Dataset::CountryNetworks4 => RecordShape::CountryNetwork,
        Dataset::CountryNetworks6 => RecordShape::CountryNetwork,
        Dataset::CityLocations => RecordShape::CityLocation,
        Dataset::CityNetworks4 => RecordShape::CityNetwork,
        Dataset::CityNetworks6 => RecordShape::CityNetwork,
        Dataset::AsnNetworks4 => RecordShape::AsnNetwork,
        Dataset::AsnNetworks6 => RecordShape::AsnNetwork,
    }
}

pub open spec fn table_of(d: Dataset) -> Seq<char> {
    match d {
        Dataset::CountryLocations => "countries"@,
        Dataset::CountryNetworks4 => "countries4"@,
        Dataset::CountryNetworks6 => "countries6"@,
        Dataset::CityLocations => "cities"@,
        Dataset::CityNetworks4 => "cities4"@,
        Dataset::CityNetworks6 => "cities6"@,
        Dataset::AsnNetworks4 => "asn4"@,
        Dataset::AsnNetworks6 => "asn6"@,
    }
}

/// Batch thresholds: location tables flush early to bound statement size,
/// the large network tables amortize round trips over bigger batches.
pub open spec fn threshold_of(d: Dataset) -> usize {
    match d {
        Dataset::CountryLocations => 5000,
        Dataset::CountryNetworks4 => 20000,
        Dataset::CountryNetworks6 => 20000,
        Dataset::CityLocations => 5000,
        Dataset::CityNetworks4 => 100000,
        Dataset::CityNetworks6 => 100000,
        Dataset::AsnNetworks4 => 100000,
        Dataset::AsnNetworks6 => 100000,
    }
}

/// Insert columns of each shape's target tables, in binding order.
pub open spec fn columns_of(shape: RecordShape) -> Seq<Seq<char>> {
    match shape {
        RecordShape::CountryLocation => seq![
            "geoname_id"@,
            "continent_code"@,
            "continent_name"@,
            "country_iso_code"@,
            "country_name"@,
            "is_in_eu"@,
        ],
        RecordShape::CountryNetwork => seq![
            "network"@,
            "geoname_id"@,
            "registered_country_geoname_id"@,
            "is_anonymous_proxy"@,
            "is_satellite_provider"@,
        ],
        RecordShape::CityLocation => seq![
            "geoname_id"@,
            "continent_code"@,
            "continent_name"@,
            "country_iso_code"@,
            "country_name"@,
            "subdivision_1_iso_code"@,
            "subdivision_1_name"@,
            "subdivision_2_iso_code"@,
            "subdivision_2_name"@,
            "city_name"@,
            "metro_code"@,
            "time_zone"@,
            "is_in_eu"@,
        ],
        RecordShape::CityNetwork => seq![
            "network"@,
            "geoname_id"@,
            "registered_country_geoname_id"@,
            "is_anonymous_proxy"@,
            "is_satellite_provider"@,
            "postal_code"@,
            "latitude"@,
            "longitude"@,
            "accuracy_radius_km"@,
        ],
        RecordShape::AsnNetwork => seq![
            "network"@,
            "autonomous_system_number"@,
            "autonomous_system_org"@,
        ],
    }
}

/// Builds the insert-column list of a shape.
fn columns_for(shape: RecordShape) -> (r: Vec<String>)
    ensures
        r.deep_view() == columns_of(shape),
        r@.len() == arity_of(shape),
{
    let mut v: Vec<String> = Vec::new();
    match shape {
        RecordShape::CountryLocation => {
            v.push(String::from_str("geoname_id"));
            v.push(String::from_str("continent_code"));
            v.push(String::from_str("continent_name"));
            v.push(String::from_str("country_iso_code"));
            v.push(String::from_str("country_name"));
            v.push(String::from_str("is_in_eu"));
        },
        RecordShape::CountryNetwork => {
            v.push(String::from_str("network"));
            v.push(String::from_str("geoname_id"));
            v.push(String::from_str("registered_country_geoname_id"));
            v.push(String::from_str("is_anonymous_proxy"));
            v.push(String::from_str("is_satellite_provider"));
        },
        RecordShape::CityLocation => {
            v.push(String::from_str("geoname_id"));
            v.push(String::from_str("continent_code"));
            v.push(String::from_str("continent_name"));
            v.push(String::from_str("country_iso_code"));
            v.push(String::from_str("country_name"));
            v.push(String::from_str("subdivision_1_iso_code"));
            v.push(String::from_str("subdivision_1_name"));
            v.push(String::from_str("subdivision_2_iso_code"));
            v.push(String::from_str("subdivision_2_name"));
            v.push(String::from_str("city_name"));
            v.push(String::from_str("metro_code"));
            v.push(String::from_str("time_zone"));
            v.push(String::from_str("is_in_eu"));
        },
        RecordShape::CityNetwork => {
            v.push(String::from_str("network"));
            v.push(String::from_str("geoname_id"));
            v.push(String::from_str("registered_country_geoname_id"));
            v.push(String::from_str("is_anonymous_proxy"));
            v.push(String::from_str("is_satellite_provider"));
            v.push(String::from_str("postal_code"));
            v.push(String::from_str("latitude"));
            v.push(String::from_str("longitude"));
            v.push(String::from_str("accuracy_radius_km"));
        },
        RecordShape::AsnNetwork => {
            v.push(String::from_str("network"));
            v.push(String::from_str("autonomous_system_number"));
            v.push(String::from_str("autonomous_system_org"));
        },
    }
    assert(v.deep_view() =~= columns_of(shape));
    v
}

/// The descriptor of one dataset.
pub fn descriptor_for(d: Dataset) -> (r: Descriptor)
    ensures
        r.wf(),
        r.shape == shape_of(d),
        r.table@ == table_of(d),
        r.columns.deep_view() == columns_of(shape_of(d)),
        r.batch_threshold == threshold_of(d),
{
    let (shape, table, threshold): (RecordShape, &str, usize) = match d {
        Dataset::CountryLocations => (RecordShape::CountryLocation, "countries", 5000),
        Dataset::CountryNetworks4 => (RecordShape::CountryNetwork, "countries4", 20000),
        Dataset::CountryNetworks6 => (RecordShape::CountryNetwork, "countries6", 20000),
        Dataset::CityLocations => (RecordShape::CityLocation, "cities", 5000),
        Dataset::CityNetworks4 => (RecordShape::CityNetwork, "cities4", 100000),
        Dataset::CityNetworks6 => (RecordShape::CityNetwork, "cities6", 100000),
        Dataset::AsnNetworks4 => (RecordShape::AsnNetwork, "asn4", 100000),
        Dataset::AsnNetworks6 => (RecordShape::AsnNetwork, "asn6", 100000),
    };
    Descriptor {
        shape,
        table: String::from_str(table),
        columns: columns_for(shape),
        batch_threshold: threshold,
    }
}

/// The batches a stream of records is flushed in: full batches of `b`
/// records in input order, then one final partial batch of whatever is
/// left, and no batch at all for an empty stream.
pub open spec fn spec_batches(rows: Seq<Seq<SqlV>>, b: nat) -> Seq<Seq<Seq<SqlV>>>
    decreases rows.len(),
{
    if b == 0 {
        Seq::empty()
    } else if rows.len() == 0 {
        Seq::empty()
    } else if rows.len() <= b {
        seq![rows]
    } else {
        seq![rows.take(b as int)] + spec_batches(rows.skip(b as int), b)
    }
}

/// For `n` records and threshold `b` the sink executes exactly
/// `ceil(n / b)` batches: none when the stream is empty, and one final
/// partial batch when `b` does not divide `n`.
pub proof fn lemma_batches_count(rows: Seq<Seq<SqlV>>, b: nat)
    requires
        b >= 1,
    ensures
        spec_batches(rows, b).len() == (rows.len() + b - 1) / (b as int),
    decreases rows.len(),
{
    if rows.len() == 0 {
        lemma_basic_div(b - 1, b as int);
    } else if rows.len() <= b {
        lemma_basic_div(rows.len() - 1, b as int);
        lemma_div_plus_one(rows.len() - 1, b as int);
    } else {
        lemma_batches_count(rows.skip(b as int), b);
        lemma_div_plus_one(rows.len() - 1, b as int);
    }
}

/// The rows bound across all batches are exactly the input records, in
/// their original order.
pub proof fn lemma_batches_flatten(rows: Seq<Seq<SqlV>>, b: nat)
    requires
        b >= 1,
    ensures
        spec_batches(rows, b).flatten() == rows,
    decreases rows.len(),
{
    if rows.len() == 0 {
    } else if rows.len() <= b {
        seq![rows].lemma_flatten_one_element();
    } else {
        lemma_batches_flatten(rows.skip(b as int), b);
        lemma_flatten_concat(seq![rows.take(b as int)], spec_batches(rows.skip(b as int), b));
        seq![rows.take(b as int)].lemma_flatten_one_element();
        assert(rows.take(b as int) + rows.skip(b as int) =~= rows);
    }
}

/// Every batch but the last is exactly the threshold; the last is never
/// empty and never over it.
pub proof fn lemma_batches_sizes(rows: Seq<Seq<SqlV>>, b: nat)
    requires
        b >= 1,
    ensures
        forall|i: int|
            0 <= i < spec_batches(rows, b).len() - 1 ==> (#[trigger] spec_batches(rows, b)[i]).len()
                == b,
        spec_batches(rows, b).len() > 0 ==> 1 <= spec_batches(rows, b).last().len() <= b,
    decreases rows.len(),
{
    if rows.len() > b {
        lemma_batches_sizes(rows.skip(b as int), b);
        assert(forall|i: int|
            1 <= i < spec_batches(rows, b).len() ==> spec_batches(rows, b)[i] == #[trigger] spec_batches(
                rows.skip(b as int),
                b,
            )[i - 1]);
    }
}

/// Full batches already flushed plus a partial remainder reassemble into
/// the batch partition of everything pushed so far.
proof fn lemma_batches_reassemble(done: Seq<Seq<Seq<SqlV>>>, tail: Seq<Seq<SqlV>>, b: nat)
    requires
        b >= 1,
        tail.len() < b,
        forall|i: int| 0 <= i < done.len() ==> (#[trigger] done[i]).len() == b,
    ensures
        spec_batches(done.flatten() + tail, b) == if tail.len() == 0 {
            done
        } else {
            done.push(tail)
        },
    decreases done.len(),
{
    if done.len() == 0 {
        assert(done.flatten() + tail =~= tail);
        if tail.len() == 0 {
            assert(spec_batches(tail, b) =~= done);
        } else {
            assert(spec_batches(done.flatten() + tail, b) =~= done.push(tail));
        }
    } else {
        let first = done[0];
        let rest = done.drop_first();
        assert(done.flatten() == first + rest.flatten());
        let total = done.flatten() + tail;
        assert(total.len() >= b);
        lemma_batches_reassemble(rest, tail, b);
        if rest.len() == 0 && tail.len() == 0 {
            assert(total =~= first);
            assert(spec_batches(total, b) =~= done);
        } else {
            assert(rest.flatten().len() + tail.len() > 0) by {
                if rest.len() > 0 {
                    assert(rest.flatten() == rest[0] + rest.drop_first().flatten());
                }
            }
            assert(total.len() > b);
            assert(total.take(b as int) =~= first);
            assert(total.skip(b as int) =~= rest.flatten() + tail);
            if tail.len() == 0 {
                assert(seq![first] + rest =~= done);
            } else {
                assert(seq![first] + rest.push(tail) =~= done.push(tail));
            }
        }
    }
}

/// One message over the handoff: a decoded record, or the explicit
/// end-of-stream sentinel, which is distinct from any record.
#[derive(Debug, PartialEq)]
pub enum Msg {
    Rec(Vec<SqlValue>),
    End,
}

/// The record a message carries, at the spec level.
pub open spec fn msg_rec_view(m: Msg) -> Seq<SqlV> {
    match m {
        Msg::Rec(v) => v.deep_view(),
        Msg::End => Seq::empty(),
    }
}

/// The records of a queue of record messages.
pub open spec fn q_views(q: Seq<Msg>) -> Seq<Seq<SqlV>> {
    Seq::new(q.len(), |k: int| msg_rec_view(q[k]))
}

proof fn lemma_q_views_drop_first(q: Seq<Msg>)
    requires
        q.len() > 0,
    ensures
        q_views(q.drop_first()) =~= q_views(q).drop_first(),
{
    assert forall|k: int| 0 <= k < q.len() - 1 implies q_views(q.drop_first())[k] == q_views(
        q,
    ).drop_first()[k] by {
        assert(q_views(q)[k + 1] == msg_rec_view(q[k + 1]));
    }
}

proof fn lemma_q_views_push(q: Seq<Msg>, m: Msg)
    ensures
        q_views(q.push(m)) =~= q_views(q).push(msg_rec_view(m)),
{
    assert forall|k: int| 0 <= k < q.len() + 1 implies q_views(q.push(m))[k] == q_views(q).push(
        msg_rec_view(m),
    )[k] by {
        if k < q.len() {
            assert(q_views(q)[k] == msg_rec_view(q[k]));
        }
    }
}

/// The bounded handoff between the decode stage and the insert stage: a
/// first-in-first-out buffer of fixed capacity. This is the backpressure
/// point: a send against a full buffer is refused without an error and
/// hands the message back, so the producer can only wait.
pub struct Handoff {
    cap: usize,
    q: Vec<Msg>,
}

impl Handoff {
    /// Capacity the handoff was created with.
    pub closed spec fn capacity(self) -> int {
        self.cap as int
    }

    /// The messages in flight, oldest first.
    pub closed spec fn queue(self) -> Seq<Msg> {
        self.q@
    }

    pub fn new(cap: usize) -> (r: Handoff)
        requires
            cap >= 1,
        ensures
            r.capacity() == cap as int,
            r.queue() == Seq::<Msg>::empty(),
    {
        Handoff { cap, q: Vec::new() }
    }

    /// Enqueues a message unless the buffer is full; a refused message
    /// comes back unchanged and the queue keeps exactly its contents.
    pub fn try_send(&mut self, m: Msg) -> (r: Result<(), Msg>)
        ensures
            final(self).capacity() == old(self).capacity(),
            old(self).queue().len() < old(self).capacity() ==> r is Ok && final(self).queue()
                == old(self).queue().push(m),
            old(self).queue().len() >= old(self).capacity() ==> r is Err && r->Err_0 == m
                && final(self).queue() == old(self).queue(),
    {
        if self.q.len() < self.cap {
            self.q.push(m);
            Ok(())
        } else {
            Err(m)
        }
    }

    /// Number of messages in flight.
    pub fn len(&self) -> (r: usize)
        ensures
            r == self.queue().len(),
    {
        self.q.len()
    }

    /// Dequeues the oldest message, if any.
    pub fn try_recv(&mut self) -> (r: Option<Msg>)
        ensures
            final(self).capacity() == old(self).capacity(),
            old(self).queue().len() == 0 ==> r is None && final(self).queue() == old(self).queue(),
            old(self).queue().len() > 0 ==> r is Some && r->0 == old(self).queue()[0]
                && final(self).queue() == old(self).queue().drop_first(),
    {
        if self.q.len() == 0 {
            None
        } else {
            let m = self.q.remove(0);
            assert(self.q@ =~= old(self).q@.drop_first());
            Some(m)
        }
    }
}

/// Flattens buffered records into the one positional parameter list their
/// batch's insert statement binds.
fn flatten_rows(rows: &Vec<Vec<SqlValue>>) -> (r: Vec<SqlValue>)
    ensures
        r.deep_view() == rows.deep_view().flatten(),
{
    let mut out: Vec<SqlValue> = Vec::new();
    let mut i: usize = 0;
    while i < rows.len()
        invariant
            i <= rows@.len(),
            out.deep_view() == rows.deep_view().take(i as int).flatten(),
        decreases rows@.len() - i,
    {
        let row = &rows[i];
        let mut j: usize = 0;
        while j < row.len()
            invariant
                i < rows@.len(),
                j <= row@.len(),
                row == rows@[i as int],
                out.deep_view() == rows.deep_view().take(i as int).flatten()
                    + row.deep_view().take(j as int),
            decreases row@.len() - j,
        {
            let ghost pre = out.deep_view();
            let v = row[j].clone();
            let ghost vv = v@;
            out.push(v);
            proof {
                assert(out.deep_view() =~= pre.push(vv));
                assert(row.deep_view().take(j + 1) =~= row.deep_view().take(j as int).push(
                    row.deep_view()[j as int],
                ));
                assert(out.deep_view() =~= rows.deep_view().take(i as int).flatten()
                    + row.deep_view().take(j + 1));
            }
            j = j + 1;
        }
        proof {
            let rs = rows.deep_view();
            assert(rs.take(i + 1) =~= rs.take(i as int).push(rs[i as int]));
            rs.take(i as int).lemma_flatten_push(rs[i as int]);
            assert(row.deep_view().take(j as int) =~= rs[i as int]);
            assert(out.deep_view() =~= rs.take(i + 1).flatten());
        }
        i = i + 1;
    }
    assert(rows.deep_view().take(rows@.len() as int) =~= rows.deep_view());
    out
}

/// The insert stage. Records accumulate in a buffer; at the descriptor's
/// threshold the buffer is flushed as one multi-row insert statement, and
/// the explicit end of stream flushes whatever partial batch remains.
///
/// `pushed` and `executed` are the sink's history: every record accepted,
/// and every batch issued, in order. The exec counters mirror them so that
/// callers outside any proof can observe the batching.
pub struct BatchSink {
    pub desc: Descriptor,
    pub buf: Vec<Vec<SqlValue>>,
    /// Batches issued so far.
    pub batches_done: usize,
    /// Records accepted so far.
    pub rows_done: usize,
    /// Size of each issued batch, in order.
    pub batch_sizes: Vec<usize>,
    pub pushed: Ghost<Seq<Seq<SqlV>>>,
    pub executed: Ghost<Seq<Seq<Seq<SqlV>>>>,
}

impl BatchSink {
    /// The sink's mid-stream invariant: everything pushed is either in an
    /// issued full batch or still in the buffer, in order.
    pub open spec fn wf(self) -> bool {
        &&& self.desc.wf()
        &&& self.buf@.len() < self.desc.batch_threshold
        &&& forall|i: int|
            0 <= i < self.buf@.len() ==> (#[trigger] self.buf@[i]).deep_view().len() == arity_of(
                self.desc.shape,
            )
        &&& forall|i: int|
            0 <= i < self.executed@.len() ==> (#[trigger] self.executed@[i]).len()
                == self.desc.batch_threshold
        &&& self.executed@.flatten() + self.buf.deep_view() == self.pushed@
        &&& self.counters_ok()
    }

    /// The exec counters agree with the ghost history.
    pub open spec fn counters_ok(self) -> bool {
        &&& self.batches_done == self.executed@.len()
        &&& self.rows_done == self.pushed@.len()
        &&& self.batch_sizes@.len() == self.executed@.len()
        &&& forall|i: int|
            0 <= i < self.executed@.len() ==> self.batch_sizes@[i] == (
            #[trigger] self.executed@[i]).len()
    }

    pub fn new(desc: Descriptor) -> (r: BatchSink)
        requires
            desc.wf(),
        ensures
            r.wf(),
            r.desc == desc,
            r.pushed@ == Seq::<Seq<SqlV>>::empty(),
            r.executed@ == Seq::<Seq<Seq<SqlV>>>::empty(),
            r.rows_done == 0,
            r.batches_done == 0,
    {
        let r = BatchSink {
            desc,
            buf: Vec::new(),
            batches_done: 0,
            rows_done: 0,
            batch_sizes: Vec::new(),
            pushed: Ghost(Seq::empty()),
            executed: Ghost(Seq::empty()),
        };
        assert(r.executed@.flatten() + r.buf.deep_view() =~= r.pushed@);
        r
    }

    /// Issues the buffered records as one multi-row insert and empties the
    /// buffer. A failure aborts: the batch is not retried and not skipped.
    fn flush(&mut self, conn: &rusqlite::Connection) -> (r: Result<(), GLErr>)
        requires
            old(self).desc.wf(),
            1 <= old(self).buf@.len() <= old(self).desc.batch_threshold,
            forall|i: int|
                0 <= i < old(self).buf@.len() ==> (#[trigger] old(self).buf@[i]).deep_view().len()
                    == arity_of(old(self).desc.shape),
            old(self).counters_ok(),
            old(self).batches_done < usize::MAX,
        ensures
            final(self).desc == old(self).desc,
            r is Err ==> r->Err_0 == GLErr::SqliteErr,
            r is Ok ==> {
                &&& final(self).buf@.len() == 0
                &&& final(self).executed@ == old(self).executed@.push(old(self).buf.deep_view())
                &&& final(self).pushed@ == old(self).pushed@
                &&& final(self).rows_done == old(self).rows_done
                &&& final(self).batches_done == old(self).batches_done + 1
                &&& final(self).counters_ok()
            },
    {
        let n = self.buf.len();
        let sql = build_insert_sql(self.desc.table.as_str(), &self.desc.columns, n);
        let params = flatten_rows(&self.buf);
        match execute_query(conn, sql.as_str(), &params) {
            Ok(_) => {},
            Err(e) => {
                return Err(e);
            },
        }
        let ghost batch = self.buf.deep_view();
        self.buf.clear();
        self.batches_done = self.batches_done + 1;
        self.batch_sizes.push(n);
        proof {
            self.executed@ = self.executed@.push(batch);
        }
        assert(self.buf.deep_view() =~= Seq::<Seq<SqlV>>::empty());
        Ok(())
    }

    /// Accepts one decoded record, flushing a full batch first if the
    /// buffer just reached the threshold.
    pub fn push_row(&mut self, conn: &rusqlite::Connection, row: Vec<SqlValue>) -> (r: Result<
        (),
        GLErr,
    >)
        requires
            old(self).wf(),
            row.deep_view().len() == arity_of(old(self).desc.shape),
            old(self).rows_done < usize::MAX,
        ensures
            final(self).desc == old(self).desc,
            r is Err ==> r->Err_0 == GLErr::SqliteErr,
            old(self).buf@.len() + 1 < old(self).desc.batch_threshold ==> r is Ok,
            r is Ok ==> final(self).wf() && final(self).pushed@ == old(self).pushed@.push(
                row.deep_view(),
            ) && final(self).rows_done == old(self).rows_done + 1,
    {
        let ghost rv = row.deep_view();
        let ghost oldbuf = self.buf.deep_view();
        self.buf.push(row);
        self.rows_done = self.rows_done + 1;
        proof {
            self.pushed@ = self.pushed@.push(rv);
            assert(self.buf.deep_view() =~= oldbuf.push(rv));
            assert(self.executed@.flatten() + self.buf.deep_view() =~= self.pushed@);
        }
        if self.buf.len() == self.desc.batch_threshold {
            proof {
                lemma_flatten_uniform_len(self.executed@, self.desc.batch_threshold as nat);
                lemma_mul_ge(self.executed@.len(), self.desc.batch_threshold as nat);
            }
            let ghost pre_ex = self.executed@;
            let ghost prebuf = self.buf.deep_view();
            match self.flush(conn) {
                Ok(_) => {
                    proof {
                        pre_ex.lemma_flatten_push(prebuf);
                        assert(self.executed@.flatten() + self.buf.deep_view() =~= self.pushed@);
                    }
                    Ok(())
                },
                Err(e) => Err(e),
            }
        } else {
            Ok(())
        }
    }

    /// Handles the end of the stream: flushes the remaining partial batch,
    /// if any. Afterwards the issued batches are exactly the batch
    /// partition of every record pushed.
    pub fn finish(&mut self, conn: &rusqlite::Connection) -> (r: Result<(), GLErr>)
        requires
            old(self).wf(),
            old(self).batches_done < usize::MAX,
        ensures
            final(self).desc == old(self).desc,
            r is Err ==> r->Err_0 == GLErr::SqliteErr,
            old(self).buf@.len() == 0 ==> r is Ok,
            r is Ok ==> {
                &&& final(self).executed@ == spec_batches(
                    old(self).pushed@,
                    old(self).desc.batch_threshold as nat,
                )
                &&& final(self).pushed@ == old(self).pushed@
                &&& final(self).rows_done == old(self).rows_done
                &&& final(self).counters_ok()
            },
    {
        proof {
            lemma_batches_reassemble(
                self.executed@,
                self.buf.deep_view(),
                self.desc.batch_threshold as nat,
            );
        }
        if self.buf.len() > 0 {
            match self.flush(conn) {
                Ok(_) => Ok(()),
                Err(e) => Err(e),
            }
        } else {
            assert(self.executed@.flatten() + self.buf.deep_view() =~= self.executed@.flatten());
            Ok(())
        }
    }
}

/// All rows of a file decode under its header.
pub open spec fn all_rows_decode(
    shape: RecordShape,
    h: Seq<Seq<char>>,
    rows: Seq<Seq<Seq<char>>>,
) -> bool {
    forall|i: int| 0 <= i < rows.len() ==> decode_spec(shape, h, #[trigger] rows[i]) is Some
}

/// The decoded records of a file, in file order.
pub open spec fn decode_all(shape: RecordShape, h: Seq<Seq<char>>, rows: Seq<Seq<Seq<char>>>) -> Seq<
    Seq<SqlV>,
> {
    Seq::new(rows.len(), |i: int| decode_spec(shape, h, rows[i])->0)
}

/// A sink never issues more batches than it has accepted records.
proof fn lemma_sink_batches_bound(s: BatchSink)
    requires
        s.wf(),
    ensures
        s.batches_done <= s.rows_done,
{
    lemma_flatten_uniform_len(s.executed@, s.desc.batch_threshold as nat);
    lemma_mul_ge(s.executed@.len(), s.desc.batch_threshold as nat);
}

/// One step of the insert stage: takes the oldest message off the handoff;
/// a record goes into the sink, the end-of-stream sentinel flushes the
/// remainder and reports the stream finished.
fn consume_step(sink: &mut BatchSink, h: &mut Handoff, conn: &rusqlite::Connection) -> (r: Result<
    bool,
    GLErr,
>)
    requires
        old(h).queue().len() > 0,
        old(sink).wf(),
        old(sink).rows_done < usize::MAX,
        old(sink).batches_done < usize::MAX,
        old(h).queue()[0] is Rec ==> msg_rec_view(old(h).queue()[0]).len() == arity_of(
            old(sink).desc.shape,
        ),
    ensures
        final(h).capacity() == old(h).capacity(),
        final(sink).desc == old(sink).desc,
        r is Err ==> r->Err_0 == GLErr::SqliteErr,
        old(h).queue()[0] is End && old(sink).buf@.len() == 0 ==> r is Ok,
        r is Ok ==> final(h).queue() == old(h).queue().drop_first(),
        r is Ok && old(h).queue()[0] is Rec ==> !(r->Ok_0) && final(sink).wf()
            && final(sink).pushed@ == old(sink).pushed@.push(msg_rec_view(old(h).queue()[0]))
            && final(sink).rows_done == old(sink).rows_done + 1,
        r is Ok && old(h).queue()[0] is End ==> r->Ok_0 && final(sink).pushed@ == old(sink).pushed@
            && final(sink).rows_done == old(sink).rows_done && final(sink).executed@
            == spec_batches(old(sink).pushed@, old(sink).desc.batch_threshold as nat)
            && final(sink).counters_ok(),
{
    match h.try_recv() {
        Some(m) => match m {
            Msg::Rec(row) => match sink.push_row(conn, row) {
                Ok(_) => Ok(false),
                Err(e) => Err(e),
            },
            Msg::End => match sink.finish(conn) {
                Ok(_) => Ok(true),
                Err(e) => Err(e),
            },
        },
        None => vstd::pervasive::unreached(),
    }
}

/// Runs one dataset's load to completion: decodes each CSV row in file
/// order, streams the records through the bounded handoff into the batch
/// sink, signals the explicit end of stream, and drains the handoff until
/// the sink has flushed the final, possibly partial, batch. The returned
/// sink carries the full history of the load.
///
/// A decode failure aborts the load at once; so does a failed batch
/// insert. In either case batches already issued stand, which is
/// acceptable only because a candidate database is never promoted unless
/// every dataset load succeeded.
pub fn run_load(
    desc: Descriptor,
    header: &Vec<String>,
    rows: &Vec<Vec<String>>,
    conn: &rusqlite::Connection,
    cap: usize,
) -> (r: Result<BatchSink, GLErr>)
    requires
        desc.wf(),
        cap >= 1,
        rows@.len() < usize::MAX,
    ensures
        rows@.len() == 0 ==> r is Ok,
        r is Ok ==> all_rows_decode(desc.shape, header.deep_view(), rows.deep_view()),
        r is Ok ==> {
            let decoded = decode_all(desc.shape, header.deep_view(), rows.deep_view());
            &&& r->Ok_0.desc == desc
            &&& r->Ok_0.pushed@ == decoded
            &&& r->Ok_0.rows_done == rows@.len()
            &&& r->Ok_0.executed@ == spec_batches(decoded, desc.batch_threshold as nat)
            &&& r->Ok_0.counters_ok()
        },
        r is Err ==> r->Err_0 == GLErr::DecodeErr || r->Err_0 == GLErr::SqliteErr,
        r is Err && r->Err_0 == GLErr::DecodeErr ==> !all_rows_decode(
            desc.shape,
            header.deep_view(),
            rows.deep_view(),
        ),
{
    let ghost hd = header.deep_view();
    let ghost rws = rows.deep_view();
    let ghost decoded = decode_all(desc.shape, hd, rws);
    let ghost gdesc = desc;
    let shape_e = desc.shape;
    let mut sink = BatchSink::new(desc);
    let mut h = Handoff::new(cap);
    let n = rows.len();
    proof {
        assert(sink.pushed@ =~= decoded.take(0));
        assert(q_views(h.queue()) =~= decoded.subrange(0, 0));
    }
    let mut i: usize = 0;
    while i < n
        invariant
            sink.wf(),
            sink.desc == gdesc,
            gdesc == desc,
            gdesc.wf(),
            shape_e == gdesc.shape,
            h.capacity() == cap as int,
            cap >= 1,
            n == rws.len() == rows@.len(),
            n < usize::MAX,
            i <= n,
            hd == header.deep_view(),
            rws == rows.deep_view(),
            decoded == decode_all(gdesc.shape, hd, rws),
            forall|j: int| 0 <= j < i ==> decode_spec(gdesc.shape, hd, #[trigger] rws[j]) is Some,
            forall|k: int| 0 <= k < h.queue().len() ==> (#[trigger] h.queue()[k]) is Rec,
            h.queue().len() <= cap,
            sink.pushed@.len() + h.queue().len() == i,
            sink.pushed@ == decoded.take(i - h.queue().len()),
            q_views(h.queue()) == decoded.subrange(i - h.queue().len(), i as int),
        decreases n - i,
    {
        let row = &rows[i];
        assert(rows.deep_view()[i as int] == rows@[i as int].deep_view());
        let rec = match decode_record(shape_e, header, row) {
            Ok(v) => v,
            Err(e) => {
                proof {
                    assert(decode_spec(gdesc.shape, hd, rws[i as int]) is None);
                    assert(!all_rows_decode(gdesc.shape, hd, rws));
                }
                return Err(e);
            },
        };
        let ghost qa = h.queue();
        let ghost a = i - qa.len();
        if h.len() == cap {
            // The handoff is full: the producer can only wait; one insert
            // step makes room.
            proof {
                assert(msg_rec_view(qa[0]) == q_views(qa)[0]);
                assert(q_views(qa)[0] == decoded[a]);
                lemma_decode_arity(gdesc.shape, hd, rws[a]);
                lemma_sink_batches_bound(sink);
            }
            match consume_step(&mut sink, &mut h, conn) {
                Ok(_) => {},
                Err(e) => {
                    return Err(e);
                },
            }
            proof {
                lemma_q_views_drop_first(qa);
                assert(q_views(h.queue()) =~= decoded.subrange(a + 1, i as int));
                assert(decoded.take(a).push(decoded[a]) =~= decoded.take(a + 1));
            }
        }
        let ghost qb = h.queue();
        let ghost b = i - qb.len();
        let ghost rv = rec.deep_view();
        assert(rv == decoded[i as int]);
        match h.try_send(Msg::Rec(rec)) {
            Ok(_) => {},
            Err(_) => vstd::pervasive::unreached(),
        }
        proof {
            lemma_q_views_push(qb, Msg::Rec(rec));
            assert(q_views(h.queue()) =~= q_views(qb).push(rv));
            assert(decoded.subrange(b, i as int).push(decoded[i as int]) =~= decoded.subrange(
                b,
                i + 1,
            ));
        }
        i = i + 1;
    }
    // End of the file: the sentinel, distinct from any record, asks the
    // insert stage to flush the remainder and stop.
    let ghost qa = h.queue();
    let ghost a = n - qa.len();
    if h.len() == cap {
        proof {
            assert(msg_rec_view(qa[0]) == q_views(qa)[0]);
            assert(q_views(qa)[0] == decoded[a]);
            lemma_decode_arity(gdesc.shape, hd, rws[a]);
            lemma_sink_batches_bound(sink);
        }
        match consume_step(&mut sink, &mut h, conn) {
            Ok(_) => {},
            Err(e) => {
                return Err(e);
            },
        }
        proof {
            lemma_q_views_drop_first(qa);
            assert(q_views(h.queue()) =~= decoded.subrange(a + 1, n as int));
            assert(decoded.take(a).push(decoded[a]) =~= decoded.take(a + 1));
        }
    }
    let ghost qb = h.queue();
    match h.try_send(Msg::End) {
        Ok(_) => {},
        Err(_) => vstd::pervasive::unreached(),
    }
    proof {
        assert(h.queue().drop_last() =~= qb);
    }
    // Drain: the insert stage alone runs until it has seen the sentinel.
    let mut stream_done = false;
    while !stream_done
        invariant
            sink.desc == gdesc,
            gdesc == desc,
            gdesc.wf(),
            h.capacity() == cap as int,
            n == rws.len(),
            n < usize::MAX,
            hd == header.deep_view(),
            rws == rows.deep_view(),
            decoded == decode_all(gdesc.shape, hd, rws),
            forall|j: int| 0 <= j < n ==> decode_spec(gdesc.shape, hd, #[trigger] rws[j]) is Some,
            !stream_done ==> {
                &&& sink.wf()
                &&& h.queue().len() >= 1
                &&& h.queue().last() is End
                &&& forall|k: int| 0 <= k < h.queue().len() - 1 ==> (#[trigger] h.queue()[k]) is Rec
                &&& h.queue().len() <= cap + 1
                &&& sink.pushed@.len() + h.queue().len() == n + 1
                &&& sink.pushed@ == decoded.take(n + 1 - h.queue().len())
                &&& q_views(h.queue().drop_last()) == decoded.subrange(
                    n + 1 - h.queue().len(),
                    n as int,
                )
            },
            stream_done ==> {
                &&& sink.pushed@ == decoded
                &&& sink.rows_done == n
                &&& sink.executed@ == spec_batches(decoded, gdesc.batch_threshold as nat)
                &&& sink.counters_ok()
            },
        decreases h.queue().len(),
    {
        let ghost q = h.queue();
        let ghost a = n + 1 - q.len();
        proof {
            if q.len() > 1 {
                assert(q[0] == q.drop_last()[0]);
                assert(msg_rec_view(q[0]) == q_views(q.drop_last())[0]);
                assert(q_views(q.drop_last())[0] == decoded[a]);
                lemma_decode_arity(gdesc.shape, hd, rws[a]);
            } else {
                assert(q[0] == q.last());
            }
            lemma_sink_batches_bound(sink);
        }
        match consume_step(&mut sink, &mut h, conn) {
            Ok(done) => {
                if done {
                    proof {
                        assert(q[0] is End);
                        assert(q.len() == 1);
                        assert(decoded.take(n as int) =~= decoded);
                        assert(decoded.len() == n);
                    }
                    stream_done = true;
                } else {
                    proof {
                        assert(q[0] is Rec);
                        assert(sink.pushed@ == decoded.take(a).push(decoded[a]));
                        assert(decoded.take(a).push(decoded[a]) =~= decoded.take(a + 1));
                        assert(h.queue().drop_last() =~= q.drop_last().drop_first());
                        lemma_q_views_drop_first(q.drop_last());
                        assert(q_views(h.queue().drop_last()) =~= decoded.subrange(
                            a + 1,
                            n as int,
                        ));
                    }
                }
            },
            Err(e) => {
                proof {
                    if n == 0 {
                        assert(q.len() == 1);
                        assert(q[0] == q.last());
                        assert(sink.buf.deep_view().len() == 0);
                        assert(false);
                    }
                }
                return Err(e);
            },
        }
    }
    proof {
        assert(sink.rows_done == n);
    }
    Ok(sink)
}

/// A flattened uniform batch history holds one threshold's worth of rows
/// per batch.
proof fn lemma_flatten_uniform_len(s: Seq<Seq<Seq<SqlV>>>, b: nat)
    requires
        forall|i: int| 0 <= i < s.len() ==> (#[trigger] s[i]).len() == b,
    ensures
        s.flatten().len() == s.len() * b,
    decreases s.len(),
{
    if s.len() == 0 {
        assert(s.len() * b == 0) by (nonlinear_arith)
            requires
                s.len() == 0,
        ;
    } else {
        let rest = s.drop_first();
        assert(forall|i: int| 0 <= i < rest.len() ==> (#[trigger] rest[i]).len() == b);
        lemma_flatten_uniform_len(rest, b);
        assert(s.flatten().len() == b + rest.len() * b);
        assert(b + rest.len() * b == s.len() * b) by (nonlinear_arith)
            requires
                rest.len() == s.len() - 1,
        ;
    }
}

proof fn lemma_mul_ge(a: nat, b: nat)
    requires
        b >= 1,
    ensures
        a * b >= a,
{
    assert(a * b >= a) by (nonlinear_arith)
        requires
            b >= 1,
            a >= 0,
    ;
}

} // verus!

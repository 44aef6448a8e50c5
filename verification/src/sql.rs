//! Verified construction of the one multi-row insert statement a batch
//! issues: `INSERT INTO <table>(<columns>) VALUES (?,..),(?,..),..` with one
//! placeholder group per buffered record.

use vstd::prelude::*;
use vstd::string::StringExecFns;

verus! {

/// `parts` joined with commas.
pub open spec fn join_comma(parts: Seq<Seq<char>>) -> Seq<char>
    decreases parts.len(),
{
    if parts.len() == 0 {
        Seq::empty()
    } else if parts.len() == 1 {
        parts[0]
    } else {
        join_comma(parts.drop_last()) + ","@ + parts.last()
    }
}

/// `k` placeholders joined with commas: `?,?,...,?`.
pub open spec fn qmarks(k: nat) -> Seq<char>
    decreases k,
{
    if k == 0 {
        Seq::empty()
    } else if k == 1 {
        "?"@
    } else {
        qmarks((k - 1) as nat) + ",?"@
    }
}

/// One parenthesised placeholder group of width `k`: `(?,...,?)`.
pub open spec fn value_group(k: nat) -> Seq<char> {
    "("@ + qmarks(k) + ")"@
}

/// `n` placeholder groups of width `k`, joined with commas.
pub open spec fn value_groups(n: nat, k: nat) -> Seq<char>
    decreases n,
{
    if n == 0 {
        Seq::empty()
    } else if n == 1 {
        value_group(k)
    } else {
        value_groups((n - 1) as nat, k) + ","@ + value_group(k)
    }
}

/// The full text of a multi-row insert statement.
pub open spec fn insert_sql(table: Seq<char>, cols: Seq<Seq<char>>, n: nat) -> Seq<char> {
    "INSERT INTO "@ + table + "("@ + join_comma(cols) + ") VALUES "@ + value_groups(n, cols.len())
}

/// Builds one placeholder group of width `k`.
fn build_value_group(k: usize) -> (r: String)
    requires
        k >= 1,
    ensures
        r@ == value_group(k as nat),
{
    let mut s = String::from_str("(");
    s.append("?");
    let mut i: usize = 1;
    while i < k
        invariant
            1 <= i <= k,
            s@ == "("@ + qmarks(i as nat),
        decreases k - i,
    {
        s.append(",?");
        i = i + 1;
    }
    s.append(")");
    s
}

/// Builds the text of the insert statement binding `n` rows of the given
/// columns positionally.
pub fn build_insert_sql(table: &str, cols: &Vec<String>, n: usize) -> (r: String)
    requires
        cols@.len() >= 1,
        n >= 1,
    ensures
        r@ == insert_sql(table@, cols.deep_view(), n as nat),
{
    let ghost cs = cols.deep_view();
    let mut s = String::from_str("INSERT INTO ");
    s.append(table);
    s.append("(");
    s.append(cols[0].as_str());
    assert(cols.deep_view()[0] == cols@[0]@);
    assert(cs.take(1) =~= seq![cs[0]]);
    let mut i: usize = 1;
    while i < cols.len()
        invariant
            1 <= i <= cols@.len(),
            cs == cols.deep_view(),
            s@ == "INSERT INTO "@ + table@ + "("@ + join_comma(cs.take(i as int)),
        decreases cols@.len() - i,
    {
        s.append(",");
        s.append(cols[i].as_str());
        proof {
            let t = cs.take(i + 1);
            assert(t.drop_last() =~= cs.take(i as int));
            assert(t.last() == cs[i as int]);
            assert(cols.deep_view()[i as int] == cols@[i as int]@);
        }
        i = i + 1;
    }
    assert(cs.take(cols@.len() as int) =~= cs);
    s.append(") VALUES ");
    let grp = build_value_group(cols.len());
    s.append(grp.as_str());
    let mut j: usize = 1;
    while j < n
        invariant
            1 <= j <= n,
            cs == cols.deep_view(),
            grp@ == value_group(cs.len()),
            s@ == "INSERT INTO "@ + table@ + "("@ + join_comma(cs) + ") VALUES "@ + value_groups(
                j as nat,
                cs.len(),
            ),
        decreases n - j,
    {
        s.append(",");
        s.append(grp.as_str());
        j = j + 1;
    }
    s
}

} // verus!

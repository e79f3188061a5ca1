//! Schema migrations: which of the known migration scripts a database still
//! needs, given the schema version it records. Each script is applied once,
//! in order, and bumps the recorded version to its own number.

use vstd::prelude::*;

verus! {

/// The versions still to apply to a database at `current`, when `count`
/// scripts are known: script `i` (from 0) brings version `i + 1`.
pub open spec fn pending_versions(current: i64, count: nat) -> Seq<i64>
    decreases count,
{
    if count == 0 {
        Seq::empty()
    } else if count <= current {
        pending_versions(current, (count - 1) as nat)
    } else {
        pending_versions(current, (count - 1) as nat).push(count as i64)
    }
}

/// The version recorded once every pending script has run.
pub open spec fn version_after(current: i64, count: nat) -> i64 {
    if current < count {
        count as i64
    } else {
        current
    }
}

/// The schema version this build expects: the number of known scripts.
pub fn latest_version(count: usize) -> (v: i64)
    requires
        count <= i64::MAX,
    ensures
        v == count,
{
    count as i64
}

/// The versions to apply, in order, to a database recorded at `current`
/// when `count` scripts are known; script `v - 1` brings version `v`.
pub fn pending_migrations(current: i64, count: usize) -> (r: Vec<i64>)
    requires
        count < i64::MAX,
    ensures
        r@ == pending_versions(current, count as nat),
{
    let mut r: Vec<i64> = Vec::new();
    let mut idx: usize = 0;
    while idx < count
        invariant
            idx <= count < i64::MAX,
            r@ == pending_versions(current, idx as nat),
        decreases count - idx,
    {
        let version = (idx + 1) as i64;
        if version > current {
            r.push(version);
        }
        idx = idx + 1;
    }
    r
}

proof fn lemma_pending_bounds(current: i64, count: nat)
    requires
        count < i64::MAX,
    ensures
        forall|k: int|
            0 <= k < pending_versions(current, count).len() ==> current < #[trigger] pending_versions(
                current,
                count,
            )[k] <= count,
        forall|a: int, b: int|
            0 <= a < b < pending_versions(current, count).len() ==> pending_versions(current, count)[a]
                < pending_versions(current, count)[b],
        pending_versions(current, count).len() > 0 ==> pending_versions(current, count).last()
            == count,
    decreases count,
{
    if count > 0 {
        lemma_pending_bounds(current, (count - 1) as nat);
    }
}

/// Once the pending scripts have run, none is pending any more: running the
/// migrations twice applies nothing the second time.
pub proof fn lemma_migrations_idempotent(current: i64, count: nat)
    requires
        count < i64::MAX,
    ensures
        pending_versions(version_after(current, count), count).len() == 0,
    decreases count,
{
    let v = version_after(current, count);
    assert forall|c: nat| c <= count implies #[trigger] pending_versions(v, c).len() == 0 by {
        lemma_none_pending_below(v, c);
    }
}

proof fn lemma_none_pending_below(v: i64, c: nat)
    requires
        c <= v,
    ensures
        pending_versions(v, c).len() == 0,
    decreases c,
{
    if c > 0 {
        lemma_none_pending_below(v, (c - 1) as nat);
    }
}

/// Pending versions are applied in increasing order, each above the
/// recorded version, ending at the latest one.
pub proof fn lemma_pending_in_order(current: i64, count: nat)
    requires
        count < i64::MAX,
    ensures
        forall|a: int, b: int|
            0 <= a < b < pending_versions(current, count).len() ==> pending_versions(current, count)[a]
                < pending_versions(current, count)[b],
        forall|k: int|
            0 <= k < pending_versions(current, count).len() ==> current < #[trigger] pending_versions(
                current,
                count,
            )[k] <= count,
        pending_versions(current, count).len() > 0 ==> pending_versions(current, count).last()
            == version_after(current, count),
{
    lemma_pending_bounds(current, count);
}

/// A fresh database (version 0) gets every script, 1 through `count`.
pub proof fn lemma_fresh_database_gets_all(count: nat)
    requires
        count < i64::MAX,
    ensures
        pending_versions(0, count).len() == count,
        forall|k: int| 0 <= k < count ==> #[trigger] pending_versions(0, count)[k] == k + 1,
    decreases count,
{
    if count > 0 {
        lemma_fresh_database_gets_all((count - 1) as nat);
    }
}

} // verus!

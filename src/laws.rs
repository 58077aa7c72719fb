use vstd::prelude::*;
use crate::report::{ReportView, METRIC_COUNT};
use crate::store::{
    has_oid, latest, next_after, overlay, upsert_fails, upserted, with_row, MemoryStore,
};

verus! {

/// An upsert keeps every stored identifier and adds the upserted one.
proof fn lemma_upserted_oids(rows: Seq<ReportView>, next_id: i64, r: ReportView, oid: Seq<char>)
    ensures
        has_oid(upserted(rows, next_id, r), oid) <==> has_oid(rows, oid) || oid == r.oid,
{
    let base = with_row(rows, next_id, r);
    let after = upserted(rows, next_id, r);
    assert forall|i: int| 0 <= i < after.len() implies #[trigger] after[i].oid == base[i].oid by {}
    if has_oid(rows, oid) {
        let i = choose|i: int| 0 <= i < rows.len() && #[trigger] rows[i].oid == oid;
        assert(base[i].oid == oid);
        assert(after[i].oid == oid);
    }
    if oid == r.oid {
        if !has_oid(rows, oid) {
            assert(base[rows.len() as int].oid == oid);
            assert(after[rows.len() as int].oid == oid);
        }
    }
    if has_oid(after, oid) {
        let i = choose|i: int| 0 <= i < after.len() && #[trigger] after[i].oid == oid;
        assert(base[i].oid == oid);
        if i < rows.len() {
            assert(rows[i].oid == oid);
        }
    }
}

/// The rows after an upsert of `a` and then one of `b`.
pub open spec fn upserted_twice(rows: Seq<ReportView>, next_id: i64, a: ReportView, b: ReportView) -> Seq<ReportView> {
    upserted(upserted(rows, next_id, a), next_after(rows, next_id, a), b)
}

/// Ingesting a reading under a new identifier and then asking for the
/// newest reading gives back that reading: its identifier, device type,
/// timestamp and metrics.
pub proof fn lemma_ingest_then_latest(rows: Seq<ReportView>, next_id: i64, r: ReportView)
    requires
        MemoryStore::rows_wf(rows, next_id),
        r.metrics.len() == METRIC_COUNT,
        !has_oid(rows, r.oid),
        !upsert_fails(rows, next_id, r),
    ensures
        latest(upserted(rows, next_id, r)) matches Some(l) && l.oid == r.oid
            && l.device_type == r.device_type && l.timestamp == r.timestamp
            && l.metrics == r.metrics,
{
    let base = with_row(rows, next_id, r);
    let after = upserted(rows, next_id, r);
    let last = after[after.len() - 1];
    assert(last == overlay(base.last(), r.metrics, METRIC_COUNT as int));
    assert(last.metrics =~= r.metrics);
}

/// Two upserts under one identifier whose present metrics are disjoint
/// leave a row holding the metrics of both: neither call's absent fields
/// erase the other's values.
pub proof fn lemma_disjoint_upserts_union(rows: Seq<ReportView>, next_id: i64, a: ReportView, b: ReportView)
    requires
        MemoryStore::rows_wf(rows, next_id),
        a.oid == b.oid,
        a.metrics.len() == METRIC_COUNT,
        b.metrics.len() == METRIC_COUNT,
        forall|k: int| 0 <= k < METRIC_COUNT ==> !(#[trigger] a.metrics[k] is Some && b.metrics[k] is Some),
        !upsert_fails(rows, next_id, a),
    ensures
        !upsert_fails(upserted(rows, next_id, a), next_after(rows, next_id, a), b),
        has_oid(upserted_twice(rows, next_id, a, b), a.oid),
        forall|i: int, k: int|
            0 <= i < upserted_twice(rows, next_id, a, b).len() && 0 <= k < METRIC_COUNT
                && upserted_twice(rows, next_id, a, b)[i].oid == a.oid ==> {
                &&& a.metrics[k] is Some ==> #[trigger] upserted_twice(rows, next_id, a, b)[i].metrics[k] == a.metrics[k]
                &&& b.metrics[k] is Some ==> upserted_twice(rows, next_id, a, b)[i].metrics[k] == b.metrics[k]
            },
{
    let mid = upserted(rows, next_id, a);
    let n2 = next_after(rows, next_id, a);
    let fin = upserted(mid, n2, b);
    lemma_upserted_oids(rows, next_id, a, a.oid);
    lemma_upserted_oids(mid, n2, b, a.oid);
    assert(with_row(mid, n2, b) == mid);
    let base = with_row(rows, next_id, a);
    assert forall|i: int, k: int|
        0 <= i < fin.len() && 0 <= k < METRIC_COUNT && fin[i].oid == a.oid implies {
        &&& a.metrics[k] is Some ==> #[trigger] fin[i].metrics[k] == a.metrics[k]
        &&& b.metrics[k] is Some ==> fin[i].metrics[k] == b.metrics[k]
    } by {
        assert(mid[i] == overlay(base[i], a.metrics, METRIC_COUNT as int));
        assert(fin[i] == overlay(mid[i], b.metrics, METRIC_COUNT as int));
    }
}

/// After ingesting a reading and then a newer one under a new identifier,
/// the newest reading is the second one.
pub proof fn lemma_latest_after_two_ingests(rows: Seq<ReportView>, next_id: i64, a: ReportView, b: ReportView)
    requires
        MemoryStore::rows_wf(rows, next_id),
        a.oid != b.oid,
        !has_oid(rows, b.oid),
        !upsert_fails(rows, next_id, a),
        !upsert_fails(upserted(rows, next_id, a), next_after(rows, next_id, a), b),
    ensures
        latest(upserted_twice(rows, next_id, a, b)) matches Some(l)
            && l.oid == b.oid && l.device_type == b.device_type && l.timestamp == b.timestamp,
{
    let mid = upserted(rows, next_id, a);
    let n2 = next_after(rows, next_id, a);
    let fin = upserted(mid, n2, b);
    lemma_upserted_oids(rows, next_id, a, b.oid);
    let base = with_row(mid, n2, b);
    assert(fin[fin.len() - 1] == overlay(base.last(), b.metrics, METRIC_COUNT as int));
}

} // verus!

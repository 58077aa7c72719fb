use vstd::prelude::*;
use crate::report::{Metric, ReportView, WeatherReport, METRIC_COUNT};

verus! {

/// One write against the readings table, with its parameters.
pub enum Statement {
    /// Insert a skeleton row: identifier, device type and timestamp.
    Insert { oid: String, device_type: String, timestamp: i64 },
    /// Set one metric column of the row with the given identifier.
    SetMetric { metric: Metric, value: u64, oid: String },
}

pub enum StatementView {
    Insert { oid: Seq<char>, device_type: Seq<char>, timestamp: i64 },
    SetMetric { metric: Metric, value: u64, oid: Seq<char> },
}

impl View for Statement {
    type V = StatementView;

    open spec fn view(&self) -> StatementView {
        match self {
            Statement::Insert { oid, device_type, timestamp } => StatementView::Insert {
                oid: oid@,
                device_type: device_type@,
                timestamp: *timestamp,
            },
            Statement::SetMetric { metric, value, oid } => StatementView::SetMetric {
                metric: *metric,
                value: *value,
                oid: oid@,
            },
        }
    }
}

/// Column updates for the metrics of `r` at positions below `k` that are
/// present, in column order.
pub open spec fn metric_updates(r: ReportView, k: int) -> Seq<StatementView>
    decreases k,
{
    if k <= 0 {
        Seq::empty()
    } else {
        let before = metric_updates(r, k - 1);
        match r.metrics[k - 1] {
            Some(v) => before.push(StatementView::SetMetric { metric: Metric::at(k - 1), value: v, oid: r.oid }),
            None => before,
        }
    }
}

/// The writes of an upsert of `r`: an insert when no row holds `r.oid`
/// (`exists` is false), then one update per present metric.
pub open spec fn upsert_plan(r: ReportView, exists: bool) -> Seq<StatementView> {
    let head = if exists {
        Seq::<StatementView>::empty()
    } else {
        seq![StatementView::Insert { oid: r.oid, device_type: r.device_type, timestamp: r.timestamp }]
    };
    head + metric_updates(r, METRIC_COUNT as int)
}

pub open spec fn plan_view(p: Seq<Statement>) -> Seq<StatementView> {
    p.map_values(|s: Statement| s@)
}

/// The statements that upsert `r`, given whether a row with its
/// identifier already exists.
pub fn plan_upsert(r: &WeatherReport, exists: bool) -> (p: Vec<Statement>)
    ensures
        plan_view(p@) == upsert_plan(r@, exists),
{
    let mut p: Vec<Statement> = Vec::new();
    if !exists {
        p.push(Statement::Insert {
            oid: r.oid.clone(),
            device_type: r.device_type.clone(),
            timestamp: r.timestamp,
        });
    }
    let ghost head = plan_view(p@);
    assert(head =~= upsert_plan(r@, exists).subrange(0, head.len() as int)) by {
        assert(metric_updates(r@, 0) =~= Seq::<StatementView>::empty());
    }
    let mut k: usize = 0;
    while k < METRIC_COUNT
        invariant
            k <= METRIC_COUNT,
            head == (if exists {
                Seq::<StatementView>::empty()
            } else {
                seq![StatementView::Insert { oid: r@.oid, device_type: r@.device_type, timestamp: r@.timestamp }]
            }),
            plan_view(p@) == head + metric_updates(r@, k as int),
        decreases METRIC_COUNT - k,
    {
        let m = Metric::from_index(k);
        match r.metric(m) {
            Some(v) => {
                let ghost before = plan_view(p@);
                p.push(Statement::SetMetric { metric: m, value: v, oid: r.oid.clone() });
                assert(r@.metrics[k as int] == Some(v));
                assert(metric_updates(r@, k + 1) == metric_updates(r@, k as int).push(
                    StatementView::SetMetric { metric: m, value: v, oid: r@.oid },
                ));
                assert(plan_view(p@) =~= before.push(StatementView::SetMetric { metric: m, value: v, oid: r@.oid }));
                assert(plan_view(p@) =~= head + metric_updates(r@, k + 1));
            },
            None => {},
        }
        k = k + 1;
    }
    p
}

/// Parameterised SQL text of a statement: `$1, $2, $3` bind the oid,
/// device type and timestamp of an insert; `$1, $2` the value and oid of
/// an update.
pub open spec fn statement_sql(s: StatementView) -> Seq<char> {
    match s {
        StatementView::Insert { .. } =>
            "INSERT INTO weather_reports (oid, device_type, timestamp) VALUES ($1, $2, $3)"@,
        StatementView::SetMetric { metric, .. } =>
            "UPDATE weather_reports SET "@ + metric.spec_column() + " = $1 WHERE oid = $2;"@,
    }
}

impl Statement {
    pub fn sql(&self) -> (r: String)
        ensures
            r@ == statement_sql(self@),
    {
        match self {
            Statement::Insert { .. } => String::from_str(
                "INSERT INTO weather_reports (oid, device_type, timestamp) VALUES ($1, $2, $3)",
            ),
            Statement::SetMetric { metric, .. } => {
                let mut q = String::from_str("UPDATE weather_reports SET ");
                q.append(metric.column());
                q.append(" = $1 WHERE oid = $2;");
                q
            },
        }
    }
}

} // verus!

use vstd::prelude::*;
use crate::report::{Metric, ReportView, WeatherReport, METRIC_COUNT};

verus! {

/// Failure reported by the backing store.
#[derive(Clone, Copy, Debug, PartialEq, Eq, Structural)]
pub enum StorageError {
    /// An insert reused an identifier that is already stored.
    DuplicateOid,
    /// The sequence of row numbers is used up.
    IdsExhausted,
}

/// Largest row number the id sequence hands out.
pub const MAX_ID: i64 = 2147483647;

pub open spec fn has_oid(rows: Seq<ReportView>, oid: Seq<char>) -> bool {
    exists|i: int| 0 <= i < rows.len() && #[trigger] rows[i].oid == oid
}

/// `row` with the first `k` metrics of `incoming` written where present.
pub open spec fn overlay(row: ReportView, incoming: Seq<Option<u64>>, k: int) -> ReportView {
    ReportView {
        metrics: Seq::new(
            METRIC_COUNT as nat,
            |i: int| if i < k && incoming[i] is Some { incoming[i] } else { row.metrics[i] },
        ),
        ..row
    }
}

pub open spec fn overlay_where(
    rows: Seq<ReportView>,
    oid: Seq<char>,
    incoming: Seq<Option<u64>>,
    k: int,
) -> Seq<ReportView> {
    rows.map_values(|r: ReportView| if r.oid == oid { overlay(r, incoming, k) } else { r })
}

pub open spec fn set_where(rows: Seq<ReportView>, oid: Seq<char>, m: Metric, v: u64) -> Seq<ReportView> {
    rows.map_values(|r: ReportView| if r.oid == oid { r.with_metric(m, Some(v)) } else { r })
}

/// The rows after an insert of a skeleton row for `r`, or unchanged if
/// its identifier is already stored.
pub open spec fn with_row(rows: Seq<ReportView>, next_id: i64, r: ReportView) -> Seq<ReportView> {
    if has_oid(rows, r.oid) {
        rows
    } else {
        rows.push(ReportView::skeleton(next_id as i32, r.oid, r.device_type, r.timestamp))
    }
}

/// The rows after an upsert of `r`: the row of `r.oid` exists, keeps its
/// identity fields if it existed, and every metric present on `r` is written.
pub open spec fn upserted(rows: Seq<ReportView>, next_id: i64, r: ReportView) -> Seq<ReportView> {
    overlay_where(with_row(rows, next_id, r), r.oid, r.metrics, METRIC_COUNT as int)
}

/// The next row number after an upsert of `r`.
pub open spec fn next_after(rows: Seq<ReportView>, next_id: i64, r: ReportView) -> i64 {
    if has_oid(rows, r.oid) {
        next_id
    } else {
        (next_id + 1) as i64
    }
}

/// An upsert fails only when it must insert and no row number is left.
pub open spec fn upsert_fails(rows: Seq<ReportView>, next_id: i64, r: ReportView) -> bool {
    !has_oid(rows, r.oid) && next_id > MAX_ID
}

/// The newest row, by row number: the last one.
pub open spec fn latest(rows: Seq<ReportView>) -> Option<ReportView> {
    if rows.len() == 0 {
        None
    } else {
        Some(rows.last())
    }
}

/// Rows held in memory, applying the same upsert-by-presence discipline as
/// the database: rows in order of their row number, identifiers unique.
pub struct MemoryStore {
    rows: Vec<WeatherReport>,
    next_id: i64,
}

impl MemoryStore {
    pub closed spec fn rows(&self) -> Seq<ReportView> {
        self.rows@.map_values(|r: WeatherReport| r@)
    }

    pub closed spec fn next_id(&self) -> i64 {
        self.next_id
    }

    pub open spec fn rows_wf(rows: Seq<ReportView>, next_id: i64) -> bool {
        &&& 1 <= next_id <= MAX_ID + 1
        &&& forall|i: int, j: int| 0 <= i < j < rows.len() ==> rows[i].id < rows[j].id
        &&& forall|i: int| 0 <= i < rows.len() ==> 1 <= #[trigger] rows[i].id < next_id
        &&& forall|i: int, j: int|
            0 <= i < rows.len() && 0 <= j < rows.len() && i != j ==> rows[i].oid != rows[j].oid
        &&& forall|i: int| 0 <= i < rows.len() ==> (#[trigger] rows[i]).metrics.len() == METRIC_COUNT
    }

    pub open spec fn wf(&self) -> bool {
        Self::rows_wf(self.rows(), self.next_id())
    }

    pub fn new() -> (s: MemoryStore)
        ensures
            s.wf(),
            s.rows() == Seq::<ReportView>::empty(),
            s.next_id() == 1,
    {
        let s = MemoryStore { rows: Vec::new(), next_id: 1 };
        assert(s.rows() =~= Seq::<ReportView>::empty());
        s
    }

    /// Position of the row with identifier `oid`.
    pub fn find_oid(&self, oid: &String) -> (r: Option<usize>)
        ensures
            r is None <==> !has_oid(self.rows(), oid@),
            r matches Some(i) ==> i < self.rows().len() && self.rows()[i as int].oid == oid@,
    {
        let mut i: usize = 0;
        while i < self.rows.len()
            invariant
                i <= self.rows@.len(),
                forall|j: int| 0 <= j < i ==> self.rows()[j].oid != oid@,
            decreases self.rows@.len() - i,
        {
            assert(self.rows()[i as int] == self.rows@[i as int]@);
            if self.rows[i].oid == *oid {
                assert(self.rows()[i as int].oid == oid@);
                return Some(i);
            }
            i = i + 1;
        }
        None
    }

    /// Adds a skeleton row for `r` under the next row number.
    fn insert_skeleton(&mut self, r: &WeatherReport) -> (res: Result<(), StorageError>)
        requires
            old(self).wf(),
            !has_oid(old(self).rows(), r@.oid),
        ensures
            final(self).wf(),
            res is Ok <==> old(self).next_id() <= MAX_ID,
            res is Ok ==> final(self).rows() == with_row(old(self).rows(), old(self).next_id(), r@),
            res is Ok ==> final(self).next_id() == old(self).next_id() + 1,
            res matches Err(e) ==> e == StorageError::IdsExhausted && *final(self) == *old(self),
    {
        if self.next_id > MAX_ID {
            return Err(StorageError::IdsExhausted);
        }
        let mut row = WeatherReport::with_oid(r.oid.clone(), r.device_type.clone(), r.timestamp);
        row.id = self.next_id as i32;
        let ghost old_rows = self.rows();
        self.rows.push(row);
        self.next_id = self.next_id + 1;
        assert(self.rows() =~= with_row(old_rows, old(self).next_id(), r@));
        Ok(())
    }

    /// Writes metric `m` of the row with identifier `oid`, if there is one.
    fn set_where(&mut self, m: Metric, v: u64, oid: &String)
        requires
            old(self).wf(),
        ensures
            final(self).wf(),
            final(self).next_id() == old(self).next_id(),
            final(self).rows() == set_where(old(self).rows(), oid@, m, v),
    {
        let ghost old_rows = self.rows();
        let mut i: usize = 0;
        while i < self.rows.len()
            invariant
                i <= self.rows@.len(),
                self.rows@.len() == old_rows.len(),
                self.next_id == old(self).next_id(),
                forall|j: int| 0 <= j < i ==> #[trigger] self.rows@[j]@ == (if old_rows[j].oid == oid@ {
                    old_rows[j].with_metric(m, Some(v))
                } else {
                    old_rows[j]
                }),
                forall|j: int| i <= j < self.rows@.len() ==> #[trigger] self.rows@[j]@ == old_rows[j],
            decreases self.rows@.len() - i,
        {
            if self.rows[i].oid == *oid {
                self.rows[i].set_metric(m, Some(v));
            }
            i = i + 1;
        }
        assert(self.rows() =~= set_where(old_rows, oid@, m, v));
        proof {
            let rows = self.rows();
            assert forall|j: int| 0 <= j < rows.len() implies rows[j].metrics.len() == METRIC_COUNT by {
                assert(old_rows[j].metrics.len() == METRIC_COUNT);
            }
            assert forall|j: int| 0 <= j < rows.len() implies 1 <= #[trigger] rows[j].id < self.next_id by {
                assert(rows[j].id == old_rows[j].id);
            }
            assert forall|a: int, b: int| 0 <= a < b < rows.len() implies rows[a].id < rows[b].id by {
                assert(rows[a].id == old_rows[a].id);
                assert(rows[b].id == old_rows[b].id);
            }
            assert forall|a: int, b: int|
                0 <= a < rows.len() && 0 <= b < rows.len() && a != b implies rows[a].oid != rows[b].oid by {
                assert(rows[a].oid == old_rows[a].oid);
                assert(rows[b].oid == old_rows[b].oid);
            }
        }
    }

    /// Upsert by presence: inserts a skeleton row for `r.oid` when none is
    /// stored, then writes each metric present on `r`, one at a time.
    /// Metrics absent on `r` keep their stored value.
    pub fn upsert(&mut self, r: &WeatherReport) -> (res: Result<(), StorageError>)
        requires
            old(self).wf(),
        ensures
            final(self).wf(),
            res is Err <==> upsert_fails(old(self).rows(), old(self).next_id(), r@),
            res matches Err(e) ==> e == StorageError::IdsExhausted && *final(self) == *old(self),
            res is Ok ==> final(self).rows() == upserted(old(self).rows(), old(self).next_id(), r@),
            res is Ok ==> final(self).next_id() == next_after(old(self).rows(), old(self).next_id(), r@),
    {
        let ghost old_rows = self.rows();
        match self.find_oid(&r.oid) {
            Some(_) => {},
            None => {
                match self.insert_skeleton(r) {
                    Ok(()) => {},
                    Err(e) => {
                        return Err(e);
                    },
                }
            },
        }
        let ghost base = with_row(old_rows, old(self).next_id(), r@);
        assert(self.rows() =~= overlay_where(base, r@.oid, r@.metrics, 0)) by {
            assert forall|j: int| 0 <= j < base.len() implies #[trigger] overlay(base[j], r@.metrics, 0) == base[j] by {
                if j < old_rows.len() {
                    assert(old_rows[j].metrics.len() == METRIC_COUNT);
                }
                assert(overlay(base[j], r@.metrics, 0).metrics =~= base[j].metrics);
            }
        }
        let mut k: usize = 0;
        while k < METRIC_COUNT
            invariant
                k <= METRIC_COUNT,
                self.wf(),
                base == with_row(old_rows, old(self).next_id(), r@),
                self.next_id() == next_after(old_rows, old(self).next_id(), r@),
                self.rows() == overlay_where(base, r@.oid, r@.metrics, k as int),
            decreases METRIC_COUNT - k,
        {
            let m = Metric::from_index(k);
            let ghost before = self.rows();
            match r.metric(m) {
                Some(v) => {
                    self.set_where(m, v, &r.oid);
                    assert(self.rows() =~= overlay_where(base, r@.oid, r@.metrics, k + 1)) by {
                        assert forall|j: int| 0 <= j < base.len() && base[j].oid == r@.oid implies
                            #[trigger] overlay(base[j], r@.metrics, k + 1) == overlay(base[j], r@.metrics, k as int).with_metric(m, Some(v)) by {
                            assert(overlay(base[j], r@.metrics, k + 1).metrics =~=
                                overlay(base[j], r@.metrics, k as int).metrics.update(k as int, Some(v)));
                        }
                    }
                },
                None => {
                    assert(self.rows() =~= overlay_where(base, r@.oid, r@.metrics, k + 1)) by {
                        assert forall|j: int| 0 <= j < base.len() && base[j].oid == r@.oid implies
                            #[trigger] overlay(base[j], r@.metrics, k + 1) == overlay(base[j], r@.metrics, k as int) by {
                            assert(overlay(base[j], r@.metrics, k + 1).metrics =~=
                                overlay(base[j], r@.metrics, k as int).metrics);
                        }
                    }
                },
            }
            k = k + 1;
        }
        Ok(())
    }

    /// The newest stored row, `None` while the store is empty.
    pub fn latest(&self) -> (r: Option<WeatherReport>)
        requires
            self.wf(),
        ensures
            r is None <==> latest(self.rows()) is None,
            r matches Some(row) ==> latest(self.rows()) == Some(row@),
    {
        let n = self.rows.len();
        if n == 0 {
            None
        } else {
            assert(self.rows()[n - 1] == self.rows@[n - 1]@);
            Some(self.rows[n - 1].duplicate())
        }
    }
}

} // verus!

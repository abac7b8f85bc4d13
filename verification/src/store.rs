//! Store: durable persistence of readings and retrieval by recency.
//!
//! This is the verified model of the persisted relation: an append-only
//! sequence of records whose identities are the integers 1, 2, 3, … in
//! insertion order and whose timestamps never decrease. `insert` alone
//! assigns identity and timestamp; callers never set them. `all` serves the
//! records newest first — `created_at` descending, ties broken by identity
//! descending — and `latest` serves exactly the record `all` would serve
//! first. A relational engine behind a connection pool realises the same
//! contract outside the library; this model is what the ingestion pipeline
//! and the tests run against.

use vstd::prelude::*;
use crate::models::RecordView;
use crate::models::SensorData;
use crate::models::SensorRecord;

verus! {

/// A store operation that could not reach the underlying engine. The
/// in-memory model never fails, so its operations return `Ok` on every
/// input; the type keeps the query surface's contract, where a caller must
/// tell "no data yet" from "store unavailable".
#[derive(Clone, Copy, PartialEq, Eq, Structural, Debug)]
pub enum StoreError {
    /// Connection or transaction failure.
    Unavailable,
}

/// Well-formedness of persisted contents: identities are 1, 2, 3, … in
/// insertion order, and timestamps never decrease along it.
pub open spec fn wf_rows(rows: Seq<RecordView>) -> bool {
    &&& forall|k: int| 0 <= k < rows.len() ==> (#[trigger] rows[k]).id == k + 1
    &&& forall|k: int, l: int|
        0 <= k && k <= l && l < rows.len() ==> (#[trigger] rows[k]).created_at <= (
        #[trigger] rows[l]).created_at
}

/// The timestamp `insert` assigns: the given clock reading, never set back
/// before the last record's timestamp.
pub open spec fn spec_assigned_at(rows: Seq<RecordView>, now_millis: u64) -> u64 {
    if rows.len() > 0 && rows[rows.len() - 1].created_at > now_millis {
        rows[rows.len() - 1].created_at
    } else {
        now_millis
    }
}

/// The persisted readings, in insertion order.
pub struct Store {
    rows: Vec<SensorRecord>,
}

impl View for Store {
    type V = Seq<RecordView>;

    closed spec fn view(&self) -> Seq<RecordView> {
        self.rows@.map(|i: int, r: SensorRecord| r@)
    }
}

/// The bytes of `v`, as a fresh vector.
fn copy_bytes(v: &Vec<u8>) -> (r: Vec<u8>)
    ensures
        r@ == v@,
{
    let mut r: Vec<u8> = Vec::new();
    let mut j: usize = 0;
    while j < v.len()
        invariant
            j <= v@.len(),
            r@ == v@.subrange(0, j as int),
        decreases v@.len() - j,
    {
        r.push(v[j]);
        proof {
            assert(r@ =~= v@.subrange(0, j as int + 1));
        }
        j = j + 1;
    }
    proof {
        assert(r@ =~= v@);
    }
    r
}

/// A record equal to `x`, as a fresh value.
fn copy_record(x: &SensorRecord) -> (r: SensorRecord)
    ensures
        r@ == x@,
{
    SensorRecord {
        id: x.id,
        device_id: copy_bytes(&x.device_id),
        temperature: copy_bytes(&x.temperature),
        humidity: copy_bytes(&x.humidity),
        created_at: x.created_at,
    }
}

impl Store {
    /// Well-formedness of the store: its contents are well-formed rows.
    pub open spec fn wf(&self) -> bool {
        wf_rows(self@)
    }

    /// An empty store.
    pub fn new() -> (s: Store)
        ensures
            s.wf(),
            s@.len() == 0,
    {
        let s = Store { rows: Vec::new() };
        proof {
            assert(s@ =~= Seq::<RecordView>::empty());
        }
        s
    }

    /// Persist one reading. The store alone assigns the identity — the next
    /// integer — and the timestamp — the given clock reading, never set back
    /// before the previous record's — and appends the record. The returned
    /// record is the one persisted.
    pub fn insert(&mut self, data: SensorData, now_millis: u64) -> (r: Result<
        SensorRecord,
        StoreError,
    >)
        requires
            old(self).wf(),
            old(self)@.len() + 1 < u64::MAX,
        ensures
            final(self).wf(),
            (r matches Ok(rec) && {
                &&& rec@.id == old(self)@.len() + 1
                &&& rec@.device_id == data@.device
                &&& rec@.temperature == data@.temp
                &&& rec@.humidity == data@.humidity
                &&& rec@.created_at == spec_assigned_at(old(self)@, now_millis)
                &&& final(self)@ =~= old(self)@.push(rec@)
            }),
    {
        let n = self.rows.len();
        let id: u64 = (n as u64) + 1;
        let created: u64 = if n > 0 {
            let last = self.rows[n - 1].created_at;
            if last > now_millis {
                last
            } else {
                now_millis
            }
        } else {
            now_millis
        };
        let rec = SensorRecord {
            id,
            device_id: data.device,
            temperature: data.temp,
            humidity: data.humidity,
            created_at: created,
        };
        let stored = copy_record(&rec);
        self.rows.push(stored);
        proof {
            let rows0 = old(self)@;
            let rows1 = self@;
            assert(rows1 =~= rows0.push(rec@));
            assert forall|k: int, l: int|
                0 <= k && k <= l && l < rows1.len() implies (#[trigger] rows1[k]).created_at <= (
            #[trigger] rows1[l]).created_at by {
                if l < rows0.len() {
                    assert(rows1[k] == rows0[k] && rows1[l] == rows0[l]);
                } else if k < rows0.len() {
                    assert(rows1[l].created_at == created);
                    assert(rows0[k].created_at <= rows0[rows0.len() - 1].created_at);
                }
            }
        }
        Ok(rec)
    }

    /// The most recently inserted record, or `None` on the empty store —
    /// never an error.
    pub fn latest(&self) -> (r: Result<Option<SensorRecord>, StoreError>)
        requires
            self.wf(),
        ensures
            (r matches Ok(o) && match o {
                Some(rec) => self@.len() > 0 && rec@ == self@[self@.len() - 1],
                None => self@.len() == 0,
            }),
    {
        let n = self.rows.len();
        if n == 0 {
            Ok(None)
        } else {
            Ok(Some(copy_record(&self.rows[n - 1])))
        }
    }

    /// Every record, newest first: position `k` holds the record inserted
    /// `k` places before the last one, so `created_at` never increases along
    /// the answer and identities strictly decrease.
    pub fn all(&self) -> (r: Result<Vec<SensorRecord>, StoreError>)
        requires
            self.wf(),
        ensures
            (r matches Ok(v) && {
                &&& v@.len() == self@.len()
                &&& forall|k: int|
                    0 <= k < v@.len() ==> (#[trigger] v@[k])@ == self@[self@.len() - 1 - k]
                &&& forall|k: int, l: int|
                    0 <= k && k < l && l < v@.len() ==> (#[trigger] v@[l])@.created_at <= (
                    #[trigger] v@[k])@.created_at && v@[l]@.id < v@[k]@.id
            }),
    {
        let mut out: Vec<SensorRecord> = Vec::new();
        let mut j: usize = self.rows.len();
        while j > 0
            invariant
                self.wf(),
                j <= self.rows@.len(),
                self@.len() == self.rows@.len(),
                out@.len() + j == self.rows@.len(),
                forall|k: int|
                    0 <= k < out@.len() ==> (#[trigger] out@[k])@ == self@[self@.len() - 1 - k],
            decreases j,
        {
            j = j - 1;
            let rec = copy_record(&self.rows[j]);
            out.push(rec);
        }
        proof {
            assert forall|k: int, l: int|
                0 <= k && k < l && l < out@.len() implies (#[trigger] out@[l])@.created_at <= (
            #[trigger] out@[k])@.created_at && out@[l]@.id < out@[k]@.id by {
                let n = self@.len();
                assert(out@[k]@ == self@[n - 1 - k]);
                assert(out@[l]@ == self@[n - 1 - l]);
            }
        }
        Ok(out)
    }
}

/// `latest` agrees with `all`: on any well-formed contents, the record
/// `latest` reports is exactly the first record `all` reports, `latest`
/// reports `None` exactly when `all` reports nothing, and what `all`
/// reports is ordered newest first — `created_at` descending with ties
/// broken by descending identity. The two requirements are the two
/// operations' contracts, stated over the same contents.
pub proof fn lemma_latest_is_head_of_all(
    rows: Seq<RecordView>,
    va: Seq<RecordView>,
    lo: Option<RecordView>,
)
    requires
        wf_rows(rows),
        va.len() == rows.len(),
        forall|k: int| 0 <= k < va.len() ==> #[trigger] va[k] == rows[rows.len() - 1 - k],
        (match lo {
            Some(rec) => rows.len() > 0 && rec == rows[rows.len() - 1],
            None => rows.len() == 0,
        }),
    ensures
        (match lo {
            Some(rec) => va.len() > 0 && va[0] == rec,
            None => va.len() == 0,
        }),
        forall|k: int, l: int|
            0 <= k && k < l && l < va.len() ==> (#[trigger] va[l]).created_at <= (
            #[trigger] va[k]).created_at && va[l].id < va[k].id,
{
    assert forall|k: int, l: int|
        0 <= k && k < l && l < va.len() implies (#[trigger] va[l]).created_at <= (
    #[trigger] va[k]).created_at && va[l].id < va[k].id by {
        assert(va[k] == rows[rows.len() - 1 - k]);
        assert(va[l] == rows[rows.len() - 1 - l]);
    }
}

} // verus!

//! Query service: the two read-only operations over the persisted history.
//!
//! Each operation is a thin adapter over the store, with the store's own
//! contract: the caller gets either the data or the store's error, never a
//! fabricated empty answer masking a failure — "no data yet" (`None`, or an
//! empty sequence) stays distinguishable from "store unavailable".
//! `record_from_row` is the row conversion of the query surface: what a
//! row of the persisted relation looks like as an answer, with a missing
//! humidity reported as 0.0's token.

use vstd::prelude::*;
use crate::decode::zero_token;
use crate::decode::zero_token_exec;
use crate::models::SensorRecord;
use crate::store::Store;
use crate::store::StoreError;

verus! {

/// The latest reading: the most recently inserted record, `None` on an
/// empty history — never an error for mere emptiness.
pub fn get_latest(store: &Store) -> (r: Result<Option<SensorRecord>, StoreError>)
    requires
        store.wf(),
    ensures
        (r matches Ok(o) && match o {
            Some(rec) => store@.len() > 0 && rec@ == store@[store@.len() - 1],
            None => store@.len() == 0,
        }),
{
    store.latest()
}

/// The whole history, newest first.
pub fn get_all(store: &Store) -> (r: Result<Vec<SensorRecord>, StoreError>)
    requires
        store.wf(),
    ensures
        (r matches Ok(v) && {
            &&& v@.len() == store@.len()
            &&& forall|k: int|
                0 <= k < v@.len() ==> (#[trigger] v@[k])@ == store@[store@.len() - 1 - k]
            &&& forall|k: int, l: int|
                0 <= k && k < l && l < v@.len() ==> (#[trigger] v@[l])@.created_at <= (
                #[trigger] v@[k])@.created_at && v@[l]@.id < v@[k]@.id
        }),
{
    store.all()
}

/// One persisted row as the API reports it: every column as it stands, with
/// a missing humidity reported as the token of 0.0.
pub fn record_from_row(
    id: u64,
    device_id: Vec<u8>,
    temperature: Vec<u8>,
    humidity: Option<Vec<u8>>,
    created_at: u64,
) -> (r: SensorRecord)
    ensures
        r@.id == id,
        r@.device_id == device_id@,
        r@.temperature == temperature@,
        r@.humidity == (match humidity {
            Some(h) => h@,
            None => zero_token(),
        }),
        r@.created_at == created_at,
{
    let humidity_token = match humidity {
        Some(h) => h,
        None => zero_token_exec(),
    };
    SensorRecord { id, device_id, temperature, humidity: humidity_token, created_at }
}

} // verus!

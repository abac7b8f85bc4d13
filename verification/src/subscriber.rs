//! Subscriber loop: the decisions of the ingestion pipeline.
//!
//! The loop that owns the broker connection lives outside the library; what
//! is verified here is every decision it takes. `step` maps the current
//! state and one inbound event to the next state and the action owed: decode
//! and insert a published payload, drop a malformed one and carry on, stop
//! for good on a transport error — one bad message never takes the loop
//! down, a broken connection always does (the surrounding process is
//! expected to restart the task; the loop itself never reconnects).
//! `ingest` is one message's whole journey against the store: decode, then
//! insert, with a decode failure leaving the store exactly as it was.

use vstd::prelude::*;
use crate::decode::decode;
use crate::decode::spec_decode;
use crate::decode::DecodeError;
use crate::models::SensorData;
use crate::models::SensorRecord;
use crate::store::spec_assigned_at;
use crate::store::Store;

verus! {

/// State of one subscriber loop instance. `Disconnected` is terminal: a
/// transport error ends the instance.
#[derive(Clone, Copy, PartialEq, Eq, Structural, Debug)]
pub enum SubscriberState {
    /// Subscribed and waiting for the next inbound event.
    Receiving,
    /// The transport failed; this instance is over.
    Disconnected,
}

/// One inbound event from the broker connection.
pub enum SubscriberEvent {
    /// A data message for the subscribed topic, with its payload bytes.
    Publish(Vec<u8>),
    /// The connection to the broker failed.
    TransportError,
    /// Any other notification of the transport (acknowledgements, pings).
    Other,
}

/// What the loop owes in answer to one event.
pub enum SubscriberAction {
    /// Persist this decoded reading.
    Insert(SensorData),
    /// Log and drop the message: its payload does not decode.
    DropMalformed,
    /// Nothing to do for this event.
    Ignore,
    /// End the loop.
    Stop,
}

/// One turn of the subscriber loop: from the current state and the inbound
/// event to the next state and the action owed. Errors local to one message
/// never end the loop; a transport error always does.
pub fn step(state: SubscriberState, event: SubscriberEvent) -> (r: (
    SubscriberState,
    SubscriberAction,
))
    ensures
        state is Disconnected ==> r.0 is Disconnected && r.1 is Stop,
        (state is Receiving ==> (match event {
            SubscriberEvent::Publish(payload) => (match spec_decode(payload@) {
                Ok(v) => r.0 is Receiving && (r.1 matches SubscriberAction::Insert(d) && d@ == v),
                Err(_) => r.0 is Receiving && r.1 is DropMalformed,
            }),
            SubscriberEvent::TransportError => r.0 is Disconnected && r.1 is Stop,
            SubscriberEvent::Other => r.0 is Receiving && r.1 is Ignore,
        })),
{
    match state {
        SubscriberState::Disconnected => (SubscriberState::Disconnected, SubscriberAction::Stop),
        SubscriberState::Receiving => match event {
            SubscriberEvent::Publish(payload) => match decode(payload.as_slice()) {
                Ok(d) => (SubscriberState::Receiving, SubscriberAction::Insert(d)),
                Err(_) => (SubscriberState::Receiving, SubscriberAction::DropMalformed),
            },
            SubscriberEvent::TransportError => (
                SubscriberState::Disconnected,
                SubscriberAction::Stop,
            ),
            SubscriberEvent::Other => (SubscriberState::Receiving, SubscriberAction::Ignore),
        },
    }
}

/// One message's journey on the ingestion path: decode the payload and, on
/// success, persist the reading. A payload outside the grammar is answered
/// with its decode error and leaves the store exactly as it was — a decode
/// failure produces zero rows.
pub fn ingest(store: &mut Store, payload: &[u8], now_millis: u64) -> (r: Result<
    SensorRecord,
    DecodeError,
>)
    requires
        old(store).wf(),
        old(store)@.len() + 1 < u64::MAX,
    ensures
        final(store).wf(),
        (match spec_decode(payload@) {
            Err(e) => r == Err::<SensorRecord, DecodeError>(e) && final(store)@ == old(store)@,
            Ok(v) => (r matches Ok(rec) && {
                &&& rec@.id == old(store)@.len() + 1
                &&& rec@.device_id == v.device
                &&& rec@.temperature == v.temp
                &&& rec@.humidity == v.humidity
                &&& rec@.created_at == spec_assigned_at(old(store)@, now_millis)
                &&& final(store)@ =~= old(store)@.push(rec@)
            }),
        }),
{
    match decode(payload) {
        Err(e) => Err(e),
        Ok(data) => match store.insert(data, now_millis) {
            Ok(rec) => Ok(rec),
            // the in-memory store's insert never fails; its contract rules
            // this arm out
            Err(_) => {
                proof {
                    assert(false);
                }
                Err(DecodeError::Malformed)
            },
        },
    }
}

} // verus!

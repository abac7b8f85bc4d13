//! Data model: one decoded sensor observation, and one persisted record.
//!
//! Numeric sensor values travel through the library as their decimal number
//! tokens — the exact bytes that carried them, such as `22.5` — so the
//! verified logic never performs floating-point arithmetic; it only carries
//! the values. Callers outside the library convert a token to a double with
//! the standard library's parser, which is also how the values' semantics
//! are fixed. Device identifiers are carried as their UTF-8 bytes.

use vstd::prelude::*;

verus! {

/// One decoded sensor observation, before the store has assigned an identity
/// or a timestamp.
#[derive(Debug, PartialEq, Eq)]
pub struct SensorData {
    /// UTF-8 bytes of the device identifier; non-empty for a decoded reading.
    pub device: Vec<u8>,
    /// Decimal number token of the reported temperature.
    pub temp: Vec<u8>,
    /// Decimal number token of the reported humidity; the token `0` (the
    /// value 0.0) when the payload carried no humidity.
    pub humidity: Vec<u8>,
}

/// Mathematical view of a `SensorData`.
pub struct ReadingView {
    pub device: Seq<u8>,
    pub temp: Seq<u8>,
    pub humidity: Seq<u8>,
}

impl View for SensorData {
    type V = ReadingView;

    open spec fn view(&self) -> ReadingView {
        ReadingView { device: self.device@, temp: self.temp@, humidity: self.humidity@ }
    }
}

/// One persisted record: a reading plus the store-assigned identity and
/// timestamp.
#[derive(Debug, PartialEq, Eq)]
pub struct SensorRecord {
    /// Store-assigned surrogate key, strictly increasing with insertion order.
    pub id: u64,
    /// UTF-8 bytes of the device identifier.
    pub device_id: Vec<u8>,
    /// Decimal number token of the temperature.
    pub temperature: Vec<u8>,
    /// Decimal number token of the humidity.
    pub humidity: Vec<u8>,
    /// Store-assigned timestamp in milliseconds, non-decreasing with
    /// insertion order.
    pub created_at: u64,
}

/// Mathematical view of a `SensorRecord`.
pub struct RecordView {
    pub id: u64,
    pub device_id: Seq<u8>,
    pub temperature: Seq<u8>,
    pub humidity: Seq<u8>,
    pub created_at: u64,
}

impl View for SensorRecord {
    type V = RecordView;

    open spec fn view(&self) -> RecordView {
        RecordView {
            id: self.id,
            device_id: self.device_id@,
            temperature: self.temperature@,
            humidity: self.humidity@,
            created_at: self.created_at,
        }
    }
}

} // verus!

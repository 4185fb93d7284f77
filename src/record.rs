//! The archived form of an event whose projection failed for good.
use vstd::prelude::*;

verus! {

/// One dead letter, as read from the dead-letter store.
///
/// Identifiers of aggregates are 128-bit values (the bytes of a UUID, most
/// significant first); the time of the original delivery is held as
/// nanoseconds since the Unix epoch.
pub struct DeadLetterRecord {
    /// Identifier of the record in the store; needed to remove it.
    pub id: Option<String>,
    /// The aggregate whose stream the event belongs to.
    pub aggregate_id: Option<u128>,
    /// The subject the event was originally published on.
    pub subject: String,
    /// The namespace the payload is decoded under.
    pub prefix: Option<String>,
    /// The serialized event.
    pub payload: Vec<u8>,
    /// Header names and values of the original message.
    pub headers: Option<Vec<(String, String)>>,
    /// Stream of the original delivery.
    pub stream: String,
    /// Consumer of the original delivery.
    pub consumer: String,
    /// How many times the broker delivered the event.
    pub delivery_count: u64,
    /// Position of the event in its stream.
    pub stream_sequence: u64,
    /// Publication time, in nanoseconds since the Unix epoch.
    pub timestamp_nanos: i128,
}

impl DeadLetterRecord {
    /// Whether the record belongs to the aggregate `a`.
    pub open spec fn belongs_to(self, a: u128) -> bool {
        self.aggregate_id == Some(a)
    }
}

} // verus!

//! Reconstruction of a transport envelope from a dead-letter record, and the
//! acknowledgment address that marks a reply as coming from a replay.
use vstd::prelude::*;

use crate::record::DeadLetterRecord;
use crate::text::{decimal, push_decimal, push_signed_decimal, signed_decimal};

verus! {

/// The required field that a record lacks.
#[derive(Clone, Copy, Debug, PartialEq, Eq, Structural)]
pub enum ReconstructionError {
    MissingHeaders,
    MissingPrefix,
    MissingSubject,
}

/// The description of a reconstruction failure.
pub open spec fn reason_text(e: ReconstructionError) -> Seq<char> {
    match e {
        ReconstructionError::MissingHeaders => "Event headers are missing"@,
        ReconstructionError::MissingPrefix => "Event prefix is missing"@,
        ReconstructionError::MissingSubject => "Event subject is missing"@,
    }
}

impl ReconstructionError {
    /// Describes the failure.
    pub fn reason(&self) -> (r: &'static str)
        ensures
            r@ == reason_text(*self),
    {
        match self {
            ReconstructionError::MissingHeaders => "Event headers are missing",
            ReconstructionError::MissingPrefix => "Event prefix is missing",
            ReconstructionError::MissingSubject => "Event subject is missing",
        }
    }
}

/// The message rebuilt from a record, ready for decoding under `prefix`.
pub struct ReplayEnvelope {
    pub prefix: String,
    pub subject: String,
    /// Acknowledgment address of the replayed delivery.
    pub reply: String,
    pub headers: Vec<(String, String)>,
    pub payload: Vec<u8>,
}

/// The acknowledgment address of a replayed delivery:
/// `$JS.ACK._._.<stream>.<consumer>.<delivered>.<sequence>.1.<nanos>.0.replay`.
pub open spec fn ack_subject_text(
    stream: Seq<char>,
    consumer: Seq<char>,
    delivery_count: u64,
    stream_sequence: u64,
    timestamp_nanos: i128,
) -> Seq<char> {
    "$JS.ACK._._."@ + stream + "."@ + consumer + "."@ + decimal(delivery_count as nat) + "."@
        + decimal(stream_sequence as nat) + ".1."@ + signed_decimal(timestamp_nanos as int)
        + ".0.replay"@
}

/// Builds the acknowledgment address of a replayed delivery.
pub fn ack_subject(
    stream: &str,
    consumer: &str,
    delivery_count: u64,
    stream_sequence: u64,
    timestamp_nanos: i128,
) -> (r: String)
    ensures
        r@ == ack_subject_text(stream@, consumer@, delivery_count, stream_sequence, timestamp_nanos),
{
    let mut s = String::new();
    s.append("$JS.ACK._._.");
    s.append(stream);
    s.append(".");
    s.append(consumer);
    s.append(".");
    push_decimal(&mut s, delivery_count as u128);
    s.append(".");
    push_decimal(&mut s, stream_sequence as u128);
    s.append(".1.");
    push_signed_decimal(&mut s, timestamp_nanos);
    s.append(".0.replay");
    assert(s@ =~= ack_subject_text(stream@, consumer@, delivery_count, stream_sequence, timestamp_nanos));
    s
}

/// The field that keeps a record from being reconstructed, if any.
/// Headers are looked at first, then the prefix, then the subject.
pub open spec fn rejection(r: DeadLetterRecord) -> Option<ReconstructionError> {
    if r.headers is None {
        Some(ReconstructionError::MissingHeaders)
    } else if r.prefix is None {
        Some(ReconstructionError::MissingPrefix)
    } else if r.subject@.len() == 0 {
        Some(ReconstructionError::MissingSubject)
    } else {
        None
    }
}

/// `env` carries the record's subject, headers, payload and prefix unchanged,
/// with the replay acknowledgment address built from its delivery coordinates.
pub open spec fn rebuilt_from(env: ReplayEnvelope, r: DeadLetterRecord) -> bool {
    &&& r.prefix == Some(env.prefix)
    &&& r.headers == Some(env.headers)
    &&& env.subject == r.subject
    &&& env.payload == r.payload
    &&& env.reply@ == ack_subject_text(
        r.stream@,
        r.consumer@,
        r.delivery_count,
        r.stream_sequence,
        r.timestamp_nanos,
    )
}

/// Rebuilds the envelope of a dead letter, or names the required field it lacks.
pub fn reconstruct(record: DeadLetterRecord) -> (r: Result<ReplayEnvelope, ReconstructionError>)
    ensures
        match r {
            Ok(env) => rejection(record) is None && rebuilt_from(env, record),
            Err(e) => rejection(record) == Some(e),
        },
{
    let reply = ack_subject(
        record.stream.as_str(),
        record.consumer.as_str(),
        record.delivery_count,
        record.stream_sequence,
        record.timestamp_nanos,
    );
    let DeadLetterRecord { subject, prefix, payload, headers, .. } = record;
    let headers = match headers {
        Some(h) => h,
        None => return Err(ReconstructionError::MissingHeaders),
    };
    let prefix = match prefix {
        Some(p) => p,
        None => return Err(ReconstructionError::MissingPrefix),
    };
    if subject.as_str().is_empty() {
        return Err(ReconstructionError::MissingSubject);
    }
    Ok(ReplayEnvelope { prefix, subject, reply, headers, payload })
}

} // verus!

//! Replay of dead-lettered events: reconstruction of the transport envelope
//! from an archived record, and the decisions of a replay run, stated and
//! proved over a mathematical model.

pub mod envelope;
pub mod laws;
pub mod plan;
pub mod problem;
pub mod record;
pub mod replay;
pub mod summary;
pub mod text;

//! The outcome of one replay call, and the call-level errors.
use vstd::prelude::*;

verus! {

/// What one replay call did.
pub struct ReplaySummary {
    /// Records considered.
    pub total_events: usize,
    /// Records whose projection succeeded.
    pub successful_replays: usize,
    /// Records that could not be rebuilt or whose projection failed.
    pub failed_replays: usize,
    /// Aggregates touched, each once.
    pub processed_aggregates: Vec<u128>,
    /// One line per failed record or per record left behind after a
    /// successful projection; for diagnostics only.
    pub errors: Vec<String>,
}

impl ReplaySummary {
    /// The error lines, as character sequences.
    pub open spec fn error_texts(self) -> Seq<Seq<char>> {
        self.errors@.map_values(|e: String| e@)
    }
}

/// A replay call that could not even begin.
#[derive(Debug)]
pub enum ReplayDeadLetterError {
    /// No dead letter matched the request.
    NotFound,
    /// The broker side failed.
    NatsJetstream(String),
    /// The dead-letter store failed.
    DeadLetterStore(String),
}

/// The description of a call-level error.
pub open spec fn replay_error_text(e: ReplayDeadLetterError) -> Seq<char> {
    match e {
        ReplayDeadLetterError::NotFound => "No dead letter events found"@,
        ReplayDeadLetterError::NatsJetstream(m) => m@,
        ReplayDeadLetterError::DeadLetterStore(m) => m@,
    }
}

impl ReplayDeadLetterError {
    /// Describes the error.
    pub fn message(&self) -> (r: String)
        ensures
            r@ == replay_error_text(*self),
    {
        match self {
            ReplayDeadLetterError::NotFound => String::from_str("No dead letter events found"),
            ReplayDeadLetterError::NatsJetstream(m) => m.clone(),
            ReplayDeadLetterError::DeadLetterStore(m) => m.clone(),
        }
    }

    /// Whether this is the signal that there was nothing to replay.
    pub fn is_not_found(&self) -> (r: bool)
        ensures
            r <==> *self is NotFound,
    {
        match self {
            ReplayDeadLetterError::NotFound => true,
            _ => false,
        }
    }
}

/// The errors of the admin replay surface; the same taxonomy as
/// [`ReplayDeadLetterError`].
#[derive(Debug)]
pub enum AdminReplayError {
    NotFound,
    NatsJetstream(String),
    DeadLetterStore(String),
}

/// The admin error that carries the same case and message.
pub open spec fn admin_error_of(e: ReplayDeadLetterError) -> AdminReplayError {
    match e {
        ReplayDeadLetterError::NotFound => AdminReplayError::NotFound,
        ReplayDeadLetterError::NatsJetstream(m) => AdminReplayError::NatsJetstream(m),
        ReplayDeadLetterError::DeadLetterStore(m) => AdminReplayError::DeadLetterStore(m),
    }
}

impl From<ReplayDeadLetterError> for AdminReplayError {
    fn from(e: ReplayDeadLetterError) -> (r: AdminReplayError)
        ensures
            r == admin_error_of(e),
    {
        match e {
            ReplayDeadLetterError::NotFound => AdminReplayError::NotFound,
            ReplayDeadLetterError::NatsJetstream(m) => AdminReplayError::NatsJetstream(m),
            ReplayDeadLetterError::DeadLetterStore(m) => AdminReplayError::DeadLetterStore(m),
        }
    }
}

impl vstd::std_specs::convert::FromSpecImpl<ReplayDeadLetterError> for AdminReplayError {
    open spec fn obeys_from_spec() -> bool {
        true
    }

    open spec fn from_spec(e: ReplayDeadLetterError) -> AdminReplayError {
        admin_error_of(e)
    }
}

/// The errors of the admin command handler.
#[derive(Debug)]
pub enum AdminCommandsError {
    ReplayDeadLetterError(ReplayDeadLetterError),
}

impl AdminCommandsError {
    /// Describes the error.
    pub fn message(&self) -> (r: String)
        ensures
            match self {
                AdminCommandsError::ReplayDeadLetterError(e) => r@ == replay_error_text(*e),
            },
    {
        match self {
            AdminCommandsError::ReplayDeadLetterError(e) => e.message(),
        }
    }
}

impl From<ReplayDeadLetterError> for AdminCommandsError {
    fn from(e: ReplayDeadLetterError) -> (r: AdminCommandsError)
        ensures
            r == AdminCommandsError::ReplayDeadLetterError(e),
    {
        AdminCommandsError::ReplayDeadLetterError(e)
    }
}

impl vstd::std_specs::convert::FromSpecImpl<ReplayDeadLetterError> for AdminCommandsError {
    open spec fn obeys_from_spec() -> bool {
        true
    }

    open spec fn from_spec(e: ReplayDeadLetterError) -> AdminCommandsError {
        AdminCommandsError::ReplayDeadLetterError(e)
    }
}

} // verus!

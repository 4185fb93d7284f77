//! Problem-details error bodies (type, title, status, detail), and the
//! mapping of replay errors onto them.
use vstd::prelude::*;

use crate::summary::{replay_error_text, AdminCommandsError, AdminReplayError, ReplayDeadLetterError};

verus! {

#[verifier::external_type_specification]
#[verifier::external_body]
pub struct ExJsonValue(serde_json::Value);

#[verifier::external_type_specification]
#[verifier::external_body]
#[verifier::reject_recursive_types(K)]
#[verifier::reject_recursive_types(V)]
pub struct ExJsonMap<K, V>(serde_json::Map<K, V>);

/// The keys of a JSON object.
pub uninterp spec fn json_keys(m: serde_json::Map<String, serde_json::Value>) -> Set<Seq<char>>;

/// Relies on serde_json's `Map::new`, which makes an empty map.
pub assume_specification[ serde_json::Map::<String, serde_json::Value>::new ]() -> (r:
    serde_json::Map<String, serde_json::Value>)
    ensures
        json_keys(r) == Set::<Seq<char>>::empty(),
;

/// Relies on serde_json's `Map::insert`: afterwards the key is present and the
/// other keys are unchanged; the old value comes back when the key was there.
pub assume_specification[ serde_json::Map::<String, serde_json::Value>::insert ](
    m: &mut serde_json::Map<String, serde_json::Value>,
    k: String,
    v: serde_json::Value,
) -> (r: Option<serde_json::Value>)
    ensures
        json_keys(*final(m)) == json_keys(*old(m)).insert(k@),
        r is Some <==> json_keys(*old(m)).contains(k@),
;

/// An error response body.
pub struct ProblemDetails {
    /// URI reference that identifies the problem type.
    pub problem_type: String,
    /// Short summary of the problem type.
    pub title: String,
    /// HTTP status code.
    pub status: u16,
    /// Explanation of this occurrence.
    pub detail: Option<String>,
    /// URI reference that identifies this occurrence.
    pub instance: Option<String>,
    /// Additional members.
    pub errors: serde_json::Map<String, serde_json::Value>,
}

/// `p` is the body of a problem with the given status, title and type, whose
/// detail is `message`, with no instance and no additional members.
pub open spec fn is_problem(
    p: ProblemDetails,
    status: u16,
    title: Seq<char>,
    problem_type: Seq<char>,
    message: Seq<char>,
) -> bool {
    &&& p.status == status
    &&& p.title@ == title
    &&& p.problem_type@ == problem_type
    &&& p.detail matches Some(d) && d@ == message
    &&& p.instance is None
    &&& json_keys(p.errors) == Set::<Seq<char>>::empty()
}

impl ProblemDetails {
    /// A problem with no detail, instance or additional members.
    pub fn new(problem_type: String, title: String, status: u16) -> (r: Self)
        ensures
            r.problem_type == problem_type,
            r.title == title,
            r.status == status,
            r.detail is None,
            r.instance is None,
            json_keys(r.errors) == Set::<Seq<char>>::empty(),
    {
        ProblemDetails {
            problem_type,
            title,
            status,
            detail: None,
            instance: None,
            errors: serde_json::Map::new(),
        }
    }

    /// The same problem, with `detail` as its explanation.
    pub fn with_detail(self, detail: String) -> (r: Self)
        ensures
            r.detail == Some(detail),
            r.problem_type == self.problem_type,
            r.title == self.title,
            r.status == self.status,
            r.instance == self.instance,
            r.errors == self.errors,
    {
        let mut p = self;
        p.detail = Some(detail);
        p
    }

    /// The same problem, with `instance` naming its occurrence.
    pub fn with_instance(self, instance: String) -> (r: Self)
        ensures
            r.instance == Some(instance),
            r.problem_type == self.problem_type,
            r.title == self.title,
            r.status == self.status,
            r.detail == self.detail,
            r.errors == self.errors,
    {
        let mut p = self;
        p.instance = Some(instance);
        p
    }

    /// The same problem, with the additional member `key` set to `value`.
    pub fn with_extension(self, key: String, value: serde_json::Value) -> (r: Self)
        ensures
            json_keys(r.errors) == json_keys(self.errors).insert(key@),
            r.problem_type == self.problem_type,
            r.title == self.title,
            r.status == self.status,
            r.detail == self.detail,
            r.instance == self.instance,
    {
        let mut p = self;
        p.errors.insert(key, value);
        p
    }

    /// 400 Bad Request.
    pub fn validation_error(message: String) -> (r: Self)
        ensures
            is_problem(r, 400, "Bad Request"@, "https://httpstatuses.io/400"@, message@),
    {
        Self::new(
            String::from_str("https://httpstatuses.io/400"),
            String::from_str("Bad Request"),
            400,
        ).with_detail(message)
    }

    /// 404 Not Found.
    pub fn not_found(message: String) -> (r: Self)
        ensures
            is_problem(r, 404, "Not Found"@, "https://httpstatuses.io/404"@, message@),
    {
        Self::new(
            String::from_str("https://httpstatuses.io/404"),
            String::from_str("Not Found"),
            404,
        ).with_detail(message)
    }

    /// 409 Conflict.
    pub fn conflict(message: String) -> (r: Self)
        ensures
            is_problem(r, 409, "Conflict"@, "https://httpstatuses.io/409"@, message@),
    {
        Self::new(
            String::from_str("https://httpstatuses.io/409"),
            String::from_str("Conflict"),
            409,
        ).with_detail(message)
    }

    /// 401 Unauthorized.
    pub fn unauthorized(message: String) -> (r: Self)
        ensures
            is_problem(r, 401, "Unauthorized"@, "https://httpstatuses.io/401"@, message@),
    {
        Self::new(
            String::from_str("https://httpstatuses.io/401"),
            String::from_str("Unauthorized"),
            401,
        ).with_detail(message)
    }

    /// 403 Forbidden.
    pub fn forbidden(message: String) -> (r: Self)
        ensures
            is_problem(r, 403, "Forbidden"@, "https://httpstatuses.io/403"@, message@),
    {
        Self::new(
            String::from_str("https://httpstatuses.io/403"),
            String::from_str("Forbidden"),
            403,
        ).with_detail(message)
    }

    /// 405 Method Not Allowed.
    pub fn method_not_allowed(message: String) -> (r: Self)
        ensures
            is_problem(r, 405, "Method Not Allowed"@, "https://httpstatuses.io/405"@, message@),
    {
        Self::new(
            String::from_str("https://httpstatuses.io/405"),
            String::from_str("Method Not Allowed"),
            405,
        ).with_detail(message)
    }

    /// 500 Internal Server Error.
    pub fn internal_server_error(message: String) -> (r: Self)
        ensures
            is_problem(r, 500, "Internal Server Error"@, "https://httpstatuses.io/500"@, message@),
    {
        Self::new(
            String::from_str("https://httpstatuses.io/500"),
            String::from_str("Internal Server Error"),
            500,
        ).with_detail(message)
    }

    /// 422 Unprocessable Entity.
    pub fn unprocessable_entity(message: String) -> (r: Self)
        ensures
            is_problem(r, 422, "Unprocessable Entity"@, "https://httpstatuses.io/422"@, message@),
    {
        Self::new(
            String::from_str("https://httpstatuses.io/422"),
            String::from_str("Unprocessable Entity"),
            422,
        ).with_detail(message)
    }

    /// The response to a failed replay call: 404 when nothing was found, 500
    /// for a failure of the broker or of the store.
    pub fn from_replay_error(e: ReplayDeadLetterError) -> (r: Self)
        ensures
            is_problem(r, replay_error_status(e), replay_error_title(e), replay_error_type(e), replay_error_detail(e)),
    {
        match e {
            ReplayDeadLetterError::NotFound => {
                Self::not_found(String::from_str("No dead letter events found"))
            },
            ReplayDeadLetterError::NatsJetstream(m) => {
                let mut d = String::from_str("NATS JetStream error: ");
                d.append(m.as_str());
                Self::internal_server_error(d)
            },
            ReplayDeadLetterError::DeadLetterStore(m) => {
                let mut d = String::from_str("Dead Letter Store error: ");
                d.append(m.as_str());
                Self::internal_server_error(d)
            },
        }
    }

    /// The response to a failed admin replay; as for [`Self::from_replay_error`].
    pub fn from_admin_replay_error(e: AdminReplayError) -> (r: Self)
        ensures
            ({
                let same = match e {
                    AdminReplayError::NotFound => ReplayDeadLetterError::NotFound,
                    AdminReplayError::NatsJetstream(m) => ReplayDeadLetterError::NatsJetstream(m),
                    AdminReplayError::DeadLetterStore(m) => ReplayDeadLetterError::DeadLetterStore(m),
                };
                is_problem(r, replay_error_status(same), replay_error_title(same), replay_error_type(same), replay_error_detail(same))
            }),
    {
        let same = match e {
            AdminReplayError::NotFound => ReplayDeadLetterError::NotFound,
            AdminReplayError::NatsJetstream(m) => ReplayDeadLetterError::NatsJetstream(m),
            AdminReplayError::DeadLetterStore(m) => ReplayDeadLetterError::DeadLetterStore(m),
        };
        Self::from_replay_error(same)
    }

    /// The response to a failed admin command; as for [`Self::from_replay_error`].
    pub fn from_admin_commands_error(e: AdminCommandsError) -> (r: Self)
        ensures
            match e {
                AdminCommandsError::ReplayDeadLetterError(inner) => is_problem(
                    r,
                    replay_error_status(inner),
                    replay_error_title(inner),
                    replay_error_type(inner),
                    replay_error_detail(inner),
                ),
            },
    {
        match e {
            AdminCommandsError::ReplayDeadLetterError(inner) => Self::from_replay_error(inner),
        }
    }
}

/// 404 when nothing was found, else 500.
pub open spec fn replay_error_status(e: ReplayDeadLetterError) -> u16 {
    if e is NotFound { 404 } else { 500 }
}

pub open spec fn replay_error_title(e: ReplayDeadLetterError) -> Seq<char> {
    if e is NotFound { "Not Found"@ } else { "Internal Server Error"@ }
}

pub open spec fn replay_error_type(e: ReplayDeadLetterError) -> Seq<char> {
    if e is NotFound { "https://httpstatuses.io/404"@ } else { "https://httpstatuses.io/500"@ }
}

/// The explanation given for a replay error.
pub open spec fn replay_error_detail(e: ReplayDeadLetterError) -> Seq<char> {
    match e {
        ReplayDeadLetterError::NotFound => replay_error_text(e),
        ReplayDeadLetterError::NatsJetstream(m) => "NATS JetStream error: "@ + m@,
        ReplayDeadLetterError::DeadLetterStore(m) => "Dead Letter Store error: "@ + m@,
    }
}

} // verus!

use esrc_ext::problem::ProblemDetails;
use esrc_ext::summary::{AdminCommandsError, AdminReplayError, ReplayDeadLetterError};

#[test]
fn not_found_maps_to_404() {
    let p = ProblemDetails::from_replay_error(ReplayDeadLetterError::NotFound);
    assert_eq!(p.status, 404);
    assert_eq!(p.title, "Not Found");
    assert_eq!(p.problem_type, "https://httpstatuses.io/404");
    assert_eq!(p.detail.as_deref(), Some("No dead letter events found"));
    assert!(p.instance.is_none());
    assert!(p.errors.is_empty());
}

#[test]
fn store_and_broker_errors_map_to_500() {
    let p = ProblemDetails::from_replay_error(ReplayDeadLetterError::DeadLetterStore("down".into()));
    assert_eq!(p.status, 500);
    assert_eq!(p.title, "Internal Server Error");
    assert_eq!(p.detail.as_deref(), Some("Dead Letter Store error: down"));
    let p = ProblemDetails::from_admin_replay_error(AdminReplayError::NatsJetstream("nats".into()));
    assert_eq!(p.status, 500);
    assert_eq!(p.detail.as_deref(), Some("NATS JetStream error: nats"));
    let p = ProblemDetails::from_admin_commands_error(AdminCommandsError::ReplayDeadLetterError(
        ReplayDeadLetterError::NotFound,
    ));
    assert_eq!(p.status, 404);
}

#[test]
fn helper_constructors() {
    let cases = [
        (ProblemDetails::validation_error("m".into()), 400, "Bad Request"),
        (ProblemDetails::unauthorized("m".into()), 401, "Unauthorized"),
        (ProblemDetails::forbidden("m".into()), 403, "Forbidden"),
        (ProblemDetails::not_found("m".into()), 404, "Not Found"),
        (ProblemDetails::method_not_allowed("m".into()), 405, "Method Not Allowed"),
        (ProblemDetails::conflict("m".into()), 409, "Conflict"),
        (ProblemDetails::unprocessable_entity("m".into()), 422, "Unprocessable Entity"),
        (ProblemDetails::internal_server_error("m".into()), 500, "Internal Server Error"),
    ];
    for (p, status, title) in cases {
        assert_eq!(p.status, status);
        assert_eq!(p.title, title);
        assert_eq!(p.problem_type, format!("https://httpstatuses.io/{}", status));
        assert_eq!(p.detail.as_deref(), Some("m"));
    }
}

#[test]
fn builders_set_fields() {
    let p = ProblemDetails::new("t".into(), "T".into(), 418)
        .with_instance("/x".into())
        .with_extension("field".into(), serde_json::Value::Bool(true))
        .with_extension("field".into(), serde_json::Value::Bool(false))
        .with_detail("d".into());
    assert_eq!(p.status, 418);
    assert_eq!(p.instance.as_deref(), Some("/x"));
    assert_eq!(p.detail.as_deref(), Some("d"));
    assert_eq!(p.errors.len(), 1);
    assert_eq!(p.errors.get("field"), Some(&serde_json::Value::Bool(false)));
}

use esrc_ext::envelope::{ack_subject, reconstruct, ReconstructionError};
use esrc_ext::record::DeadLetterRecord;
use esrc_ext::replay::ReplaySession;
use esrc_ext::summary::{AdminCommandsError, AdminReplayError, ReplayDeadLetterError, ReplaySummary};

const A: u128 = 0xa;
const B: u128 = 0x0123_4567_89ab_cdef_0011_2233_4455_6677;

fn record(id: Option<&str>, aggregate: Option<u128>, headers: bool) -> DeadLetterRecord {
    DeadLetterRecord {
        id: id.map(|s| s.to_string()),
        aggregate_id: aggregate,
        subject: "users.created.0000".to_string(),
        prefix: Some("users".to_string()),
        payload: vec![1, 2, 3],
        headers: if headers {
            Some(vec![("Esrc-Version".to_string(), "1".to_string())])
        } else {
            None
        },
        stream: "users".to_string(),
        consumer: "projector".to_string(),
        delivery_count: 2,
        stream_sequence: 17,
        timestamp_nanos: 1_700_000_000_000_000_001,
    }
}

/// Drives a session: `outcome(n)` is what the projector says of the n-th
/// envelope; removals are applied to `store`, failing for ids in `broken`.
fn drive(
    mut session: ReplaySession,
    store: &mut Vec<DeadLetterRecord>,
    outcome: &dyn Fn(usize, &esrc_ext::envelope::ReplayEnvelope) -> Result<(), String>,
    broken: &[&str],
) -> (ReplaySummary, usize, Vec<String>) {
    let mut projected = 0;
    let mut removed = Vec::new();
    while let Some(envelope) = session.next_envelope() {
        let result = outcome(projected, &envelope);
        projected += 1;
        if let Some(id) = session.record_projection(result) {
            if broken.contains(&id.as_str()) {
                session.record_removal(Err("store offline".to_string()));
            } else {
                store.retain(|r| r.id.as_deref() != Some(id.as_str()));
                removed.push(id);
                session.record_removal(Ok(()));
            }
        }
    }
    assert!(session.is_finished());
    (session.into_summary(), projected, removed)
}

fn take_all(store: &[DeadLetterRecord]) -> Vec<DeadLetterRecord> {
    store
        .iter()
        .map(|r| DeadLetterRecord {
            id: r.id.clone(),
            aggregate_id: r.aggregate_id,
            subject: r.subject.clone(),
            prefix: r.prefix.clone(),
            payload: r.payload.clone(),
            headers: r.headers.clone(),
            stream: r.stream.clone(),
            consumer: r.consumer.clone(),
            delivery_count: r.delivery_count,
            stream_sequence: r.stream_sequence,
            timestamp_nanos: r.timestamp_nanos,
        })
        .collect()
}

#[test]
fn ack_subject_layout() {
    let s = ack_subject("orders", "projector", 3, 42, 1_700_000_000_123_456_789);
    assert_eq!(s, "$JS.ACK._._.orders.projector.3.42.1.1700000000123456789.0.replay");
}

#[test]
fn ack_subject_extremes() {
    assert_eq!(ack_subject("s", "c", 0, 0, 0), "$JS.ACK._._.s.c.0.0.1.0.0.replay");
    assert_eq!(
        ack_subject("s", "c", u64::MAX, 10, -5),
        "$JS.ACK._._.s.c.18446744073709551615.10.1.-5.0.replay"
    );
    assert_eq!(
        ack_subject("s", "c", 1, 1, i128::MIN),
        "$JS.ACK._._.s.c.1.1.1.-170141183460469231731687303715884105728.0.replay"
    );
}

#[test]
fn reconstruct_keeps_fields() {
    let env = reconstruct(record(Some("x"), Some(A), true)).ok().unwrap();
    assert_eq!(env.prefix, "users");
    assert_eq!(env.subject, "users.created.0000");
    assert_eq!(env.payload, vec![1, 2, 3]);
    assert_eq!(env.headers, vec![("Esrc-Version".to_string(), "1".to_string())]);
    assert_eq!(env.reply, "$JS.ACK._._.users.projector.2.17.1.1700000000000000001.0.replay");
}

#[test]
fn reconstruct_names_missing_field() {
    let r = reconstruct(record(None, Some(A), false));
    assert_eq!(r.err(), Some(ReconstructionError::MissingHeaders));

    let mut no_prefix = record(None, Some(A), true);
    no_prefix.prefix = None;
    assert_eq!(reconstruct(no_prefix).err(), Some(ReconstructionError::MissingPrefix));

    let mut no_subject = record(None, Some(A), true);
    no_subject.subject = String::new();
    assert_eq!(reconstruct(no_subject).err(), Some(ReconstructionError::MissingSubject));

    let mut neither = record(None, Some(A), false);
    neither.prefix = None;
    assert_eq!(reconstruct(neither).err(), Some(ReconstructionError::MissingHeaders));
    assert_eq!(ReconstructionError::MissingPrefix.reason(), "Event prefix is missing");
}

#[test]
fn replay_one_without_matching_records_is_not_found() {
    let records = vec![record(Some("1"), Some(B), true), record(Some("2"), None, true)];
    let r = ReplaySession::for_aggregate(records, A);
    assert!(matches!(r, Err(ReplayDeadLetterError::NotFound)));
    assert!(ReplaySession::for_aggregate(Vec::new(), A).err().unwrap().is_not_found());
}

#[test]
fn replay_all_on_empty_store_is_not_found() {
    assert!(matches!(ReplaySession::for_all(Vec::new()), Err(ReplayDeadLetterError::NotFound)));
    let ungroupable = vec![record(Some("1"), None, true)];
    assert!(matches!(ReplaySession::for_all(ungroupable), Err(ReplayDeadLetterError::NotFound)));
}

#[test]
fn replay_all_two_aggregates_one_failure() {
    let mut store = vec![
        record(Some("a1"), Some(A), true),
        record(Some("a2"), Some(A), true),
        record(Some("b1"), Some(B), true),
    ];
    let session = ReplaySession::for_all(take_all(&store)).ok().unwrap();
    let (summary, projected, removed) = drive(
        session,
        &mut store,
        &|n, _| if n == 1 { Err("projector rejected event".to_string()) } else { Ok(()) },
        &[],
    );
    assert_eq!(summary.total_events, 3);
    assert_eq!(summary.successful_replays, 2);
    assert_eq!(summary.failed_replays, 1);
    assert_eq!(summary.processed_aggregates, vec![A, B]);
    assert_eq!(projected, 3);
    assert_eq!(removed, vec!["a1".to_string(), "b1".to_string()]);
    assert_eq!(store.len(), 1);
    assert_eq!(store[0].id.as_deref(), Some("a2"));
    assert_eq!(
        summary.errors,
        vec![
            "Failed to replay event for aggregate 00000000-0000-0000-0000-00000000000a: projector rejected event"
                .to_string()
        ]
    );
}

#[test]
fn replay_all_groups_in_order_of_first_appearance() {
    let mut store = vec![
        record(Some("b1"), Some(B), true),
        record(Some("x"), None, true),
        record(Some("a1"), Some(A), true),
        record(Some("b2"), Some(B), true),
    ];
    let session = ReplaySession::for_all(take_all(&store)).ok().unwrap();
    let (summary, _, removed) = drive(session, &mut store, &|_, _| Ok(()), &[]);
    assert_eq!(summary.processed_aggregates, vec![B, A]);
    assert_eq!(summary.total_events, 3);
    assert_eq!(removed, vec!["b1".to_string(), "b2".to_string(), "a1".to_string()]);
    assert_eq!(store.len(), 1);
    assert_eq!(store[0].id.as_deref(), Some("x"));
}

#[test]
fn headerless_record_never_reaches_projector() {
    let mut store = vec![record(Some("h"), Some(A), false), record(Some("ok"), Some(A), true)];
    let session = ReplaySession::for_aggregate(take_all(&store), A).ok().unwrap();
    let (summary, projected, removed) = drive(
        session,
        &mut store,
        &|_, env| {
            assert!(!env.headers.is_empty());
            Ok(())
        },
        &[],
    );
    assert_eq!(projected, 1);
    assert_eq!(summary.failed_replays, 1);
    assert_eq!(summary.successful_replays, 1);
    assert_eq!(removed, vec!["ok".to_string()]);
    assert_eq!(summary.errors.len(), 1);
    assert!(summary.errors[0].contains("headers"));
    assert_eq!(summary.errors[0], "Failed to replay event: Event headers are missing");
    assert_eq!(store.len(), 1);
}

#[test]
fn counts_add_up_over_mixed_outcomes() {
    let mut store = vec![
        record(Some("1"), Some(A), true),
        record(None, Some(A), true),
        record(Some("3"), Some(A), false),
        record(Some("4"), Some(A), true),
        record(Some("5"), Some(A), true),
    ];
    store[4].prefix = None;
    let session = ReplaySession::for_aggregate(take_all(&store), A).ok().unwrap();
    let (summary, projected, removed) =
        drive(session, &mut store, &|n, _| if n == 2 { Err("bad".into()) } else { Ok(()) }, &[]);
    assert_eq!(projected, 3);
    assert_eq!(summary.total_events, 5);
    assert_eq!(summary.successful_replays, 2);
    assert_eq!(summary.failed_replays, 3);
    assert_eq!(summary.successful_replays + summary.failed_replays, summary.total_events);
    assert_eq!(summary.processed_aggregates, vec![A]);
    assert_eq!(removed, vec!["1".to_string()]);
    assert_eq!(
        summary.errors,
        vec![
            "Failed to replay event: Event headers are missing".to_string(),
            "Failed to replay event: bad".to_string(),
            "Failed to replay event: Event prefix is missing".to_string(),
        ]
    );
}

#[test]
fn failed_record_stays_unchanged() {
    let mut store = vec![record(Some("keep"), Some(A), true), record(Some("go"), Some(A), true)];
    let before = take_all(&store);
    let session = ReplaySession::for_aggregate(take_all(&store), A).ok().unwrap();
    drive(session, &mut store, &|n, _| if n == 0 { Err("no".into()) } else { Ok(()) }, &[]);
    assert_eq!(store.len(), 1);
    let kept = &store[0];
    let orig = &before[0];
    assert_eq!(kept.id, orig.id);
    assert_eq!(kept.payload, orig.payload);
    assert_eq!(kept.headers, orig.headers);
    assert_eq!(kept.subject, orig.subject);
    assert_eq!(kept.timestamp_nanos, orig.timestamp_nanos);
}

#[test]
fn replaying_twice_takes_only_what_is_left() {
    let mut store = vec![
        record(Some("1"), Some(A), true),
        record(Some("2"), Some(A), true),
        record(Some("3"), Some(A), true),
    ];
    let first = ReplaySession::for_aggregate(take_all(&store), A).ok().unwrap();
    drive(first, &mut store, &|n, _| if n == 1 { Err("later".into()) } else { Ok(()) }, &[]);
    let second = ReplaySession::for_aggregate(take_all(&store), A).ok().unwrap();
    let (summary, projected, removed) = drive(second, &mut store, &|_, _| Ok(()), &[]);
    assert_eq!(summary.total_events, 1);
    assert_eq!(projected, 1);
    assert_eq!(removed, vec!["2".to_string()]);
    assert!(matches!(
        ReplaySession::for_aggregate(take_all(&store), A),
        Err(ReplayDeadLetterError::NotFound)
    ));
}

#[test]
fn removal_failure_is_a_warning() {
    let mut store = vec![record(Some("stuck"), Some(B), true)];
    let session = ReplaySession::for_all(take_all(&store)).ok().unwrap();
    let (summary, _, removed) = drive(session, &mut store, &|_, _| Ok(()), &["stuck"]);
    assert_eq!(summary.successful_replays, 1);
    assert_eq!(summary.failed_replays, 0);
    assert!(removed.is_empty());
    assert_eq!(summary.errors, vec!["Failed to remove dead letter stuck: store offline".to_string()]);
    assert_eq!(store.len(), 1);
}

#[test]
fn bulk_failure_names_aggregate() {
    let mut store = vec![record(Some("1"), Some(B), false)];
    let session = ReplaySession::for_all(take_all(&store)).ok().unwrap();
    let (summary, projected, _) = drive(session, &mut store, &|_, _| Ok(()), &[]);
    assert_eq!(projected, 0);
    assert_eq!(
        summary.errors,
        vec![
            "Failed to replay event for aggregate 01234567-89ab-cdef-0011-223344556677: Event headers are missing"
                .to_string()
        ]
    );
}

#[test]
fn record_without_id_is_not_removed() {
    let mut store = vec![record(None, Some(A), true)];
    let session = ReplaySession::for_aggregate(take_all(&store), A).ok().unwrap();
    let (summary, projected, removed) = drive(session, &mut store, &|_, _| Ok(()), &[]);
    assert_eq!(projected, 1);
    assert_eq!(summary.successful_replays, 1);
    assert!(removed.is_empty());
    assert!(summary.errors.is_empty());
}

#[test]
fn error_messages_and_conversions() {
    assert_eq!(ReplayDeadLetterError::NotFound.message(), "No dead letter events found");
    assert_eq!(ReplayDeadLetterError::NatsJetstream("n".into()).message(), "n");
    assert_eq!(ReplayDeadLetterError::DeadLetterStore("d".into()).message(), "d");
    assert!(!ReplayDeadLetterError::DeadLetterStore("d".into()).is_not_found());
    assert!(matches!(AdminReplayError::from(ReplayDeadLetterError::NotFound), AdminReplayError::NotFound));
    match AdminReplayError::from(ReplayDeadLetterError::DeadLetterStore("s".into())) {
        AdminReplayError::DeadLetterStore(m) => assert_eq!(m, "s"),
        other => panic!("unexpected {:?}", other),
    }
    match AdminCommandsError::from(ReplayDeadLetterError::NatsJetstream("j".into())) {
        AdminCommandsError::ReplayDeadLetterError(ReplayDeadLetterError::NatsJetstream(m)) => {
            assert_eq!(m, "j")
        },
        other => panic!("unexpected {:?}", other),
    }
}

use realtor_query::AbortReason;
use realtor_query::DriverAction;
use realtor_query::DriverState;
use realtor_query::FetchOutcome;
use realtor_query::MarkerSlot;
use realtor_query::QueryRecord;
use realtor_query::RunPhase;
use realtor_query::Status;
use realtor_query::UnknownReason;
use realtor_query::default_pacing;
use realtor_query::default_table;
use realtor_query::encode_record;
use realtor_query::get_status_tag;
use realtor_query::on_fetch_outcome;

fn main_st_record() -> QueryRecord {
    QueryRecord { name: b"123 Main St".to_vec(), query: b"123-main-st".to_vec() }
}

fn active_priced_body() -> Vec<u8> {
    let mut body = b"<html>".to_vec();
    body.extend_from_slice(get_status_tag(MarkerSlot::Active1).as_slice());
    body.extend_from_slice(b" filler class=\"Price__Component-rui__x3geed-0 gipzbd\">$425,000 tail</html>");
    body
}

fn running_state(total: usize, next_index: usize) -> DriverState {
    DriverState {
        total,
        next_index,
        awaiting_retry: false,
        diag_files: 0,
        phase: RunPhase::Running,
        table: default_table(),
        pacing: default_pacing(),
    }
}

#[test]
fn single_record_run_persists_and_ends_without_suspension() {
    let st = DriverState::new_run(1);
    let rec = main_st_record();
    let (post, action) = on_fetch_outcome(st, &rec, FetchOutcome::Success(active_priced_body()));
    match action {
        DriverAction::Persist { record, delay_secs } => {
            assert_eq!(record.name, b"123 Main St".to_vec());
            assert_eq!(record.status, Status::Active);
            assert_eq!(record.price, b"$425,000".to_vec());
            assert_eq!(record.query, b"123-main-st".to_vec());
            assert_eq!(delay_secs, None);
            assert_eq!(
                String::from_utf8(encode_record(&record)).unwrap(),
                r#"{"name":"123 Main St","status":"active","price":"$425,000","query":"123-main-st"}"#
            );
        },
        other => panic!("expected Persist, got {other:?}"),
    }
    assert_eq!(post.phase, RunPhase::Done);
}

#[test]
fn ninth_of_ten_records_gets_the_long_cooldown() {
    let st = running_state(10, 9);
    let rec = main_st_record();
    let (post, action) = on_fetch_outcome(st, &rec, FetchOutcome::Success(active_priced_body()));
    match action {
        DriverAction::Persist { delay_secs, .. } => {
            assert_eq!(delay_secs, Some(1805));
        },
        other => panic!("expected Persist, got {other:?}"),
    }
    assert_eq!(post.phase, RunPhase::Running);
    assert_eq!(post.next_index, 10);
}

#[test]
fn ordinary_record_gets_a_window_delay() {
    let st = running_state(10, 3);
    let rec = main_st_record();
    let (post, action) = on_fetch_outcome(st, &rec, FetchOutcome::Success(active_priced_body()));
    match action {
        DriverAction::Persist { delay_secs, .. } => {
            let d = delay_secs.expect("a delay is owed before the next record");
            assert!((125..=184).contains(&d), "delay {d} outside window");
        },
        other => panic!("expected Persist, got {other:?}"),
    }
    assert_eq!(post.next_index, 4);
}

#[test]
fn interruption_page_aborts_with_a_diagnostic_and_no_record() {
    let st = DriverState::new_run(3);
    let rec = main_st_record();
    let body = b"<html><title>Pardon Our Interruption</title>no markers</html>".to_vec();
    let (post, action) = on_fetch_outcome(st, &rec, FetchOutcome::Success(body.clone()));
    match action {
        DriverAction::SaveDiagnostic { file_num, reason, body: saved } => {
            assert_eq!(file_num, 1);
            assert_eq!(reason, UnknownReason::BotBlocked);
            assert_eq!(saved, body);
        },
        other => panic!("expected SaveDiagnostic, got {other:?}"),
    }
    assert_eq!(
        post.phase,
        RunPhase::Aborted(AbortReason::UnknownPage(UnknownReason::BotBlocked))
    );
    assert_eq!(post.diag_files, 1);
}

#[test]
fn unknown_schema_page_aborts_with_schema_change_diagnosis() {
    let st = DriverState::new_run(1);
    let rec = main_st_record();
    let body = b"<html><title>A Redesign</title></html>".to_vec();
    let (post, action) = on_fetch_outcome(st, &rec, FetchOutcome::Success(body));
    match action {
        DriverAction::SaveDiagnostic { reason, .. } => {
            assert_eq!(reason, UnknownReason::PossibleSchemaChange);
        },
        other => panic!("expected SaveDiagnostic, got {other:?}"),
    }
    assert_eq!(
        post.phase,
        RunPhase::Aborted(AbortReason::UnknownPage(UnknownReason::PossibleSchemaChange))
    );
}

#[test]
fn first_timeout_earns_one_delayed_retry() {
    let st = DriverState::new_run(2);
    let rec = main_st_record();
    let (post, action) = on_fetch_outcome(st, &rec, FetchOutcome::Timeout);
    assert_eq!(action, DriverAction::WaitAndRetry { wait_secs: 305 });
    assert_eq!(post.phase, RunPhase::Running);
    assert!(post.awaiting_retry);

    // The retried fetch may then succeed as usual.
    let (post2, action2) =
        on_fetch_outcome(post, &rec, FetchOutcome::Success(active_priced_body()));
    assert!(matches!(action2, DriverAction::Persist { .. }));
    assert_eq!(post2.next_index, 2);
    assert!(!post2.awaiting_retry);
}

#[test]
fn second_timeout_aborts_the_run() {
    let st = DriverState::new_run(2);
    let rec = main_st_record();
    let (post, _) = on_fetch_outcome(st, &rec, FetchOutcome::Timeout);
    let (post2, action2) = on_fetch_outcome(post, &rec, FetchOutcome::Timeout);
    assert_eq!(action2, DriverAction::AbortFetch);
    assert_eq!(post2.phase, RunPhase::Aborted(AbortReason::FetchFailure));
}

#[test]
fn transport_error_aborts_immediately() {
    let st = DriverState::new_run(5);
    let rec = main_st_record();
    let (post, action) =
        on_fetch_outcome(st, &rec, FetchOutcome::Error(b"connection refused".to_vec()));
    assert_eq!(action, DriverAction::AbortFetch);
    assert_eq!(post.phase, RunPhase::Aborted(AbortReason::FetchFailure));
}

#[test]
fn error_on_retry_aborts_the_run() {
    let st = DriverState::new_run(2);
    let rec = main_st_record();
    let (post, _) = on_fetch_outcome(st, &rec, FetchOutcome::Timeout);
    let (post2, action2) =
        on_fetch_outcome(post, &rec, FetchOutcome::Error(b"reset".to_vec()));
    assert_eq!(action2, DriverAction::AbortFetch);
    assert_eq!(post2.phase, RunPhase::Aborted(AbortReason::FetchFailure));
}

#[test]
fn sold_listing_persists_with_empty_price() {
    let st = DriverState::new_run(1);
    let rec = main_st_record();
    let mut body = b"<html>".to_vec();
    body.extend_from_slice(get_status_tag(MarkerSlot::JustSold1).as_slice());
    body.extend_from_slice(
        b" class=\"Price__Component-rui__x3geed-0 gipzbd\">$425,000</html>",
    );
    let (_, action) = on_fetch_outcome(st, &rec, FetchOutcome::Success(body));
    match action {
        DriverAction::Persist { record, .. } => {
            assert_eq!(record.status, Status::JustSold);
            assert_eq!(record.price, Vec::<u8>::new());
        },
        other => panic!("expected Persist, got {other:?}"),
    }
}

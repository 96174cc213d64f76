use seekwel::connection::{tx_start, tx_step, TxAction, TxEvent, TxState};
use seekwel::Error;

/// Runs the step function on a sequence of events and collects each action, as text.
fn run(savepoint: Option<&str>, events: Vec<TxEvent>) -> Vec<String> {
    let savepoint = savepoint.map(|s| s.to_string());
    let (mut state, mut action) = tx_start(&savepoint);
    let mut out = vec![describe(&action)];
    for event in events {
        let (next, next_action) = tx_step(&savepoint, state, event);
        state = next;
        action = next_action;
        out.push(describe(&action));
    }
    assert!(matches!(state, TxState::Finished));
    out
}

fn describe(action: &TxAction) -> String {
    match action {
        TxAction::Execute(sql) => sql.clone(),
        TxAction::RunBody => "body".to_string(),
        TxAction::ReturnValue => "value".to_string(),
        TxAction::ReturnError(e) => format!("error: {}", e.message()),
        TxAction::ResumePanic => "panic".to_string(),
    }
}

fn ok() -> TxEvent {
    TxEvent::Executed(Ok(()))
}

fn failed(message: &str) -> TxEvent {
    TxEvent::Executed(Err(Error::InvalidQuery(message.to_string())))
}

#[test]
fn outer_transaction_commits_after_the_body() {
    assert_eq!(
        run(None, vec![ok(), TxEvent::BodyDone(Ok(())), ok()]),
        vec!["BEGIN IMMEDIATE", "body", "COMMIT", "value"]
    );
}

#[test]
fn outer_transaction_rolls_back_a_failed_commit() {
    let out = run(None, vec![ok(), TxEvent::BodyDone(Ok(())), failed("busy"), failed("gone")]);
    assert_eq!(out[..3], ["BEGIN IMMEDIATE", "body", "COMMIT"]);
    assert_eq!(out[3], "ROLLBACK");
    assert!(out[4].starts_with("error: ") && out[4].contains("busy"));
}

#[test]
fn outer_transaction_rolls_back_a_failed_body() {
    let out = run(None, vec![ok(), TxEvent::BodyDone(Err(Error::Rollback)), ok()]);
    assert_eq!(out[..3], ["BEGIN IMMEDIATE", "body", "ROLLBACK"]);
    assert_eq!(out[3], format!("error: {}", Error::Rollback.message()));
    let replaced = run(None, vec![ok(), TxEvent::BodyDone(Err(Error::Rollback)), failed("locked")]);
    assert!(replaced[3].contains("locked"));
}

#[test]
fn outer_transaction_rolls_back_before_a_panic_continues() {
    assert_eq!(
        run(None, vec![ok(), TxEvent::BodyPanicked, failed("ignored")]),
        vec!["BEGIN IMMEDIATE", "body", "ROLLBACK", "panic"]
    );
}

#[test]
fn failed_begin_ends_the_transaction() {
    let out = run(None, vec![failed("no lock")]);
    assert_eq!(out[0], "BEGIN IMMEDIATE");
    assert!(out[1].contains("no lock"));
}

#[test]
fn nested_transaction_releases_its_savepoint() {
    assert_eq!(
        run(Some("__seekwel_savepoint_1"), vec![ok(), TxEvent::BodyDone(Ok(())), ok()]),
        vec!["SAVEPOINT __seekwel_savepoint_1", "body", "RELEASE SAVEPOINT __seekwel_savepoint_1", "value"]
    );
    let out = run(Some("s"), vec![ok(), TxEvent::BodyDone(Ok(())), failed("release")]);
    assert!(out[3].contains("release"));
}

#[test]
fn nested_transaction_rolls_back_to_its_savepoint() {
    let out = run(Some("s"), vec![ok(), TxEvent::BodyDone(Err(Error::Rollback)), failed("a"), failed("b")]);
    assert_eq!(out[..4], ["SAVEPOINT s", "body", "ROLLBACK TO SAVEPOINT s", "RELEASE SAVEPOINT s"]);
    assert_eq!(out[4], format!("error: {}", Error::Rollback.message()));
    assert_eq!(
        run(Some("s"), vec![ok(), TxEvent::BodyPanicked, ok(), ok()]),
        vec!["SAVEPOINT s", "body", "ROLLBACK TO SAVEPOINT s", "RELEASE SAVEPOINT s", "panic"]
    );
}

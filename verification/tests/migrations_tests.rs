use qtbridge::migrations::{
    advance, MigrationAction, MigrationEvent, MigrationState, SCHEMA_VERSION,
};

fn completion(action: MigrationAction) -> MigrationEvent {
    match action {
        MigrationAction::OpenTransaction => MigrationEvent::TransactionOpened,
        MigrationAction::ApplyStep(_) => MigrationEvent::StepApplied,
        MigrationAction::StampVersion(_) => MigrationEvent::VersionStamped,
        MigrationAction::Commit | MigrationAction::Finish => MigrationEvent::Committed,
    }
}

fn run(from: i64) -> Vec<MigrationAction> {
    let mut actions = Vec::new();
    let (mut state, mut action) = advance(MigrationState::Start, MigrationEvent::VersionRead(from));
    actions.push(action);
    while action != MigrationAction::Finish {
        let (next, next_action) = advance(state, completion(action));
        state = next;
        action = next_action;
        actions.push(action);
    }
    assert_eq!(state, MigrationState::Done);
    actions
}

#[test]
fn schema_version_is_zero() {
    assert_eq!(SCHEMA_VERSION, 0);
}

#[test]
fn current_database_is_a_no_op() {
    assert_eq!(run(SCHEMA_VERSION), vec![MigrationAction::Finish]);
}

#[test]
fn newer_database_is_a_no_op() {
    assert_eq!(run(SCHEMA_VERSION + 7), vec![MigrationAction::Finish]);
}

#[test]
fn second_run_is_a_no_op() {
    let first = run(0);
    assert_eq!(first.last(), Some(&MigrationAction::Finish));
    assert_eq!(run(SCHEMA_VERSION), vec![MigrationAction::Finish]);
}

#[test]
fn version_read_at_current_ends_the_run() {
    let (state, action) = advance(MigrationState::Start, MigrationEvent::VersionRead(0));
    assert_eq!(state, MigrationState::Done);
    assert_eq!(action, MigrationAction::Finish);
}

//! Versioned schema migrations: a single `SCHEMA_VERSION` plus ordered
//! migration steps that run exactly once per database.
//!
//! The database stores its schema version. A migration run reads it; if the
//! database is current there is nothing to do. Otherwise every step from the
//! stored version up to `SCHEMA_VERSION` is applied, in order, inside one
//! transaction, the new version is stamped, and the transaction is committed,
//! so that a failure anywhere rolls the whole upgrade back.
//!
//! Step `v` migrates a database from version `v` to `v + 1`. To add a
//! migration, append a step and bump `SCHEMA_VERSION` by one.
//!
//! This module decides what a run does next; the caller performs each action
//! on the database and reports back the event that completed it.

use vstd::prelude::*;

verus! {

/// The current schema version; it equals the number of migration steps.
pub const SCHEMA_VERSION: i64 = 0;

/// Where a migration run stands.
#[derive(Clone, Copy, Debug, PartialEq, Eq, Structural)]
pub enum MigrationState {
    /// The stored version has not been read yet.
    Start,
    /// A transaction is being opened to migrate up from version `from`.
    Opening { from: i64 },
    /// The step that migrates from version `version` is being applied.
    Migrating { version: i64 },
    /// The new version is being stamped.
    Stamping,
    /// The transaction is being committed.
    Committing,
    /// The run is over.
    Done,
}

/// What the caller reports after performing an action.
#[derive(Clone, Copy, Debug, PartialEq, Eq, Structural)]
pub enum MigrationEvent {
    /// The stored schema version was read.
    VersionRead(i64),
    /// The migration transaction is open.
    TransactionOpened,
    /// The step last asked for was applied.
    StepApplied,
    /// The new version was stamped.
    VersionStamped,
    /// The transaction was committed.
    Committed,
}

/// What the caller is to do next.
#[derive(Clone, Copy, Debug, PartialEq, Eq, Structural)]
pub enum MigrationAction {
    /// Open the migration transaction.
    OpenTransaction,
    /// Apply the step that migrates from this version to the next one.
    ApplyStep(i64),
    /// Store this schema version.
    StampVersion(i64),
    /// Commit the transaction.
    Commit,
    /// Stop: the run is over.
    Finish,
}

impl MigrationState {
    /// The state is one that a run can be in.
    pub open spec fn valid(self) -> bool {
        match self {
            MigrationState::Opening { from } => 0 <= from < SCHEMA_VERSION,
            MigrationState::Migrating { version } => 0 <= version < SCHEMA_VERSION,
            _ => true,
        }
    }

    /// The event is the one that completes the action asked for in this state.
    /// A stored version below `SCHEMA_VERSION` must not be negative: there is
    /// no step for it.
    pub open spec fn accepts(self, event: MigrationEvent) -> bool {
        &&& self.valid()
        &&& match (self, event) {
            (MigrationState::Start, MigrationEvent::VersionRead(from)) => from >= SCHEMA_VERSION
                || from >= 0,
            (MigrationState::Opening { .. }, MigrationEvent::TransactionOpened) => true,
            (MigrationState::Migrating { .. }, MigrationEvent::StepApplied) => true,
            (MigrationState::Stamping, MigrationEvent::VersionStamped) => true,
            (MigrationState::Committing, MigrationEvent::Committed) => true,
            _ => false,
        }
    }
}

/// The next state and action after `event` in `state`. An event that the
/// state does not accept ends the run.
pub open spec fn transition(state: MigrationState, event: MigrationEvent) -> (
    MigrationState,
    MigrationAction,
) {
    match (state, event) {
        (MigrationState::Start, MigrationEvent::VersionRead(from)) => {
            if from >= SCHEMA_VERSION {
                (MigrationState::Done, MigrationAction::Finish)
            } else {
                (MigrationState::Opening { from }, MigrationAction::OpenTransaction)
            }
        },
        (MigrationState::Opening { from }, MigrationEvent::TransactionOpened) => (
            MigrationState::Migrating { version: from },
            MigrationAction::ApplyStep(from),
        ),
        (MigrationState::Migrating { version }, MigrationEvent::StepApplied) => {
            if version + 1 < SCHEMA_VERSION {
                (
                    MigrationState::Migrating { version: (version + 1) as i64 },
                    MigrationAction::ApplyStep((version + 1) as i64),
                )
            } else {
                (MigrationState::Stamping, MigrationAction::StampVersion(SCHEMA_VERSION))
            }
        },
        (MigrationState::Stamping, MigrationEvent::VersionStamped) => (
            MigrationState::Committing,
            MigrationAction::Commit,
        ),
        (MigrationState::Committing, MigrationEvent::Committed) => (
            MigrationState::Done,
            MigrationAction::Finish,
        ),
        _ => (MigrationState::Done, MigrationAction::Finish),
    }
}

/// The event that reports `action` as performed without error.
pub open spec fn completion(action: MigrationAction) -> MigrationEvent {
    match action {
        MigrationAction::OpenTransaction => MigrationEvent::TransactionOpened,
        MigrationAction::ApplyStep(_) => MigrationEvent::StepApplied,
        MigrationAction::StampVersion(_) => MigrationEvent::VersionStamped,
        MigrationAction::Commit => MigrationEvent::Committed,
        MigrationAction::Finish => MigrationEvent::Committed,
    }
}

/// The first `n` actions of a run that receives `event` in `state` and then
/// performs every action it asks for without error.
pub open spec fn drive(state: MigrationState, event: MigrationEvent, n: nat) -> Seq<
    MigrationAction,
>
    decreases n,
{
    if n == 0 {
        seq![]
    } else {
        let (next, action) = transition(state, event);
        seq![action] + drive(next, completion(action), (n - 1) as nat)
    }
}

/// Each of the first `n` events of such a run is one that its state accepts.
pub open spec fn drive_accepted(state: MigrationState, event: MigrationEvent, n: nat) -> bool
    decreases n,
{
    if n == 0 {
        true
    } else {
        let (next, action) = transition(state, event);
        state.accepts(event) && drive_accepted(next, completion(action), (n - 1) as nat)
    }
}

/// The actions of a successful run on a database at version `from`: nothing
/// when it is current; else open a transaction, apply the steps from `from`
/// up to `SCHEMA_VERSION` in order, stamp `SCHEMA_VERSION` and commit.
pub open spec fn planned_actions(from: i64) -> Seq<MigrationAction> {
    if from >= SCHEMA_VERSION {
        seq![MigrationAction::Finish]
    } else {
        seq![MigrationAction::OpenTransaction] + steps_from(from as int) + seq![
            MigrationAction::StampVersion(SCHEMA_VERSION),
            MigrationAction::Commit,
            MigrationAction::Finish,
        ]
    }
}

/// One `ApplyStep` for each version from `from` up to `SCHEMA_VERSION`, in order.
pub open spec fn steps_from(from: int) -> Seq<MigrationAction> {
    Seq::new(
        (SCHEMA_VERSION - from) as nat,
        |k: int| MigrationAction::ApplyStep((from + k) as i64),
    )
}

/// Decides the next state and action of a migration run, given the event
/// that completed the previous action.
pub fn advance(state: MigrationState, event: MigrationEvent) -> (r: (
    MigrationState,
    MigrationAction,
))
    requires
        state.accepts(event),
    ensures
        r == transition(state, event),
        r.0.valid(),
        state == MigrationState::Stamping ==> r == (
            MigrationState::Committing,
            MigrationAction::Commit,
        ),
        state == MigrationState::Committing ==> r == (MigrationState::Done, MigrationAction::Finish),
        r.1 == MigrationAction::Finish ==> (state == MigrationState::Committing || (state
            == MigrationState::Start && event is VersionRead && event->VersionRead_0
            >= SCHEMA_VERSION)),
        r.1 == MigrationAction::Commit ==> state == MigrationState::Stamping,
        r.1 is StampVersion ==> (r.1 == MigrationAction::StampVersion(SCHEMA_VERSION) && r.0
            == MigrationState::Stamping),
{
    match (state, event) {
        (MigrationState::Start, MigrationEvent::VersionRead(from)) => {
            if from >= SCHEMA_VERSION {
                (MigrationState::Done, MigrationAction::Finish)
            } else {
                (MigrationState::Opening { from }, MigrationAction::OpenTransaction)
            }
        },
        (MigrationState::Opening { from }, MigrationEvent::TransactionOpened) => (
            MigrationState::Migrating { version: from },
            MigrationAction::ApplyStep(from),
        ),
        (MigrationState::Migrating { version }, MigrationEvent::StepApplied) => {
            if version + 1 < SCHEMA_VERSION {
                (
                    MigrationState::Migrating { version: version + 1 },
                    MigrationAction::ApplyStep(version + 1),
                )
            } else {
                (MigrationState::Stamping, MigrationAction::StampVersion(SCHEMA_VERSION))
            }
        },
        (MigrationState::Stamping, MigrationEvent::VersionStamped) => (
            MigrationState::Committing,
            MigrationAction::Commit,
        ),
        (MigrationState::Committing, MigrationEvent::Committed) => (
            MigrationState::Done,
            MigrationAction::Finish,
        ),
        _ => (MigrationState::Done, MigrationAction::Finish),
    }
}

/// A run never ends with its transaction open: once the version is stamped
/// the transaction is committed, and a run finishes only right after that
/// commit or, having opened nothing, when the stored version is already
/// current. The stamp stores `SCHEMA_VERSION`, and comes only after the last
/// step. Steps go in order: the transaction opens with the step from the
/// stored version, and each applied step is followed by the step from the
/// next version. This holds of every state and event, whatever
/// `SCHEMA_VERSION` is.
pub proof fn lemma_transaction_always_committed(state: MigrationState, event: MigrationEvent)
    requires
        state.accepts(event),
    ensures
        transition(MigrationState::Stamping, MigrationEvent::VersionStamped) == (
            MigrationState::Committing,
            MigrationAction::Commit,
        ),
        transition(MigrationState::Committing, MigrationEvent::Committed) == (
            MigrationState::Done,
            MigrationAction::Finish,
        ),
        transition(state, event).1 == MigrationAction::Finish ==> ((state
            == MigrationState::Committing && event == MigrationEvent::Committed) || (state
            == MigrationState::Start && event is VersionRead && event->VersionRead_0
            >= SCHEMA_VERSION)),
        transition(state, event).1 == MigrationAction::Commit ==> (state
            == MigrationState::Stamping && event == MigrationEvent::VersionStamped && transition(
            state,
            event,
        ).0 == MigrationState::Committing),
        transition(state, event).1 is StampVersion ==> (transition(state, event).1
            == MigrationAction::StampVersion(SCHEMA_VERSION) && transition(state, event).0
            == MigrationState::Stamping && state is Migrating && state->version + 1
            == SCHEMA_VERSION),
        transition(state, event).1 == MigrationAction::OpenTransaction ==> (event is VersionRead
            && event->VersionRead_0 < SCHEMA_VERSION && transition(state, event).0 is Opening
            && transition(state, event).0->from == event->VersionRead_0),
        state is Opening ==> (transition(state, event).1 == MigrationAction::ApplyStep(state->from)
            && transition(state, event).0 is Migrating && transition(state, event).0->version
            == state->from),
        state is Migrating && state->version + 1 < SCHEMA_VERSION ==> (transition(state, event).1
            == MigrationAction::ApplyStep((state->version + 1) as i64) && transition(
            state,
            event,
        ).0 is Migrating && transition(state, event).0->version == state->version + 1),
{
}

/// The remaining actions of a run in which the step from `version` was just
/// applied: the later steps, then stamp, commit and finish.
proof fn lemma_drive_from_step(version: i64)
    requires
        0 <= version < SCHEMA_VERSION,
    ensures
        drive(
            MigrationState::Migrating { version },
            MigrationEvent::StepApplied,
            (SCHEMA_VERSION - version + 2) as nat,
        ) == steps_from(version + 1) + seq![
            MigrationAction::StampVersion(SCHEMA_VERSION),
            MigrationAction::Commit,
            MigrationAction::Finish,
        ],
        drive_accepted(
            MigrationState::Migrating { version },
            MigrationEvent::StepApplied,
            (SCHEMA_VERSION - version + 2) as nat,
        ),
    decreases SCHEMA_VERSION - version,
{
    let tail = seq![
        MigrationAction::StampVersion(SCHEMA_VERSION),
        MigrationAction::Commit,
        MigrationAction::Finish,
    ];
    let n = (SCHEMA_VERSION - version + 2) as nat;
    if version + 1 < SCHEMA_VERSION {
        lemma_drive_from_step((version + 1) as i64);
        assert(steps_from(version + 1) =~= seq![MigrationAction::ApplyStep((version + 1) as i64)]
            + steps_from(version + 2));
        assert(drive(MigrationState::Migrating { version }, MigrationEvent::StepApplied, n)
            =~= seq![MigrationAction::ApplyStep((version + 1) as i64)] + drive(
            MigrationState::Migrating { version: (version + 1) as i64 },
            MigrationEvent::StepApplied,
            (n - 1) as nat,
        ));
    } else {
        assert(steps_from(version + 1) =~= Seq::<MigrationAction>::empty());
        reveal_with_fuel(drive, 4);
        reveal_with_fuel(drive_accepted, 4);
        assert(drive(MigrationState::Migrating { version }, MigrationEvent::StepApplied, n)
            =~= tail);
    }
}

/// A run applies each pending step exactly once, in order, inside one
/// transaction, then stamps `SCHEMA_VERSION` and commits; on a current
/// database it does nothing. Once a run has stamped the version, a later
/// run finds the database current and does nothing: running is safe on every
/// open. Every event that such a run reports is one that its state accepts.
pub proof fn lemma_run_applies_each_pending_step_once(from: i64)
    requires
        from >= SCHEMA_VERSION || from >= 0,
    ensures
        drive_accepted(
            MigrationState::Start,
            MigrationEvent::VersionRead(from),
            planned_actions(from).len(),
        ),
        drive(
            MigrationState::Start,
            MigrationEvent::VersionRead(from),
            planned_actions(from).len(),
        ) == planned_actions(from),
        planned_actions(SCHEMA_VERSION) == seq![MigrationAction::Finish],
{
    if from < SCHEMA_VERSION {
        let n = planned_actions(from).len();
        assert(n == SCHEMA_VERSION - from + 4);
        lemma_drive_from_step(from);
        assert(steps_from(from as int) =~= seq![MigrationAction::ApplyStep(from)] + steps_from(from + 1));
        let rest = drive(
            MigrationState::Migrating { version: from },
            MigrationEvent::StepApplied,
            (n - 2) as nat,
        );
        assert(drive(MigrationState::Opening { from }, MigrationEvent::TransactionOpened, (n - 1) as nat)
            == seq![MigrationAction::ApplyStep(from)] + rest);
        assert(drive(MigrationState::Start, MigrationEvent::VersionRead(from), n) == seq![
            MigrationAction::OpenTransaction,
        ] + drive(MigrationState::Opening { from }, MigrationEvent::TransactionOpened, (n - 1) as nat));
        assert(drive(MigrationState::Start, MigrationEvent::VersionRead(from), n)
            =~= planned_actions(from));
        assert(drive_accepted(
            MigrationState::Opening { from },
            MigrationEvent::TransactionOpened,
            (n - 1) as nat,
        ));
        assert(drive_accepted(MigrationState::Start, MigrationEvent::VersionRead(from), n));
    } else {
        reveal_with_fuel(drive, 2);
        reveal_with_fuel(drive_accepted, 2);
    }
}

} // verus!

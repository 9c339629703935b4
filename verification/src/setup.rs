use vstd::prelude::*;

verus! {

/// How many times creating the database, and connecting to it, is tried.
pub const DATABASE_ATTEMPTS: usize = 3;

/// Where getting a database connection stands.
#[derive(Clone, Copy, Debug, PartialEq, Eq, Structural)]
pub enum ConnectStage {
    /// Checking whether the database exists.
    Checking,
    /// Creating the database; `tries` attempts have failed so far.
    Creating { tries: usize },
    /// Connecting to the database; `tries` attempts have failed so far.
    Connecting { tries: usize },
    /// Connected.
    Connected,
    /// Given up.
    Failed,
}

/// The outcome of the last outside step.
#[derive(Clone, Copy, Debug, PartialEq, Eq, Structural)]
pub enum ConnectOutcome {
    /// Whether the database exists.
    Exists(bool),
    /// The check whether the database exists failed.
    CheckFailed,
    /// Whether creating the database succeeded.
    Created(bool),
    /// Whether connecting succeeded.
    Connected(bool),
}

/// What to do next.
#[derive(Clone, Copy, Debug, PartialEq, Eq, Structural)]
pub enum ConnectAction {
    /// Try to create the database.
    Create,
    /// Try to connect to the database.
    Connect,
    /// Done: use the connection.
    UseConnection,
    /// Give up: the check failed.
    GiveUpOnCheck,
    /// Give up: the database could not be created.
    GiveUpOnCreate,
    /// Give up with the error of the last connection attempt.
    GiveUpOnConnect,
}

/// Whether an outcome answers the step that a stage waits for.
pub open spec fn outcome_fits(stage: ConnectStage, outcome: ConnectOutcome) -> bool {
    match stage {
        ConnectStage::Checking => outcome is Exists || outcome is CheckFailed,
        ConnectStage::Creating { tries } => outcome is Created && tries < DATABASE_ATTEMPTS,
        ConnectStage::Connecting { tries } => outcome is Connected && tries < DATABASE_ATTEMPTS,
        _ => false,
    }
}

/// One step of getting a connection: a missing database is created, with up to
/// `DATABASE_ATTEMPTS` tries, before connecting, which is also tried up to
/// `DATABASE_ATTEMPTS` times; the first success moves on.
pub open spec fn connect_step_spec(stage: ConnectStage, outcome: ConnectOutcome) -> (
    ConnectStage,
    ConnectAction,
) {
    match (stage, outcome) {
        (ConnectStage::Checking, ConnectOutcome::Exists(true)) => (
            ConnectStage::Connecting { tries: 0 },
            ConnectAction::Connect,
        ),
        (ConnectStage::Checking, ConnectOutcome::Exists(false)) => (
            ConnectStage::Creating { tries: 0 },
            ConnectAction::Create,
        ),
        (ConnectStage::Creating { .. }, ConnectOutcome::Created(true)) => (
            ConnectStage::Connecting { tries: 0 },
            ConnectAction::Connect,
        ),
        (ConnectStage::Creating { tries }, ConnectOutcome::Created(false)) => if tries + 1
            < DATABASE_ATTEMPTS {
            (ConnectStage::Creating { tries: (tries + 1) as usize }, ConnectAction::Create)
        } else {
            (ConnectStage::Failed, ConnectAction::GiveUpOnCreate)
        },
        (ConnectStage::Connecting { .. }, ConnectOutcome::Connected(true)) => (
            ConnectStage::Connected,
            ConnectAction::UseConnection,
        ),
        (ConnectStage::Connecting { tries }, ConnectOutcome::Connected(false)) => if tries + 1
            < DATABASE_ATTEMPTS {
            (ConnectStage::Connecting { tries: (tries + 1) as usize }, ConnectAction::Connect)
        } else {
            (ConnectStage::Failed, ConnectAction::GiveUpOnConnect)
        },
        _ => (ConnectStage::Failed, ConnectAction::GiveUpOnCheck),
    }
}

/// Decides the next step of getting a database connection from the outcome of
/// the last one.
pub fn connect_step(stage: ConnectStage, outcome: ConnectOutcome) -> (r: (ConnectStage, ConnectAction))
    requires
        outcome_fits(stage, outcome),
    ensures
        r == connect_step_spec(stage, outcome),
{
    match (stage, outcome) {
        (ConnectStage::Checking, ConnectOutcome::Exists(true)) => (
            ConnectStage::Connecting { tries: 0 },
            ConnectAction::Connect,
        ),
        (ConnectStage::Checking, ConnectOutcome::Exists(false)) => (
            ConnectStage::Creating { tries: 0 },
            ConnectAction::Create,
        ),
        (ConnectStage::Creating { .. }, ConnectOutcome::Created(true)) => (
            ConnectStage::Connecting { tries: 0 },
            ConnectAction::Connect,
        ),
        (ConnectStage::Creating { tries }, ConnectOutcome::Created(false)) => {
            if tries + 1 < DATABASE_ATTEMPTS {
                (ConnectStage::Creating { tries: tries + 1 }, ConnectAction::Create)
            } else {
                (ConnectStage::Failed, ConnectAction::GiveUpOnCreate)
            }
        },
        (ConnectStage::Connecting { .. }, ConnectOutcome::Connected(true)) => (
            ConnectStage::Connected,
            ConnectAction::UseConnection,
        ),
        (ConnectStage::Connecting { tries }, ConnectOutcome::Connected(false)) => {
            if tries + 1 < DATABASE_ATTEMPTS {
                (ConnectStage::Connecting { tries: tries + 1 }, ConnectAction::Connect)
            } else {
                (ConnectStage::Failed, ConnectAction::GiveUpOnConnect)
            }
        },
        _ => (ConnectStage::Failed, ConnectAction::GiveUpOnCheck),
    }
}

/// Law: every step that asks to try again stays within `DATABASE_ATTEMPTS`
/// tries, connecting is only tried once the database exists or was created,
/// and a success always moves on.
pub proof fn lemma_connect_attempts_bounded(stage: ConnectStage, outcome: ConnectOutcome)
    requires
        outcome_fits(stage, outcome),
    ensures
        ({
            let (next, action) = connect_step_spec(stage, outcome);
            &&& next matches ConnectStage::Creating { tries } ==> tries < DATABASE_ATTEMPTS
            &&& next matches ConnectStage::Connecting { tries } ==> tries < DATABASE_ATTEMPTS
            &&& action == ConnectAction::Connect ==> outcome == ConnectOutcome::Exists(true)
                || outcome == ConnectOutcome::Created(true) || outcome
                == ConnectOutcome::Connected(false)
            &&& outcome == ConnectOutcome::Connected(true) ==> next == ConnectStage::Connected
        }),
{
}

} // verus!

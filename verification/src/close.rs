//! Deleting a session and releasing what a loaded session holds.

use vstd::prelude::*;

use crate::errors::{
    map_session_close_error, port_kind, OpenBitFunError, PortError, PortErrorKind,
};

verus! {

/// How long the deletion of a session waits for its turns to settle.
pub const SESSION_DELETION_WAIT_MS: u64 = 2_000;

/// A step of deleting a session.
#[derive(Debug, Clone, Copy, PartialEq, Eq, Structural)]
pub enum DeletionStep {
    ValidateSessionId,
    ResolveStorage,
    CheckBinding,
    BeginDeletion,
    Delete,
    Deleted,
    Fail,
}

/// Goes on with deleting a session: nothing is deleted before the session's
/// storage was checked and its turns were stopped.
pub fn next_deletion_step(step: DeletionStep, ok: bool) -> (r: DeletionStep)
    requires
        !(step is Deleted) && !(step is Fail),
    ensures
        !ok ==> r is Fail,
        ok ==> match step {
            DeletionStep::ValidateSessionId => r is ResolveStorage,
            DeletionStep::ResolveStorage => r is CheckBinding,
            DeletionStep::CheckBinding => r is BeginDeletion,
            DeletionStep::BeginDeletion => r is Delete,
            _ => r is Deleted,
        },
{
    if !ok {
        return DeletionStep::Fail;
    }
    match step {
        DeletionStep::ValidateSessionId => DeletionStep::ResolveStorage,
        DeletionStep::ResolveStorage => DeletionStep::CheckBinding,
        DeletionStep::CheckBinding => DeletionStep::BeginDeletion,
        DeletionStep::BeginDeletion => DeletionStep::Delete,
        _ => DeletionStep::Deleted,
    }
}

/// The error of a failed step before the deletion itself: whatever keeps the
/// session from being found is a bad request.
pub fn deletion_error(step: DeletionStep, error: &OpenBitFunError, text: String) -> (r: PortError)
    ensures
        r.message == text,
        r.kind == (if step is BeginDeletion {
            port_kind(*error)
        } else {
            PortErrorKind::InvalidRequest
        }),
{
    match step {
        DeletionStep::BeginDeletion => map_session_close_error(error, text),
        _ => PortError { kind: PortErrorKind::InvalidRequest, message: text },
    }
}

/// What releasing a session does.
#[derive(Debug, Clone, Copy, PartialEq, Eq, Structural)]
pub enum SessionReleaseKind {
    DiscardTransient,
    UnloadPersisted,
}

/// A step of releasing a session.
#[derive(Debug, Clone, Copy, PartialEq, Eq, Structural)]
pub enum ReleaseStep {
    ValidateSessionId,
    ResolveStorage,
    CheckBinding,
    BeginMaintenance,
    DiscardTransient { budget_ms: u64 },
    UnloadPersisted { budget_ms: u64 },
    Released,
    /// The step failed with its own error.
    Fail,
    /// The deadline passed before anything was released.
    FailBeforeRelease,
    /// The deadline passed while the session was being released.
    FailDuringRelease,
}

/// What a step of releasing a session came to.
#[derive(Debug, Clone, Copy, PartialEq, Eq, Structural)]
pub enum ReleaseEvent {
    Done,
    Failed,
    /// Maintenance began; this much of the time is left.
    Maintained { remaining_ms: u64 },
    TimedOut,
}

/// Whether an event can come of a step.
pub open spec fn release_comes_of(step: ReleaseStep, event: ReleaseEvent) -> bool {
    match event {
        ReleaseEvent::Done => step is ValidateSessionId || step is ResolveStorage || step
            is CheckBinding || step is DiscardTransient || step is UnloadPersisted,
        ReleaseEvent::Failed => step is ValidateSessionId || step is ResolveStorage || step
            is CheckBinding || step is BeginMaintenance || step is DiscardTransient || step
            is UnloadPersisted,
        ReleaseEvent::Maintained { remaining_ms } => step is BeginMaintenance,
        ReleaseEvent::TimedOut => step is DiscardTransient || step is UnloadPersisted,
    }
}

/// Goes on with releasing a session. What is left of the time after maintenance
/// began is the time for the release, and without any nothing is released.
pub fn next_release_step(kind: SessionReleaseKind, step: ReleaseStep, event: ReleaseEvent) -> (r:
    ReleaseStep)
    requires
        release_comes_of(step, event),
    ensures
        match event {
            ReleaseEvent::Failed => r is Fail,
            ReleaseEvent::TimedOut => r is FailDuringRelease,
            ReleaseEvent::Maintained { remaining_ms } => if remaining_ms == 0 {
                r is FailBeforeRelease
            } else {
                r == (match kind {
                    SessionReleaseKind::DiscardTransient => ReleaseStep::DiscardTransient {
                        budget_ms: remaining_ms,
                    },
                    SessionReleaseKind::UnloadPersisted => ReleaseStep::UnloadPersisted {
                        budget_ms: remaining_ms,
                    },
                })
            },
            ReleaseEvent::Done => match step {
                ReleaseStep::ValidateSessionId => r is ResolveStorage,
                ReleaseStep::ResolveStorage => r is CheckBinding,
                ReleaseStep::CheckBinding => r is BeginMaintenance,
                _ => r is Released,
            },
        },
{
    match event {
        ReleaseEvent::Failed => ReleaseStep::Fail,
        ReleaseEvent::TimedOut => ReleaseStep::FailDuringRelease,
        ReleaseEvent::Maintained { remaining_ms } => if remaining_ms == 0 {
            ReleaseStep::FailBeforeRelease
        } else {
            match kind {
                SessionReleaseKind::DiscardTransient => ReleaseStep::DiscardTransient {
                    budget_ms: remaining_ms,
                },
                SessionReleaseKind::UnloadPersisted => ReleaseStep::UnloadPersisted {
                    budget_ms: remaining_ms,
                },
            }
        },
        ReleaseEvent::Done => match step {
            ReleaseStep::ValidateSessionId => ReleaseStep::ResolveStorage,
            ReleaseStep::ResolveStorage => ReleaseStep::CheckBinding,
            ReleaseStep::CheckBinding => ReleaseStep::BeginMaintenance,
            _ => ReleaseStep::Released,
        },
    }
}

/// How long releasing a session may take: at least a millisecond.
pub fn release_wait_ms(wait_timeout_ms: u64) -> (r: u64)
    ensures
        r == (if wait_timeout_ms < 1 {
            1
        } else {
            wait_timeout_ms
        }),
{
    if wait_timeout_ms < 1 {
        1
    } else {
        wait_timeout_ms
    }
}

/// The error of a release whose deadline passed.
pub fn release_deadline_error(step: ReleaseStep) -> (r: Option<PortError>)
    ensures
        match step {
            ReleaseStep::FailBeforeRelease => r matches Some(e) && e.kind == PortErrorKind::Timeout
                && e.message@
                == "Session close deadline was exhausted before resource release"@,
            ReleaseStep::FailDuringRelease => r matches Some(e) && e.kind == PortErrorKind::Timeout
                && e.message@
                == "Session resource release exceeded the Session close deadline"@,
            _ => r is None,
        },
{
    match step {
        ReleaseStep::FailBeforeRelease => Some(
            PortError {
                kind: PortErrorKind::Timeout,
                message: "Session close deadline was exhausted before resource release".to_owned(),
            },
        ),
        ReleaseStep::FailDuringRelease => Some(
            PortError {
                kind: PortErrorKind::Timeout,
                message: "Session resource release exceeded the Session close deadline".to_owned(),
            },
        ),
        _ => None,
    }
}

} // verus!

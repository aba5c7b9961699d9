//! Undoing, redoing and rolling back the history of a session: the order of the
//! steps and what each outcome leads to.

use vstd::prelude::*;

use crate::errors::{
    map_session_close_error, port_kind, OpenBitFunError, PortError, PortErrorKind,
};
use crate::text::{joined, same_text};

verus! {

/// One step of a change of history, or its end.
#[derive(Debug, Clone, Copy, PartialEq, Eq, Structural)]
pub enum HistoryStep {
    ValidateSessionId,
    ResolveWorkspace,
    CheckLocalWorkspace,
    ResolveStorageByWorkspaceId,
    CheckLoaded,
    RestoreSession,
    CheckBinding,
    BeginMaintenance,
    AcquireMutation,
    RecheckBinding,
    ReadMarker,
    Apply,
    RereadMarker,
    AnnounceChange,
    ReadTranscript,
    /// The change is made and the new transcript is known.
    Complete,
    /// The change is made and the session has to be loaded again.
    CompleteWithReload,
    /// The change is made and the new transcript is not known.
    OutcomeUnknown,
    /// The change was begun and has to be recovered.
    RecoveryRequired,
    /// History is not changed in remote workspaces.
    RefuseRemote,
    /// The step failed with its own error.
    FailWithStepError,
    /// The change failed with its own error and left no trace.
    FailWithApplyError,
}

/// What the mark of a staged change says after applying one failed.
#[derive(Debug, Clone, Copy, PartialEq, Eq, Structural)]
pub enum MarkerAfterFailure {
    Absent,
    StagedAsBefore,
    Changed,
}

/// What a step came to.
#[derive(Debug, Clone, Copy, PartialEq, Eq, Structural)]
pub enum HistoryEvent {
    Done,
    Failed,
    Workspace { remote: bool },
    Loaded { loaded: bool },
    Applied { changed: bool },
    Marker(MarkerAfterFailure),
}

/// Whether a step is an end.
pub open spec fn is_end(step: HistoryStep) -> bool {
    step is Complete || step is CompleteWithReload || step is OutcomeUnknown || step
        is RecoveryRequired || step is RefuseRemote || step is FailWithStepError || step
        is FailWithApplyError
}

/// Whether an event can come of a step.
pub open spec fn comes_of(step: HistoryStep, event: HistoryEvent) -> bool {
    match event {
        HistoryEvent::Done => !is_end(step) && !(step is ResolveWorkspace) && !(step
            is CheckLoaded) && !(step is Apply) && !(step is RereadMarker),
        HistoryEvent::Failed => !is_end(step) && !(step is AnnounceChange),
        HistoryEvent::Workspace { remote } => step is ResolveWorkspace,
        HistoryEvent::Loaded { loaded } => step is CheckLoaded,
        HistoryEvent::Applied { changed } => step is Apply,
        HistoryEvent::Marker(marker) => step is RereadMarker,
    }
}

/// What follows in undoing and redoing. The session has to be loaded already.
pub open spec fn revert_step(step: HistoryStep, event: HistoryEvent) -> HistoryStep {
    match event {
        HistoryEvent::Failed => if step is ReadTranscript {
            HistoryStep::OutcomeUnknown
        } else {
            HistoryStep::FailWithStepError
        },
        HistoryEvent::Workspace { remote } => if remote {
            HistoryStep::RefuseRemote
        } else {
            HistoryStep::CheckLocalWorkspace
        },
        HistoryEvent::Applied { changed } => if changed {
            HistoryStep::AnnounceChange
        } else {
            HistoryStep::ReadTranscript
        },
        _ => match step {
            HistoryStep::ValidateSessionId => HistoryStep::ResolveWorkspace,
            HistoryStep::CheckLocalWorkspace => HistoryStep::ResolveStorageByWorkspaceId,
            HistoryStep::ResolveStorageByWorkspaceId => HistoryStep::CheckBinding,
            HistoryStep::CheckBinding => HistoryStep::BeginMaintenance,
            HistoryStep::BeginMaintenance => HistoryStep::AcquireMutation,
            HistoryStep::AcquireMutation => HistoryStep::RecheckBinding,
            HistoryStep::RecheckBinding => HistoryStep::Apply,
            HistoryStep::AnnounceChange => HistoryStep::ReadTranscript,
            HistoryStep::ReadTranscript => HistoryStep::Complete,
            _ => HistoryStep::FailWithStepError,
        },
    }
}

/// What follows in rolling back to a turn. A session that is not loaded is
/// restored first.
pub open spec fn rollback_step(step: HistoryStep, event: HistoryEvent) -> HistoryStep {
    match event {
        HistoryEvent::Failed => if step is ReadTranscript {
            HistoryStep::CompleteWithReload
        } else if step is Apply {
            HistoryStep::RereadMarker
        } else {
            HistoryStep::FailWithStepError
        },
        HistoryEvent::Workspace { remote } => if remote {
            HistoryStep::RefuseRemote
        } else {
            HistoryStep::ResolveStorageByWorkspaceId
        },
        HistoryEvent::Loaded { loaded } => if loaded {
            HistoryStep::CheckLocalWorkspace
        } else {
            HistoryStep::RestoreSession
        },
        HistoryEvent::Applied { changed } => HistoryStep::AnnounceChange,
        HistoryEvent::Marker(marker) => match marker {
            MarkerAfterFailure::Changed => HistoryStep::RecoveryRequired,
            _ => HistoryStep::FailWithApplyError,
        },
        HistoryEvent::Done => match step {
            HistoryStep::ValidateSessionId => HistoryStep::ResolveWorkspace,
            HistoryStep::ResolveStorageByWorkspaceId => HistoryStep::CheckLoaded,
            HistoryStep::RestoreSession => HistoryStep::CheckLocalWorkspace,
            HistoryStep::CheckLocalWorkspace => HistoryStep::CheckBinding,
            HistoryStep::CheckBinding => HistoryStep::BeginMaintenance,
            HistoryStep::BeginMaintenance => HistoryStep::AcquireMutation,
            HistoryStep::AcquireMutation => HistoryStep::RecheckBinding,
            HistoryStep::RecheckBinding => HistoryStep::ReadMarker,
            HistoryStep::ReadMarker => HistoryStep::Apply,
            HistoryStep::AnnounceChange => HistoryStep::ReadTranscript,
            HistoryStep::ReadTranscript => HistoryStep::Complete,
            _ => HistoryStep::FailWithStepError,
        },
    }
}

/// Goes on with undoing or redoing.
pub fn next_revert_step(step: HistoryStep, event: HistoryEvent) -> (r: HistoryStep)
    requires
        comes_of(step, event),
    ensures
        r == revert_step(step, event),
{
    match event {
        HistoryEvent::Failed => match step {
            HistoryStep::ReadTranscript => HistoryStep::OutcomeUnknown,
            _ => HistoryStep::FailWithStepError,
        },
        HistoryEvent::Workspace { remote } => if remote {
            HistoryStep::RefuseRemote
        } else {
            HistoryStep::CheckLocalWorkspace
        },
        HistoryEvent::Applied { changed } => if changed {
            HistoryStep::AnnounceChange
        } else {
            HistoryStep::ReadTranscript
        },
        _ => match step {
            HistoryStep::ValidateSessionId => HistoryStep::ResolveWorkspace,
            HistoryStep::CheckLocalWorkspace => HistoryStep::ResolveStorageByWorkspaceId,
            HistoryStep::ResolveStorageByWorkspaceId => HistoryStep::CheckBinding,
            HistoryStep::CheckBinding => HistoryStep::BeginMaintenance,
            HistoryStep::BeginMaintenance => HistoryStep::AcquireMutation,
            HistoryStep::AcquireMutation => HistoryStep::RecheckBinding,
            HistoryStep::RecheckBinding => HistoryStep::Apply,
            HistoryStep::AnnounceChange => HistoryStep::ReadTranscript,
            HistoryStep::ReadTranscript => HistoryStep::Complete,
            _ => HistoryStep::FailWithStepError,
        },
    }
}

/// Goes on with rolling back.
pub fn next_rollback_step(step: HistoryStep, event: HistoryEvent) -> (r: HistoryStep)
    requires
        comes_of(step, event),
    ensures
        r == rollback_step(step, event),
{
    match event {
        HistoryEvent::Failed => match step {
            HistoryStep::ReadTranscript => HistoryStep::CompleteWithReload,
            HistoryStep::Apply => HistoryStep::RereadMarker,
            _ => HistoryStep::FailWithStepError,
        },
        HistoryEvent::Workspace { remote } => if remote {
            HistoryStep::RefuseRemote
        } else {
            HistoryStep::ResolveStorageByWorkspaceId
        },
        HistoryEvent::Loaded { loaded } => if loaded {
            HistoryStep::CheckLocalWorkspace
        } else {
            HistoryStep::RestoreSession
        },
        HistoryEvent::Applied { changed: _ } => HistoryStep::AnnounceChange,
        HistoryEvent::Marker(marker) => match marker {
            MarkerAfterFailure::Changed => HistoryStep::RecoveryRequired,
            _ => HistoryStep::FailWithApplyError,
        },
        HistoryEvent::Done => match step {
            HistoryStep::ValidateSessionId => HistoryStep::ResolveWorkspace,
            HistoryStep::ResolveStorageByWorkspaceId => HistoryStep::CheckLoaded,
            HistoryStep::RestoreSession => HistoryStep::CheckLocalWorkspace,
            HistoryStep::CheckLocalWorkspace => HistoryStep::CheckBinding,
            HistoryStep::CheckBinding => HistoryStep::BeginMaintenance,
            HistoryStep::BeginMaintenance => HistoryStep::AcquireMutation,
            HistoryStep::AcquireMutation => HistoryStep::RecheckBinding,
            HistoryStep::RecheckBinding => HistoryStep::ReadMarker,
            HistoryStep::ReadMarker => HistoryStep::Apply,
            HistoryStep::AnnounceChange => HistoryStep::ReadTranscript,
            HistoryStep::ReadTranscript => HistoryStep::Complete,
            _ => HistoryStep::FailWithStepError,
        },
    }
}

/// How far a step of a rollback is from the first.
pub open spec fn rollback_rank(step: HistoryStep) -> int {
    match step {
        HistoryStep::ValidateSessionId => 0,
        HistoryStep::ResolveWorkspace => 1,
        HistoryStep::ResolveStorageByWorkspaceId => 2,
        HistoryStep::CheckLoaded => 3,
        HistoryStep::RestoreSession => 4,
        HistoryStep::CheckLocalWorkspace => 5,
        HistoryStep::CheckBinding => 6,
        HistoryStep::BeginMaintenance => 7,
        HistoryStep::AcquireMutation => 8,
        HistoryStep::RecheckBinding => 9,
        HistoryStep::ReadMarker => 10,
        HistoryStep::Apply => 11,
        HistoryStep::RereadMarker => 12,
        HistoryStep::AnnounceChange => 13,
        HistoryStep::ReadTranscript => 14,
        _ => 15,
    }
}

/// How far a step of undoing or redoing is from the first.
pub open spec fn revert_rank(step: HistoryStep) -> int {
    match step {
        HistoryStep::ValidateSessionId => 0,
        HistoryStep::ResolveWorkspace => 1,
        HistoryStep::CheckLocalWorkspace => 2,
        HistoryStep::ResolveStorageByWorkspaceId => 3,
        HistoryStep::CheckBinding => 4,
        HistoryStep::BeginMaintenance => 5,
        HistoryStep::AcquireMutation => 6,
        HistoryStep::RecheckBinding => 7,
        HistoryStep::Apply => 8,
        HistoryStep::AnnounceChange => 9,
        HistoryStep::ReadTranscript => 10,
        HistoryStep::CheckLoaded => 11,
        HistoryStep::RestoreSession => 12,
        HistoryStep::ReadMarker => 13,
        HistoryStep::RereadMarker => 14,
        _ => 15,
    }
}

/// Whether one step of a rollback may follow another.
pub open spec fn rollback_follows(step: HistoryStep, next: HistoryStep) -> bool {
    exists|event: HistoryEvent|
        #[trigger] comes_of(step, event) && rollback_step(step, event) == next
}

/// Whether these are the steps of a rollback from its beginning.
pub open spec fn is_rollback_run(run: Seq<HistoryStep>) -> bool {
    &&& run.len() > 0
    &&& run[0] is ValidateSessionId
    &&& forall|i: int| 0 <= i < run.len() - 1 ==> #[trigger] rollback_follows(run[i], run[i + 1])
}

/// Every step of a rollback is further from the first than the one before, so a
/// rollback ends.
pub proof fn rollback_goes_forward(step: HistoryStep, event: HistoryEvent)
    requires
        comes_of(step, event),
    ensures
        rollback_rank(rollback_step(step, event)) > rollback_rank(step),
{
}

/// Every step of undoing and redoing is further from the first than the one
/// before, so it ends.
pub proof fn revert_goes_forward(step: HistoryStep, event: HistoryEvent)
    requires
        comes_of(step, event),
        revert_rank(step) < 11,
    ensures
        revert_rank(revert_step(step, event)) > revert_rank(step),
        revert_rank(revert_step(step, event)) < 11 || is_end(revert_step(step, event)),
{
}

proof fn lemma_run_ranks(run: Seq<HistoryStep>, i: int, j: int)
    requires
        is_rollback_run(run),
        0 <= i < j < run.len(),
    ensures
        rollback_rank(run[i]) < rollback_rank(run[j]),
    decreases j - i,
{
    assert(rollback_follows(run[j - 1], run[j - 1 + 1]));
    let event = choose|event: HistoryEvent|
        #[trigger] comes_of(run[j - 1], event) && rollback_step(run[j - 1], event) == run[j];
    rollback_goes_forward(run[j - 1], event);
    if i < j - 1 {
        lemma_run_ranks(run, i, j - 1);
    }
}

/// In every rollback the storage is resolved before the session is restored, the
/// session is restored before its local workspace is checked, and that before
/// maintenance begins.
pub proof fn rollback_restores_before_it_checks_the_session(
    run: Seq<HistoryStep>,
    resolve: int,
    restore: int,
    local: int,
    maintenance: int,
)
    requires
        is_rollback_run(run),
        0 <= resolve < run.len(),
        0 <= restore < run.len(),
        0 <= local < run.len(),
        0 <= maintenance < run.len(),
        run[resolve] is ResolveStorageByWorkspaceId,
        run[restore] is RestoreSession,
        run[local] is CheckLocalWorkspace,
        run[maintenance] is BeginMaintenance,
    ensures
        resolve < restore < local < maintenance,
{
    if resolve > restore {
        lemma_run_ranks(run, restore, resolve);
    }
    if restore > local {
        lemma_run_ranks(run, local, restore);
    }
    if local > maintenance {
        lemma_run_ranks(run, maintenance, local);
    }
}

/// The local workspace of a session is checked only when the session is loaded
/// or was just restored.
pub proof fn rollback_checks_only_loaded_sessions(step: HistoryStep, event: HistoryEvent)
    requires
        comes_of(step, event),
        rollback_step(step, event) is CheckLocalWorkspace,
    ensures
        event == (HistoryEvent::Loaded { loaded: true }) || (step is RestoreSession && event
            is Done),
{
}

/// A rollback is applied only under maintenance and the session's mutation, with
/// its binding checked again and the mark read before.
pub proof fn rollback_applies_last(step: HistoryStep, event: HistoryEvent)
    requires
        comes_of(step, event),
        rollback_step(step, event) is Apply,
    ensures
        step is ReadMarker && event is Done,
{
}

/// A rollback that failed is reported for recovery exactly when it left a mark
/// that was not there before as it is now.
pub proof fn a_begun_rollback_is_reported_for_recovery(step: HistoryStep, event: HistoryEvent)
    requires
        comes_of(step, event),
    ensures
        rollback_step(step, event) is RecoveryRequired <==> event == HistoryEvent::Marker(
            MarkerAfterFailure::Changed,
        ),
{
}

/// What is left of a failed rollback. `phase_staged` says that the mark found
/// afterwards is staged, and `unchanged` that the same mark was there before.
pub fn marker_after_failure(marker_present: bool, phase_staged: bool, unchanged: bool) -> (r:
    MarkerAfterFailure)
    ensures
        r == (if !marker_present {
            MarkerAfterFailure::Absent
        } else if phase_staged && unchanged {
            MarkerAfterFailure::StagedAsBefore
        } else {
            MarkerAfterFailure::Changed
        }),
{
    if !marker_present {
        MarkerAfterFailure::Absent
    } else if phase_staged && unchanged {
        MarkerAfterFailure::StagedAsBefore
    } else {
        MarkerAfterFailure::Changed
    }
}

/// The error for undoing or redoing in a remote workspace.
pub fn remote_revert_refusal() -> (r: PortError)
    ensures
        r.kind == PortErrorKind::NotAvailable,
        r.message@ == "Session undo and redo are unavailable for remote workspaces"@,
{
    PortError {
        kind: PortErrorKind::NotAvailable,
        message: "Session undo and redo are unavailable for remote workspaces".to_owned(),
    }
}

/// The error for rolling back in a remote workspace.
pub fn remote_rollback_refusal() -> (r: PortError)
    ensures
        r.kind == PortErrorKind::NotAvailable,
        r.message@ == "Session rollback is unavailable for remote workspaces"@,
{
    PortError {
        kind: PortErrorKind::NotAvailable,
        message: "Session rollback is unavailable for remote workspaces".to_owned(),
    }
}

/// The error of checking the local workspace for undoing or redoing: a session
/// of a remote workspace is refused like the workspace itself.
pub fn local_revert_workspace_error(error: &OpenBitFunError, text: String) -> (r: PortError)
    ensures
        r.message == text,
        r.kind == (match *error {
            OpenBitFunError::Validation(message) => if message@
                == "Session undo and redo are unavailable for remote workspaces"@ {
                PortErrorKind::NotAvailable
            } else {
                PortErrorKind::InvalidRequest
            },
            other => port_kind(other),
        }),
{
    let refused = match error {
        OpenBitFunError::Validation(message) => same_text(
            message.as_str(),
            "Session undo and redo are unavailable for remote workspaces",
        ),
        _ => false,
    };
    if refused {
        PortError { kind: PortErrorKind::NotAvailable, message: text }
    } else {
        map_session_close_error(error, text)
    }
}

/// The contents of texts.
pub open spec fn holds_text(texts: Seq<String>, text: Seq<char>) -> bool {
    exists|i: int| 0 <= i < texts.len() && (#[trigger] texts[i])@ == text
}

/// Turn ids with the first `n` of others put behind them, each unless it is
/// there.
pub open spec fn merged_ids(ids: Seq<String>, more: Seq<String>, n: nat) -> Seq<String>
    decreases n,
{
    if n == 0 || n > more.len() {
        ids
    } else {
        let earlier = merged_ids(ids, more, (n - 1) as nat);
        if holds_text(earlier, more[n - 1]@) {
            earlier
        } else {
            earlier.push(more[n - 1])
        }
    }
}

/// Whether a text is among others.
fn contains_text(texts: &Vec<String>, text: &str) -> (r: bool)
    ensures
        r == holds_text(texts@, text@),
{
    let mut i: usize = 0;
    while i < texts.len()
        invariant
            i <= texts@.len(),
            forall|j: int| 0 <= j < i ==> (#[trigger] texts@[j])@ != text@,
        decreases texts@.len() - i,
    {
        if same_text(texts[i].as_str(), text) {
            return true;
        }
        i += 1;
    }
    false
}

/// The turns that a rollback retires: those that maintenance retired, then those
/// that were persisted, each once.
pub fn merge_retired_turn_ids(retired: Vec<String>, persisted: Vec<String>) -> (r: Vec<String>)
    ensures
        r@ == merged_ids(retired@, persisted@, persisted@.len()),
{
    let ghost all = persisted@;
    let ghost before = retired@;
    let mut r = retired;
    for turn_id in it: persisted
        invariant
            it.seq() == all,
            r@ == merged_ids(before, all, it.index() as nat),
    {
        assert(turn_id == all[it.index() as int]);
        if !contains_text(&r, turn_id.as_str()) {
            r.push(turn_id);
        }
    }
    r
}

/// Merging keeps the given ids in front, loses none of the others and adds none
/// twice.
pub proof fn merging_loses_no_turn(ids: Seq<String>, more: Seq<String>, n: nat)
    requires
        n <= more.len(),
    ensures
        ids.len() <= merged_ids(ids, more, n).len() <= ids.len() + n,
        merged_ids(ids, more, n).take(ids.len() as int) == ids,
        forall|k: int| 0 <= k < n ==> holds_text(merged_ids(ids, more, n), (#[trigger] more[k])@),
        forall|i: int, j: int|
            ids.len() <= j < merged_ids(ids, more, n).len() && 0 <= i < j ==> (
            #[trigger] merged_ids(ids, more, n)[i])@ != (#[trigger] merged_ids(ids, more, n)[j])@,
    decreases n,
{
    if n == 0 {
        assert(ids.take(ids.len() as int) =~= ids);
    } else {
        merging_loses_no_turn(ids, more, (n - 1) as nat);
        let earlier = merged_ids(ids, more, (n - 1) as nat);
        let r = merged_ids(ids, more, n);
        assert(r.take(ids.len() as int) =~= earlier.take(ids.len() as int));
        assert forall|k: int| 0 <= k < n implies holds_text(r, (#[trigger] more[k])@) by {
            if k < n - 1 {
                assert(holds_text(earlier, more[k]@));
                let i = choose|i: int|
                    0 <= i < earlier.len() && (#[trigger] earlier[i])@ == more[k]@;
                assert(r[i] == earlier[i]);
            } else if !holds_text(earlier, more[k]@) {
                assert(r[earlier.len() as int] == more[k]);
            }
        }
    }
}

/// The visible messages of a session.
#[derive(Debug)]
pub struct SessionTranscript<M> {
    pub session_id: String,
    pub messages: Vec<M>,
}

/// What becomes of the text that is being composed.
#[derive(Debug)]
pub enum SessionComposerUpdate {
    Preserve,
    Clear,
    Replace { text: String },
}

/// The result of a change of history.
#[derive(Debug)]
pub struct SessionRevertResult<M> {
    pub session_id: String,
    pub transcript: SessionTranscript<M>,
    pub composer: SessionComposerUpdate,
    pub retired_turn_ids: Vec<String>,
    pub changed: bool,
    pub hidden_turn_count: usize,
    pub boundary_storage_turn_index: Option<usize>,
    pub target_turn_id: Option<String>,
    pub restored_files: Vec<String>,
    pub reload_required: bool,
    pub reload_reason: Option<String>,
}

/// The result of undoing or redoing.
pub fn revert_result<M>(
    session_id: String,
    transcript: SessionTranscript<M>,
    composer: SessionComposerUpdate,
    retired_turn_ids: Vec<String>,
    changed: bool,
    hidden_turn_count: usize,
) -> (r: SessionRevertResult<M>)
    ensures
        r.session_id == session_id,
        r.transcript == transcript,
        r.composer == composer,
        r.retired_turn_ids == retired_turn_ids,
        r.changed == changed,
        r.hidden_turn_count == hidden_turn_count,
        r.boundary_storage_turn_index is None,
        r.target_turn_id is None,
        r.restored_files@.len() == 0,
        !r.reload_required,
        r.reload_reason is None,
{
    SessionRevertResult {
        session_id,
        transcript,
        composer,
        retired_turn_ids,
        changed,
        hidden_turn_count,
        boundary_storage_turn_index: None,
        target_turn_id: None,
        restored_files: Vec::new(),
        reload_required: false,
        reload_reason: None,
    }
}

/// The message of an undo or redo of which the new transcript is not known.
pub fn revert_transcript_error(error: &str) -> (r: PortError)
    ensures
        r.kind == PortErrorKind::OutcomeUnknown,
        r.message@
            == "Session revert completed but the authoritative transcript could not be read: "@
            + error@,
{
    PortError {
        kind: PortErrorKind::OutcomeUnknown,
        message: joined(
            "Session revert completed but the authoritative transcript could not be read: ",
            error,
        ),
    }
}

/// The result of a rollback. When the new transcript could not be read, it is
/// empty and the session has to be loaded again.
pub fn rollback_result<M>(
    session_id: String,
    target_turn_id: String,
    transcript: Result<SessionTranscript<M>, String>,
    composer: SessionComposerUpdate,
    retired_turn_ids: Vec<String>,
    hidden_turn_count: usize,
    boundary: usize,
    restored_files: Vec<String>,
) -> (r: SessionRevertResult<M>)
    ensures
        r.session_id == session_id,
        r.composer == composer,
        r.retired_turn_ids == retired_turn_ids,
        r.changed,
        r.hidden_turn_count == hidden_turn_count,
        r.boundary_storage_turn_index == Some(boundary),
        r.target_turn_id == Some(target_turn_id),
        r.restored_files == restored_files,
        r.reload_required == (transcript is Err),
        match transcript {
            Ok(t) => r.transcript == t && r.reload_reason is None,
            Err(error) => {
                &&& r.reload_reason matches Some(reason)
                &&& reason@
                    == "Session rollback completed but the authoritative transcript could not be read: "@
                    + error@
                &&& r.transcript.session_id == session_id
                &&& r.transcript.messages@.len() == 0
            },
        },
{
    let (transcript, reload_reason) = match transcript {
        Ok(transcript) => (transcript, None),
        Err(error) => (
            SessionTranscript { session_id: session_id.clone(), messages: Vec::new() },
            Some(
                joined(
                    "Session rollback completed but the authoritative transcript could not be read: ",
                    error.as_str(),
                ),
            ),
        ),
    };
    let reload_required = reload_reason.is_some();
    SessionRevertResult {
        session_id,
        transcript,
        composer,
        retired_turn_ids,
        changed: true,
        hidden_turn_count,
        boundary_storage_turn_index: Some(boundary),
        target_turn_id: Some(target_turn_id),
        restored_files,
        reload_required,
        reload_reason,
    }
}

/// What a remote client learns of a rollback.
#[derive(Debug)]
pub struct RemoteSessionRollbackOutcome {
    pub retired_turn_ids: Vec<String>,
    pub restored_files: Vec<String>,
    pub composer_text: Option<String>,
    pub changed: bool,
}

/// What a remote client learns of a completed rollback.
pub fn remote_rollback_outcome<M>(result: SessionRevertResult<M>) -> (r:
    RemoteSessionRollbackOutcome)
    ensures
        r.retired_turn_ids == result.retired_turn_ids,
        r.restored_files == result.restored_files,
        r.composer_text == (match result.composer {
            SessionComposerUpdate::Replace { text } => Some(text),
            _ => None,
        }),
        r.changed == result.changed,
{
    RemoteSessionRollbackOutcome {
        retired_turn_ids: result.retired_turn_ids,
        restored_files: result.restored_files,
        composer_text: match result.composer {
            SessionComposerUpdate::Replace { text } => Some(text),
            SessionComposerUpdate::Preserve | SessionComposerUpdate::Clear => None,
        },
        changed: result.changed,
    }
}

/// What a remote client is told of a rollback that has to be recovered.
pub fn remote_rollback_recovery_message(reason: &str) -> (r: String)
    ensures
        r@ == "Session rollback requires recovery before it can continue: "@ + reason@,
{
    joined("Session rollback requires recovery before it can continue: ", reason)
}

/// The workspace whose history is changed.
pub fn require_history_workspace_id(workspace_id: Option<String>) -> (r: Result<String, PortError>)
    ensures
        match workspace_id {
            Some(id) => r == Ok::<String, PortError>(id),
            None => r matches Err(e) && e.kind == PortErrorKind::InvalidRequest && e.message@
                == "Workspace ID is required"@,
        },
{
    match workspace_id {
        Some(id) => Ok(id),
        None => Err(
            PortError {
                kind: PortErrorKind::InvalidRequest,
                message: "Workspace ID is required".to_owned(),
            },
        ),
    }
}

/// Whether these are the steps of undoing or redoing from its beginning, and what
/// each but the last came to.
pub open spec fn is_revert_course(run: Seq<HistoryStep>, events: Seq<HistoryEvent>) -> bool {
    &&& run.len() == events.len() + 1
    &&& run[0] is ValidateSessionId
    &&& forall|i: int|
        0 <= i < events.len() ==> comes_of(run[i], #[trigger] events[i]) && run[i + 1]
            == revert_step(run[i], events[i])
}

/// The steps of undoing or redoing up to applying, when none fails.
pub open spec fn steps_before_reverting() -> Seq<HistoryStep> {
    seq![
        HistoryStep::ValidateSessionId,
        HistoryStep::ResolveWorkspace,
        HistoryStep::CheckLocalWorkspace,
        HistoryStep::ResolveStorageByWorkspaceId,
        HistoryStep::CheckBinding,
        HistoryStep::BeginMaintenance,
        HistoryStep::AcquireMutation,
        HistoryStep::RecheckBinding,
        HistoryStep::Apply,
    ]
}

proof fn lemma_revert_course(run: Seq<HistoryStep>, events: Seq<HistoryEvent>, i: int)
    requires
        is_revert_course(run, events),
        0 <= i < run.len(),
    ensures
        i <= 8 ==> run[i] == steps_before_reverting()[i] || run[i] is FailWithStepError || run[i]
            is RefuseRemote,
        i == 9 ==> run[i] is AnnounceChange || run[i] is ReadTranscript || run[i]
            is FailWithStepError,
        i == 10 ==> run[i] is ReadTranscript || run[i] is Complete || run[i] is OutcomeUnknown,
        i == 11 ==> run[i] is Complete || run[i] is OutcomeUnknown,
        i <= 11,
        i == 10 && run[9] is AnnounceChange ==> run[10] is ReadTranscript,
        run[i] is FailWithStepError ==> i > 0 && events[i - 1] is Failed && !(run[i - 1]
            is ReadTranscript),
        run[i] is OutcomeUnknown ==> i > 0 && events[i - 1] is Failed && run[i - 1]
            is ReadTranscript,
        run[i] is RefuseRemote ==> i > 0 && events[i - 1] == (HistoryEvent::Workspace {
            remote: true,
        }),
    decreases i,
{
    if i > 0 {
        lemma_revert_course(run, events, i - 1);
        assert(comes_of(run[i - 1], events[i - 1]));
        assert(run[i - 1 + 1] == revert_step(run[i - 1], events[i - 1]));
    }
}

/// A change of history is applied only after the session id was validated, the
/// workspace resolved and found to be local, the storage resolved, the binding
/// checked, maintenance begun, the mutation acquired and the binding checked
/// again, in this order.
pub proof fn a_revert_is_applied_after_every_check(
    run: Seq<HistoryStep>,
    events: Seq<HistoryEvent>,
    k: int,
)
    requires
        is_revert_course(run, events),
        0 <= k < run.len(),
        run[k] is Apply,
    ensures
        k == 8,
        run.take(9) == seq![
            HistoryStep::ValidateSessionId,
            HistoryStep::ResolveWorkspace,
            HistoryStep::CheckLocalWorkspace,
            HistoryStep::ResolveStorageByWorkspaceId,
            HistoryStep::CheckBinding,
            HistoryStep::BeginMaintenance,
            HistoryStep::AcquireMutation,
            HistoryStep::RecheckBinding,
            HistoryStep::Apply,
        ],
        events[1] == (HistoryEvent::Workspace { remote: false }),
        forall|i: int| 0 <= i < 8 ==> !(#[trigger] events[i] is Failed),
{
    lemma_revert_course(run, events, k);
    assert forall|i: int| 0 <= i < 8 implies run[i] == steps_before_reverting()[i] && !(
    #[trigger] events[i] is Failed) by {
        lemma_revert_course(run, events, i);
        lemma_revert_course(run, events, i + 1);
        assert(comes_of(run[i], events[i]));
        assert(run[i + 1] == revert_step(run[i], events[i]));
        if i + 1 < 8 {
            assert(comes_of(run[i + 1], events[i + 1]));
        }
    }
    assert forall|i: int| 0 <= i < 9 implies run.take(9)[i] == steps_before_reverting()[i] by {
        if i < 8 {
            assert(!(events[i] is Failed));
        }
    }
    assert(run.take(9) =~= steps_before_reverting());
    assert(comes_of(run[1], events[1]));
    assert(run[1int + 1] == revert_step(run[1], events[1]));
}

/// Undoing or redoing in which no step fails, in a local workspace, ends in
/// success, whether or not anything changed.
pub proof fn an_unfailed_revert_completes(run: Seq<HistoryStep>, events: Seq<HistoryEvent>)
    requires
        is_revert_course(run, events),
        is_end(run.last()),
        forall|i: int|
            0 <= i < events.len() ==> !(#[trigger] events[i] is Failed) && events[i] != (
            HistoryEvent::Workspace { remote: true }),
    ensures
        run.last() is Complete,
{
    lemma_revert_course(run, events, run.len() - 1);
}

/// Once a change of history was applied, undoing or redoing ends in success or,
/// exactly when the transcript could not be read, with an unknown outcome; the
/// change is announced next exactly when there was one.
pub proof fn an_applied_revert_is_never_reported_as_failed(
    run: Seq<HistoryStep>,
    events: Seq<HistoryEvent>,
    k: int,
    changed: bool,
)
    requires
        is_revert_course(run, events),
        0 <= k < events.len(),
        events[k] == (HistoryEvent::Applied { changed }),
    ensures
        changed ==> run[k + 1] is AnnounceChange,
        !changed ==> run[k + 1] is ReadTranscript,
        forall|j: int| k + 1 < j < run.len() ==> !(#[trigger] run[j] is AnnounceChange),
        is_end(run.last()) ==> run[run.len() - 2] is ReadTranscript && (if events.last()
            is Failed {
            run.last() is OutcomeUnknown
        } else {
            run.last() is Complete
        }),
        !(run.last() is FailWithStepError),
{
    assert(comes_of(run[k], events[k]));
    assert(run[k + 1] == revert_step(run[k], events[k]));
    a_revert_is_applied_after_every_check(run, events, k);
    lemma_revert_course(run, events, run.len() - 1);
    lemma_revert_course(run, events, run.len() - 2);
    lemma_revert_course(run, events, 9);
    if run.len() > 10 {
        lemma_revert_course(run, events, 10);
        assert(comes_of(run[9], events[9]));
        assert(run[9int + 1] == revert_step(run[9], events[9]));
    }
    if run.len() > 11 {
        lemma_revert_course(run, events, 11);
        assert(comes_of(run[10], events[10]));
        assert(run[10int + 1] == revert_step(run[10], events[10]));
    }
    assert forall|j: int| k + 1 < j < run.len() implies !(#[trigger] run[j] is AnnounceChange) by {
        lemma_revert_course(run, events, j);
    }
}

/// Undoing or redoing that fails before anything was applied ends with the error
/// of the failed step, one in a remote workspace is refused, and there is success
/// only after applying.
pub proof fn a_revert_succeeds_only_after_applying(
    run: Seq<HistoryStep>,
    events: Seq<HistoryEvent>,
)
    requires
        is_revert_course(run, events),
        is_end(run.last()),
        forall|i: int| 0 <= i < events.len() ==> !(#[trigger] events[i] is Applied),
    ensures
        events.last() is Failed ==> run.last() is FailWithStepError,
        !(events.last() is Failed) ==> run.last() is RefuseRemote && events.last() == (
        HistoryEvent::Workspace { remote: true }),
{
    let n = run.len() - 1;
    lemma_revert_course(run, events, n);
    if n >= 9 {
        assert forall|i: int| 0 <= i <= 8 implies run[i] == steps_before_reverting()[i] by {
            lemma_revert_course(run, events, i);
            assert(comes_of(run[i], events[i]));
        }
        assert(comes_of(run[8], events[8]));
        assert(run[8int + 1] == revert_step(run[8], events[8]));
        if n > 9 {
            assert(comes_of(run[9], events[9]));
        }
    }
}

/// Whether these are the steps of a rollback from its beginning, and what each
/// but the last came to.
pub open spec fn is_rollback_course(run: Seq<HistoryStep>, events: Seq<HistoryEvent>) -> bool {
    &&& run.len() == events.len() + 1
    &&& run[0] is ValidateSessionId
    &&& forall|i: int|
        0 <= i < events.len() ==> comes_of(run[i], #[trigger] events[i]) && run[i + 1]
            == rollback_step(run[i], events[i])
}

/// The place of a step in a rollback of a session that was restored first or
/// was loaded already.
pub open spec fn rollback_place(step: HistoryStep, restored: bool) -> int {
    let d: int = if restored {
        1
    } else {
        0
    };
    match step {
        HistoryStep::ValidateSessionId => 0,
        HistoryStep::ResolveWorkspace => 1,
        HistoryStep::ResolveStorageByWorkspaceId => 2,
        HistoryStep::CheckLoaded => 3,
        HistoryStep::RestoreSession => 4,
        HistoryStep::CheckLocalWorkspace => 4 + d,
        HistoryStep::CheckBinding => 5 + d,
        HistoryStep::BeginMaintenance => 6 + d,
        HistoryStep::AcquireMutation => 7 + d,
        HistoryStep::RecheckBinding => 8 + d,
        HistoryStep::ReadMarker => 9 + d,
        HistoryStep::Apply => 10 + d,
        HistoryStep::RereadMarker => 11 + d,
        HistoryStep::AnnounceChange => 11 + d,
        HistoryStep::ReadTranscript => 12 + d,
        _ => -1,
    }
}

/// Whether a rollback restored its session.
pub open spec fn restored_first(run: Seq<HistoryStep>) -> bool {
    run.len() > 4 && run[4] is RestoreSession
}

proof fn lemma_rollback_course(run: Seq<HistoryStep>, events: Seq<HistoryEvent>, i: int)
    requires
        is_rollback_course(run, events),
        0 <= i < run.len(),
    ensures
        is_end(run[i]) || rollback_place(run[i], restored_first(run)) == i,
        run[i] is RestoreSession ==> restored_first(run),
        run[i] is FailWithStepError ==> i > 0 && events[i - 1] is Failed && !(run[i - 1]
            is ReadTranscript) && !(run[i - 1] is Apply),
        run[i] is FailWithApplyError || run[i] is RecoveryRequired ==> i > 0 && run[i - 1]
            is RereadMarker,
        run[i] is CompleteWithReload ==> i > 0 && events[i - 1] is Failed && run[i - 1]
            is ReadTranscript,
        run[i] is Complete ==> i > 0 && events[i - 1] is Done && run[i - 1] is ReadTranscript,
        run[i] is RefuseRemote ==> i > 0 && events[i - 1] == (HistoryEvent::Workspace {
            remote: true,
        }),
        run[i] is RereadMarker ==> i > 0 && events[i - 1] is Failed && run[i - 1] is Apply,
        !(run[i] is OutcomeUnknown),
    decreases i,
{
    if i > 0 {
        lemma_rollback_course(run, events, i - 1);
        assert(comes_of(run[i - 1], events[i - 1]));
        assert(run[i - 1 + 1] == rollback_step(run[i - 1], events[i - 1]));
        if i > 4 && run[i - 1] is CheckLoaded {
            assert(i - 1 == 3);
        }
    }
}

/// A rollback is applied only after the session id was validated, the workspace
/// and the storage resolved, the session found or restored, its local workspace
/// and its binding checked, maintenance begun, the mutation acquired, the binding
/// checked again and the mark read, in this order.
pub proof fn a_rollback_is_applied_after_every_check(
    run: Seq<HistoryStep>,
    events: Seq<HistoryEvent>,
    k: int,
)
    requires
        is_rollback_course(run, events),
        0 <= k < run.len(),
        run[k] is Apply,
    ensures
        ({
            let after_loading = seq![
                HistoryStep::CheckLocalWorkspace,
                HistoryStep::CheckBinding,
                HistoryStep::BeginMaintenance,
                HistoryStep::AcquireMutation,
                HistoryStep::RecheckBinding,
                HistoryStep::ReadMarker,
                HistoryStep::Apply,
            ];
            let before_loading = seq![
                HistoryStep::ValidateSessionId,
                HistoryStep::ResolveWorkspace,
                HistoryStep::ResolveStorageByWorkspaceId,
                HistoryStep::CheckLoaded,
            ];
            &&& events[3] == (HistoryEvent::Loaded { loaded: true }) ==> run.take(k + 1)
                == before_loading + after_loading
            &&& events[3] == (HistoryEvent::Loaded { loaded: false }) ==> run.take(k + 1)
                == before_loading + seq![HistoryStep::RestoreSession] + after_loading
            &&& events[3] is Loaded
        }),
        events[1] == (HistoryEvent::Workspace { remote: false }),
        forall|i: int| 0 <= i < k ==> !(#[trigger] events[i] is Failed),
{
    let restored = restored_first(run);
    lemma_rollback_course(run, events, k);
    assert forall|i: int| 0 <= i < k implies rollback_place(run[i], restored) == i && !is_end(
        run[i],
    ) && !(#[trigger] events[i] is Failed) by {
        lemma_rollback_course(run, events, i);
        lemma_rollback_course(run, events, i + 1);
        assert(comes_of(run[i], events[i]));
        assert(run[i + 1] == rollback_step(run[i], events[i]));
        if i + 1 < k {
            assert(comes_of(run[i + 1], events[i + 1]));
        }
    }
    assert(comes_of(run[3], events[3]));
    assert(run[3int + 1] == rollback_step(run[3], events[3]));
    assert(comes_of(run[1], events[1]));
    assert(run[1int + 1] == rollback_step(run[1], events[1]));
    assert forall|i: int| 0 <= i <= k implies rollback_place(#[trigger] run[i], restored) == i && (
    run[i] is RestoreSession ==> restored) && !(run[i] is RereadMarker) && !(run[i]
        is AnnounceChange) by {
        lemma_rollback_course(run, events, i);
        if i < k {
            assert(comes_of(run[i], events[i]));
        }
    }
    let after_loading = seq![
        HistoryStep::CheckLocalWorkspace,
        HistoryStep::CheckBinding,
        HistoryStep::BeginMaintenance,
        HistoryStep::AcquireMutation,
        HistoryStep::RecheckBinding,
        HistoryStep::ReadMarker,
        HistoryStep::Apply,
    ];
    let before_loading = seq![
        HistoryStep::ValidateSessionId,
        HistoryStep::ResolveWorkspace,
        HistoryStep::ResolveStorageByWorkspaceId,
        HistoryStep::CheckLoaded,
    ];
    assert(run[4] is RestoreSession || run[4] is CheckLocalWorkspace);
    if restored {
        assert(run.take(k + 1) =~= before_loading + seq![HistoryStep::RestoreSession]
            + after_loading);
    } else {
        assert(run.take(k + 1) =~= before_loading + after_loading);
    }
}

/// A rollback in which no step fails, in a local workspace, ends in success.
pub proof fn an_unfailed_rollback_completes(run: Seq<HistoryStep>, events: Seq<HistoryEvent>)
    requires
        is_rollback_course(run, events),
        is_end(run.last()),
        forall|i: int|
            0 <= i < events.len() ==> !(#[trigger] events[i] is Failed) && events[i] != (
            HistoryEvent::Workspace { remote: true }),
    ensures
        run.last() is Complete,
{
    let n = run.len() - 1;
    lemma_rollback_course(run, events, n);
    if n > 0 {
        lemma_rollback_course(run, events, n - 1);
    }
}

/// Once a rollback was applied it is announced next, and it ends in success: with
/// the new transcript, or, exactly when that could not be read, with the session
/// to be loaded again.
pub proof fn an_applied_rollback_always_succeeds(
    run: Seq<HistoryStep>,
    events: Seq<HistoryEvent>,
    k: int,
)
    requires
        is_rollback_course(run, events),
        0 <= k < events.len(),
        events[k] is Applied,
    ensures
        run[k + 1] is AnnounceChange,
        is_end(run.last()) ==> run.len() == k + 4 && run[k + 2] is ReadTranscript && (
        if events.last() is Failed {
            run.last() is CompleteWithReload
        } else {
            run.last() is Complete
        }),
{
    assert(comes_of(run[k], events[k]));
    assert(run[k + 1] == rollback_step(run[k], events[k]));
    if run.len() > k + 2 {
        assert(comes_of(run[k + 1], events[k + 1]));
        assert(run[k + 1 + 1] == rollback_step(run[k + 1], events[k + 1]));
    }
    if run.len() > k + 3 {
        assert(comes_of(run[k + 2], events[k + 2]));
        assert(run[k + 2 + 1] == rollback_step(run[k + 2], events[k + 2]));
    }
    if run.len() > k + 4 {
        assert(comes_of(run[k + 3], events[k + 3]));
    }
}

/// A rollback that failed while it was applied ends with that error when it left
/// no trace, and else has to be recovered: which of the two is decided by reading
/// the mark again.
pub proof fn a_failed_rollback_is_judged_by_its_mark(
    run: Seq<HistoryStep>,
    events: Seq<HistoryEvent>,
    k: int,
)
    requires
        is_rollback_course(run, events),
        0 <= k < events.len(),
        run[k] is Apply,
        events[k] is Failed,
    ensures
        run[k + 1] is RereadMarker,
        is_end(run.last()) ==> run.len() == k + 3 && match events[k + 1] {
            HistoryEvent::Marker(MarkerAfterFailure::Changed) => run.last() is RecoveryRequired,
            HistoryEvent::Marker(_) => run.last() is FailWithApplyError,
            _ => run.last() is FailWithStepError,
        },
{
    assert(comes_of(run[k], events[k]));
    assert(run[k + 1] == rollback_step(run[k], events[k]));
    if run.len() > k + 2 {
        assert(comes_of(run[k + 1], events[k + 1]));
        assert(run[k + 1 + 1] == rollback_step(run[k + 1], events[k + 1]));
    }
    if run.len() > k + 3 {
        assert(comes_of(run[k + 2], events[k + 2]));
    }
}

/// Merging adds only ids that were given, in their order: what is put behind the
/// first ones comes from the others.
pub proof fn merging_adds_only_given_ids(ids: Seq<String>, more: Seq<String>, n: nat)
    requires
        n <= more.len(),
    ensures
        forall|j: int|
            ids.len() <= j < merged_ids(ids, more, n).len() ==> more.take(n as int).contains(
                #[trigger] merged_ids(ids, more, n)[j],
            ),
    decreases n,
{
    if n > 0 {
        merging_adds_only_given_ids(ids, more, (n - 1) as nat);
        merging_loses_no_turn(ids, more, (n - 1) as nat);
        let earlier = merged_ids(ids, more, (n - 1) as nat);
        let r = merged_ids(ids, more, n);
        assert forall|j: int| ids.len() <= j < r.len() implies more.take(n as int).contains(
            #[trigger] r[j],
        ) by {
            if j < earlier.len() {
                assert(r[j] == earlier[j]);
                let t = more.take(n - 1);
                let m = choose|m: int| 0 <= m < t.len() && t[m] == r[j];
                assert(more.take(n as int)[m] == r[j]);
            } else {
                assert(more.take(n as int)[n - 1] == r[j]);
            }
        }
    }
}

} // verus!

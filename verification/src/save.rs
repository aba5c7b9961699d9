//! Saving one dialog turn: the order of its steps and what each outcome leads to.

use vstd::prelude::*;

use crate::errors::{metadata_not_found, push_number, ErrorModel, OpenBitFunError};
use crate::memory::{polluted_mode, pollute_memory_mode, SessionMemoryMode};
use crate::text::decimal;

verus! {

/// What is known of a staged revert: its schema and the first turn it hides.
#[derive(Debug, Clone, Copy, PartialEq, Eq, Structural)]
pub struct RevertMarker {
    pub schema_version: u32,
    pub boundary_turn: usize,
}

/// Why a turn may not be saved, or that a step failed outside.
#[derive(Debug, Clone, Copy, PartialEq, Eq, Structural)]
pub enum SaveFailure {
    MetadataMissing,
    UnsupportedRevertSchema { version: u32 },
    StagedSuffix { boundary_turn: usize },
    StepFailed,
}

/// The step that is being done.
#[derive(Debug, Clone, Copy, PartialEq, Eq, Structural)]
pub enum SaveStage {
    LoadingMetadata,
    LoadingPrevious,
    CheckingTurnFile,
    LoadingRevert,
    WritingTurn,
    UpdatingCatalog,
    RefreshingMetadata,
    ScanningTurns,
    ReadingGuard,
    SavingMetadata,
    Enqueueing,
    Finished,
}

/// What a step came to.
#[derive(Debug, Clone, Copy, PartialEq, Eq, Structural)]
pub enum SaveEvent {
    MetadataLoaded { found: bool },
    PreviousLoaded { found: bool },
    TurnFileChecked { exists: bool },
    RevertLoaded { marker: Option<RevertMarker> },
    TurnWritten,
    CatalogUpdated,
    MetadataRefreshed { refreshed: bool },
    TurnsScanned,
    GuardRead { enabled: bool, memory_mode: SessionMemoryMode },
    MetadataSaved,
    Enqueued,
    Failed,
}

/// What is to be done next.
#[derive(Debug, Clone, Copy, PartialEq, Eq, Structural)]
pub enum SaveAction {
    LoadPrevious,
    CheckTurnFile,
    LoadRevert,
    WriteTurn,
    UpdateCatalog,
    RefreshMetadata,
    ScanTurns,
    ReadGuard,
    SaveMetadata { memory_mode: SessionMemoryMode },
    EnqueuePhase2,
    Succeed,
    Fail(SaveFailure),
}

/// The saving of one turn.
#[derive(Debug, Clone, Copy, PartialEq, Eq, Structural)]
pub struct DialogTurnSave {
    pub turn_index: usize,
    pub uses_external_context: bool,
    pub revert_schema_version: u32,
    pub stage: SaveStage,
    pub previous_load_failed: bool,
    pub enqueue_phase2: bool,
}

/// Why a staged revert forbids a turn, if it does.
pub open spec fn revert_refusal(
    turn_index: usize,
    revert_schema_version: u32,
    marker: Option<RevertMarker>,
) -> Option<SaveFailure> {
    match marker {
        Some(m) => if m.schema_version != revert_schema_version {
            Some(SaveFailure::UnsupportedRevertSchema { version: m.schema_version })
        } else if turn_index >= m.boundary_turn {
            Some(SaveFailure::StagedSuffix { boundary_turn: m.boundary_turn })
        } else {
            None
        },
        None => None,
    }
}

/// The stage in which an event is expected. A failure may come at any of them
/// that reaches outside and is not passed over.
pub open spec fn awaited(stage: SaveStage, event: SaveEvent) -> bool {
    match event {
        SaveEvent::MetadataLoaded { found } => stage is LoadingMetadata,
        SaveEvent::PreviousLoaded { found } => stage is LoadingPrevious,
        SaveEvent::TurnFileChecked { exists } => stage is CheckingTurnFile,
        SaveEvent::RevertLoaded { marker } => stage is LoadingRevert,
        SaveEvent::TurnWritten => stage is WritingTurn,
        SaveEvent::CatalogUpdated => stage is UpdatingCatalog,
        SaveEvent::MetadataRefreshed { refreshed } => stage is RefreshingMetadata,
        SaveEvent::TurnsScanned => stage is ScanningTurns,
        SaveEvent::GuardRead { enabled, memory_mode } => stage is ReadingGuard,
        SaveEvent::MetadataSaved => stage is SavingMetadata,
        SaveEvent::Enqueued => stage is Enqueueing,
        SaveEvent::Failed => {
            stage is LoadingMetadata || stage is LoadingPrevious || stage is LoadingRevert
                || stage is WritingTurn || stage is ScanningTurns || stage is SavingMetadata
                || stage is Enqueueing
        },
    }
}

/// How far a stage is from the first.
pub open spec fn stage_rank(stage: SaveStage) -> int {
    match stage {
        SaveStage::LoadingMetadata => 0,
        SaveStage::LoadingPrevious => 1,
        SaveStage::CheckingTurnFile => 2,
        SaveStage::LoadingRevert => 3,
        SaveStage::WritingTurn => 4,
        SaveStage::UpdatingCatalog => 5,
        SaveStage::RefreshingMetadata => 6,
        SaveStage::ScanningTurns => 7,
        SaveStage::ReadingGuard => 8,
        SaveStage::SavingMetadata => 9,
        SaveStage::Enqueueing => 10,
        SaveStage::Finished => 11,
    }
}

/// Whether a stage is entered with this action.
pub open spec fn enters(stage: SaveStage, action: SaveAction) -> bool {
    match stage {
        SaveStage::LoadingMetadata => false,
        SaveStage::LoadingPrevious => action is LoadPrevious,
        SaveStage::CheckingTurnFile => action is CheckTurnFile,
        SaveStage::LoadingRevert => action is LoadRevert,
        SaveStage::WritingTurn => action is WriteTurn,
        SaveStage::UpdatingCatalog => action is UpdateCatalog,
        SaveStage::RefreshingMetadata => action is RefreshMetadata,
        SaveStage::ScanningTurns => action is ScanTurns,
        SaveStage::ReadingGuard => action is ReadGuard,
        SaveStage::SavingMetadata => action is SaveMetadata,
        SaveStage::Enqueueing => action is EnqueuePhase2,
        SaveStage::Finished => action is Succeed || action is Fail,
    }
}

impl DialogTurnSave {
    /// What an awaited event leads to.
    pub open spec fn action_for(self, event: SaveEvent) -> SaveAction {
        match event {
            SaveEvent::MetadataLoaded { found } => if found {
                SaveAction::LoadPrevious
            } else {
                SaveAction::Fail(SaveFailure::MetadataMissing)
            },
            SaveEvent::PreviousLoaded { found } => if found {
                SaveAction::LoadRevert
            } else {
                SaveAction::CheckTurnFile
            },
            SaveEvent::TurnFileChecked { exists } => SaveAction::LoadRevert,
            SaveEvent::RevertLoaded { marker } => match revert_refusal(
                self.turn_index,
                self.revert_schema_version,
                marker,
            ) {
                Some(failure) => SaveAction::Fail(failure),
                None => SaveAction::WriteTurn,
            },
            SaveEvent::TurnWritten => SaveAction::UpdateCatalog,
            SaveEvent::CatalogUpdated => if self.previous_load_failed {
                SaveAction::ScanTurns
            } else {
                SaveAction::RefreshMetadata
            },
            SaveEvent::MetadataRefreshed { refreshed } => if refreshed {
                SaveAction::ReadGuard
            } else {
                SaveAction::ScanTurns
            },
            SaveEvent::TurnsScanned => SaveAction::ReadGuard,
            SaveEvent::GuardRead { enabled, memory_mode } => SaveAction::SaveMetadata {
                memory_mode: if enabled && self.uses_external_context {
                    polluted_mode(memory_mode)
                } else {
                    memory_mode
                },
            },
            SaveEvent::MetadataSaved => if self.enqueue_phase2 {
                SaveAction::EnqueuePhase2
            } else {
                SaveAction::Succeed
            },
            SaveEvent::Enqueued => SaveAction::Succeed,
            SaveEvent::Failed => SaveAction::Fail(SaveFailure::StepFailed),
        }
    }

    /// Begins with the metadata of the turn's session.
    pub fn start(
        turn_index: usize,
        uses_external_context: bool,
        revert_schema_version: u32,
    ) -> (r: DialogTurnSave)
        ensures
            r.turn_index == turn_index,
            r.uses_external_context == uses_external_context,
            r.revert_schema_version == revert_schema_version,
            r.stage is LoadingMetadata,
            !r.previous_load_failed,
            !r.enqueue_phase2,
    {
        DialogTurnSave {
            turn_index,
            uses_external_context,
            revert_schema_version,
            stage: SaveStage::LoadingMetadata,
            previous_load_failed: false,
            enqueue_phase2: false,
        }
    }

    /// Goes on with what the present step came to.
    pub fn next(self, event: SaveEvent) -> (r: (DialogTurnSave, SaveAction))
        requires
            awaited(self.stage, event),
        ensures
            r.1 == self.action_for(event),
            enters(r.0.stage, r.1),
            stage_rank(r.0.stage) > stage_rank(self.stage),
            r.0.turn_index == self.turn_index,
            r.0.uses_external_context == self.uses_external_context,
            r.0.revert_schema_version == self.revert_schema_version,
            r.0.previous_load_failed == match event {
                SaveEvent::TurnFileChecked { exists } => exists,
                _ => self.previous_load_failed,
            },
            r.0.enqueue_phase2 == match event {
                SaveEvent::GuardRead { enabled, memory_mode } => enabled
                    && self.uses_external_context && memory_mode != SessionMemoryMode::Disabled,
                _ => self.enqueue_phase2,
            },
    {
        let mut next = self;
        let action = match event {
            SaveEvent::MetadataLoaded { found } => if found {
                next.stage = SaveStage::LoadingPrevious;
                SaveAction::LoadPrevious
            } else {
                next.stage = SaveStage::Finished;
                SaveAction::Fail(SaveFailure::MetadataMissing)
            },
            SaveEvent::PreviousLoaded { found } => if found {
                next.stage = SaveStage::LoadingRevert;
                SaveAction::LoadRevert
            } else {
                next.stage = SaveStage::CheckingTurnFile;
                SaveAction::CheckTurnFile
            },
            SaveEvent::TurnFileChecked { exists } => {
                next.previous_load_failed = exists;
                next.stage = SaveStage::LoadingRevert;
                SaveAction::LoadRevert
            },
            SaveEvent::RevertLoaded { marker } => {
                let refusal = match marker {
                    Some(m) => if m.schema_version != self.revert_schema_version {
                        Some(SaveFailure::UnsupportedRevertSchema { version: m.schema_version })
                    } else if self.turn_index >= m.boundary_turn {
                        Some(SaveFailure::StagedSuffix { boundary_turn: m.boundary_turn })
                    } else {
                        None
                    },
                    None => None,
                };
                match refusal {
                    Some(failure) => {
                        next.stage = SaveStage::Finished;
                        SaveAction::Fail(failure)
                    },
                    None => {
                        next.stage = SaveStage::WritingTurn;
                        SaveAction::WriteTurn
                    },
                }
            },
            SaveEvent::TurnWritten => {
                next.stage = SaveStage::UpdatingCatalog;
                SaveAction::UpdateCatalog
            },
            SaveEvent::CatalogUpdated => if self.previous_load_failed {
                next.stage = SaveStage::ScanningTurns;
                SaveAction::ScanTurns
            } else {
                next.stage = SaveStage::RefreshingMetadata;
                SaveAction::RefreshMetadata
            },
            SaveEvent::MetadataRefreshed { refreshed } => if refreshed {
                next.stage = SaveStage::ReadingGuard;
                SaveAction::ReadGuard
            } else {
                next.stage = SaveStage::ScanningTurns;
                SaveAction::ScanTurns
            },
            SaveEvent::TurnsScanned => {
                next.stage = SaveStage::ReadingGuard;
                SaveAction::ReadGuard
            },
            SaveEvent::GuardRead { enabled, memory_mode } => {
                next.stage = SaveStage::SavingMetadata;
                if enabled && self.uses_external_context {
                    let pollution = pollute_memory_mode(memory_mode);
                    next.enqueue_phase2 = pollution.enqueue_phase2;
                    SaveAction::SaveMetadata { memory_mode: pollution.mode }
                } else {
                    next.enqueue_phase2 = false;
                    SaveAction::SaveMetadata { memory_mode }
                }
            },
            SaveEvent::MetadataSaved => if self.enqueue_phase2 {
                next.stage = SaveStage::Enqueueing;
                SaveAction::EnqueuePhase2
            } else {
                next.stage = SaveStage::Finished;
                SaveAction::Succeed
            },
            SaveEvent::Enqueued => {
                next.stage = SaveStage::Finished;
                SaveAction::Succeed
            },
            SaveEvent::Failed => {
                next.stage = SaveStage::Finished;
                SaveAction::Fail(SaveFailure::StepFailed)
            },
        };
        (next, action)
    }
}

/// A turn is written only below a staged boundary of the known schema, or when
/// no revert is staged; nothing is written before that is known.
pub proof fn a_staged_suffix_is_never_overwritten(save: DialogTurnSave, event: SaveEvent)
    requires
        awaited(save.stage, event),
        save.action_for(event) is WriteTurn,
    ensures
        event matches SaveEvent::RevertLoaded { marker } && (marker matches Some(m)
            ==> m.schema_version == save.revert_schema_version && save.turn_index
            < m.boundary_turn),
{
}

/// The metadata of a session is saved only after the turn itself.
pub proof fn metadata_follows_the_turn(save: DialogTurnSave, event: SaveEvent)
    requires
        awaited(save.stage, event),
        save.action_for(event) is SaveMetadata,
    ensures
        stage_rank(save.stage) > stage_rank(SaveStage::WritingTurn),
{
}

/// The memory mode that is saved is the given one, except that an enabled
/// session is polluted by external context under the guard.
pub proof fn saving_pollutes_only_enabled_sessions(
    save: DialogTurnSave,
    enabled: bool,
    memory_mode: SessionMemoryMode,
)
    ensures
        save.action_for(SaveEvent::GuardRead { enabled, memory_mode }) == (
        SaveAction::SaveMetadata {
            memory_mode: if enabled && save.uses_external_context && memory_mode
                == SessionMemoryMode::Enabled {
                SessionMemoryMode::Polluted
            } else {
                memory_mode
            },
        }),
{
}

/// When a saved turn was last active: when it ended, or now.
pub fn last_active_at(end_time: Option<u64>, now_ms: u64) -> (r: u64)
    ensures
        r == (match end_time {
            Some(end) => end,
            None => now_ms,
        }),
{
    match end_time {
        Some(end) => end,
        None => now_ms,
    }
}

/// The message for a staged revert of another schema.
pub open spec fn unsupported_revert_message(session_id: Seq<char>, version: nat) -> Seq<char> {
    "Unsupported Session revert schema version: session_id="@ + session_id + ", version="@
        + decimal(version)
}

/// The error of a staged revert of another schema.
pub fn unsupported_revert_error(session_id: &str, version: u32) -> (r: OpenBitFunError)
    ensures
        r@ == ErrorModel::Deserialization(
            unsupported_revert_message(session_id@, version as nat),
        ),
{
    let mut text: String = "Unsupported Session revert schema version: session_id=".to_owned();
    text.append(session_id);
    text.append(", version=");
    push_number(&mut text, version as u64);
    OpenBitFunError::Deserialization(text)
}

/// The boundary of a staged revert, when its schema is known.
pub fn check_session_revert_state(
    session_id: &str,
    revert_schema_version: u32,
    marker: Option<RevertMarker>,
) -> (r: Result<Option<usize>, OpenBitFunError>)
    ensures
        match marker {
            Some(m) => if m.schema_version != revert_schema_version {
                r matches Err(e) && e@ == ErrorModel::Deserialization(
                    unsupported_revert_message(session_id@, m.schema_version as nat),
                )
            } else {
                r == Ok::<Option<usize>, OpenBitFunError>(Some(m.boundary_turn))
            },
            None => r == Ok::<Option<usize>, OpenBitFunError>(None),
        },
{
    match marker {
        Some(m) => if m.schema_version != revert_schema_version {
            Err(unsupported_revert_error(session_id, m.schema_version))
        } else {
            Ok(Some(m.boundary_turn))
        },
        None => Ok(None),
    }
}

/// The error with which a save is refused; a step that failed outside has its
/// own.
pub fn save_refusal_error(session_id: &str, turn_index: usize, failure: SaveFailure) -> (r: Option<
    OpenBitFunError,
>)
    ensures
        match failure {
            SaveFailure::MetadataMissing => r matches Some(e) && e@ == ErrorModel::NotFound(
                "Session metadata not found: "@ + session_id@,
            ),
            SaveFailure::UnsupportedRevertSchema { version } => r matches Some(e) && e@
                == ErrorModel::Deserialization(
                unsupported_revert_message(session_id@, version as nat),
            ),
            SaveFailure::StagedSuffix { boundary_turn } => r matches Some(e) && e@
                == ErrorModel::Validation(
                "Cannot persist a Turn over the staged Session suffix: session_id="@ + session_id@
                    + ", turn_index="@ + decimal(turn_index as nat) + ", boundary_turn="@
                    + decimal(boundary_turn as nat),
            ),
            SaveFailure::StepFailed => r is None,
        },
{
    match failure {
        SaveFailure::MetadataMissing => Some(metadata_not_found(session_id)),
        SaveFailure::UnsupportedRevertSchema { version } => Some(
            unsupported_revert_error(session_id, version),
        ),
        SaveFailure::StagedSuffix { boundary_turn } => {
            let mut text: String =
                "Cannot persist a Turn over the staged Session suffix: session_id=".to_owned();
            text.append(session_id);
            text.append(", turn_index=");
            push_number(&mut text, turn_index as u64);
            text.append(", boundary_turn=");
            push_number(&mut text, boundary_turn as u64);
            Some(OpenBitFunError::Validation(text))
        },
        SaveFailure::StepFailed => None,
    }
}

/// What goes on of a save after an event.
pub open spec fn save_goes_on(save: DialogTurnSave, event: SaveEvent, next: DialogTurnSave) -> bool {
    &&& awaited(save.stage, event)
    &&& enters(next.stage, save.action_for(event))
    &&& next.turn_index == save.turn_index
    &&& next.uses_external_context == save.uses_external_context
    &&& next.revert_schema_version == save.revert_schema_version
    &&& next.previous_load_failed == (match event {
        SaveEvent::TurnFileChecked { exists } => exists,
        _ => save.previous_load_failed,
    })
    &&& next.enqueue_phase2 == (match event {
        SaveEvent::GuardRead { enabled, memory_mode } => enabled && save.uses_external_context
            && memory_mode != SessionMemoryMode::Disabled,
        _ => save.enqueue_phase2,
    })
}

/// Whether these are the states of a save from its beginning, and what each but
/// the last came to.
pub open spec fn is_save_course(saves: Seq<DialogTurnSave>, events: Seq<SaveEvent>) -> bool {
    &&& saves.len() == events.len() + 1
    &&& saves[0].stage is LoadingMetadata
    &&& !saves[0].previous_load_failed
    &&& !saves[0].enqueue_phase2
    &&& forall|i: int|
        0 <= i < events.len() ==> save_goes_on(saves[i], #[trigger] events[i], saves[i + 1])
}

/// Whether nothing stands against a save: its session is there, no step fails,
/// and a revert that is staged is of the known schema and begins behind the turn.
pub open spec fn nothing_stands_against(
    events: Seq<SaveEvent>,
    turn_index: usize,
    revert_schema_version: u32,
) -> bool {
    forall|i: int|
        0 <= i < events.len() ==> match #[trigger] events[i] {
            SaveEvent::Failed => false,
            SaveEvent::MetadataLoaded { found } => found,
            SaveEvent::RevertLoaded { marker } => marker matches Some(m) ==> m.schema_version
                == revert_schema_version && turn_index < m.boundary_turn,
            _ => true,
        }
}

/// Whether a stage was passed before position `n`.
pub open spec fn passed(saves: Seq<DialogTurnSave>, n: int, stage: SaveStage) -> bool {
    exists|j: int| 0 <= j < n && (#[trigger] saves[j]).stage == stage
}

proof fn lemma_save_course(saves: Seq<DialogTurnSave>, events: Seq<SaveEvent>, i: int)
    requires
        is_save_course(saves, events),
        0 <= i < saves.len(),
    ensures
        saves[i].turn_index == saves[0].turn_index,
        saves[i].uses_external_context == saves[0].uses_external_context,
        saves[i].revert_schema_version == saves[0].revert_schema_version,
        stage_place(saves[i].stage) >= 5 && !(saves[i].stage is Finished) ==> passed(
            saves,
            i,
            SaveStage::WritingTurn,
        ) && passed(saves, i, SaveStage::LoadingRevert),
        stage_place(saves[i].stage) >= 6 && !(saves[i].stage is Finished) ==> passed(
            saves,
            i,
            SaveStage::UpdatingCatalog,
        ),
        stage_place(saves[i].stage) >= 9 && !(saves[i].stage is Finished) ==> passed(
            saves,
            i,
            SaveStage::ReadingGuard,
        ),
        saves[i].stage is Enqueueing ==> passed(saves, i, SaveStage::SavingMetadata),
        saves[i].stage is WritingTurn ==> passed(saves, i, SaveStage::LoadingRevert),
        i > 0 ==> enters(saves[i].stage, saves[i - 1].action_for(events[i - 1])),
    decreases i,
{
    if i > 0 {
        lemma_save_course(saves, events, i - 1);
        assert(save_goes_on(saves[i - 1], events[i - 1], saves[i - 1 + 1]));
        let before = saves[i - 1].stage;
        assert(passed(saves, i, before)) by {
            assert(saves[i - 1].stage == before);
        }
        lemma_passed_grows(saves, i - 1, SaveStage::WritingTurn);
        lemma_passed_grows(saves, i - 1, SaveStage::LoadingRevert);
        lemma_passed_grows(saves, i - 1, SaveStage::UpdatingCatalog);
        lemma_passed_grows(saves, i - 1, SaveStage::ReadingGuard);
        lemma_passed_grows(saves, i - 1, SaveStage::SavingMetadata);
    }
}

proof fn lemma_passed_grows(saves: Seq<DialogTurnSave>, n: int, stage: SaveStage)
    ensures
        passed(saves, n, stage) ==> passed(saves, n + 1, stage),
{
    if passed(saves, n, stage) {
        let j = choose|j: int| 0 <= j < n && (#[trigger] saves[j]).stage == stage;
        assert(saves[j].stage == stage);
    }
}

/// The place of a stage in the order of a save.
spec fn stage_place(stage: SaveStage) -> int {
    match stage {
        SaveStage::LoadingMetadata => 0,
        SaveStage::LoadingPrevious => 1,
        SaveStage::CheckingTurnFile => 2,
        SaveStage::LoadingRevert => 3,
        SaveStage::WritingTurn => 4,
        SaveStage::UpdatingCatalog => 5,
        SaveStage::RefreshingMetadata => 6,
        SaveStage::ScanningTurns => 7,
        SaveStage::ReadingGuard => 8,
        SaveStage::SavingMetadata => 9,
        SaveStage::Enqueueing => 10,
        SaveStage::Finished => 11,
    }
}

/// A save that nothing stands against succeeds, and only after it wrote the turn,
/// updated the catalog and saved the metadata.
pub proof fn an_unhindered_save_succeeds(saves: Seq<DialogTurnSave>, events: Seq<SaveEvent>)
    requires
        is_save_course(saves, events),
        saves.last().stage is Finished,
        nothing_stands_against(events, saves[0].turn_index, saves[0].revert_schema_version),
    ensures
        saves[saves.len() - 2].action_for(events.last()) is Succeed,
        passed(saves, saves.len() - 1, SaveStage::LoadingRevert),
        passed(saves, saves.len() - 1, SaveStage::WritingTurn),
        passed(saves, saves.len() - 1, SaveStage::UpdatingCatalog),
        passed(saves, saves.len() - 1, SaveStage::ReadingGuard),
        passed(saves, saves.len() - 1, SaveStage::SavingMetadata),
{
    let n = saves.len() - 1;
    assert(n > 0);
    lemma_save_course(saves, events, n);
    lemma_save_course(saves, events, n - 1);
    assert(save_goes_on(saves[n - 1], events[n - 1], saves[n - 1 + 1]));
    assert(events[n - 1] == events.last());
    let before = saves[n - 1].stage;
    assert(passed(saves, n, before)) by {
        assert(saves[n - 1].stage == before);
    }
    lemma_passed_grows(saves, n - 1, SaveStage::WritingTurn);
    lemma_passed_grows(saves, n - 1, SaveStage::LoadingRevert);
    lemma_passed_grows(saves, n - 1, SaveStage::UpdatingCatalog);
    lemma_passed_grows(saves, n - 1, SaveStage::ReadingGuard);
    lemma_passed_grows(saves, n - 1, SaveStage::SavingMetadata);
}

/// A save fails exactly when a step fails, its session is not there, or a staged
/// revert stands against it, and each failure says which.
pub proof fn a_save_fails_for_its_own_reason(save: DialogTurnSave, event: SaveEvent)
    requires
        awaited(save.stage, event),
    ensures
        save.action_for(event) == SaveAction::Fail(SaveFailure::StepFailed) <==> event is Failed,
        save.action_for(event) == SaveAction::Fail(SaveFailure::MetadataMissing) <==> event == (
        SaveEvent::MetadataLoaded { found: false }),
        event matches SaveEvent::RevertLoaded { marker } ==> match marker {
            None => save.action_for(event) is WriteTurn,
            Some(m) => if m.schema_version != save.revert_schema_version {
                save.action_for(event) == SaveAction::Fail(
                    SaveFailure::UnsupportedRevertSchema { version: m.schema_version },
                )
            } else if m.boundary_turn <= save.turn_index {
                save.action_for(event) == SaveAction::Fail(
                    SaveFailure::StagedSuffix { boundary_turn: m.boundary_turn },
                )
            } else {
                save.action_for(event) is WriteTurn
            },
        },
{
}

/// All turns are scanned for the metadata only where it could not be refreshed
/// from the saved turn: when that did not succeed, or when the turn that was
/// there before could not be read. A memory phase is enqueued exactly when
/// external context came into a session that memories are not disabled for, under
/// the guard.
pub proof fn turns_are_scanned_only_where_they_must_be(
    saves: Seq<DialogTurnSave>,
    events: Seq<SaveEvent>,
    i: int,
)
    requires
        is_save_course(saves, events),
        0 < i < saves.len(),
    ensures
        saves[i].stage is ScanningTurns ==> events[i - 1] == (SaveEvent::MetadataRefreshed {
            refreshed: false,
        }) || (events[i - 1] is CatalogUpdated && exists|j: int|
            0 <= j < i && #[trigger] events[j] == (SaveEvent::TurnFileChecked { exists: true })),
        saves[i].stage is Enqueueing ==> saves[0].uses_external_context && exists|j: int|
            0 <= j < i && (#[trigger] events[j] matches SaveEvent::GuardRead {
                enabled,
                memory_mode,
            } && enabled && memory_mode != SessionMemoryMode::Disabled),
        saves[i].previous_load_failed ==> exists|j: int|
            0 <= j < i && #[trigger] events[j] == (SaveEvent::TurnFileChecked { exists: true }),
        saves[i].enqueue_phase2 ==> saves[0].uses_external_context && exists|j: int|
            0 <= j < i && (#[trigger] events[j] matches SaveEvent::GuardRead {
                enabled,
                memory_mode,
            } && enabled && memory_mode != SessionMemoryMode::Disabled),
    decreases i,
{
    assert(save_goes_on(saves[i - 1], events[i - 1], saves[i - 1 + 1]));
    lemma_save_course(saves, events, i - 1);
    if i > 1 {
        turns_are_scanned_only_where_they_must_be(saves, events, i - 1);
    }
}

} // verus!

use std::collections::{HashMap, HashSet};
use std::sync::Arc;

use openbitfun_core::activity::{
    activity_turn_mismatch_error, activity_turn_missing_error, backfill_admission, ActivityScan, ActivityVerdict, BackfillAdmission, DialogTurnRecovery, DialogTurnRecoveryStatus,
    StoredTurnActivity,
};
use openbitfun_core::clock::{
    current_unix_secs, system_time_to_unix_ms, unix_ms_to_system_time, SinceEpoch,
};
use openbitfun_core::compression::{
    boundary_selector_text, compression_transcript_artifact_path,
    compression_transcript_boundary_from_file_name, compression_transcript_metadata,
    compression_transcript_name, is_compression_transcript_kept_through,
    is_compression_transcript_removed_from, names_exhausted_error,
    new_compression_transcript_name, plan_compression_transcript, turns_through_boundary,
    CompressionAction, CompressionCleanup,
    CompressionCreation, CompressionStep, ReserveOutcome, COMPRESSION_TRANSCRIPT_CREATE_ATTEMPTS,
};
use openbitfun_core::errors::{
    json_store_error, session_write_lock_error, OpenBitFunError, SessionWriteLockFailure,
    StoreFailureKind,
};
use openbitfun_core::history::{
    accept_metadata_tail, accept_visible_turn, collect_turn_reads, file_indices_from,
    locate_visible_turn,
    metadata_tail_load, observer_lease, plan_tail_turns, plan_turn_deletion, recent_turns,
    retain_visible_turns, scanned_tail_load, session_turn_load_timing, tail_indices,
    turn_indices_after, turn_indices_from, ReadTurnPathsResult, SessionLoadDurations,
    TailTurnsPlan, TurnDeletionPlan, TurnRead,
};
use openbitfun_core::json::{JsonField, JsonNumber, JsonValue};
use openbitfun_core::lifecycle::{
    finish_session_creation, is_original_title, next_title_step, session_claim_error,
    set_session_title, title_outcome_unknown_error, ClaimOutcome, FirstWriteOutcome,
    PendingSessionDirectory, TitleStage, TitleStep,
};
use openbitfun_core::manager::{
    evidence_ledger_path, ledger_retention, lists_stored_sessions, persistence_lock_identity,
    prepares_runtime_for_write, project_sessions_dir,
    require_metadata_update, session_revert_path, sidecar_removal_result, token_anchors_path,
    LedgerRetention, PathManager, PersistenceManager, RemovalOutcome, SessionSidecar,
};
use openbitfun_core::memory::{
    memory_pollution_guard_enabled, new_session_memory_mode_from_global_config, pollute_memory_mode,
    MemoryExternalContextPolicy, MemorySettings, SessionMemoryMode,
};
use openbitfun_core::messages::{
    context_snapshot_payload_stats, message_needs_persistence_sanitization,
    sanitize_message_for_persistence, sanitize_messages_for_persistence, Message, MessageContent,
    ImageContextData, PersistedMessage, ToolImageAttachment,
};
use openbitfun_core::projection::complete_session_turn_catalog;
use openbitfun_core::save::{
    check_session_revert_state, last_active_at, save_refusal_error, DialogTurnSave, RevertMarker,
    SaveAction, SaveEvent, SaveFailure,
};
use openbitfun_core::session::{
    build_session_from_persisted_parts, recorded_workspace, restore_session_config,
    session_summary, sort_session_summaries, stored_session_state,
    stored_state_with_runtime_state, workspace_identity_source, ResolvedWorkspaceIdentity,
    SessionConfig, SessionKind, SessionMetadata, SessionState, StoredSessionStateFile,
    StoredSummaryFacts, WorkspaceIdentitySource,
};
use openbitfun_core::snapshots::{
    context_snapshot_index, is_context_snapshot_deleted_from,
    is_skill_agent_snapshot_deleted_from, latest_context_snapshot_before,
    skill_agent_snapshot_index,
};
use openbitfun_core::turn::{DialogTurnData, DialogTurnKind, TurnStatus, UserMessageData};
use openbitfun_core::workspace::{
    remote_session_metadata, SessionRelationship, SessionRelationshipKind,
};

fn turn(index: usize) -> DialogTurnData {
    DialogTurnData {
        turn_id: format!("turn-{}", index),
        turn_index: index,
        session_id: "session".to_string(),
        kind: DialogTurnKind::UserDialog,
        user_message: UserMessageData {
            id: "user".to_string(),
            content: "content".to_string(),
            timestamp: 0,
            metadata: None,
        },
        display_content: "content".to_string(),
        status: TurnStatus::Completed,
        start_time: 0,
        end_time: None,
    }
}

fn turns(indices: &[usize]) -> Vec<DialogTurnData> {
    indices.iter().map(|index| turn(*index)).collect()
}

fn indices(turns: &[DialogTurnData]) -> Vec<usize> {
    turns.iter().map(|turn| turn.turn_index).collect()
}

fn text(value: &str) -> JsonValue {
    JsonValue::Text(value.to_string())
}

fn object(fields: Vec<(&str, JsonValue)>) -> JsonValue {
    JsonValue::Object(
        fields
            .into_iter()
            .map(|(key, value)| JsonField { key: key.to_string(), value })
            .collect(),
    )
}

fn config() -> SessionConfig {
    SessionConfig {
        workspace_id: None,
        project_workspace_id: None,
        workspace_path: None,
        project_workspace_path: None,
        remote_connection_id: None,
        remote_ssh_host: None,
        execution_target: None,
        model_id: None,
        reasoning_preset: None,
        legacy_minimal_agent: false,
    }
}

fn metadata(id: &str, last_active_at: u64) -> SessionMetadata {
    SessionMetadata {
        session_id: id.to_string(),
        session_name: format!("name of {}", id),
        agent_type: "agentic".to_string(),
        last_user_dialog_agent_type: Some("plan".to_string()),
        last_submitted_agent_type: None,
        created_by: None,
        session_kind: SessionKind::Standard,
        model_name: "model".to_string(),
        created_at: 10,
        last_active_at,
        turn_count: 3,
        snapshot_session_id: None,
        workspace_id: Some("workspace".to_string()),
        project_workspace_id: None,
        workspace_path: Some("/workspace".to_string()),
        workspace_hostname: Some("host".to_string()),
        memory_mode: SessionMemoryMode::Enabled,
        last_turn: None,
    }
}

fn error_text(error: OpenBitFunError) -> String {
    match error {
        OpenBitFunError::Validation(text)
        | OpenBitFunError::NotFound(text)
        | OpenBitFunError::Io(text)
        | OpenBitFunError::Parse(text)
        | OpenBitFunError::Serialization(text)
        | OpenBitFunError::Deserialization(text)
        | OpenBitFunError::Session(text)
        | OpenBitFunError::OutcomeUnknown(text)
        | OpenBitFunError::Cancelled(text)
        | OpenBitFunError::Timeout(text) => text,
        other => panic!("unexpected error: {:?}", other),
    }
}

#[test]
fn compression_transcript_file_name_parser_is_strict() {
    assert_eq!(compression_transcript_boundary_from_file_name("12-a3f9.txt"), Some(12));
    assert_eq!(compression_transcript_boundary_from_file_name("12-a3f9.meta.json"), Some(12));

    for invalid in [
        "12-A3F9.txt",
        "12-a3f.txt",
        "12-a3f90.txt",
        "12-a3f9.txt.bak",
        "-1-a3f9.txt",
        "a3f9.txt",
        "12-a3f9.json",
    ] {
        assert_eq!(
            compression_transcript_boundary_from_file_name(invalid),
            None,
            "unexpectedly accepted {}",
            invalid
        );
    }
}

#[test]
fn compression_transcripts_are_named_after_their_turn() {
    let mut stems = Vec::new();
    for _ in 0..8 {
        let name = new_compression_transcript_name(41);
        assert_eq!(name.stem, format!("41-{}", name.short_id));
        for ending in [".txt", ".meta.json"] {
            let file = format!("{}{}", name.stem, ending);
            assert_eq!(compression_transcript_boundary_from_file_name(&file), Some(41));
            assert!(is_compression_transcript_removed_from(&file, 41));
            assert!(!is_compression_transcript_removed_from(&file, 42));
            assert!(is_compression_transcript_kept_through(&file, 41));
            assert!(!is_compression_transcript_kept_through(&file, 40));
        }
        stems.push(name.stem);
    }
    stems.sort();
    stems.dedup();
    assert!(stems.len() > 1, "names are drawn at random");
    let fixed = compression_transcript_name(7, "0a1b2c3d");
    assert_eq!((fixed.short_id.as_str(), fixed.stem.as_str()), ("0a1b", "7-0a1b"));
    assert!(!is_compression_transcript_removed_from("notes.txt", 0));
    assert_eq!(
        compression_transcript_artifact_path("7-0a1b"),
        "artifacts/compression-transcripts/7-0a1b.txt"
    );
    assert_eq!(boundary_selector_text(7), "0:8");
    assert_eq!(boundary_selector_text(usize::MAX), format!("0:{}", usize::MAX));
    assert_eq!(
        compression_transcript_boundary_from_file_name("99999999999999999999-a3f9.txt"),
        None
    );
}

#[test]
fn compression_transcripts_hold_the_turns_through_their_boundary() {
    assert_eq!(turns_through_boundary(&turns(&[0, 1, 5, 2]), 2), vec![0, 1, 3]);
    assert_eq!(turns_through_boundary(&turns(&[3]), 2), Vec::<usize>::new());
    assert_eq!(plan_compression_transcript(&turns(&[0, 1, 5, 2]), 2), Some(vec![0, 1, 3]));
    assert_eq!(plan_compression_transcript(&turns(&[3]), 2), None);
    assert_eq!(plan_compression_transcript(&turns(&[]), 2), None);
    let lines = vec!["ä".to_string()];
    let record =
        compression_transcript_metadata(2, "a3f9".to_string(), "c", "t", 9, "s", "f", &lines, "ä");
    assert_eq!((record.line_count, record.byte_count), (1, 2));
    assert!(record.options.tools && record.options.tool_inputs && !record.options.thinking);
}

#[test]
fn compression_transcripts_try_new_names_and_clean_up() {
    let start = CompressionCreation::start();
    let (reserved, action) = start.next(ReserveOutcome::Created);
    assert_eq!(action.step, CompressionStep::ReserveMetadata);
    let (retry, action) = reserved.next(ReserveOutcome::AlreadyExists);
    assert_eq!(action.cleanup, CompressionCleanup::Transcript);
    assert_eq!(action.step, CompressionStep::ReserveTranscriptUnderNewName);
    assert_eq!(retry.attempts_left, COMPRESSION_TRANSCRIPT_CREATE_ATTEMPTS - 1);
    let (writing, action) = reserved.next(ReserveOutcome::Created);
    assert_eq!(action.step, CompressionStep::WritePair);
    assert_eq!(writing.next(ReserveOutcome::Created).1.step, CompressionStep::Complete);
    let (_, failed) = writing.next(ReserveOutcome::Failed);
    assert_eq!(failed.cleanup, CompressionCleanup::Pair);
    assert_eq!(failed.step, CompressionStep::PairWriteFailed);

    let mut state = CompressionCreation::start();
    let mut reservations = 1;
    loop {
        let (next, action) = state.next(ReserveOutcome::AlreadyExists);
        if action.step == CompressionStep::NamesExhausted {
            break;
        }
        reservations += 1;
        state = next;
    }
    assert_eq!(reservations, 32);
    assert_eq!(
        error_text(names_exhausted_error()),
        "Failed to allocate a unique compression transcript name after 32 attempts"
    );
}

/// Creates an artifact among files whose names are given; a write fails when it
/// is told to.
fn create_artifact(files: &mut HashSet<String>, stems: &[&str], fails: bool) -> CompressionStep {
    let mut creation = CompressionCreation::start();
    let mut action = CompressionAction {
        cleanup: CompressionCleanup::Nothing,
        step: CompressionStep::ReserveTranscriptUnderNewName,
    };
    let mut names = stems.iter();
    let mut text_name = String::new();
    let mut meta_name = String::new();
    loop {
        if action.cleanup != CompressionCleanup::Nothing {
            files.remove(&text_name);
        }
        if action.cleanup == CompressionCleanup::Pair {
            files.remove(&meta_name);
        }
        let reserve = |files: &mut HashSet<String>, name: &String| {
            if files.insert(name.clone()) {
                ReserveOutcome::Created
            } else {
                ReserveOutcome::AlreadyExists
            }
        };
        let outcome = match action.step {
            CompressionStep::ReserveTranscriptUnderNewName => {
                let stem = names.next().unwrap();
                text_name = format!("{}.txt", stem);
                meta_name = format!("{}.meta.json", stem);
                reserve(files, &text_name)
            }
            CompressionStep::ReserveMetadata => reserve(files, &meta_name),
            CompressionStep::WritePair if fails => ReserveOutcome::Failed,
            CompressionStep::WritePair => ReserveOutcome::Created,
            end => return end,
        };
        (creation, action) = creation.next(outcome);
    }
}

#[test]
fn created_artifacts_are_new_and_failed_ones_leave_nothing() {
    let before: HashSet<String> =
        ["2-aaaa.txt", "2-bbbb.meta.json"].iter().map(|name| name.to_string()).collect();
    let mut files = before.clone();
    let end = create_artifact(&mut files, &["2-aaaa", "2-bbbb", "2-cccc"], false);
    assert_eq!(end, CompressionStep::Complete);
    assert!(before.is_subset(&files));
    let mut made: Vec<&String> = files.difference(&before).collect();
    made.sort();
    assert_eq!(made, ["2-cccc.meta.json", "2-cccc.txt"]);
    assert!(made
        .iter()
        .all(|name| compression_transcript_boundary_from_file_name(name) == Some(2)));

    let mut files = before.clone();
    let end = create_artifact(&mut files, &["2-bbbb", "2-cccc"], true);
    assert_eq!(end, CompressionStep::PairWriteFailed);
    assert_eq!(files, before);
}

#[test]
fn of_two_creations_of_a_session_one_succeeds() {
    let mut stored: HashMap<String, &str> = HashMap::new();
    let mut create = |session: &'static str| {
        let claim = match stored.contains_key("s") {
            true => ClaimOutcome::AlreadyExists,
            false => ClaimOutcome::Claimed,
        };
        if let Some(error) = session_claim_error("s", claim) {
            return (Err(error), stored["s"]);
        }
        stored.insert("s".to_string(), session);
        (finish_session_creation("s", FirstWriteOutcome::Written).result, stored["s"])
    };
    let (first, _) = create("first");
    let (second, kept) = create("second");
    assert!(first.is_ok());
    assert!(matches!(
        second,
        Err(OpenBitFunError::Validation(text)) if text == "Persisted session ID already exists: s"
    ));
    assert_eq!(kept, "first");
}

#[test]
fn deletion_leaves_the_earlier_turns_in_order() {
    let stored = [0usize, 1, 2, 5];
    let gone = turn_indices_from(&turns(&stored), 2);
    let left: Vec<usize> = stored.iter().copied().filter(|i| !gone.contains(i)).collect();
    assert_eq!(left, indices(&retain_visible_turns(turns(&stored), Some(2))));
    assert_eq!(gone.len(), stored.len() - left.len());
    assert_eq!(turn_indices_after(&turns(&stored), 1), gone);
    assert_eq!(file_indices_from(&stored.to_vec(), 2), gone);
    assert_eq!(file_indices_from(&vec![3, 1], 0), vec![3, 1]);
    assert_eq!(file_indices_from(&Vec::new(), 0), Vec::<usize>::new());
}

#[test]
fn sessions_directories_are_found_once() {
    let find = |path: &str| {
        project_sessions_dir(
            path.ends_with("/sessions"),
            path.to_string(),
            format!("/projects{}/sessions", path),
        )
    };
    let found = find("/work");
    assert_eq!(found, "/projects/work/sessions");
    assert_eq!(find(&found), found);
}

#[test]
fn context_snapshot_payload_stats_counts_tool_result_payloads_without_contents() {
    let messages = vec![
        Message {
            id: "m-0".to_string(),
            content: MessageContent::Plain("hello".to_string()),
            rest: JsonValue::Null,
        },
        Message {
            id: "m-1".to_string(),
            content: MessageContent::ToolResult {
                tool_id: "tool-1".to_string(),
                tool_name: "ExecCommand".to_string(),
                result: object(vec![("output", text(&"x".repeat(40)))]),
                result_for_assistant: Some("assistant summary".to_string()),
                is_error: false,
                image_attachments: None,
            },
            rest: JsonValue::Null,
        },
    ];

    let stats = context_snapshot_payload_stats(&messages);

    assert_eq!(stats.tool_result_count, 1);
    assert_eq!(stats.raw_result_string_chars, 40);
    assert_eq!(stats.result_for_assistant_chars, 17);
    assert_eq!(stats.largest_raw_result_chars, 40);
    assert_eq!(stats.largest_raw_result_path, "message[1].ExecCommand.output");
    assert!(!stats.largest_raw_result_path.contains(&"x".repeat(40)));
}

#[test]
fn payload_paths_lead_to_the_first_longest_text() {
    let result = object(vec![
        (
            "items",
            JsonValue::Array(vec![text("abc"), object(vec![("deep", text("xyz"))])]),
        ),
        ("short", text("ü")),
    ]);
    let stats = context_snapshot_payload_stats(&vec![Message {
        id: "m".to_string(),
        content: MessageContent::ToolResult {
            tool_id: "t".to_string(),
            tool_name: "Read".to_string(),
            result,
            result_for_assistant: None,
            is_error: false,
            image_attachments: None,
        },
        rest: JsonValue::Null,
    }]);
    assert_eq!(stats.raw_result_string_chars, 7);
    assert_eq!(stats.largest_raw_result_path, "message[0].Read.items[0]");
}

fn tool_message(result: JsonValue, images: Option<Vec<ToolImageAttachment>>) -> Message {
    Message {
        id: "m".to_string(),
        content: MessageContent::ToolResult {
            tool_id: "t".to_string(),
            tool_name: "Tool".to_string(),
            result,
            result_for_assistant: None,
            is_error: false,
            image_attachments: images,
        },
        rest: object(vec![("role", text("tool")), ("timestamp", text("t"))]),
    }
}

#[test]
fn tool_results_are_persisted_without_inline_images() {
    let result = object(vec![
        (
            "images",
            JsonValue::Array(vec![object(vec![
                ("data_url", text("data:image/png;base64,abc")),
                ("name", text("a.png")),
            ])]),
        ),
        ("ok", JsonValue::Bool(true)),
    ]);
    let message = tool_message(
        result,
        Some(vec![ToolImageAttachment {
            mime_type: "image/png".to_string(),
            data_base64: "abc".to_string(),
        }]),
    );
    assert!(message_needs_persistence_sanitization(&message));
    let persisted = match sanitize_message_for_persistence(&message) {
        PersistedMessage::Rewritten(message) => message,
        other => panic!("unexpected: {:?}", other),
    };
    assert!(!format!("{:?}", persisted).contains("data:image/"));
    assert!(!message_needs_persistence_sanitization(&persisted));
    assert_eq!(persisted.rest.get("role").and_then(JsonValue::as_str), Some("tool"));
    match persisted.content {
        MessageContent::ToolResult { result, image_attachments, .. } => {
            assert!(image_attachments.is_none());
            let first = match result.get("images") {
                Some(JsonValue::Array(items)) => &items[0],
                other => panic!("unexpected: {:?}", other),
            };
            assert!(matches!(first.get("has_data_url"), Some(JsonValue::Bool(true))));
            assert!(first.get("data_url").is_none());
            assert_eq!(first.get("name").and_then(JsonValue::as_str), Some("a.png"));
            match first {
                JsonValue::Object(fields) => {
                    let keys: Vec<&str> =
                        fields.iter().map(|field| field.key.as_str()).collect();
                    assert_eq!(keys, vec!["has_data_url", "name"]);
                }
                other => panic!("unexpected: {:?}", other),
            }
        }
        other => panic!("unexpected: {:?}", other),
    }
    let clean = tool_message(JsonValue::Number(JsonNumber::Unsigned(1)), None);
    assert!(matches!(
        sanitize_message_for_persistence(&clean),
        PersistedMessage::Unchanged(_)
    ));
}

fn image(data_url: Option<&str>, metadata: Option<JsonValue>) -> ImageContextData {
    ImageContextData {
        id: "i".to_string(),
        image_path: Some("/i.png".to_string()),
        data_url: data_url.map(str::to_string),
        mime_type: "image/png".to_string(),
        metadata,
    }
}

#[test]
fn images_are_persisted_by_reference() {
    let message = Message {
        id: "m".to_string(),
        content: MessageContent::Multimodal {
            text: "Read the screenshot".to_string(),
            images: vec![
                image(Some("data:image/png;base64,abc"), None),
                image(Some("data:x"), Some(text("raw"))),
                image(Some(""), Some(text("kept"))),
            ],
        },
        rest: JsonValue::Null,
    };
    let messages = vec![message];
    let persisted = sanitize_messages_for_persistence(&messages);
    let images = match &persisted[0] {
        PersistedMessage::Rewritten(Message {
            content: MessageContent::Multimodal { images, .. },
            ..
        }) => images,
        other => panic!("unexpected: {:?}", other),
    };
    assert!(images[0].data_url.is_none() && images[1].data_url.is_none());
    let mark = |image: &ImageContextData| {
        matches!(
            image.metadata.as_ref().and_then(|value| value.get("has_data_url")),
            Some(JsonValue::Bool(true))
        )
    };
    assert!(mark(&images[0]) && mark(&images[1]) && !mark(&images[2]));
    assert_eq!(
        images[1]
            .metadata
            .as_ref()
            .and_then(|value| value.get("raw_metadata"))
            .and_then(JsonValue::as_str),
        Some("raw")
    );
    assert_eq!(images[2].data_url.as_deref(), Some(""));
    assert_eq!(images[0].image_path.as_deref(), Some("/i.png"));
}

#[test]
fn staged_revert_rejects_overwriting_a_hidden_turn() {
    let save = DialogTurnSave::start(4, false, 1);
    let (save, action) = save.next(SaveEvent::MetadataLoaded { found: true });
    assert_eq!(action, SaveAction::LoadPrevious);
    let (save, action) = save.next(SaveEvent::PreviousLoaded { found: true });
    assert_eq!(action, SaveAction::LoadRevert);
    let marker = |boundary_turn, schema_version| SaveEvent::RevertLoaded {
        marker: Some(RevertMarker { schema_version, boundary_turn }),
    };
    assert_eq!(
        save.next(marker(4, 1)).1,
        SaveAction::Fail(SaveFailure::StagedSuffix { boundary_turn: 4 })
    );
    assert_eq!(save.next(marker(5, 1)).1, SaveAction::WriteTurn);
    assert_eq!(
        save.next(marker(5, 9)).1,
        SaveAction::Fail(SaveFailure::UnsupportedRevertSchema { version: 9 })
    );
    assert_eq!(
        error_text(
            save_refusal_error("s", 4, SaveFailure::StagedSuffix { boundary_turn: 4 }).unwrap()
        ),
        "Cannot persist a Turn over the staged Session suffix: session_id=s, turn_index=4, \
         boundary_turn=4"
    );
    assert_eq!(
        error_text(
            save_refusal_error("s", 4, SaveFailure::UnsupportedRevertSchema { version: 9 })
                .unwrap()
        ),
        "Unsupported Session revert schema version: session_id=s, version=9"
    );
    assert_eq!(
        error_text(save_refusal_error("s", 4, SaveFailure::MetadataMissing).unwrap()),
        "Session metadata not found: s"
    );
    assert!(save_refusal_error("s", 4, SaveFailure::StepFailed).is_none());
}

fn run_save(external: bool, events: &[SaveEvent]) -> Vec<SaveAction> {
    let mut save = DialogTurnSave::start(0, external, 1);
    let mut actions = Vec::new();
    for event in events {
        let (next, action) = save.next(*event);
        save = next;
        actions.push(action);
    }
    actions
}

#[test]
fn saving_a_turn_refreshes_metadata_and_pollutes_memories() {
    let guard = |memory_mode| SaveEvent::GuardRead { enabled: true, memory_mode };
    let actions = run_save(
        true,
        &[
            SaveEvent::MetadataLoaded { found: true },
            SaveEvent::PreviousLoaded { found: false },
            SaveEvent::TurnFileChecked { exists: false },
            SaveEvent::RevertLoaded { marker: None },
            SaveEvent::TurnWritten,
            SaveEvent::CatalogUpdated,
            SaveEvent::MetadataRefreshed { refreshed: true },
            guard(SessionMemoryMode::Enabled),
            SaveEvent::MetadataSaved,
            SaveEvent::Enqueued,
        ],
    );
    assert_eq!(
        actions,
        vec![
            SaveAction::LoadPrevious,
            SaveAction::CheckTurnFile,
            SaveAction::LoadRevert,
            SaveAction::WriteTurn,
            SaveAction::UpdateCatalog,
            SaveAction::RefreshMetadata,
            SaveAction::ReadGuard,
            SaveAction::SaveMetadata { memory_mode: SessionMemoryMode::Polluted },
            SaveAction::EnqueuePhase2,
            SaveAction::Succeed,
        ]
    );
    let unreadable = run_save(
        true,
        &[
            SaveEvent::MetadataLoaded { found: true },
            SaveEvent::PreviousLoaded { found: false },
            SaveEvent::TurnFileChecked { exists: true },
            SaveEvent::RevertLoaded { marker: None },
            SaveEvent::TurnWritten,
            SaveEvent::CatalogUpdated,
            SaveEvent::TurnsScanned,
            guard(SessionMemoryMode::Disabled),
            SaveEvent::MetadataSaved,
        ],
    );
    assert_eq!(
        &unreadable[5..],
        &[
            SaveAction::ScanTurns,
            SaveAction::ReadGuard,
            SaveAction::SaveMetadata { memory_mode: SessionMemoryMode::Disabled },
            SaveAction::Succeed,
        ]
    );
    let missing = run_save(false, &[SaveEvent::MetadataLoaded { found: false }]);
    assert_eq!(missing, vec![SaveAction::Fail(SaveFailure::MetadataMissing)]);
    assert_eq!(last_active_at(Some(5), 9), 5);
    assert_eq!(last_active_at(None, 9), 9);
}

#[test]
fn revert_markers_need_the_known_schema() {
    let marker = RevertMarker { schema_version: 1, boundary_turn: 6 };
    assert_eq!(check_session_revert_state("s", 1, Some(marker)).unwrap(), Some(6));
    assert_eq!(check_session_revert_state("s", 1, None).unwrap(), None);
    assert_eq!(
        error_text(check_session_revert_state("s", 2, Some(marker)).unwrap_err()),
        "Unsupported Session revert schema version: session_id=s, version=1"
    );
}

#[test]
fn memory_modes_keep_disabled_sessions_disabled() {
    let settings = |generate_memories, external_context_policy| {
        Some(MemorySettings { generate_memories, external_context_policy })
    };
    let skip = MemoryExternalContextPolicy::SkipSession;
    assert!(memory_pollution_guard_enabled(settings(true, skip)));
    assert!(!memory_pollution_guard_enabled(settings(false, skip)));
    assert!(!memory_pollution_guard_enabled(settings(true, MemoryExternalContextPolicy::Other)));
    assert!(!memory_pollution_guard_enabled(None));
    assert_eq!(new_session_memory_mode_from_global_config(settings(false, skip)), SessionMemoryMode::Disabled);
    assert_eq!(new_session_memory_mode_from_global_config(settings(true, skip)), SessionMemoryMode::Enabled);
    assert_eq!(new_session_memory_mode_from_global_config(None), SessionMemoryMode::Enabled);
    let disabled = pollute_memory_mode(SessionMemoryMode::Disabled);
    assert_eq!(disabled.mode, SessionMemoryMode::Disabled);
    assert!(!disabled.changed && !disabled.enqueue_phase2);
    let enabled = pollute_memory_mode(SessionMemoryMode::Enabled);
    assert_eq!(enabled.mode, SessionMemoryMode::Polluted);
    assert!(enabled.changed && enabled.enqueue_phase2);
    let polluted = pollute_memory_mode(SessionMemoryMode::Polluted);
    assert!(!polluted.changed && polluted.enqueue_phase2);
}

#[test]
fn snapshots_are_found_and_deleted_by_their_names() {
    assert_eq!(context_snapshot_index("context-12.json"), Some(12));
    assert_eq!(context_snapshot_index("context-+3.json"), Some(3));
    assert_eq!(context_snapshot_index("context-12.txt"), None);
    assert_eq!(context_snapshot_index("skill-agent-12.json"), None);
    assert_eq!(context_snapshot_index(".json"), None);
    assert_eq!(skill_agent_snapshot_index("skill-agent-4.json"), Some(4));
    assert!(is_skill_agent_snapshot_deleted_from("skill-agent-4.json", 4));
    assert!(!is_skill_agent_snapshot_deleted_from("context-4.json", 4));
    assert!(is_context_snapshot_deleted_from("skill-agent-4.json", 4));
    assert!(is_context_snapshot_deleted_from("context-4.json", 4));
    assert!(!is_context_snapshot_deleted_from("context-3.json", 4));
    let names: Vec<String> = ["context-2.json", "context-9.json", "other", "context-5.json"]
        .iter()
        .map(|name| name.to_string())
        .collect();
    let latest = latest_context_snapshot_before(&names, 9);
    assert_eq!((latest.latest, latest.snapshot_file_count), (Some(5), 3));
    assert_eq!(latest_context_snapshot_before(&names, 2).latest, None);
    assert_eq!(latest_context_snapshot_before(&names, usize::MAX).latest, Some(9));
}

#[test]
fn turn_reads_are_gathered_in_order() {
    let read = |result, duration_ms| TurnRead { result, duration_ms };
    let gathered = collect_turn_reads(vec![
        read(Ok(Some(turn(3))), 4),
        read(Ok(None), 9),
        read(Ok(Some(turn(1))), 2),
    ])
    .unwrap();
    assert_eq!(indices(&gathered.turns), vec![3, 1]);
    assert_eq!(gathered.missing_turn_file_count, 1);
    assert_eq!(gathered.max_turn_read_duration_ms, 9);
    let failed = collect_turn_reads(vec![
        read(Ok(None), 0),
        read(Err(OpenBitFunError::Io("first".to_string())), 0),
        read(Err(OpenBitFunError::Io("second".to_string())), 0),
    ]);
    assert_eq!(error_text(failed.unwrap_err()), "first");
}

#[test]
fn tail_turns_are_the_latest_in_chronological_order() {
    assert_eq!(tail_indices(&vec![1, 2, 5], 2), vec![2, 5]);
    assert_eq!(tail_indices(&vec![1, 2], 9), vec![1, 2]);
    assert_eq!(indices(&recent_turns(turns(&[1, 2, 5]), 2)), vec![2, 5]);
    assert_eq!(indices(&recent_turns(turns(&[1]), 0)), Vec::<usize>::new());
    assert_eq!(plan_tail_turns(0, Some(4)), TailTurnsPlan::Empty);
    assert_eq!(plan_tail_turns(3, Some(4)), TailTurnsPlan::Range { start: 1, end: 4 });
    assert_eq!(plan_tail_turns(9, Some(4)), TailTurnsPlan::Range { start: 0, end: 4 });
    assert_eq!(plan_tail_turns(3, Some(0)), TailTurnsPlan::Scan);
    assert_eq!(plan_tail_turns(3, None), TailTurnsPlan::Scan);
    let result = |missing| ReadTurnPathsResult {
        turns: turns(&[1]),
        missing_turn_file_count: missing,
        max_turn_read_duration_ms: 7,
    };
    assert!(accept_metadata_tail(result(1)).is_none());
    assert!(accept_metadata_tail(result(0)).is_some());
    let durations = SessionLoadDurations {
        metadata_ms: 1,
        state_ms: 2,
        scan_ms: 3,
        read_ms: 4,
        build_session_ms: 5,
        total_ms: 6,
    };
    let fast = metadata_tail_load(4, Some(result(0)));
    let timing = session_turn_load_timing(Some(1), &fast, durations);
    assert!(timing.fast_path);
    assert_eq!((timing.loaded_turn_count, timing.total_turn_count), (1, 4));
    assert_eq!(timing.max_turn_read_duration_ms, 7);
    assert!(metadata_tail_load(4, None).turns.is_empty());
    let scanned = scanned_tail_load(8, result(2));
    assert!(!scanned.fast_path);
    assert_eq!((scanned.total_turn_count, scanned.missing_turn_file_count), (8, 2));
}

#[test]
fn staged_turns_are_hidden_and_deleted_alike() {
    assert_eq!(indices(&retain_visible_turns(turns(&[0, 1, 2, 3]), Some(2))), vec![0, 1]);
    assert_eq!(indices(&retain_visible_turns(turns(&[0, 1]), None)), vec![0, 1]);
    assert_eq!(turn_indices_from(&turns(&[0, 1, 2, 3]), 2), vec![2, 3]);
    assert_eq!(turn_indices_after(&turns(&[0, 1, 2, 3]), 2), vec![3]);
    assert_eq!(turn_indices_after(&turns(&[usize::MAX]), usize::MAX), Vec::<usize>::new());
    assert_eq!(plan_turn_deletion(true, false), TurnDeletionPlan::DeleteFiles);
    assert_eq!(plan_turn_deletion(false, true), TurnDeletionPlan::EmptyCatalog);
    assert_eq!(plan_turn_deletion(false, false), TurnDeletionPlan::Nothing);
}

#[test]
fn single_turns_are_found_through_the_catalog() {
    let catalog = complete_session_turn_catalog(2, "session", &None, &turns(&[0, 4]));
    assert_eq!(locate_visible_turn(&catalog, "turn-4", None), Some(4));
    assert_eq!(locate_visible_turn(&catalog, "turn-4", Some(4)), None);
    assert_eq!(locate_visible_turn(&catalog, "turn-9", None), None);
    assert_eq!(locate_visible_turn(&None, "turn-4", None), None);
    assert!(accept_visible_turn(Some(turn(4)), "session", "turn-4", 4).is_some());
    assert!(accept_visible_turn(Some(turn(4)), "other", "turn-4", 4).is_none());
    assert!(accept_visible_turn(Some(turn(4)), "session", "turn-4", 5).is_none());
    assert!(accept_visible_turn(None, "session", "turn-4", 4).is_none());
}

#[test]
fn observers_read_sessions_that_are_in_use() {
    assert!(observer_lease(Ok(())).unwrap());
    let busy = OpenBitFunError::SessionInUse { session_id: "s".to_string() };
    assert!(!observer_lease(Err(busy)).unwrap());
    assert!(observer_lease(Err(OpenBitFunError::Io("disk".to_string()))).is_err());
}

fn activity(index: usize, kind: DialogTurnKind) -> StoredTurnActivity {
    StoredTurnActivity {
        turn_id: format!("turn-{}", index),
        turn_index: index,
        session_id: "session".to_string(),
        kind,
        status: TurnStatus::Cancelled,
        end_time: Some(7),
        finish_reason: Some("interrupted".to_string()),
        recovery_epoch: None,
        recovery: Some(DialogTurnRecovery {
            status: DialogTurnRecoveryStatus::Interrupted,
            execution_generation: 3,
        }),
    }
}

#[test]
fn activity_is_that_of_the_latest_visible_user_turn() {
    let mut scan = ActivityScan::start("session", vec![0, 2, 3, 7], Some(7)).unwrap();
    assert_eq!(scan.next(), Some(3));
    assert!(matches!(
        scan.judge("session", 3, activity(3, DialogTurnKind::Other)),
        ActivityVerdict::Skip
    ));
    assert_eq!(scan.next(), Some(2));
    match scan.judge("session", 2, activity(2, DialogTurnKind::UserDialog)) {
        ActivityVerdict::Found { last_turn, store } => {
            assert_eq!(last_turn.turn_id, "turn-2");
            assert_eq!(last_turn.execution_generation, Some(3));
            assert_eq!(last_turn.recovery_pending, Some(true));
            assert!(!store, "a staged view is never stored");
        }
        other => panic!("unexpected: {:?}", other),
    }
    assert!(matches!(
        scan.judge("session", 1, activity(2, DialogTurnKind::UserDialog)),
        ActivityVerdict::Mismatch
    ));
    assert_eq!(scan.next(), Some(0));
    assert_eq!(scan.next(), None);

    let plain = ActivityScan::start("session", vec![1], None).unwrap();
    let mut stopped = activity(1, DialogTurnKind::UserDialog);
    stopped.finish_reason = None;
    stopped.recovery_epoch = Some(9);
    match plain.judge("session", 1, stopped) {
        ActivityVerdict::Found { last_turn, store } => {
            assert_eq!(last_turn.recovery_pending, Some(false));
            assert_eq!(last_turn.execution_generation, Some(9));
            assert!(store);
        }
        other => panic!("unexpected: {:?}", other),
    }
    assert_eq!(
        error_text(ActivityScan::start("session", Vec::new(), None).unwrap_err()),
        "Session activity history is missing: session"
    );
}

#[test]
fn sessions_are_restored_from_what_was_persisted() {
    let mut stored = config();
    stored.legacy_minimal_agent = true;
    stored.workspace_path = Some("/stored".to_string());
    let restored =
        restore_session_config(Some(stored), config(), &metadata("s", 20), "localhost");
    assert!(restored.legacy_minimal && !restored.config.legacy_minimal_agent);
    assert_eq!(restored.config.workspace_path.as_deref(), Some("/stored"));
    assert_eq!(restored.config.workspace_id.as_deref(), Some("workspace"));
    assert_eq!(restored.config.remote_ssh_host.as_deref(), Some("host"));
    for mark in ["localhost", "_unresolved"] {
        let mut local = metadata("s", 20);
        local.workspace_hostname = Some(mark.to_string());
        let restored = restore_session_config(None, config(), &local, "localhost");
        assert_eq!(restored.config.remote_ssh_host, None);
    }
    let session = build_session_from_persisted_parts(
        metadata("s", 20),
        Some(StoredSessionStateFile {
            schema_version: 1,
            config: config(),
            snapshot_session_id: Some("snap".to_string()),
            last_user_dialog_agent_type: None,
            last_submitted_agent_type: Some("ask".to_string()),
            compression_state: 5u8,
            runtime_state: SessionState::Other { label: "e".to_string() },
        }),
        0u8,
        restored.config,
        restored.legacy_minimal,
        &turns(&[0, 1]),
    );
    assert_eq!(session.agent_type, "Minimal");
    assert_eq!(session.config.model_id.as_deref(), Some("model"));
    assert_eq!(session.last_user_dialog_agent_type.as_deref(), Some("plan"));
    assert_eq!(session.last_submitted_agent_type.as_deref(), Some("ask"));
    assert_eq!(session.snapshot_session_id.as_deref(), Some("snap"));
    assert_eq!(session.dialog_turn_ids, vec!["turn-0".to_string(), "turn-1".to_string()]);
    assert_eq!((session.created_at_ms, session.last_activity_at_ms), (10, 20));
    assert_eq!(session.compression_state, 5);
    let bare = build_session_from_persisted_parts(
        metadata("s", 20),
        None,
        0u8,
        config(),
        false,
        &Vec::new(),
    );
    assert_eq!(bare.agent_type, "agentic");
    assert!(matches!(bare.state, SessionState::Idle));
    assert_eq!(bare.compression_state, 0);
}

#[test]
fn runtime_states_are_stored_beside_the_rest() {
    let mut defaults = config();
    defaults.workspace_path = Some("/default".to_string());
    let fresh = stored_state_with_runtime_state(3, None, defaults, 1u8, SessionState::Idle);
    assert_eq!(fresh.schema_version, 3);
    assert_eq!(fresh.config.workspace_path, None);
    let kept = stored_state_with_runtime_state(
        4,
        Some(stored_session_state(
            3,
            config(),
            2u8,
            SessionState::Idle,
            &Some("snap".to_string()),
            &None,
            &None,
        )),
        config(),
        1u8,
        SessionState::Other { label: "e".to_string() },
    );
    assert_eq!(kept.schema_version, 4);
    assert_eq!(kept.snapshot_session_id.as_deref(), Some("snap"));
    assert_eq!(kept.compression_state, 2);
    assert!(matches!(kept.runtime_state, SessionState::Other { .. }));
}

#[test]
fn recorded_workspaces_prefer_what_was_found() {
    let found = Some(ResolvedWorkspaceIdentity {
        logical_workspace_path: "/found".to_string(),
        hostname: "found-host".to_string(),
    });
    let existing = Some(metadata("s", 1));
    let recorded = recorded_workspace(found, &config(), false, &existing, "/store", "localhost");
    assert_eq!(recorded.workspace_path, "/found");
    assert_eq!(recorded.workspace_hostname.as_deref(), Some("found-host"));
    let recorded = recorded_workspace(None, &config(), false, &existing, "/store", "localhost");
    assert_eq!(recorded.workspace_path, "/workspace");
    assert_eq!(recorded.workspace_hostname.as_deref(), Some("host"));
    let recorded = recorded_workspace(None, &config(), false, &None, "/store", "localhost");
    assert_eq!(recorded.workspace_path, "/store");
    assert_eq!(recorded.workspace_hostname.as_deref(), Some("localhost"));
    let recorded = recorded_workspace(None, &config(), true, &None, "/store", "localhost");
    assert_eq!(recorded.workspace_hostname, None);
    let mut by_path = config();
    by_path.workspace_path = Some("/p".to_string());
    assert_eq!(workspace_identity_source(&by_path), WorkspaceIdentitySource::Path);
    by_path.workspace_id = Some("w".to_string());
    assert_eq!(workspace_identity_source(&by_path), WorkspaceIdentitySource::Id);
    assert_eq!(workspace_identity_source(&config()), WorkspaceIdentitySource::Unknown);
}

#[test]
fn sessions_are_listed_by_their_latest_activity() {
    let summary = |id: &str, at| session_summary(metadata(id, at), None);
    let sorted = sort_session_summaries(vec![
        summary("old", 1),
        summary("first", 9),
        summary("second", 9),
        summary("middle", 5),
    ]);
    let ids: Vec<&str> = sorted.iter().map(|summary| summary.session_id.as_str()).collect();
    assert_eq!(ids, vec!["first", "second", "middle", "old"]);
    assert_eq!(sorted[0].model_id.as_deref(), Some("model"));
    let mut blank = metadata("blank", 1);
    blank.model_name = "  ".to_string();
    let summary = session_summary(
        blank,
        Some(StoredSummaryFacts {
            state: SessionState::Idle,
            reasoning_preset: Some("high".to_string()),
            legacy_minimal: true,
        }),
    );
    assert_eq!(summary.model_id, None);
    assert_eq!(summary.agent_type, "Minimal");
    assert_eq!(summary.reasoning_preset.as_deref(), Some("high"));
}

#[test]
fn remote_sessions_name_their_relation() {
    let shown = remote_session_metadata(
        metadata("s", 4),
        Some(SessionRelationship {
            kind: Some(SessionRelationshipKind::DeepReview),
            parent_session_id: Some("p".to_string()),
        }),
        "listed",
    );
    assert_eq!(shown.relationship_kind.as_deref(), Some("deep_review"));
    assert_eq!(shown.parent_session_id.as_deref(), Some("p"));
    assert_eq!(shown.workspace_id.as_deref(), Some("workspace"));
    let mut unbound = metadata("s", 4);
    unbound.workspace_id = None;
    let shown = remote_session_metadata(unbound, None, "listed");
    assert_eq!(shown.workspace_id.as_deref(), Some("listed"));
    assert_eq!(shown.relationship_kind, None);
}

#[test]
fn pending_directories_are_removed_unless_committed() {
    let mut pending = PendingSessionDirectory::new("/sessions/s".to_string());
    assert!(pending.is_removed_when_dropped(true));
    assert!(!pending.is_removed_when_dropped(false));
    pending.commit();
    assert!(!pending.is_removed_when_dropped(true));
}

#[test]
fn session_creation_keeps_the_winner() {
    assert_eq!(
        error_text(session_claim_error("s", ClaimOutcome::AlreadyExists).unwrap()),
        "Persisted session ID already exists: s"
    );
    assert!(session_claim_error("s", ClaimOutcome::Claimed).is_none());
    assert!(session_claim_error("s", ClaimOutcome::Failed).is_none());
    let written = finish_session_creation("s", FirstWriteOutcome::Written);
    assert!(written.commit && written.result.is_ok());
    let cleaned = finish_session_creation(
        "s",
        FirstWriteOutcome::CleanedUp { error: OpenBitFunError::Io("disk".to_string()) },
    );
    assert!(cleaned.commit);
    assert_eq!(error_text(cleaned.result.unwrap_err()), "disk");
    let stuck = finish_session_creation(
        "s",
        FirstWriteOutcome::CleanupFailed {
            error_text: "disk".to_string(),
            cleanup_error_text: "busy".to_string(),
        },
    );
    assert!(!stuck.commit);
    assert!(matches!(
        stuck.result,
        Err(OpenBitFunError::SessionCreateCleanupRequired { session_id, error, cleanup_error })
            if session_id == "s" && error == "disk" && cleanup_error == "busy"
    ));
}

#[test]
fn title_changes_roll_back_and_say_when_they_could_not() {
    let run = |outcomes: &[bool]| {
        let mut stage = TitleStage::WritingUpdated;
        let mut step = TitleStep::Succeed;
        for good in outcomes {
            let (next, action) = next_title_step(stage, *good);
            stage = next;
            step = action;
        }
        (stage, step)
    };
    assert_eq!(run(&[true]), (TitleStage::Finished, TitleStep::Succeed));
    assert_eq!(run(&[false, true]), (TitleStage::Finished, TitleStep::FailUnchanged));
    assert_eq!(run(&[false, false]).1, TitleStep::WriteOriginal);
    assert_eq!(
        run(&[false, false, false, true]),
        (TitleStage::Finished, TitleStep::FailUnchanged)
    );
    assert_eq!(
        run(&[false, false, true, false]),
        (TitleStage::Finished, TitleStep::FailUnknown)
    );
    let original = metadata("s", 4);
    let mut changed = metadata("s", 4);
    assert!(is_original_title(&Some(metadata("s", 4)), &original));
    set_session_title(&mut changed, "new", 8);
    assert_eq!((changed.session_name.as_str(), changed.last_active_at), ("new", 8));
    assert!(!is_original_title(&Some(changed), &original));
    assert!(!is_original_title(&None, &original));
    assert_eq!(
        error_text(title_outcome_unknown_error("s", "e", &None)),
        "Session title persistence failed and rollback did not restore the previous metadata: \
         session_id=s, error=e, rollback_error=none"
    );
}

#[test]
fn managers_share_their_paths_with_the_runtime_service() {
    let paths = Arc::new(PathManager { user_root: "/home".to_string() });
    let manager = PersistenceManager::new(paths.clone()).expect("persistence manager");
    assert!(Arc::ptr_eq(manager.path_manager(), &paths));
    assert!(Arc::ptr_eq(&manager.runtime_service().path_manager, &paths));
}

#[test]
fn storage_paths_follow_the_session() {
    assert_eq!(
        project_sessions_dir(true, "/sessions".to_string(), "/mapped".to_string()),
        "/sessions"
    );
    assert_eq!(
        project_sessions_dir(false, "/workspace".to_string(), "/mapped".to_string()),
        "/mapped"
    );
    assert_eq!(
        evidence_ledger_path("s"),
        vec!["s".to_string(), "evidence-ledger.json".to_string()]
    );
    assert_eq!(token_anchors_path("s")[1], "token-anchors.json");
    assert_eq!(session_revert_path("s")[1], "session-revert.json");
    assert!(lists_stored_sessions(true, true) && !lists_stored_sessions(true, false));
    assert!(!prepares_runtime_for_write(true) && prepares_runtime_for_write(false));
    assert!(require_metadata_update(true, "s").is_ok());
    assert_eq!(
        error_text(require_metadata_update(false, "s").unwrap_err()),
        "Session metadata not found: s"
    );
}

#[test]
fn missing_sidecars_need_no_removing() {
    let sidecar = SessionSidecar::TokenAnchors;
    assert!(sidecar_removal_result(sidecar, "s", RemovalOutcome::Removed).is_ok());
    assert!(sidecar_removal_result(sidecar, "s", RemovalOutcome::NotThere).is_ok());
    for (sidecar, message) in [
        (SessionSidecar::PromptCache, "Failed to delete prompt cache for session s: e"),
        (SessionSidecar::StagedRevert, "Failed to delete staged Session revert for s: e"),
        (SessionSidecar::TokenAnchors, "Failed to delete token anchors for session s: e"),
    ] {
        let failed = RemovalOutcome::Failed { error: "e".to_string() };
        assert_eq!(
            error_text(sidecar_removal_result(sidecar, "s", failed).unwrap_err()),
            message
        );
    }
}

#[test]
fn store_failures_keep_their_kind() {
    assert!(matches!(
        json_store_error(StoreFailureKind::Deserialization, "d".to_string()),
        OpenBitFunError::Deserialization(text) if text == "d"
    ));
    assert!(matches!(
        json_store_error(StoreFailureKind::Serialization, "s".to_string()),
        OpenBitFunError::Serialization(_)
    ));
    assert!(matches!(
        json_store_error(StoreFailureKind::Other, "o".to_string()),
        OpenBitFunError::Io(_)
    ));
    assert!(matches!(
        session_write_lock_error("s", &SessionWriteLockFailure::InUse),
        OpenBitFunError::SessionInUse { session_id } if session_id == "s"
    ));
    let other = SessionWriteLockFailure::Other {
        code: "io".to_string(),
        message: "denied".to_string(),
    };
    assert_eq!(
        error_text(session_write_lock_error("s", &other)),
        "Failed to protect Session writes: session_id=s, code=io, error=denied"
    );
}

#[test]
fn times_survive_the_way_to_milliseconds() {
    let time = unix_ms_to_system_time(1_234_567);
    assert_eq!(time, SinceEpoch { secs: 1_234, nanos: 567_000_000 });
    assert_eq!(system_time_to_unix_ms(Some(time)), 1_234_567);
    assert_eq!(system_time_to_unix_ms(None), 0);
    assert_eq!(
        system_time_to_unix_ms(Some(SinceEpoch { secs: u64::MAX, nanos: 0 })),
        (u64::MAX as u128 * 1000) as u64
    );
    assert_eq!(current_unix_secs(Some(SinceEpoch { secs: 7, nanos: 9 })), 7);
    assert_eq!(current_unix_secs(Some(SinceEpoch { secs: u64::MAX, nanos: 0 })), -1);
    assert_eq!(current_unix_secs(None), 0);
}

#[test]
fn newer_metadata_goes_before_the_given_one() {
    assert_eq!(backfill_admission(false, None), BackfillAdmission::KeepGiven);
    assert_eq!(backfill_admission(true, None), BackfillAdmission::NotFound);
    assert_eq!(backfill_admission(true, Some(false)), BackfillAdmission::KeepStored);
    assert_eq!(backfill_admission(true, Some(true)), BackfillAdmission::Walk);
    assert_eq!(
        error_text(activity_turn_missing_error("/t")),
        "Session activity Turn is missing: /t"
    );
    assert_eq!(
        error_text(activity_turn_mismatch_error("/t")),
        "Session activity Turn identity mismatch: /t"
    );
}

#[test]
fn writers_exclude_each_other_by_real_paths() {
    let given = || "/alias/s".to_string();
    assert_eq!(
        persistence_lock_identity(given(), Some("/real/s".to_string()), None),
        "/real/s"
    );
    assert_eq!(
        persistence_lock_identity(given(), None, Some("/real/s".to_string())),
        "/real/s"
    );
    assert_eq!(persistence_lock_identity(given(), None, None), "/alias/s");
    assert_eq!(ledger_retention(false, false), LedgerRetention::Nothing);
    assert_eq!(ledger_retention(true, true), LedgerRetention::Retain);
    assert_eq!(ledger_retention(true, false), LedgerRetention::Disappeared);
}

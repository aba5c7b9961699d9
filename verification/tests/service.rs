use std::collections::HashSet;

use openbitfun_core::assembly::{
    agent_mode_catalog, lists_external_modes, missing_runtime_part, port_provider, AgentModeInfo,
    AgentSource, PortProvider, RuntimePort, RuntimeSurface,
};
use openbitfun_core::chat::{
    may_read_chat_image, remote_chat_history_turn_from_core_turn, remote_chat_history_turns, ChatSourceTurn, ModelRoundData, TextItemData,
    ToolItemData, MAX_REMOTE_CHAT_IMAGE_SOURCE_BYTES,
};
use openbitfun_core::close::{
    deletion_error, next_deletion_step, next_release_step, release_deadline_error, release_wait_ms,
    DeletionStep, ReleaseEvent, ReleaseStep, SessionReleaseKind,
};
use openbitfun_core::errors::{map_session_close_error, OpenBitFunError, PortErrorKind};
use openbitfun_core::file_target::{
    check_saved_connection, check_selected_workspace,
    check_workspace_path_connection, file_target_id, file_target_identity,
    remote_file_workspace_root,
    scope_remote_file_target, unresolved_workspace_error, workspace_file_target_id, FileRootSource,
    FileScope,
};
use openbitfun_core::json::{JsonField, JsonNumber, JsonValue};
use openbitfun_core::messages::ImageContextData;
use openbitfun_core::model::{
    becomes_mode_default, concrete_model_lookup, first_model_update_step, includes_host_catalogs, model_for_preset,
    model_update_facts, model_update_needs_config, next_model_lookup_step,
    next_model_update_step, normalize_reasoning_preset,
    normalize_remote_model_selection, normalize_remote_session_model_id, preset_unavailable_error,
    provider_catalog_source, reasoning_catalog_source, remote_model_capability_fact,
    remote_model_facts, remote_models_dev_reasoning_catalog, remote_provider_catalog,
    reported_model_selection, session_model_update, ConfiguredModel, ModelCapability,
    ModelCatalogReader, ModelLookup, ModelLookupStep, ModelSettings, ModelUpdateEvent, ModelUpdateStep, ModelsDevCatalogSource,
    ModelsDevSnapshotSource, ProviderCatalog, ProviderCatalogSource, RemoteModelCapabilityFact,
    SessionModelUpdate,
};
use openbitfun_core::plugins::{
    configured_plugin_root_from_session_facts, configured_plugin_workspace, port_call_steps,
    PortCallStep, SessionPortCall,
};
use openbitfun_core::remote::{
    binding_unavailable_error, confirm_tool_reply, core_dialog_submission_policy,
    dialog_queue_admission, generate_remote_turn_id, image_context_from_remote_image_context,
    next_remote_session_step, ownership_reference, pending_permissions_of_session, permission_mode, prewarms_terminal,
    reject_tool_reply, remote_cancellation_request, remote_dialog_scheduler_outcome_fact, remote_dialog_turn_request,
    remote_dialog_workspace_binding, remote_image_context_from_image_context,
    remote_rollback_request, remote_terminal_name, remote_tracker_subscription_id, remote_turn_id,
    set_permission_mode, DialogQueuePriority, DialogSubmitOutcome, DialogTriggerSource,
    PendingPermission, PermissionPolicyPreset, PermissionReply, QueueAdmission,
    RemoteConnectSubmissionSource, RemoteDialogQueuePriority, RemoteDialogSchedulerOutcomeFact,
    RemoteDialogSubmission, RemoteDialogSubmissionPolicy, RemotePermissionMode,
    RemoteSessionEvent, RemoteSessionOperation, RemoteSessionStep, ToolPermissionSettings,
};
use openbitfun_core::revert::{
    local_revert_workspace_error, marker_after_failure, merge_retired_turn_ids, next_revert_step,
    next_rollback_step, remote_revert_refusal, remote_rollback_outcome,
    remote_rollback_recovery_message, remote_rollback_refusal, require_history_workspace_id,
    revert_result,
    revert_transcript_error, rollback_result, HistoryEvent, HistoryStep, MarkerAfterFailure,
    SessionComposerUpdate, SessionTranscript,
};
use openbitfun_core::session::{
    active_turn_id, session_uses_shared_mode_default, Session, SessionConfig,
    SessionExecutionTarget, SessionKind, SessionState,
};
use openbitfun_core::system::{
    next_router_step, next_system_init_step, session_manager_config_for_profile, AgenticSystem,
    DeliveryProfile, RouterReceipt, RouterStep, SystemInitStep,
};
use openbitfun_core::turn::TurnStatus;
use openbitfun_core::workspace::{
    assistant_workspaces, check_assistant_workspace, git_branch_from_output,
    opened_workspace_update, recent_workspaces, remote_opened_workspace_catalog,
    remote_workspace_display_name, remote_workspace_facts_from_record, remote_workspace_kind,
    remote_workspace_metadata, require_workspace_id, selected_workspace_update,
    RemoteConnectWorkspaceKind, WorkspaceInfo, WorkspaceKind,
};

fn text(value: &str) -> JsonValue {
    JsonValue::Text(value.to_string())
}

fn field(key: &str, value: JsonValue) -> JsonField {
    JsonField { key: key.to_string(), value }
}

fn empty_config() -> SessionConfig {
    SessionConfig {
        workspace_id: None,
        project_workspace_id: None,
        workspace_path: None,
        project_workspace_path: None,
        remote_connection_id: None,
        remote_ssh_host: None,
        execution_target: None,
        model_id: None,
        reasoning_preset: None,
        legacy_minimal_agent: false,
    }
}

fn session(kind: SessionKind) -> Session<()> {
    Session {
        session_id: "session-model-scope".to_string(),
        session_name: "Model scope".to_string(),
        agent_type: "Standard".to_string(),
        last_user_dialog_agent_type: None,
        last_submitted_agent_type: None,
        created_by: None,
        kind,
        snapshot_session_id: None,
        dialog_turn_ids: Vec::new(),
        state: SessionState::Idle,
        config: empty_config(),
        compression_state: (),
        created_at_ms: 0,
        updated_at_ms: 0,
        last_activity_at_ms: 0,
    }
}

fn rollback_run(events: &[HistoryEvent]) -> Vec<HistoryStep> {
    let mut steps = vec![HistoryStep::ValidateSessionId];
    for event in events {
        let last = *steps.last().unwrap();
        steps.push(next_rollback_step(last, *event));
    }
    steps
}

fn position<T: PartialEq + std::fmt::Debug>(items: &[T], item: T) -> usize {
    items
        .iter()
        .position(|candidate| *candidate == item)
        .unwrap_or_else(|| panic!("{:?} is missing", item))
}

#[test]
fn targeted_rollback_restores_before_requiring_an_in_memory_session() {
    let run = rollback_run(&[
        HistoryEvent::Done,
        HistoryEvent::Workspace { remote: false },
        HistoryEvent::Done,
        HistoryEvent::Loaded { loaded: false },
        HistoryEvent::Done,
        HistoryEvent::Done,
        HistoryEvent::Done,
        HistoryEvent::Done,
        HistoryEvent::Done,
        HistoryEvent::Done,
        HistoryEvent::Done,
        HistoryEvent::Applied { changed: true },
        HistoryEvent::Done,
        HistoryEvent::Done,
    ]);
    assert_eq!(*run.last().unwrap(), HistoryStep::Complete);
    let resolve_storage = position(&run, HistoryStep::ResolveStorageByWorkspaceId);
    let restore_session = position(&run, HistoryStep::RestoreSession);
    let local_workspace = position(&run, HistoryStep::CheckLocalWorkspace);
    let maintenance = position(&run, HistoryStep::BeginMaintenance);

    assert!(resolve_storage < restore_session);
    assert!(restore_session < local_workspace);
    assert!(local_workspace < maintenance);
}

#[test]
fn rollbacks_skip_restoring_loaded_sessions_and_refuse_remote_workspaces() {
    assert_eq!(
        next_rollback_step(HistoryStep::CheckLoaded, HistoryEvent::Loaded { loaded: true }),
        HistoryStep::CheckLocalWorkspace
    );
    assert_eq!(
        next_rollback_step(
            HistoryStep::ResolveWorkspace,
            HistoryEvent::Workspace { remote: true }
        ),
        HistoryStep::RefuseRemote
    );
    assert_eq!(
        next_rollback_step(HistoryStep::AcquireMutation, HistoryEvent::Failed),
        HistoryStep::FailWithStepError
    );
    assert_eq!(remote_rollback_refusal().kind, PortErrorKind::NotAvailable);
    assert_eq!(
        remote_rollback_refusal().message,
        "Session rollback is unavailable for remote workspaces"
    );
}

#[test]
fn failed_rollbacks_are_recovered_only_when_they_left_a_mark() {
    assert_eq!(
        next_rollback_step(HistoryStep::Apply, HistoryEvent::Failed),
        HistoryStep::RereadMarker
    );
    let end = |marker| {
        next_rollback_step(HistoryStep::RereadMarker, HistoryEvent::Marker(marker))
    };
    assert_eq!(end(marker_after_failure(false, false, false)), HistoryStep::FailWithApplyError);
    assert_eq!(end(marker_after_failure(true, true, true)), HistoryStep::FailWithApplyError);
    assert_eq!(end(marker_after_failure(true, true, false)), HistoryStep::RecoveryRequired);
    assert_eq!(end(marker_after_failure(true, false, true)), HistoryStep::RecoveryRequired);
    assert_eq!(marker_after_failure(true, false, false), MarkerAfterFailure::Changed);
    assert_eq!(
        remote_rollback_recovery_message("disk full"),
        "Session rollback requires recovery before it can continue: disk full"
    );
}

#[test]
fn undo_and_redo_check_the_local_workspace_first() {
    let mut steps = vec![HistoryStep::ValidateSessionId];
    for event in [
        HistoryEvent::Done,
        HistoryEvent::Workspace { remote: false },
        HistoryEvent::Done,
        HistoryEvent::Done,
        HistoryEvent::Done,
        HistoryEvent::Done,
        HistoryEvent::Done,
        HistoryEvent::Done,
        HistoryEvent::Applied { changed: false },
        HistoryEvent::Done,
    ] {
        let last = *steps.last().unwrap();
        steps.push(next_revert_step(last, event));
    }
    assert_eq!(
        steps,
        vec![
            HistoryStep::ValidateSessionId,
            HistoryStep::ResolveWorkspace,
            HistoryStep::CheckLocalWorkspace,
            HistoryStep::ResolveStorageByWorkspaceId,
            HistoryStep::CheckBinding,
            HistoryStep::BeginMaintenance,
            HistoryStep::AcquireMutation,
            HistoryStep::RecheckBinding,
            HistoryStep::Apply,
            HistoryStep::ReadTranscript,
            HistoryStep::Complete,
        ]
    );
    assert_eq!(
        next_revert_step(HistoryStep::Apply, HistoryEvent::Applied { changed: true }),
        HistoryStep::AnnounceChange
    );
    assert_eq!(
        next_revert_step(HistoryStep::ReadTranscript, HistoryEvent::Failed),
        HistoryStep::OutcomeUnknown
    );
    assert_eq!(remote_revert_refusal().kind, PortErrorKind::NotAvailable);
    assert_eq!(revert_transcript_error("gone").kind, PortErrorKind::OutcomeUnknown);
    let refused = OpenBitFunError::Validation(
        "Session undo and redo are unavailable for remote workspaces".to_string(),
    );
    assert_eq!(
        local_revert_workspace_error(&refused, "text".to_string()).kind,
        PortErrorKind::NotAvailable
    );
    let invalid = OpenBitFunError::Validation("other".to_string());
    assert_eq!(
        local_revert_workspace_error(&invalid, "text".to_string()).kind,
        PortErrorKind::InvalidRequest
    );
}

#[test]
fn history_results_say_when_a_reload_is_needed() {
    let strings = |items: &[&str]| items.iter().map(|i| i.to_string()).collect::<Vec<_>>();
    assert_eq!(
        merge_retired_turn_ids(strings(&["a", "b"]), strings(&["b", "c", "c"])),
        strings(&["a", "b", "c"])
    );
    let broken = rollback_result::<u8>(
        "s".to_string(),
        "t".to_string(),
        Err("io".to_string()),
        SessionComposerUpdate::Replace { text: "draft".to_string() },
        strings(&["a"]),
        2,
        4,
        strings(&["f"]),
    );
    assert!(broken.changed && broken.reload_required);
    assert_eq!(
        broken.reload_reason.as_deref(),
        Some("Session rollback completed but the authoritative transcript could not be read: io")
    );
    assert!(broken.transcript.messages.is_empty());
    let outcome = remote_rollback_outcome(broken);
    assert_eq!(outcome.composer_text.as_deref(), Some("draft"));
    assert_eq!(outcome.restored_files, strings(&["f"]));

    let fine = rollback_result(
        "s".to_string(),
        "t".to_string(),
        Ok(SessionTranscript { session_id: "s".to_string(), messages: vec![1u8] }),
        SessionComposerUpdate::Clear,
        Vec::new(),
        0,
        1,
        Vec::new(),
    );
    assert!(!fine.reload_required && fine.reload_reason.is_none());
    assert_eq!(remote_rollback_outcome(fine).composer_text, None);
    let undone = revert_result(
        "s".to_string(),
        SessionTranscript { session_id: "s".to_string(), messages: vec![1u8] },
        SessionComposerUpdate::Preserve,
        Vec::new(),
        false,
        3,
    );
    assert!(!undone.changed && undone.boundary_storage_turn_index.is_none());
    assert_eq!(undone.hidden_turn_count, 3);
}

fn remote_run(
    operation: RemoteSessionOperation,
    remote: bool,
    loaded: bool,
) -> Vec<RemoteSessionStep> {
    let mut steps = vec![RemoteSessionStep::ResolveBinding];
    loop {
        let last = *steps.last().unwrap();
        let event = match last {
            RemoteSessionStep::ResolveBinding => {
                RemoteSessionEvent::Binding { found: true, remote }
            }
            RemoteSessionStep::FindLoadedSession => RemoteSessionEvent::Loaded { loaded },
            RemoteSessionStep::EnsureRuntimeOwnership
            | RemoteSessionStep::RestoreForBinding
            | RemoteSessionStep::Perform => RemoteSessionEvent::Done,
            _ => return steps,
        };
        steps.push(next_remote_session_step(operation, last, event));
    }
}

#[test]
fn remote_attach_and_mutation_paths_preserve_workspace_ownership_facts() {
    for operation in [
        RemoteSessionOperation::UpdateModel,
        RemoteSessionOperation::EnsureLoaded,
        RemoteSessionOperation::RestoreForCancel,
    ] {
        let run = remote_run(operation, false, false);
        assert!(
            position(&run, RemoteSessionStep::EnsureRuntimeOwnership)
                < position(&run, RemoteSessionStep::RestoreForBinding),
            "remote attach or mutation must not bypass the ownership gate"
        );
        assert_eq!(*run.last().unwrap(), RemoteSessionStep::Finished);
    }
    assert_eq!(dialog_queue_admission(false, true), QueueAdmission::RestoreThenManage);
    assert_eq!(dialog_queue_admission(false, false), QueueAdmission::Unavailable);
    assert_eq!(dialog_queue_admission(true, false), QueueAdmission::Manage);

    let delete = remote_run(RemoteSessionOperation::Delete, true, false);
    assert!(
        position(&delete, RemoteSessionStep::EnsureRuntimeOwnership)
            < position(&delete, RemoteSessionStep::Perform)
    );

    let rollback = remote_run(RemoteSessionOperation::Rollback, false, true);
    assert!(
        position(&rollback, RemoteSessionStep::EnsureRuntimeOwnership)
            < position(&rollback, RemoteSessionStep::Perform)
    );
    let refused = remote_run(RemoteSessionOperation::Rollback, true, true);
    assert_eq!(
        refused,
        vec![RemoteSessionStep::ResolveBinding, RemoteSessionStep::RefuseRemote]
    );
}

#[test]
fn remote_requests_without_a_binding_fail() {
    assert_eq!(
        next_remote_session_step(
            RemoteSessionOperation::Delete,
            RemoteSessionStep::ResolveBinding,
            RemoteSessionEvent::Binding { found: false, remote: false },
        ),
        RemoteSessionStep::FailWithoutBinding
    );
    assert_eq!(
        next_remote_session_step(
            RemoteSessionOperation::UpdateModel,
            RemoteSessionStep::FindLoadedSession,
            RemoteSessionEvent::Loaded { loaded: true },
        ),
        RemoteSessionStep::Perform
    );
    assert_eq!(
        binding_unavailable_error("s-1"),
        "Session workspace binding not available for session: s-1"
    );
}

#[test]
fn remote_model_lookup_keeps_read_only_restore_lock_free() {
    let mut steps = vec![ModelLookupStep::FindLoadedSession];
    for found in [false, true, true] {
        let last = *steps.last().unwrap();
        steps.push(next_model_lookup_step(last, found));
    }
    assert_eq!(
        steps,
        vec![
            ModelLookupStep::FindLoadedSession,
            ModelLookupStep::ResolveStorage,
            ModelLookupStep::ReadStoredView,
            ModelLookupStep::ReportSession,
        ]
    );
    assert_eq!(
        next_model_lookup_step(ModelLookupStep::FindLoadedSession, true),
        ModelLookupStep::ReportSession
    );
    assert_eq!(
        next_model_lookup_step(ModelLookupStep::ResolveStorage, false),
        ModelLookupStep::ReportNothing
    );
    assert_eq!(
        next_model_lookup_step(ModelLookupStep::ReadStoredView, false),
        ModelLookupStep::ReportNothing
    );
}

#[test]
fn session_surface_runtime_registers_explicit_session_mutation_ports() {
    let provider = |port| port_provider(RuntimeSurface::SessionSurface, port);
    assert_eq!(provider(RuntimePort::LocalCommandTurn), Some(PortProvider::Coordinator));
    assert_eq!(provider(RuntimePort::SessionMode), Some(PortProvider::Coordinator));
    assert_eq!(provider(RuntimePort::SessionRestore), Some(PortProvider::PluginRestore));
    assert_eq!(provider(RuntimePort::DialogTurn), Some(PortProvider::PluginDialogTurns));
}

#[test]
fn surfaces_offer_their_own_ports() {
    assert_eq!(port_provider(RuntimeSurface::Plain, RuntimePort::DialogTurn), None);
    assert_eq!(
        port_provider(RuntimeSurface::Plain, RuntimePort::SessionManagement),
        Some(PortProvider::Coordinator)
    );
    assert_eq!(
        port_provider(RuntimeSurface::DialogTurns, RuntimePort::SessionClose),
        Some(PortProvider::ScheduledManagement)
    );
    assert_eq!(
        port_provider(RuntimeSurface::DialogTurns, RuntimePort::Cancellation),
        Some(PortProvider::Coordinator)
    );
    assert_eq!(
        port_provider(RuntimeSurface::LifecycleDelivery, RuntimePort::DialogTurn),
        None
    );
    assert_eq!(
        port_provider(RuntimeSurface::SessionSurface, RuntimePort::TranscriptReader),
        None
    );
    assert_eq!(
        port_provider(RuntimeSurface::SchedulerPorts, RuntimePort::Cancellation),
        Some(PortProvider::Scheduler)
    );
    assert_eq!(
        port_provider(RuntimeSurface::AcpProduct, RuntimePort::DialogTurn),
        Some(PortProvider::PluginDialogTurnsRejectBusy)
    );
    assert_eq!(port_provider(RuntimeSurface::AcpProduct, RuntimePort::SessionFork), None);
    assert_eq!(
        port_provider(RuntimeSurface::Product, RuntimePort::SessionLineage),
        Some(PortProvider::Host)
    );
    assert_eq!(
        port_provider(RuntimeSurface::SdkHostProduct, RuntimePort::SessionLineage),
        None
    );
    assert_eq!(
        missing_runtime_part(false, true, true).as_deref(),
        Some("Desktop session system not ready")
    );
    assert_eq!(
        missing_runtime_part(true, true, false).as_deref(),
        Some("Dialog scheduler is not initialized")
    );
    assert_eq!(missing_runtime_part(true, false, false), None);
}

#[test]
fn configured_dialog_turn_port_recovers_plugins_before_session_execution() {
    for call in [SessionPortCall::SubmitDialogTurn, SessionPortCall::RecoverInterruptedTurn] {
        let steps = port_call_steps(call);
        let ensure = position(&steps, PortCallStep::EnsureSessionPlugins);
        let delegate = position(&steps, PortCallStep::Delegate);
        assert!(ensure < delegate, "{:?} must recover plugins first", call);
    }
}

#[test]
fn plugins_follow_the_kind_of_call() {
    assert_eq!(
        port_call_steps(SessionPortCall::CreateSession),
        vec![PortCallStep::EnsureWorkspacePlugins, PortCallStep::Delegate]
    );
    assert_eq!(
        port_call_steps(SessionPortCall::RestoreSession),
        vec![PortCallStep::Delegate, PortCallStep::EnsureSessionPlugins]
    );
    for call in [
        SessionPortCall::SteerDialogTurn,
        SessionPortCall::QueueOther,
        SessionPortCall::ResolveAgentType,
    ] {
        assert_eq!(port_call_steps(call), vec![PortCallStep::Delegate]);
    }
    for call in [SessionPortCall::QueueSubmit, SessionPortCall::QueuePromote] {
        assert_eq!(port_call_steps(call)[0], PortCallStep::EnsureSessionPlugins);
    }
}

#[test]
fn configured_plugins_recover_from_the_persisted_session_execution_root() {
    let target = SessionExecutionTarget { root_path: "restored-worktree".to_string() };

    assert_eq!(
        configured_plugin_root_from_session_facts(Some("project"), Some(&target), false)
            .expect("restored local execution root"),
        Some("restored-worktree".to_string())
    );
    assert_eq!(
        configured_plugin_root_from_session_facts(Some("/remote/project"), None, true)
            .expect("remote session remains outside the local Host"),
        None
    );
}

#[test]
fn plugins_need_a_place_and_a_workspace() {
    assert_eq!(
        configured_plugin_root_from_session_facts(Some("project"), None, false).unwrap(),
        Some("project".to_string())
    );
    let error = configured_plugin_root_from_session_facts(None, None, false).unwrap_err();
    assert_eq!(error.kind, PortErrorKind::InvalidRequest);
    assert_eq!(
        error.message,
        "workspace_path is required to initialize configured plugins"
    );
    let root = || Ok(Some("project".to_string()));
    assert_eq!(
        configured_plugin_workspace(root(), &Some("id".to_string())).unwrap(),
        Some("id".to_string())
    );
    assert_eq!(
        configured_plugin_workspace(root(), &None).unwrap_err().message,
        "Workspace ID is required"
    );
    assert_eq!(configured_plugin_workspace(Ok(None), &None).unwrap(), None);
}

#[test]
fn core_service_agent_runtime_only_shares_model_defaults_for_standard_sessions() {
    let mut session = session(SessionKind::Standard);

    assert!(session_uses_shared_mode_default(&session));

    session.kind = SessionKind::Subagent;
    assert!(!session_uses_shared_mode_default(&session));

    session.kind = SessionKind::EphemeralChild;
    assert!(!session_uses_shared_mode_default(&session));
}

#[test]
fn session_close_preserves_writer_conflicts() {
    let error = map_session_close_error(
        &OpenBitFunError::SessionInUse { session_id: "session-1".to_string() },
        "in use".to_string(),
    );

    assert_eq!(error.kind, PortErrorKind::SessionInUse);
    assert_eq!(error.message, "in use");
}

#[test]
fn session_errors_have_their_own_kinds_at_ports() {
    let kind = |error| map_session_close_error(&error, String::new()).kind;
    assert_eq!(kind(OpenBitFunError::Validation(String::new())), PortErrorKind::InvalidRequest);
    assert_eq!(kind(OpenBitFunError::NotFound(String::new())), PortErrorKind::NotFound);
    assert_eq!(kind(OpenBitFunError::Timeout(String::new())), PortErrorKind::Timeout);
    assert_eq!(kind(OpenBitFunError::Cancelled(String::new())), PortErrorKind::Cancelled);
    assert_eq!(
        kind(OpenBitFunError::OutcomeUnknown(String::new())),
        PortErrorKind::OutcomeUnknown
    );
    assert_eq!(kind(OpenBitFunError::Io(String::new())), PortErrorKind::Backend);
}

#[test]
fn deletions_stop_turns_before_they_delete() {
    let mut step = DeletionStep::ValidateSessionId;
    let mut seen = vec![step];
    while step != DeletionStep::Deleted {
        step = next_deletion_step(step, true);
        seen.push(step);
    }
    assert!(position(&seen, DeletionStep::BeginDeletion) < position(&seen, DeletionStep::Delete));
    assert_eq!(next_deletion_step(DeletionStep::CheckBinding, false), DeletionStep::Fail);
    let busy = OpenBitFunError::Timeout("busy".to_string());
    assert_eq!(
        deletion_error(DeletionStep::BeginDeletion, &busy, "busy".to_string()).kind,
        PortErrorKind::Timeout
    );
    assert_eq!(
        deletion_error(DeletionStep::CheckBinding, &busy, "busy".to_string()).kind,
        PortErrorKind::InvalidRequest
    );
}

#[test]
fn releases_keep_their_deadline() {
    let next = |step, event| next_release_step(SessionReleaseKind::UnloadPersisted, step, event);
    assert_eq!(
        next(ReleaseStep::BeginMaintenance, ReleaseEvent::Maintained { remaining_ms: 5 }),
        ReleaseStep::UnloadPersisted { budget_ms: 5 }
    );
    assert_eq!(
        next_release_step(
            SessionReleaseKind::DiscardTransient,
            ReleaseStep::BeginMaintenance,
            ReleaseEvent::Maintained { remaining_ms: 5 }
        ),
        ReleaseStep::DiscardTransient { budget_ms: 5 }
    );
    let early = next(ReleaseStep::BeginMaintenance, ReleaseEvent::Maintained { remaining_ms: 0 });
    assert_eq!(early, ReleaseStep::FailBeforeRelease);
    assert_eq!(
        release_deadline_error(early).unwrap().message,
        "Session close deadline was exhausted before resource release"
    );
    let late = next(ReleaseStep::UnloadPersisted { budget_ms: 5 }, ReleaseEvent::TimedOut);
    assert_eq!(
        release_deadline_error(late).unwrap().message,
        "Session resource release exceeded the Session close deadline"
    );
    assert!(release_deadline_error(ReleaseStep::Released).is_none());
    assert_eq!(release_wait_ms(0), 1);
    assert_eq!(release_wait_ms(30), 30);
    assert_eq!(
        next(ReleaseStep::UnloadPersisted { budget_ms: 5 }, ReleaseEvent::Done),
        ReleaseStep::Released
    );
}

#[test]
fn remote_generated_turn_ids_are_uuid_unique() {
    let ids = (0..1_024).map(|_| generate_remote_turn_id()).collect::<HashSet<_>>();

    assert_eq!(ids.len(), 1_024);
    assert!(ids.iter().all(|id| {
        id.strip_prefix("turn_").is_some_and(|value| uuid::Uuid::parse_str(value).is_ok())
    }));
    assert_eq!(remote_turn_id("x"), "turn_x");
}

#[test]
fn remote_generated_turn_ids_name_their_version() {
    let id = generate_remote_turn_id();
    let digits: Vec<char> = id.chars().skip("turn_".len()).collect();
    assert_eq!(digits.len(), 36);
    assert_eq!(digits[14], '4');
    assert!(['8', '9', 'a', 'b'].contains(&digits[19]));
}

#[test]
fn core_service_agent_runtime_owner_maps_remote_dialog_policy() {
    let relay = core_dialog_submission_policy(RemoteDialogSubmissionPolicy {
        source: RemoteConnectSubmissionSource::Relay,
        queue_priority: RemoteDialogQueuePriority::High,
    });
    assert_eq!(relay.trigger_source, DialogTriggerSource::RemoteRelay);
    assert_eq!(relay.queue_priority, DialogQueuePriority::High);

    let bot = core_dialog_submission_policy(RemoteDialogSubmissionPolicy {
        source: RemoteConnectSubmissionSource::Bot,
        queue_priority: RemoteDialogQueuePriority::Low,
    });
    assert_eq!(bot.trigger_source, DialogTriggerSource::Bot);
    assert_eq!(bot.queue_priority, DialogQueuePriority::Low);
}

#[test]
fn core_service_agent_runtime_owner_normalizes_remote_session_model_ids() {
    assert_eq!(normalize_remote_session_model_id(None), Some("primary".to_string()));
    assert_eq!(normalize_remote_session_model_id(Some("")), Some("primary".to_string()));
    assert_eq!(
        normalize_remote_session_model_id(Some("  default  ")),
        Some("primary".to_string())
    );
    assert_eq!(
        normalize_remote_session_model_id(Some(" model-1 ")),
        Some("model-1".to_string())
    );
}

#[test]
fn core_service_agent_runtime_owner_normalizes_remote_model_selection_aliases() {
    assert_eq!(normalize_remote_model_selection("default", None).unwrap(), "primary");
    assert_eq!(normalize_remote_model_selection("primary", None).unwrap(), "primary");
    assert_eq!(normalize_remote_model_selection("fast", None).unwrap(), "fast");
    assert_eq!(
        normalize_remote_model_selection("   ", None).unwrap_err(),
        "model_id is required"
    );
    assert_eq!(
        normalize_remote_model_selection("custom-alias", None).unwrap_err(),
        "Config service not available"
    );
}

#[test]
fn named_models_are_looked_up() {
    assert_eq!(
        normalize_remote_model_selection("alias", Some(Ok("model-7".to_string()))).unwrap(),
        "model-7"
    );
    assert!(model_update_needs_config("alias", None));
    assert!(!model_update_needs_config(" fast ", Some(None)));
    assert!(model_update_needs_config("fast", Some(Some("high"))));
    assert_eq!(concrete_model_lookup("primary"), ModelLookup::Primary);
    assert_eq!(concrete_model_lookup("fast"), ModelLookup::Fast);
    assert_eq!(concrete_model_lookup("m"), ModelLookup::Reference);
    let models = vec![
        ConfiguredModel { id: "m".to_string(), enabled: false },
        ConfiguredModel { id: "m".to_string(), enabled: true },
    ];
    assert_eq!(model_for_preset("m", &Some("m".to_string()), &models), Ok(1));
    assert_eq!(
        model_for_preset("m", &Some("n".to_string()), &models),
        Err("Model is unavailable: n".to_string())
    );
    assert_eq!(
        model_for_preset("m", &None, &models),
        Err("Cannot resolve a concrete model for reasoning preset: m".to_string())
    );
    assert_eq!(
        preset_unavailable_error("high", "m"),
        "Reasoning preset 'high' is not available for model 'm'"
    );
}

#[test]
fn presets_are_trimmed_and_auto_means_none() {
    assert_eq!(normalize_reasoning_preset(None), None);
    assert_eq!(normalize_reasoning_preset(Some(None)), Some(None));
    assert_eq!(normalize_reasoning_preset(Some(Some("  "))), Some(None));
    assert_eq!(normalize_reasoning_preset(Some(Some(" AuTo "))), Some(None));
    assert_eq!(
        normalize_reasoning_preset(Some(Some(" high "))),
        Some(Some("high".to_string()))
    );
}

#[test]
fn model_updates_are_reported_and_shared() {
    assert!(matches!(
        session_model_update("m", &None),
        SessionModelUpdate::Model { model_id } if model_id == "m"
    ));
    assert!(matches!(
        session_model_update("m", &Some(None)),
        SessionModelUpdate::Selection { model_id, reasoning_preset: None } if model_id == "m"
    ));
    let previous = Some("m".to_string());
    assert!(!becomes_mode_default(&previous, "m", Some(SessionKind::Standard)));
    assert!(becomes_mode_default(&previous, "n", Some(SessionKind::Standard)));
    assert!(!becomes_mode_default(&previous, "n", Some(SessionKind::Subagent)));
    assert!(!becomes_mode_default(&previous, "n", None));
    assert!(!becomes_mode_default(&None, "primary", Some(SessionKind::Standard)));
    for alias in ["default", "", " primary "] {
        let previous = Some(alias.to_string());
        assert!(!becomes_mode_default(&previous, "primary", Some(SessionKind::Standard)));
        assert!(becomes_mode_default(&previous, "fast", Some(SessionKind::Standard)));
    }
    let kept = reported_model_selection(
        Some((Some("x".to_string()), Some("low".to_string()))),
        "m".to_string(),
        Some(Some("high".to_string())),
    );
    assert_eq!((kept.model_id.as_str(), kept.reasoning_preset.as_deref()), ("x", Some("low")));
    for unset in [None, Some(" default ".to_string())] {
        let shown = reported_model_selection(Some((unset, None)), "m".to_string(), None);
        assert_eq!((shown.model_id.as_str(), shown.reasoning_preset), ("primary", None));
    }
    let gone =
        reported_model_selection(None, "m".to_string(), Some(Some("high".to_string())));
    assert_eq!((gone.model_id.as_str(), gone.reasoning_preset.as_deref()), ("m", Some("high")));
}

#[test]
fn slim_projection_keeps_the_identity_without_the_catalog_bodies() {
    let snapshot = || ProviderCatalog {
        revision: "builtin-1".to_string(),
        source: provider_catalog_source(ModelsDevSnapshotSource::Empty),
        providers: vec!["provider".to_string()],
    };
    let slim = remote_provider_catalog(snapshot(), false);
    let full = remote_provider_catalog(snapshot(), true);

    assert!(slim.providers.is_empty());
    assert_eq!(full.revision, slim.revision);
    assert_eq!(full.source, slim.source);
    assert_eq!(full.source, ProviderCatalogSource::OpenBitFun);
    assert!(!full.providers.is_empty());
    assert!(remote_models_dev_reasoning_catalog(Some(1u8), false).is_none());
    assert_eq!(remote_models_dev_reasoning_catalog(Some(1u8), true), Some(1));
    assert!(!includes_host_catalogs(ModelCatalogReader::Remote));
    assert!(includes_host_catalogs(ModelCatalogReader::Local));
    assert_eq!(
        reasoning_catalog_source(ModelsDevSnapshotSource::Bundled),
        ModelsDevCatalogSource::Bundle
    );
}

#[test]
fn models_are_shown_with_their_capabilities() {
    let facts = remote_model_facts(vec![ModelSettings {
        id: "m".to_string(),
        name: "Model".to_string(),
        provider: "p".to_string(),
        base_url: "https://example.invalid".to_string(),
        model_name: "model".to_string(),
        context_window: Some(8),
        enabled: true,
        capabilities: vec![ModelCapability::TextChat, ModelCapability::Search],
        reasoning: 3u8,
    }]);
    assert_eq!(facts.len(), 1);
    assert_eq!(
        facts[0].capabilities,
        vec![RemoteModelCapabilityFact::TextChat, RemoteModelCapabilityFact::Search]
    );
    assert_eq!(facts[0].reasoning, Some(3));
    assert_eq!(
        remote_model_capability_fact(ModelCapability::SpeechRecognition),
        RemoteModelCapabilityFact::SpeechRecognition
    );
}

#[test]
fn local_workspace_marker_is_not_remote_routing_authority() {
    let metadata = vec![
        field("connectionId", text("saved-localhost-ssh")),
        field("sshHost", text("localhost")),
    ];
    for kind in [WorkspaceKind::Normal, WorkspaceKind::Assistant] {
        assert_eq!(remote_workspace_metadata(kind, &metadata, "sshHost"), None);
        assert_eq!(remote_workspace_metadata(kind, &metadata, "connectionId"), None);
    }
    assert_eq!(
        remote_workspace_metadata(WorkspaceKind::Remote, &metadata, "sshHost"),
        Some("localhost".into())
    );
    assert_eq!(
        remote_workspace_metadata(WorkspaceKind::Remote, &metadata, "connectionId"),
        Some("saved-localhost-ssh".into())
    );
}

fn workspace(kind: WorkspaceKind, identity_name: Option<&str>) -> WorkspaceInfo {
    WorkspaceInfo {
        id: "w".to_string(),
        name: "Project".to_string(),
        root_path: "/w".to_string(),
        workspace_kind: kind,
        assistant_id: Some("a".to_string()),
        identity_name: identity_name.map(str::to_string),
        last_accessed: "2026-01-01T00:00:00+00:00".to_string(),
        metadata: vec![
            field("connectionId", text(" c ")),
            field("sshHost", JsonValue::Number(JsonNumber::Unsigned(1))),
        ],
    }
}

#[test]
fn workspaces_are_shown_by_their_names_and_routes() {
    assert_eq!(
        remote_workspace_display_name(&workspace(WorkspaceKind::Assistant, Some(" Ada "))),
        "Ada"
    );
    assert_eq!(
        remote_workspace_display_name(&workspace(WorkspaceKind::Assistant, Some("  "))),
        "Project"
    );
    assert_eq!(
        remote_workspace_display_name(&workspace(WorkspaceKind::Normal, Some("Ada"))),
        "Project"
    );
    let opened = remote_opened_workspace_catalog(&vec![workspace(
        WorkspaceKind::Assistant,
        Some("Ada"),
    )]);
    assert_eq!(opened[0].name, "Ada");
    assert_eq!(opened[0].remote_connection_id, None);
    let recent = recent_workspaces(&vec![workspace(WorkspaceKind::Remote, Some("Ada"))]);
    assert_eq!(recent[0].name, "Project");
    assert_eq!(recent[0].remote_connection_id.as_deref(), Some("c"));
    assert_eq!(recent[0].remote_ssh_host, None);
    assert_eq!(recent[0].kind, RemoteConnectWorkspaceKind::Remote);
    let facts = remote_workspace_facts_from_record(
        &workspace(WorkspaceKind::Remote, None),
        git_branch_from_output(&Some(" main\n".to_string())),
    );
    assert_eq!(facts.git_branch.as_deref(), Some("main"));
    assert_eq!(facts.assistant_id.as_deref(), Some("a"));
    assert_eq!(git_branch_from_output(&Some("HEAD\n".to_string())), None);
    assert_eq!(git_branch_from_output(&Some(" \n".to_string())), None);
    assert_eq!(git_branch_from_output(&None), None);
    let selected = selected_workspace_update(&workspace(WorkspaceKind::Normal, None));
    assert_eq!(selected.remote_connection_id, None);
    let opened = opened_workspace_update(
        &workspace(WorkspaceKind::Normal, None),
        Some("over".to_string()),
    );
    assert_eq!(opened.remote_connection_id.as_deref(), Some("over"));
    assert_eq!(
        assistant_workspaces(vec![workspace(WorkspaceKind::Assistant, None)])[0].workspace_id,
        "w"
    );
    assert!(check_assistant_workspace(WorkspaceKind::Assistant).is_ok());
    assert_eq!(
        check_assistant_workspace(WorkspaceKind::Normal).unwrap_err(),
        "Selected workspace is not an assistant workspace"
    );
    assert_eq!(
        remote_workspace_kind(WorkspaceKind::Assistant),
        RemoteConnectWorkspaceKind::Assistant
    );
}

#[test]
fn sessions_are_listed_by_workspace_id_only() {
    assert_eq!(require_workspace_id(&Some(" id ".to_string()), "/w").unwrap(), "id");
    for missing in [None, Some("  ".to_string())] {
        assert_eq!(
            require_workspace_id(&missing, "/w").unwrap_err(),
            "Workspace ID is required to list sessions for /w"
        );
    }
}

#[test]
fn file_requests_name_one_workspace() {
    assert!(matches!(
        scope_remote_file_target(Some("s"), Some("  "), None, Some("")),
        Ok(FileScope::Session { session_id: Some(s) }) if s == "s"
    ));
    for (id, path, connection) in
        [(Some("w"), None, None), (None, Some("/w"), None), (None, None, Some("c"))]
    {
        assert_eq!(
            scope_remote_file_target(Some("s"), id, path, connection).unwrap_err(),
            "Use either a session or an explicit file workspace"
        );
    }
    assert!(matches!(
        scope_remote_file_target(None, Some(" w "), Some("/ignored"), Some("c")),
        Ok(FileScope::WorkspaceId { workspace_id }) if workspace_id == "w"
    ));
    assert!(matches!(
        scope_remote_file_target(None, None, Some("/w"), None),
        Ok(FileScope::WorkspacePath { workspace_path, connection_id: None })
            if workspace_path == "/w"
    ));
    for path in [None, Some("  ")] {
        assert_eq!(
            scope_remote_file_target(None, None, path, None).unwrap_err(),
            "File workspace identity is required when no session is supplied"
        );
    }
}

#[test]
fn file_targets_name_their_machine() {
    let some = |s: &str| Some(s.to_string());
    assert!(check_workspace_path_connection(&None, &None).is_ok());
    assert_eq!(
        check_workspace_path_connection(&None, &some("c")).unwrap_err(),
        "Explicit file workspace provider does not match its connection identity"
    );
    assert!(check_saved_connection(&vec!["a".to_string(), "b".to_string()], "b").is_ok());
    assert_eq!(
        check_saved_connection(&Vec::new(), "b").unwrap_err(),
        "File workspace connection is not saved on this runtime"
    );
    assert_eq!(file_target_id(false, &some("c")).unwrap(), "local");
    assert_eq!(file_target_id(true, &some("c")).unwrap(), "c");
    assert_eq!(
        file_target_id(true, &None).unwrap_err(),
        "Remote file target has no connection identity"
    );
    assert_eq!(workspace_file_target_id(false, &some("c")).unwrap(), "c");
    assert_eq!(workspace_file_target_id(false, &None).unwrap(), "local");
    assert!(workspace_file_target_id(true, &None).is_err());
    assert!(check_selected_workspace(Some(RemoteConnectWorkspaceKind::Normal), false).is_ok());
    assert_eq!(
        check_selected_workspace(Some(RemoteConnectWorkspaceKind::Remote), false).unwrap_err(),
        "Remote workspace connection identity is unavailable"
    );
    assert_eq!(
        check_selected_workspace(None, true).unwrap_err(),
        "No workspace selected for file access"
    );
    assert_eq!(unresolved_workspace_error("w"), "File workspace w cannot be resolved");
}

#[test]
fn file_roots_are_local() {
    let session = |is_remote| {
        Some(FileRootSource::SessionWorkspace { root_path: "/s".to_string(), is_remote })
    };
    assert_eq!(remote_file_workspace_root(session(false)).as_deref(), Some("/s"));
    assert_eq!(remote_file_workspace_root(session(true)), None);
    let selected = |kind| {
        Some(FileRootSource::SelectedWorkspace { path: "/c".to_string(), kind })
    };
    assert_eq!(
        remote_file_workspace_root(selected(RemoteConnectWorkspaceKind::Normal)).as_deref(),
        Some("/c")
    );
    assert_eq!(remote_file_workspace_root(selected(RemoteConnectWorkspaceKind::Remote)), None);
    assert_eq!(remote_file_workspace_root(None), None);
}

fn chat_turn(status: TurnStatus, model_visible: bool) -> ChatSourceTurn<Vec<String>> {
    ChatSourceTurn {
        turn_id: "turn-1".to_string(),
        turn_index: 0,
        model_visible,
        user_message_id: "user-1".to_string(),
        user_timestamp: 1_000,
        user_content: "original question".to_string(),
        user_images: vec!["screenshot.png".to_string()],
        status,
        error: None,
        start_time: 1_000,
        rounds: vec![ModelRoundData {
            start_time: 1_100,
            end_time: Some(1_200),
            text_items: vec![
                TextItemData {
                    content: "hidden text".to_string(),
                    order_index: Some(1),
                    is_subagent_item: Some(true),
                },
                TextItemData {
                    content: "visible text".to_string(),
                    order_index: Some(1),
                    is_subagent_item: None,
                },
            ],
            thinking_items: vec![TextItemData {
                content: "visible thought".to_string(),
                order_index: Some(0),
                is_subagent_item: None,
            }],
            tool_items: vec![ToolItemData {
                id: "tool-1".to_string(),
                effective_name: "AskUserQuestion".to_string(),
                call_id: "call-1".to_string(),
                effective_input: JsonValue::Object(vec![field("question", text("confirm?"))]),
                result: None,
                status: Some("running".to_string()),
                duration_ms: Some(25),
                start_time: 1_130,
                order_index: Some(2),
                is_subagent_item: None,
            }],
        }],
    }
}

#[test]
fn chat_history_shows_turns_that_the_model_saw() {
    let mut failed = chat_turn(TurnStatus::Error, true);
    failed.error = Some("AI client could not reach the configured proxy".to_string());
    let turns = remote_chat_history_turns(vec![
        chat_turn(TurnStatus::Completed, true),
        chat_turn(TurnStatus::Completed, false),
        chat_turn(TurnStatus::InProgress, true),
        failed,
        chat_turn(TurnStatus::Cancelled, true),
    ]);
    let statuses: Vec<&str> = turns.iter().map(|turn| turn.status.as_str()).collect();
    assert_eq!(statuses, vec!["done", "active", "failed", "cancelled"]);
    assert!(turns[1].is_in_progress && !turns[0].is_in_progress);
    assert_eq!(
        turns[2].error.as_deref(),
        Some("AI client could not reach the configured proxy")
    );
    let round = &turns[0].rounds[0];
    assert_eq!(round.text_items[1].content, "visible text");
    assert!(round.text_items[0].is_subagent && !round.text_items[1].is_subagent);
    assert!(!round.thinking_items[0].is_subagent);
    assert_eq!(round.tool_items[0].name, "AskUserQuestion");
    assert!(!round.tool_items[0].has_result);
    assert_eq!(turns[0].user_images, vec!["screenshot.png".to_string()]);
}

#[test]
fn chat_images_are_read_within_bounds() {
    assert!(may_read_chat_image(true, true, MAX_REMOTE_CHAT_IMAGE_SOURCE_BYTES));
    assert!(!may_read_chat_image(true, true, MAX_REMOTE_CHAT_IMAGE_SOURCE_BYTES + 1));
    assert!(!may_read_chat_image(false, true, 1));
    assert!(!may_read_chat_image(true, false, 1));
    assert_eq!(MAX_REMOTE_CHAT_IMAGE_SOURCE_BYTES, 16 * 1024 * 1024);
}

#[test]
fn permission_modes_are_read_back() {
    for mode in
        [RemotePermissionMode::Ask, RemotePermissionMode::Auto, RemotePermissionMode::FullAccess]
    {
        let mut settings = ToolPermissionSettings {
            preset: PermissionPolicyPreset::FullAccess,
            auto_approve_ask: true,
        };
        set_permission_mode(&mut settings, mode);
        assert_eq!(permission_mode(settings), mode);
    }
    assert_eq!(
        permission_mode(ToolPermissionSettings {
            preset: PermissionPolicyPreset::FullAccess,
            auto_approve_ask: true
        }),
        RemotePermissionMode::FullAccess
    );
    assert!(matches!(confirm_tool_reply(None), PermissionReply::Once));
    assert!(matches!(
        confirm_tool_reply(Some(JsonValue::Null)),
        PermissionReply::OnceWithInput { updated_input: JsonValue::Null }
    ));
    assert!(matches!(
        reject_tool_reply("no".to_string()),
        PermissionReply::Reject { feedback: Some(reason) } if reason == "no"
    ));
}

#[test]
fn pending_permissions_belong_to_their_session() {
    let request = |session: &str, tool_call_id: Option<&str>| PendingPermission {
        request_id: "r".to_string(),
        session_id: session.to_string(),
        tool_call_id: tool_call_id.map(str::to_string),
        source_identity: "Bash".to_string(),
        action: text("execute"),
        resources: JsonValue::Array(vec![text("ls")]),
    };
    let shown = pending_permissions_of_session(
        vec![request("s", Some("t")), request("other", Some("u")), request("s", None)],
        "s",
    );
    assert_eq!(shown.len(), 2);
    assert_eq!((shown[0].tool_id.as_str(), shown[1].tool_id.as_str()), ("t", "r"));
    assert_eq!(shown[0].tool_name, "Bash");
    assert_eq!(
        shown[0].tool_input.get("action").and_then(JsonValue::as_str),
        Some("execute")
    );
    assert!(matches!(
        shown[0].tool_input.get("resources"),
        Some(JsonValue::Array(items)) if items.len() == 1
    ));
}

#[test]
fn remote_submissions_carry_their_workspace() {
    let binding = remote_dialog_workspace_binding(
        Some("w".to_string()),
        "/w".to_string(),
        Some("c".to_string()),
        true,
        "host".to_string(),
    );
    assert_eq!(binding.remote_ssh_host.as_deref(), Some("host"));
    let submission = |binding_workspace| RemoteDialogSubmission {
        session_id: "s".to_string(),
        content: "hello".to_string(),
        display_content: None,
        turn_id: "t".to_string(),
        agent_type: "a".to_string(),
        policy: RemoteDialogSubmissionPolicy {
            source: RemoteConnectSubmissionSource::Bot,
            queue_priority: RemoteDialogQueuePriority::Normal,
        },
        binding_workspace,
        attachments: vec![1u8],
    };
    let request = remote_dialog_turn_request(submission(Some(binding)));
    assert_eq!(request.workspace_path.as_deref(), Some("/w"));
    assert_eq!(request.remote_connection_id.as_deref(), Some("c"));
    assert_eq!(request.policy.queue_priority, DialogQueuePriority::Normal);
    assert_eq!(request.turn_id.as_deref(), Some("t"));
    assert!(remote_dialog_turn_request(submission(None)).workspace_path.is_none());
    let blank = remote_dialog_workspace_binding(
        None,
        "/w".to_string(),
        None,
        true,
        " ".to_string(),
    );
    assert_eq!(blank.remote_ssh_host, None);
    let rollback =
        remote_rollback_request("/w".to_string(), None, "h".to_string(), "s", "t", Some(3));
    assert!(rollback.require_idle);
    assert_eq!(rollback.expected_storage_turn_index, Some(3));
    assert!(matches!(
        remote_dialog_scheduler_outcome_fact(DialogSubmitOutcome::Queued {
            session_id: "s".to_string(),
            turn_id: "t".to_string()
        }),
        RemoteDialogSchedulerOutcomeFact::Queued { .. }
    ));
}

#[test]
fn remote_images_travel_unchanged() {
    let image = ImageContextData {
        id: "ctx-1".to_string(),
        image_path: Some("/workspace/clip.png".to_string()),
        data_url: Some("data:image/png;base64,abc".to_string()),
        mime_type: "image/png".to_string(),
        metadata: Some(JsonValue::Object(vec![field("name", text("clip.png"))])),
    };
    let back = image_context_from_remote_image_context(remote_image_context_from_image_context(
        image,
    ));
    assert_eq!(back.id, "ctx-1");
    assert_eq!(back.image_path.as_deref(), Some("/workspace/clip.png"));
    assert_eq!(back.data_url.as_deref(), Some("data:image/png;base64,abc"));
    assert_eq!(back.mime_type, "image/png");
    assert_eq!(
        back.metadata.as_ref().and_then(|value| value.get("name")).and_then(JsonValue::as_str),
        Some("clip.png")
    );
}

#[test]
fn terminals_are_named_after_their_session() {
    assert_eq!(remote_terminal_name("0123456789"), "Chat-01234567");
    assert_eq!(remote_terminal_name("abc"), "Chat-abc");
    assert!(prewarms_terminal(true, false, false));
    assert!(!prewarms_terminal(true, true, false));
    assert!(!prewarms_terminal(true, false, true));
    assert!(!prewarms_terminal(false, false, false));
    assert_eq!(remote_tracker_subscription_id("s"), "remote_tracker_s");
}

#[test]
fn active_turns_are_those_of_processing_sessions() {
    let processing = SessionState::Processing { current_turn_id: "t".to_string() };
    assert_eq!(active_turn_id(&processing).as_deref(), Some("t"));
    assert_eq!(active_turn_id(&SessionState::Idle), None);
}

#[test]
fn modes_are_listed_with_their_source() {
    let modes = agent_mode_catalog(vec![AgentModeInfo {
        id: "m".to_string(),
        key: "k".to_string(),
        description: "d".to_string(),
        model: None,
        source: AgentSource::External,
    }]);
    assert!(modes[0].is_external);
    assert_eq!(modes[0].route_key, "k");
    assert!(lists_external_modes(true, Some(false)));
    assert!(!lists_external_modes(true, Some(true)));
    assert!(!lists_external_modes(true, None));
    assert!(!lists_external_modes(false, Some(false)));
}

#[test]
fn sdk_profile_keeps_attached_sessions_loaded_until_the_host_releases_them() {
    let timeout = |profile| {
        let span = session_manager_config_for_profile(profile).session_idle_timeout;
        std::time::Duration::new(span.secs, span.nanos)
    };
    assert_eq!(timeout(DeliveryProfile::Sdk), std::time::Duration::MAX);
    assert_eq!(timeout(DeliveryProfile::ProductFull), std::time::Duration::from_secs(3600));
}

#[test]
fn the_system_comes_up_step_by_step() {
    let mut step = SystemInitStep::SelectAgentProfile;
    let mut seen = vec![step];
    while step != SystemInitStep::Ready {
        step = next_system_init_step(step, true);
        seen.push(step);
    }
    assert_eq!(seen.len(), 17);
    assert!(
        position(&seen, SystemInitStep::FindPermissionManager)
            < position(&seen, SystemInitStep::PublishCoordinator)
    );
    assert_eq!(
        next_system_init_step(SystemInitStep::CreateTokenUsage, false),
        SystemInitStep::Fail
    );
    assert_eq!(next_router_step(RouterReceipt::Event), RouterStep::Route);
    assert_eq!(next_router_step(RouterReceipt::Lagged), RouterStep::Continue);
    assert_eq!(next_router_step(RouterReceipt::Closed), RouterStep::Stop);
    let system = AgenticSystem {
        coordinator: std::sync::Arc::new(1u8),
        event_queue: std::sync::Arc::new(2u8),
        token_usage_service: std::sync::Arc::new(3u8),
    };
    let shared = system.clone();
    assert!(std::sync::Arc::ptr_eq(&system.coordinator, &shared.coordinator));
}

#[test]
fn model_changes_check_the_model_before_the_session() {
    let facts = model_update_facts("alias", Some(Some(" high ")));
    assert!(facts.needs_config && facts.names_preset && facts.wants_preset);
    let mut step = first_model_update_step(facts);
    let mut seen = vec![step];
    while step != ModelUpdateStep::Report {
        let event = match step {
            ModelUpdateStep::UpdateModel | ModelUpdateStep::UpdateSelection => {
                ModelUpdateEvent::Updated { becomes_default: true }
            }
            _ => ModelUpdateEvent::Done,
        };
        step = next_model_update_step(facts, step, event);
        seen.push(step);
    }
    assert_eq!(
        seen,
        vec![
            ModelUpdateStep::ReadConfig,
            ModelUpdateStep::NormalizeSelection,
            ModelUpdateStep::ResolvePresetModel,
            ModelUpdateStep::CheckPreset,
            ModelUpdateStep::AdmitSession,
            ModelUpdateStep::UpdateSelection,
            ModelUpdateStep::PersistModeDefault,
            ModelUpdateStep::Report,
        ]
    );
    let plain = model_update_facts("fast", None);
    assert_eq!(first_model_update_step(plain), ModelUpdateStep::NormalizeSelection);
    assert_eq!(
        next_model_update_step(plain, ModelUpdateStep::AdmitSession, ModelUpdateEvent::Done),
        ModelUpdateStep::UpdateModel
    );
    let cleared = model_update_facts("fast", Some(Some("auto")));
    assert!(cleared.names_preset && !cleared.wants_preset);
    assert_eq!(
        next_model_update_step(cleared, ModelUpdateStep::CheckPreset, ModelUpdateEvent::Failed),
        ModelUpdateStep::Fail
    );
}

#[test]
fn requests_name_their_workspace_and_source() {
    let local = ownership_reference(None, "/w".to_string(), None, false, "h".to_string());
    assert_eq!(local.remote_ssh_host, None);
    let remote = ownership_reference(
        Some("w".to_string()),
        "/w".to_string(),
        Some("c".to_string()),
        true,
        "h".to_string(),
    );
    assert_eq!(remote.remote_ssh_host.as_deref(), Some("h"));
    let cancel = remote_cancellation_request("s", "t");
    assert!(cancel.cancel_descendants);
    assert_eq!(cancel.turn_id.as_deref(), Some("t"));
    assert_eq!(require_history_workspace_id(Some("w".to_string())).unwrap(), "w");
    assert_eq!(
        require_history_workspace_id(None).unwrap_err().message,
        "Workspace ID is required"
    );
}

#[test]
fn file_targets_follow_their_scope() {
    let some = |s: &str| Some(s.to_string());
    let by_id = FileScope::WorkspaceId { workspace_id: "w".to_string() };
    assert_eq!(file_target_identity(&by_id, &some("c"), false).unwrap(), "c");
    assert_eq!(file_target_identity(&by_id, &some("c"), true).unwrap(), "c");
    assert_eq!(file_target_identity(&by_id, &None, false).unwrap(), "local");
    assert_eq!(
        file_target_identity(&by_id, &None, true).unwrap_err(),
        "Remote file target has no connection identity"
    );
    let by_path = FileScope::WorkspacePath {
        workspace_path: "/w".to_string(),
        connection_id: some("c"),
    };
    assert_eq!(file_target_identity(&by_path, &some("c"), true).unwrap(), "c");
    assert_eq!(file_target_identity(&by_path, &some("c"), false).unwrap(), "local");
    assert_eq!(
        file_target_identity(&by_path, &None, false).unwrap_err(),
        "Explicit file workspace provider does not match its connection identity"
    );
    let session = FileScope::Session { session_id: None };
    assert_eq!(file_target_identity(&session, &None, false).unwrap(), "local");
    assert_eq!(file_target_identity(&session, &some("c"), true).unwrap(), "c");
}

#[test]
fn a_workspace_id_makes_path_and_connection_irrelevant() {
    for (path, connection) in
        [(None, None), (Some("/stale"), None), (None, Some("stale")), (Some("/s"), Some("stale"))]
    {
        let scope = scope_remote_file_target(None, Some("w"), path, connection).unwrap();
        assert_eq!(file_target_identity(&scope, &None, false).unwrap(), "local");
        assert_eq!(
            file_target_identity(&scope, &Some("saved".to_string()), true).unwrap(),
            "saved"
        );
    }
}

#[test]
fn core_service_agent_runtime_owner_preserves_remote_chat_history_shape() {
    let turn = remote_chat_history_turn_from_core_turn(chat_turn(TurnStatus::Completed, true));

    assert_eq!(turn.user_display_content, "original question");
    assert_eq!(turn.user_images[0], "screenshot.png");
    assert_eq!(turn.status, "done");
    assert_eq!(turn.rounds.len(), 1);
    let round = &turn.rounds[0];
    assert_eq!(
        (round.thinking_items.len(), round.text_items.len(), round.tool_items.len()),
        (1, 2, 1)
    );
    assert_eq!(round.thinking_items[0].content, "visible thought");
    assert_eq!(round.thinking_items[0].order_index, Some(0));
    let visible: Vec<&str> = round
        .text_items
        .iter()
        .filter(|item| !item.is_subagent)
        .map(|item| item.content.as_str())
        .collect();
    assert_eq!(visible, vec!["visible text"]);
    assert_eq!(round.tool_items[0].name, "AskUserQuestion");
    assert_eq!(round.tool_items[0].order_index, Some(2));
}

#[test]
fn core_service_agent_runtime_owner_preserves_in_progress_remote_assistant_history() {
    let turn = remote_chat_history_turn_from_core_turn(chat_turn(TurnStatus::InProgress, true));

    assert!(turn.is_in_progress);
    assert_eq!(turn.status, "active");
    let round = &turn.rounds[0];
    assert_eq!(round.text_items[1].content, "visible text");
    assert_eq!(round.tool_items[0].status.as_deref(), Some("running"));
}

#[test]
fn core_service_agent_runtime_owner_preserves_failed_remote_turn_error() {
    let mut turn = chat_turn(TurnStatus::Error, true);
    turn.error = Some("AI client could not reach the configured proxy".to_string());

    let turn = remote_chat_history_turn_from_core_turn(turn);

    assert_eq!(turn.turn_id, "turn-1");
    assert_eq!(turn.status, "failed");
    assert_eq!(
        turn.error.as_deref(),
        Some("AI client could not reach the configured proxy")
    );
}

#[test]
fn core_service_agent_runtime_owner_maps_image_context_to_lifecycle_attachment() {
    let context = remote_image_context_from_image_context(ImageContextData {
        id: "ctx-1".to_string(),
        image_path: Some("/workspace/clip.png".to_string()),
        data_url: Some("data:image/png;base64,abc".to_string()),
        mime_type: "image/png".to_string(),
        metadata: Some(JsonValue::Object(vec![field("name", text("clip.png"))])),
    });

    assert_eq!(context.id, "ctx-1");
    assert_eq!(context.image_path.as_deref(), Some("/workspace/clip.png"));
    assert_eq!(context.data_url.as_deref(), Some("data:image/png;base64,abc"));
    assert_eq!(context.mime_type, "image/png");
    assert_eq!(
        context.metadata.as_ref().and_then(|value| value.get("name")).and_then(JsonValue::as_str),
        Some("clip.png")
    );
}

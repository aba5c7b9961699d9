//! Requests of remote clients: in what order they are admitted, and how their
//! settings and ours are told apart.

use vstd::prelude::*;
use vstd::string::StringSliceAdditionalSpecFns;
use vstd::utf8::{encode_utf8, is_char_boundary};

use crate::digest::{is_hyphenated_uuid, random_hyphenated_uuid};
use crate::json::{
    field_models, lemma_field_position, lemma_json_model, JsonField, JsonModel, JsonValue,
};
use crate::messages::ImageContextData;
use crate::text::{joined, same_text, trim, trimmed};
use crate::turn::text_option;

verus! {

/// What a remote client asks of a session.
#[derive(Debug, Clone, Copy, PartialEq, Eq, Structural)]
pub enum RemoteSessionOperation {
    EnsureLoaded,
    UpdateModel,
    RestoreForCancel,
    Rollback,
    Delete,
}

/// A step of a remote client's request, or its end.
#[derive(Debug, Clone, Copy, PartialEq, Eq, Structural)]
pub enum RemoteSessionStep {
    ResolveBinding,
    EnsureRuntimeOwnership,
    FindLoadedSession,
    RestoreForBinding,
    Perform,
    Finished,
    /// The session's workspace is not known.
    FailWithoutBinding,
    /// History is not changed in remote workspaces.
    RefuseRemote,
    /// The step failed with its own error.
    FailWithStepError,
}

/// What a step of a remote client's request came to.
#[derive(Debug, Clone, Copy, PartialEq, Eq, Structural)]
pub enum RemoteSessionEvent {
    Binding { found: bool, remote: bool },
    Done,
    Failed,
    Loaded { loaded: bool },
}

/// Whether an event can come of a step.
pub open spec fn remote_comes_of(step: RemoteSessionStep, event: RemoteSessionEvent) -> bool {
    match event {
        RemoteSessionEvent::Binding { found, remote } => step is ResolveBinding,
        RemoteSessionEvent::Loaded { loaded } => step is FindLoadedSession,
        RemoteSessionEvent::Done | RemoteSessionEvent::Failed => step is EnsureRuntimeOwnership
            || step is RestoreForBinding || step is Perform,
    }
}

/// What follows once this runtime owns the session's workspace.
pub open spec fn after_ownership(operation: RemoteSessionOperation) -> RemoteSessionStep {
    match operation {
        RemoteSessionOperation::EnsureLoaded
        | RemoteSessionOperation::UpdateModel => RemoteSessionStep::FindLoadedSession,
        RemoteSessionOperation::RestoreForCancel => RemoteSessionStep::RestoreForBinding,
        RemoteSessionOperation::Rollback
        | RemoteSessionOperation::Delete => RemoteSessionStep::Perform,
    }
}

/// What follows once the session is loaded.
pub open spec fn after_loading(operation: RemoteSessionOperation) -> RemoteSessionStep {
    if operation is UpdateModel {
        RemoteSessionStep::Perform
    } else {
        RemoteSessionStep::Finished
    }
}

/// What follows a step of a remote client's request.
pub open spec fn remote_session_step(
    operation: RemoteSessionOperation,
    step: RemoteSessionStep,
    event: RemoteSessionEvent,
) -> RemoteSessionStep {
    match event {
        RemoteSessionEvent::Binding { found, remote } => if !found {
            RemoteSessionStep::FailWithoutBinding
        } else if remote && operation is Rollback {
            RemoteSessionStep::RefuseRemote
        } else {
            RemoteSessionStep::EnsureRuntimeOwnership
        },
        RemoteSessionEvent::Failed => RemoteSessionStep::FailWithStepError,
        RemoteSessionEvent::Loaded { loaded } => if loaded {
            after_loading(operation)
        } else {
            RemoteSessionStep::RestoreForBinding
        },
        RemoteSessionEvent::Done => match step {
            RemoteSessionStep::EnsureRuntimeOwnership => after_ownership(operation),
            RemoteSessionStep::RestoreForBinding => after_loading(operation),
            _ => RemoteSessionStep::Finished,
        },
    }
}

/// Goes on with a remote client's request.
pub fn next_remote_session_step(
    operation: RemoteSessionOperation,
    step: RemoteSessionStep,
    event: RemoteSessionEvent,
) -> (r: RemoteSessionStep)
    requires
        remote_comes_of(step, event),
    ensures
        r == remote_session_step(operation, step, event),
{
    let loaded_next = match operation {
        RemoteSessionOperation::UpdateModel => RemoteSessionStep::Perform,
        _ => RemoteSessionStep::Finished,
    };
    match event {
        RemoteSessionEvent::Binding { found, remote } => if !found {
            RemoteSessionStep::FailWithoutBinding
        } else if remote && operation == RemoteSessionOperation::Rollback {
            RemoteSessionStep::RefuseRemote
        } else {
            RemoteSessionStep::EnsureRuntimeOwnership
        },
        RemoteSessionEvent::Failed => RemoteSessionStep::FailWithStepError,
        RemoteSessionEvent::Loaded { loaded } => if loaded {
            loaded_next
        } else {
            RemoteSessionStep::RestoreForBinding
        },
        RemoteSessionEvent::Done => match step {
            RemoteSessionStep::EnsureRuntimeOwnership => match operation {
                RemoteSessionOperation::EnsureLoaded
                | RemoteSessionOperation::UpdateModel => RemoteSessionStep::FindLoadedSession,
                RemoteSessionOperation::RestoreForCancel => RemoteSessionStep::RestoreForBinding,
                RemoteSessionOperation::Rollback
                | RemoteSessionOperation::Delete => RemoteSessionStep::Perform,
            },
            RemoteSessionStep::RestoreForBinding => loaded_next,
            _ => RemoteSessionStep::Finished,
        },
    }
}

/// Whether one step may follow another.
pub open spec fn remote_follows(
    operation: RemoteSessionOperation,
    step: RemoteSessionStep,
    next: RemoteSessionStep,
) -> bool {
    exists|event: RemoteSessionEvent|
        #[trigger] remote_comes_of(step, event) && remote_session_step(operation, step, event)
            == next
}

/// Whether these are the steps of a request from its beginning.
pub open spec fn is_remote_run(
    operation: RemoteSessionOperation,
    run: Seq<RemoteSessionStep>,
) -> bool {
    &&& run.len() > 0
    &&& run[0] is ResolveBinding
    &&& forall|i: int|
        0 <= i < run.len() - 1 ==> #[trigger] remote_follows(operation, run[i], run[i + 1])
}

/// Whether a step looks at, restores or changes the session itself.
pub open spec fn touches_session(step: RemoteSessionStep) -> bool {
    step is FindLoadedSession || step is RestoreForBinding || step is Perform
}

/// No request touches a session before this runtime owns the session's
/// workspace.
pub proof fn ownership_precedes_every_touch(
    operation: RemoteSessionOperation,
    run: Seq<RemoteSessionStep>,
    i: int,
)
    requires
        is_remote_run(operation, run),
        0 <= i < run.len(),
        touches_session(run[i]),
    ensures
        exists|j: int| 0 <= j < i && #[trigger] run[j] == RemoteSessionStep::EnsureRuntimeOwnership,
    decreases i,
{
    if i > 0 {
        assert(remote_follows(operation, run[i - 1], run[i - 1 + 1]));
        if touches_session(run[i - 1]) {
            ownership_precedes_every_touch(operation, run, i - 1);
            let j = choose|j: int|
                0 <= j < i - 1 && #[trigger] run[j] == RemoteSessionStep::EnsureRuntimeOwnership;
            assert(run[j] == RemoteSessionStep::EnsureRuntimeOwnership);
        } else {
            assert(run[i - 1] == RemoteSessionStep::EnsureRuntimeOwnership);
        }
    }
}

/// The error for a session whose workspace is not known.
pub fn binding_unavailable_error(session_id: &str) -> (r: String)
    ensures
        r@ == "Session workspace binding not available for session: "@ + session_id@,
{
    joined("Session workspace binding not available for session: ", session_id)
}

/// The workspace that a session is bound to.
#[derive(Debug)]
pub struct RemoteDialogWorkspaceBinding {
    pub workspace_id: Option<String>,
    pub workspace_path: String,
    pub remote_connection_id: Option<String>,
    pub remote_ssh_host: Option<String>,
}

/// The workspace that a session is bound to, as remote clients know it: only a
/// remote one has a host, and a blank host is none.
pub fn remote_dialog_workspace_binding(
    workspace_id: Option<String>,
    workspace_path: String,
    connection_id: Option<String>,
    is_remote: bool,
    hostname: String,
) -> (r: RemoteDialogWorkspaceBinding)
    ensures
        r.workspace_id == workspace_id,
        r.workspace_path == workspace_path,
        r.remote_connection_id == connection_id,
        r.remote_ssh_host == (if is_remote && trimmed(hostname@).len() > 0 {
            Some(hostname)
        } else {
            None
        }),
{
    let remote_ssh_host = if is_remote && !trim(hostname.as_str()).as_str().is_empty() {
        Some(hostname)
    } else {
        None
    };
    RemoteDialogWorkspaceBinding {
        workspace_id,
        workspace_path,
        remote_connection_id: connection_id,
        remote_ssh_host,
    }
}

/// Where a remote submission comes from.
#[derive(Debug, Clone, Copy, PartialEq, Eq, Structural)]
pub enum RemoteConnectSubmissionSource {
    Relay,
    Bot,
}

/// How urgent a remote submission is.
#[derive(Debug, Clone, Copy, PartialEq, Eq, Structural)]
pub enum RemoteDialogQueuePriority {
    Low,
    Normal,
    High,
}

/// How a remote submission is to be treated.
#[derive(Debug, Clone, Copy, PartialEq, Eq, Structural)]
pub struct RemoteDialogSubmissionPolicy {
    pub source: RemoteConnectSubmissionSource,
    pub queue_priority: RemoteDialogQueuePriority,
}

/// What started a dialog turn.
#[derive(Debug, Clone, Copy, PartialEq, Eq, Structural)]
pub enum DialogTriggerSource {
    RemoteRelay,
    Bot,
}

/// The place of a dialog turn in its queue.
#[derive(Debug, Clone, Copy, PartialEq, Eq, Structural)]
pub enum DialogQueuePriority {
    Low,
    Normal,
    High,
}

/// How a dialog turn is to be treated.
#[derive(Debug, Clone, Copy, PartialEq, Eq, Structural)]
pub struct DialogSubmissionPolicy {
    pub trigger_source: DialogTriggerSource,
    pub queue_priority: DialogQueuePriority,
}

/// How the dialog turn of a remote submission is to be treated.
pub fn core_dialog_submission_policy(policy: RemoteDialogSubmissionPolicy) -> (r:
    DialogSubmissionPolicy)
    ensures
        r.trigger_source == (match policy.source {
            RemoteConnectSubmissionSource::Relay => DialogTriggerSource::RemoteRelay,
            RemoteConnectSubmissionSource::Bot => DialogTriggerSource::Bot,
        }),
        r.queue_priority == (match policy.queue_priority {
            RemoteDialogQueuePriority::Low => DialogQueuePriority::Low,
            RemoteDialogQueuePriority::Normal => DialogQueuePriority::Normal,
            RemoteDialogQueuePriority::High => DialogQueuePriority::High,
        }),
{
    let trigger_source = match policy.source {
        RemoteConnectSubmissionSource::Relay => DialogTriggerSource::RemoteRelay,
        RemoteConnectSubmissionSource::Bot => DialogTriggerSource::Bot,
    };
    let queue_priority = match policy.queue_priority {
        RemoteDialogQueuePriority::Low => DialogQueuePriority::Low,
        RemoteDialogQueuePriority::Normal => DialogQueuePriority::Normal,
        RemoteDialogQueuePriority::High => DialogQueuePriority::High,
    };
    DialogSubmissionPolicy { trigger_source, queue_priority }
}

/// What became of a submitted dialog turn.
#[derive(Debug)]
pub enum DialogSubmitOutcome {
    Started { session_id: String, turn_id: String },
    Queued { session_id: String, turn_id: String },
}

/// The same as remote clients know it.
#[derive(Debug)]
pub enum RemoteDialogSchedulerOutcomeFact {
    Started { session_id: String, turn_id: String },
    Queued { session_id: String, turn_id: String },
}

/// What became of a submitted dialog turn, for remote clients.
pub fn remote_dialog_scheduler_outcome_fact(outcome: DialogSubmitOutcome) -> (r:
    RemoteDialogSchedulerOutcomeFact)
    ensures
        r == (match outcome {
            DialogSubmitOutcome::Started {
                session_id,
                turn_id,
            } => RemoteDialogSchedulerOutcomeFact::Started { session_id, turn_id },
            DialogSubmitOutcome::Queued {
                session_id,
                turn_id,
            } => RemoteDialogSchedulerOutcomeFact::Queued { session_id, turn_id },
        }),
{
    match outcome {
        DialogSubmitOutcome::Started {
            session_id,
            turn_id,
        } => RemoteDialogSchedulerOutcomeFact::Started { session_id, turn_id },
        DialogSubmitOutcome::Queued {
            session_id,
            turn_id,
        } => RemoteDialogSchedulerOutcomeFact::Queued { session_id, turn_id },
    }
}

/// An image as remote clients send it.
#[derive(Debug)]
pub struct RemoteImageContext {
    pub id: String,
    pub image_path: Option<String>,
    pub data_url: Option<String>,
    pub mime_type: String,
    pub metadata: Option<JsonValue>,
}

/// An image for remote clients.
pub fn remote_image_context_from_image_context(context: ImageContextData) -> (r: RemoteImageContext)
    ensures
        r.id == context.id,
        r.image_path == context.image_path,
        r.data_url == context.data_url,
        r.mime_type == context.mime_type,
        r.metadata == context.metadata,
{
    RemoteImageContext {
        id: context.id,
        image_path: context.image_path,
        data_url: context.data_url,
        mime_type: context.mime_type,
        metadata: context.metadata,
    }
}

/// An image from remote clients.
pub fn image_context_from_remote_image_context(context: RemoteImageContext) -> (r: ImageContextData)
    ensures
        r.id == context.id,
        r.image_path == context.image_path,
        r.data_url == context.data_url,
        r.mime_type == context.mime_type,
        r.metadata == context.metadata,
{
    ImageContextData {
        id: context.id,
        image_path: context.image_path,
        data_url: context.data_url,
        mime_type: context.mime_type,
        metadata: context.metadata,
    }
}

/// The id of a turn that a remote client starts.
pub open spec fn turn_id_of(identifier: Seq<char>) -> Seq<char> {
    "turn_"@ + identifier
}

/// The id of a turn with this identifier.
pub fn remote_turn_id(identifier: &str) -> (r: String)
    ensures
        r@ == turn_id_of(identifier@),
{
    joined("turn_", identifier)
}

/// A fresh id for a turn that a remote client starts.
pub fn generate_remote_turn_id() -> (r: String)
    ensures
        exists|identifier: Seq<char>|
            #[trigger] is_hyphenated_uuid(identifier) && r@ == turn_id_of(identifier),
{
    let identifier = random_hyphenated_uuid();
    remote_turn_id(identifier.as_str())
}

/// Different identifiers give different turn ids.
pub proof fn turn_ids_differ_with_their_identifiers(a: Seq<char>, b: Seq<char>)
    requires
        a != b,
    ensures
        turn_id_of(a) != turn_id_of(b),
{
    let p = "turn_"@;
    if turn_id_of(a) == turn_id_of(b) {
        assert(a =~= (p + a).skip(p.len() as int));
        assert(b =~= (p + b).skip(p.len() as int));
    }
}

/// The number of bytes of a session id that go into the name of its terminal.
pub open spec fn terminal_name_bytes(session_id: &str) -> int {
    if session_id.spec_bytes().len() < 8 {
        session_id.spec_bytes().len() as int
    } else {
        8
    }
}

/// The name of the terminal of a chat session: the first eight bytes of its id,
/// which have to be whole characters.
pub fn remote_terminal_name(session_id: &str) -> (r: String)
    requires
        is_char_boundary(session_id.spec_bytes(), terminal_name_bytes(session_id)),
    ensures
        exists|head: Seq<char>|
            #[trigger] encode_utf8(head) == session_id.spec_bytes().subrange(
                0,
                terminal_name_bytes(session_id),
            ) && r@ == "Chat-"@ + head,
{
    let bytes: &[u8] = session_id.as_bytes();
    let end: usize = if bytes.len() < 8 {
        bytes.len()
    } else {
        8
    };
    let (head, _) = session_id.split_at(end);
    assert(encode_utf8(head@) == session_id.spec_bytes().subrange(
        0,
        terminal_name_bytes(session_id),
    ));
    joined("Chat-", head)
}

/// Whether a terminal is prepared for a remote client's session: only for one
/// that is loaded, is on this machine and has none.
pub fn prewarms_terminal(is_loaded: bool, is_remote_workspace: bool, has_terminal: bool) -> (r:
    bool)
    ensures
        r == (is_loaded && !is_remote_workspace && !has_terminal),
{
    is_loaded && !is_remote_workspace && !has_terminal
}

/// What tools may do without asking, as remote clients know it.
#[derive(Debug, Clone, Copy, PartialEq, Eq, Structural)]
pub enum RemotePermissionMode {
    Ask,
    Auto,
    FullAccess,
}

/// The preset of the permission policy.
#[derive(Debug, Clone, Copy, PartialEq, Eq, Structural)]
pub enum PermissionPolicyPreset {
    Ask,
    FullAccess,
}

/// What tools may do without asking, as it is configured.
#[derive(Debug, Clone, Copy, PartialEq, Eq, Structural)]
pub struct ToolPermissionSettings {
    pub preset: PermissionPolicyPreset,
    pub auto_approve_ask: bool,
}

/// The mode that settings amount to.
pub open spec fn mode_of(settings: ToolPermissionSettings) -> RemotePermissionMode {
    match settings.preset {
        PermissionPolicyPreset::FullAccess => RemotePermissionMode::FullAccess,
        PermissionPolicyPreset::Ask => if settings.auto_approve_ask {
            RemotePermissionMode::Auto
        } else {
            RemotePermissionMode::Ask
        },
    }
}

/// The settings of a mode.
pub open spec fn settings_of(mode: RemotePermissionMode) -> ToolPermissionSettings {
    ToolPermissionSettings {
        preset: if mode is FullAccess {
            PermissionPolicyPreset::FullAccess
        } else {
            PermissionPolicyPreset::Ask
        },
        auto_approve_ask: mode is Auto,
    }
}

/// The mode that settings amount to.
pub fn permission_mode(settings: ToolPermissionSettings) -> (r: RemotePermissionMode)
    ensures
        r == mode_of(settings),
{
    match settings.preset {
        PermissionPolicyPreset::FullAccess => RemotePermissionMode::FullAccess,
        PermissionPolicyPreset::Ask => if settings.auto_approve_ask {
            RemotePermissionMode::Auto
        } else {
            RemotePermissionMode::Ask
        },
    }
}

/// Sets the settings to a mode.
pub fn set_permission_mode(settings: &mut ToolPermissionSettings, mode: RemotePermissionMode)
    ensures
        *final(settings) == settings_of(mode),
{
    match mode {
        RemotePermissionMode::Ask => {
            settings.preset = PermissionPolicyPreset::Ask;
            settings.auto_approve_ask = false;
        },
        RemotePermissionMode::Auto => {
            settings.preset = PermissionPolicyPreset::Ask;
            settings.auto_approve_ask = true;
        },
        RemotePermissionMode::FullAccess => {
            settings.preset = PermissionPolicyPreset::FullAccess;
            settings.auto_approve_ask = false;
        },
    }
}

/// The mode that was set is the mode that is read.
pub proof fn permission_mode_reads_what_was_set(mode: RemotePermissionMode)
    ensures
        mode_of(settings_of(mode)) == mode,
{
}

/// A permission that a tool waits for.
#[derive(Debug)]
pub struct PendingPermission {
    pub request_id: String,
    pub session_id: String,
    pub tool_call_id: Option<String>,
    pub source_identity: String,
    pub action: JsonValue,
    pub resources: JsonValue,
}

/// What remote clients see of a permission that a tool waits for.
#[derive(Debug)]
pub struct PendingPermissionView {
    pub tool_id: String,
    pub tool_name: String,
    pub tool_input: JsonValue,
}

/// The id under which a pending permission is shown: that of the tool call, or
/// of the request.
pub open spec fn shown_tool_id(request: PendingPermission) -> Seq<char> {
    match request.tool_call_id {
        Some(id) => id@,
        None => request.request_id@,
    }
}

/// Whether a view shows a pending permission.
pub open spec fn shows_permission(view: PendingPermissionView, request: PendingPermission) -> bool {
    &&& view.tool_id@ == shown_tool_id(request)
    &&& view.tool_name == request.source_identity
    &&& view.tool_input@ == JsonModel::Object(
        seq![("action"@, request.action@), ("resources"@, request.resources@)],
    )
}

/// The pending permissions of a session.
pub open spec fn permissions_of(requests: Seq<PendingPermission>, session_id: Seq<char>) -> Seq<
    PendingPermission,
>
    decreases requests.len(),
{
    if requests.len() == 0 {
        Seq::empty()
    } else if requests.last().session_id@ == session_id {
        permissions_of(requests.drop_last(), session_id).push(requests.last())
    } else {
        permissions_of(requests.drop_last(), session_id)
    }
}

/// Shows one pending permission.
fn show_permission(request: PendingPermission) -> (r: PendingPermissionView)
    ensures
        shows_permission(r, request),
{
    let mut fields: Vec<JsonField> = Vec::new();
    fields.push(JsonField { key: "action".to_owned(), value: request.action });
    fields.push(JsonField { key: "resources".to_owned(), value: request.resources });
    assert(field_models(fields@) =~= seq![
        ("action"@, request.action@),
        ("resources"@, request.resources@),
    ]);
    let tool_input = JsonValue::Object(fields);
    proof {
        lemma_json_model(tool_input);
    }
    PendingPermissionView {
        tool_id: match request.tool_call_id {
            Some(id) => id,
            None => request.request_id,
        },
        tool_name: request.source_identity,
        tool_input,
    }
}

/// Shows the pending permissions of a session, in their order; those of other
/// sessions are left out.
pub fn pending_permissions_of_session(requests: Vec<PendingPermission>, session_id: &str) -> (r:
    Vec<PendingPermissionView>)
    ensures
        r@.len() == permissions_of(requests@, session_id@).len(),
        forall|i: int|
            0 <= i < r@.len() ==> shows_permission(
                #[trigger] r@[i],
                permissions_of(requests@, session_id@)[i],
            ),
{
    let ghost all = requests@;
    let mut r: Vec<PendingPermissionView> = Vec::new();
    assert(all.take(0) =~= Seq::<PendingPermission>::empty());
    for request in it: requests
        invariant
            it.seq() == all,
            r@.len() == permissions_of(all.take(it.index() as int), session_id@).len(),
            forall|i: int|
                0 <= i < r@.len() ==> shows_permission(
                    #[trigger] r@[i],
                    permissions_of(all.take(it.index() as int), session_id@)[i],
                ),
    {
        let ghost at = it.index() as int;
        assert(request == all[at]);
        assert(all.take(at + 1).drop_last() =~= all.take(at));
        assert(all.take(at + 1).last() == all[at]);
        if same_text(request.session_id.as_str(), session_id) {
            r.push(show_permission(request));
        }
    }
    assert(all.take(all.len() as int) =~= all);
    r
}

/// A dialog turn that a remote client submits. `A` is an attachment.
#[derive(Debug)]
pub struct RemoteDialogSubmission<A> {
    pub session_id: String,
    pub content: String,
    pub display_content: Option<String>,
    pub turn_id: String,
    pub agent_type: String,
    pub policy: RemoteDialogSubmissionPolicy,
    pub binding_workspace: Option<RemoteDialogWorkspaceBinding>,
    pub attachments: Vec<A>,
}

/// The request for a dialog turn.
#[derive(Debug)]
pub struct DialogTurnRequest<A> {
    pub session_id: String,
    pub message: String,
    pub original_message: Option<String>,
    pub turn_id: Option<String>,
    pub agent_type: String,
    pub workspace_path: Option<String>,
    pub workspace_id: Option<String>,
    pub remote_connection_id: Option<String>,
    pub remote_ssh_host: Option<String>,
    pub policy: DialogSubmissionPolicy,
    pub attachments: Vec<A>,
}

/// The request for a dialog turn that a remote client submits, with the
/// workspace that its session is bound to. This runtime has to own that
/// workspace first, where there is one.
pub fn remote_dialog_turn_request<A>(submission: RemoteDialogSubmission<A>) -> (r:
    DialogTurnRequest<A>)
    ensures
        r.session_id == submission.session_id,
        r.message == submission.content,
        r.original_message == submission.display_content,
        r.turn_id == Some(submission.turn_id),
        r.agent_type == submission.agent_type,
        r.attachments == submission.attachments,
        r.policy.trigger_source == (match submission.policy.source {
            RemoteConnectSubmissionSource::Relay => DialogTriggerSource::RemoteRelay,
            RemoteConnectSubmissionSource::Bot => DialogTriggerSource::Bot,
        }),
        r.policy.queue_priority == (match submission.policy.queue_priority {
            RemoteDialogQueuePriority::Low => DialogQueuePriority::Low,
            RemoteDialogQueuePriority::Normal => DialogQueuePriority::Normal,
            RemoteDialogQueuePriority::High => DialogQueuePriority::High,
        }),
        match submission.binding_workspace {
            Some(binding) => {
                &&& r.workspace_path == Some(binding.workspace_path)
                &&& r.workspace_id == binding.workspace_id
                &&& r.remote_connection_id == binding.remote_connection_id
                &&& r.remote_ssh_host == binding.remote_ssh_host
            },
            None => {
                &&& r.workspace_path is None
                &&& r.workspace_id is None
                &&& r.remote_connection_id is None
                &&& r.remote_ssh_host is None
            },
        },
{
    let policy = core_dialog_submission_policy(submission.policy);
    let (workspace_path, workspace_id, remote_connection_id, remote_ssh_host) =
        match submission.binding_workspace {
        Some(binding) => (
            Some(binding.workspace_path),
            binding.workspace_id,
            binding.remote_connection_id,
            binding.remote_ssh_host,
        ),
        None => (None, None, None, None),
    };
    DialogTurnRequest {
        session_id: submission.session_id,
        message: submission.content,
        original_message: submission.display_content,
        turn_id: Some(submission.turn_id),
        agent_type: submission.agent_type,
        workspace_path,
        workspace_id,
        remote_connection_id,
        remote_ssh_host,
        policy,
        attachments: submission.attachments,
    }
}

/// The request for a rollback.
#[derive(Debug)]
pub struct SessionRollbackRequest {
    pub workspace_path: String,
    pub workspace_id: Option<String>,
    pub workspace_hostname: Option<String>,
    pub session_id: String,
    pub target_turn_id: String,
    pub require_idle: bool,
    pub expected_storage_turn_index: Option<usize>,
    pub expected_catalog_revision: Option<String>,
    pub remote_connection_id: Option<String>,
    pub remote_ssh_host: Option<String>,
}

/// The request for a rollback that a remote client asks for: of a local
/// workspace, and only while the session is idle.
pub fn remote_rollback_request(
    workspace_path: String,
    workspace_id: Option<String>,
    hostname: String,
    session_id: &str,
    target_turn_id: &str,
    expected_storage_turn_index: Option<usize>,
) -> (r: SessionRollbackRequest)
    ensures
        r.workspace_path == workspace_path,
        r.workspace_id == workspace_id,
        r.workspace_hostname == Some(hostname),
        r.session_id@ == session_id@,
        r.target_turn_id@ == target_turn_id@,
        r.require_idle,
        r.expected_storage_turn_index == expected_storage_turn_index,
        r.expected_catalog_revision is None,
        r.remote_connection_id is None,
        r.remote_ssh_host is None,
{
    SessionRollbackRequest {
        workspace_path,
        workspace_id,
        workspace_hostname: Some(hostname),
        session_id: session_id.to_owned(),
        target_turn_id: target_turn_id.to_owned(),
        require_idle: true,
        expected_storage_turn_index,
        expected_catalog_revision: None,
        remote_connection_id: None,
        remote_ssh_host: None,
    }
}

/// The answer to a tool that waits for permission.
#[derive(Debug)]
pub enum PermissionReply {
    Once,
    OnceWithInput { updated_input: JsonValue },
    Reject { feedback: Option<String> },
}

/// The answer of a remote client that confirms a tool, with another input where
/// it gives one.
pub fn confirm_tool_reply(updated_input: Option<JsonValue>) -> (r: PermissionReply)
    ensures
        r == (match updated_input {
            Some(updated_input) => PermissionReply::OnceWithInput { updated_input },
            None => PermissionReply::Once,
        }),
{
    match updated_input {
        Some(updated_input) => PermissionReply::OnceWithInput { updated_input },
        None => PermissionReply::Once,
    }
}

/// The answer of a remote client that rejects a tool.
pub fn reject_tool_reply(reason: String) -> (r: PermissionReply)
    ensures
        r == (PermissionReply::Reject { feedback: Some(reason) }),
{
    PermissionReply::Reject { feedback: Some(reason) }
}

/// The name under which a session's tracker listens for events.
pub fn remote_tracker_subscription_id(session_id: &str) -> (r: String)
    ensures
        r@ == "remote_tracker_"@ + session_id@,
{
    joined("remote_tracker_", session_id)
}

/// What managing the queue of a session needs first.
#[derive(Debug, Clone, Copy, PartialEq, Eq, Structural)]
pub enum QueueAdmission {
    Manage,
    RestoreThenManage,
    Unavailable,
}

/// Decides what managing the queue of a session needs first: a session that is
/// not loaded is restored in its workspace, and cannot be without one.
pub fn dialog_queue_admission(session_loaded: bool, has_binding: bool) -> (r: QueueAdmission)
    ensures
        r == (if session_loaded {
            QueueAdmission::Manage
        } else if has_binding {
            QueueAdmission::RestoreThenManage
        } else {
            QueueAdmission::Unavailable
        }),
{
    if session_loaded {
        QueueAdmission::Manage
    } else if has_binding {
        QueueAdmission::RestoreThenManage
    } else {
        QueueAdmission::Unavailable
    }
}

/// The workspace that this runtime has to own for a session. Its id names it;
/// the rest serves sessions that were written without one.
#[derive(Debug)]
pub struct OwnershipReference {
    pub workspace_id: Option<String>,
    pub workspace_path: String,
    pub remote_connection_id: Option<String>,
    pub remote_ssh_host: Option<String>,
}

/// The workspace that this runtime has to own: only a remote one has a host.
pub fn ownership_reference(
    workspace_id: Option<String>,
    workspace_path: String,
    connection_id: Option<String>,
    is_remote: bool,
    hostname: String,
) -> (r: OwnershipReference)
    ensures
        r.workspace_id == workspace_id,
        r.workspace_path == workspace_path,
        r.remote_connection_id == connection_id,
        r.remote_ssh_host == (if is_remote {
            Some(hostname)
        } else {
            None
        }),
{
    OwnershipReference {
        workspace_id,
        workspace_path,
        remote_connection_id: connection_id,
        remote_ssh_host: if is_remote {
            Some(hostname)
        } else {
            None
        },
    }
}

/// The request to cancel a turn.
#[derive(Debug)]
pub struct TurnCancellationRequest {
    pub session_id: String,
    pub turn_id: Option<String>,
    pub source: DialogTriggerSource,
    pub cancel_descendants: bool,
}

/// The request of a remote client to cancel a turn, with all that it started.
pub fn remote_cancellation_request(session_id: &str, turn_id: &str) -> (r: TurnCancellationRequest)
    ensures
        r.session_id@ == session_id@,
        text_option(r.turn_id) == Some(turn_id@),
        r.source == DialogTriggerSource::RemoteRelay,
        r.cancel_descendants,
{
    TurnCancellationRequest {
        session_id: session_id.to_owned(),
        turn_id: Some(turn_id.to_owned()),
        source: DialogTriggerSource::RemoteRelay,
        cancel_descendants: true,
    }
}

/// Setting a mode gives full access exactly for full access, and approves
/// requests without asking exactly for the automatic mode.
pub proof fn only_the_automatic_mode_approves_by_itself(mode: RemotePermissionMode)
    ensures
        settings_of(mode).preset == PermissionPolicyPreset::FullAccess <==> mode
            == RemotePermissionMode::FullAccess,
        settings_of(mode).auto_approve_ask <==> mode == RemotePermissionMode::Auto,
{
}

/// Settings read as full access exactly under that preset; under the other they
/// read as automatic exactly when requests are approved, else as asking.
pub proof fn settings_read_as_what_they_allow(settings: ToolPermissionSettings)
    ensures
        mode_of(settings) == RemotePermissionMode::FullAccess <==> settings.preset
            == PermissionPolicyPreset::FullAccess,
        mode_of(settings) == RemotePermissionMode::Auto <==> settings.preset
            == PermissionPolicyPreset::Ask && settings.auto_approve_ask,
        mode_of(settings) == RemotePermissionMode::Ask <==> settings.preset
            == PermissionPolicyPreset::Ask && !settings.auto_approve_ask,
{
}

/// Whether these are the steps of a remote client's request from its beginning,
/// and what each but the last came to.
pub open spec fn is_remote_course(
    operation: RemoteSessionOperation,
    run: Seq<RemoteSessionStep>,
    events: Seq<RemoteSessionEvent>,
) -> bool {
    &&& run.len() == events.len() + 1
    &&& run[0] is ResolveBinding
    &&& forall|i: int|
        0 <= i < events.len() ==> remote_comes_of(run[i], #[trigger] events[i]) && run[i + 1]
            == remote_session_step(operation, run[i], events[i])
}

/// Whether a request has come to its end.
pub open spec fn remote_ended(step: RemoteSessionStep) -> bool {
    step is Finished || step is FailWithoutBinding || step is RefuseRemote || step
        is FailWithStepError
}

/// A request in which nothing fails takes exactly the steps that its operation
/// needs: this runtime first owns the workspace; a rollback and a deletion are
/// then performed; a cancelled session is restored; and a session that is to be
/// loaded is restored only where it is not loaded yet, and then has its model
/// updated only where that was asked for.
pub proof fn a_request_takes_the_steps_of_its_operation(
    operation: RemoteSessionOperation,
    run: Seq<RemoteSessionStep>,
    events: Seq<RemoteSessionEvent>,
    remote: bool,
)
    requires
        is_remote_course(operation, run, events),
        remote_ended(run.last()),
        events.len() > 0,
        events[0] == (RemoteSessionEvent::Binding { found: true, remote }),
        !(remote && operation is Rollback),
        forall|i: int| 0 <= i < events.len() ==> !(#[trigger] events[i] is Failed),
    ensures
        ({
            let owned = seq![
                RemoteSessionStep::ResolveBinding,
                RemoteSessionStep::EnsureRuntimeOwnership,
            ];
            let find = seq![RemoteSessionStep::FindLoadedSession];
            let restore = seq![RemoteSessionStep::RestoreForBinding];
            let perform = seq![RemoteSessionStep::Perform];
            let finished = seq![RemoteSessionStep::Finished];
            match operation {
                RemoteSessionOperation::Rollback | RemoteSessionOperation::Delete => run == owned
                    + perform + finished,
                RemoteSessionOperation::RestoreForCancel => run == owned + restore + finished,
                RemoteSessionOperation::EnsureLoaded => {
                    &&& events[2] == (RemoteSessionEvent::Loaded { loaded: true }) ==> run == owned
                        + find + finished
                    &&& events[2] == (RemoteSessionEvent::Loaded { loaded: false }) ==> run
                        == owned + find + restore + finished
                    &&& events[2] is Loaded
                },
                RemoteSessionOperation::UpdateModel => {
                    &&& events[2] == (RemoteSessionEvent::Loaded { loaded: true }) ==> run == owned
                        + find + perform + finished
                    &&& events[2] == (RemoteSessionEvent::Loaded { loaded: false }) ==> run
                        == owned + find + restore + perform + finished
                    &&& events[2] is Loaded
                },
            }
        }),
{
    let owned = seq![RemoteSessionStep::ResolveBinding, RemoteSessionStep::EnsureRuntimeOwnership];
    let find = seq![RemoteSessionStep::FindLoadedSession];
    let restore = seq![RemoteSessionStep::RestoreForBinding];
    let perform = seq![RemoteSessionStep::Perform];
    let finished = seq![RemoteSessionStep::Finished];
    assert(run[0int + 1] == remote_session_step(operation, run[0], events[0]));
    if events.len() > 1 {
        assert(remote_comes_of(run[1], events[1]));
        assert(run[1int + 1] == remote_session_step(operation, run[1], events[1]));
    }
    if events.len() > 2 {
        assert(remote_comes_of(run[2], events[2]));
        assert(run[2int + 1] == remote_session_step(operation, run[2], events[2]));
    }
    if events.len() > 3 {
        assert(remote_comes_of(run[3], events[3]));
        assert(run[3int + 1] == remote_session_step(operation, run[3], events[3]));
    }
    if events.len() > 4 {
        assert(remote_comes_of(run[4], events[4]));
        assert(run[4int + 1] == remote_session_step(operation, run[4], events[4]));
    }
    if events.len() > 5 {
        assert(remote_comes_of(run[5], events[5]));
    }
    match operation {
        RemoteSessionOperation::Rollback | RemoteSessionOperation::Delete => {
            assert(run =~= owned + perform + finished);
        },
        RemoteSessionOperation::RestoreForCancel => {
            assert(run =~= owned + restore + finished);
        },
        RemoteSessionOperation::EnsureLoaded => {
            if events[2] == (RemoteSessionEvent::Loaded { loaded: true }) {
                assert(run =~= owned + find + finished);
            } else {
                assert(run =~= owned + find + restore + finished);
            }
        },
        RemoteSessionOperation::UpdateModel => {
            if events[2] == (RemoteSessionEvent::Loaded { loaded: true }) {
                assert(run =~= owned + find + perform + finished);
            } else {
                assert(run =~= owned + find + restore + perform + finished);
            }
        },
    }
}

/// A request for a session without a known workspace fails at once, a rollback in
/// a remote workspace is refused at once, and a step that fails ends the request
/// with its error; nothing else does.
pub proof fn a_request_ends_where_it_fails(
    operation: RemoteSessionOperation,
    run: Seq<RemoteSessionStep>,
    events: Seq<RemoteSessionEvent>,
    i: int,
)
    requires
        is_remote_course(operation, run, events),
        0 <= i < events.len(),
    ensures
        run[i + 1] is FailWithStepError <==> events[i] is Failed,
        run[i + 1] is FailWithoutBinding <==> (events[i] matches RemoteSessionEvent::Binding {
            found,
            remote,
        } && !found),
        run[i + 1] is RefuseRemote <==> (events[i] matches RemoteSessionEvent::Binding {
            found,
            remote,
        } && found && remote && operation is Rollback),
        remote_ended(run[i + 1]) ==> i + 1 == events.len(),
{
    assert(remote_comes_of(run[i], events[i]));
    assert(run[i + 1] == remote_session_step(operation, run[i], events[i]));
    if i + 1 < events.len() {
        assert(remote_comes_of(run[i + 1], events[i + 1]));
    }
}

/// The pending permissions of a session are those that name it, each by itself,
/// in their order.
pub proof fn pending_permissions_are_chosen_by_session(
    a: Seq<PendingPermission>,
    b: Seq<PendingPermission>,
    request: PendingPermission,
    session_id: Seq<char>,
)
    ensures
        permissions_of(a + b, session_id) == permissions_of(a, session_id) + permissions_of(
            b,
            session_id,
        ),
        request.session_id@ == session_id ==> permissions_of(seq![request], session_id) == seq![
            request,
        ],
        request.session_id@ != session_id ==> permissions_of(seq![request], session_id).len() == 0,
    decreases b.len(),
{
    let one = seq![request];
    assert(one.drop_last() =~= Seq::<PendingPermission>::empty());
    assert(permissions_of(one.drop_last(), session_id) =~= Seq::<PendingPermission>::empty());
    assert(Seq::<PendingPermission>::empty().push(request) =~= one);
    if b.len() == 0 {
        assert(a + b =~= a);
    } else {
        pending_permissions_are_chosen_by_session(a, b.drop_last(), request, session_id);
        assert((a + b).drop_last() =~= a + b.drop_last());
        assert((a + b).last() == b.last());
    }
    assert(permissions_of(a + b, session_id) =~= permissions_of(a, session_id) + permissions_of(
        b,
        session_id,
    ));
}

/// A pending permission is shown under the id of its tool call, or, without one,
/// of the request, with its tool as the name and its action and resources as the
/// input.
pub proof fn a_shown_permission_names_its_call(
    view: PendingPermissionView,
    request: PendingPermission,
)
    requires
        shows_permission(view, request),
    ensures
        request.tool_call_id matches Some(id) ==> view.tool_id@ == id@,
        request.tool_call_id is None ==> view.tool_id@ == request.request_id@,
        view.tool_name@ == request.source_identity@,
        JsonValue::member_model(view.tool_input@, "action"@) == Some(request.action@),
        JsonValue::member_model(view.tool_input@, "resources"@) == Some(request.resources@),
{
    reveal_strlit("action");
    reveal_strlit("resources");
    let fields = seq![("action"@, request.action@), ("resources"@, request.resources@)];
    assert("action"@.len() != "resources"@.len());
    lemma_field_position(fields, "action"@, 0);
    lemma_field_position(fields, "resources"@, 0);
    assert(fields[0].0 == "action"@);
    assert(fields[1].0 == "resources"@);
}

/// The id of a turn that a remote client starts is its identifier behind the five
/// characters `turn_`.
pub proof fn turn_ids_carry_their_identifier(identifier: Seq<char>)
    ensures
        turn_id_of(identifier).take(5) == seq!['t', 'u', 'r', 'n', '_'],
        turn_id_of(identifier).skip(5) == identifier,
{
    reveal_strlit("turn_");
    assert(turn_id_of(identifier).take(5) =~= seq!['t', 'u', 'r', 'n', '_']);
    assert(turn_id_of(identifier).skip(5) =~= identifier);
}

/// The name of a terminal takes eight bytes of the session id, or all of them
/// when there are fewer.
pub proof fn a_terminal_name_takes_at_most_eight_bytes(session_id: &str)
    ensures
        terminal_name_bytes(session_id) <= 8,
        terminal_name_bytes(session_id) <= session_id.spec_bytes().len(),
        terminal_name_bytes(session_id) == 8 || terminal_name_bytes(session_id)
            == session_id.spec_bytes().len(),
{
}

} // verus!

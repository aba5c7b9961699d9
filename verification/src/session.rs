//! Sessions, their metadata and how a session is put together from what was
//! persisted of it.

use vstd::prelude::*;

use crate::activity::SessionLastTurn;
use crate::memory::SessionMemoryMode;
use crate::text::{same_text, trim, trimmed};
use crate::turn::{copy_text_option, text_option, DialogTurnData};

verus! {

/// What a session is for.
#[derive(Debug, Clone, Copy, PartialEq, Eq, Structural)]
pub enum SessionKind {
    Standard,
    Subagent,
    EphemeralChild,
}

/// What a session is doing.
#[derive(Debug, Clone)]
pub enum SessionState {
    Idle,
    Processing { current_turn_id: String },
    Other { label: String },
}

/// Where a session executes when that is not its workspace.
#[derive(Debug, Clone)]
pub struct SessionExecutionTarget {
    pub root_path: String,
}

/// The configuration of a session.
#[derive(Debug, Clone)]
pub struct SessionConfig {
    pub workspace_id: Option<String>,
    pub project_workspace_id: Option<String>,
    pub workspace_path: Option<String>,
    pub project_workspace_path: Option<String>,
    pub remote_connection_id: Option<String>,
    pub remote_ssh_host: Option<String>,
    pub execution_target: Option<SessionExecutionTarget>,
    pub model_id: Option<String>,
    pub reasoning_preset: Option<String>,
    pub legacy_minimal_agent: bool,
}

/// What is persisted of a session apart from its turns.
#[derive(Debug, Clone)]
pub struct SessionMetadata {
    pub session_id: String,
    pub session_name: String,
    pub agent_type: String,
    pub last_user_dialog_agent_type: Option<String>,
    pub last_submitted_agent_type: Option<String>,
    pub created_by: Option<String>,
    pub session_kind: SessionKind,
    pub model_name: String,
    pub created_at: u64,
    pub last_active_at: u64,
    pub turn_count: usize,
    pub snapshot_session_id: Option<String>,
    pub workspace_id: Option<String>,
    pub project_workspace_id: Option<String>,
    pub workspace_path: Option<String>,
    pub workspace_hostname: Option<String>,
    pub memory_mode: SessionMemoryMode,
    pub last_turn: Option<SessionLastTurn>,
}

/// The persisted state of a session. `C` is the state of its compression.
#[derive(Debug)]
pub struct StoredSessionStateFile<C> {
    pub schema_version: u32,
    pub config: SessionConfig,
    pub snapshot_session_id: Option<String>,
    pub last_user_dialog_agent_type: Option<String>,
    pub last_submitted_agent_type: Option<String>,
    pub compression_state: C,
    pub runtime_state: SessionState,
}

/// A session.
#[derive(Debug)]
pub struct Session<C> {
    pub session_id: String,
    pub session_name: String,
    pub agent_type: String,
    pub last_user_dialog_agent_type: Option<String>,
    pub last_submitted_agent_type: Option<String>,
    pub created_by: Option<String>,
    pub kind: SessionKind,
    pub snapshot_session_id: Option<String>,
    pub dialog_turn_ids: Vec<String>,
    pub state: SessionState,
    pub config: SessionConfig,
    pub compression_state: C,
    pub created_at_ms: u64,
    pub updated_at_ms: u64,
    pub last_activity_at_ms: u64,
}

/// A session's configuration as it was persisted, and whether the session used
/// the agent that is no longer configured.
#[derive(Debug)]
pub struct RestoredSessionConfig {
    pub config: SessionConfig,
    pub legacy_minimal: bool,
}

/// The first text that is there.
pub open spec fn first_text(a: Option<String>, b: Option<String>) -> Option<String> {
    match a {
        Some(_) => a,
        None => b,
    }
}

/// The first text that is there.
pub fn first_text_of(a: Option<String>, b: &Option<String>) -> (r: Option<String>)
    ensures
        r == first_text(a, *b),
{
    match a {
        Some(text) => Some(text),
        None => copy_text_option(b),
    }
}

/// Whether a host name says where to connect: neither the mark of a local
/// workspace nor that of an unresolved one does.
pub open spec fn is_routable_host(host: Seq<char>, local_host: Seq<char>) -> bool {
    host != local_host && host != "_unresolved"@
}

/// Takes a session's configuration from its persisted state, and what it lacks
/// from the metadata. The workspace still has to be resolved.
pub fn restore_session_config(
    stored: Option<SessionConfig>,
    default: SessionConfig,
    metadata: &SessionMetadata,
    local_host: &str,
) -> (r: RestoredSessionConfig)
    ensures
        ({
            let base = match stored {
                Some(config) => config,
                None => default,
            };
            &&& r.legacy_minimal == (stored matches Some(config) && config.legacy_minimal_agent)
            &&& !r.config.legacy_minimal_agent
            &&& r.config.project_workspace_id == first_text(
                base.project_workspace_id,
                metadata.project_workspace_id,
            )
            &&& r.config.workspace_id == first_text(base.workspace_id, metadata.workspace_id)
            &&& r.config.workspace_path == first_text(base.workspace_path, metadata.workspace_path)
            &&& r.config.remote_ssh_host == (match base.remote_ssh_host {
                Some(_) => base.remote_ssh_host,
                None => match metadata.workspace_hostname {
                    Some(host) => if is_routable_host(host@, local_host@) {
                        Some(host)
                    } else {
                        None
                    },
                    None => None,
                },
            })
            &&& r.config.project_workspace_path == base.project_workspace_path
            &&& r.config.remote_connection_id == base.remote_connection_id
            &&& r.config.execution_target == base.execution_target
            &&& r.config.model_id == base.model_id
            &&& r.config.reasoning_preset == base.reasoning_preset
        }),
{
    let (base, legacy_minimal) = match stored {
        Some(config) => {
            let legacy = config.legacy_minimal_agent;
            (config, legacy)
        },
        None => (default, false),
    };
    let remote_ssh_host = match base.remote_ssh_host {
        Some(host) => Some(host),
        None => match &metadata.workspace_hostname {
            Some(host) => if !same_text(host.as_str(), local_host) && !same_text(
                host.as_str(),
                "_unresolved",
            ) {
                Some(host.clone())
            } else {
                None
            },
            None => None,
        },
    };
    RestoredSessionConfig {
        config: SessionConfig {
            workspace_id: first_text_of(base.workspace_id, &metadata.workspace_id),
            project_workspace_id: first_text_of(
                base.project_workspace_id,
                &metadata.project_workspace_id,
            ),
            workspace_path: first_text_of(base.workspace_path, &metadata.workspace_path),
            project_workspace_path: base.project_workspace_path,
            remote_connection_id: base.remote_connection_id,
            remote_ssh_host,
            execution_target: base.execution_target,
            model_id: base.model_id,
            reasoning_preset: base.reasoning_preset,
            legacy_minimal_agent: false,
        },
        legacy_minimal,
    }
}

/// The agent of a session: the one that is no longer configured, or that of the
/// metadata.
pub open spec fn restored_agent_type(legacy_minimal: bool, agent_type: Seq<char>) -> Seq<char> {
    if legacy_minimal {
        "Minimal"@
    } else {
        agent_type
    }
}

/// The state that a session without persisted state is in.
pub open spec fn restored_state<C>(stored: Option<StoredSessionStateFile<C>>) -> SessionState {
    match stored {
        Some(s) => s.runtime_state,
        None => SessionState::Idle,
    }
}

/// Puts a session together. `config` is the restored configuration with its
/// workspace resolved, and the runtime state in `stored_state` is one that a
/// session may be opened in. What the persisted state says goes before what the
/// metadata says.
pub fn build_session_from_persisted_parts<C>(
    metadata: SessionMetadata,
    stored_state: Option<StoredSessionStateFile<C>>,
    default_compression_state: C,
    config: SessionConfig,
    legacy_minimal: bool,
    turns: &Vec<DialogTurnData>,
) -> (r: Session<C>)
    ensures
        r.session_id == metadata.session_id,
        r.session_name == metadata.session_name,
        r.agent_type@ == restored_agent_type(legacy_minimal, metadata.agent_type@),
        r.last_user_dialog_agent_type == (match stored_state {
            Some(s) => first_text(
                s.last_user_dialog_agent_type,
                metadata.last_user_dialog_agent_type,
            ),
            None => metadata.last_user_dialog_agent_type,
        }),
        r.last_submitted_agent_type == (match stored_state {
            Some(s) => first_text(
                s.last_submitted_agent_type,
                metadata.last_submitted_agent_type,
            ),
            None => metadata.last_submitted_agent_type,
        }),
        r.created_by == metadata.created_by,
        r.kind == metadata.session_kind,
        r.snapshot_session_id == (match stored_state {
            Some(s) => first_text(s.snapshot_session_id, metadata.snapshot_session_id),
            None => metadata.snapshot_session_id,
        }),
        r.dialog_turn_ids@.len() == turns@.len(),
        forall|i: int|
            0 <= i < turns@.len() ==> #[trigger] r.dialog_turn_ids@[i] == turns@[i].turn_id,
        r.state == restored_state(stored_state),
        r.compression_state == (match stored_state {
            Some(s) => s.compression_state,
            None => default_compression_state,
        }),
        r.config == (SessionConfig {
            model_id: if config.model_id is None && metadata.model_name@.len() > 0 {
                Some(metadata.model_name)
            } else {
                config.model_id
            },
            ..config
        }),
        r.created_at_ms == metadata.created_at,
        r.updated_at_ms == metadata.last_active_at,
        r.last_activity_at_ms == metadata.last_active_at,
{
    let mut dialog_turn_ids: Vec<String> = Vec::new();
    let mut i: usize = 0;
    while i < turns.len()
        invariant
            i <= turns@.len(),
            dialog_turn_ids@.len() == i,
            forall|j: int|
                0 <= j < i ==> #[trigger] dialog_turn_ids@[j] == turns@[j].turn_id,
        decreases turns@.len() - i,
    {
        dialog_turn_ids.push(turns[i].turn_id.clone());
        i += 1;
    }
    let mut config = config;
    if config.model_id.is_none() && !metadata.model_name.as_str().is_empty() {
        config.model_id = Some(metadata.model_name);
    }
    let agent_type = if legacy_minimal {
        "Minimal".to_owned()
    } else {
        metadata.agent_type
    };
    let (dialog_agent, submitted_agent, snapshot, compression_state, state) = match stored_state {
        Some(stored) => (
            first_text_of(
                stored.last_user_dialog_agent_type,
                &metadata.last_user_dialog_agent_type,
            ),
            first_text_of(stored.last_submitted_agent_type, &metadata.last_submitted_agent_type),
            first_text_of(stored.snapshot_session_id, &metadata.snapshot_session_id),
            stored.compression_state,
            stored.runtime_state,
        ),
        None => (
            metadata.last_user_dialog_agent_type,
            metadata.last_submitted_agent_type,
            metadata.snapshot_session_id,
            default_compression_state,
            SessionState::Idle,
        ),
    };
    Session {
        session_id: metadata.session_id,
        session_name: metadata.session_name,
        agent_type,
        last_user_dialog_agent_type: dialog_agent,
        last_submitted_agent_type: submitted_agent,
        created_by: metadata.created_by,
        kind: metadata.session_kind,
        snapshot_session_id: snapshot,
        dialog_turn_ids,
        state,
        config,
        compression_state,
        created_at_ms: metadata.created_at,
        updated_at_ms: metadata.last_active_at,
        last_activity_at_ms: metadata.last_active_at,
    }
}

/// The persisted state with a new runtime state. A session without persisted
/// state gets one that says nothing else; its default configuration names no
/// workspace.
pub fn stored_state_with_runtime_state<C>(
    schema_version: u32,
    stored: Option<StoredSessionStateFile<C>>,
    default_config: SessionConfig,
    default_compression_state: C,
    runtime_state: SessionState,
) -> (r: StoredSessionStateFile<C>)
    ensures
        r == (match stored {
            Some(s) => StoredSessionStateFile { schema_version, runtime_state, ..s },
            None => StoredSessionStateFile {
                schema_version,
                config: SessionConfig { workspace_path: None, ..default_config },
                snapshot_session_id: None,
                last_user_dialog_agent_type: None,
                last_submitted_agent_type: None,
                compression_state: default_compression_state,
                runtime_state,
            },
        }),
{
    match stored {
        Some(stored) => {
            let mut state = stored;
            state.schema_version = schema_version;
            state.runtime_state = runtime_state;
            state
        },
        None => {
            let mut config = default_config;
            config.workspace_path = None;
            StoredSessionStateFile {
                schema_version,
                config,
                snapshot_session_id: None,
                last_user_dialog_agent_type: None,
                last_submitted_agent_type: None,
                compression_state: default_compression_state,
                runtime_state,
            }
        },
    }
}

/// How a session's workspace is found: by its id, else by its path.
#[derive(Debug, Clone, Copy, PartialEq, Eq, Structural)]
pub enum WorkspaceIdentitySource {
    Id,
    Path,
    Unknown,
}

/// Decides how a session's workspace is found.
pub fn workspace_identity_source(config: &SessionConfig) -> (r: WorkspaceIdentitySource)
    ensures
        r == (if config.workspace_id is Some {
            WorkspaceIdentitySource::Id
        } else if config.workspace_path is Some {
            WorkspaceIdentitySource::Path
        } else {
            WorkspaceIdentitySource::Unknown
        }),
{
    if config.workspace_id.is_some() {
        WorkspaceIdentitySource::Id
    } else if config.workspace_path.is_some() {
        WorkspaceIdentitySource::Path
    } else {
        WorkspaceIdentitySource::Unknown
    }
}

/// A workspace that was found.
#[derive(Debug)]
pub struct ResolvedWorkspaceIdentity {
    pub logical_workspace_path: String,
    pub hostname: String,
}

/// The workspace that is recorded with a session.
#[derive(Debug)]
pub struct RecordedWorkspace {
    pub workspace_path: String,
    pub workspace_hostname: Option<String>,
}

/// The workspace path that is recorded: that of the workspace when it was found,
/// else what the session says, else what was recorded before, else the path that
/// the session is stored for.
pub open spec fn recorded_path(
    identity: Option<ResolvedWorkspaceIdentity>,
    config_path: Option<String>,
    existing_path: Option<String>,
    storage_path: Seq<char>,
) -> Seq<char> {
    match identity {
        Some(found) => found.logical_workspace_path@,
        None => match first_text(config_path, existing_path) {
            Some(path) => path@,
            None => storage_path,
        },
    }
}

/// The host that is recorded: that of the workspace when it was found, else what
/// was recorded before, else what a remote session says, else the local host.
pub open spec fn recorded_hostname(
    identity: Option<ResolvedWorkspaceIdentity>,
    existing_hostname: Option<String>,
    is_remote: bool,
    remote_ssh_host: Option<String>,
    local_host: Seq<char>,
) -> Option<Seq<char>> {
    match identity {
        Some(found) => Some(found.hostname@),
        None => match existing_hostname {
            Some(host) => Some(host@),
            None => if is_remote {
                text_option(remote_ssh_host)
            } else {
                Some(local_host)
            },
        },
    }
}

/// Decides which workspace is recorded with a session.
pub fn recorded_workspace(
    identity: Option<ResolvedWorkspaceIdentity>,
    config: &SessionConfig,
    is_remote: bool,
    existing: &Option<SessionMetadata>,
    storage_path: &str,
    local_host: &str,
) -> (r: RecordedWorkspace)
    ensures
        r.workspace_path@ == recorded_path(
            identity,
            config.workspace_path,
            match *existing {
                Some(m) => m.workspace_path,
                None => None,
            },
            storage_path@,
        ),
        text_option(r.workspace_hostname) == recorded_hostname(
            identity,
            match *existing {
                Some(m) => m.workspace_hostname,
                None => None,
            },
            is_remote,
            config.remote_ssh_host,
            local_host@,
        ),
{
    let (existing_path, existing_host) = match existing {
        Some(m) => (copy_text_option(&m.workspace_path), copy_text_option(&m.workspace_hostname)),
        None => (None, None),
    };
    match identity {
        Some(found) => RecordedWorkspace {
            workspace_path: found.logical_workspace_path,
            workspace_hostname: Some(found.hostname),
        },
        None => {
            let workspace_path = match copy_text_option(&config.workspace_path) {
                Some(path) => path,
                None => match existing_path {
                    Some(path) => path,
                    None => storage_path.to_owned(),
                },
            };
            let workspace_hostname = match existing_host {
                Some(host) => Some(host),
                None => if is_remote {
                    copy_text_option(&config.remote_ssh_host)
                } else {
                    Some(local_host.to_owned())
                },
            };
            RecordedWorkspace { workspace_path, workspace_hostname }
        },
    }
}

/// What a list of sessions shows of one.
#[derive(Debug)]
pub struct SessionSummary {
    pub session_id: String,
    pub session_name: String,
    pub agent_type: String,
    pub model_id: Option<String>,
    pub reasoning_preset: Option<String>,
    pub last_user_dialog_agent_type: Option<String>,
    pub last_submitted_agent_type: Option<String>,
    pub created_by: Option<String>,
    pub kind: SessionKind,
    pub turn_count: usize,
    pub created_at_ms: u64,
    pub last_activity_at_ms: u64,
    pub state: SessionState,
}

/// What a list of sessions reads of the persisted state.
#[derive(Debug)]
pub struct StoredSummaryFacts {
    pub state: SessionState,
    pub reasoning_preset: Option<String>,
    pub legacy_minimal: bool,
}

/// Makes the summary of a session. A blank model name is none.
pub fn session_summary(metadata: SessionMetadata, stored: Option<StoredSummaryFacts>) -> (r:
    SessionSummary)
    ensures
        r.session_id == metadata.session_id,
        r.session_name == metadata.session_name,
        r.agent_type@ == restored_agent_type(
            stored matches Some(s) && s.legacy_minimal,
            metadata.agent_type@,
        ),
        r.model_id == (if trimmed(metadata.model_name@).len() > 0 {
            Some(metadata.model_name)
        } else {
            None
        }),
        r.reasoning_preset == (match stored {
            Some(s) => s.reasoning_preset,
            None => None,
        }),
        r.last_user_dialog_agent_type == metadata.last_user_dialog_agent_type,
        r.last_submitted_agent_type == metadata.last_submitted_agent_type,
        r.created_by == metadata.created_by,
        r.kind == metadata.session_kind,
        r.turn_count == metadata.turn_count,
        r.created_at_ms == metadata.created_at,
        r.last_activity_at_ms == metadata.last_active_at,
        r.state == (match stored {
            Some(s) => s.state,
            None => SessionState::Idle,
        }),
{
    let (state, reasoning_preset, legacy_minimal) = match stored {
        Some(s) => (s.state, s.reasoning_preset, s.legacy_minimal),
        None => (SessionState::Idle, None, false),
    };
    let agent_type = if legacy_minimal {
        "Minimal".to_owned()
    } else {
        metadata.agent_type
    };
    let blank = trim(metadata.model_name.as_str()).as_str().is_empty();
    SessionSummary {
        session_id: metadata.session_id,
        session_name: metadata.session_name,
        agent_type,
        model_id: if blank {
            None
        } else {
            Some(metadata.model_name)
        },
        reasoning_preset,
        last_user_dialog_agent_type: metadata.last_user_dialog_agent_type,
        last_submitted_agent_type: metadata.last_submitted_agent_type,
        created_by: metadata.created_by,
        kind: metadata.session_kind,
        turn_count: metadata.turn_count,
        created_at_ms: metadata.created_at,
        last_activity_at_ms: metadata.last_active_at,
        state,
    }
}

/// Summaries, latest activity first, with one more put behind those that were
/// active as late as it or later.
pub open spec fn with_summary(sorted: Seq<SessionSummary>, summary: SessionSummary) -> Seq<
    SessionSummary,
>
    decreases sorted.len(),
{
    if sorted.len() > 0 && sorted.last().last_activity_at_ms < summary.last_activity_at_ms {
        with_summary(sorted.drop_last(), summary).push(sorted.last())
    } else {
        sorted.push(summary)
    }
}

/// Summaries, latest activity first; those with one time keep their order.
pub open spec fn latest_first(summaries: Seq<SessionSummary>) -> Seq<SessionSummary>
    decreases summaries.len(),
{
    if summaries.len() == 0 {
        Seq::empty()
    } else {
        with_summary(latest_first(summaries.drop_last()), summaries.last())
    }
}

/// Whether the latest activity comes first.
pub open spec fn activity_descends(summaries: Seq<SessionSummary>) -> bool {
    forall|i: int, j: int|
        0 <= i < j < summaries.len() ==> (#[trigger] summaries[i]).last_activity_at_ms >= (
        #[trigger] summaries[j]).last_activity_at_ms
}

proof fn lemma_with_summary(sorted: Seq<SessionSummary>, summary: SessionSummary)
    requires
        activity_descends(sorted),
    ensures
        activity_descends(with_summary(sorted, summary)),
        with_summary(sorted, summary).to_multiset() == sorted.to_multiset().insert(summary),
        with_summary(sorted, summary).len() == sorted.len() + 1,
        with_summary(sorted, summary).last().last_activity_at_ms == (if sorted.len() > 0
            && sorted.last().last_activity_at_ms < summary.last_activity_at_ms {
            sorted.last().last_activity_at_ms
        } else {
            summary.last_activity_at_ms
        }),
    decreases sorted.len(),
{
    broadcast use vstd::seq_lib::group_to_multiset_ensures;

    if sorted.len() > 0 && sorted.last().last_activity_at_ms < summary.last_activity_at_ms {
        let front = sorted.drop_last();
        assert(activity_descends(front));
        lemma_with_summary(front, summary);
        let inner = with_summary(front, summary);
        let r = inner.push(sorted.last());
        assert(inner.last().last_activity_at_ms >= sorted.last().last_activity_at_ms) by {
            if front.len() > 0 {
                assert(front.last() == sorted[sorted.len() - 2]);
            }
        }
        assert forall|i: int, j: int| 0 <= i < j < r.len() implies (
        #[trigger] r[i]).last_activity_at_ms >= (#[trigger] r[j]).last_activity_at_ms by {
            if j == inner.len() {
                assert(inner[i].last_activity_at_ms >= inner.last().last_activity_at_ms);
            }
        }
        assert(front.push(sorted.last()) =~= sorted);
        assert(r.to_multiset() =~= sorted.to_multiset().insert(summary));
    } else {
        let r = sorted.push(summary);
        assert forall|i: int, j: int| 0 <= i < j < r.len() implies (
        #[trigger] r[i]).last_activity_at_ms >= (#[trigger] r[j]).last_activity_at_ms by {
            if j == sorted.len() {
                assert(sorted[i].last_activity_at_ms >= sorted.last().last_activity_at_ms);
            }
        }
    }
}

/// A list of sessions holds the same summaries, latest activity first.
pub proof fn session_list_is_a_sort(summaries: Seq<SessionSummary>)
    ensures
        activity_descends(latest_first(summaries)),
        latest_first(summaries).to_multiset() == summaries.to_multiset(),
        latest_first(summaries).len() == summaries.len(),
    decreases summaries.len(),
{
    broadcast use vstd::seq_lib::group_to_multiset_ensures;

    if summaries.len() > 0 {
        session_list_is_a_sort(summaries.drop_last());
        lemma_with_summary(latest_first(summaries.drop_last()), summaries.last());
        assert(summaries.drop_last().push(summaries.last()) =~= summaries);
    } else {
        assert(summaries =~= Seq::<SessionSummary>::empty());
    }
}

/// Puts a summary into a list.
fn put_summary(sorted: &mut Vec<SessionSummary>, summary: SessionSummary)
    ensures
        final(sorted)@ == with_summary(old(sorted)@, summary),
{
    let ghost before = sorted@;
    let mut at: usize = sorted.len();
    assert(before.take(at as int) =~= before);
    assert(with_summary(before, summary) =~= with_summary(before.take(at as int), summary)
        + before.skip(at as int));
    while at > 0 && sorted[at - 1].last_activity_at_ms < summary.last_activity_at_ms
        invariant
            sorted@ == before,
            at <= sorted@.len(),
            with_summary(before, summary) == with_summary(before.take(at as int), summary)
                + before.skip(at as int),
        decreases at,
    {
        let ghost front = before.take(at as int);
        assert(front.drop_last() =~= before.take(at - 1));
        assert(front.last() == before[at - 1]);
        assert(with_summary(before.take(at - 1), summary).push(before[at - 1]) + before.skip(
            at as int,
        ) =~= with_summary(before.take(at - 1), summary) + before.skip(at - 1));
        at -= 1;
    }
    let ghost front = before.take(at as int);
    assert(at > 0 ==> front.last() == before[at - 1]);
    sorted.insert(at, summary);
    assert(sorted@ =~= front.push(summary) + before.skip(at as int));
}

/// Puts summaries in the order in which sessions are listed.
pub fn sort_session_summaries(summaries: Vec<SessionSummary>) -> (r: Vec<SessionSummary>)
    ensures
        r@ == latest_first(summaries@),
{
    let ghost all = summaries@;
    let mut sorted: Vec<SessionSummary> = Vec::new();
    assert(all.take(0) =~= Seq::<SessionSummary>::empty());
    for summary in it: summaries
        invariant
            it.seq() == all,
            sorted@ == latest_first(all.take(it.index() as int)),
    {
        let ghost at = it.index() as int;
        assert(all.take(at + 1).drop_last() =~= all.take(at));
        assert(all.take(at + 1).last() == all[at]);
        put_summary(&mut sorted, summary);
    }
    assert(all.take(all.len() as int) =~= all);
    sorted
}

/// The turn that a session is working on.
pub fn active_turn_id(state: &SessionState) -> (r: Option<String>)
    ensures
        r == (match *state {
            SessionState::Processing { current_turn_id } => Some(current_turn_id),
            _ => None,
        }),
{
    match state {
        SessionState::Processing { current_turn_id } => Some(current_turn_id.clone()),
        _ => None,
    }
}

/// Whether a session shares the default model of its mode with others. Those
/// that another session started keep their own.
pub fn session_uses_shared_mode_default<C>(session: &Session<C>) -> (r: bool)
    ensures
        r == (session.kind == SessionKind::Standard),
{
    session.kind == SessionKind::Standard
}

/// The persisted state of a session. `runtime_state` is one that the session may
/// be opened in again.
pub fn stored_session_state<C>(
    schema_version: u32,
    config: SessionConfig,
    compression_state: C,
    runtime_state: SessionState,
    snapshot_session_id: &Option<String>,
    last_user_dialog_agent_type: &Option<String>,
    last_submitted_agent_type: &Option<String>,
) -> (r: StoredSessionStateFile<C>)
    ensures
        r == (StoredSessionStateFile {
            schema_version,
            config,
            snapshot_session_id: *snapshot_session_id,
            last_user_dialog_agent_type: *last_user_dialog_agent_type,
            last_submitted_agent_type: *last_submitted_agent_type,
            compression_state,
            runtime_state,
        }),
{
    StoredSessionStateFile {
        schema_version,
        config,
        snapshot_session_id: copy_text_option(snapshot_session_id),
        last_user_dialog_agent_type: copy_text_option(last_user_dialog_agent_type),
        last_submitted_agent_type: copy_text_option(last_submitted_agent_type),
        compression_state,
        runtime_state,
    }
}

/// The first of two texts that is there is taken, and the second only without
/// it.
pub proof fn the_first_text_goes_before_the_second(a: String, b: Option<String>)
    ensures
        first_text(Some(a), b) == Some(a),
        first_text(None, b) == b,
{
}

/// A host leads somewhere unless it is the mark of a local workspace or of one
/// that was not resolved.
pub proof fn marks_are_no_hosts(host: Seq<char>, local_host: Seq<char>)
    ensures
        !is_routable_host(local_host, local_host),
        !is_routable_host("_unresolved"@, local_host),
        host != local_host && host != "_unresolved"@ ==> is_routable_host(host, local_host),
{
}

/// A session keeps the agent of its metadata unless it used the one that is no
/// longer configured, and the state that was persisted, else it is idle.
pub proof fn a_session_comes_back_as_it_was<C>(
    agent_type: Seq<char>,
    stored: StoredSessionStateFile<C>,
)
    ensures
        restored_agent_type(false, agent_type) == agent_type,
        restored_agent_type(true, agent_type) == seq!['M', 'i', 'n', 'i', 'm', 'a', 'l'],
        restored_state(Some(stored)) == stored.runtime_state,
        restored_state::<C>(None) is Idle,
{
    reveal_strlit("Minimal");
    assert("Minimal"@ =~= seq!['M', 'i', 'n', 'i', 'm', 'a', 'l']);
}

/// What is recorded of a workspace is what was found of it. Where nothing was
/// found, the path is that of the session, then the one recorded before, then the
/// one it is stored for; and the host is the one recorded before, then that of a
/// remote session, or the local one.
pub proof fn what_was_found_goes_before_what_was_recorded(
    identity: Option<ResolvedWorkspaceIdentity>,
    config: Option<String>,
    existing: Option<String>,
    storage: Seq<char>,
    is_remote: bool,
    ssh_host: Option<String>,
    local_host: Seq<char>,
)
    ensures
        identity matches Some(found) ==> recorded_path(identity, config, existing, storage)
            == found.logical_workspace_path@ && recorded_hostname(
            identity,
            existing,
            is_remote,
            ssh_host,
            local_host,
        ) == Some(found.hostname@),
        identity is None ==> (config matches Some(path) ==> recorded_path(
            identity,
            config,
            existing,
            storage,
        ) == path@),
        identity is None && config is None ==> (existing matches Some(path) ==> recorded_path(
            identity,
            config,
            existing,
            storage,
        ) == path@),
        identity is None && config is None && existing is None ==> recorded_path(
            identity,
            config,
            existing,
            storage,
        ) == storage,
        identity is None ==> (existing matches Some(host) ==> recorded_hostname(
            identity,
            existing,
            is_remote,
            ssh_host,
            local_host,
        ) == Some(host@)),
        identity is None && existing is None && !is_remote ==> recorded_hostname(
            identity,
            existing,
            is_remote,
            ssh_host,
            local_host,
        ) == Some(local_host),
        identity is None && existing is None && is_remote ==> recorded_hostname(
            identity,
            existing,
            is_remote,
            ssh_host,
            local_host,
        ) == text_option(ssh_host),
{
}

/// The summaries with one time of activity, in order.
pub open spec fn summaries_at(summaries: Seq<SessionSummary>, time: u64) -> Seq<SessionSummary>
    decreases summaries.len(),
{
    if summaries.len() == 0 {
        Seq::empty()
    } else if summaries.last().last_activity_at_ms == time {
        summaries_at(summaries.drop_last(), time).push(summaries.last())
    } else {
        summaries_at(summaries.drop_last(), time)
    }
}

proof fn lemma_with_summary_at(
    sorted: Seq<SessionSummary>,
    summary: SessionSummary,
    time: u64,
)
    requires
        activity_descends(sorted),
    ensures
        summaries_at(with_summary(sorted, summary), time) == (if summary.last_activity_at_ms
            == time {
            summaries_at(sorted, time).push(summary)
        } else {
            summaries_at(sorted, time)
        }),
    decreases sorted.len(),
{
    if sorted.len() > 0 && sorted.last().last_activity_at_ms < summary.last_activity_at_ms {
        let front = sorted.drop_last();
        assert(activity_descends(front));
        lemma_with_summary_at(front, summary, time);
        let inner = with_summary(front, summary);
        let r = inner.push(sorted.last());
        assert(r.drop_last() =~= inner);
        assert(r.last() == sorted.last());
    } else {
        let r = sorted.push(summary);
        assert(r.drop_last() =~= sorted);
        assert(r.last() == summary);
    }
}

/// Sessions with one time of activity keep the order in which they were found.
pub proof fn listing_sessions_is_stable(summaries: Seq<SessionSummary>, time: u64)
    ensures
        summaries_at(latest_first(summaries), time) == summaries_at(summaries, time),
    decreases summaries.len(),
{
    if summaries.len() > 0 {
        listing_sessions_is_stable(summaries.drop_last(), time);
        session_list_is_a_sort(summaries.drop_last());
        lemma_with_summary_at(latest_first(summaries.drop_last()), summaries.last(), time);
    }
}

/// Of two listed sessions the one that stands first was active no earlier.
pub proof fn the_latest_session_is_listed_first(summaries: Seq<SessionSummary>, i: int, j: int)
    requires
        0 <= i < j < summaries.len(),
    ensures
        latest_first(summaries)[i].last_activity_at_ms
            >= latest_first(summaries)[j].last_activity_at_ms,
{
    session_list_is_a_sort(summaries);
}

} // verus!

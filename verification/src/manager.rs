//! The owner of a runtime's persisted sessions.

use std::sync::Arc;

use vstd::prelude::*;

use crate::errors::{metadata_not_found, ErrorModel, OpenBitFunError};

verus! {

/// Where managed storage lies.
#[derive(Debug)]
pub struct PathManager {
    pub user_root: String,
}

/// Prepares the runtime directories of workspaces.
#[derive(Debug)]
pub struct WorkspaceRuntimeService {
    pub path_manager: Arc<PathManager>,
}

impl WorkspaceRuntimeService {
    /// A service for the storage of a path manager.
    pub fn new(path_manager: Arc<PathManager>) -> (r: WorkspaceRuntimeService)
        ensures
            r.path_manager == path_manager,
    {
        WorkspaceRuntimeService { path_manager }
    }
}

/// The owner of persisted sessions.
#[derive(Debug)]
pub struct PersistenceManager {
    path_manager: Arc<PathManager>,
    runtime_service: Arc<WorkspaceRuntimeService>,
}

impl PersistenceManager {
    /// The path manager in use.
    pub closed spec fn spec_path_manager(&self) -> Arc<PathManager> {
        self.path_manager
    }

    /// The runtime service in use.
    pub closed spec fn spec_runtime_service(&self) -> Arc<WorkspaceRuntimeService> {
        self.runtime_service
    }

    /// A manager for the storage of a path manager, with a runtime service for
    /// the same storage.
    pub fn new(path_manager: Arc<PathManager>) -> (r: Result<PersistenceManager, OpenBitFunError>)
        ensures
            r matches Ok(manager) && manager.spec_path_manager() == path_manager
                && manager.spec_runtime_service().path_manager == path_manager,
    {
        let runtime_service = Arc::new(WorkspaceRuntimeService::new(path_manager.clone()));
        Ok(PersistenceManager { path_manager, runtime_service })
    }

    /// The path manager.
    pub fn path_manager(&self) -> (r: &Arc<PathManager>)
        ensures
            *r == self.spec_path_manager(),
    {
        &self.path_manager
    }

    /// The runtime service.
    pub fn runtime_service(&self) -> (r: &Arc<WorkspaceRuntimeService>)
        ensures
            *r == self.spec_runtime_service(),
    {
        &self.runtime_service
    }
}

/// The sessions directory for a path: the path itself when it is a managed
/// sessions directory already, else the one that the workspace maps to.
pub fn project_sessions_dir<P>(
    is_resolved_sessions_dir: bool,
    workspace_path: P,
    mapped_sessions_dir: P,
) -> (r: P)
    ensures
        r == (if is_resolved_sessions_dir {
            workspace_path
        } else {
            mapped_sessions_dir
        }),
        forall|is_sessions_dir: spec_fn(P) -> bool, mapped: spec_fn(P) -> P|
            is_sessions_dir(workspace_path) == is_resolved_sessions_dir && mapped(workspace_path)
                == mapped_sessions_dir ==> r == #[trigger] sessions_dir_of(
                is_sessions_dir,
                mapped,
                workspace_path,
            ),
{
    if is_resolved_sessions_dir {
        workspace_path
    } else {
        mapped_sessions_dir
    }
}

/// The sessions directory for a path, given which paths are managed sessions
/// directories and where a workspace's sessions lie.
pub open spec fn sessions_dir_of<P>(
    is_sessions_dir: spec_fn(P) -> bool,
    mapped: spec_fn(P) -> P,
    path: P,
) -> P {
    if is_sessions_dir(path) {
        path
    } else {
        mapped(path)
    }
}

/// A sessions directory stands for itself, and where the directory that a
/// workspace maps to is recognized as one, finding the sessions directory of
/// what was found already changes nothing.
pub proof fn finding_the_sessions_dir_twice_is_once<P>(
    is_sessions_dir: spec_fn(P) -> bool,
    mapped: spec_fn(P) -> P,
    path: P,
)
    requires
        is_sessions_dir(mapped(path)),
    ensures
        is_sessions_dir(path) ==> sessions_dir_of(is_sessions_dir, mapped, path) == path,
        is_sessions_dir(sessions_dir_of(is_sessions_dir, mapped, path)),
        sessions_dir_of(
            is_sessions_dir,
            mapped,
            sessions_dir_of(is_sessions_dir, mapped, path),
        ) == sessions_dir_of(is_sessions_dir, mapped, path),
{
}

/// The names that lead from the sessions directory to a file of a session.
fn session_file(session_id: &str, file_name: &str) -> (r: Vec<String>)
    ensures
        r@.len() == 2,
        r@[0]@ == session_id@,
        r@[1]@ == file_name@,
{
    let mut r: Vec<String> = Vec::new();
    r.push(session_id.to_owned());
    r.push(file_name.to_owned());
    r
}

/// The names that lead to a session's evidence ledger.
pub fn evidence_ledger_path(session_id: &str) -> (r: Vec<String>)
    ensures
        r@.len() == 2,
        r@[0]@ == session_id@,
        r@[1]@ == "evidence-ledger.json"@,
{
    session_file(session_id, "evidence-ledger.json")
}

/// The names that lead to a session's token anchors.
pub fn token_anchors_path(session_id: &str) -> (r: Vec<String>)
    ensures
        r@.len() == 2,
        r@[0]@ == session_id@,
        r@[1]@ == "token-anchors.json"@,
{
    session_file(session_id, "token-anchors.json")
}

/// The names that lead to a session's staged revert.
pub fn session_revert_path(session_id: &str) -> (r: Vec<String>)
    ensures
        r@.len() == 2,
        r@[0]@ == session_id@,
        r@[1]@ == "session-revert.json"@,
{
    session_file(session_id, "session-revert.json")
}

/// Whether there can be any stored session: only when the workspace is there and
/// its sessions directory is.
pub fn lists_stored_sessions(workspace_exists: bool, sessions_dir_exists: bool) -> (r: bool)
    ensures
        r == (workspace_exists && sessions_dir_exists),
{
    workspace_exists && sessions_dir_exists
}

/// Whether the runtime directories of a workspace have to be prepared before
/// writing: not below a sessions directory that is resolved already.
pub fn prepares_runtime_for_write(is_resolved_sessions_dir: bool) -> (r: bool)
    ensures
        r == !is_resolved_sessions_dir,
{
    !is_resolved_sessions_dir
}

/// The result of an update that needs the metadata to be there.
pub fn require_metadata_update(updated: bool, session_id: &str) -> (r: Result<(), OpenBitFunError>)
    ensures
        updated ==> r is Ok,
        !updated ==> (r matches Err(e) && e@ == ErrorModel::NotFound(
            "Session metadata not found: "@ + session_id@,
        )),
{
    if updated {
        Ok(())
    } else {
        Err(metadata_not_found(session_id))
    }
}

/// A file beside the turns of a session.
#[derive(Debug, Clone, Copy, PartialEq, Eq, Structural)]
pub enum SessionSidecar {
    PromptCache,
    StagedRevert,
    TokenAnchors,
}

/// What removing a file came to.
#[derive(Debug)]
pub enum RemovalOutcome {
    Removed,
    NotThere,
    Failed { error: String },
}

/// The text before the session id in the error of a failed removal.
pub open spec fn removal_failure_prefix(sidecar: SessionSidecar) -> Seq<char> {
    match sidecar {
        SessionSidecar::PromptCache => "Failed to delete prompt cache for session "@,
        SessionSidecar::StagedRevert => "Failed to delete staged Session revert for "@,
        SessionSidecar::TokenAnchors => "Failed to delete token anchors for session "@,
    }
}

/// The result of removing a file: one that is not there needs no removing.
pub fn sidecar_removal_result(
    sidecar: SessionSidecar,
    session_id: &str,
    outcome: RemovalOutcome,
) -> (r: Result<(), OpenBitFunError>)
    ensures
        match outcome {
            RemovalOutcome::Failed { error } => r matches Err(e) && e@ == ErrorModel::Io(
                removal_failure_prefix(sidecar) + session_id@ + ": "@ + error@,
            ),
            _ => r is Ok,
        },
{
    match outcome {
        RemovalOutcome::Failed { error } => {
            let mut text: String = match sidecar {
                SessionSidecar::PromptCache => "Failed to delete prompt cache for session ".to_owned(),
                SessionSidecar::StagedRevert => "Failed to delete staged Session revert for ".to_owned(),
                SessionSidecar::TokenAnchors => "Failed to delete token anchors for session ".to_owned(),
            };
            text.append(session_id);
            text.append(": ");
            text.append(error.as_str());
            Err(OpenBitFunError::Io(text))
        },
        _ => Ok(()),
    }
}

/// The path by which the writers of a session exclude each other: the real path
/// of its directory, or of the directory around it when there is none yet, or
/// the path as it was given.
pub fn persistence_lock_identity<P>(
    session_path: P,
    real_session_path: Option<P>,
    path_below_real_parent: Option<P>,
) -> (r: P)
    ensures
        r == (match (real_session_path, path_below_real_parent) {
            (Some(resolved), _) => resolved,
            (None, Some(below)) => below,
            (None, None) => session_path,
        }),
{
    match real_session_path {
        Some(resolved) => resolved,
        None => match path_below_real_parent {
            Some(below) => below,
            None => session_path,
        },
    }
}

/// What keeping the evidence of surviving turns comes to before any is dropped.
#[derive(Debug, Clone, Copy, PartialEq, Eq, Structural)]
pub enum LedgerRetention {
    /// There is no ledger.
    Nothing,
    /// The ledger is to be cut down and written.
    Retain,
    /// The ledger disappeared in between.
    Disappeared,
}

/// Decides what keeping the evidence of surviving turns comes to.
pub fn ledger_retention(exists: bool, read: bool) -> (r: LedgerRetention)
    ensures
        r == (if !exists {
            LedgerRetention::Nothing
        } else if read {
            LedgerRetention::Retain
        } else {
            LedgerRetention::Disappeared
        }),
{
    if !exists {
        LedgerRetention::Nothing
    } else if read {
        LedgerRetention::Retain
    } else {
        LedgerRetention::Disappeared
    }
}

/// The error of a failed removal says which of the files is still there.
pub proof fn a_failed_removal_names_the_file(sidecar: SessionSidecar)
    ensures
        ({
            let told = removal_failure_prefix(sidecar).skip("Failed to delete "@.len() as int);
            &&& sidecar is PromptCache <==> told.take(12) == "prompt cache"@
            &&& sidecar is StagedRevert <==> told.take(21) == "staged Session revert"@
            &&& sidecar is TokenAnchors <==> told.take(13) == "token anchors"@
        }),
{
    reveal_strlit("Failed to delete ");
    reveal_strlit("prompt cache");
    reveal_strlit("staged Session revert");
    reveal_strlit("token anchors");
    reveal_strlit("Failed to delete prompt cache for session ");
    reveal_strlit("Failed to delete staged Session revert for ");
    reveal_strlit("Failed to delete token anchors for session ");
    let told = removal_failure_prefix(sidecar).skip("Failed to delete "@.len() as int);
    match sidecar {
        SessionSidecar::PromptCache => {
            assert(told.take(12) =~= "prompt cache"@);
            assert(told.take(21)[0] != "staged Session revert"@[0]);
            assert(told.take(13)[0] != "token anchors"@[0]);
        },
        SessionSidecar::StagedRevert => {
            assert(told.take(21) =~= "staged Session revert"@);
            assert(told.take(12)[0] != "prompt cache"@[0]);
            assert(told.take(13)[0] != "token anchors"@[0]);
        },
        SessionSidecar::TokenAnchors => {
            assert(told.take(13) =~= "token anchors"@);
            assert(told.take(12)[0] != "prompt cache"@[0]);
            assert(told.take(21)[0] != "staged Session revert"@[0]);
        },
    }
}

} // verus!

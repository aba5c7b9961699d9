//! Which workspace a remote file request is for.

use vstd::prelude::*;

use crate::text::{joined, same_text, trim, trimmed};
use crate::turn::{same_text_option, text_option};
use crate::workspace::{non_blank, non_blank_text, RemoteConnectWorkspaceKind};

verus! {

/// The workspace that a file request names.
#[derive(Debug)]
pub enum FileScope {
    /// That of a session, or the selected one.
    Session { session_id: Option<String> },
    /// One by its id. Its record says over which connection it is reached.
    WorkspaceId { workspace_id: String },
    /// One by its path and the connection over which it is reached.
    WorkspacePath { workspace_path: String, connection_id: Option<String> },
}

/// What a [`FileScope`] holds.
pub enum ScopeModel {
    Session { session_id: Option<Seq<char>> },
    WorkspaceId { workspace_id: Seq<char> },
    WorkspacePath { workspace_path: Seq<char>, connection_id: Option<Seq<char>> },
}

impl View for FileScope {
    type V = ScopeModel;

    open spec fn view(&self) -> ScopeModel {
        match self {
            FileScope::Session { session_id } => ScopeModel::Session {
                session_id: text_option(*session_id),
            },
            FileScope::WorkspaceId { workspace_id } => ScopeModel::WorkspaceId {
                workspace_id: workspace_id@,
            },
            FileScope::WorkspacePath {
                workspace_path,
                connection_id,
            } => ScopeModel::WorkspacePath {
                workspace_path: workspace_path@,
                connection_id: text_option(*connection_id),
            },
        }
    }
}

/// The contents of an optional text.
pub open spec fn str_option(o: Option<&str>) -> Option<Seq<char>> {
    match o {
        Some(s) => Some(s@),
        None => None,
    }
}

/// A connection id, unless it is the empty mark of the local machine.
pub open spec fn named_connection(id: Option<Seq<char>>) -> Option<Seq<char>> {
    match id {
        Some(s) => if s.len() > 0 {
            Some(s)
        } else {
            None
        },
        None => None,
    }
}

/// A workspace id that is not blank.
pub open spec fn named_workspace(id: Option<Seq<char>>) -> Option<Seq<char>> {
    match id {
        Some(s) => non_blank(s),
        None => None,
    }
}

/// The workspace that a file request names, or the error of a request that names
/// none or two: a session or an explicit workspace, and of an explicit workspace
/// its id. Path and connection are looked at only where there is no id.
pub open spec fn scope_of(
    session_id: Option<Seq<char>>,
    workspace_id: Option<Seq<char>>,
    workspace_path: Option<Seq<char>>,
    remote_connection_id: Option<Seq<char>>,
) -> Result<ScopeModel, Seq<char>> {
    let connection = named_connection(remote_connection_id);
    let id = named_workspace(workspace_id);
    match session_id {
        Some(session) => if id is Some || workspace_path is Some || connection is Some {
            Err("Use either a session or an explicit file workspace"@)
        } else {
            Ok(ScopeModel::Session { session_id: Some(session) })
        },
        None => match id {
            Some(id) => Ok(ScopeModel::WorkspaceId { workspace_id: id }),
            None => match workspace_path {
                Some(path) => if trimmed(path).len() > 0 {
                    Ok(ScopeModel::WorkspacePath { workspace_path: path, connection_id: connection })
                } else {
                    Err("File workspace identity is required when no session is supplied"@)
                },
                None => Err("File workspace identity is required when no session is supplied"@),
            },
        },
    }
}

/// Makes an owned text.
fn owned_option(s: Option<&str>) -> (r: Option<String>)
    ensures
        text_option(r) == str_option(s),
{
    match s {
        Some(t) => Some(t.to_owned()),
        None => None,
    }
}

/// Decides which workspace a file request names: a session or an explicit
/// workspace, never both, and of an explicit workspace its id alone where there
/// is one.
pub fn scope_remote_file_target(
    session_id: Option<&str>,
    workspace_id: Option<&str>,
    workspace_path: Option<&str>,
    remote_connection_id: Option<&str>,
) -> (r: Result<FileScope, String>)
    ensures
        match scope_of(
            str_option(session_id),
            str_option(workspace_id),
            str_option(workspace_path),
            str_option(remote_connection_id),
        ) {
            Ok(scope) => r matches Ok(found) && found@ == scope,
            Err(error) => r matches Err(e) && e@ == error,
        },
{
    let connection = match remote_connection_id {
        Some(id) => if id.is_empty() {
            None
        } else {
            Some(id)
        },
        None => None,
    };
    let id = match workspace_id {
        Some(id) => non_blank_text(id),
        None => None,
    };
    match session_id {
        Some(session) => {
            if id.is_some() || workspace_path.is_some() || connection.is_some() {
                return Err("Use either a session or an explicit file workspace".to_owned());
            }
            Ok(FileScope::Session { session_id: Some(session.to_owned()) })
        },
        None => match id {
            Some(workspace_id) => Ok(FileScope::WorkspaceId { workspace_id }),
            None => match workspace_path {
                Some(path) => if trim(path).as_str().is_empty() {
                    Err(
                        "File workspace identity is required when no session is supplied".to_owned(),
                    )
                } else {
                    Ok(
                        FileScope::WorkspacePath {
                            workspace_path: path.to_owned(),
                            connection_id: owned_option(connection),
                        },
                    )
                },
                None => Err(
                    "File workspace identity is required when no session is supplied".to_owned(),
                ),
            },
        },
    }
}

/// Whether the connection of a workspace that was found by its path is exactly
/// the one that was given.
pub fn check_workspace_path_connection(
    connection_id: &Option<String>,
    binding_connection_id: &Option<String>,
) -> (r: Result<(), String>)
    ensures
        if text_option(*connection_id) != text_option(*binding_connection_id) {
            r matches Err(e) && e@
                == "Explicit file workspace provider does not match its connection identity"@
        } else {
            r is Ok
        },
{
    if same_text_option(connection_id, binding_connection_id) {
        Ok(())
    } else {
        Err("Explicit file workspace provider does not match its connection identity".to_owned())
    }
}

/// Whether a connection is among those that are saved.
pub fn check_saved_connection(saved: &Vec<String>, connection_id: &str) -> (r: Result<(), String>)
    ensures
        if exists|i: int| 0 <= i < saved@.len() && (#[trigger] saved@[i])@ == connection_id@ {
            r is Ok
        } else {
            r matches Err(e) && e@ == "File workspace connection is not saved on this runtime"@
        },
{
    let mut i: usize = 0;
    while i < saved.len()
        invariant
            i <= saved@.len(),
            forall|j: int| 0 <= j < i ==> (#[trigger] saved@[j])@ != connection_id@,
        decreases saved@.len() - i,
    {
        if same_text(saved[i].as_str(), connection_id) {
            return Ok(());
        }
        i += 1;
    }
    Err("File workspace connection is not saved on this runtime".to_owned())
}

/// The machine that a file is on: `local`, or the connection that leads to it.
pub open spec fn target_id(remote: bool, connection_id: Option<Seq<char>>) -> Option<Seq<char>> {
    if remote {
        connection_id
    } else {
        Some("local"@)
    }
}

/// The machine that a file is on, in the workspace of a session or of a path. A
/// remote file without a connection has none.
pub fn file_target_id(remote: bool, connection_id: &Option<String>) -> (r: Result<String, String>)
    ensures
        match target_id(remote, text_option(*connection_id)) {
            Some(id) => r matches Ok(found) && found@ == id,
            None => r matches Err(e) && e@ == "Remote file target has no connection identity"@,
        },
{
    if remote {
        match connection_id {
            Some(id) => Ok(id.clone()),
            None => Err("Remote file target has no connection identity".to_owned()),
        }
    } else {
        Ok("local".to_owned())
    }
}

/// The machine that a file is on, in a workspace that was found by its id: that
/// of the workspace's connection, also for a file that stays on this machine. A
/// remote file is never on `local`.
pub fn workspace_file_target_id(remote: bool, binding_connection_id: &Option<String>) -> (r: Result<
    String,
    String,
>)
    ensures
        ({
            let id = match *binding_connection_id {
                Some(connection) => connection@,
                None => "local"@,
            };
            if remote && id == "local"@ {
                r matches Err(e) && e@ == "Remote file target has no connection identity"@
            } else {
                r matches Ok(found) && found@ == id
            }
        }),
{
    let id = match binding_connection_id {
        Some(connection) => connection.clone(),
        None => "local".to_owned(),
    };
    if remote && same_text(id.as_str(), "local") {
        Err("Remote file target has no connection identity".to_owned())
    } else {
        Ok(id)
    }
}

/// Whether files can be reached in the selected workspace: a remote one needs a
/// connection.
pub fn check_selected_workspace(
    selected: Option<RemoteConnectWorkspaceKind>,
    has_connection: bool,
) -> (r: Result<(), String>)
    ensures
        match selected {
            None => r matches Err(e) && e@ == "No workspace selected for file access"@,
            Some(kind) => if kind == RemoteConnectWorkspaceKind::Remote && !has_connection {
                r matches Err(e) && e@ == "Remote workspace connection identity is unavailable"@
            } else {
                r is Ok
            },
        },
{
    match selected {
        None => Err("No workspace selected for file access".to_owned()),
        Some(kind) => if kind == RemoteConnectWorkspaceKind::Remote && !has_connection {
            Err("Remote workspace connection identity is unavailable".to_owned())
        } else {
            Ok(())
        },
    }
}

/// The error for a workspace id that leads to no workspace.
pub fn unresolved_workspace_error(workspace_id: &str) -> (r: String)
    ensures
        r@ == "File workspace "@ + workspace_id@ + " cannot be resolved"@,
{
    let mut text: String = joined("File workspace ", workspace_id);
    text.append(" cannot be resolved");
    text
}

/// A workspace of a session, or the selected one, when no session is named.
#[derive(Debug)]
pub enum FileRootSource {
    /// The workspace of the named session, and whether it is remote.
    SessionWorkspace { root_path: String, is_remote: bool },
    /// The selected workspace.
    SelectedWorkspace { path: String, kind: RemoteConnectWorkspaceKind },
}

/// The local directory for file requests. A named session never borrows the
/// selected workspace, and a remote workspace has no local directory.
pub fn remote_file_workspace_root(source: Option<FileRootSource>) -> (r: Option<String>)
    ensures
        r == (match source {
            Some(FileRootSource::SessionWorkspace { root_path, is_remote }) => if is_remote {
                None
            } else {
                Some(root_path)
            },
            Some(FileRootSource::SelectedWorkspace { path, kind }) => if kind
                == RemoteConnectWorkspaceKind::Remote {
                None
            } else {
                Some(path)
            },
            None => None,
        }),
{
    match source {
        Some(FileRootSource::SessionWorkspace { root_path, is_remote }) => if is_remote {
            None
        } else {
            Some(root_path)
        },
        Some(FileRootSource::SelectedWorkspace { path, kind }) => if kind
            == RemoteConnectWorkspaceKind::Remote {
            None
        } else {
            Some(path)
        },
        None => None,
    }
}

/// The machine that a file is on for a request of this scope, once its workspace
/// was found and the file resolved in it; none when the workspace is not the one
/// that was named, or a remote file has no connection.
pub open spec fn scoped_target_id(
    scope: ScopeModel,
    binding_connection: Option<Seq<char>>,
    remote: bool,
) -> Option<Seq<char>> {
    match scope {
        ScopeModel::Session { session_id } => target_id(remote, binding_connection),
        ScopeModel::WorkspaceId { workspace_id } => {
            let id = match binding_connection {
                Some(connection) => connection,
                None => "local"@,
            };
            if remote && id == "local"@ {
                None
            } else {
                Some(id)
            }
        },
        ScopeModel::WorkspacePath { workspace_path, connection_id } => if connection_id
            != binding_connection {
            None
        } else {
            target_id(remote, connection_id)
        },
    }
}

/// Whether the workspace that was found is the one that the scope names. What is
/// found by an id or a session is.
pub open spec fn is_named_workspace(
    scope: ScopeModel,
    binding_connection: Option<Seq<char>>,
) -> bool {
    match scope {
        ScopeModel::WorkspacePath { workspace_path, connection_id } => connection_id
            == binding_connection,
        _ => true,
    }
}

/// The machine that a file is on for a request of this scope, or the error.
pub open spec fn scoped_target(
    scope: ScopeModel,
    binding_connection: Option<Seq<char>>,
    remote: bool,
) -> Result<Seq<char>, Seq<char>> {
    match scoped_target_id(scope, binding_connection, remote) {
        Some(id) => Ok(id),
        None => if is_named_workspace(scope, binding_connection) {
            Err("Remote file target has no connection identity"@)
        } else {
            Err("Explicit file workspace provider does not match its connection identity"@)
        },
    }
}

/// Decides [`scoped_target`].
pub fn file_target_identity(
    scope: &FileScope,
    binding_connection_id: &Option<String>,
    remote: bool,
) -> (r: Result<String, String>)
    ensures
        match scoped_target(scope@, text_option(*binding_connection_id), remote) {
            Ok(id) => r matches Ok(found) && found@ == id,
            Err(error) => r matches Err(e) && e@ == error,
        },
{
    match scope {
        FileScope::Session { session_id: _ } => file_target_id(remote, binding_connection_id),
        FileScope::WorkspaceId { workspace_id: _ } => workspace_file_target_id(
            remote,
            binding_connection_id,
        ),
        FileScope::WorkspacePath { workspace_path: _, connection_id } => {
            match check_workspace_path_connection(connection_id, binding_connection_id) {
                Ok(_) => file_target_id(remote, connection_id),
                Err(e) => Err(e),
            }
        },
    }
}

/// The answer to a file request. `found` is the connection of the workspace that
/// each scope leads to, and `remote` whether the file is remote there.
pub open spec fn file_request_answer(
    session_id: Option<Seq<char>>,
    workspace_id: Option<Seq<char>>,
    workspace_path: Option<Seq<char>>,
    remote_connection_id: Option<Seq<char>>,
    found: spec_fn(ScopeModel) -> Option<Seq<char>>,
    remote: spec_fn(ScopeModel) -> bool,
) -> Result<Seq<char>, Seq<char>> {
    match scope_of(session_id, workspace_id, workspace_path, remote_connection_id) {
        Ok(scope) => scoped_target(scope, found(scope), remote(scope)),
        Err(error) => Err(error),
    }
}

/// A workspace id is authoritative: with one, the answer to a file request does
/// not depend on path or connection, and a connection that differs from the
/// record's is no reason to refuse.
pub proof fn a_workspace_id_decides_alone(
    workspace_id: Seq<char>,
    workspace_path: Option<Seq<char>>,
    remote_connection_id: Option<Seq<char>>,
    found: spec_fn(ScopeModel) -> Option<Seq<char>>,
    remote: spec_fn(ScopeModel) -> bool,
)
    requires
        non_blank(workspace_id) is Some,
    ensures
        scope_of(None, Some(workspace_id), workspace_path, remote_connection_id) == Ok::<
            ScopeModel,
            Seq<char>,
        >(ScopeModel::WorkspaceId { workspace_id: trimmed(workspace_id) }),
        file_request_answer(
            None,
            Some(workspace_id),
            workspace_path,
            remote_connection_id,
            found,
            remote,
        ) == file_request_answer(None, Some(workspace_id), None, None, found, remote),
        ({
            let scope = ScopeModel::WorkspaceId { workspace_id: trimmed(workspace_id) };
            !remote(scope) ==> file_request_answer(
                None,
                Some(workspace_id),
                workspace_path,
                remote_connection_id,
                found,
                remote,
            ) == Ok::<Seq<char>, Seq<char>>(
                match found(scope) {
                    Some(connection) => connection,
                    None => "local"@,
                },
            )
        }),
{
}

/// A remote file is reached over the connection of the workspace that was found,
/// under every scope.
pub proof fn remote_files_are_reached_over_their_own_connection(
    scope: ScopeModel,
    binding_connection: Option<Seq<char>>,
)
    ensures
        scoped_target_id(scope, binding_connection, true) is Some ==> scoped_target_id(
            scope,
            binding_connection,
            true,
        ) == binding_connection,
{
}

/// A request names one workspace: a session goes with nothing else, and without a
/// session there has to be an id or a path that is not blank. An id goes before a
/// path, and an empty connection is none.
pub proof fn a_request_names_one_workspace(
    session: Seq<char>,
    id: Option<Seq<char>>,
    path: Option<Seq<char>>,
    connection: Option<Seq<char>>,
)
    ensures
        ({
            let has_id = id matches Some(text) && trimmed(text).len() > 0;
            let has_connection = connection matches Some(text) && text.len() > 0;
            let with_session = scope_of(Some(session), id, path, connection);
            let without = scope_of(None, id, path, connection);
            &&& with_session is Err <==> has_id || path is Some || has_connection
            &&& with_session is Ok ==> with_session->Ok_0 == (ScopeModel::Session {
                session_id: Some(session),
            })
            &&& without is Err <==> !has_id && (path is None || trimmed(path->0).len() == 0)
            &&& has_id ==> without == Ok::<ScopeModel, Seq<char>>(
                ScopeModel::WorkspaceId { workspace_id: trimmed(id->0) },
            )
            &&& !has_id && without is Ok ==> without->Ok_0 == (ScopeModel::WorkspacePath {
                workspace_path: path->0,
                connection_id: if has_connection {
                    connection
                } else {
                    None
                },
            })
        }),
{
}

/// A file that stays on this machine is on `local` for a session, and for a path
/// that was named without a connection; for an id it is where the workspace is. A
/// remote file needs a connection, and one under a path has to be reached over
/// exactly the connection that was named.
pub proof fn a_file_is_where_its_workspace_is(
    session_id: Option<Seq<char>>,
    workspace_id: Seq<char>,
    path: Seq<char>,
    named: Option<Seq<char>>,
    binding: Option<Seq<char>>,
)
    ensures
        scoped_target_id(ScopeModel::Session { session_id }, binding, false) == Some("local"@),
        scoped_target_id(ScopeModel::Session { session_id }, binding, true) == binding,
        scoped_target_id(
            ScopeModel::WorkspacePath { workspace_path: path, connection_id: named },
            binding,
            false,
        ) == (if named == binding {
            Some("local"@)
        } else {
            None
        }),
        scoped_target_id(
            ScopeModel::WorkspacePath { workspace_path: path, connection_id: named },
            binding,
            true,
        ) == (if named == binding {
            binding
        } else {
            None
        }),
        binding is Some ==> scoped_target_id(ScopeModel::WorkspaceId { workspace_id }, binding, false)
            == binding,
        scoped_target_id(ScopeModel::WorkspaceId { workspace_id }, None, false) == Some("local"@),
        scoped_target_id(ScopeModel::WorkspaceId { workspace_id }, None, true) is None,
        scoped_target_id(ScopeModel::WorkspaceId { workspace_id }, Some("local"@), true) is None,
        scoped_target(ScopeModel::WorkspacePath { workspace_path: path, connection_id: named }, binding, true)
            is Ok <==> named == binding && binding is Some,
{
}

} // verus!

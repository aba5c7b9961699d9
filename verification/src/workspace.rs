//! Workspaces as remote clients see them.

use vstd::prelude::*;

use crate::json::{field_models, field_value, find_field, JsonField, JsonModel};
use crate::session::SessionMetadata;
use crate::text::{joined, same_text, trim, trimmed};
use crate::turn::{copy_text_option, text_option};

verus! {

/// What a workspace is.
#[derive(Debug, Clone, Copy, PartialEq, Eq, Structural)]
pub enum WorkspaceKind {
    Normal,
    Assistant,
    Remote,
}

/// The same as remote clients know it.
#[derive(Debug, Clone, Copy, PartialEq, Eq, Structural)]
pub enum RemoteConnectWorkspaceKind {
    Normal,
    Assistant,
    Remote,
}

/// A workspace record. `identity_name` is the name that its assistant goes by.
#[derive(Debug)]
pub struct WorkspaceInfo {
    pub id: String,
    pub name: String,
    pub root_path: String,
    pub workspace_kind: WorkspaceKind,
    pub assistant_id: Option<String>,
    pub identity_name: Option<String>,
    pub last_accessed: String,
    pub metadata: Vec<JsonField>,
}

/// How the kind of a workspace is shown.
pub open spec fn shown_kind(kind: WorkspaceKind) -> RemoteConnectWorkspaceKind {
    match kind {
        WorkspaceKind::Normal => RemoteConnectWorkspaceKind::Normal,
        WorkspaceKind::Assistant => RemoteConnectWorkspaceKind::Assistant,
        WorkspaceKind::Remote => RemoteConnectWorkspaceKind::Remote,
    }
}

/// The kind of a workspace for remote clients.
pub fn remote_workspace_kind(kind: WorkspaceKind) -> (r: RemoteConnectWorkspaceKind)
    ensures
        r == shown_kind(kind),
{
    match kind {
        WorkspaceKind::Normal => RemoteConnectWorkspaceKind::Normal,
        WorkspaceKind::Assistant => RemoteConnectWorkspaceKind::Assistant,
        WorkspaceKind::Remote => RemoteConnectWorkspaceKind::Remote,
    }
}

/// Text without surrounding white space, when anything is left of it.
pub open spec fn non_blank(s: Seq<char>) -> Option<Seq<char>> {
    if trimmed(s).len() > 0 {
        Some(trimmed(s))
    } else {
        None
    }
}

/// Makes [`non_blank`].
pub fn non_blank_text(s: &str) -> (r: Option<String>)
    ensures
        text_option(r) == non_blank(s@),
{
    let t = trim(s);
    if t.as_str().is_empty() {
        None
    } else {
        Some(t)
    }
}

/// The text under a key of a workspace's metadata.
pub open spec fn metadata_text(metadata: Seq<JsonField>, key: Seq<char>) -> Option<Seq<char>> {
    match field_value(field_models(metadata), key) {
        Some(JsonModel::Text(s)) => non_blank(s),
        _ => None,
    }
}

/// The text under a key of a workspace's metadata, when it is not blank.
pub fn workspace_metadata_string(metadata: &Vec<JsonField>, key: &str) -> (r: Option<String>)
    ensures
        text_option(r) == metadata_text(metadata@, key@),
{
    let at = find_field(metadata, key);
    if at < metadata.len() {
        assert(field_models(metadata@)[at as int].1 == metadata@[at as int].value@);
        match metadata[at].value.as_str() {
            Some(s) => non_blank_text(s),
            None => None,
        }
    } else {
        None
    }
}

/// What a workspace says of where it is: nothing unless it is remote.
pub open spec fn routing_text(
    kind: WorkspaceKind,
    metadata: Seq<JsonField>,
    key: Seq<char>,
) -> Option<Seq<char>> {
    if kind == WorkspaceKind::Remote {
        metadata_text(metadata, key)
    } else {
        None
    }
}

/// The text under a key of a remote workspace's metadata. The host that a local
/// workspace is marked with leads nowhere.
pub fn remote_workspace_metadata(
    kind: WorkspaceKind,
    metadata: &Vec<JsonField>,
    key: &str,
) -> (r: Option<String>)
    ensures
        text_option(r) == routing_text(kind, metadata@, key@),
{
    if kind != WorkspaceKind::Remote {
        return None;
    }
    workspace_metadata_string(metadata, key)
}

/// A local workspace never says where to connect, whatever its metadata holds.
pub proof fn local_workspaces_give_no_route(
    kind: WorkspaceKind,
    metadata: Seq<JsonField>,
    key: Seq<char>,
)
    requires
        kind != WorkspaceKind::Remote,
    ensures
        routing_text(kind, metadata, key) is None,
{
}

/// The name under which a workspace is shown.
pub open spec fn shown_name(workspace: WorkspaceInfo) -> Seq<char> {
    if workspace.workspace_kind == WorkspaceKind::Assistant {
        match workspace.identity_name {
            Some(name) => match non_blank(name@) {
                Some(shown) => shown,
                None => workspace.name@,
            },
            None => workspace.name@,
        }
    } else {
        workspace.name@
    }
}

/// The name under which a workspace is shown: that of its assistant when it has
/// one, else its own.
pub fn remote_workspace_display_name(workspace: &WorkspaceInfo) -> (r: String)
    ensures
        r@ == shown_name(*workspace),
{
    if workspace.workspace_kind == WorkspaceKind::Assistant {
        match &workspace.identity_name {
            Some(name) => match non_blank_text(name.as_str()) {
                Some(shown) => shown,
                None => workspace.name.clone(),
            },
            None => workspace.name.clone(),
        }
    } else {
        workspace.name.clone()
    }
}

/// The branch that git named, unless no branch is checked out.
pub fn git_branch_from_output(output: &Option<String>) -> (r: Option<String>)
    ensures
        text_option(r) == (match *output {
            Some(s) => match non_blank(s@) {
                Some(branch) => if branch == "HEAD"@ {
                    None
                } else {
                    Some(branch)
                },
                None => None,
            },
            None => None,
        }),
{
    match output {
        Some(s) => match non_blank_text(s.as_str()) {
            Some(branch) => if same_text(branch.as_str(), "HEAD") {
                None
            } else {
                Some(branch)
            },
            None => None,
        },
        None => None,
    }
}

/// What remote clients know of a workspace.
#[derive(Debug)]
pub struct RemoteWorkspaceFacts {
    pub workspace_id: String,
    pub path: String,
    pub name: String,
    pub git_branch: Option<String>,
    pub kind: RemoteConnectWorkspaceKind,
    pub assistant_id: Option<String>,
    pub remote_connection_id: Option<String>,
    pub remote_ssh_host: Option<String>,
}

/// What remote clients know of a workspace that was used before.
#[derive(Debug)]
pub struct RemoteRecentWorkspaceFacts {
    pub workspace_id: String,
    pub path: String,
    pub name: String,
    pub last_opened: String,
    pub kind: RemoteConnectWorkspaceKind,
    pub remote_connection_id: Option<String>,
    pub remote_ssh_host: Option<String>,
}

/// What remote clients learn of a workspace that was selected.
#[derive(Debug)]
pub struct RemoteWorkspaceUpdate {
    pub workspace_id: String,
    pub path: String,
    pub name: String,
    pub remote_connection_id: Option<String>,
    pub remote_ssh_host: Option<String>,
}

/// What remote clients know of a workspace, with the branch that is checked out
/// in it where that was asked for.
pub fn remote_workspace_facts_from_record(
    workspace: &WorkspaceInfo,
    git_branch: Option<String>,
) -> (r: RemoteWorkspaceFacts)
    ensures
        r.workspace_id == workspace.id,
        r.path == workspace.root_path,
        r.name == workspace.name,
        r.git_branch == git_branch,
        r.kind == shown_kind(workspace.workspace_kind),
        r.assistant_id == workspace.assistant_id,
        text_option(r.remote_connection_id) == routing_text(
            workspace.workspace_kind,
            workspace.metadata@,
            "connectionId"@,
        ),
        text_option(r.remote_ssh_host) == routing_text(
            workspace.workspace_kind,
            workspace.metadata@,
            "sshHost"@,
        ),
{
    RemoteWorkspaceFacts {
        workspace_id: workspace.id.clone(),
        path: workspace.root_path.clone(),
        name: workspace.name.clone(),
        git_branch,
        kind: remote_workspace_kind(workspace.workspace_kind),
        assistant_id: copy_text_option(&workspace.assistant_id),
        remote_connection_id: remote_workspace_metadata(
            workspace.workspace_kind,
            &workspace.metadata,
            "connectionId",
        ),
        remote_ssh_host: remote_workspace_metadata(
            workspace.workspace_kind,
            &workspace.metadata,
            "sshHost",
        ),
    }
}

/// Whether facts are those of a workspace, under this name.
pub open spec fn is_recent_workspace(
    facts: RemoteRecentWorkspaceFacts,
    workspace: WorkspaceInfo,
    name: Seq<char>,
) -> bool {
    &&& facts.workspace_id == workspace.id
    &&& facts.path == workspace.root_path
    &&& facts.name@ == name
    &&& facts.last_opened == workspace.last_accessed
    &&& facts.kind == shown_kind(workspace.workspace_kind)
    &&& text_option(facts.remote_connection_id) == routing_text(
        workspace.workspace_kind,
        workspace.metadata@,
        "connectionId"@,
    )
    &&& text_option(facts.remote_ssh_host) == routing_text(
        workspace.workspace_kind,
        workspace.metadata@,
        "sshHost"@,
    )
}

/// What remote clients know of one workspace, under a name.
fn recent_workspace_facts(workspace: &WorkspaceInfo, name: String) -> (r:
    RemoteRecentWorkspaceFacts)
    ensures
        is_recent_workspace(r, *workspace, name@),
{
    RemoteRecentWorkspaceFacts {
        workspace_id: workspace.id.clone(),
        path: workspace.root_path.clone(),
        name,
        last_opened: workspace.last_accessed.clone(),
        kind: remote_workspace_kind(workspace.workspace_kind),
        remote_connection_id: remote_workspace_metadata(
            workspace.workspace_kind,
            &workspace.metadata,
            "connectionId",
        ),
        remote_ssh_host: remote_workspace_metadata(
            workspace.workspace_kind,
            &workspace.metadata,
            "sshHost",
        ),
    }
}

/// The open workspaces, each under the name that it is shown by.
pub fn remote_opened_workspace_catalog(workspaces: &Vec<WorkspaceInfo>) -> (r: Vec<
    RemoteRecentWorkspaceFacts,
>)
    ensures
        r@.len() == workspaces@.len(),
        forall|i: int|
            0 <= i < r@.len() ==> is_recent_workspace(
                #[trigger] r@[i],
                workspaces@[i],
                shown_name(workspaces@[i]),
            ),
{
    let mut r: Vec<RemoteRecentWorkspaceFacts> = Vec::new();
    let mut i: usize = 0;
    while i < workspaces.len()
        invariant
            i <= workspaces@.len(),
            r@.len() == i,
            forall|j: int|
                0 <= j < i ==> is_recent_workspace(
                    #[trigger] r@[j],
                    workspaces@[j],
                    shown_name(workspaces@[j]),
                ),
        decreases workspaces@.len() - i,
    {
        let name = remote_workspace_display_name(&workspaces[i]);
        r.push(recent_workspace_facts(&workspaces[i], name));
        i += 1;
    }
    r
}

/// The workspaces that were used before, each under its own name.
pub fn recent_workspaces(workspaces: &Vec<WorkspaceInfo>) -> (r: Vec<RemoteRecentWorkspaceFacts>)
    ensures
        r@.len() == workspaces@.len(),
        forall|i: int|
            0 <= i < r@.len() ==> is_recent_workspace(
                #[trigger] r@[i],
                workspaces@[i],
                workspaces@[i].name@,
            ),
{
    let mut r: Vec<RemoteRecentWorkspaceFacts> = Vec::new();
    let mut i: usize = 0;
    while i < workspaces.len()
        invariant
            i <= workspaces@.len(),
            r@.len() == i,
            forall|j: int|
                0 <= j < i ==> is_recent_workspace(
                    #[trigger] r@[j],
                    workspaces@[j],
                    workspaces@[j].name@,
                ),
        decreases workspaces@.len() - i,
    {
        let name = workspaces[i].name.clone();
        r.push(recent_workspace_facts(&workspaces[i], name));
        i += 1;
    }
    r
}

/// What remote clients learn of a workspace that was selected by its id.
pub fn selected_workspace_update(workspace: &WorkspaceInfo) -> (r: RemoteWorkspaceUpdate)
    ensures
        r.workspace_id == workspace.id,
        r.path == workspace.root_path,
        r.name == workspace.name,
        text_option(r.remote_connection_id) == routing_text(
            workspace.workspace_kind,
            workspace.metadata@,
            "connectionId"@,
        ),
        text_option(r.remote_ssh_host) == routing_text(
            workspace.workspace_kind,
            workspace.metadata@,
            "sshHost"@,
        ),
{
    RemoteWorkspaceUpdate {
        workspace_id: workspace.id.clone(),
        path: workspace.root_path.clone(),
        name: workspace.name.clone(),
        remote_connection_id: remote_workspace_metadata(
            workspace.workspace_kind,
            &workspace.metadata,
            "connectionId",
        ),
        remote_ssh_host: remote_workspace_metadata(
            workspace.workspace_kind,
            &workspace.metadata,
            "sshHost",
        ),
    }
}

/// What remote clients learn of a workspace that was opened by its path, with
/// the connection that it was opened over.
pub fn opened_workspace_update(
    workspace: &WorkspaceInfo,
    remote_connection_id: Option<String>,
) -> (r: RemoteWorkspaceUpdate)
    ensures
        r.workspace_id == workspace.id,
        r.path == workspace.root_path,
        r.name == workspace.name,
        r.remote_connection_id == remote_connection_id,
        text_option(r.remote_ssh_host) == routing_text(
            workspace.workspace_kind,
            workspace.metadata@,
            "sshHost"@,
        ),
{
    RemoteWorkspaceUpdate {
        workspace_id: workspace.id.clone(),
        path: workspace.root_path.clone(),
        name: workspace.name.clone(),
        remote_connection_id,
        remote_ssh_host: remote_workspace_metadata(
            workspace.workspace_kind,
            &workspace.metadata,
            "sshHost",
        ),
    }
}

/// Whether a workspace may be selected as that of an assistant.
pub fn check_assistant_workspace(kind: WorkspaceKind) -> (r: Result<(), String>)
    ensures
        kind == WorkspaceKind::Assistant ==> r is Ok,
        kind != WorkspaceKind::Assistant ==> (r matches Err(e) && e@
            == "Selected workspace is not an assistant workspace"@),
{
    if kind == WorkspaceKind::Assistant {
        Ok(())
    } else {
        Err("Selected workspace is not an assistant workspace".to_owned())
    }
}

/// The workspace id under which sessions are listed.
pub fn require_workspace_id(workspace_id: &Option<String>, workspace_path: &str) -> (r: Result<
    String,
    String,
>)
    ensures
        match *workspace_id {
            Some(id) => match non_blank(id@) {
                Some(trimmed_id) => r matches Ok(found) && found@ == trimmed_id,
                None => r matches Err(e) && e@
                    == "Workspace ID is required to list sessions for "@ + workspace_path@,
            },
            None => r matches Err(e) && e@
                == "Workspace ID is required to list sessions for "@ + workspace_path@,
        },
{
    let found = match workspace_id {
        Some(id) => non_blank_text(id.as_str()),
        None => None,
    };
    match found {
        Some(id) => Ok(id),
        None => Err(joined("Workspace ID is required to list sessions for ", workspace_path)),
    }
}

/// How a session relates to the one it came from.
#[derive(Debug, Clone, Copy, PartialEq, Eq, Structural)]
pub enum SessionRelationshipKind {
    Btw,
    Review,
    DeepReview,
    Miniapp,
    Subagent,
}

/// The relation of a session to the one it came from.
#[derive(Debug)]
pub struct SessionRelationship {
    pub kind: Option<SessionRelationshipKind>,
    pub parent_session_id: Option<String>,
}

/// What remote clients know of a session.
#[derive(Debug)]
pub struct RemoteSessionMetadata {
    pub workspace_id: Option<String>,
    pub session_id: String,
    pub name: String,
    pub agent_type: String,
    pub created_at_ms: u64,
    pub last_active_at_ms: u64,
    pub turn_count: usize,
    pub parent_session_id: Option<String>,
    pub relationship_kind: Option<String>,
}

/// The name of a relation.
pub open spec fn relationship_name(kind: SessionRelationshipKind) -> Seq<char> {
    match kind {
        SessionRelationshipKind::Btw => "btw"@,
        SessionRelationshipKind::Review => "review"@,
        SessionRelationshipKind::DeepReview => "deep_review"@,
        SessionRelationshipKind::Miniapp => "miniapp"@,
        SessionRelationshipKind::Subagent => "subagent"@,
    }
}

/// Writes the name of a relation.
fn relationship_text(kind: SessionRelationshipKind) -> (r: String)
    ensures
        r@ == relationship_name(kind),
{
    match kind {
        SessionRelationshipKind::Btw => "btw".to_owned(),
        SessionRelationshipKind::Review => "review".to_owned(),
        SessionRelationshipKind::DeepReview => "deep_review".to_owned(),
        SessionRelationshipKind::Miniapp => "miniapp".to_owned(),
        SessionRelationshipKind::Subagent => "subagent".to_owned(),
    }
}

/// What remote clients know of a session. A session that names no workspace
/// belongs to the one under which it was listed.
pub fn remote_session_metadata(
    session: SessionMetadata,
    relationship: Option<SessionRelationship>,
    workspace_id: &str,
) -> (r: RemoteSessionMetadata)
    ensures
        text_option(r.workspace_id) == Some(
            match session.workspace_id {
                Some(id) => id@,
                None => workspace_id@,
            },
        ),
        r.session_id == session.session_id,
        r.name == session.session_name,
        r.agent_type == session.agent_type,
        r.created_at_ms == session.created_at,
        r.last_active_at_ms == session.last_active_at,
        r.turn_count == session.turn_count,
        r.parent_session_id == (match relationship {
            Some(relation) => relation.parent_session_id,
            None => None,
        }),
        text_option(r.relationship_kind) == (match relationship {
            Some(relation) => match relation.kind {
                Some(kind) => Some(relationship_name(kind)),
                None => None,
            },
            None => None,
        }),
{
    let (parent_session_id, relationship_kind) = match relationship {
        Some(relation) => {
            let kind = match relation.kind {
                Some(kind) => Some(relationship_text(kind)),
                None => None,
            };
            (relation.parent_session_id, kind)
        },
        None => (None, None),
    };
    RemoteSessionMetadata {
        workspace_id: match session.workspace_id {
            Some(id) => Some(id),
            None => Some(workspace_id.to_owned()),
        },
        session_id: session.session_id,
        name: session.session_name,
        agent_type: session.agent_type,
        created_at_ms: session.created_at,
        last_active_at_ms: session.last_active_at,
        turn_count: session.turn_count,
        parent_session_id,
        relationship_kind,
    }
}

/// What remote clients know of the workspace of an assistant.
#[derive(Debug)]
pub struct RemoteAssistantWorkspaceFacts {
    pub workspace_id: String,
    pub path: String,
    pub name: String,
    pub assistant_id: Option<String>,
}

/// Whether facts are those of an assistant's workspace.
pub open spec fn is_assistant_workspace(
    facts: RemoteAssistantWorkspaceFacts,
    workspace: WorkspaceInfo,
) -> bool {
    &&& facts.workspace_id == workspace.id
    &&& facts.path == workspace.root_path
    &&& facts.name == workspace.name
    &&& facts.assistant_id == workspace.assistant_id
}

/// The workspaces of assistants, in their order.
pub fn assistant_workspaces(workspaces: Vec<WorkspaceInfo>) -> (r: Vec<
    RemoteAssistantWorkspaceFacts,
>)
    ensures
        r@.len() == workspaces@.len(),
        forall|i: int|
            0 <= i < r@.len() ==> is_assistant_workspace(#[trigger] r@[i], workspaces@[i]),
{
    let ghost all = workspaces@;
    let mut r: Vec<RemoteAssistantWorkspaceFacts> = Vec::new();
    for workspace in it: workspaces
        invariant
            it.seq() == all,
            r@.len() == it.index(),
            forall|i: int| 0 <= i < r@.len() ==> is_assistant_workspace(#[trigger] r@[i], all[i]),
    {
        assert(workspace == all[it.index() as int]);
        r.push(
            RemoteAssistantWorkspaceFacts {
                workspace_id: workspace.id,
                path: workspace.root_path,
                name: workspace.name,
                assistant_id: workspace.assistant_id,
            },
        );
    }
    r
}

/// The kind of a workspace is shown as what it is.
pub proof fn kinds_are_shown_as_they_are(kind: WorkspaceKind)
    ensures
        shown_kind(kind) == RemoteConnectWorkspaceKind::Normal <==> kind == WorkspaceKind::Normal,
        shown_kind(kind) == RemoteConnectWorkspaceKind::Assistant <==> kind
            == WorkspaceKind::Assistant,
        shown_kind(kind) == RemoteConnectWorkspaceKind::Remote <==> kind == WorkspaceKind::Remote,
{
}

/// A text is taken without the white space around it, and a blank one not at all.
pub proof fn blank_texts_are_none(s: Seq<char>)
    ensures
        trimmed(s).len() == 0 ==> non_blank(s) is None,
        trimmed(s).len() > 0 ==> non_blank(s) == Some(trimmed(s)),
{
}

/// What metadata says under a key is the text of that member, where there is one
/// and it is not blank; only a remote workspace says where it is.
pub proof fn metadata_says_what_its_member_says(
    kind: WorkspaceKind,
    metadata: Seq<JsonField>,
    key: Seq<char>,
)
    ensures
        ({
            let member = field_value(field_models(metadata), key);
            &&& member is None ==> metadata_text(metadata, key) is None
            &&& member matches Some(value) ==> (!(value is Text) ==> metadata_text(metadata, key)
                is None)
            &&& member matches Some(JsonModel::Text(s)) ==> (trimmed(s).len() == 0
                ==> metadata_text(metadata, key) is None)
            &&& member matches Some(JsonModel::Text(s)) ==> (trimmed(s).len() > 0 ==> metadata_text(
                metadata,
                key,
            ) == Some(trimmed(s)))
            &&& kind == WorkspaceKind::Remote ==> routing_text(kind, metadata, key)
                == metadata_text(metadata, key)
            &&& kind != WorkspaceKind::Remote ==> routing_text(kind, metadata, key) is None
        }),
{
}

/// A workspace is shown under its own name, but that of an assistant under the
/// name of the assistant where that is not blank.
pub proof fn only_assistants_lend_their_name(workspace: WorkspaceInfo)
    ensures
        workspace.workspace_kind != WorkspaceKind::Assistant ==> shown_name(workspace)
            == workspace.name@,
        workspace.identity_name is None ==> shown_name(workspace) == workspace.name@,
        workspace.identity_name matches Some(name) ==> (trimmed(name@).len() == 0 ==> shown_name(
            workspace,
        ) == workspace.name@),
        workspace.workspace_kind == WorkspaceKind::Assistant ==> (
        workspace.identity_name matches Some(name) ==> (trimmed(name@).len() > 0 ==> shown_name(
            workspace,
        ) == trimmed(name@))),
{
}

/// The name of a relation tells the five apart.
pub proof fn relation_names_tell_relations_apart(
    a: SessionRelationshipKind,
    b: SessionRelationshipKind,
)
    ensures
        relationship_name(a) == relationship_name(b) <==> a == b,
        relationship_name(SessionRelationshipKind::Btw) == seq!['b', 't', 'w'],
        relationship_name(SessionRelationshipKind::Review) == seq!['r', 'e', 'v', 'i', 'e', 'w'],
        relationship_name(SessionRelationshipKind::DeepReview) == seq![
            'd',
            'e',
            'e',
            'p',
            '_',
            'r',
            'e',
            'v',
            'i',
            'e',
            'w',
        ],
        relationship_name(SessionRelationshipKind::Miniapp) == seq![
            'm',
            'i',
            'n',
            'i',
            'a',
            'p',
            'p',
        ],
        relationship_name(SessionRelationshipKind::Subagent) == seq![
            's',
            'u',
            'b',
            'a',
            'g',
            'e',
            'n',
            't',
        ],
{
    reveal_strlit("btw");
    reveal_strlit("review");
    reveal_strlit("deep_review");
    reveal_strlit("miniapp");
    reveal_strlit("subagent");
    assert("btw"@ =~= seq!['b', 't', 'w']);
    assert("review"@ =~= seq!['r', 'e', 'v', 'i', 'e', 'w']);
    assert("deep_review"@ =~= seq!['d', 'e', 'e', 'p', '_', 'r', 'e', 'v', 'i', 'e', 'w']);
    assert("miniapp"@ =~= seq!['m', 'i', 'n', 'i', 'a', 'p', 'p']);
    assert("subagent"@ =~= seq!['s', 'u', 'b', 'a', 'g', 'e', 'n', 't']);
    assert("btw"@.len() == 3 && "review"@.len() == 6 && "deep_review"@.len() == 11
        && "miniapp"@.len() == 7 && "subagent"@.len() == 8);
}

/// What is told of a workspace is its own id, path, time and kind, under the name
/// that was chosen, and where it is only when it is remote.
pub proof fn facts_are_those_of_their_workspace(
    facts: RemoteRecentWorkspaceFacts,
    workspace: WorkspaceInfo,
    name: Seq<char>,
)
    requires
        is_recent_workspace(facts, workspace, name),
    ensures
        facts.workspace_id@ == workspace.id@,
        facts.path@ == workspace.root_path@,
        facts.name@ == name,
        facts.last_opened@ == workspace.last_accessed@,
        facts.kind == RemoteConnectWorkspaceKind::Remote <==> workspace.workspace_kind
            == WorkspaceKind::Remote,
        facts.kind == RemoteConnectWorkspaceKind::Assistant <==> workspace.workspace_kind
            == WorkspaceKind::Assistant,
        workspace.workspace_kind != WorkspaceKind::Remote ==> facts.remote_connection_id is None
            && facts.remote_ssh_host is None,
        workspace.workspace_kind == WorkspaceKind::Remote ==> text_option(
            facts.remote_connection_id,
        ) == metadata_text(workspace.metadata@, "connectionId"@) && text_option(
            facts.remote_ssh_host,
        ) == metadata_text(workspace.metadata@, "sshHost"@),
{
}

/// What is told of an assistant's workspace is its own id, path, name and
/// assistant.
pub proof fn assistant_facts_are_those_of_their_workspace(
    facts: RemoteAssistantWorkspaceFacts,
    workspace: WorkspaceInfo,
)
    requires
        is_assistant_workspace(facts, workspace),
    ensures
        facts.workspace_id@ == workspace.id@,
        facts.path@ == workspace.root_path@,
        facts.name@ == workspace.name@,
        facts.assistant_id == workspace.assistant_id,
{
}

} // verus!

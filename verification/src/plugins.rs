//! When configured plugins are brought up for a session, and where they run.

use vstd::prelude::*;

use crate::errors::{PortError, PortErrorKind};
use crate::session::SessionExecutionTarget;

verus! {

/// Where the configured plugins of a session run: nowhere for a remote
/// workspace, else where the session executes, else in its workspace.
pub fn configured_plugin_root_from_session_facts(
    workspace_path: Option<&str>,
    execution_target: Option<&SessionExecutionTarget>,
    is_remote: bool,
) -> (r: Result<Option<String>, PortError>)
    ensures
        if is_remote {
            r matches Ok(None)
        } else {
            match (execution_target, workspace_path) {
                (Some(target), _) => r matches Ok(Some(root)) && root@ == target.root_path@,
                (None, Some(path)) => r matches Ok(Some(root)) && root@ == path@,
                (None, None) => r matches Err(e) && e.kind == PortErrorKind::InvalidRequest
                    && e.message@
                    == "workspace_path is required to initialize configured plugins"@,
            }
        },
{
    if is_remote {
        return Ok(None);
    }
    match execution_target {
        Some(target) => Ok(Some(target.root_path.clone())),
        None => match workspace_path {
            Some(path) => Ok(Some(path.to_owned())),
            None => Err(
                PortError {
                    kind: PortErrorKind::InvalidRequest,
                    message: "workspace_path is required to initialize configured plugins".to_owned(),
                },
            ),
        },
    }
}

/// The workspace whose plugins are to be brought up, or none.
pub fn configured_plugin_workspace(
    root: Result<Option<String>, PortError>,
    workspace_id: &Option<String>,
) -> (r: Result<Option<String>, PortError>)
    ensures
        match root {
            Err(error) => r == Err::<Option<String>, PortError>(error),
            Ok(None) => r == Ok::<Option<String>, PortError>(None),
            Ok(Some(_)) => match *workspace_id {
                Some(id) => r == Ok::<Option<String>, PortError>(Some(id)),
                None => r matches Err(e) && e.kind == PortErrorKind::InvalidRequest && e.message@
                    == "Workspace ID is required"@,
            },
        },
{
    match root {
        Err(error) => Err(error),
        Ok(None) => Ok(None),
        Ok(Some(_)) => match workspace_id {
            Some(id) => Ok(Some(id.clone())),
            None => Err(
                PortError {
                    kind: PortErrorKind::InvalidRequest,
                    message: "Workspace ID is required".to_owned(),
                },
            ),
        },
    }
}

/// What is asked of a session's ports.
#[derive(Debug, Clone, Copy, PartialEq, Eq, Structural)]
pub enum SessionPortCall {
    CreateSession,
    CreateSessionWithId,
    CreateTransientSessionWithId,
    SubmitMessage,
    ResolveAgentType,
    RestoreSession,
    QueueSubmit,
    QueuePromote,
    QueueOther,
    SubmitDialogTurn,
    SteerDialogTurn,
    RecoverInterruptedTurn,
}

/// What is done for a call, in order.
#[derive(Debug, Clone, Copy, PartialEq, Eq, Structural)]
pub enum PortCallStep {
    EnsureWorkspacePlugins,
    EnsureSessionPlugins,
    Delegate,
}

/// What is done for a call: plugins are brought up before a session is created
/// and before a turn is executed in it, and after a session was restored, whose
/// place of execution is known only then.
pub open spec fn port_call_plan(call: SessionPortCall) -> Seq<PortCallStep> {
    match call {
        SessionPortCall::CreateSession
        | SessionPortCall::CreateSessionWithId
        | SessionPortCall::CreateTransientSessionWithId => seq![
            PortCallStep::EnsureWorkspacePlugins,
            PortCallStep::Delegate,
        ],
        SessionPortCall::SubmitMessage
        | SessionPortCall::QueueSubmit
        | SessionPortCall::QueuePromote
        | SessionPortCall::SubmitDialogTurn
        | SessionPortCall::RecoverInterruptedTurn => seq![
            PortCallStep::EnsureSessionPlugins,
            PortCallStep::Delegate,
        ],
        SessionPortCall::RestoreSession => seq![
            PortCallStep::Delegate,
            PortCallStep::EnsureSessionPlugins,
        ],
        SessionPortCall::ResolveAgentType
        | SessionPortCall::QueueOther
        | SessionPortCall::SteerDialogTurn => seq![PortCallStep::Delegate],
    }
}

/// The steps of a call.
pub fn port_call_steps(call: SessionPortCall) -> (r: Vec<PortCallStep>)
    ensures
        r@ == port_call_plan(call),
{
    let mut r: Vec<PortCallStep> = Vec::new();
    match call {
        SessionPortCall::CreateSession
        | SessionPortCall::CreateSessionWithId
        | SessionPortCall::CreateTransientSessionWithId => {
            r.push(PortCallStep::EnsureWorkspacePlugins);
            r.push(PortCallStep::Delegate);
        },
        SessionPortCall::SubmitMessage
        | SessionPortCall::QueueSubmit
        | SessionPortCall::QueuePromote
        | SessionPortCall::SubmitDialogTurn
        | SessionPortCall::RecoverInterruptedTurn => {
            r.push(PortCallStep::EnsureSessionPlugins);
            r.push(PortCallStep::Delegate);
        },
        SessionPortCall::RestoreSession => {
            r.push(PortCallStep::Delegate);
            r.push(PortCallStep::EnsureSessionPlugins);
        },
        SessionPortCall::ResolveAgentType
        | SessionPortCall::QueueOther
        | SessionPortCall::SteerDialogTurn => {
            r.push(PortCallStep::Delegate);
        },
    }
    assert(r@ =~= port_call_plan(call));
    r
}

/// Whether a call executes something in an existing session.
pub open spec fn executes_in_session(call: SessionPortCall) -> bool {
    call is SubmitMessage || call is QueueSubmit || call is QueuePromote || call
        is SubmitDialogTurn || call is RecoverInterruptedTurn
}

/// Every call is handed on exactly once, and one that executes something in a
/// session only after its plugins were brought up.
pub proof fn plugins_are_recovered_before_execution(call: SessionPortCall)
    ensures
        exists|at: int|
            0 <= at < port_call_plan(call).len() && #[trigger] port_call_plan(call)[at]
                == PortCallStep::Delegate,
        forall|i: int, j: int|
            0 <= i < j < port_call_plan(call).len() ==> !(#[trigger] port_call_plan(call)[i]
                == PortCallStep::Delegate && #[trigger] port_call_plan(call)[j]
                == PortCallStep::Delegate),
        executes_in_session(call) ==> port_call_plan(call)[0]
            == PortCallStep::EnsureSessionPlugins,
{
    let plan = port_call_plan(call);
    let at: int = if plan.len() == 2 && !(call is RestoreSession) {
        1
    } else {
        0
    };
    assert(plan[at] == PortCallStep::Delegate);
}

/// A session is created only after the plugins of its workspace were brought up,
/// a restored one has its plugins brought up once it is restored, and a call that
/// neither creates, restores nor executes anything brings none up. No plugins are
/// brought up twice.
pub proof fn plugins_are_brought_up_once_where_needed(call: SessionPortCall)
    ensures
        ({
            let plan = port_call_plan(call);
            let creates = call is CreateSession || call is CreateSessionWithId || call
                is CreateTransientSessionWithId;
            let executes = call is SubmitMessage || call is QueueSubmit || call is QueuePromote
                || call is SubmitDialogTurn || call is RecoverInterruptedTurn;
            &&& creates ==> plan.len() == 2 && plan[0] == PortCallStep::EnsureWorkspacePlugins
                && plan[1] == PortCallStep::Delegate
            &&& executes ==> plan.len() == 2 && plan[0] == PortCallStep::EnsureSessionPlugins
                && plan[1] == PortCallStep::Delegate
            &&& call is RestoreSession ==> plan.len() == 2 && plan[0] == PortCallStep::Delegate
                && plan[1] == PortCallStep::EnsureSessionPlugins
            &&& !creates && !executes && !(call is RestoreSession) ==> plan.len() == 1 && plan[0]
                == PortCallStep::Delegate
        }),
{
}

} // verus!

//! Which ports an agent runtime offers to a product, and who stands behind each.

use vstd::prelude::*;

verus! {

/// A product's view of the agent runtime.
#[derive(Debug, Clone, Copy, PartialEq, Eq, Structural)]
pub enum RuntimeSurface {
    /// A runtime without a scheduler.
    Plain,
    /// A runtime that runs dialog turns and releases sessions.
    DialogTurns,
    /// A runtime that delivers lifecycle events.
    LifecycleDelivery,
    /// The narrow surface of an entry point that operates on sessions.
    SessionSurface,
    /// A runtime that takes turns and cancellations through the scheduler.
    SchedulerPorts,
    /// The full product.
    Product,
    /// A product whose protocol takes one prompt at a time.
    AcpProduct,
    /// A product for hosts of the SDK.
    SdkHostProduct,
}

/// A port of the agent runtime.
#[derive(Debug, Clone, Copy, PartialEq, Eq, Structural)]
pub enum RuntimePort {
    Submission,
    SessionManagement,
    WorkspaceReference,
    SessionMode,
    SessionModel,
    SessionCompaction,
    SessionRestore,
    LocalCommandTurn,
    UserShellCommand,
    TranscriptReader,
    ThreadGoalManagement,
    Cancellation,
    InteractionResponse,
    PermissionRequests,
    HookRegistry,
    AgentRegistry,
    ModeCatalog,
    SessionClose,
    SessionRevert,
    DialogTurn,
    LifecycleDelivery,
    EventSource,
    SessionFork,
    SessionUsage,
    TurnSettlement,
    SessionLineage,
    Services,
}

/// Who stands behind a port.
#[derive(Debug, Clone, Copy, PartialEq, Eq, Structural)]
pub enum PortProvider {
    Coordinator,
    Scheduler,
    /// Submission that brings up configured plugins first.
    PluginSubmission,
    /// Restoring that brings up configured plugins afterwards.
    PluginRestore,
    /// Dialog turns of the scheduler, with configured plugins brought up first.
    PluginDialogTurns,
    /// The same, and a session that is busy refuses the turn.
    PluginDialogTurnsRejectBusy,
    /// Management that stops a session's turns before it is changed.
    ScheduledManagement,
    /// The core's own registries.
    Core,
    /// The host, where it supplies one.
    Host,
}

/// Whether a surface is one of the full products.
pub open spec fn is_product(surface: RuntimeSurface) -> bool {
    surface is Product || surface is AcpProduct || surface is SdkHostProduct
}

/// Whether a surface has a scheduler behind it.
pub open spec fn is_scheduled(surface: RuntimeSurface) -> bool {
    !(surface is Plain)
}

/// Whether a surface offers a port.
pub open spec fn offers(surface: RuntimeSurface, port: RuntimePort) -> bool {
    match port {
        RuntimePort::Submission
        | RuntimePort::SessionManagement
        | RuntimePort::WorkspaceReference
        | RuntimePort::SessionMode
        | RuntimePort::SessionModel
        | RuntimePort::SessionCompaction
        | RuntimePort::SessionRestore
        | RuntimePort::LocalCommandTurn
        | RuntimePort::Cancellation
        | RuntimePort::InteractionResponse
        | RuntimePort::PermissionRequests => true,
        RuntimePort::UserShellCommand
        | RuntimePort::TranscriptReader
        | RuntimePort::ThreadGoalManagement
        | RuntimePort::HookRegistry
        | RuntimePort::AgentRegistry
        | RuntimePort::ModeCatalog => !(surface is SessionSurface),
        RuntimePort::SessionClose => surface is DialogTurns || is_product(surface),
        RuntimePort::SessionRevert => is_scheduled(surface),
        RuntimePort::DialogTurn => is_scheduled(surface) && !(surface is LifecycleDelivery),
        RuntimePort::LifecycleDelivery => is_scheduled(surface) && !(surface is SessionSurface),
        RuntimePort::EventSource | RuntimePort::Services => is_product(surface),
        RuntimePort::SessionFork
        | RuntimePort::SessionUsage => surface is SessionSurface || surface is Product || surface
            is SdkHostProduct,
        RuntimePort::TurnSettlement => surface is Product || surface is SdkHostProduct,
        RuntimePort::SessionLineage => surface is SessionSurface || surface is Product,
    }
}

/// Who stands behind a port that a surface offers.
pub open spec fn provider(surface: RuntimeSurface, port: RuntimePort) -> PortProvider {
    match port {
        RuntimePort::Submission => PortProvider::PluginSubmission,
        RuntimePort::SessionRestore => PortProvider::PluginRestore,
        RuntimePort::SessionManagement => if is_scheduled(surface) {
            PortProvider::ScheduledManagement
        } else {
            PortProvider::Coordinator
        },
        RuntimePort::SessionClose
        | RuntimePort::SessionRevert => PortProvider::ScheduledManagement,
        RuntimePort::DialogTurn => if surface is AcpProduct {
            PortProvider::PluginDialogTurnsRejectBusy
        } else {
            PortProvider::PluginDialogTurns
        },
        RuntimePort::Cancellation => if surface is SessionSurface || surface is SchedulerPorts
            || is_product(surface) {
            PortProvider::Scheduler
        } else {
            PortProvider::Coordinator
        },
        RuntimePort::LifecycleDelivery => PortProvider::Scheduler,
        RuntimePort::PermissionRequests
        | RuntimePort::AgentRegistry
        | RuntimePort::ModeCatalog => PortProvider::Core,
        RuntimePort::EventSource
        | RuntimePort::Services
        | RuntimePort::SessionFork
        | RuntimePort::SessionUsage
        | RuntimePort::TurnSettlement
        | RuntimePort::SessionLineage => PortProvider::Host,
        _ => PortProvider::Coordinator,
    }
}

/// Whether a surface is one of the full products.
fn is_product_surface(surface: RuntimeSurface) -> (r: bool)
    ensures
        r == is_product(surface),
{
    match surface {
        RuntimeSurface::Product
        | RuntimeSurface::AcpProduct
        | RuntimeSurface::SdkHostProduct => true,
        _ => false,
    }
}

/// Who stands behind a port of a surface, or none when it is not offered.
pub fn port_provider(surface: RuntimeSurface, port: RuntimePort) -> (r: Option<PortProvider>)
    ensures
        r == (if offers(surface, port) {
            Some(provider(surface, port))
        } else {
            None
        }),
{
    let product = is_product_surface(surface);
    let scheduled = surface != RuntimeSurface::Plain;
    let narrow = surface == RuntimeSurface::SessionSurface;
    let (offered, who) = match port {
        RuntimePort::Submission => (true, PortProvider::PluginSubmission),
        RuntimePort::SessionRestore => (true, PortProvider::PluginRestore),
        RuntimePort::SessionManagement => (
            true,
            if scheduled {
                PortProvider::ScheduledManagement
            } else {
                PortProvider::Coordinator
            },
        ),
        RuntimePort::WorkspaceReference
        | RuntimePort::SessionMode
        | RuntimePort::SessionModel
        | RuntimePort::SessionCompaction
        | RuntimePort::LocalCommandTurn
        | RuntimePort::InteractionResponse => (true, PortProvider::Coordinator),
        RuntimePort::Cancellation => (
            true,
            if narrow || surface == RuntimeSurface::SchedulerPorts || product {
                PortProvider::Scheduler
            } else {
                PortProvider::Coordinator
            },
        ),
        RuntimePort::PermissionRequests => (true, PortProvider::Core),
        RuntimePort::UserShellCommand
        | RuntimePort::TranscriptReader
        | RuntimePort::ThreadGoalManagement
        | RuntimePort::HookRegistry => (!narrow, PortProvider::Coordinator),
        RuntimePort::AgentRegistry | RuntimePort::ModeCatalog => (!narrow, PortProvider::Core),
        RuntimePort::SessionClose => (
            surface == RuntimeSurface::DialogTurns || product,
            PortProvider::ScheduledManagement,
        ),
        RuntimePort::SessionRevert => (scheduled, PortProvider::ScheduledManagement),
        RuntimePort::DialogTurn => (
            scheduled && surface != RuntimeSurface::LifecycleDelivery,
            if surface == RuntimeSurface::AcpProduct {
                PortProvider::PluginDialogTurnsRejectBusy
            } else {
                PortProvider::PluginDialogTurns
            },
        ),
        RuntimePort::LifecycleDelivery => (scheduled && !narrow, PortProvider::Scheduler),
        RuntimePort::EventSource | RuntimePort::Services => (product, PortProvider::Host),
        RuntimePort::SessionFork | RuntimePort::SessionUsage => (
            narrow || surface == RuntimeSurface::Product || surface
                == RuntimeSurface::SdkHostProduct,
            PortProvider::Host,
        ),
        RuntimePort::TurnSettlement => (
            surface == RuntimeSurface::Product || surface == RuntimeSurface::SdkHostProduct,
            PortProvider::Host,
        ),
        RuntimePort::SessionLineage => (
            narrow || surface == RuntimeSurface::Product,
            PortProvider::Host,
        ),
    };
    if offered {
        Some(who)
    } else {
        None
    }
}

/// On every surface, sessions are created, restored and executed in only with
/// their configured plugins brought up.
pub proof fn plugins_stand_before_every_surface(surface: RuntimeSurface)
    ensures
        offers(surface, RuntimePort::Submission) && provider(surface, RuntimePort::Submission)
            == PortProvider::PluginSubmission,
        offers(surface, RuntimePort::SessionRestore) && provider(
            surface,
            RuntimePort::SessionRestore,
        ) == PortProvider::PluginRestore,
        offers(surface, RuntimePort::DialogTurn) ==> provider(surface, RuntimePort::DialogTurn)
            == PortProvider::PluginDialogTurns || provider(surface, RuntimePort::DialogTurn)
            == PortProvider::PluginDialogTurnsRejectBusy,
{
}

/// Wherever there is a scheduler, a session is changed, closed and reverted only
/// after its turns were stopped.
pub proof fn scheduled_surfaces_stop_turns_first(surface: RuntimeSurface, port: RuntimePort)
    requires
        is_scheduled(surface),
        offers(surface, port),
        port is SessionManagement || port is SessionClose || port is SessionRevert,
    ensures
        provider(surface, port) == PortProvider::ScheduledManagement,
{
}

/// Only the protocol that takes one prompt at a time refuses a busy session.
pub proof fn only_one_prompt_protocols_refuse_busy_sessions(
    surface: RuntimeSurface,
    port: RuntimePort,
)
    requires
        provider(surface, port) == PortProvider::PluginDialogTurnsRejectBusy,
    ensures
        surface is AcpProduct,
{
}

/// A mode as it is listed.
#[derive(Debug)]
pub struct AgentModeCatalogEntry {
    pub id: String,
    pub route_key: String,
    pub description: String,
    pub model_id: Option<String>,
    pub is_external: bool,
}

/// Where a mode comes from.
#[derive(Debug, Clone, Copy, PartialEq, Eq, Structural)]
pub enum AgentSource {
    External,
    Other,
}

/// A mode as it is registered.
#[derive(Debug)]
pub struct AgentModeInfo {
    pub id: String,
    pub key: String,
    pub description: String,
    pub model: Option<String>,
    pub source: AgentSource,
}

/// Whether modes of external sources are listed: only where they are asked for,
/// and only for a workspace that is known and on this machine.
pub fn lists_external_modes(include_external: bool, record_is_remote: Option<bool>) -> (r: bool)
    ensures
        r == (include_external && record_is_remote == Some(false)),
{
    include_external && match record_is_remote {
        Some(remote) => !remote,
        None => false,
    }
}

/// Whether an entry lists a mode.
pub open spec fn lists_mode(entry: AgentModeCatalogEntry, mode: AgentModeInfo) -> bool {
    &&& entry.id == mode.id
    &&& entry.route_key == mode.key
    &&& entry.description == mode.description
    &&& entry.model_id == mode.model
    &&& entry.is_external == (mode.source == AgentSource::External)
}

/// Lists modes, in their order.
pub fn agent_mode_catalog(modes: Vec<AgentModeInfo>) -> (r: Vec<AgentModeCatalogEntry>)
    ensures
        r@.len() == modes@.len(),
        forall|i: int| 0 <= i < modes@.len() ==> lists_mode(#[trigger] r@[i], modes@[i]),
{
    let ghost all = modes@;
    let mut r: Vec<AgentModeCatalogEntry> = Vec::new();
    for mode in it: modes
        invariant
            it.seq() == all,
            r@.len() == it.index(),
            forall|i: int| 0 <= i < r@.len() ==> lists_mode(#[trigger] r@[i], all[i]),
    {
        assert(mode == all[it.index() as int]);
        r.push(
            AgentModeCatalogEntry {
                id: mode.id,
                route_key: mode.key,
                description: mode.description,
                model_id: mode.model,
                is_external: mode.source == AgentSource::External,
            },
        );
    }
    r
}

/// What keeps a runtime from being made: a session system that is not ready, or
/// a scheduler that is needed and not there.
pub fn missing_runtime_part(has_coordinator: bool, needs_scheduler: bool, has_scheduler: bool) -> (r:
    Option<String>)
    ensures
        if !has_coordinator {
            r matches Some(e) && e@ == "Desktop session system not ready"@
        } else if needs_scheduler && !has_scheduler {
            r matches Some(e) && e@ == "Dialog scheduler is not initialized"@
        } else {
            r is None
        },
{
    if !has_coordinator {
        Some("Desktop session system not ready".to_owned())
    } else if needs_scheduler && !has_scheduler {
        Some("Dialog scheduler is not initialized".to_owned())
    } else {
        None
    }
}

/// What each surface leaves out; all else it offers.
pub proof fn every_surface_leaves_out_only_these(surface: RuntimeSurface, port: RuntimePort)
    ensures
        surface is Product ==> offers(surface, port),
        surface is SdkHostProduct ==> (!offers(surface, port) <==> port is SessionLineage),
        surface is AcpProduct ==> (!offers(surface, port) <==> port is SessionLineage || port
            is TurnSettlement || port is SessionFork || port is SessionUsage),
        surface is DialogTurns ==> (!offers(surface, port) <==> port is SessionLineage || port
            is TurnSettlement || port is SessionFork || port is SessionUsage || port is EventSource
            || port is Services),
        surface is SchedulerPorts ==> (!offers(surface, port) <==> port is SessionLineage || port
            is TurnSettlement || port is SessionFork || port is SessionUsage || port is EventSource
            || port is Services || port is SessionClose),
        surface is LifecycleDelivery ==> (!offers(surface, port) <==> port is SessionLineage || port
            is TurnSettlement || port is SessionFork || port is SessionUsage || port is EventSource
            || port is Services || port is SessionClose || port is DialogTurn),
        surface is Plain ==> (!offers(surface, port) <==> port is SessionLineage || port
            is TurnSettlement || port is SessionFork || port is SessionUsage || port is EventSource
            || port is Services || port is SessionClose || port is DialogTurn || port
            is SessionRevert || port is LifecycleDelivery),
        surface is SessionSurface ==> (!offers(surface, port) <==> port is TurnSettlement || port
            is EventSource || port is Services || port is SessionClose || port is LifecycleDelivery
            || port is UserShellCommand || port is TranscriptReader || port is ThreadGoalManagement
            || port is HookRegistry || port is AgentRegistry || port is ModeCatalog),
{
}

/// What each provider stands behind.
pub proof fn every_provider_stands_behind_only_these(surface: RuntimeSurface, port: RuntimePort)
    ensures
        provider(surface, port) == PortProvider::Host <==> port is EventSource || port is Services
            || port is SessionFork || port is SessionUsage || port is TurnSettlement || port
            is SessionLineage,
        provider(surface, port) == PortProvider::Core <==> port is PermissionRequests || port
            is AgentRegistry || port is ModeCatalog,
        provider(surface, port) == PortProvider::PluginSubmission <==> port is Submission,
        provider(surface, port) == PortProvider::PluginRestore <==> port is SessionRestore,
        provider(surface, port) == PortProvider::PluginDialogTurnsRejectBusy <==> port is DialogTurn
            && surface is AcpProduct,
        provider(surface, port) == PortProvider::PluginDialogTurns <==> port is DialogTurn && !(
        surface is AcpProduct),
        provider(surface, port) == PortProvider::ScheduledManagement <==> port is SessionClose
            || port is SessionRevert || (port is SessionManagement && !(surface is Plain)),
        provider(surface, port) == PortProvider::Scheduler <==> port is LifecycleDelivery || (port
            is Cancellation && !(surface is Plain) && !(surface is DialogTurns) && !(surface
            is LifecycleDelivery)),
{
}

/// A listed mode is the registered one, and is external exactly when its source
/// is.
pub proof fn a_listed_mode_is_the_registered_one(
    entry: AgentModeCatalogEntry,
    mode: AgentModeInfo,
)
    requires
        lists_mode(entry, mode),
    ensures
        entry.id@ == mode.id@,
        entry.route_key@ == mode.key@,
        entry.description@ == mode.description@,
        entry.model_id == mode.model,
        entry.is_external <==> mode.source == AgentSource::External,
{
}

} // verus!

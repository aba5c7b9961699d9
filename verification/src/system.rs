//! The agentic system that a product brings up.

use std::sync::Arc;

use vstd::prelude::*;

verus! {

/// The product that the system is brought up for.
#[derive(Debug, Clone, Copy, PartialEq, Eq, Structural)]
pub enum DeliveryProfile {
    ProductFull,
    Sdk,
    Other,
}

/// A span of time.
#[derive(Debug, Clone, Copy, PartialEq, Eq, Structural)]
pub struct TimeSpan {
    pub secs: u64,
    pub nanos: u32,
}

/// How sessions are kept in memory.
#[derive(Debug, Clone, Copy, PartialEq, Eq, Structural)]
pub struct SessionManagerConfig {
    pub session_idle_timeout: TimeSpan,
}

impl Default for SessionManagerConfig {
    /// An idle session is unloaded after an hour.
    fn default() -> (r: SessionManagerConfig)
        ensures
            r.session_idle_timeout == (TimeSpan { secs: 3600, nanos: 0 }),
    {
        SessionManagerConfig { session_idle_timeout: TimeSpan { secs: 3600, nanos: 0 } }
    }
}

/// How sessions are kept in memory for a product: for a host of the SDK they
/// stay until it releases them.
pub fn session_manager_config_for_profile(delivery_profile: DeliveryProfile) -> (r:
    SessionManagerConfig)
    ensures
        r.session_idle_timeout == (if delivery_profile == DeliveryProfile::Sdk {
            TimeSpan { secs: u64::MAX, nanos: 999_999_999 }
        } else {
            TimeSpan { secs: 3600, nanos: 0 }
        }),
{
    let mut config = SessionManagerConfig::default();
    if delivery_profile == DeliveryProfile::Sdk {
        config.session_idle_timeout = TimeSpan { secs: u64::MAX, nanos: 999_999_999 };
    }
    config
}

/// What a product holds of the system: its coordinator `C`, its event queue `E`
/// and its token usage service `T`.
#[derive(Debug)]
pub struct AgenticSystem<C, E, T> {
    pub coordinator: Arc<C>,
    pub event_queue: Arc<E>,
    pub token_usage_service: Arc<T>,
}

impl<C, E, T> Clone for AgenticSystem<C, E, T> {
    /// Another handle on the same system.
    fn clone(&self) -> (r: AgenticSystem<C, E, T>)
        ensures
            r == *self,
    {
        AgenticSystem {
            coordinator: self.coordinator.clone(),
            event_queue: self.event_queue.clone(),
            token_usage_service: self.token_usage_service.clone(),
        }
    }
}

/// A step of bringing the system up, or its end.
#[derive(Debug, Clone, Copy, PartialEq, Eq, Structural)]
pub enum SystemInitStep {
    SelectAgentProfile,
    SelectToolProfile,
    LoadClientFactory,
    CreateEvents,
    FindPaths,
    CreatePersistence,
    CreateTokenUsage,
    PublishTokenUsage,
    CreateSessions,
    SubscribeTokenUsage,
    SubscribeContextUsage,
    FindPermissionManager,
    CreateExecution,
    CreateCoordinator,
    PublishCoordinator,
    RouteEvents,
    Ready,
    Fail,
}

/// How far a step is from the first.
pub open spec fn init_rank(step: SystemInitStep) -> int {
    match step {
        SystemInitStep::SelectAgentProfile => 0,
        SystemInitStep::SelectToolProfile => 1,
        SystemInitStep::LoadClientFactory => 2,
        SystemInitStep::CreateEvents => 3,
        SystemInitStep::FindPaths => 4,
        SystemInitStep::CreatePersistence => 5,
        SystemInitStep::CreateTokenUsage => 6,
        SystemInitStep::PublishTokenUsage => 7,
        SystemInitStep::CreateSessions => 8,
        SystemInitStep::SubscribeTokenUsage => 9,
        SystemInitStep::SubscribeContextUsage => 10,
        SystemInitStep::FindPermissionManager => 11,
        SystemInitStep::CreateExecution => 12,
        SystemInitStep::CreateCoordinator => 13,
        SystemInitStep::PublishCoordinator => 14,
        SystemInitStep::RouteEvents => 15,
        SystemInitStep::Ready => 16,
        SystemInitStep::Fail => 17,
    }
}

/// Whether a step can fail.
pub open spec fn can_fail(step: SystemInitStep) -> bool {
    step is SelectAgentProfile || step is SelectToolProfile || step is LoadClientFactory || step
        is FindPaths || step is CreatePersistence || step is CreateTokenUsage || step
        is FindPermissionManager
}

/// Goes on with bringing the system up: one step after another, and none after
/// one that failed. The profile is selected before anything reads it, and the
/// coordinator is published only when all that can fail has succeeded.
pub fn next_system_init_step(step: SystemInitStep, ok: bool) -> (r: SystemInitStep)
    requires
        !(step is Ready) && !(step is Fail),
        !ok ==> can_fail(step),
    ensures
        !ok ==> r is Fail,
        ok ==> init_rank(r) == init_rank(step) + 1,
{
    if !ok {
        return SystemInitStep::Fail;
    }
    match step {
        SystemInitStep::SelectAgentProfile => SystemInitStep::SelectToolProfile,
        SystemInitStep::SelectToolProfile => SystemInitStep::LoadClientFactory,
        SystemInitStep::LoadClientFactory => SystemInitStep::CreateEvents,
        SystemInitStep::CreateEvents => SystemInitStep::FindPaths,
        SystemInitStep::FindPaths => SystemInitStep::CreatePersistence,
        SystemInitStep::CreatePersistence => SystemInitStep::CreateTokenUsage,
        SystemInitStep::CreateTokenUsage => SystemInitStep::PublishTokenUsage,
        SystemInitStep::PublishTokenUsage => SystemInitStep::CreateSessions,
        SystemInitStep::CreateSessions => SystemInitStep::SubscribeTokenUsage,
        SystemInitStep::SubscribeTokenUsage => SystemInitStep::SubscribeContextUsage,
        SystemInitStep::SubscribeContextUsage => SystemInitStep::FindPermissionManager,
        SystemInitStep::FindPermissionManager => SystemInitStep::CreateExecution,
        SystemInitStep::CreateExecution => SystemInitStep::CreateCoordinator,
        SystemInitStep::CreateCoordinator => SystemInitStep::PublishCoordinator,
        SystemInitStep::PublishCoordinator => SystemInitStep::RouteEvents,
        SystemInitStep::RouteEvents | SystemInitStep::Ready | SystemInitStep::Fail =>
            SystemInitStep::Ready,
    }
}

/// Nothing fails once the coordinator is being made, so a published coordinator
/// belongs to a system that is ready.
pub proof fn a_published_coordinator_is_ready(step: SystemInitStep)
    requires
        can_fail(step),
    ensures
        init_rank(step) < init_rank(SystemInitStep::CreateCoordinator),
        init_rank(SystemInitStep::CreateCoordinator) < init_rank(
            SystemInitStep::PublishCoordinator,
        ),
{
}

/// The profile of agents and tools is selected before anything else.
pub proof fn the_profile_is_selected_first(step: SystemInitStep)
    requires
        !(step is SelectAgentProfile) && !(step is SelectToolProfile),
    ensures
        init_rank(SystemInitStep::SelectAgentProfile) < init_rank(
            SystemInitStep::SelectToolProfile,
        ) < init_rank(step),
{
}

/// What the router of events received.
#[derive(Debug, Clone, Copy, PartialEq, Eq, Structural)]
pub enum RouterReceipt {
    Event,
    Lagged,
    Closed,
}

/// What the router of events does.
#[derive(Debug, Clone, Copy, PartialEq, Eq, Structural)]
pub enum RouterStep {
    Route,
    Continue,
    Stop,
}

/// Decides what the router of events does: events that it missed do not stop
/// it, only the end of the queue does.
pub fn next_router_step(receipt: RouterReceipt) -> (r: RouterStep)
    ensures
        r == (match receipt {
            RouterReceipt::Event => RouterStep::Route,
            RouterReceipt::Lagged => RouterStep::Continue,
            RouterReceipt::Closed => RouterStep::Stop,
        }),
{
    match receipt {
        RouterReceipt::Event => RouterStep::Route,
        RouterReceipt::Lagged => RouterStep::Continue,
        RouterReceipt::Closed => RouterStep::Stop,
    }
}

/// The system comes up in one order: profiles and the client factory, events and
/// paths, persistence, token usage, sessions and their listeners, permissions,
/// execution, and last the coordinator and the routing of events.
pub proof fn the_system_comes_up_in_one_order(i: int)
    requires
        0 <= i < 17,
    ensures
        init_rank(
            seq![
                SystemInitStep::SelectAgentProfile,
                SystemInitStep::SelectToolProfile,
                SystemInitStep::LoadClientFactory,
                SystemInitStep::CreateEvents,
                SystemInitStep::FindPaths,
                SystemInitStep::CreatePersistence,
                SystemInitStep::CreateTokenUsage,
                SystemInitStep::PublishTokenUsage,
                SystemInitStep::CreateSessions,
                SystemInitStep::SubscribeTokenUsage,
                SystemInitStep::SubscribeContextUsage,
                SystemInitStep::FindPermissionManager,
                SystemInitStep::CreateExecution,
                SystemInitStep::CreateCoordinator,
                SystemInitStep::PublishCoordinator,
                SystemInitStep::RouteEvents,
                SystemInitStep::Ready,
            ][i],
        ) == i,
        init_rank(SystemInitStep::Fail) == 17,
{
}

/// No two steps stand in one place, so what follows a step is one step.
pub proof fn no_two_steps_stand_in_one_place(a: SystemInitStep, b: SystemInitStep)
    requires
        init_rank(a) == init_rank(b),
    ensures
        a == b,
{
}

} // verus!

//! Whether a session's history may be used for memories.

use vstd::prelude::*;

verus! {

/// Whether a session's history may be used for memories. A polluted session
/// might have been, but took in external context.
#[derive(Debug, Clone, Copy, PartialEq, Eq, Structural)]
pub enum SessionMemoryMode {
    Enabled,
    Disabled,
    Polluted,
}

/// What becomes of sessions that use external context.
#[derive(Debug, Clone, Copy, PartialEq, Eq, Structural)]
pub enum MemoryExternalContextPolicy {
    SkipSession,
    Other,
}

/// The memory settings.
#[derive(Debug, Clone, Copy, PartialEq, Eq, Structural)]
pub struct MemorySettings {
    pub generate_memories: bool,
    pub external_context_policy: MemoryExternalContextPolicy,
}

/// Whether sessions with external context are kept out of memories. Settings
/// that cannot be read guard nothing.
pub fn memory_pollution_guard_enabled(settings: Option<MemorySettings>) -> (r: bool)
    ensures
        r == (settings matches Some(s) && s.generate_memories && s.external_context_policy
            == MemoryExternalContextPolicy::SkipSession),
{
    match settings {
        Some(s) => s.generate_memories && s.external_context_policy
            == MemoryExternalContextPolicy::SkipSession,
        None => false,
    }
}

/// The mode of a new session. Settings that cannot be read leave memories on.
pub fn new_session_memory_mode_from_global_config(settings: Option<MemorySettings>) -> (r:
    SessionMemoryMode)
    ensures
        r == (if settings matches Some(s) && !s.generate_memories {
            SessionMemoryMode::Disabled
        } else {
            SessionMemoryMode::Enabled
        }),
{
    match settings {
        Some(s) => if s.generate_memories {
            SessionMemoryMode::Enabled
        } else {
            SessionMemoryMode::Disabled
        },
        None => SessionMemoryMode::Enabled,
    }
}

/// The mode of a session after external context.
pub open spec fn polluted_mode(mode: SessionMemoryMode) -> SessionMemoryMode {
    match mode {
        SessionMemoryMode::Enabled => SessionMemoryMode::Polluted,
        other => other,
    }
}

/// What external context does to a session: its mode after it, whether the mode
/// changed, and whether memories made of it have to be looked at again.
#[derive(Debug, Clone, Copy, PartialEq, Eq, Structural)]
pub struct MemoryPollution {
    pub mode: SessionMemoryMode,
    pub changed: bool,
    pub enqueue_phase2: bool,
}

/// Decides what external context does to a session.
pub fn pollute_memory_mode(mode: SessionMemoryMode) -> (r: MemoryPollution)
    ensures
        r.mode == polluted_mode(mode),
        r.changed == (mode != polluted_mode(mode)),
        r.enqueue_phase2 == (mode != SessionMemoryMode::Disabled),
{
    match mode {
        SessionMemoryMode::Enabled => MemoryPollution {
            mode: SessionMemoryMode::Polluted,
            changed: true,
            enqueue_phase2: true,
        },
        SessionMemoryMode::Polluted => MemoryPollution {
            mode: SessionMemoryMode::Polluted,
            changed: false,
            enqueue_phase2: true,
        },
        SessionMemoryMode::Disabled => MemoryPollution {
            mode: SessionMemoryMode::Disabled,
            changed: false,
            enqueue_phase2: false,
        },
    }
}

/// A disabled session stays disabled, a polluted one polluted, and no session is
/// enabled by external context.
pub proof fn pollution_never_enables(mode: SessionMemoryMode)
    ensures
        mode == SessionMemoryMode::Disabled ==> polluted_mode(mode) == SessionMemoryMode::Disabled,
        polluted_mode(mode) != SessionMemoryMode::Enabled,
        polluted_mode(polluted_mode(mode)) == polluted_mode(mode),
{
}

/// External context pollutes exactly the sessions that memories could have been
/// made of, and leaves every other as it was.
pub proof fn external_context_pollutes_enabled_sessions(mode: SessionMemoryMode)
    ensures
        mode == SessionMemoryMode::Enabled ==> polluted_mode(mode) == SessionMemoryMode::Polluted,
        mode != SessionMemoryMode::Enabled ==> polluted_mode(mode) == mode,
{
}

} // verus!

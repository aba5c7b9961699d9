//! Persisted dialog turns.

use vstd::prelude::*;

use crate::json::JsonValue;

verus! {

/// What a turn was started for.
#[derive(Debug, Clone, Copy, PartialEq, Eq, Structural)]
pub enum DialogTurnKind {
    UserDialog,
    Other,
}

/// How far a turn has come.
#[derive(Debug, Clone, Copy, PartialEq, Eq, Structural)]
pub enum TurnStatus {
    InProgress,
    Completed,
    Error,
    Cancelled,
}

/// The message that opened a turn.
#[derive(Debug)]
pub struct UserMessageData {
    pub id: String,
    pub content: String,
    pub timestamp: u64,
    pub metadata: Option<JsonValue>,
}

/// A persisted turn, as far as persistence reads it. `display_content` is the
/// user content as transcripts show it.
#[derive(Debug)]
pub struct DialogTurnData {
    pub turn_id: String,
    pub turn_index: usize,
    pub session_id: String,
    pub kind: DialogTurnKind,
    pub user_message: UserMessageData,
    pub display_content: String,
    pub status: TurnStatus,
    pub start_time: u64,
    pub end_time: Option<u64>,
}

/// The contents of an optional text.
pub open spec fn text_option(o: Option<String>) -> Option<Seq<char>> {
    match o {
        Some(s) => Some(s@),
        None => None,
    }
}

/// A copy of an optional text.
pub fn copy_text_option(o: &Option<String>) -> (r: Option<String>)
    ensures
        r == *o,
{
    match o {
        Some(s) => Some(s.clone()),
        None => None,
    }
}

/// Whether two optional texts hold the same.
pub fn same_text_option(a: &Option<String>, b: &Option<String>) -> (r: bool)
    ensures
        r == (text_option(*a) == text_option(*b)),
{
    match (a, b) {
        (Some(x), Some(y)) => crate::text::same_text(x.as_str(), y.as_str()),
        (None, None) => true,
        _ => false,
    }
}

} // verus!

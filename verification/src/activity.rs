//! Finding the outcome of a session's last user turn in its history.

use vstd::prelude::*;

use crate::errors::{ErrorModel, OpenBitFunError};
use crate::text::{joined, same_text};
use crate::turn::{DialogTurnKind, TurnStatus};
use crate::window::is_visible;

verus! {

/// How far the recovery of an interrupted turn has come.
#[derive(Debug, Clone, Copy, PartialEq, Eq, Structural)]
pub enum DialogTurnRecoveryStatus {
    Interrupted,
    Other,
}

/// The recovery record of a turn.
#[derive(Debug, Clone, Copy, PartialEq, Eq, Structural)]
pub struct DialogTurnRecovery {
    pub status: DialogTurnRecoveryStatus,
    pub execution_generation: u64,
}

/// What the activity summary reads of a persisted turn.
#[derive(Debug)]
pub struct StoredTurnActivity {
    pub turn_id: String,
    pub turn_index: usize,
    pub session_id: String,
    pub kind: DialogTurnKind,
    pub status: TurnStatus,
    pub end_time: Option<u64>,
    pub finish_reason: Option<String>,
    pub recovery_epoch: Option<u64>,
    pub recovery: Option<DialogTurnRecovery>,
}

/// The outcome of a session's last user turn.
#[derive(Debug, Clone)]
pub struct SessionLastTurn {
    pub turn_id: String,
    pub turn_index: usize,
    pub status: TurnStatus,
    pub end_time: Option<u64>,
    pub execution_generation: Option<u64>,
    pub recovery_pending: Option<bool>,
}

/// The generation in which a turn was executed.
pub open spec fn execution_generation(turn: StoredTurnActivity) -> Option<u64> {
    match turn.recovery_epoch {
        Some(epoch) => Some(epoch),
        None => match turn.recovery {
            Some(recovery) => Some(recovery.execution_generation),
            None => None,
        },
    }
}

/// Whether a turn was interrupted and waits to be recovered.
pub open spec fn recovery_pending(turn: StoredTurnActivity) -> bool {
    &&& turn.status == TurnStatus::Cancelled
    &&& turn.finish_reason matches Some(reason) && reason@ == "interrupted"@
    &&& turn.recovery matches Some(recovery) && recovery.status
        == DialogTurnRecoveryStatus::Interrupted
}

/// Whether an outcome is that of this turn.
pub open spec fn is_outcome_of(last: SessionLastTurn, turn: StoredTurnActivity) -> bool {
    &&& last.turn_id == turn.turn_id
    &&& last.turn_index == turn.turn_index
    &&& last.status == turn.status
    &&& last.end_time == turn.end_time
    &&& last.execution_generation == execution_generation(turn)
    &&& last.recovery_pending == Some(recovery_pending(turn))
}

/// A walk over the indices of turn files from the latest backwards. The first
/// `remaining` of them have not been visited.
#[derive(Debug)]
pub struct ActivityScan {
    pub indices: Vec<usize>,
    pub remaining: usize,
    pub boundary: Option<usize>,
}

/// The error for a session without any turn file.
pub open spec fn history_missing(session_id: Seq<char>) -> ErrorModel {
    ErrorModel::NotFound("Session activity history is missing: "@ + session_id)
}

/// What one visited turn comes to.
#[derive(Debug)]
pub enum ActivityVerdict {
    /// The turn is not the one its place says.
    Mismatch,
    /// The turn is no user turn; the walk goes on.
    Skip,
    /// The turn's outcome is the session's. It is to be stored unless a staged
    /// boundary hides later turns, which may come back.
    Found { last_turn: SessionLastTurn, store: bool },
}

/// The latest position below `n` whose turn is visible, or -1.
pub open spec fn latest_visible(indices: Seq<usize>, boundary: Option<usize>, n: int) -> int
    decreases n,
{
    if n <= 0 || n > indices.len() {
        -1
    } else if is_visible(indices[n - 1], boundary) {
        n - 1
    } else {
        latest_visible(indices, boundary, n - 1)
    }
}

proof fn lemma_latest_visible(indices: Seq<usize>, boundary: Option<usize>, n: int)
    requires
        0 <= n <= indices.len(),
    ensures
        -1 <= latest_visible(indices, boundary, n) < n || n == 0,
        latest_visible(indices, boundary, n) >= 0 ==> is_visible(
            indices[latest_visible(indices, boundary, n)],
            boundary,
        ),
        forall|i: int|
            latest_visible(indices, boundary, n) < i < n ==> !is_visible(
                #[trigger] indices[i],
                boundary,
            ),
    decreases n,
{
    if n > 0 && !is_visible(indices[n - 1], boundary) {
        lemma_latest_visible(indices, boundary, n - 1);
    }
}

/// Whether the `k`-th of these positions is the one that a walk visits then.
pub open spec fn is_visit(
    indices: Seq<usize>,
    boundary: Option<usize>,
    visited: Seq<int>,
    k: int,
) -> bool {
    let from = if k == 0 {
        indices.len() as int
    } else {
        visited[k - 1]
    };
    0 <= visited[k] && visited[k] == latest_visible(indices, boundary, from)
}

/// Whether these positions are visited one after the other by a walk.
pub open spec fn is_walk(
    indices: Seq<usize>,
    boundary: Option<usize>,
    visited: Seq<int>,
) -> bool {
    forall|k: int| 0 <= k < visited.len() ==> #[trigger] is_visit(indices, boundary, visited, k)
}

/// The first `n` visits of a walk hold exactly the visible positions from the
/// last of them on.
proof fn lemma_walk(
    indices: Seq<usize>,
    boundary: Option<usize>,
    visited: Seq<int>,
    n: int,
)
    requires
        is_walk(indices, boundary, visited),
        0 < n <= visited.len(),
    ensures
        0 <= visited[n - 1] < indices.len(),
        forall|p: int|
            visited[n - 1] <= p < indices.len() ==> (visited.take(n).contains(p)
                <==> #[trigger] is_visible(indices[p], boundary)),
        forall|p: int| #[trigger] visited.take(n).contains(p) ==> p >= visited[n - 1],
    decreases n,
{
    assert(is_visit(indices, boundary, visited, n - 1));
    let now = visited.take(n);
    let then = visited.take(n - 1);
    let at = visited[n - 1];
    assert(now =~= then.push(at));
    assert(now[n - 1] == at);
    if n == 1 {
        lemma_latest_visible(indices, boundary, indices.len() as int);
        assert(then =~= Seq::<int>::empty());
        assert forall|p: int| at <= p < indices.len() implies (now.contains(p)
            <==> #[trigger] is_visible(indices[p], boundary)) by {
            if now.contains(p) {
                let k = choose|k: int| 0 <= k < now.len() && now[k] == p;
                assert(k == 0);
            }
        }
        assert forall|p: int| #[trigger] now.contains(p) implies p >= at by {
            let k = choose|k: int| 0 <= k < now.len() && now[k] == p;
            assert(k == 0);
        }
    } else {
        lemma_walk(indices, boundary, visited, n - 1);
        let before = visited[n - 2];
        lemma_latest_visible(indices, boundary, before);
        assert forall|p: int| now.contains(p) <==> then.contains(p) || p == at by {
            if now.contains(p) {
                let k = choose|k: int| 0 <= k < now.len() && now[k] == p;
                if k < n - 1 {
                    assert(then[k] == p);
                }
            }
            if then.contains(p) {
                let k = choose|k: int| 0 <= k < then.len() && then[k] == p;
                assert(now[k] == p);
            }
        }
        assert forall|p: int| at <= p < indices.len() implies (now.contains(p)
            <==> #[trigger] is_visible(indices[p], boundary)) by {
            if p < before {
                assert(!then.contains(p));
            }
        }
        assert forall|p: int| #[trigger] now.contains(p) implies p >= at by {
            assert(then.contains(p) || p == at);
        }
    }
}

/// A walk visits every visible turn from the latest on and no other, so a user
/// turn that it stops at is the latest visible one.
pub proof fn a_walk_passes_over_no_visible_turn(
    indices: Seq<usize>,
    boundary: Option<usize>,
    visited: Seq<int>,
    position: int,
)
    requires
        is_walk(indices, boundary, visited),
        visited.len() > 0,
        visited.last() <= position < indices.len(),
    ensures
        visited.contains(position) <==> is_visible(indices[position], boundary),
{
    lemma_walk(indices, boundary, visited, visited.len() as int);
    assert(visited.take(visited.len() as int) =~= visited);
}

impl ActivityScan {
    /// Whether the walk is within its indices.
    pub open spec fn valid(self) -> bool {
        self.remaining <= self.indices@.len()
    }

    /// Begins a walk. A session without any turn file has no history to walk.
    pub fn start(session_id: &str, indices: Vec<usize>, boundary: Option<usize>) -> (r: Result<
        ActivityScan,
        OpenBitFunError,
    >)
        ensures
            indices@.len() == 0 ==> (r matches Err(e) && e@ == history_missing(session_id@)),
            indices@.len() > 0 ==> (r matches Ok(scan) && scan.valid() && scan.indices == indices
                && scan.remaining == indices@.len() && scan.boundary == boundary),
    {
        if indices.len() == 0 {
            let mut text: String = "Session activity history is missing: ".to_owned();
            text.append(session_id);
            return Err(OpenBitFunError::NotFound(text));
        }
        let remaining: usize = indices.len();
        Ok(ActivityScan { indices, remaining, boundary })
    }

    /// Goes on to the latest turn that was not visited and is visible.
    pub fn next(&mut self) -> (r: Option<usize>)
        requires
            old(self).valid(),
        ensures
            final(self).valid(),
            final(self).indices == old(self).indices,
            final(self).boundary == old(self).boundary,
            ({
                let at = latest_visible(
                    old(self).indices@,
                    old(self).boundary,
                    old(self).remaining as int,
                );
                if at >= 0 {
                    r == Some(old(self).indices@[at]) && final(self).remaining == at
                } else {
                    r is None && final(self).remaining == 0
                }
            }),
    {
        while self.remaining > 0
            invariant
                self.valid(),
                self.indices == old(self).indices,
                self.boundary == old(self).boundary,
                latest_visible(self.indices@, self.boundary, self.remaining as int)
                    == latest_visible(
                    old(self).indices@,
                    old(self).boundary,
                    old(self).remaining as int,
                ),
            decreases self.remaining,
        {
            let at: usize = self.remaining - 1;
            self.remaining = at;
            let index: usize = self.indices[at];
            let hidden: bool = match self.boundary {
                Some(b) => index >= b,
                None => false,
            };
            if !hidden {
                return Some(index);
            }
        }
        None
    }

    /// Decides what a visited turn comes to.
    pub fn judge(&self, session_id: &str, index: usize, turn: StoredTurnActivity) -> (r:
        ActivityVerdict)
        ensures
            if turn.session_id@ != session_id@ || turn.turn_index != index {
                r is Mismatch
            } else if turn.kind != DialogTurnKind::UserDialog {
                r is Skip
            } else {
                &&& r matches ActivityVerdict::Found { last_turn, store }
                &&& is_outcome_of(last_turn, turn)
                &&& store == (self.boundary is None)
            },
    {
        if !same_text(turn.session_id.as_str(), session_id) || turn.turn_index != index {
            return ActivityVerdict::Mismatch;
        }
        if turn.kind != DialogTurnKind::UserDialog {
            return ActivityVerdict::Skip;
        }
        let interrupted = match &turn.finish_reason {
            Some(reason) => same_text(reason.as_str(), "interrupted"),
            None => false,
        };
        let waiting = match turn.recovery {
            Some(recovery) => recovery.status == DialogTurnRecoveryStatus::Interrupted,
            None => false,
        };
        let generation = match turn.recovery_epoch {
            Some(epoch) => Some(epoch),
            None => match turn.recovery {
                Some(recovery) => Some(recovery.execution_generation),
                None => None,
            },
        };
        let pending = turn.status == TurnStatus::Cancelled && interrupted && waiting;
        ActivityVerdict::Found {
            last_turn: SessionLastTurn {
                turn_id: turn.turn_id,
                turn_index: turn.turn_index,
                status: turn.status,
                end_time: turn.end_time,
                execution_generation: generation,
                recovery_pending: Some(pending),
            },
            store: self.boundary.is_none(),
        }
    }
}

/// Whether the history of a session is walked at all.
#[derive(Debug, Clone, Copy, PartialEq, Eq, Structural)]
pub enum BackfillAdmission {
    /// The given metadata says enough.
    KeepGiven,
    /// The metadata is gone by now.
    NotFound,
    /// The metadata that is stored by now says enough.
    KeepStored,
    /// The history has to be walked.
    Walk,
}

/// Decides whether the history of a session is walked. `stored_needs` says of
/// the metadata that was read again under the session's locks whether it lacks
/// the outcome, if it was there: newer metadata goes before the given one.
pub fn backfill_admission(given_needs: bool, stored_needs: Option<bool>) -> (r: BackfillAdmission)
    ensures
        r == (if !given_needs {
            BackfillAdmission::KeepGiven
        } else {
            match stored_needs {
                None => BackfillAdmission::NotFound,
                Some(needs) => if needs {
                    BackfillAdmission::Walk
                } else {
                    BackfillAdmission::KeepStored
                },
            }
        }),
{
    if !given_needs {
        return BackfillAdmission::KeepGiven;
    }
    match stored_needs {
        None => BackfillAdmission::NotFound,
        Some(needs) => if needs {
            BackfillAdmission::Walk
        } else {
            BackfillAdmission::KeepStored
        },
    }
}

/// The error for a turn that disappeared while the history was walked.
pub fn activity_turn_missing_error(path: &str) -> (r: OpenBitFunError)
    ensures
        r@ == ErrorModel::NotFound("Session activity Turn is missing: "@ + path@),
{
    OpenBitFunError::NotFound(joined("Session activity Turn is missing: ", path))
}

/// The error for a turn that is not the one its place says.
pub fn activity_turn_mismatch_error(path: &str) -> (r: OpenBitFunError)
    ensures
        r@ == ErrorModel::Validation("Session activity Turn identity mismatch: "@ + path@),
{
    OpenBitFunError::Validation(joined("Session activity Turn identity mismatch: ", path))
}

/// The latest visible position lies before the staged boundary, and every later
/// one is at the boundary or behind it; there is none exactly when all are.
pub proof fn the_latest_visible_turn_lies_before_the_boundary(
    indices: Seq<usize>,
    boundary: Option<usize>,
    n: int,
)
    requires
        0 <= n <= indices.len(),
    ensures
        ({
            let at = latest_visible(indices, boundary, n);
            &&& -1 <= at < n || n == 0
            &&& at >= 0 ==> (boundary matches Some(b) ==> indices[at] < b)
            &&& forall|i: int|
                at < i < n && 0 <= i ==> (boundary matches Some(b) && #[trigger] indices[i] >= b)
        }),
    decreases n,
{
    if n > 0 && !is_visible(indices[n - 1], boundary) {
        the_latest_visible_turn_lies_before_the_boundary(indices, boundary, n - 1);
    }
}

/// The generation of a turn is that of its epoch where it has one, else that of
/// its recovery, and none without either.
pub proof fn an_epoch_goes_before_a_recovery(turn: StoredTurnActivity)
    ensures
        turn.recovery_epoch is Some ==> execution_generation(turn) == turn.recovery_epoch,
        turn.recovery_epoch is None ==> (turn.recovery matches Some(recovery)
            ==> execution_generation(turn) == Some(recovery.execution_generation)),
        turn.recovery_epoch is None && turn.recovery is None ==> execution_generation(turn) is None,
{
}

/// Only a cancelled turn that ended by an interruption and whose recovery is
/// still interrupted waits to be recovered.
pub proof fn only_interrupted_turns_wait_for_recovery(turn: StoredTurnActivity)
    ensures
        turn.status != TurnStatus::Cancelled ==> !recovery_pending(turn),
        turn.finish_reason is None || turn.finish_reason->0@ != "interrupted"@ ==> !recovery_pending(
            turn,
        ),
        turn.recovery is None || turn.recovery->0.status != DialogTurnRecoveryStatus::Interrupted
            ==> !recovery_pending(turn),
        (turn.status == TurnStatus::Cancelled && turn.finish_reason is Some
            && turn.finish_reason->0@ == "interrupted"@ && turn.recovery is Some
            && turn.recovery->0.status == DialogTurnRecoveryStatus::Interrupted)
            ==> recovery_pending(turn),
{
}

/// The outcome of a turn names the turn and tells how it ended.
pub proof fn an_outcome_is_that_of_its_turn(last: SessionLastTurn, turn: StoredTurnActivity)
    requires
        is_outcome_of(last, turn),
    ensures
        last.turn_id@ == turn.turn_id@,
        last.turn_index == turn.turn_index,
        last.status == turn.status,
        last.end_time == turn.end_time,
        turn.recovery_epoch is Some ==> last.execution_generation == turn.recovery_epoch,
        turn.status != TurnStatus::Cancelled ==> last.recovery_pending == Some(false),
        last.recovery_pending is Some,
{
}

} // verus!

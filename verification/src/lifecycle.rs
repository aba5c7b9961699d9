//! Creating a session's directory and changing a session's title: what each
//! outcome of writing leads to.

use vstd::prelude::*;

use crate::errors::{ErrorModel, OpenBitFunError};
use crate::session::SessionMetadata;
use crate::text::{joined, same_text};

verus! {

/// A session directory whose first files have not all been written. Unless it
/// was committed it is removed when it is given up.
#[derive(Debug)]
pub struct PendingSessionDirectory {
    pub path: String,
    pub committed: bool,
}

impl PendingSessionDirectory {
    /// A directory that was just created.
    pub fn new(path: String) -> (r: PendingSessionDirectory)
        ensures
            r.path == path,
            !r.committed,
    {
        PendingSessionDirectory { path, committed: false }
    }

    /// The directory stays.
    pub fn commit(&mut self)
        ensures
            final(self).committed,
            final(self).path == old(self).path,
    {
        self.committed = true;
    }

    /// Whether the directory is removed when it is given up.
    pub fn is_removed_when_dropped(&self, exists: bool) -> (r: bool)
        ensures
            r == (!self.committed && exists),
    {
        !self.committed && exists
    }
}

/// What creating the directory of a new session came to.
#[derive(Debug, Clone, Copy, PartialEq, Eq, Structural)]
pub enum ClaimOutcome {
    Claimed,
    AlreadyExists,
    Failed,
}

/// The error that the outcome of a claim calls for by itself.
pub open spec fn claim_error(session_id: Seq<char>, outcome: ClaimOutcome) -> Option<ErrorModel> {
    match outcome {
        ClaimOutcome::AlreadyExists => Some(
            ErrorModel::Validation("Persisted session ID already exists: "@ + session_id),
        ),
        _ => None,
    }
}

/// The error for a session id that is taken. A failure to create the directory
/// has its own.
pub fn session_claim_error(session_id: &str, outcome: ClaimOutcome) -> (r: Option<OpenBitFunError>)
    ensures
        match r {
            Some(e) => claim_error(session_id@, outcome) == Some(e@),
            None => claim_error(session_id@, outcome) is None,
        },
        outcome is AlreadyExists ==> (r matches Some(e) && e@ == ErrorModel::Validation(
            "Persisted session ID already exists: "@ + session_id@,
        )),
        !(outcome is AlreadyExists) ==> r is None,
{
    match outcome {
        ClaimOutcome::AlreadyExists => Some(
            OpenBitFunError::Validation(
                joined("Persisted session ID already exists: ", session_id),
            ),
        ),
        _ => None,
    }
}

/// What writing the first files of a session came to: the error and its text
/// when it failed, and then the text of the error of cleaning up, if that failed
/// too.
#[derive(Debug)]
pub enum FirstWriteOutcome {
    Written,
    CleanedUp { error: OpenBitFunError },
    CleanupFailed { error_text: String, cleanup_error_text: String },
}

/// The end of a session's creation.
#[derive(Debug)]
pub struct SessionCreationEnd {
    pub result: Result<(), OpenBitFunError>,
    pub commit: bool,
}

/// The error that a first write calls for.
pub open spec fn first_write_error(session_id: Seq<char>, outcome: FirstWriteOutcome) -> Option<
    ErrorModel,
> {
    match outcome {
        FirstWriteOutcome::Written => None,
        FirstWriteOutcome::CleanedUp { error } => Some(error@),
        FirstWriteOutcome::CleanupFailed { error_text, cleanup_error_text } => Some(
            ErrorModel::SessionCreateCleanupRequired {
                session_id,
                error: error_text@,
                cleanup_error: cleanup_error_text@,
            },
        ),
    }
}

/// What claiming an id comes to where nothing else goes wrong: an id is claimed
/// unless a session is stored under it.
pub open spec fn claim_among<S>(stored: Map<Seq<char>, S>, session_id: Seq<char>) -> ClaimOutcome {
    if stored.contains_key(session_id) {
        ClaimOutcome::AlreadyExists
    } else {
        ClaimOutcome::Claimed
    }
}

/// What creating a session among stored ones comes to: the sessions that are
/// stored then, and the error. A session whose files were not written leaves
/// nothing behind.
pub open spec fn session_creation<S>(
    stored: Map<Seq<char>, S>,
    session_id: Seq<char>,
    session: S,
    outcome: FirstWriteOutcome,
) -> (Map<Seq<char>, S>, Option<ErrorModel>) {
    match claim_error(session_id, claim_among(stored, session_id)) {
        Some(error) => (stored, Some(error)),
        None => if outcome is Written {
            (stored.insert(session_id, session), None)
        } else {
            (stored, first_write_error(session_id, outcome))
        },
    }
}

/// Of two creations of one id exactly one succeeds: the one that claims the id
/// first. The other is told that the id exists, and the session that is stored is
/// the one of the first. Other sessions stay as they are.
pub proof fn one_of_two_creations_succeeds<S>(
    stored: Map<Seq<char>, S>,
    session_id: Seq<char>,
    first: S,
    second: S,
)
    requires
        !stored.contains_key(session_id),
    ensures
        ({
            let one = session_creation(stored, session_id, first, FirstWriteOutcome::Written);
            let two = session_creation(one.0, session_id, second, FirstWriteOutcome::Written);
            &&& one.1 is None
            &&& two.1 == Some(
                ErrorModel::Validation("Persisted session ID already exists: "@ + session_id),
            )
            &&& two.0.contains_key(session_id)
            &&& two.0[session_id] == first
            &&& two.0.remove(session_id) == stored
        }),
{
    assert(stored.insert(session_id, first).remove(session_id) =~= stored);
}

/// A creation whose files were not written, and which was cleaned up, does not
/// take the id: the next creation succeeds.
pub proof fn a_failed_creation_leaves_the_id_free<S>(
    stored: Map<Seq<char>, S>,
    session_id: Seq<char>,
    first: S,
    second: S,
    error: OpenBitFunError,
)
    requires
        !stored.contains_key(session_id),
    ensures
        ({
            let one = session_creation(
                stored,
                session_id,
                first,
                FirstWriteOutcome::CleanedUp { error },
            );
            let two = session_creation(one.0, session_id, second, FirstWriteOutcome::Written);
            &&& one.1 == Some(error@)
            &&& two.1 is None
            &&& two.0 == stored.insert(session_id, second)
        }),
{
}

/// Decides how the creation of a session ends. The directory is left to be
/// removed only when cleaning up failed.
pub fn finish_session_creation(session_id: &str, outcome: FirstWriteOutcome) -> (r:
    SessionCreationEnd)
    ensures
        match r.result {
            Ok(_) => first_write_error(session_id@, outcome) is None,
            Err(e) => first_write_error(session_id@, outcome) == Some(e@),
        },
        match outcome {
            FirstWriteOutcome::Written => r.result is Ok && r.commit,
            FirstWriteOutcome::CleanedUp { error } => r.result == Err::<(), OpenBitFunError>(error)
                && r.commit,
            FirstWriteOutcome::CleanupFailed {
                error_text,
                cleanup_error_text,
            } => {
                &&& r.result matches Err(e)
                &&& e@ == (ErrorModel::SessionCreateCleanupRequired {
                    session_id: session_id@,
                    error: error_text@,
                    cleanup_error: cleanup_error_text@,
                })
                &&& !r.commit
            },
        },
{
    match outcome {
        FirstWriteOutcome::Written => SessionCreationEnd { result: Ok(()), commit: true },
        FirstWriteOutcome::CleanedUp { error } => SessionCreationEnd {
            result: Err(error),
            commit: true,
        },
        FirstWriteOutcome::CleanupFailed {
            error_text,
            cleanup_error_text,
        } => SessionCreationEnd {
            result: Err(
                OpenBitFunError::SessionCreateCleanupRequired {
                    session_id: session_id.to_owned(),
                    error: error_text,
                    cleanup_error: cleanup_error_text,
                },
            ),
            commit: false,
        },
    }
}

/// The step of a title change that is being done.
#[derive(Debug, Clone, Copy, PartialEq, Eq, Structural)]
pub enum TitleStage {
    WritingUpdated,
    ReadingAfterWrite,
    WritingOriginal,
    ReadingAfterRollback,
    Finished,
}

/// What is to be done next in a title change.
#[derive(Debug, Clone, Copy, PartialEq, Eq, Structural)]
pub enum TitleStep {
    /// Read the metadata again and compare it with the original.
    ReadBack,
    /// Write the original metadata.
    WriteOriginal,
    /// The title is changed.
    Succeed,
    /// The title is as it was; the error of the write is the result.
    FailUnchanged,
    /// Neither the new nor the old title is certain.
    FailUnknown,
}

/// What a step leads to. `good` says, of a write, that it succeeded, and of
/// reading, that the original was found.
pub open spec fn title_step(stage: TitleStage, good: bool) -> (TitleStage, TitleStep) {
    match stage {
        TitleStage::WritingUpdated => if good {
            (TitleStage::Finished, TitleStep::Succeed)
        } else {
            (TitleStage::ReadingAfterWrite, TitleStep::ReadBack)
        },
        TitleStage::ReadingAfterWrite => if good {
            (TitleStage::Finished, TitleStep::FailUnchanged)
        } else {
            (TitleStage::WritingOriginal, TitleStep::WriteOriginal)
        },
        TitleStage::WritingOriginal => (TitleStage::ReadingAfterRollback, TitleStep::ReadBack),
        TitleStage::ReadingAfterRollback => if good {
            (TitleStage::Finished, TitleStep::FailUnchanged)
        } else {
            (TitleStage::Finished, TitleStep::FailUnknown)
        },
        TitleStage::Finished => (TitleStage::Finished, TitleStep::FailUnknown),
    }
}

/// Goes on with a title change.
pub fn next_title_step(stage: TitleStage, good: bool) -> (r: (TitleStage, TitleStep))
    requires
        !(stage is Finished),
    ensures
        r == title_step(stage, good),
{
    match stage {
        TitleStage::WritingUpdated => if good {
            (TitleStage::Finished, TitleStep::Succeed)
        } else {
            (TitleStage::ReadingAfterWrite, TitleStep::ReadBack)
        },
        TitleStage::ReadingAfterWrite => if good {
            (TitleStage::Finished, TitleStep::FailUnchanged)
        } else {
            (TitleStage::WritingOriginal, TitleStep::WriteOriginal)
        },
        TitleStage::WritingOriginal => (TitleStage::ReadingAfterRollback, TitleStep::ReadBack),
        TitleStage::ReadingAfterRollback | TitleStage::Finished => if good {
            (TitleStage::Finished, TitleStep::FailUnchanged)
        } else {
            (TitleStage::Finished, TitleStep::FailUnknown)
        },
    }
}

/// How a title change ends, given what each of its writes and reads came to.
pub open spec fn title_outcome(
    written: bool,
    original_after_write: bool,
    original_after_rollback: bool,
) -> TitleStep {
    if written {
        TitleStep::Succeed
    } else if original_after_write || original_after_rollback {
        TitleStep::FailUnchanged
    } else {
        TitleStep::FailUnknown
    }
}

/// A title change ends as its writes and reads say, whatever rolling back came
/// to: it is reported as unknown only when the original was found neither before
/// nor after rolling back.
pub proof fn title_change_ends_as_it_should(
    written: bool,
    original_after_write: bool,
    rolled_back: bool,
    original_after_rollback: bool,
)
    ensures
        ({
            let (s1, a1) = title_step(TitleStage::WritingUpdated, written);
            let (s2, a2) = title_step(s1, original_after_write);
            let (s3, a3) = title_step(s2, rolled_back);
            let (s4, a4) = title_step(s3, original_after_rollback);
            title_outcome(written, original_after_write, original_after_rollback) == (
            if s1 is Finished {
                a1
            } else if s2 is Finished {
                a2
            } else {
                a4
            })
        }),
{
}

/// Whether metadata that was read again has the title and the time of the
/// original.
pub fn is_original_title(read: &Option<SessionMetadata>, original: &SessionMetadata) -> (r: bool)
    ensures
        r == (read matches Some(m) && m.session_name@ == original.session_name@ && m.last_active_at
            == original.last_active_at),
{
    match read {
        Some(m) => same_text(m.session_name.as_str(), original.session_name.as_str())
            && m.last_active_at == original.last_active_at,
        None => false,
    }
}

/// Gives metadata a new title.
pub fn set_session_title(metadata: &mut SessionMetadata, session_name: &str, last_active_at: u64)
    ensures
        final(metadata).session_name@ == session_name@,
        final(metadata).last_active_at == last_active_at,
        *final(metadata) == (SessionMetadata {
            session_name: final(metadata).session_name,
            last_active_at: final(metadata).last_active_at,
            ..*old(metadata)
        }),
{
    metadata.session_name = session_name.to_owned();
    metadata.last_active_at = last_active_at;
}

/// The error of a title change of which neither title is certain.
pub fn title_outcome_unknown_error(
    session_id: &str,
    write_error: &str,
    rollback_error: &Option<String>,
) -> (r: OpenBitFunError)
    ensures
        r@ == ErrorModel::OutcomeUnknown(
            "Session title persistence failed and rollback did not restore the previous metadata: session_id="@
                + session_id@ + ", error="@ + write_error@ + ", rollback_error="@ + (
            match *rollback_error {
                Some(e) => e@,
                None => "none"@,
            }),
        ),
{
    let mut text: String =
        "Session title persistence failed and rollback did not restore the previous metadata: session_id=".to_owned();
    text.append(session_id);
    text.append(", error=");
    text.append(write_error);
    text.append(", rollback_error=");
    match rollback_error {
        Some(e) => {
            text.append(e.as_str());
        },
        None => {
            text.append("none");
        },
    }
    OpenBitFunError::OutcomeUnknown(text)
}

/// A title that was written is reported as changed. One that was not is reported
/// as unchanged where the original is found, before rolling back or after it, and
/// as unknown only where it is found neither time; rolling back is tried exactly
/// when the original was not found at first.
pub proof fn a_title_change_reports_what_is_stored(
    written: bool,
    original_after_write: bool,
    rolled_back: bool,
    original_after_rollback: bool,
)
    ensures
        ({
            let (s1, a1) = title_step(TitleStage::WritingUpdated, written);
            let (s2, a2) = title_step(s1, original_after_write);
            let (s3, a3) = title_step(s2, rolled_back);
            let (s4, a4) = title_step(s3, original_after_rollback);
            &&& written ==> s1 is Finished && a1 is Succeed
            &&& !written ==> !(s1 is Finished) && a1 is ReadBack
            &&& !written && original_after_write ==> s2 is Finished && a2 is FailUnchanged
            &&& !written && !original_after_write ==> !(s2 is Finished) && a2 is WriteOriginal && !(
            s3 is Finished) && a3 is ReadBack && s4 is Finished
            &&& !written && !original_after_write && original_after_rollback ==> a4
                is FailUnchanged
            &&& !written && !original_after_write && !original_after_rollback ==> a4 is FailUnknown
        }),
{
}

} // verus!

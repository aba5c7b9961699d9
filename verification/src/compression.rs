//! Compression transcripts: artifacts named after the turn up to which history
//! was compressed, so that rolling back or branching a session can find those
//! that go with a part of its history.

use vstd::prelude::*;
use vstd::string::StringSliceAdditionalSpecFns;

use crate::catalog::strictly_ascending;
use crate::digest::{is_lower_hex, random_simple_uuid};
use crate::errors::{push_number, ErrorModel, OpenBitFunError};
use crate::text::{
    chars_of, decimal, decimal_text, has_suffix, is_digit, is_numeral, last_position,
    lemma_decimal_value, lemma_last_position, numeral_value, parse_unsigned, rsplit_once,
    strip_suffix, text_between,
};
use crate::turn::DialogTurnData;

verus! {

pub const COMPRESSION_TRANSCRIPT_SCHEMA_VERSION: u32 = 1;

pub const COMPRESSION_TRANSCRIPT_CREATE_ATTEMPTS: usize = 32;

/// Whether `s` is four lower-case hexadecimal digits.
pub open spec fn is_short_id(s: Seq<char>) -> bool {
    s.len() == 4 && forall|i: int| 0 <= i < 4 ==> is_lower_hex(#[trigger] s[i])
}

/// What stands before one of the two endings of an artifact's name.
pub open spec fn artifact_stem(file_name: Seq<char>) -> Option<Seq<char>> {
    if has_suffix(file_name, ".meta.json"@) {
        Some(file_name.take(file_name.len() - ".meta.json"@.len()))
    } else if has_suffix(file_name, ".txt"@) {
        Some(file_name.take(file_name.len() - ".txt"@.len()))
    } else {
        None
    }
}

/// The turn that an artifact's stem names: digits, a hyphen and a short id.
pub open spec fn stem_boundary(stem: Seq<char>) -> Option<nat> {
    let at = last_position(stem, '-');
    if at >= 0 && is_short_id(stem.skip(at + 1)) && is_numeral(stem.take(at)) && numeral_value(
        stem.take(at),
    ) <= usize::MAX {
        Some(numeral_value(stem.take(at)))
    } else {
        None
    }
}

/// The turn that an artifact's name holds.
pub open spec fn file_boundary(file_name: Seq<char>) -> Option<nat> {
    match artifact_stem(file_name) {
        Some(stem) => stem_boundary(stem),
        None => None,
    }
}

/// The turn that an artifact's name holds, when it has exactly the form of one.
pub fn compression_transcript_boundary_from_file_name(file_name: &str) -> (r: Option<usize>)
    ensures
        r is Some == file_boundary(file_name@) is Some,
        r matches Some(boundary) ==> file_boundary(file_name@) == Some(boundary as nat),
{
    let stem = match strip_suffix(file_name, ".meta.json") {
        Some(stem) => stem,
        None => match strip_suffix(file_name, ".txt") {
            Some(stem) => stem,
            None => {
                return None;
            },
        },
    };
    let (boundary, short_id) = match rsplit_once(stem.as_str(), '-') {
        Some(parts) => parts,
        None => {
            return None;
        },
    };
    if !has_short_id_form(short_id.as_str()) || !has_numeral_form(boundary.as_str()) {
        return None;
    }
    assert(boundary@[0] != '+') by {
        assert(is_digit(boundary@[0]));
    }
    parse_unsigned(boundary.as_str())
}

/// Decides [`is_short_id`].
fn has_short_id_form(s: &str) -> (r: bool)
    ensures
        r == is_short_id(s@),
{
    let chars = chars_of(s);
    if chars.len() != 4 {
        return false;
    }
    let mut i: usize = 0;
    while i < 4
        invariant
            chars@ == s@,
            chars@.len() == 4,
            i <= 4,
            forall|j: int| 0 <= j < i ==> is_lower_hex(#[trigger] chars@[j]),
        decreases 4 - i,
    {
        let c: char = chars[i];
        if !(('0' <= c && c <= '9') || ('a' <= c && c <= 'f')) {
            assert(!is_lower_hex(s@[i as int]));
            return false;
        }
        i += 1;
    }
    true
}

/// Decides [`is_numeral`].
fn has_numeral_form(s: &str) -> (r: bool)
    ensures
        r == is_numeral(s@),
{
    let chars = chars_of(s);
    if chars.len() == 0 {
        return false;
    }
    let mut i: usize = 0;
    while i < chars.len()
        invariant
            chars@ == s@,
            chars@.len() > 0,
            i <= chars@.len(),
            forall|j: int| 0 <= j < i ==> is_digit(#[trigger] chars@[j]),
        decreases chars@.len() - i,
    {
        let c: char = chars[i];
        if !('0' <= c && c <= '9') {
            assert(!is_digit(s@[i as int]));
            return false;
        }
        i += 1;
    }
    true
}

/// The stem of an artifact for this turn and short id.
pub open spec fn stem_of(boundary: nat, short_id: Seq<char>) -> Seq<char> {
    decimal(boundary) + "-"@ + short_id
}

/// The name of an artifact: its short id and its stem.
#[derive(Debug)]
pub struct CompressionTranscriptName {
    pub short_id: String,
    pub stem: String,
}

/// The name of an artifact for this turn, with the first four digits of an
/// identifier as short id.
pub fn compression_transcript_name(boundary_turn_index: usize, identifier: &str) -> (r:
    CompressionTranscriptName)
    requires
        identifier@.len() >= 4,
        forall|i: int| 0 <= i < 4 ==> is_lower_hex(#[trigger] identifier@[i]),
    ensures
        r.short_id@ == identifier@.take(4),
        r.stem@ == stem_of(boundary_turn_index as nat, r.short_id@),
        is_short_id(r.short_id@),
{
    let chars = chars_of(identifier);
    let short_id = text_between(&chars, 0, 4);
    assert(short_id@ =~= identifier@.take(4));
    let mut stem: String = decimal_text(boundary_turn_index as u64);
    stem.append("-");
    stem.append(short_id.as_str());
    CompressionTranscriptName { short_id, stem }
}

/// A fresh name for an artifact of this turn.
pub fn new_compression_transcript_name(boundary_turn_index: usize) -> (r:
    CompressionTranscriptName)
    ensures
        is_short_id(r.short_id@),
        r.stem@ == stem_of(boundary_turn_index as nat, r.short_id@),
{
    let identifier = random_simple_uuid();
    compression_transcript_name(boundary_turn_index, identifier.as_str())
}

/// The names of both artifacts of a turn give that turn back.
pub proof fn artifact_names_give_back_their_turn(boundary: nat, short_id: Seq<char>)
    requires
        boundary <= usize::MAX,
        is_short_id(short_id),
    ensures
        file_boundary(stem_of(boundary, short_id) + ".txt"@) == Some(boundary),
        file_boundary(stem_of(boundary, short_id) + ".meta.json"@) == Some(boundary),
{
    reveal_strlit("-");
    reveal_strlit(".txt");
    reveal_strlit(".meta.json");
    let stem = stem_of(boundary, short_id);
    let digits = decimal(boundary);
    lemma_decimal_value(boundary);
    lemma_last_position(stem, '-');
    let at = last_position(stem, '-');
    assert(stem[digits.len() as int] == '-');
    assert(at == digits.len()) by {
        if at > digits.len() {
            assert(stem[at] == short_id[at - digits.len() - 1]);
            assert(is_lower_hex(short_id[at - digits.len() - 1]));
        }
    }
    assert(stem.take(at) =~= digits);
    assert(stem.skip(at + 1) =~= short_id);
    assert(stem_boundary(stem) == Some(boundary));
    let text_name = stem + ".txt"@;
    assert(!has_suffix(text_name, ".meta.json"@)) by {
        if has_suffix(text_name, ".meta.json"@) {
            let tail = text_name.skip(text_name.len() - 10);
            assert(tail[9] == text_name[text_name.len() - 1]);
            assert(tail[9] == 't');
            assert(".meta.json"@[9] == 'n');
        }
    }
    assert(text_name.skip(text_name.len() - 4) =~= ".txt"@);
    assert(text_name.take(text_name.len() - 4) =~= stem);
    let meta_name = stem + ".meta.json"@;
    assert(meta_name.skip(meta_name.len() - 10) =~= ".meta.json"@);
    assert(meta_name.take(meta_name.len() - 10) =~= stem);
}

/// Whether an artifact goes when the turns from `start` on are removed.
pub open spec fn removed_from(file_name: Seq<char>, start: nat) -> bool {
    file_boundary(file_name) matches Some(boundary) && boundary >= start
}

/// Whether an artifact comes along when the turns through `end` are branched.
pub open spec fn kept_through(file_name: Seq<char>, end: nat) -> bool {
    file_boundary(file_name) matches Some(boundary) && boundary <= end
}

/// Decides [`removed_from`].
pub fn is_compression_transcript_removed_from(file_name: &str, start_turn_index: usize) -> (r: bool)
    ensures
        r == removed_from(file_name@, start_turn_index as nat),
{
    match compression_transcript_boundary_from_file_name(file_name) {
        Some(boundary) => boundary >= start_turn_index,
        None => false,
    }
}

/// Decides [`kept_through`].
pub fn is_compression_transcript_kept_through(file_name: &str, end_turn_index: usize) -> (r: bool)
    ensures
        r == kept_through(file_name@, end_turn_index as nat),
{
    match compression_transcript_boundary_from_file_name(file_name) {
        Some(boundary) => boundary <= end_turn_index,
        None => false,
    }
}

/// Every artifact either comes along with the turns through `end` or goes with
/// the turns behind it, never both; other files do neither.
pub proof fn artifacts_are_kept_or_removed(file_name: Seq<char>, end: nat)
    ensures
        file_boundary(file_name) is Some ==> kept_through(file_name, end) != removed_from(
            file_name,
            end + 1,
        ),
        file_boundary(file_name) is None ==> !kept_through(file_name, end) && !removed_from(
            file_name,
            end + 1,
        ),
{
}

/// The positions of the turns up to and with the boundary turn, in order.
pub fn turns_through_boundary(turns: &Vec<DialogTurnData>, boundary_turn_index: usize) -> (r: Vec<
    usize,
>)
    ensures
        strictly_ascending(r@),
        forall|i: usize|
            #[trigger] r@.contains(i) <==> i < turns@.len() && turns@[i as int].turn_index
                <= boundary_turn_index,
{
    let mut r: Vec<usize> = Vec::new();
    let mut i: usize = 0;
    while i < turns.len()
        invariant
            i <= turns@.len(),
            strictly_ascending(r@),
            forall|j: int| 0 <= j < r@.len() ==> #[trigger] r@[j] < i,
            forall|x: usize|
                #[trigger] r@.contains(x) <==> x < i && turns@[x as int].turn_index
                    <= boundary_turn_index,
        decreases turns@.len() - i,
    {
        let ghost before = r@;
        if turns[i].turn_index <= boundary_turn_index {
            r.push(i);
            assert forall|x: usize| #[trigger] r@.contains(x) <==> x < i + 1
                && turns@[x as int].turn_index <= boundary_turn_index by {
                if r@.contains(x) && x != i {
                    let m = choose|m: int| 0 <= m < r@.len() && r@[m] == x;
                    assert(before[m] == x);
                    assert(before.contains(x));
                }
                if x < i && turns@[x as int].turn_index <= boundary_turn_index {
                    assert(before.contains(x));
                    let m = choose|m: int| 0 <= m < before.len() && before[m] == x;
                    assert(r@[m] == x);
                }
                if x == i {
                    assert(r@[before.len() as int] == x);
                }
            }
        }
        i += 1;
    }
    r
}

/// The positions of the turns that a compression transcript holds, or none when
/// no turn lies up to the boundary: then there is no transcript to make.
pub fn plan_compression_transcript(
    turns: &Vec<DialogTurnData>,
    boundary_turn_index: usize,
) -> (r: Option<Vec<usize>>)
    ensures
        r is None <==> forall|i: int|
            0 <= i < turns@.len() ==> (#[trigger] turns@[i]).turn_index > boundary_turn_index,
        r matches Some(selected) ==> {
            &&& selected@.len() > 0
            &&& strictly_ascending(selected@)
            &&& forall|i: usize|
                #[trigger] selected@.contains(i) <==> i < turns@.len()
                    && turns@[i as int].turn_index <= boundary_turn_index
        },
{
    let selected = turns_through_boundary(turns, boundary_turn_index);
    if selected.len() == 0 {
        assert forall|i: int| 0 <= i < turns@.len() implies (#[trigger] turns@[i]).turn_index
            > boundary_turn_index by {
            assert(i < turns.len());
            assert(!selected@.contains(i as usize));
        }
        None
    } else {
        assert(selected@.contains(selected@[0]));
        assert(turns@[selected@[0] as int].turn_index <= boundary_turn_index);
        Some(selected)
    }
}

/// The selector text that a compression transcript records: from the first turn
/// through the boundary turn.
pub fn boundary_selector_text(boundary_turn_index: usize) -> (r: String)
    ensures
        r@ == "0:"@ + decimal(
            (if boundary_turn_index < usize::MAX {
                boundary_turn_index + 1
            } else {
                usize::MAX as int
            }) as nat,
        ),
{
    let end: usize = if boundary_turn_index < usize::MAX {
        boundary_turn_index + 1
    } else {
        usize::MAX
    };
    let mut text: String = "0:".to_owned();
    push_number(&mut text, end as u64);
    text
}

/// The place of a compression transcript among the artifacts of its session.
pub fn compression_transcript_artifact_path(stem: &str) -> (r: String)
    ensures
        r@ == "artifacts/compression-transcripts/"@ + stem@ + ".txt"@,
{
    let mut text: String = "artifacts/compression-transcripts/".to_owned();
    text.append(stem);
    text.append(".txt");
    text
}

/// What creating one of the two files of an artifact came to.
#[derive(Debug, Clone, Copy, PartialEq, Eq, Structural)]
pub enum ReserveOutcome {
    Created,
    AlreadyExists,
    Failed,
}

/// What has been done of an artifact so far.
#[derive(Debug, Clone, Copy, PartialEq, Eq, Structural)]
pub enum CompressionStage {
    ReservingTranscript,
    ReservingMetadata,
    Writing,
    Finished,
}

/// The creation of an artifact. `attempts_left` counts the names that may still
/// be tried, the present one among them.
#[derive(Debug, Clone, Copy, PartialEq, Eq, Structural)]
pub struct CompressionCreation {
    pub attempts_left: usize,
    pub stage: CompressionStage,
}

/// Which files of the present attempt are to be removed first.
#[derive(Debug, Clone, Copy, PartialEq, Eq, Structural)]
pub enum CompressionCleanup {
    Nothing,
    Transcript,
    Pair,
}

/// What is to be done next.
#[derive(Debug, Clone, Copy, PartialEq, Eq, Structural)]
pub enum CompressionStep {
    ReserveTranscriptUnderNewName,
    ReserveMetadata,
    WritePair,
    Complete,
    TranscriptReservationFailed,
    MetadataReservationFailed,
    PairWriteFailed,
    NamesExhausted,
}

/// A clean-up and what comes after it.
#[derive(Debug, Clone, Copy, PartialEq, Eq, Structural)]
pub struct CompressionAction {
    pub cleanup: CompressionCleanup,
    pub step: CompressionStep,
}

impl CompressionCreation {
    /// Whether the creation is in a state that it can be in.
    pub open spec fn valid(self) -> bool {
        self.stage is Finished || 0 < self.attempts_left
            <= COMPRESSION_TRANSCRIPT_CREATE_ATTEMPTS
    }

    /// The files that the present attempt has created.
    pub open spec fn created(self) -> CompressionCleanup {
        match self.stage {
            CompressionStage::ReservingTranscript => CompressionCleanup::Nothing,
            CompressionStage::ReservingMetadata => CompressionCleanup::Transcript,
            CompressionStage::Writing => CompressionCleanup::Pair,
            CompressionStage::Finished => CompressionCleanup::Nothing,
        }
    }

    /// The step that goes on when the present stage succeeds.
    pub open spec fn success_step(self) -> CompressionStep {
        match self.stage {
            CompressionStage::ReservingTranscript => CompressionStep::ReserveMetadata,
            CompressionStage::ReservingMetadata => CompressionStep::WritePair,
            _ => CompressionStep::Complete,
        }
    }

    /// The step that reports a failure of the present stage.
    pub open spec fn failure_step(self) -> CompressionStep {
        match self.stage {
            CompressionStage::ReservingTranscript => CompressionStep::TranscriptReservationFailed,
            CompressionStage::ReservingMetadata => CompressionStep::MetadataReservationFailed,
            _ => CompressionStep::PairWriteFailed,
        }
    }

    /// The stage that a success of the present one leads to.
    pub open spec fn success_stage(self) -> CompressionStage {
        match self.stage {
            CompressionStage::ReservingTranscript => CompressionStage::ReservingMetadata,
            CompressionStage::ReservingMetadata => CompressionStage::Writing,
            _ => CompressionStage::Finished,
        }
    }

    /// A creation that has not reserved a name yet.
    pub open spec fn fresh() -> CompressionCreation {
        CompressionCreation {
            attempts_left: COMPRESSION_TRANSCRIPT_CREATE_ATTEMPTS,
            stage: CompressionStage::ReservingTranscript,
        }
    }

    /// Where the present stage's outcome leads, and what is to be done: a success
    /// goes on, a failure ends the creation, and a taken name is given up for a
    /// new one as long as attempts are left.
    pub open spec fn advanced(self, outcome: ReserveOutcome) -> (
        CompressionCreation,
        CompressionAction,
    ) {
        match outcome {
            ReserveOutcome::Created => (
                CompressionCreation { stage: self.success_stage(), ..self },
                CompressionAction {
                    cleanup: CompressionCleanup::Nothing,
                    step: self.success_step(),
                },
            ),
            ReserveOutcome::Failed => (
                CompressionCreation { stage: CompressionStage::Finished, ..self },
                CompressionAction { cleanup: self.created(), step: self.failure_step() },
            ),
            ReserveOutcome::AlreadyExists => {
                let attempts_left = (self.attempts_left - 1) as usize;
                if self.attempts_left <= 1 {
                    (
                        CompressionCreation { attempts_left, stage: CompressionStage::Finished },
                        CompressionAction {
                            cleanup: self.created(),
                            step: CompressionStep::NamesExhausted,
                        },
                    )
                } else {
                    (
                        CompressionCreation {
                            attempts_left,
                            stage: CompressionStage::ReservingTranscript,
                        },
                        CompressionAction {
                            cleanup: self.created(),
                            step: CompressionStep::ReserveTranscriptUnderNewName,
                        },
                    )
                }
            },
        }
    }

    /// Begins the creation of an artifact: a name is to be reserved first.
    pub fn start() -> (r: CompressionCreation)
        ensures
            r.valid(),
            r == CompressionCreation::fresh(),
    {
        CompressionCreation {
            attempts_left: COMPRESSION_TRANSCRIPT_CREATE_ATTEMPTS,
            stage: CompressionStage::ReservingTranscript,
        }
    }

    /// Goes on with what the present stage came to. A name that is taken is
    /// given up for a new one while attempts are left; whatever the attempt has
    /// created by then is removed, and so it is on a failure.
    pub fn next(self, outcome: ReserveOutcome) -> (r: (CompressionCreation, CompressionAction))
        requires
            self.valid(),
            !(self.stage is Finished),
            self.stage is Writing ==> !(outcome is AlreadyExists),
        ensures
            r.0.valid(),
            r == self.advanced(outcome),
    {
        match outcome {
            ReserveOutcome::Created => {
                let (stage, step) = match self.stage {
                    CompressionStage::ReservingTranscript => (
                        CompressionStage::ReservingMetadata,
                        CompressionStep::ReserveMetadata,
                    ),
                    CompressionStage::ReservingMetadata => (
                        CompressionStage::Writing,
                        CompressionStep::WritePair,
                    ),
                    _ => (CompressionStage::Finished, CompressionStep::Complete),
                };
                (
                    CompressionCreation { attempts_left: self.attempts_left, stage },
                    CompressionAction { cleanup: CompressionCleanup::Nothing, step },
                )
            },
            ReserveOutcome::Failed => {
                let (cleanup, step) = match self.stage {
                    CompressionStage::ReservingTranscript => (
                        CompressionCleanup::Nothing,
                        CompressionStep::TranscriptReservationFailed,
                    ),
                    CompressionStage::ReservingMetadata => (
                        CompressionCleanup::Transcript,
                        CompressionStep::MetadataReservationFailed,
                    ),
                    _ => (CompressionCleanup::Pair, CompressionStep::PairWriteFailed),
                };
                (
                    CompressionCreation {
                        attempts_left: self.attempts_left,
                        stage: CompressionStage::Finished,
                    },
                    CompressionAction { cleanup, step },
                )
            },
            ReserveOutcome::AlreadyExists => {
                let cleanup = match self.stage {
                    CompressionStage::ReservingTranscript => CompressionCleanup::Nothing,
                    _ => CompressionCleanup::Transcript,
                };
                let attempts_left: usize = self.attempts_left - 1;
                if attempts_left == 0 {
                    (
                        CompressionCreation { attempts_left, stage: CompressionStage::Finished },
                        CompressionAction { cleanup, step: CompressionStep::NamesExhausted },
                    )
                } else {
                    (
                        CompressionCreation {
                            attempts_left,
                            stage: CompressionStage::ReservingTranscript,
                        },
                        CompressionAction {
                            cleanup,
                            step: CompressionStep::ReserveTranscriptUnderNewName,
                        },
                    )
                }
            },
        }
    }
}

/// A creation at work in a directory: the step that it is at, the stem of the
/// present attempt, and the names of the files in the directory.
pub struct CreationInDirectory {
    pub creation: CompressionCreation,
    pub step: CompressionStep,
    pub stem: Seq<char>,
    pub files: Set<Seq<char>>,
}

/// Whether a stem is one of an artifact for this turn.
pub open spec fn is_stem_for(stem: Seq<char>, boundary: nat) -> bool {
    exists|short_id: Seq<char>| #[trigger] is_short_id(short_id) && stem == stem_of(boundary, short_id)
}

/// The names of the files that make up this much of an artifact.
pub open spec fn artifact_files(part: CompressionCleanup, stem: Seq<char>) -> Set<Seq<char>> {
    match part {
        CompressionCleanup::Nothing => Set::empty(),
        CompressionCleanup::Transcript => Set::empty().insert(stem + ".txt"@),
        CompressionCleanup::Pair => Set::empty().insert(stem + ".txt"@).insert(
            stem + ".meta.json"@,
        ),
    }
}

impl CreationInDirectory {
    /// The name that the present stage reserves, if it reserves one.
    pub open spec fn reserved_name(self) -> Option<Seq<char>> {
        match self.creation.stage {
            CompressionStage::ReservingTranscript => Some(self.stem + ".txt"@),
            CompressionStage::ReservingMetadata => Some(self.stem + ".meta.json"@),
            _ => None,
        }
    }

    /// Whether an outcome fits the directory, with files that are created only
    /// where there is none: a name that was reserved was free, and one that
    /// exists already was not.
    pub open spec fn fits(self, outcome: ReserveOutcome) -> bool {
        match self.reserved_name() {
            Some(name) => {
                &&& outcome is Created ==> !self.files.contains(name)
                &&& outcome is AlreadyExists ==> self.files.contains(name)
            },
            None => !(outcome is AlreadyExists),
        }
    }

    /// The files after an outcome and the clean-up that it calls for.
    pub open spec fn files_after(self, outcome: ReserveOutcome) -> Set<Seq<char>> {
        let reserved = match self.reserved_name() {
            Some(name) => if outcome is Created {
                self.files.insert(name)
            } else {
                self.files
            },
            None => self.files,
        };
        reserved.difference(
            artifact_files(self.creation.advanced(outcome).1.cleanup, self.stem),
        )
    }

    /// Whether `after` is what an outcome leads to. A new attempt has a new stem.
    pub open spec fn leads_to(self, outcome: ReserveOutcome, after: Self, boundary: nat) -> bool {
        let (creation, action) = self.creation.advanced(outcome);
        &&& !(self.creation.stage is Finished)
        &&& self.fits(outcome)
        &&& after.creation == creation
        &&& after.step == action.step
        &&& after.files == self.files_after(outcome)
        &&& if action.step is ReserveTranscriptUnderNewName {
            is_stem_for(after.stem, boundary)
        } else {
            after.stem == self.stem
        }
    }

    /// Whether a creation for this turn begins here.
    pub open spec fn begins(self, boundary: nat) -> bool {
        &&& self.creation == CompressionCreation::fresh()
        &&& self.step is ReserveTranscriptUnderNewName
        &&& is_stem_for(self.stem, boundary)
    }

    /// What holds of a creation that began among the files `before`.
    pub open spec fn keeps(self, before: Set<Seq<char>>, boundary: nat) -> bool {
        let made = if self.step is Complete {
            artifact_files(CompressionCleanup::Pair, self.stem)
        } else {
            artifact_files(self.creation.created(), self.stem)
        };
        &&& is_stem_for(self.stem, boundary)
        &&& self.step is Complete ==> self.creation.stage is Finished
        &&& self.files == before.union(made)
        &&& before.disjoint(made)
    }
}

/// Whether these are the states of a creation for this turn, each led to by the
/// outcome between it and the one before.
pub open spec fn is_creation_run(
    states: Seq<CreationInDirectory>,
    outcomes: Seq<ReserveOutcome>,
    boundary: nat,
) -> bool {
    &&& states.len() == outcomes.len() + 1
    &&& states[0].begins(boundary)
    &&& forall|i: int|
        0 <= i < outcomes.len() ==> states[i].leads_to(
            #[trigger] outcomes[i],
            states[i + 1],
            boundary,
        )
}

proof fn lemma_creation_step(
    state: CreationInDirectory,
    outcome: ReserveOutcome,
    after: CreationInDirectory,
    before: Set<Seq<char>>,
    boundary: nat,
)
    requires
        state.keeps(before, boundary),
        state.leads_to(outcome, after, boundary),
    ensures
        after.keeps(before, boundary),
{
    let made = artifact_files(state.creation.created(), state.stem);
    let made_after = if after.step is Complete {
        artifact_files(CompressionCleanup::Pair, after.stem)
    } else {
        artifact_files(after.creation.created(), after.stem)
    };
    assert(state.files == before.union(made));
    if outcome is Created {
        assert(after.files =~= before.union(made_after));
        assert(before.disjoint(made_after));
    } else {
        assert(made_after =~= Set::empty());
        assert(after.files =~= before.union(made_after));
    }
}

proof fn lemma_creation_run(
    states: Seq<CreationInDirectory>,
    outcomes: Seq<ReserveOutcome>,
    boundary: nat,
    n: int,
)
    requires
        is_creation_run(states, outcomes, boundary),
        0 <= n <= outcomes.len(),
    ensures
        states[n].keeps(states[0].files, boundary),
    decreases n,
{
    if n > 0 {
        lemma_creation_run(states, outcomes, boundary, n - 1);
        assert(states[n - 1].leads_to(outcomes[n - 1], states[n - 1 + 1], boundary));
        lemma_creation_step(
            states[n - 1],
            outcomes[n - 1],
            states[n],
            states[0].files,
            boundary,
        );
    } else {
        let made = artifact_files(states[0].creation.created(), states[0].stem);
        assert(states[0].files =~= states[0].files.union(made));
    }
}

/// A creation overwrites and removes no file that was there. When it is complete
/// the directory holds two files more, which were not there before and whose
/// names give the turn back; when it ends otherwise the directory is as it was.
pub proof fn a_created_artifact_is_new(
    states: Seq<CreationInDirectory>,
    outcomes: Seq<ReserveOutcome>,
    boundary: nat,
)
    requires
        boundary <= usize::MAX,
        is_creation_run(states, outcomes, boundary),
    ensures
        states[0].files.subset_of(states.last().files),
        states.last().step is Complete ==> {
            let text_name = states.last().stem + ".txt"@;
            let meta_name = states.last().stem + ".meta.json"@;
            &&& !states[0].files.contains(text_name)
            &&& !states[0].files.contains(meta_name)
            &&& states.last().files == states[0].files.insert(text_name).insert(meta_name)
            &&& file_boundary(text_name) == Some(boundary)
            &&& file_boundary(meta_name) == Some(boundary)
        },
        states.last().creation.stage is Finished && !(states.last().step is Complete)
            ==> states.last().files == states[0].files,
{
    let last = states.last();
    let before = states[0].files;
    lemma_creation_run(states, outcomes, boundary, outcomes.len() as int);
    let short_id = choose|short_id: Seq<char>| #[trigger]
        is_short_id(short_id) && last.stem == stem_of(boundary, short_id);
    artifact_names_give_back_their_turn(boundary, short_id);
    if last.step is Complete {
        let text_name = last.stem + ".txt"@;
        let meta_name = last.stem + ".meta.json"@;
        let made = artifact_files(CompressionCleanup::Pair, last.stem);
        assert(made.contains(text_name) && made.contains(meta_name));
        assert(last.files =~= before.insert(text_name).insert(meta_name));
    } else if last.creation.stage is Finished {
        assert(last.files =~= before);
    }
}

/// Makes the error for a creation that ran out of names.
pub fn names_exhausted_error() -> (r: OpenBitFunError)
    ensures
        r@ == ErrorModel::Io(
            "Failed to allocate a unique compression transcript name after "@ + decimal(
                COMPRESSION_TRANSCRIPT_CREATE_ATTEMPTS as nat,
            ) + " attempts"@,
        ),
{
    let mut text: String =
        "Failed to allocate a unique compression transcript name after ".to_owned();
    push_number(&mut text, COMPRESSION_TRANSCRIPT_CREATE_ATTEMPTS as u64);
    text.append(" attempts");
    OpenBitFunError::Io(text)
}

/// What a compression transcript was made with.
#[derive(Debug, Clone, Copy, PartialEq, Eq, Structural)]
pub struct CompressionTranscriptOptionsMetadata {
    pub tools: bool,
    pub tool_inputs: bool,
    pub thinking: bool,
}

/// The record of a compression transcript.
#[derive(Debug)]
pub struct CompressionTranscriptMetadata {
    pub schema_version: u32,
    pub boundary_turn_index: usize,
    pub short_id: String,
    pub compression_id: String,
    pub trigger: String,
    pub generated_at: u64,
    pub origin_session_id: String,
    pub source_fingerprint: String,
    pub line_count: usize,
    pub byte_count: usize,
    pub options: CompressionTranscriptOptionsMetadata,
}

/// The options of every compression transcript: with tools and their inputs,
/// without thinking.
pub fn compression_transcript_options() -> (r: CompressionTranscriptOptionsMetadata)
    ensures
        r == (CompressionTranscriptOptionsMetadata {
            tools: true,
            tool_inputs: true,
            thinking: false,
        }),
{
    CompressionTranscriptOptionsMetadata { tools: true, tool_inputs: true, thinking: false }
}

/// Makes the record of a compression transcript.
pub fn compression_transcript_metadata(
    boundary_turn_index: usize,
    short_id: String,
    compression_id: &str,
    trigger: &str,
    generated_at: u64,
    session_id: &str,
    source_fingerprint: &str,
    lines: &Vec<String>,
    content: &str,
) -> (r: CompressionTranscriptMetadata)
    ensures
        r.schema_version == COMPRESSION_TRANSCRIPT_SCHEMA_VERSION,
        r.schema_version == 1,
        r.boundary_turn_index == boundary_turn_index,
        r.short_id == short_id,
        r.compression_id@ == compression_id@,
        r.trigger@ == trigger@,
        r.generated_at == generated_at,
        r.origin_session_id@ == session_id@,
        r.source_fingerprint@ == source_fingerprint@,
        r.line_count == lines@.len(),
        r.byte_count == content.spec_bytes().len(),
        r.options == (CompressionTranscriptOptionsMetadata {
            tools: true,
            tool_inputs: true,
            thinking: false,
        }),
{
    CompressionTranscriptMetadata {
        schema_version: COMPRESSION_TRANSCRIPT_SCHEMA_VERSION,
        boundary_turn_index,
        short_id,
        compression_id: compression_id.to_owned(),
        trigger: trigger.to_owned(),
        generated_at,
        origin_session_id: session_id.to_owned(),
        source_fingerprint: source_fingerprint.to_owned(),
        line_count: lines.len(),
        byte_count: content.as_bytes().len(),
        options: compression_transcript_options(),
    }
}

/// An artifact of a turn goes with the turns from a start on exactly when its turn
/// does, and comes along through an end exactly when its turn does.
pub proof fn an_artifact_goes_with_its_turn(
    boundary: nat,
    short_id: Seq<char>,
    start: nat,
    end: nat,
)
    requires
        boundary <= usize::MAX,
        is_short_id(short_id),
    ensures
        removed_from(stem_of(boundary, short_id) + ".txt"@, start) <==> start <= boundary,
        removed_from(stem_of(boundary, short_id) + ".meta.json"@, start) <==> start <= boundary,
        kept_through(stem_of(boundary, short_id) + ".txt"@, end) <==> boundary <= end,
        kept_through(stem_of(boundary, short_id) + ".meta.json"@, end) <==> boundary <= end,
{
    artifact_names_give_back_their_turn(boundary, short_id);
}

/// Only a name of digits, a hyphen, four lower-case hexadecimal digits and one of
/// the two endings is that of an artifact, and the digits denote its turn.
pub proof fn only_names_of_the_form_are_artifacts(file_name: Seq<char>)
    requires
        file_boundary(file_name) is Some,
    ensures
        exists|digits: Seq<char>, short_id: Seq<char>|
            #[trigger] is_numeral(digits) && #[trigger] is_short_id(short_id) && numeral_value(
                digits,
            ) == file_boundary(file_name)->0 && (file_name == digits + seq!['-'] + short_id
                + ".txt"@ || file_name == digits + seq!['-'] + short_id + ".meta.json"@),
{
    let stem = artifact_stem(file_name)->0;
    let at = last_position(stem, '-');
    lemma_last_position(stem, '-');
    let digits = stem.take(at);
    let short_id = stem.skip(at + 1);
    assert(stem =~= digits + seq!['-'] + short_id);
    if has_suffix(file_name, ".meta.json"@) {
        assert(file_name =~= stem + ".meta.json"@);
    } else {
        assert(file_name =~= stem + ".txt"@);
    }
    assert(is_numeral(digits) && is_short_id(short_id));
}

/// A short id is four characters of `0` to `9` and `a` to `f`.
pub proof fn short_ids_are_four_digits(s: Seq<char>)
    ensures
        is_short_id(s) <==> s.len() == 4 && (forall|i: int|
            0 <= i < 4 ==> '0' <= #[trigger] s[i] <= '9' || 'a' <= s[i] <= 'f'),
{
    if s.len() == 4 && (forall|i: int|
        0 <= i < 4 ==> '0' <= #[trigger] s[i] <= '9' || 'a' <= s[i] <= 'f') {
        assert forall|i: int| 0 <= i < 4 implies is_lower_hex(#[trigger] s[i]) by {}
    }
    if is_short_id(s) {
        assert forall|i: int| 0 <= i < 4 implies '0' <= #[trigger] s[i] <= '9' || 'a' <= s[i]
            <= 'f' by {
            assert(is_lower_hex(s[i]));
        }
    }
}

/// A creation whose three steps succeed is complete; one that fails ends at once
/// with the step that failed, and removes what it created by then.
pub proof fn a_creation_ends_as_its_steps_do(attempts_left: usize)
    ensures
        ({
            let at = |stage: CompressionStage| CompressionCreation { attempts_left, stage };
            let first = at(CompressionStage::ReservingTranscript);
            let second = first.advanced(ReserveOutcome::Created);
            let third = second.0.advanced(ReserveOutcome::Created);
            let end = third.0.advanced(ReserveOutcome::Created);
            &&& second.1.step is ReserveMetadata && second.1.cleanup is Nothing
            &&& third.1.step is WritePair && third.1.cleanup is Nothing
            &&& end.1.step is Complete && end.1.cleanup is Nothing
            &&& end.0.stage is Finished
            &&& first.advanced(ReserveOutcome::Failed).1 == (CompressionAction {
                cleanup: CompressionCleanup::Nothing,
                step: CompressionStep::TranscriptReservationFailed,
            })
            &&& second.0.advanced(ReserveOutcome::Failed).1 == (CompressionAction {
                cleanup: CompressionCleanup::Transcript,
                step: CompressionStep::MetadataReservationFailed,
            })
            &&& third.0.advanced(ReserveOutcome::Failed).1 == (CompressionAction {
                cleanup: CompressionCleanup::Pair,
                step: CompressionStep::PairWriteFailed,
            })
            &&& first.advanced(ReserveOutcome::Failed).0.stage is Finished
            &&& second.0.advanced(ReserveOutcome::Failed).0.stage is Finished
            &&& third.0.advanced(ReserveOutcome::Failed).0.stage is Finished
        }),
{
}

/// The creation after `n` names in a row were taken.
pub open spec fn after_taken_names(n: nat) -> CompressionCreation
    decreases n,
{
    if n == 0 {
        CompressionCreation::fresh()
    } else {
        after_taken_names((n - 1) as nat).advanced(ReserveOutcome::AlreadyExists).0
    }
}

/// A name that is taken is given up for a new one 31 times; the creation ends when
/// the 32nd is taken too.
pub proof fn thirty_two_names_are_tried(n: nat)
    requires
        n < 32,
    ensures
        after_taken_names(n).stage is ReservingTranscript,
        n < 31 ==> after_taken_names(n).advanced(ReserveOutcome::AlreadyExists).1.step
            is ReserveTranscriptUnderNewName,
        n == 31 ==> after_taken_names(n).advanced(ReserveOutcome::AlreadyExists).1.step
            is NamesExhausted && after_taken_names(n).advanced(
            ReserveOutcome::AlreadyExists,
        ).0.stage is Finished,
        after_taken_names(n).attempts_left == 32 - n,
    decreases n,
{
    if n > 0 {
        thirty_two_names_are_tried((n - 1) as nat);
    }
}

/// A taken name of either file costs one attempt and leaves nothing of the present
/// one behind.
pub proof fn a_taken_name_costs_one_attempt(creation: CompressionCreation)
    requires
        creation.valid(),
        creation.stage is ReservingTranscript || creation.stage is ReservingMetadata,
    ensures
        ({
            let (next, action) = creation.advanced(ReserveOutcome::AlreadyExists);
            &&& next.attempts_left == creation.attempts_left - 1
            &&& creation.stage is ReservingTranscript ==> action.cleanup is Nothing
            &&& creation.stage is ReservingMetadata ==> action.cleanup is Transcript
            &&& next.attempts_left > 0 <==> action.step is ReserveTranscriptUnderNewName
            &&& next.attempts_left == 0 <==> action.step is NamesExhausted
        }),
{
}

} // verus!

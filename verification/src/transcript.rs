//! Transcripts of a session: what is exported, when a stored export can be used
//! again, and which turns a reference to another session holds.

use vstd::prelude::*;

use crate::catalog::strictly_ascending;
use crate::errors::{ErrorModel, OpenBitFunError};
use crate::selectors::{
    first_bad_selector, parse_transcript_turn_selectors, picked, reads_as, selector_error,
    transcript_select_turn_indices, ParsedTranscriptTurnSelector,
};
use crate::text::{same_text, texts};

verus! {

pub const TRANSCRIPT_SCHEMA_VERSION: u32 = 1;

pub const SESSION_REFERENCE_TRANSCRIPT_CHAR_LIMIT: usize = 60_000;

/// The first and last line of a part of a transcript, counted from 1.
#[derive(Debug, Clone, Copy, PartialEq, Eq, Structural)]
pub struct TranscriptLineRange {
    pub start_line: usize,
    pub end_line: usize,
}

/// What a transcript is to hold.
#[derive(Debug)]
pub struct SessionTranscriptExportOptions {
    pub tools: bool,
    pub tool_inputs: bool,
    pub thinking: bool,
    pub turns: Option<Vec<String>>,
}

/// Options with their selectors read.
#[derive(Debug)]
pub struct NormalizedTranscriptOptions {
    pub options: SessionTranscriptExportOptions,
    pub selectors: Option<Vec<ParsedTranscriptTurnSelector>>,
}

/// Why these selectors cannot be used, if they cannot.
pub open spec fn selectors_error(turns: Option<Vec<String>>) -> Option<ErrorModel> {
    match turns {
        Some(selectors) => if selectors@.len() == 0 {
            Some(ErrorModel::Validation("turns cannot be an empty array"@))
        } else {
            let bad = first_bad_selector(selectors@, 0);
            if bad < selectors@.len() {
                selector_error(selectors@[bad]@)
            } else {
                None
            }
        },
        None => None,
    }
}

/// Reads the selectors of export options. The options that come out hold the
/// trimmed selectors.
pub fn normalize_transcript_options(options: &SessionTranscriptExportOptions) -> (r: Result<
    NormalizedTranscriptOptions,
    OpenBitFunError,
>)
    ensures
        match selectors_error(options.turns) {
            Some(error) => r matches Err(e) && e@ == error,
            None => {
                &&& r matches Ok(normalized)
                &&& normalized.options.tools == options.tools
                &&& normalized.options.tool_inputs == options.tool_inputs
                &&& normalized.options.thinking == options.thinking
                &&& match options.turns {
                    None => normalized.selectors is None && normalized.options.turns is None,
                    Some(turns) => {
                        &&& normalized.selectors matches Some(parsed)
                        &&& normalized.options.turns matches Some(texts)
                        &&& parsed@.len() == turns@.len() == texts@.len()
                        &&& forall|i: int|
                            0 <= i < turns@.len() ==> reads_as(turns@[i], #[trigger] parsed@[i])
                                && texts@[i] == parsed@[i].normalized
                    },
                }
            },
        },
{
    match &options.turns {
        None => Ok(
            NormalizedTranscriptOptions {
                options: SessionTranscriptExportOptions {
                    tools: options.tools,
                    tool_inputs: options.tool_inputs,
                    thinking: options.thinking,
                    turns: None,
                },
                selectors: None,
            },
        ),
        Some(turns) => {
            let parsed = match parse_transcript_turn_selectors(turns) {
                Ok(parsed) => parsed,
                Err(e) => {
                    return Err(e);
                },
            };
            let mut texts: Vec<String> = Vec::new();
            let mut i: usize = 0;
            while i < parsed.len()
                invariant
                    i <= parsed@.len(),
                    texts@.len() == i,
                    forall|j: int| 0 <= j < i ==> #[trigger] texts@[j] == parsed@[j].normalized,
                decreases parsed@.len() - i,
            {
                texts.push(parsed[i].normalized.clone());
                i += 1;
            }
            Ok(
                NormalizedTranscriptOptions {
                    options: SessionTranscriptExportOptions {
                        tools: options.tools,
                        tool_inputs: options.tool_inputs,
                        thinking: options.thinking,
                        turns: Some(texts),
                    },
                    selectors: Some(parsed),
                },
            )
        },
    }
}

/// The positions of the turns that are exported: those picked by the selectors,
/// or all.
pub fn select_transcript_turns(
    total: usize,
    selectors: &Option<Vec<ParsedTranscriptTurnSelector>>,
) -> (r: Vec<usize>)
    requires
        total <= isize::MAX,
    ensures
        strictly_ascending(r@),
        forall|i: usize|
            #[trigger] r@.contains(i) <==> i < total && (selectors matches Some(parsed) ==> picked(
                total as int,
                parsed@,
                i as int,
            )),
{
    match selectors {
        Some(parsed) => transcript_select_turn_indices(total, parsed),
        None => {
            let mut all: Vec<usize> = Vec::new();
            while all.len() < total
                invariant
                    all@.len() <= total,
                    forall|j: int| 0 <= j < all@.len() ==> #[trigger] all@[j] == j,
                decreases total - all@.len(),
            {
                let next: usize = all.len();
                all.push(next);
            }
            assert forall|i: usize| #[trigger] all@.contains(i) <==> i < total by {
                if i < total {
                    assert(all@[i as int] == i);
                }
            }
            all
        },
    }
}

/// Whether a stored export can be used again: its text is there, it was made
/// from the same source, and its index was recorded.
pub fn can_reuse_transcript(
    transcript_exists: bool,
    stored_fingerprint: &Option<String>,
    stored_index_range: TranscriptLineRange,
    source_fingerprint: &str,
) -> (r: bool)
    ensures
        r == (stored_fingerprint matches Some(f) && f@ == source_fingerprint@ && transcript_exists
            && stored_index_range.start_line > 0 && stored_index_range.end_line > 0),
{
    match stored_fingerprint {
        Some(f) => transcript_exists && same_text(f.as_str(), source_fingerprint)
            && stored_index_range.start_line > 0 && stored_index_range.end_line > 0,
        None => false,
    }
}

/// Lines with line breaks between them.
pub open spec fn joined_lines(lines: Seq<Seq<char>>) -> Seq<char>
    decreases lines.len(),
{
    if lines.len() == 0 {
        Seq::empty()
    } else if lines.len() == 1 {
        lines[0]
    } else {
        joined_lines(lines.drop_last()) + "\n"@ + lines.last()
    }
}

/// Joins lines with line breaks.
pub fn join_lines(lines: &Vec<String>) -> (r: String)
    ensures
        r@ == joined_lines(texts(lines@)),
{
    let ghost all = texts(lines@);
    if lines.len() == 0 {
        return String::new();
    }
    let mut r: String = lines[0].clone();
    let mut i: usize = 1;
    assert(all.take(1).len() == 1);
    while i < lines.len()
        invariant
            1 <= i <= lines@.len(),
            all == texts(lines@),
            r@ == joined_lines(all.take(i as int)),
        decreases lines@.len() - i,
    {
        assert(all.take(i + 1).drop_last() =~= all.take(i as int));
        r.append("\n");
        r.append(lines[i].as_str());
        i += 1;
    }
    assert(all.take(i as int) =~= all);
    r
}

/// A transcript that was rendered: its lines, where its index stands, and where
/// each turn stands.
#[derive(Debug)]
pub struct RenderedTranscript {
    pub lines: Vec<String>,
    pub index_range: TranscriptLineRange,
    pub turn_ranges: Vec<TranscriptLineRange>,
}

/// The record of an exported transcript.
#[derive(Debug)]
pub struct SessionTranscriptExport {
    pub session_id: String,
    pub transcript_path: String,
    pub generated_at: u64,
    pub source_fingerprint: String,
    pub includes_tools: bool,
    pub includes_tool_inputs: bool,
    pub includes_thinking: bool,
    pub turns: Option<Vec<String>>,
    pub turn_count: usize,
    pub line_count: usize,
    pub index_range: TranscriptLineRange,
    pub index: Vec<TranscriptLineRange>,
}

/// Makes the record of an export of the selected turns.
pub fn session_transcript_export(
    session_id: &str,
    transcript_path: String,
    generated_at: u64,
    source_fingerprint: String,
    options: SessionTranscriptExportOptions,
    selected: &Vec<usize>,
    rendered: RenderedTranscript,
) -> (r: SessionTranscriptExport)
    ensures
        r.session_id@ == session_id@,
        r.transcript_path == transcript_path,
        r.generated_at == generated_at,
        r.source_fingerprint == source_fingerprint,
        r.includes_tools == options.tools,
        r.includes_tool_inputs == options.tool_inputs,
        r.includes_thinking == options.thinking,
        r.turns == options.turns,
        r.turn_count == selected@.len(),
        r.line_count == rendered.lines@.len(),
        r.index_range == rendered.index_range,
        r.index == rendered.turn_ranges,
{
    SessionTranscriptExport {
        session_id: session_id.to_owned(),
        transcript_path,
        generated_at,
        source_fingerprint,
        includes_tools: options.tools,
        includes_tool_inputs: options.tool_inputs,
        includes_thinking: options.thinking,
        turns: options.turns,
        turn_count: selected.len(),
        line_count: rendered.lines.len(),
        index_range: rendered.index_range,
        index: rendered.turn_ranges,
    }
}

/// The sum of these numbers from a position on.
pub open spec fn sum_from(counts: Seq<usize>, from: int) -> nat
    decreases counts.len() - from,
{
    if from < 0 || from >= counts.len() {
        0
    } else {
        counts[from] as nat + sum_from(counts, from + 1)
    }
}

/// Where the newest turns that a reference holds begin: each is taken while the
/// newer ones together stay below the limit.
pub open spec fn is_reference_start(counts: Seq<usize>, start: int) -> bool {
    &&& 0 <= start <= counts.len()
    &&& forall|i: int|
        start <= i < counts.len() ==> #[trigger] sum_from(counts, i + 1)
            < SESSION_REFERENCE_TRANSCRIPT_CHAR_LIMIT
    &&& start > 0 ==> sum_from(counts, start) >= SESSION_REFERENCE_TRANSCRIPT_CHAR_LIMIT
}

/// The positions of the turns that a reference holds, given the number of
/// characters of each rendered turn: whole turns from the newest backwards, of
/// which the last one taken may cross the limit.
pub fn select_reference_turns(turn_char_counts: &Vec<usize>) -> (r: Vec<usize>)
    ensures
        ({
            let start = turn_char_counts@.len() - r@.len();
            &&& is_reference_start(turn_char_counts@, start)
            &&& forall|i: int| 0 <= i < r@.len() ==> #[trigger] r@[i] == start + i
        }),
{
    let n: usize = turn_char_counts.len();
    let mut start: usize = n;
    let mut chars: usize = 0;
    while start > 0 && chars < SESSION_REFERENCE_TRANSCRIPT_CHAR_LIMIT
        invariant
            start <= n == turn_char_counts@.len(),
            chars == sum_from(turn_char_counts@, start as int) || (chars
                >= SESSION_REFERENCE_TRANSCRIPT_CHAR_LIMIT && sum_from(
                turn_char_counts@,
                start as int,
            ) >= SESSION_REFERENCE_TRANSCRIPT_CHAR_LIMIT),
            forall|i: int|
                start <= i < n ==> #[trigger] sum_from(turn_char_counts@, i + 1)
                    < SESSION_REFERENCE_TRANSCRIPT_CHAR_LIMIT,
        decreases start,
    {
        let count: usize = turn_char_counts[start - 1];
        assert(sum_from(turn_char_counts@, start - 1) == count + sum_from(
            turn_char_counts@,
            start as int,
        ));
        chars = if count >= SESSION_REFERENCE_TRANSCRIPT_CHAR_LIMIT {
            SESSION_REFERENCE_TRANSCRIPT_CHAR_LIMIT
        } else {
            chars + count
        };
        start = start - 1;
    }
    let mut r: Vec<usize> = Vec::new();
    let mut i: usize = start;
    while i < n
        invariant
            start <= i <= n,
            r@.len() == i - start,
            forall|j: int| 0 <= j < r@.len() ==> #[trigger] r@[j] == start + j,
        decreases n - i,
    {
        r.push(i);
        i += 1;
    }
    r
}

/// A reference to a session with turns holds at least its newest turn.
pub proof fn a_reference_holds_the_newest_turn(counts: Seq<usize>, start: int)
    requires
        is_reference_start(counts, start),
        counts.len() > 0,
    ensures
        start < counts.len(),
{
}

/// There is one place where the newest turns of a reference begin.
pub proof fn reference_start_is_unique(counts: Seq<usize>, a: int, b: int)
    requires
        is_reference_start(counts, a),
        is_reference_start(counts, b),
    ensures
        a == b,
{
    if a < b {
        assert(sum_from(counts, (b - 1) + 1) < SESSION_REFERENCE_TRANSCRIPT_CHAR_LIMIT);
    } else if b < a {
        assert(sum_from(counts, (a - 1) + 1) < SESSION_REFERENCE_TRANSCRIPT_CHAR_LIMIT);
    }
}

/// A copy of a part of another session that agent tools may read.
#[derive(Debug, Clone)]
pub struct MaterializedSessionReferenceTranscript {
    pub uri: String,
    pub turn_count: usize,
    pub char_count: usize,
    pub index_range: TranscriptLineRange,
    pub latest_turn_range: Option<TranscriptLineRange>,
    pub line_count: usize,
}

/// Makes the record of a reference to the selected turns.
pub fn materialized_session_reference(
    reference_artifact_stem: &str,
    selected: &Vec<usize>,
    content: &str,
    rendered: &RenderedTranscript,
) -> (r: MaterializedSessionReferenceTranscript)
    ensures
        r.uri@ == "openbitfun://current-session/artifacts/session-references/"@
            + reference_artifact_stem@ + ".txt"@,
        r.turn_count == selected@.len(),
        r.char_count == content@.len(),
        r.index_range == rendered.index_range,
        r.latest_turn_range == (if rendered.turn_ranges@.len() > 0 {
            Some(rendered.turn_ranges@.last())
        } else {
            None
        }),
        r.line_count == rendered.lines@.len(),
{
    let mut uri: String = "openbitfun://current-session/artifacts/session-references/".to_owned();
    uri.append(reference_artifact_stem);
    uri.append(".txt");
    let n: usize = rendered.turn_ranges.len();
    let latest_turn_range = if n > 0 {
        Some(rendered.turn_ranges[n - 1])
    } else {
        None
    };
    MaterializedSessionReferenceTranscript {
        uri,
        turn_count: selected.len(),
        char_count: content.unicode_len(),
        index_range: rendered.index_range,
        latest_turn_range,
        line_count: rendered.lines.len(),
    }
}

/// A step of exporting a transcript, or its end.
#[derive(Debug, Clone, Copy, PartialEq, Eq, Structural)]
pub enum ExportStep {
    LoadMetadata,
    ReadSelectors,
    LoadStagedBoundary,
    LoadTurns,
    TakeFingerprint,
    LookForStored,
    PrepareDirectory,
    WriteText,
    WriteRecord,
    ReturnStored,
    ReturnNew,
    FailWithoutMetadata,
    Fail,
}

/// What a step of exporting a transcript came to.
#[derive(Debug, Clone, Copy, PartialEq, Eq, Structural)]
pub enum ExportEvent {
    Done,
    Failed,
    Metadata { found: bool },
    Stored { reusable: bool },
}

/// Whether an event can come of a step.
pub open spec fn export_event_comes_of(step: ExportStep, event: ExportEvent) -> bool {
    let ended = step is ReturnStored || step is ReturnNew || step is FailWithoutMetadata || step
        is Fail;
    match event {
        ExportEvent::Done => !ended && !(step is LoadMetadata) && !(step is LookForStored),
        ExportEvent::Failed => !ended,
        ExportEvent::Metadata { found } => step is LoadMetadata,
        ExportEvent::Stored { reusable } => step is LookForStored,
    }
}

/// What follows a step of exporting a transcript. Selectors are read before any
/// turn is, and a stored transcript that can be used again is returned without
/// writing anything.
pub open spec fn export_step(step: ExportStep, event: ExportEvent) -> ExportStep {
    match event {
        ExportEvent::Failed => ExportStep::Fail,
        ExportEvent::Metadata { found } => if found {
            ExportStep::ReadSelectors
        } else {
            ExportStep::FailWithoutMetadata
        },
        ExportEvent::Stored { reusable } => if reusable {
            ExportStep::ReturnStored
        } else {
            ExportStep::PrepareDirectory
        },
        ExportEvent::Done => match step {
            ExportStep::ReadSelectors => ExportStep::LoadStagedBoundary,
            ExportStep::LoadStagedBoundary => ExportStep::LoadTurns,
            ExportStep::LoadTurns => ExportStep::TakeFingerprint,
            ExportStep::TakeFingerprint => ExportStep::LookForStored,
            ExportStep::PrepareDirectory => ExportStep::WriteText,
            ExportStep::WriteText => ExportStep::WriteRecord,
            _ => ExportStep::ReturnNew,
        },
    }
}

/// Goes on with exporting a transcript.
pub fn next_export_step(step: ExportStep, event: ExportEvent) -> (r: ExportStep)
    requires
        export_event_comes_of(step, event),
    ensures
        r == export_step(step, event),
{
    match event {
        ExportEvent::Failed => ExportStep::Fail,
        ExportEvent::Metadata { found } => if found {
            ExportStep::ReadSelectors
        } else {
            ExportStep::FailWithoutMetadata
        },
        ExportEvent::Stored { reusable } => if reusable {
            ExportStep::ReturnStored
        } else {
            ExportStep::PrepareDirectory
        },
        ExportEvent::Done => match step {
            ExportStep::ReadSelectors => ExportStep::LoadStagedBoundary,
            ExportStep::LoadStagedBoundary => ExportStep::LoadTurns,
            ExportStep::LoadTurns => ExportStep::TakeFingerprint,
            ExportStep::TakeFingerprint => ExportStep::LookForStored,
            ExportStep::PrepareDirectory => ExportStep::WriteText,
            ExportStep::WriteText => ExportStep::WriteRecord,
            _ => ExportStep::ReturnNew,
        },
    }
}

/// How far a step of an export is from the first.
pub open spec fn export_rank(step: ExportStep) -> int {
    match step {
        ExportStep::LoadMetadata => 0,
        ExportStep::ReadSelectors => 1,
        ExportStep::LoadStagedBoundary => 2,
        ExportStep::LoadTurns => 3,
        ExportStep::TakeFingerprint => 4,
        ExportStep::LookForStored => 5,
        ExportStep::PrepareDirectory => 6,
        ExportStep::WriteText => 7,
        ExportStep::WriteRecord => 8,
        _ => 9,
    }
}

/// Every step of an export is further from the first than the one before, so an
/// export ends; a record is written only after its text, and a stored transcript
/// is returned only when it can be used again.
pub proof fn exports_go_forward(step: ExportStep, event: ExportEvent)
    requires
        export_event_comes_of(step, event),
    ensures
        export_rank(export_step(step, event)) > export_rank(step),
        export_step(step, event) is ReturnStored ==> step is LookForStored && event == (
        ExportEvent::Stored { reusable: true }),
        export_step(step, event) is WriteRecord ==> step is WriteText,
{
}

/// Lines are joined one behind the other with a line break between each two, and
/// none before the first or behind the last.
pub proof fn lines_are_joined_with_breaks_between(lines: Seq<Seq<char>>, line: Seq<char>)
    ensures
        lines.len() > 0 ==> joined_lines(lines.push(line)) == joined_lines(lines) + seq!['\n']
            + line,
        joined_lines(seq![line]) == line,
        joined_lines(Seq::empty()).len() == 0,
{
    reveal_strlit("\n");
    assert("\n"@ =~= seq!['\n']);
    assert(lines.push(line).drop_last() =~= lines);
    assert(lines.push(line).last() == line);
}

/// Selectors are refused exactly when there are none in a list that was given, or
/// one of them is not understood; leaving the list out is no error.
pub proof fn selectors_are_refused_for_the_first_bad_one(turns: Vec<String>)
    ensures
        selectors_error(None) is None,
        turns@.len() == 0 ==> selectors_error(Some(turns)) is Some,
        turns@.len() > 0 ==> (selectors_error(Some(turns)) is None <==> forall|i: int|
            0 <= i < turns@.len() ==> selector_error((#[trigger] turns@[i])@) is None),
{
    lemma_first_bad(turns@, 0);
    let bad = first_bad_selector(turns@, 0);
    if bad < turns@.len() {
        assert(selector_error(turns@[bad]@) is Some);
    }
}

proof fn lemma_first_bad(selectors: Seq<String>, from: int)
    requires
        0 <= from <= selectors.len(),
    ensures
        from <= first_bad_selector(selectors, from) <= selectors.len(),
        forall|i: int|
            from <= i < first_bad_selector(selectors, from) ==> selector_error(
                (#[trigger] selectors[i])@,
            ) is None,
        first_bad_selector(selectors, from) < selectors.len() ==> selector_error(
            selectors[first_bad_selector(selectors, from)]@,
        ) is Some,
    decreases selectors.len() - from,
{
    if from < selectors.len() && selector_error(selectors[from]@) is None {
        lemma_first_bad(selectors, from + 1);
    }
}

/// A reference takes the newest turns: without its oldest one it stays below
/// 60000 characters, and it leaves an older turn out only when it has reached
/// them.
pub proof fn a_reference_reaches_its_limit_and_stops(counts: Seq<usize>, start: int)
    requires
        is_reference_start(counts, start),
    ensures
        start < counts.len() ==> sum_from(counts, start) - counts[start] < 60_000,
        start > 0 ==> sum_from(counts, start) >= 60_000,
        start == 0 ==> forall|i: int|
            0 <= i < counts.len() ==> #[trigger] sum_from(counts, i + 1) < 60_000,
{
    if start < counts.len() {
        assert(sum_from(counts, start + 1) < SESSION_REFERENCE_TRANSCRIPT_CHAR_LIMIT);
    }
}

/// The characters of the turns from a position on add up turn by turn.
pub proof fn turn_characters_add_up(counts: Seq<usize>, from: int)
    requires
        0 <= from < counts.len(),
    ensures
        sum_from(counts, from) == counts[from] + sum_from(counts, from + 1),
        sum_from(counts, counts.len() as int) == 0,
{
}

/// Whether these are the steps of an export from its beginning, and what each but
/// the last came to.
pub open spec fn is_export_course(run: Seq<ExportStep>, events: Seq<ExportEvent>) -> bool {
    &&& run.len() == events.len() + 1
    &&& run[0] is LoadMetadata
    &&& forall|i: int|
        0 <= i < events.len() ==> export_event_comes_of(run[i], #[trigger] events[i]) && run[i + 1]
            == export_step(run[i], events[i])
}

/// An export in which nothing fails looks for a stored transcript once the turns
/// are known, returns it where it can be used again, and else writes the text and
/// then its record.
pub proof fn an_export_writes_only_what_is_not_stored(
    run: Seq<ExportStep>,
    events: Seq<ExportEvent>,
)
    requires
        is_export_course(run, events),
        run.last() is ReturnStored || run.last() is ReturnNew || run.last() is FailWithoutMetadata
            || run.last() is Fail,
        forall|i: int| 0 <= i < events.len() ==> !(#[trigger] events[i] is Failed),
        events[0] == (ExportEvent::Metadata { found: true }),
    ensures
        ({
            let looked = seq![
                ExportStep::LoadMetadata,
                ExportStep::ReadSelectors,
                ExportStep::LoadStagedBoundary,
                ExportStep::LoadTurns,
                ExportStep::TakeFingerprint,
                ExportStep::LookForStored,
            ];
            &&& events[5] == (ExportEvent::Stored { reusable: true }) ==> run == looked + seq![
                ExportStep::ReturnStored,
            ]
            &&& events[5] == (ExportEvent::Stored { reusable: false }) ==> run == looked + seq![
                ExportStep::PrepareDirectory,
                ExportStep::WriteText,
                ExportStep::WriteRecord,
                ExportStep::ReturnNew,
            ]
            &&& events[5] is Stored
        }),
{
    let looked = seq![
        ExportStep::LoadMetadata,
        ExportStep::ReadSelectors,
        ExportStep::LoadStagedBoundary,
        ExportStep::LoadTurns,
        ExportStep::TakeFingerprint,
        ExportStep::LookForStored,
    ];
    let written = seq![
        ExportStep::PrepareDirectory,
        ExportStep::WriteText,
        ExportStep::WriteRecord,
        ExportStep::ReturnNew,
    ];
    lemma_export_course(run, events, 6);
    lemma_export_course(run, events, run.len() - 1);
    assert forall|i: int| 0 <= i <= 5 implies run[i] == looked[i] by {
        lemma_export_course(run, events, i);
        assert(export_event_comes_of(run[i], events[i]));
    }
    assert(export_event_comes_of(run[5], events[5]));
    assert(run[5int + 1] == export_step(run[5], events[5]));
    if events[5] == (ExportEvent::Stored { reusable: true }) {
        if run.len() > 7 {
            assert(export_event_comes_of(run[6], events[6]));
        }
        assert(run =~= looked + seq![ExportStep::ReturnStored]);
    } else {
        assert forall|i: int| 6 <= i < run.len() implies run[i] == (looked + written)[i] by {
            lemma_export_course(run, events, i);
            if i + 1 < run.len() {
                assert(export_event_comes_of(run[i], events[i]));
            }
        }
        assert(run =~= looked + written);
    }
}

proof fn lemma_export_course(run: Seq<ExportStep>, events: Seq<ExportEvent>, i: int)
    requires
        is_export_course(run, events),
        forall|i: int| 0 <= i < events.len() ==> !(#[trigger] events[i] is Failed),
        events.len() > 0 ==> events[0] == (ExportEvent::Metadata { found: true }),
        run.last() is ReturnStored || run.last() is ReturnNew || run.last() is FailWithoutMetadata
            || run.last() is Fail,
        0 <= i,
    ensures
        run.len() > 6,
        i < run.len() ==> {
            &&& i == 0 ==> run[i] is LoadMetadata
            &&& i == 1 ==> run[i] is ReadSelectors
            &&& i == 2 ==> run[i] is LoadStagedBoundary
            &&& i == 3 ==> run[i] is LoadTurns
            &&& i == 4 ==> run[i] is TakeFingerprint
            &&& i == 5 ==> run[i] is LookForStored
            &&& i == 6 ==> run[i] is ReturnStored || run[i] is PrepareDirectory
            &&& i == 7 ==> run[i] is WriteText
            &&& i == 8 ==> run[i] is WriteRecord
            &&& i == 9 ==> run[i] is ReturnNew
            &&& i <= 9
            &&& i == run.len() - 1 && run[6] is PrepareDirectory ==> i == 9
        },
    decreases i,
{
    if i > 0 {
        lemma_export_course(run, events, i - 1);
        if i < run.len() {
            assert(export_event_comes_of(run[i - 1], events[i - 1]));
            assert(run[i - 1 + 1] == export_step(run[i - 1], events[i - 1]));
        }
    } else {
        if run.len() > 1 {
            assert(export_event_comes_of(run[0], events[0]));
            assert(run[0int + 1] == export_step(run[0], events[0]));
        }
        if run.len() > 2 {
            assert(export_event_comes_of(run[1], events[1]));
            assert(run[1int + 1] == export_step(run[1], events[1]));
        }
        if run.len() > 3 {
            assert(export_event_comes_of(run[2], events[2]));
            assert(run[2int + 1] == export_step(run[2], events[2]));
        }
        if run.len() > 4 {
            assert(export_event_comes_of(run[3], events[3]));
            assert(run[3int + 1] == export_step(run[3], events[3]));
        }
        if run.len() > 5 {
            assert(export_event_comes_of(run[4], events[4]));
            assert(run[4int + 1] == export_step(run[4], events[4]));
        }
    }
}

/// A step of an export that fails ends it, and so does a session without
/// metadata; nothing is written after either.
pub proof fn a_failed_export_ends_at_once(step: ExportStep, event: ExportEvent)
    requires
        export_event_comes_of(step, event),
    ensures
        export_step(step, event) is Fail <==> event is Failed,
        export_step(step, event) is FailWithoutMetadata <==> event == (ExportEvent::Metadata {
            found: false,
        }),
{
}

} // verus!

//! Reading a bounded, contiguous window of turns around a target turn.

use vstd::prelude::*;

use crate::catalog::{
    catalog_option, strictly_ascending, CatalogModel, EntryModel, SessionTurnCatalog,
};
use crate::errors::{push_number, ErrorModel, OpenBitFunError};
use crate::projection::{
    build_session_turn_catalog_projection, build_session_turn_catalog_projection_with_physical,
    a_catalog_lists_exactly_its_indices, find_first_entry, first_entry_at, index_numbers,
    physical_catalog, storage_indices, visible_catalog,
};
use crate::text::{decimal, same_text};
use crate::turn::DialogTurnData;

verus! {

pub const SESSION_TURN_WINDOW_MAX_BEFORE: usize = 4;

pub const SESSION_TURN_WINDOW_MAX_TARGET_AND_AFTER: usize = 12;

/// A request for the turns around a target.
#[derive(Debug)]
pub struct SessionTurnWindowRequest {
    pub session_id: String,
    pub target_storage_turn_index: usize,
    pub expected_turn_id: Option<String>,
    pub expected_catalog_revision: Option<String>,
    pub before: usize,
    pub after: usize,
}

/// The answer to a window request.
#[derive(Debug)]
pub enum SessionTurnWindowResponse {
    Ready {
        catalog_revision: String,
        total_turn_count: usize,
        start_ordinal: usize,
        end_ordinal_exclusive: usize,
        target_turn_id: String,
        turns: Vec<DialogTurnData>,
    },
    Stale { catalog: SessionTurnCatalog },
    NotFound { catalog: SessionTurnCatalog },
}

/// Whether a turn index is before the staged boundary, if there is one.
pub open spec fn is_visible(index: usize, boundary: Option<usize>) -> bool {
    boundary matches Some(b) ==> index < b
}

/// The indices before the staged boundary, in order.
pub open spec fn visible_indices(indices: Seq<usize>, boundary: Option<usize>) -> Seq<usize>
    decreases indices.len(),
{
    if indices.len() == 0 {
        Seq::empty()
    } else if is_visible(indices.last(), boundary) {
        visible_indices(indices.drop_last(), boundary).push(indices.last())
    } else {
        visible_indices(indices.drop_last(), boundary)
    }
}

/// Visible indices are the given ones that lie before the boundary.
pub proof fn visible_indices_stay_before_the_boundary(
    indices: Seq<usize>,
    boundary: Option<usize>,
)
    ensures
        visible_indices(indices, boundary).len() <= indices.len(),
        forall|x: usize|
            #[trigger] visible_indices(indices, boundary).contains(x) <==> indices.contains(x)
                && is_visible(x, boundary),
        boundary is None ==> visible_indices(indices, boundary) == indices,
    decreases indices.len(),
{
    if indices.len() > 0 {
        let front = indices.drop_last();
        let last = indices.last();
        visible_indices_stay_before_the_boundary(front, boundary);
        let inner = visible_indices(front, boundary);
        let r = visible_indices(indices, boundary);
        assert(indices =~= front.push(last));
        assert forall|x: usize| #[trigger] r.contains(x) <==> indices.contains(x) && is_visible(
            x,
            boundary,
        ) by {
            assert(indices.contains(x) <==> front.contains(x) || x == last) by {
                if front.contains(x) {
                    let k = choose|k: int| 0 <= k < front.len() && front[k] == x;
                    assert(indices[k] == x);
                }
                assert(indices[indices.len() - 1] == last);
            }
            if is_visible(last, boundary) {
                assert(r.contains(x) <==> inner.contains(x) || x == last) by {
                    if inner.contains(x) {
                        let k = choose|k: int| 0 <= k < inner.len() && inner[k] == x;
                        assert(r[k] == x);
                    }
                    assert(r[inner.len() as int] == last);
                }
            }
            assert(inner.contains(x) <==> front.contains(x) && is_visible(x, boundary));
        }
    } else {
        assert(indices =~= Seq::<usize>::empty());
    }
}

/// Keeps the indices before the staged boundary.
pub fn keep_visible_indices(indices: &Vec<usize>, boundary: Option<usize>) -> (r: Vec<usize>)
    ensures
        r@ == visible_indices(indices@, boundary),
{
    let mut r: Vec<usize> = Vec::new();
    let mut i: usize = 0;
    while i < indices.len()
        invariant
            i <= indices@.len(),
            r@ == visible_indices(indices@.take(i as int), boundary),
        decreases indices@.len() - i,
    {
        assert(indices@.take(i + 1).drop_last() =~= indices@.take(i as int));
        let index: usize = indices[i];
        let shown: bool = match boundary {
            Some(b) => index < b,
            None => true,
        };
        if shown {
            r.push(index);
        }
        i += 1;
    }
    assert(indices@.take(i as int) =~= indices@);
    r
}

/// The first ordinal of a window around `target`.
pub open spec fn window_start(target: int, before: nat) -> int {
    let wanted = if before <= SESSION_TURN_WINDOW_MAX_BEFORE {
        before as int
    } else {
        SESSION_TURN_WINDOW_MAX_BEFORE as int
    };
    if target >= wanted {
        target - wanted
    } else {
        0
    }
}

/// The ordinal behind a window around `target`: the target and what follows, at
/// least the target itself.
pub open spec fn window_end(target: int, after: nat, total: int) -> int {
    let wanted = if after < 1 {
        1
    } else if after <= SESSION_TURN_WINDOW_MAX_TARGET_AND_AFTER {
        after as int
    } else {
        SESSION_TURN_WINDOW_MAX_TARGET_AND_AFTER as int
    };
    if target + wanted <= total {
        target + wanted
    } else {
        total
    }
}

/// A window is bounded on both sides, lies within the turns and holds its
/// target.
pub proof fn window_is_bounded(target: int, before: nat, after: nat, total: int)
    requires
        0 <= target < total,
    ensures
        0 <= window_start(target, before) <= target < window_end(target, after, total) <= total,
        target - window_start(target, before) <= SESSION_TURN_WINDOW_MAX_BEFORE,
        window_end(target, after, total) - target <= SESSION_TURN_WINDOW_MAX_TARGET_AND_AFTER,
{
}

/// The turns that a window is to be made of.
#[derive(Debug)]
pub struct TurnWindowSelection {
    pub catalog: SessionTurnCatalog,
    pub visible: Vec<usize>,
    pub target_ordinal: usize,
    pub start_ordinal: usize,
    pub end_ordinal_exclusive: usize,
    pub selected: Vec<usize>,
}

impl TurnWindowSelection {
    /// Whether the target is within the window, and the window is what is
    /// selected.
    pub open spec fn valid(self) -> bool {
        &&& self.start_ordinal <= self.target_ordinal < self.end_ordinal_exclusive
        &&& self.end_ordinal_exclusive <= self.visible@.len()
        &&& self.selected@ == self.visible@.subrange(
            self.start_ordinal as int,
            self.end_ordinal_exclusive as int,
        )
    }
}

/// What a window request comes to before any turn is read.
#[derive(Debug)]
pub enum TurnWindowPlan {
    Stale { catalog: SessionTurnCatalog },
    NotFound { catalog: SessionTurnCatalog },
    Read(TurnWindowSelection),
}

/// Whether an expectation is absent or met.
pub open spec fn expectation_met(expected: Option<String>, actual: Seq<char>) -> bool {
    expected matches Some(e) ==> e@ == actual
}

/// Decides [`expectation_met`].
fn meets_expectation(expected: &Option<String>, actual: &str) -> (r: bool)
    ensures
        r == expectation_met(*expected, actual@),
{
    match expected {
        Some(e) => same_text(e.as_str(), actual),
        None => true,
    }
}

/// The catalog that a window request is held against.
pub open spec fn window_catalog(
    schema_version: u32,
    session_id: Seq<char>,
    cached: Option<CatalogModel>,
    physical: Seq<usize>,
    boundary: Option<usize>,
) -> CatalogModel {
    let visible = visible_indices(physical, boundary);
    visible_catalog(
        schema_version,
        session_id,
        cached,
        visible,
        Seq::<DialogTurnData>::empty(),
        visible.len(),
    )
}

/// Whether the catalog contradicts what a request expects of its target.
pub open spec fn target_id_differs(expected: Option<String>, entry: EntryModel) -> bool {
    entry.turn_id matches Some(id) && expected matches Some(e) && e@ != id
}

/// Decides what a window request comes to: stale when the expected revision or
/// the expected target differs from the catalog, not found when the catalog
/// lacks the target, else a selection of turns to read.
pub fn plan_turn_window(
    schema_version: u32,
    request: &SessionTurnWindowRequest,
    boundary: Option<usize>,
    physical_indices: &Vec<usize>,
    cached: &Option<SessionTurnCatalog>,
) -> (r: TurnWindowPlan)
    ensures
        ({
            let catalog = window_catalog(
                schema_version,
                request.session_id@,
                catalog_option(*cached),
                physical_indices@,
                boundary,
            );
            let visible = visible_indices(physical_indices@, boundary);
            let target = first_entry_at(
                catalog.entries,
                request.target_storage_turn_index as nat,
                0,
            );
            if !expectation_met(request.expected_catalog_revision, catalog.revision) {
                r matches TurnWindowPlan::Stale { catalog: c } && c@ == catalog
            } else if target < 0 {
                r matches TurnWindowPlan::NotFound { catalog: c } && c@ == catalog
            } else if target_id_differs(request.expected_turn_id, catalog.entries[target]) {
                r matches TurnWindowPlan::Stale { catalog: c } && c@ == catalog
            } else {
                &&& r matches TurnWindowPlan::Read(selection)
                &&& selection.catalog@ == catalog
                &&& selection.visible@ == visible
                &&& selection.target_ordinal == target
                &&& selection.start_ordinal == window_start(target, request.before as nat)
                &&& selection.end_ordinal_exclusive == window_end(
                    target,
                    request.after as nat,
                    visible.len() as int,
                )
                &&& selection.valid()
            }
        }),
{
    let visible = keep_visible_indices(physical_indices, boundary);
    let no_turns: Vec<DialogTurnData> = Vec::new();
    assert(no_turns@ =~= Seq::<DialogTurnData>::empty());
    let catalog = build_session_turn_catalog_projection(
        schema_version,
        request.session_id.as_str(),
        cached,
        &visible,
        &no_turns,
        visible.len(),
    );
    proof {
        lemma_window_catalog_length(
            schema_version,
            request.session_id@,
            catalog_option(*cached),
            physical_indices@,
            boundary,
        );
    }
    if !meets_expectation(&request.expected_catalog_revision, catalog.revision.as_str()) {
        return TurnWindowPlan::Stale { catalog };
    }
    let target: usize = match find_first_entry(&catalog.entries, request.target_storage_turn_index) {
        Some(target) => target,
        None => {
            return TurnWindowPlan::NotFound { catalog };
        },
    };
    assert(catalog@.entries[target as int] == catalog.entries@[target as int]@);
    let differs = match (&catalog.entries[target].turn_id, &request.expected_turn_id) {
        (Some(id), Some(expected)) => !same_text(expected.as_str(), id.as_str()),
        _ => false,
    };
    if differs {
        return TurnWindowPlan::Stale { catalog };
    }
    let total: usize = visible.len();
    let before: usize = if request.before <= SESSION_TURN_WINDOW_MAX_BEFORE {
        request.before
    } else {
        SESSION_TURN_WINDOW_MAX_BEFORE
    };
    let target_and_after: usize = if request.after < 1 {
        1
    } else if request.after <= SESSION_TURN_WINDOW_MAX_TARGET_AND_AFTER {
        request.after
    } else {
        SESSION_TURN_WINDOW_MAX_TARGET_AND_AFTER
    };
    let start: usize = if target >= before {
        target - before
    } else {
        0
    };
    let end: usize = if total - target >= target_and_after {
        target + target_and_after
    } else {
        total
    };
    let mut selected: Vec<usize> = Vec::new();
    let mut i: usize = start;
    while i < end
        invariant
            start <= i <= end <= visible@.len(),
            selected@ == visible@.subrange(start as int, i as int),
        decreases end - i,
    {
        selected.push(visible[i]);
        i += 1;
        assert(selected@ =~= visible@.subrange(start as int, i as int));
    }
    TurnWindowPlan::Read(
        TurnWindowSelection {
            catalog,
            visible,
            target_ordinal: target,
            start_ordinal: start,
            end_ordinal_exclusive: end,
            selected,
        },
    )
}

/// The catalog of a window request has one entry for each visible turn.
proof fn lemma_window_catalog_length(
    schema_version: u32,
    session_id: Seq<char>,
    cached: Option<CatalogModel>,
    physical: Seq<usize>,
    boundary: Option<usize>,
)
    ensures
        window_catalog(schema_version, session_id, cached, physical, boundary).entries.len()
            == visible_indices(physical, boundary).len(),
{
    let visible = visible_indices(physical, boundary);
    let none = Seq::<DialogTurnData>::empty();
    let entries = crate::projection::projected_entries(cached, visible, none);
    crate::catalog::storage_order_is_a_sort(entries);
    let whole = physical_catalog(schema_version, session_id, cached, visible, none);
    crate::catalog::storage_order_is_a_sort(
        crate::catalog::first_entries(whole.entries, visible.len()),
    );
}

/// The catalog to answer with when selected turns turned out to be missing: that
/// of the turn files as they are listed then.
pub fn refreshed_turn_catalog(
    schema_version: u32,
    session_id: &str,
    boundary: Option<usize>,
    refreshed_indices: &Vec<usize>,
    cached: &Option<SessionTurnCatalog>,
) -> (r: SessionTurnCatalog)
    ensures
        r@ == window_catalog(
            schema_version,
            session_id@,
            catalog_option(*cached),
            refreshed_indices@,
            boundary,
        ),
{
    let visible = keep_visible_indices(refreshed_indices, boundary);
    let no_turns: Vec<DialogTurnData> = Vec::new();
    assert(no_turns@ =~= Seq::<DialogTurnData>::empty());
    build_session_turn_catalog_projection(
        schema_version,
        session_id,
        cached,
        &visible,
        &no_turns,
        visible.len(),
    )
}

/// Whether a turn is the one its place says.
pub open spec fn in_its_place(session_id: Seq<char>, turn: DialogTurnData, index: usize) -> bool {
    turn.session_id@ == session_id && turn.turn_index == index
}

/// The position of the first turn that is not the one its place says, or the
/// number of turns.
pub open spec fn first_misplaced(
    session_id: Seq<char>,
    turns: Seq<DialogTurnData>,
    selected: Seq<usize>,
    from: int,
) -> int
    decreases turns.len() - from,
{
    if from < 0 || from >= turns.len() {
        turns.len() as int
    } else if !in_its_place(session_id, turns[from], selected[from]) {
        from
    } else {
        first_misplaced(session_id, turns, selected, from + 1)
    }
}

/// The message for a turn that is not the one its place says.
pub open spec fn misplaced_message(
    session_id: Seq<char>,
    expected_index: nat,
    actual_session_id: Seq<char>,
    actual_index: nat,
) -> Seq<char> {
    "Persisted Turn identity does not match its storage path: session_id="@ + session_id
        + " expected_turn_index="@ + decimal(expected_index) + " actual_session_id="@
        + actual_session_id + " actual_turn_index="@ + decimal(actual_index)
}

/// Makes the error for a turn that is not the one its place says.
pub fn misplaced_turn_error(session_id: &str, expected_index: usize, turn: &DialogTurnData) -> (r:
    OpenBitFunError)
    ensures
        r@ == ErrorModel::Validation(
            misplaced_message(
                session_id@,
                expected_index as nat,
                turn.session_id@,
                turn.turn_index as nat,
            ),
        ),
{
    let mut text: String =
        "Persisted Turn identity does not match its storage path: session_id=".to_owned();
    text.append(session_id);
    text.append(" expected_turn_index=");
    push_number(&mut text, expected_index as u64);
    text.append(" actual_session_id=");
    text.append(turn.session_id.as_str());
    text.append(" actual_turn_index=");
    push_number(&mut text, turn.turn_index as u64);
    OpenBitFunError::Validation(text)
}

/// What the turns that were read for a window come to.
#[derive(Debug)]
pub enum TurnWindowRead {
    /// A selected turn file was gone; the turn files have to be listed again.
    Missing,
    /// The turns are those selected. `store` is the catalog to store, and
    /// `target_matches` says whether the target is the one that was expected.
    Loaded { store: Option<SessionTurnCatalog>, target_matches: bool },
}

/// Whether reading gave exactly the selected number of turns.
pub open spec fn all_read(turns: Seq<DialogTurnData>, selected: Seq<usize>, missing: usize) -> bool {
    missing == 0 && turns.len() == selected.len()
}

/// Holds the turns that were read against the selection. A missing one never
/// leads to a window with gaps, and a misplaced one is an error.
pub fn check_turn_window_read(
    schema_version: u32,
    request: &SessionTurnWindowRequest,
    selection: &TurnWindowSelection,
    physical_indices: &Vec<usize>,
    cached: &Option<SessionTurnCatalog>,
    turns: &Vec<DialogTurnData>,
    missing_turn_file_count: usize,
) -> (r: Result<TurnWindowRead, OpenBitFunError>)
    requires
        selection.valid(),
    ensures
        ({
            let selected = selection.selected@;
            let misplaced = first_misplaced(request.session_id@, turns@, selected, 0);
            let repaired = physical_catalog(
                schema_version,
                request.session_id@,
                catalog_option(*cached),
                physical_indices@,
                turns@,
            );
            if !all_read(turns@, selected, missing_turn_file_count) {
                r matches Ok(TurnWindowRead::Missing)
            } else if misplaced < turns@.len() {
                r matches Err(e) && e@ == ErrorModel::Validation(
                    misplaced_message(
                        request.session_id@,
                        selected[misplaced] as nat,
                        turns@[misplaced].session_id@,
                        turns@[misplaced].turn_index as nat,
                    ),
                )
            } else {
                &&& r matches Ok(TurnWindowRead::Loaded { store, target_matches })
                &&& catalog_option(store) == (if catalog_option(*cached) == Some(repaired) {
                    None
                } else {
                    Some(repaired)
                })
                &&& target_matches == expectation_met(
                    request.expected_turn_id,
                    turns@[selection.target_ordinal - selection.start_ordinal].turn_id@,
                )
            }
        }),
{
    if missing_turn_file_count > 0 || turns.len() != selection.selected.len() {
        return Ok(TurnWindowRead::Missing);
    }
    let ghost selected = selection.selected@;
    let mut i: usize = 0;
    while i < turns.len()
        invariant
            i <= turns@.len() == selected.len(),
            selected == selection.selected@,
            missing_turn_file_count == 0,
            first_misplaced(request.session_id@, turns@, selected, 0) == first_misplaced(
                request.session_id@,
                turns@,
                selected,
                i as int,
            ),
        decreases turns@.len() - i,
    {
        let expected_index: usize = selection.selected[i];
        if !same_text(turns[i].session_id.as_str(), request.session_id.as_str())
            || turns[i].turn_index != expected_index {
            return Err(
                misplaced_turn_error(request.session_id.as_str(), expected_index, &turns[i]),
            );
        }
        i += 1;
    }
    let projection = build_session_turn_catalog_projection_with_physical(
        schema_version,
        request.session_id.as_str(),
        cached,
        physical_indices,
        turns,
        physical_indices.len(),
    );
    let target: usize = selection.target_ordinal - selection.start_ordinal;
    let target_matches = meets_expectation(
        &request.expected_turn_id,
        turns[target].turn_id.as_str(),
    );
    let store = if projection.physical_changed {
        Some(projection.physical)
    } else {
        None
    };
    Ok(TurnWindowRead::Loaded { store, target_matches })
}

/// The answer once the selected turns are read: stale, with the catalog that
/// these turns give, when the target is not the expected one, else the window.
pub fn answer_turn_window(
    schema_version: u32,
    request: &SessionTurnWindowRequest,
    selection: TurnWindowSelection,
    turns: Vec<DialogTurnData>,
    cached: &Option<SessionTurnCatalog>,
    target_matches: bool,
) -> (r: SessionTurnWindowResponse)
    requires
        selection.valid(),
        turns@.len() == selection.selected@.len(),
    ensures
        if target_matches {
            &&& r matches SessionTurnWindowResponse::Ready {
                catalog_revision,
                total_turn_count,
                start_ordinal,
                end_ordinal_exclusive,
                target_turn_id,
                turns: window,
            }
            &&& catalog_revision == selection.catalog.revision
            &&& total_turn_count == selection.catalog.total_turn_count
            &&& start_ordinal == selection.start_ordinal
            &&& end_ordinal_exclusive == selection.end_ordinal_exclusive
            &&& target_turn_id == turns@[selection.target_ordinal
                - selection.start_ordinal].turn_id
            &&& window == turns
        } else {
            r matches SessionTurnWindowResponse::Stale { catalog } && catalog@ == visible_catalog(
                schema_version,
                request.session_id@,
                catalog_option(*cached),
                selection.visible@,
                turns@,
                selection.visible@.len(),
            )
        },
{
    if !target_matches {
        let catalog = build_session_turn_catalog_projection(
            schema_version,
            request.session_id.as_str(),
            cached,
            &selection.visible,
            &turns,
            selection.visible.len(),
        );
        return SessionTurnWindowResponse::Stale { catalog };
    }
    let target_turn_id = turns[selection.target_ordinal - selection.start_ordinal].turn_id.clone();
    SessionTurnWindowResponse::Ready {
        catalog_revision: selection.catalog.revision,
        total_turn_count: selection.catalog.total_turn_count,
        start_ordinal: selection.start_ordinal,
        end_ordinal_exclusive: selection.end_ordinal_exclusive,
        target_turn_id,
        turns,
    }
}

/// A window whose turns are all in their places holds exactly the selected turns
/// of the session, in order and without gaps.
pub proof fn a_loaded_window_has_no_gaps(
    session_id: Seq<char>,
    turns: Seq<DialogTurnData>,
    selected: Seq<usize>,
)
    requires
        first_misplaced(session_id, turns, selected, 0) == turns.len(),
    ensures
        forall|i: int|
            0 <= i < turns.len() ==> in_its_place(session_id, #[trigger] turns[i], selected[i]),
{
    lemma_placed_from(session_id, turns, selected, 0);
}

proof fn lemma_placed_from(
    session_id: Seq<char>,
    turns: Seq<DialogTurnData>,
    selected: Seq<usize>,
    from: int,
)
    requires
        0 <= from <= turns.len(),
        first_misplaced(session_id, turns, selected, from) == turns.len(),
    ensures
        forall|i: int|
            from <= i < turns.len() ==> in_its_place(session_id, #[trigger] turns[i], selected[i]),
    decreases turns.len() - from,
{
    if from < turns.len() {
        lemma_placed_from(session_id, turns, selected, from + 1);
    }
}

proof fn lemma_visible_ascending(indices: Seq<usize>, boundary: Option<usize>)
    requires
        strictly_ascending(indices),
    ensures
        strictly_ascending(visible_indices(indices, boundary)),
        visible_indices(indices, boundary).len() > 0 ==> indices.len() > 0
            && visible_indices(indices, boundary).last() <= indices.last(),
    decreases indices.len(),
{
    if indices.len() > 0 {
        let front = indices.drop_last();
        assert(strictly_ascending(front));
        lemma_visible_ascending(front, boundary);
        let inner = visible_indices(front, boundary);
        if inner.len() > 0 {
            assert(front.last() == indices[indices.len() - 2]);
            assert(inner.last() < indices.last());
        }
        if is_visible(indices.last(), boundary) {
            let r = inner.push(indices.last());
            assert forall|i: int, j: int| 0 <= i < j < r.len() implies #[trigger] r[i]
                < #[trigger] r[j] by {
                if j == inner.len() {
                    assert(inner[i] <= inner.last());
                }
            }
        }
    }
}

/// The catalog that a window request is held against lists exactly the visible
/// turns: a staged boundary hides every later one.
pub proof fn a_staged_boundary_hides_later_turns(
    schema_version: u32,
    session_id: Seq<char>,
    cached: Option<CatalogModel>,
    physical: Seq<usize>,
    boundary: Option<usize>,
)
    requires
        strictly_ascending(physical),
    ensures
        ({
            let catalog = window_catalog(schema_version, session_id, cached, physical, boundary);
            &&& storage_indices(catalog.entries) == index_numbers(
                visible_indices(physical, boundary),
            )
            &&& forall|i: int|
                0 <= i < catalog.entries.len() ==> (boundary matches Some(b) ==> (
                #[trigger] catalog.entries[i]).storage_turn_index < b)
        }),
{
    let visible = visible_indices(physical, boundary);
    let none = Seq::<DialogTurnData>::empty();
    lemma_visible_ascending(physical, boundary);
    visible_indices_stay_before_the_boundary(physical, boundary);
    a_catalog_lists_exactly_its_indices(schema_version, session_id, cached, visible, none);
    let whole = physical_catalog(schema_version, session_id, cached, visible, none);
    crate::catalog::rebuilding_a_well_formed_catalog_changes_nothing(whole);
    let catalog = window_catalog(schema_version, session_id, cached, physical, boundary);
    assert(whole.entries.len() == visible.len());
    assert(catalog == whole);
    assert forall|i: int| 0 <= i < catalog.entries.len() implies (boundary matches Some(b) ==> (
    #[trigger] catalog.entries[i]).storage_turn_index < b) by {
        assert(storage_indices(catalog.entries)[i] == index_numbers(visible)[i]);
        assert(visible.contains(visible[i]));
    }
}

/// A window holds before its target as many turns as were asked for, and fewer
/// only where it reaches the limit of 4 or the first turn; and from its target on
/// as many as were asked for, at least the target, and fewer only where it
/// reaches the limit of 12 or the last turn.
pub proof fn a_window_holds_what_was_asked_for(target: int, before: nat, after: nat, total: int)
    requires
        0 <= target < total,
    ensures
        ({
            let held = target - window_start(target, before);
            &&& 0 <= held <= before
            &&& held <= 4
            &&& held <= target
            &&& held == before || held == 4 || held == target
        }),
        ({
            let held = window_end(target, after, total) - target;
            &&& 1 <= held <= total - target
            &&& held <= 12
            &&& held <= after || (after == 0 && held == 1)
            &&& held == after || (after == 0 && held == 1) || held == 12 || held == total - target
        }),
{
}

/// Asking for more never gives less, and what is given begins no later and ends
/// no earlier.
pub proof fn a_larger_request_gives_no_smaller_window(
    target: int,
    total: int,
    before: nat,
    more_before: nat,
    after: nat,
    more_after: nat,
)
    requires
        0 <= target < total,
        before <= more_before,
        after <= more_after,
    ensures
        window_start(target, more_before) <= window_start(target, before),
        window_end(target, after, total) <= window_end(target, more_after, total),
{
}

/// What is selected are the visible turns from the start of the window to its
/// end, one after the other, and the target is among them.
pub proof fn a_selection_is_a_run_of_visible_turns(selection: TurnWindowSelection)
    requires
        selection.valid(),
    ensures
        selection.selected@.len() == selection.end_ordinal_exclusive - selection.start_ordinal,
        forall|i: int|
            0 <= i < selection.selected@.len() ==> #[trigger] selection.selected@[i]
                == selection.visible@[selection.start_ordinal + i],
        selection.start_ordinal <= selection.target_ordinal,
        selection.selected@[selection.target_ordinal - selection.start_ordinal]
            == selection.visible@[selection.target_ordinal as int],
        selection.selected@.contains(selection.visible@[selection.target_ordinal as int]),
{
    assert(selection.selected@[selection.target_ordinal - selection.start_ordinal]
        == selection.visible@[selection.target_ordinal as int]);
}

/// A staged boundary hides the turn that it names and every later one, and no
/// earlier one; without a boundary nothing is hidden. Which indices stay visible
/// is decided for each by itself, and they keep their order.
pub proof fn a_boundary_hides_itself_and_what_follows(
    a: Seq<usize>,
    b: Seq<usize>,
    index: usize,
    boundary: Option<usize>,
)
    ensures
        visible_indices(a + b, boundary) == visible_indices(a, boundary) + visible_indices(
            b,
            boundary,
        ),
        visible_indices(seq![index], boundary) == (match boundary {
            Some(first_hidden) => if index >= first_hidden {
                Seq::<usize>::empty()
            } else {
                seq![index]
            },
            None => seq![index],
        }),
    decreases b.len(),
{
    let one = seq![index];
    assert(one.drop_last() =~= Seq::<usize>::empty());
    assert(one.last() == index);
    assert(visible_indices(one.drop_last(), boundary) =~= Seq::<usize>::empty());
    assert(Seq::<usize>::empty().push(index) =~= one);
    if b.len() == 0 {
        assert(a + b =~= a);
        assert(visible_indices(b, boundary) =~= Seq::<usize>::empty());
    } else {
        a_boundary_hides_itself_and_what_follows(a, b.drop_last(), index, boundary);
        assert((a + b).drop_last() =~= a + b.drop_last());
        assert((a + b).last() == b.last());
    }
    assert(visible_indices(a + b, boundary) =~= visible_indices(a, boundary) + visible_indices(
        b,
        boundary,
    ));
}

/// The first misplaced turn is of another session or has another index than its
/// place; every turn before it is of the session and has the index of its place.
pub proof fn the_first_misplaced_turn_is_the_first(
    session_id: Seq<char>,
    turns: Seq<DialogTurnData>,
    selected: Seq<usize>,
    from: int,
)
    requires
        0 <= from <= turns.len(),
    ensures
        from <= first_misplaced(session_id, turns, selected, from) <= turns.len(),
        forall|i: int|
            from <= i < first_misplaced(session_id, turns, selected, from) ==> (
            #[trigger] turns[i]).session_id@ == session_id && turns[i].turn_index == selected[i],
        ({
            let k = first_misplaced(session_id, turns, selected, from);
            k < turns.len() ==> turns[k].session_id@ != session_id || turns[k].turn_index
                != selected[k]
        }),
    decreases turns.len() - from,
{
    if from < turns.len() && in_its_place(session_id, turns[from], selected[from]) {
        the_first_misplaced_turn_is_the_first(session_id, turns, selected, from + 1);
    }
}

/// An expectation is held against the actual text only where there is one, and a
/// target only where the catalog knows its id.
pub proof fn expectations_are_met_by_the_same_text(
    expected: String,
    actual: Seq<char>,
    entry: EntryModel,
)
    ensures
        expectation_met(None, actual),
        expectation_met(Some(expected), actual) <==> expected@ == actual,
        !target_id_differs(None, entry),
        entry.turn_id is None ==> !target_id_differs(Some(expected), entry),
        entry.turn_id == Some(actual) ==> (target_id_differs(Some(expected), entry) <==> expected@
            != actual),
{
}

/// A window is complete only with no file missing and one turn for each selected
/// one.
pub proof fn a_gap_is_a_missing_turn(
    turns: Seq<DialogTurnData>,
    selected: Seq<usize>,
    missing: usize,
)
    ensures
        missing > 0 ==> !all_read(turns, selected, missing),
        turns.len() != selected.len() ==> !all_read(turns, selected, missing),
        missing == 0 && turns.len() == selected.len() ==> all_read(turns, selected, missing),
{
}

/// The target of a window is the requested turn: it is found exactly when the
/// turn is visible, and stands where the turn stands among the visible ones.
pub proof fn the_target_is_the_requested_turn(
    schema_version: u32,
    session_id: Seq<char>,
    cached: Option<CatalogModel>,
    physical: Seq<usize>,
    boundary: Option<usize>,
    requested: usize,
)
    requires
        strictly_ascending(physical),
    ensures
        ({
            let catalog = window_catalog(schema_version, session_id, cached, physical, boundary);
            let visible = visible_indices(physical, boundary);
            let target = first_entry_at(catalog.entries, requested as nat, 0);
            &&& target >= 0 <==> physical.contains(requested) && (boundary matches Some(b)
                ==> requested < b)
            &&& target >= 0 ==> target < visible.len() && visible[target] == requested
        }),
{
    let catalog = window_catalog(schema_version, session_id, cached, physical, boundary);
    let visible = visible_indices(physical, boundary);
    let target = first_entry_at(catalog.entries, requested as nat, 0);
    a_staged_boundary_hides_later_turns(schema_version, session_id, cached, physical, boundary);
    visible_indices_stay_before_the_boundary(physical, boundary);
    crate::projection::the_first_entry_is_the_first(catalog.entries, requested as nat, 0);
    let stored = storage_indices(catalog.entries);
    assert(stored == index_numbers(visible));
    assert(catalog.entries.len() == stored.len());
    if target >= 0 {
        assert(stored[target] == requested as nat);
        assert(index_numbers(visible)[target] == visible[target] as nat);
        assert(visible.contains(visible[target]));
    }
    if visible.contains(requested) {
        let k = choose|k: int| 0 <= k < visible.len() && visible[k] == requested;
        assert(index_numbers(visible)[k] == requested as nat);
        assert(stored[k] == requested as nat);
        assert(catalog.entries[k].storage_turn_index == requested as nat);
    }
}

} // verus!

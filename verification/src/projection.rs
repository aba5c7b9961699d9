//! How the stored catalog, the turn files and the turns already read are brought
//! together into the catalog that a session shows and the one that it stores.

use vstd::prelude::*;

use crate::catalog::{
    aligned_with_save, build_turn_catalog, can_incrementally_update_turn_catalog_after_save,
    catalog_of, catalog_option, complete_turn_catalog_indices, completed_indices, copy_entries,
    ascending_indices, ascending_indices_are_the_given_ones, built_catalog_is_well_formed,
    entry_models, first_entries, is_cached, numbered, placeholder_entry,
    placeholder_turn_catalog_entry, revision_ignores_previews, storage_ascending,
    storage_distinct, storage_order_keeps_ascending, strictly_ascending, turn_catalog_entry,
    turn_entry, well_formed, CatalogModel, EntryModel, SessionTurnCatalog,
    SessionTurnCatalogEntry,
};
use crate::turn::DialogTurnData;

verus! {

/// The position of the last turn with this index among the first `n`, or -1.
pub open spec fn last_turn_at(turns: Seq<DialogTurnData>, index: usize, n: int) -> int
    decreases n,
{
    if n <= 0 || n > turns.len() {
        -1
    } else if turns[n - 1].turn_index == index {
        n - 1
    } else {
        last_turn_at(turns, index, n - 1)
    }
}

/// The position of the last entry with this index among the first `n`, or -1.
pub open spec fn last_entry_at(entries: Seq<EntryModel>, index: nat, n: int) -> int
    decreases n,
{
    if n <= 0 || n > entries.len() {
        -1
    } else if entries[n - 1].storage_turn_index == index {
        n - 1
    } else {
        last_entry_at(entries, index, n - 1)
    }
}

/// The stored entry for an index.
pub open spec fn cached_entry(cached: Option<CatalogModel>, index: nat) -> Option<EntryModel> {
    match cached {
        Some(c) => {
            let k = last_entry_at(c.entries, index, c.entries.len() as int);
            if k >= 0 {
                Some(c.entries[k])
            } else {
                None
            }
        },
        None => None,
    }
}

/// The entry for the `ordinal`-th of these indices: made from the turn when it
/// has been read, else the stored one, which serves once, else a placeholder.
pub open spec fn projected_entry(
    cached: Option<CatalogModel>,
    indices: Seq<usize>,
    loaded: Seq<DialogTurnData>,
    ordinal: int,
) -> EntryModel {
    let index = indices[ordinal];
    let k = last_turn_at(loaded, index, loaded.len() as int);
    if k >= 0 {
        turn_entry(loaded[k], ordinal as nat)
    } else {
        match cached_entry(cached, index as nat) {
            Some(entry) => if indices.take(ordinal).contains(index) {
                placeholder_entry(index as nat, ordinal as nat)
            } else {
                EntryModel { ordinal: ordinal as nat, ..entry }
            },
            None => placeholder_entry(index as nat, ordinal as nat),
        }
    }
}

/// The entries for these indices.
pub open spec fn projected_entries(
    cached: Option<CatalogModel>,
    indices: Seq<usize>,
    loaded: Seq<DialogTurnData>,
) -> Seq<EntryModel> {
    Seq::new(indices.len(), |i: int| projected_entry(cached, indices, loaded, i))
}

/// The catalog of all these indices.
pub open spec fn physical_catalog(
    schema_version: u32,
    session_id: Seq<char>,
    cached: Option<CatalogModel>,
    indices: Seq<usize>,
    loaded: Seq<DialogTurnData>,
) -> CatalogModel {
    catalog_of(schema_version, session_id, projected_entries(cached, indices, loaded))
}

/// The catalog of the first `visible` of these indices.
pub open spec fn visible_catalog(
    schema_version: u32,
    session_id: Seq<char>,
    cached: Option<CatalogModel>,
    indices: Seq<usize>,
    loaded: Seq<DialogTurnData>,
    visible: nat,
) -> CatalogModel {
    catalog_of(
        schema_version,
        session_id,
        first_entries(
            physical_catalog(schema_version, session_id, cached, indices, loaded).entries,
            visible,
        ),
    )
}

/// The catalog that is shown, the one that the files give, and whether the
/// latter differs from the stored one.
#[derive(Debug)]
pub struct BuiltSessionTurnCatalogProjection {
    pub visible: SessionTurnCatalog,
    pub physical: SessionTurnCatalog,
    pub physical_changed: bool,
}

/// Finds [`last_turn_at`].
fn find_turn(turns: &Vec<DialogTurnData>, index: usize) -> (r: Option<usize>)
    ensures
        r is Some == (last_turn_at(turns@, index, turns@.len() as int) >= 0),
        r matches Some(k) ==> k < turns@.len() && k == last_turn_at(
            turns@,
            index,
            turns@.len() as int,
        ),
{
    let mut n: usize = turns.len();
    while n > 0
        invariant
            n <= turns@.len(),
            last_turn_at(turns@, index, turns@.len() as int) == last_turn_at(
                turns@,
                index,
                n as int,
            ),
        decreases n,
    {
        if turns[n - 1].turn_index == index {
            return Some(n - 1);
        }
        n -= 1;
    }
    None
}

/// Finds [`last_entry_at`].
fn find_entry(entries: &Vec<SessionTurnCatalogEntry>, index: usize) -> (r: Option<usize>)
    ensures
        r is Some == (last_entry_at(
            entry_models(entries@),
            index as nat,
            entries@.len() as int,
        ) >= 0),
        r matches Some(k) ==> k < entries@.len() && k == last_entry_at(
            entry_models(entries@),
            index as nat,
            entries@.len() as int,
        ),
{
    let ghost models = entry_models(entries@);
    let mut n: usize = entries.len();
    while n > 0
        invariant
            n <= entries@.len(),
            models == entry_models(entries@),
            last_entry_at(models, index as nat, entries@.len() as int) == last_entry_at(
                models,
                index as nat,
                n as int,
            ),
        decreases n,
    {
        assert(models[n - 1] == entries@[n - 1]@);
        if entries[n - 1].storage_turn_index == index {
            return Some(n - 1);
        }
        n -= 1;
    }
    None
}

/// Whether one of the first `n` indices is this one.
fn occurs_before(indices: &Vec<usize>, n: usize, index: usize) -> (r: bool)
    requires
        n <= indices@.len(),
    ensures
        r == indices@.take(n as int).contains(index),
{
    let ghost front = indices@.take(n as int);
    let mut i: usize = 0;
    while i < n
        invariant
            i <= n <= indices@.len(),
            front == indices@.take(n as int),
            forall|j: int| 0 <= j < i ==> front[j] != index,
        decreases n - i,
    {
        if indices[i] == index {
            assert(front[i as int] == index);
            return true;
        }
        i += 1;
    }
    false
}

/// Makes the entries for these indices.
fn project_entries(
    cached: &Option<SessionTurnCatalog>,
    indices: &Vec<usize>,
    loaded: &Vec<DialogTurnData>,
) -> (r: Vec<SessionTurnCatalogEntry>)
    ensures
        entry_models(r@) == projected_entries(catalog_option(*cached), indices@, loaded@),
{
    let mut r: Vec<SessionTurnCatalogEntry> = Vec::new();
    let mut i: usize = 0;
    while i < indices.len()
        invariant
            i <= indices@.len(),
            r@.len() == i,
            forall|j: int|
                0 <= j < i ==> (#[trigger] r@[j])@ == projected_entry(
                    catalog_option(*cached),
                    indices@,
                    loaded@,
                    j,
                ),
        decreases indices@.len() - i,
    {
        let index: usize = indices[i];
        let entry = match find_turn(loaded, index) {
            Some(k) => turn_catalog_entry(&loaded[k], i),
            None => match cached {
                Some(catalog) => match find_entry(&catalog.entries, index) {
                    Some(k) => if occurs_before(indices, i, index) {
                        placeholder_turn_catalog_entry(index, i)
                    } else {
                        let mut entry = catalog.entries[k].duplicate();
                        entry.ordinal = i;
                        entry
                    },
                    None => placeholder_turn_catalog_entry(index, i),
                },
                None => placeholder_turn_catalog_entry(index, i),
            },
        };
        r.push(entry);
        i += 1;
    }
    assert(entry_models(r@) =~= projected_entries(catalog_option(*cached), indices@, loaded@));
    r
}

/// Brings the stored catalog and the turns already read together over these
/// indices.
pub fn build_session_turn_catalog_projection_with_physical(
    schema_version: u32,
    session_id: &str,
    cached: &Option<SessionTurnCatalog>,
    physical_indices: &Vec<usize>,
    loaded_turns: &Vec<DialogTurnData>,
    visible_total_turn_count: usize,
) -> (r: BuiltSessionTurnCatalogProjection)
    ensures
        r.physical@ == physical_catalog(
            schema_version,
            session_id@,
            catalog_option(*cached),
            physical_indices@,
            loaded_turns@,
        ),
        r.visible@ == visible_catalog(
            schema_version,
            session_id@,
            catalog_option(*cached),
            physical_indices@,
            loaded_turns@,
            visible_total_turn_count as nat,
        ),
        r.physical_changed == (catalog_option(*cached) != Some(r.physical@)),
{
    let entries = project_entries(cached, physical_indices, loaded_turns);
    let physical = build_turn_catalog(schema_version, session_id, entries);
    let visible_entries = copy_entries(&physical.entries, visible_total_turn_count);
    let physical_changed = !is_cached(cached, &physical);
    BuiltSessionTurnCatalogProjection {
        visible: build_turn_catalog(schema_version, session_id, visible_entries),
        physical,
        physical_changed,
    }
}

/// The catalog shown over these indices.
pub fn build_session_turn_catalog_projection(
    schema_version: u32,
    session_id: &str,
    cached: &Option<SessionTurnCatalog>,
    physical_indices: &Vec<usize>,
    loaded_turns: &Vec<DialogTurnData>,
    visible_total_turn_count: usize,
) -> (r: SessionTurnCatalog)
    ensures
        r@ == visible_catalog(
            schema_version,
            session_id@,
            catalog_option(*cached),
            physical_indices@,
            loaded_turns@,
            visible_total_turn_count as nat,
        ),
{
    build_session_turn_catalog_projection_with_physical(
        schema_version,
        session_id,
        cached,
        physical_indices,
        loaded_turns,
        visible_total_turn_count,
    ).visible
}

/// The indices of turns.
pub open spec fn turn_indices(turns: Seq<DialogTurnData>) -> Seq<usize> {
    Seq::new(turns.len(), |i: int| turns[i].turn_index)
}

/// The indices over which a session's catalog is shown: those of the files and
/// of the turns already read, filled up to the visible number. When the files
/// could not be listed, those of the turns alone.
pub open spec fn shown_indices(
    listed: Option<Seq<usize>>,
    loaded: Seq<DialogTurnData>,
    visible: nat,
) -> Seq<usize> {
    match listed {
        Some(files) => completed_indices(
            ascending_indices(files) + turn_indices(loaded),
            visible,
        ),
        None => completed_indices(turn_indices(loaded), visible),
    }
}

/// Whether the catalog over these indices may be stored: only when they are
/// exactly those of the files.
pub open spec fn may_store(listed: Option<Seq<usize>>, indices: Seq<usize>) -> bool {
    listed matches Some(files) && indices == ascending_indices(files)
}

/// The content of an optional list.
pub open spec fn list_option(o: Option<Vec<usize>>) -> Option<Seq<usize>> {
    match o {
        Some(v) => Some(v@),
        None => None,
    }
}

/// The catalog to show, and the catalog to store when that is called for.
#[derive(Debug)]
pub struct SessionTurnCatalogLoad {
    pub visible: SessionTurnCatalog,
    pub store: Option<SessionTurnCatalog>,
}

/// Whether two lists of indices are equal.
fn same_indices(a: &Vec<usize>, b: &Vec<usize>) -> (r: bool)
    ensures
        r == (a@ == b@),
{
    if a.len() != b.len() {
        return false;
    }
    let mut i: usize = 0;
    while i < a.len()
        invariant
            a@.len() == b@.len(),
            i <= a@.len(),
            forall|j: int| 0 <= j < i ==> #[trigger] a@[j] == b@[j],
        decreases a@.len() - i,
    {
        if a[i] != b[i] {
            return false;
        }
        i += 1;
    }
    assert(a@ =~= b@);
    true
}

/// The catalog of a session view. `listed` holds the indices of the turn files,
/// or nothing when they could not be listed; placeholders then stand in. The
/// catalog is to be stored when it is exactly that of the files and differs from
/// the stored one.
pub fn load_session_turn_catalog(
    schema_version: u32,
    session_id: &str,
    listed: &Option<Vec<usize>>,
    cached: &Option<SessionTurnCatalog>,
    loaded_turns: &Vec<DialogTurnData>,
    visible_total_turn_count: usize,
) -> (r: SessionTurnCatalogLoad)
    ensures
        ({
            let indices = shown_indices(
                list_option(*listed),
                loaded_turns@,
                visible_total_turn_count as nat,
            );
            let physical = physical_catalog(
                schema_version,
                session_id@,
                catalog_option(*cached),
                indices,
                loaded_turns@,
            );
            &&& r.visible@ == visible_catalog(
                schema_version,
                session_id@,
                catalog_option(*cached),
                indices,
                loaded_turns@,
                visible_total_turn_count as nat,
            )
            &&& catalog_option(r.store) == (if may_store(list_option(*listed), indices)
                && catalog_option(*cached) != Some(physical) {
                Some(physical)
            } else {
                None
            })
        }),
{
    let mut loaded_indices: Vec<usize> = Vec::new();
    let mut i: usize = 0;
    while i < loaded_turns.len()
        invariant
            i <= loaded_turns@.len(),
            loaded_indices@.len() == i,
            forall|j: int|
                0 <= j < i ==> #[trigger] loaded_indices@[j] == loaded_turns@[j].turn_index,
        decreases loaded_turns@.len() - i,
    {
        loaded_indices.push(loaded_turns[i].turn_index);
        i += 1;
    }
    assert(loaded_indices@ =~= turn_indices(loaded_turns@));
    let (indices, can_store) = match listed {
        Some(files) => {
            let persisted = complete_turn_catalog_indices(files, 0);
            assert(persisted@ == ascending_indices(files@));
            let mut all: Vec<usize> = Vec::new();
            let mut k: usize = 0;
            while k < persisted.len()
                invariant
                    k <= persisted@.len(),
                    all@ == persisted@.take(k as int),
                decreases persisted@.len() - k,
            {
                all.push(persisted[k]);
                k += 1;
                assert(all@ =~= persisted@.take(k as int));
            }
            assert(persisted@.take(k as int) =~= persisted@);
            all.append(&mut loaded_indices);
            let projected = complete_turn_catalog_indices(&all, visible_total_turn_count);
            let can_store = same_indices(&projected, &persisted);
            (projected, can_store)
        },
        None => (
            complete_turn_catalog_indices(&loaded_indices, visible_total_turn_count),
            false,
        ),
    };
    let projection = build_session_turn_catalog_projection_with_physical(
        schema_version,
        session_id,
        cached,
        &indices,
        loaded_turns,
        visible_total_turn_count,
    );
    SessionTurnCatalogLoad {
        visible: projection.visible,
        store: if can_store && projection.physical_changed {
            Some(projection.physical)
        } else {
            None
        },
    }
}

/// The position of the first entry with this index, or -1.
pub open spec fn first_entry_at(entries: Seq<EntryModel>, index: nat, from: int) -> int
    decreases entries.len() - from,
{
    if from < 0 || from >= entries.len() {
        -1
    } else if entries[from].storage_turn_index == index {
        from
    } else {
        first_entry_at(entries, index, from + 1)
    }
}

/// Finds [`first_entry_at`] from the start.
pub fn find_first_entry(entries: &Vec<SessionTurnCatalogEntry>, index: usize) -> (r: Option<usize>)
    ensures
        r is Some == (first_entry_at(entry_models(entries@), index as nat, 0) >= 0),
        r matches Some(k) ==> k < entries@.len() && k == first_entry_at(
            entry_models(entries@),
            index as nat,
            0,
        ),
{
    let ghost models = entry_models(entries@);
    let mut i: usize = 0;
    while i < entries.len()
        invariant
            i <= entries@.len(),
            models == entry_models(entries@),
            first_entry_at(models, index as nat, 0) == first_entry_at(
                models,
                index as nat,
                i as int,
            ),
        decreases entries@.len() - i,
    {
        assert(models[i as int] == entries@[i as int]@);
        if entries[i].storage_turn_index == index {
            return Some(i);
        }
        i += 1;
    }
    None
}

/// Whether the stored catalog is complete and already says what the saved turn
/// says.
pub open spec fn already_cataloged(cached: Option<CatalogModel>, turn: DialogTurnData) -> bool {
    match cached {
        Some(c) => {
            let k = first_entry_at(c.entries, turn.turn_index as nat, 0);
            c.complete && k >= 0 && turn_entry(turn, c.entries[k].ordinal) == c.entries[k]
        },
        None => false,
    }
}

/// The entries of a catalog with the saved turn's entry in its place, or behind
/// them when it is new.
pub open spec fn entries_with_saved(entries: Seq<EntryModel>, turn: DialogTurnData) -> Seq<
    EntryModel,
> {
    let k = first_entry_at(entries, turn.turn_index as nat, 0);
    if k >= 0 {
        entries.update(k, turn_entry(turn, 0))
    } else {
        entries.push(turn_entry(turn, 0))
    }
}

/// What a saved turn asks of the stored catalog.
#[derive(Debug)]
pub enum CatalogAfterSave {
    /// Nothing is to be stored.
    Unchanged,
    /// This catalog is to be stored.
    Store(SessionTurnCatalog),
    /// The catalog has to be made anew from all turn files.
    NeedsTurns,
}

/// Whether a saved turn needs no look at the turn files at all.
pub fn is_already_cataloged(cached: &Option<SessionTurnCatalog>, turn: &DialogTurnData) -> (r: bool)
    ensures
        r == already_cataloged(catalog_option(*cached), *turn),
{
    match cached {
        Some(catalog) => if catalog.complete {
            match find_first_entry(&catalog.entries, turn.turn_index) {
                Some(k) => {
                    let current = turn_catalog_entry(turn, catalog.entries[k].ordinal);
                    current.same(&catalog.entries[k])
                },
                None => false,
            }
        } else {
            false
        },
        None => false,
    }
}

/// What a saved turn asks of the stored catalog, given the indices of the turn
/// files. A catalog aligned with the files takes in the one entry, also when
/// other entries are still placeholders; any other is made anew.
pub fn catalog_after_save(
    schema_version: u32,
    cached: &Option<SessionTurnCatalog>,
    physical_indices: &Vec<usize>,
    turn: &DialogTurnData,
) -> (r: CatalogAfterSave)
    ensures
        match catalog_option(*cached) {
            Some(c) => if aligned_with_save(c.entries, physical_indices@, turn.turn_index) {
                let next = catalog_of(
                    schema_version,
                    turn.session_id@,
                    entries_with_saved(c.entries, *turn),
                );
                if next == c {
                    r is Unchanged
                } else {
                    r matches CatalogAfterSave::Store(stored) && stored@ == next
                }
            } else {
                r is NeedsTurns
            },
            None => r is NeedsTurns,
        },
{
    match cached {
        Some(catalog) => {
            if !can_incrementally_update_turn_catalog_after_save(
                catalog,
                physical_indices,
                turn.turn_index,
            ) {
                return CatalogAfterSave::NeedsTurns;
            }
            let entry = turn_catalog_entry(turn, 0);
            let mut entries = copy_entries(&catalog.entries, catalog.entries.len());
            let ghost before = entry_models(entries@);
            assert(before == catalog@.entries);
            match find_first_entry(&entries, turn.turn_index) {
                Some(k) => {
                    entries.set(k, entry);
                    assert(entry_models(entries@) =~= before.update(k as int, entry@));
                },
                None => {
                    entries.push(entry);
                    assert(entry_models(entries@) =~= before.push(entry@));
                },
            }
            let next = build_turn_catalog(schema_version, turn.session_id.as_str(), entries);
            if catalog.same(&next) {
                CatalogAfterSave::Unchanged
            } else {
                CatalogAfterSave::Store(next)
            }
        },
        None => CatalogAfterSave::NeedsTurns,
    }
}

/// The catalog made anew from the turns that were read for these indices, when
/// it differs from the stored one.
pub fn rebuilt_catalog_after_save(
    schema_version: u32,
    session_id: &str,
    cached: &Option<SessionTurnCatalog>,
    physical_indices: &Vec<usize>,
    read_turns: &Vec<DialogTurnData>,
) -> (r: Option<SessionTurnCatalog>)
    ensures
        ({
            let next = physical_catalog(
                schema_version,
                session_id@,
                None,
                physical_indices@,
                read_turns@,
            );
            catalog_option(r) == (if catalog_option(*cached) == Some(next) {
                None
            } else {
                Some(next)
            })
        }),
{
    let entries = project_entries(&None, physical_indices, read_turns);
    let next = build_turn_catalog(schema_version, session_id, entries);
    if is_cached(cached, &next) {
        None
    } else {
        Some(next)
    }
}

/// The entries of all these turns, in their order.
pub open spec fn entries_of_turns(turns: Seq<DialogTurnData>) -> Seq<EntryModel> {
    Seq::new(turns.len(), |i: int| turn_entry(turns[i], i as nat))
}

/// The catalog of all these turns, when it differs from the stored one.
pub fn complete_session_turn_catalog(
    schema_version: u32,
    session_id: &str,
    cached: &Option<SessionTurnCatalog>,
    turns: &Vec<DialogTurnData>,
) -> (r: Option<SessionTurnCatalog>)
    ensures
        ({
            let next = catalog_of(schema_version, session_id@, entries_of_turns(turns@));
            catalog_option(r) == (if catalog_option(*cached) == Some(next) {
                None
            } else {
                Some(next)
            })
        }),
{
    let mut entries: Vec<SessionTurnCatalogEntry> = Vec::new();
    let mut i: usize = 0;
    while i < turns.len()
        invariant
            i <= turns@.len(),
            entries@.len() == i,
            forall|j: int|
                0 <= j < i ==> (#[trigger] entries@[j])@ == turn_entry(turns@[j], j as nat),
        decreases turns@.len() - i,
    {
        entries.push(turn_catalog_entry(&turns[i], i));
        i += 1;
    }
    assert(entry_models(entries@) =~= entries_of_turns(turns@));
    let next = build_turn_catalog(schema_version, session_id, entries);
    if is_cached(cached, &next) {
        None
    } else {
        Some(next)
    }
}

/// The storage indices of entries.
pub open spec fn storage_indices(entries: Seq<EntryModel>) -> Seq<nat> {
    Seq::new(entries.len(), |i: int| entries[i].storage_turn_index)
}

/// Indices as numbers without bound.
pub open spec fn index_numbers(indices: Seq<usize>) -> Seq<nat> {
    Seq::new(indices.len(), |i: int| indices[i] as nat)
}

proof fn lemma_last_turn_at(turns: Seq<DialogTurnData>, index: usize, n: int)
    ensures
        -1 <= last_turn_at(turns, index, n),
        last_turn_at(turns, index, n) >= 0 ==> last_turn_at(turns, index, n) < turns.len()
            && turns[last_turn_at(turns, index, n)].turn_index == index,
    decreases n,
{
    if 0 < n <= turns.len() && turns[n - 1].turn_index != index {
        lemma_last_turn_at(turns, index, n - 1);
    }
}

proof fn lemma_last_entry_at(entries: Seq<EntryModel>, index: nat, n: int)
    requires
        0 <= n <= entries.len(),
    ensures
        -1 <= last_entry_at(entries, index, n) < n || last_entry_at(entries, index, n) == -1,
        last_entry_at(entries, index, n) >= 0 ==> entries[last_entry_at(
            entries,
            index,
            n,
        )].storage_turn_index == index,
        forall|i: int|
            last_entry_at(entries, index, n) < i < n ==> (#[trigger] entries[i]).storage_turn_index
                != index,
    decreases n,
{
    if 0 < n && entries[n - 1].storage_turn_index != index {
        lemma_last_entry_at(entries, index, n - 1);
    }
}

proof fn lemma_projected_index(
    cached: Option<CatalogModel>,
    indices: Seq<usize>,
    loaded: Seq<DialogTurnData>,
    i: int,
)
    requires
        0 <= i < indices.len(),
    ensures
        projected_entry(cached, indices, loaded, i).storage_turn_index == indices[i],
        projected_entry(cached, indices, loaded, i).ordinal == i,
{
    lemma_last_turn_at(loaded, indices[i], loaded.len() as int);
    if let Some(c) = cached {
        lemma_last_entry_at(c.entries, indices[i] as nat, c.entries.len() as int);
    }
}

/// The catalog of strictly ascending indices lists exactly these, in their
/// order, whatever is stored or read of the turns, and is well formed.
pub proof fn a_catalog_lists_exactly_its_indices(
    schema_version: u32,
    session_id: Seq<char>,
    cached: Option<CatalogModel>,
    indices: Seq<usize>,
    loaded: Seq<DialogTurnData>,
)
    requires
        strictly_ascending(indices),
    ensures
        ({
            let catalog = physical_catalog(schema_version, session_id, cached, indices, loaded);
            &&& storage_indices(catalog.entries) == index_numbers(indices)
            &&& catalog.entries == projected_entries(cached, indices, loaded)
            &&& well_formed(catalog)
        }),
{
    let entries = projected_entries(cached, indices, loaded);
    assert forall|i: int| 0 <= i < entries.len() implies (#[trigger] entries[i]).storage_turn_index
        == indices[i] && entries[i].ordinal == i by {
        lemma_projected_index(cached, indices, loaded, i);
    }
    assert(storage_ascending(entries));
    assert(storage_distinct(entries));
    storage_order_keeps_ascending(entries);
    built_catalog_is_well_formed(schema_version, session_id, entries);
    assert(numbered(entries) =~= entries);
    assert(storage_indices(entries) =~= index_numbers(indices));
}

/// The revision of a session's catalog is a matter of its turn files alone:
/// reading turns, or having other metadata stored, does not move it.
pub proof fn reading_turns_keeps_the_revision(
    schema_version: u32,
    session_id: Seq<char>,
    indices: Seq<usize>,
    cached: Option<CatalogModel>,
    loaded: Seq<DialogTurnData>,
    other_cached: Option<CatalogModel>,
    other_loaded: Seq<DialogTurnData>,
)
    requires
        strictly_ascending(indices),
    ensures
        physical_catalog(schema_version, session_id, cached, indices, loaded).revision
            == physical_catalog(
            schema_version,
            session_id,
            other_cached,
            indices,
            other_loaded,
        ).revision,
{
    a_catalog_lists_exactly_its_indices(schema_version, session_id, cached, indices, loaded);
    a_catalog_lists_exactly_its_indices(
        schema_version,
        session_id,
        other_cached,
        indices,
        other_loaded,
    );
    let a = physical_catalog(schema_version, session_id, cached, indices, loaded).entries;
    let b = physical_catalog(
        schema_version,
        session_id,
        other_cached,
        indices,
        other_loaded,
    ).entries;
    assert forall|i: int| 0 <= i < a.len() implies (#[trigger] a[i]).ordinal == b[i].ordinal
        && a[i].storage_turn_index == b[i].storage_turn_index by {
        lemma_projected_index(cached, indices, loaded, i);
        lemma_projected_index(other_cached, indices, other_loaded, i);
    }
    revision_ignores_previews(a, b);
}

/// A stored catalog is found again as it is: over the same turn files and with
/// no turn read, nothing differs from it and nothing is to be stored.
pub proof fn a_stored_catalog_is_found_again(
    schema_version: u32,
    session_id: Seq<char>,
    cached: Option<CatalogModel>,
    indices: Seq<usize>,
    loaded: Seq<DialogTurnData>,
)
    requires
        strictly_ascending(indices),
    ensures
        ({
            let stored = physical_catalog(schema_version, session_id, cached, indices, loaded);
            physical_catalog(
                schema_version,
                session_id,
                Some(stored),
                indices,
                Seq::<DialogTurnData>::empty(),
            ) == stored
        }),
{
    let stored = physical_catalog(schema_version, session_id, cached, indices, loaded);
    let none = Seq::<DialogTurnData>::empty();
    a_catalog_lists_exactly_its_indices(schema_version, session_id, cached, indices, loaded);
    a_catalog_lists_exactly_its_indices(schema_version, session_id, Some(stored), indices, none);
    let again = projected_entries(Some(stored), indices, none);
    assert forall|i: int| 0 <= i < again.len() implies #[trigger] again[i]
        == stored.entries[i] by {
        let index = indices[i];
        lemma_projected_index(cached, indices, loaded, i);
        assert(storage_indices(stored.entries)[i] == index);
        lemma_last_turn_at(none, index, 0);
        lemma_last_entry_at(stored.entries, index as nat, stored.entries.len() as int);
        let k = last_entry_at(stored.entries, index as nat, stored.entries.len() as int);
        assert(k == i) by {
            assert(stored.entries[i].storage_turn_index == index);
            if k != i {
                assert(k > i);
                assert(storage_indices(stored.entries)[k] == index_numbers(indices)[k]);
                assert(indices[i] < indices[k]);
            }
        }
        assert(!indices.take(i).contains(index)) by {
            if indices.take(i).contains(index) {
                let j = choose|j: int| 0 <= j < i && indices.take(i)[j] == index;
                assert(indices[j] < indices[i]);
            }
        }
    }
    assert(again =~= stored.entries);
}

/// A catalog is stored only with exactly the indices of the turn files: padding
/// for files that are missing is shown and never stored.
pub proof fn padding_is_never_stored(
    schema_version: u32,
    session_id: Seq<char>,
    cached: Option<CatalogModel>,
    files: Seq<usize>,
    loaded: Seq<DialogTurnData>,
    visible: nat,
)
    requires
        may_store(Some(files), shown_indices(Some(files), loaded, visible)),
    ensures
        storage_indices(
            physical_catalog(
                schema_version,
                session_id,
                cached,
                shown_indices(Some(files), loaded, visible),
                loaded,
            ).entries,
        ) == index_numbers(ascending_indices(files)),
        forall|x: usize|
            #[trigger] ascending_indices(files).contains(x) <==> files.contains(x),
{
    ascending_indices_are_the_given_ones(files);
    a_catalog_lists_exactly_its_indices(
        schema_version,
        session_id,
        cached,
        ascending_indices(files),
        loaded,
    );
}

proof fn lemma_first_entry_at(entries: Seq<EntryModel>, index: nat, from: int)
    requires
        0 <= from <= entries.len(),
    ensures
        first_entry_at(entries, index, from) == -1 || from <= first_entry_at(entries, index, from)
            < entries.len(),
        first_entry_at(entries, index, from) >= 0 ==> entries[first_entry_at(
            entries,
            index,
            from,
        )].storage_turn_index == index && forall|i: int|
            from <= i < first_entry_at(entries, index, from) ==> (
            #[trigger] entries[i]).storage_turn_index != index,
        first_entry_at(entries, index, from) == -1 ==> forall|i: int|
            from <= i < entries.len() ==> (#[trigger] entries[i]).storage_turn_index != index,
    decreases entries.len() - from,
{
    if from < entries.len() && entries[from].storage_turn_index != index {
        lemma_first_entry_at(entries, index, from + 1);
    }
}

/// Taking a saved turn into a well-formed catalog that is aligned with the turn
/// files keeps every other entry, and gives a well-formed catalog of exactly the
/// files. Saving the same turn once more then changes nothing.
pub proof fn saving_a_turn_repairs_its_entry_alone(
    schema_version: u32,
    catalog: CatalogModel,
    physical: Seq<usize>,
    turn: DialogTurnData,
)
    requires
        well_formed(catalog),
        strictly_ascending(physical),
        aligned_with_save(catalog.entries, physical, turn.turn_index),
    ensures
        ({
            let next = catalog_of(
                schema_version,
                turn.session_id@,
                entries_with_saved(catalog.entries, turn),
            );
            let k = first_entry_at(next.entries, turn.turn_index as nat, 0);
            &&& well_formed(next)
            &&& storage_indices(next.entries) == index_numbers(physical)
            &&& 0 <= k < next.entries.len()
            &&& next.entries[k] == turn_entry(turn, k as nat)
            &&& forall|i: int|
                0 <= i < catalog.entries.len() && i != k ==> #[trigger] next.entries[i]
                    == catalog.entries[i]
            &&& next.complete ==> already_cataloged(Some(next), turn)
            &&& aligned_with_save(next.entries, physical, turn.turn_index)
            &&& catalog_of(
                schema_version,
                turn.session_id@,
                entries_with_saved(next.entries, turn),
            ) == next
        }),
{
    let old_entries = catalog.entries;
    let saved = entries_with_saved(old_entries, turn);
    let at = first_entry_at(old_entries, turn.turn_index as nat, 0);
    lemma_first_entry_at(old_entries, turn.turn_index as nat, 0);
    let k = if at >= 0 {
        at
    } else {
        old_entries.len() as int
    };
    if physical.len() != old_entries.len() {
        assert(at < 0) by {
            if at >= 0 {
                assert(old_entries[at].storage_turn_index == physical[at]);
                assert(physical[at] < physical[physical.len() - 1]);
            }
        }
    }
    assert(saved.len() == physical.len());
    assert forall|i: int| 0 <= i < saved.len() implies (#[trigger] saved[i]).storage_turn_index
        == physical[i] by {
        if i < old_entries.len() {
            assert(old_entries[i].storage_turn_index == physical[i]);
        }
    }
    lemma_saved_catalog(schema_version, turn.session_id@, saved, physical);
    let next = catalog_of(schema_version, turn.session_id@, saved);
    assert(next.entries == numbered(saved));
    assert(next.entries[k] == turn_entry(turn, k as nat));
    lemma_first_entry_at(next.entries, turn.turn_index as nat, 0);
    let found = first_entry_at(next.entries, turn.turn_index as nat, 0);
    assert(found == k) by {
        assert(next.entries[k].storage_turn_index == turn.turn_index);
        assert(found >= 0);
        if found < k {
            assert(physical[found] < physical[k]);
            assert(saved[found].storage_turn_index == physical[found]);
            assert(saved[k].storage_turn_index == physical[k]);
        }
    }
    assert forall|i: int| 0 <= i < old_entries.len() && i != k implies #[trigger] next.entries[i]
        == old_entries[i] by {
        assert(saved[i] == old_entries[i]);
        assert(old_entries[i].ordinal == i);
    }
    assert forall|i: int|
        0 <= i < next.entries.len() && i < physical.len() implies (
    #[trigger] next.entries[i]).storage_turn_index == physical[i] by {
        assert(saved[i].storage_turn_index == physical[i]);
    }
    assert(aligned_with_save(next.entries, physical, turn.turn_index));
    let again = entries_with_saved(next.entries, turn);
    assert(numbered(again) =~= next.entries);
    assert forall|i: int| 0 <= i < again.len() implies (#[trigger] again[i]).storage_turn_index
        == physical[i] by {
        assert(saved[i].storage_turn_index == physical[i]);
    }
    lemma_saved_catalog(schema_version, turn.session_id@, again, physical);
}

/// A catalog made of entries for strictly ascending indices.
proof fn lemma_saved_catalog(
    schema_version: u32,
    session_id: Seq<char>,
    entries: Seq<EntryModel>,
    indices: Seq<usize>,
)
    requires
        strictly_ascending(indices),
        entries.len() == indices.len(),
        forall|i: int|
            0 <= i < entries.len() ==> (#[trigger] entries[i]).storage_turn_index == indices[i],
    ensures
        catalog_of(schema_version, session_id, entries).entries == numbered(entries),
        well_formed(catalog_of(schema_version, session_id, entries)),
        storage_indices(catalog_of(schema_version, session_id, entries).entries) == index_numbers(
            indices,
        ),
{
    assert(storage_ascending(entries));
    assert(storage_distinct(entries));
    storage_order_keeps_ascending(entries);
    built_catalog_is_well_formed(schema_version, session_id, entries);
    assert(storage_indices(numbered(entries)) =~= index_numbers(indices));
}

/// The first entry for an index has it, and none before it does; without one no
/// entry has it.
pub proof fn the_first_entry_is_the_first(entries: Seq<EntryModel>, index: nat, from: int)
    requires
        0 <= from <= entries.len(),
    ensures
        ({
            let k = first_entry_at(entries, index, from);
            &&& k == -1 || from <= k < entries.len() && entries[k].storage_turn_index == index
            &&& forall|i: int|
                from <= i < (if k < 0 {
                    entries.len() as int
                } else {
                    k
                }) ==> (#[trigger] entries[i]).storage_turn_index != index
        }),
    decreases entries.len() - from,
{
    if from < entries.len() && entries[from].storage_turn_index != index {
        the_first_entry_is_the_first(entries, index, from + 1);
    }
}

/// The entry of an index is made of the last turn that was read under it; where
/// none was read it is the stored one, and where none is stored a placeholder.
pub proof fn a_read_turn_goes_before_the_stored_entry(
    cached: Option<CatalogModel>,
    indices: Seq<usize>,
    loaded: Seq<DialogTurnData>,
    ordinal: int,
    k: int,
)
    requires
        strictly_ascending(indices),
        0 <= ordinal < indices.len(),
    ensures
        0 <= k < loaded.len() && loaded[k].turn_index == indices[ordinal] && (forall|i: int|
            k < i < loaded.len() ==> (#[trigger] loaded[i]).turn_index != indices[ordinal])
            ==> projected_entry(cached, indices, loaded, ordinal) == turn_entry(
            loaded[k],
            ordinal as nat,
        ),
        (forall|i: int|
            0 <= i < loaded.len() ==> (#[trigger] loaded[i]).turn_index != indices[ordinal]) ==> {
            &&& (cached matches Some(c) && 0 <= k < c.entries.len()
                && c.entries[k].storage_turn_index == indices[ordinal] && forall|i: int|
                k < i < c.entries.len() ==> (#[trigger] c.entries[i]).storage_turn_index
                    != indices[ordinal]) ==> projected_entry(cached, indices, loaded, ordinal) == (
            EntryModel { ordinal: ordinal as nat, ..cached->0.entries[k] })
            &&& (cached is None || forall|i: int|
                0 <= i < cached->0.entries.len() ==> (
                #[trigger] cached->0.entries[i]).storage_turn_index != indices[ordinal])
                ==> projected_entry(cached, indices, loaded, ordinal) == placeholder_entry(
                indices[ordinal] as nat,
                ordinal as nat,
            )
        },
{
    let index = indices[ordinal];
    lemma_latest_turn(loaded, index, loaded.len() as int);
    assert(!indices.take(ordinal).contains(index)) by {
        if indices.take(ordinal).contains(index) {
            let j = choose|j: int| 0 <= j < ordinal && indices.take(ordinal)[j] == index;
            assert(indices[j] < indices[ordinal]);
        }
    }
    match cached {
        Some(c) => {
            lemma_latest_entry(c.entries, index as nat, c.entries.len() as int);
        },
        None => {},
    }
}

proof fn lemma_latest_turn(turns: Seq<DialogTurnData>, index: usize, n: int)
    requires
        0 <= n <= turns.len(),
    ensures
        ({
            let k = last_turn_at(turns, index, n);
            &&& -1 <= k < n || n == 0
            &&& k >= 0 ==> turns[k].turn_index == index
            &&& forall|i: int| k < i < n && 0 <= i ==> (#[trigger] turns[i]).turn_index != index
            &&& k >= -1
        }),
    decreases n,
{
    if n > 0 && turns[n - 1].turn_index != index {
        lemma_latest_turn(turns, index, n - 1);
    }
}

proof fn lemma_latest_entry(entries: Seq<EntryModel>, index: nat, n: int)
    requires
        0 <= n <= entries.len(),
    ensures
        ({
            let k = last_entry_at(entries, index, n);
            &&& -1 <= k < n || n == 0
            &&& k >= 0 ==> entries[k].storage_turn_index == index
            &&& forall|i: int|
                k < i < n && 0 <= i ==> (#[trigger] entries[i]).storage_turn_index != index
            &&& k >= -1
        }),
    decreases n,
{
    if n > 0 && entries[n - 1].storage_turn_index != index {
        lemma_latest_entry(entries, index, n - 1);
    }
}

/// The catalog that is shown lists the first of the indices, as many as are
/// visible, and shows of each turn what the catalog of all of them says.
pub proof fn the_shown_catalog_is_the_first_part(
    schema_version: u32,
    session_id: Seq<char>,
    cached: Option<CatalogModel>,
    indices: Seq<usize>,
    loaded: Seq<DialogTurnData>,
    visible: nat,
)
    requires
        strictly_ascending(indices),
    ensures
        ({
            let whole = physical_catalog(schema_version, session_id, cached, indices, loaded);
            let shown = visible_catalog(
                schema_version,
                session_id,
                cached,
                indices,
                loaded,
                visible,
            );
            let count = if visible < indices.len() {
                visible
            } else {
                indices.len()
            };
            &&& shown.schema_version == schema_version
            &&& shown.session_id == session_id
            &&& shown.total_turn_count == count
            &&& shown.entries == whole.entries.subrange(0, count as int)
            &&& forall|i: int|
                0 <= i < count ==> (#[trigger] shown.entries[i]).storage_turn_index == indices[i]
        }),
{
    let whole = physical_catalog(schema_version, session_id, cached, indices, loaded);
    a_catalog_lists_exactly_its_indices(schema_version, session_id, cached, indices, loaded);
    assert(storage_indices(whole.entries).len() == indices.len());
    let count = if visible < indices.len() {
        visible
    } else {
        indices.len()
    };
    let first = first_entries(whole.entries, visible);
    assert(first =~= whole.entries.subrange(0, count as int));
    assert forall|i: int, j: int| 0 <= i < j < first.len() implies (
    #[trigger] first[i]).storage_turn_index <= (#[trigger] first[j]).storage_turn_index by {
        assert(whole.entries[i].storage_turn_index < whole.entries[j].storage_turn_index);
    }
    storage_order_keeps_ascending(first);
    assert forall|i: int| 0 <= i < first.len() implies numbered(first)[i] == #[trigger] first[i] by {
        assert(whole.entries[i].ordinal == i);
    }
    assert(numbered(first) =~= first);
    let shown = visible_catalog(schema_version, session_id, cached, indices, loaded, visible);
    assert forall|i: int| 0 <= i < count implies (#[trigger] shown.entries[i]).storage_turn_index
        == indices[i] by {
        assert(storage_indices(whole.entries)[i] == index_numbers(indices)[i]);
    }
}

/// The indices that are shown hold those of the files and of the turns that were
/// read, ascend strictly, and are at least as many as are visible; a catalog is
/// stored only when they are those of the files and no others, never when the
/// files could not be listed.
pub proof fn shown_indices_hold_files_and_turns(
    files: Seq<usize>,
    loaded: Seq<DialogTurnData>,
    visible: nat,
    x: usize,
)
    requires
        visible <= usize::MAX,
    ensures
        ({
            let listed = shown_indices(Some(files), loaded, visible);
            let unlisted = shown_indices(None, loaded, visible);
            &&& strictly_ascending(listed) && strictly_ascending(unlisted)
            &&& listed.len() >= visible && unlisted.len() >= visible
            &&& files.contains(x) ==> listed.contains(x)
            &&& (exists|i: int| 0 <= i < loaded.len() && (#[trigger] loaded[i]).turn_index == x)
                ==> listed.contains(x) && unlisted.contains(x)
            &&& !may_store(None, unlisted)
            &&& may_store(Some(files), listed) ==> (listed.contains(x) <==> files.contains(x))
            &&& !may_store(Some(files), listed) ==> exists|y: usize|
                #[trigger] listed.contains(y) && !files.contains(y)
        }),
{
    let base = ascending_indices(files) + turn_indices(loaded);
    let listed = shown_indices(Some(files), loaded, visible);
    let unlisted = shown_indices(None, loaded, visible);
    crate::catalog::completed_indices_cover(base, visible);
    crate::catalog::completed_indices_cover(turn_indices(loaded), visible);
    ascending_indices_are_the_given_ones(files);
    assert forall|y: usize| files.contains(y) implies listed.contains(y) by {
        assert(ascending_indices(files).contains(y));
        let m = choose|m: int|
            0 <= m < ascending_indices(files).len() && ascending_indices(files)[m] == y;
        assert(base[m] == y);
        assert(base.contains(y));
    }
    if exists|i: int| 0 <= i < loaded.len() && (#[trigger] loaded[i]).turn_index == x {
        let i = choose|i: int| 0 <= i < loaded.len() && (#[trigger] loaded[i]).turn_index == x;
        assert(turn_indices(loaded)[i] == x);
        assert(turn_indices(loaded).contains(x));
        assert(base[ascending_indices(files).len() + i] == x);
        assert(base.contains(x));
    }
    if !may_store(Some(files), listed) {
        if forall|y: usize| #[trigger] listed.contains(y) ==> files.contains(y) {
            lemma_same_strictly_ascending(listed, ascending_indices(files));
        }
    }
}

/// Strictly ascending lists with the same members are the same list.
proof fn lemma_same_strictly_ascending(a: Seq<usize>, b: Seq<usize>)
    requires
        strictly_ascending(a),
        strictly_ascending(b),
        forall|x: usize| #[trigger] a.contains(x) <==> b.contains(x),
    ensures
        a == b,
    decreases a.len(),
{
    if a.len() == 0 {
        if b.len() > 0 {
            assert(b.contains(b[0]));
            assert(a.contains(b[0]));
        }
        assert(a =~= b);
    } else {
        assert(a.contains(a[0]));
        assert(b.len() > 0);
        let x = a.last();
        let y = b.last();
        assert(a.contains(x));
        assert(b.contains(y));
        assert(a.contains(y));
        let i = choose|i: int| 0 <= i < b.len() && b[i] == x;
        let j = choose|j: int| 0 <= j < a.len() && a[j] == y;
        assert(x == y) by {
            assert(i == b.len() - 1 || b[i] < b[b.len() - 1]);
            assert(j == a.len() - 1 || a[j] < a[a.len() - 1]);
        }
        let fa = a.drop_last();
        let fb = b.drop_last();
        assert forall|z: usize| #[trigger] fa.contains(z) <==> fb.contains(z) by {
            if fa.contains(z) {
                let m = choose|m: int| 0 <= m < fa.len() && fa[m] == z;
                assert(a[m] == z && a[m] < a[a.len() - 1]);
                assert(a.contains(z));
                let n = choose|n: int| 0 <= n < b.len() && b[n] == z;
                assert(n != b.len() - 1);
                assert(fb[n] == z);
            }
            if fb.contains(z) {
                let m = choose|m: int| 0 <= m < fb.len() && fb[m] == z;
                assert(b[m] == z && b[m] < b[b.len() - 1]);
                assert(b.contains(z));
                assert(a.contains(z));
                let n = choose|n: int| 0 <= n < a.len() && a[n] == z;
                assert(n != a.len() - 1);
                assert(fa[n] == z);
            }
        }
        lemma_same_strictly_ascending(fa, fb);
        assert(a =~= fa.push(x));
        assert(b =~= fb.push(y));
    }
}

/// The catalog of turns has an entry for each of them, in their order, that names
/// it and shows its content.
pub proof fn every_turn_has_its_entry(turns: Seq<DialogTurnData>, i: int)
    requires
        0 <= i < turns.len(),
    ensures
        entries_of_turns(turns).len() == turns.len(),
        entries_of_turns(turns)[i].turn_id == Some(turns[i].turn_id@),
        entries_of_turns(turns)[i].storage_turn_index == turns[i].turn_index,
        entries_of_turns(turns)[i] == turn_entry(turns[i], i as nat),
        turn_indices(turns).len() == turns.len(),
        turn_indices(turns)[i] == turns[i].turn_index,
{
}

/// A saved turn needs nothing exactly when the stored catalog is complete and its
/// first entry for the turn's index is the one that the turn gives.
pub proof fn a_cataloged_turn_says_what_its_entry_says(
    catalog: CatalogModel,
    turn: DialogTurnData,
    k: int,
)
    requires
        0 <= k < catalog.entries.len(),
        catalog.entries[k].storage_turn_index == turn.turn_index,
        forall|i: int|
            0 <= i < k ==> (#[trigger] catalog.entries[i]).storage_turn_index != turn.turn_index,
    ensures
        !already_cataloged(None, turn),
        already_cataloged(Some(catalog), turn) <==> catalog.complete && turn_entry(
            turn,
            catalog.entries[k].ordinal,
        ) == catalog.entries[k],
        already_cataloged(Some(catalog), turn) ==> catalog.entries[k].turn_id == Some(
            turn.turn_id@,
        ),
{
    the_first_entry_is_the_first(catalog.entries, turn.turn_index as nat, 0);
    let e = first_entry_at(catalog.entries, turn.turn_index as nat, 0);
    if 0 <= e < k {
        assert(catalog.entries[e].storage_turn_index == turn.turn_index);
    }
    assert(e == k);
}

} // verus!

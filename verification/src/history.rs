//! Which persisted turns are read, shown and deleted.

use vstd::prelude::*;

use crate::catalog::{entry_models, EntryModel, SessionTurnCatalog};
use crate::errors::OpenBitFunError;
use crate::text::same_text;
use crate::turn::DialogTurnData;
use crate::window::is_visible;

verus! {

/// What reading one turn file came to: the turn, nothing when the file is not
/// there, or an error; and how long it took.
#[derive(Debug)]
pub struct TurnRead {
    pub result: Result<Option<DialogTurnData>, OpenBitFunError>,
    pub duration_ms: u64,
}

/// What reading a number of turn files came to.
#[derive(Debug)]
pub struct ReadTurnPathsResult {
    pub turns: Vec<DialogTurnData>,
    pub missing_turn_file_count: usize,
    pub max_turn_read_duration_ms: u64,
}

/// The position of the first read that failed, or the number of reads.
pub open spec fn first_failed_read(reads: Seq<TurnRead>, from: int) -> int
    decreases reads.len() - from,
{
    if from < 0 || from >= reads.len() {
        reads.len() as int
    } else if reads[from].result is Err {
        from
    } else {
        first_failed_read(reads, from + 1)
    }
}

/// The turns that were found, in order.
pub open spec fn turns_found(reads: Seq<TurnRead>) -> Seq<DialogTurnData>
    decreases reads.len(),
{
    if reads.len() == 0 {
        Seq::empty()
    } else {
        match reads.last().result {
            Ok(Some(turn)) => turns_found(reads.drop_last()).push(turn),
            _ => turns_found(reads.drop_last()),
        }
    }
}

/// The number of files that were not there.
pub open spec fn files_missing(reads: Seq<TurnRead>) -> nat
    decreases reads.len(),
{
    if reads.len() == 0 {
        0
    } else {
        files_missing(reads.drop_last()) + (if reads.last().result matches Ok(None) {
            1nat
        } else {
            0nat
        })
    }
}

/// The longest time that a read took.
pub open spec fn longest_read(reads: Seq<TurnRead>) -> u64
    decreases reads.len(),
{
    if reads.len() == 0 {
        0
    } else {
        let earlier = longest_read(reads.drop_last());
        if reads.last().duration_ms > earlier {
            reads.last().duration_ms
        } else {
            earlier
        }
    }
}

/// Gathers what reading turn files came to; the first failure is the result.
pub fn collect_turn_reads(reads: Vec<TurnRead>) -> (r: Result<
    ReadTurnPathsResult,
    OpenBitFunError,
>)
    ensures
        ({
            let failed = first_failed_read(reads@, 0);
            if failed < reads@.len() {
                r is Err && r->Err_0 == reads@[failed].result->Err_0
            } else {
                &&& r matches Ok(result)
                &&& result.turns@ == turns_found(reads@)
                &&& result.missing_turn_file_count == files_missing(reads@)
                &&& result.max_turn_read_duration_ms == longest_read(reads@)
            }
        }),
{
    let ghost all = reads@;
    let count: usize = reads.len();
    let mut turns: Vec<DialogTurnData> = Vec::new();
    let mut missing: usize = 0;
    let mut longest: u64 = 0;
    assert(all.take(0) =~= Seq::<TurnRead>::empty());
    for read in it: reads
        invariant
            it.seq() == all,
            turns@ == turns_found(all.take(it.index() as int)),
            missing == files_missing(all.take(it.index() as int)),
            missing <= it.index() <= all.len(),
            longest == longest_read(all.take(it.index() as int)),
            first_failed_read(all, 0) == first_failed_read(all, it.index() as int),
            all.len() == count,
    {
        let ghost at = it.index() as int;
        assert(all.take(at + 1).drop_last() =~= all.take(at));
        assert(all.take(at + 1).last() == all[at]);
        if read.duration_ms > longest {
            longest = read.duration_ms;
        }
        match read.result {
            Ok(Some(turn)) => {
                turns.push(turn);
            },
            Ok(None) => {
                missing += 1;
            },
            Err(error) => {
                return Err(error);
            },
        }
    }
    assert(all.take(all.len() as int) =~= all);
    Ok(
        ReadTurnPathsResult {
            turns,
            missing_turn_file_count: missing,
            max_turn_read_duration_ms: longest,
        },
    )
}

/// Where the last `count` of `total` items begin.
pub open spec fn tail_start(total: int, count: int) -> int {
    if total >= count {
        total - count
    } else {
        0
    }
}

/// The last `count` indices, in order.
pub fn tail_indices(indices: &Vec<usize>, count: usize) -> (r: Vec<usize>)
    ensures
        r@ == indices@.skip(tail_start(indices@.len() as int, count as int)),
{
    let total: usize = indices.len();
    let start: usize = if total >= count {
        total - count
    } else {
        0
    };
    let mut r: Vec<usize> = Vec::new();
    let mut i: usize = start;
    while i < total
        invariant
            start <= i <= total == indices@.len(),
            r@ == indices@.subrange(start as int, i as int),
        decreases total - i,
    {
        r.push(indices[i]);
        i += 1;
        assert(r@ =~= indices@.subrange(start as int, i as int));
    }
    assert(r@ =~= indices@.skip(start as int));
    r
}

/// The last `count` turns, in order.
pub fn recent_turns(turns: Vec<DialogTurnData>, count: usize) -> (r: Vec<DialogTurnData>)
    ensures
        r@ == turns@.skip(tail_start(turns@.len() as int, count as int)),
{
    let mut all = turns;
    let total: usize = all.len();
    let start: usize = if total >= count {
        total - count
    } else {
        0
    };
    let r = all.split_off(start);
    assert(r@ =~= turns@.skip(start as int));
    r
}

/// The last items are as many as asked for, or all of them, and end where the
/// items end.
pub proof fn tail_is_the_latest<T>(items: Seq<T>, count: int)
    requires
        count >= 0,
    ensures
        ({
            let tail = items.skip(tail_start(items.len() as int, count));
            &&& tail.len() == (if items.len() < count {
                items.len() as int
            } else {
                count
            })
            &&& forall|i: int|
                0 <= i < tail.len() ==> #[trigger] tail[i] == items[items.len() - tail.len() + i]
        }),
{
}

/// How the latest turns are to be read.
#[derive(Debug, Clone, Copy, PartialEq, Eq, Structural)]
pub enum TailTurnsPlan {
    /// No turn was asked for.
    Empty,
    /// The turns with these indices, as the metadata counts them.
    Range { start: usize, end: usize },
    /// The turn files have to be listed.
    Scan,
}

/// Decides how the latest turns are to be read: by the turn count of the
/// metadata when it names any turn, else from a listing.
pub fn plan_tail_turns(count: usize, metadata_turn_count: Option<usize>) -> (r: TailTurnsPlan)
    ensures
        r == (if count == 0 {
            TailTurnsPlan::Empty
        } else {
            match metadata_turn_count {
                Some(total) => if total == 0 {
                    TailTurnsPlan::Scan
                } else {
                    TailTurnsPlan::Range {
                        start: tail_start(total as int, count as int) as usize,
                        end: total,
                    }
                },
                None => TailTurnsPlan::Scan,
            }
        }),
{
    if count == 0 {
        return TailTurnsPlan::Empty;
    }
    match metadata_turn_count {
        Some(total) => if total == 0 {
            TailTurnsPlan::Scan
        } else {
            let start: usize = if total >= count {
                total - count
            } else {
                0
            };
            TailTurnsPlan::Range { start, end: total }
        },
        None => TailTurnsPlan::Scan,
    }
}

/// The turns that the metadata's count led to, unless one of them was missing.
pub fn accept_metadata_tail(result: ReadTurnPathsResult) -> (r: Option<ReadTurnPathsResult>)
    ensures
        r == (if result.missing_turn_file_count > 0 {
            None
        } else {
            Some(result)
        }),
{
    if result.missing_turn_file_count > 0 {
        None
    } else {
        Some(result)
    }
}

/// The turns before the staged boundary, in order.
pub open spec fn visible_turns(turns: Seq<DialogTurnData>, boundary: Option<usize>) -> Seq<
    DialogTurnData,
>
    decreases turns.len(),
{
    if turns.len() == 0 {
        Seq::empty()
    } else if is_visible(turns.last().turn_index, boundary) {
        visible_turns(turns.drop_last(), boundary).push(turns.last())
    } else {
        visible_turns(turns.drop_last(), boundary)
    }
}

/// Keeps the turns before the staged boundary.
pub fn retain_visible_turns(turns: Vec<DialogTurnData>, boundary: Option<usize>) -> (r: Vec<
    DialogTurnData,
>)
    ensures
        r@ == visible_turns(turns@, boundary),
{
    let ghost all = turns@;
    let mut r: Vec<DialogTurnData> = Vec::new();
    assert(all.take(0) =~= Seq::<DialogTurnData>::empty());
    for turn in it: turns
        invariant
            it.seq() == all,
            r@ == visible_turns(all.take(it.index() as int), boundary),
    {
        let ghost at = it.index() as int;
        assert(all.take(at + 1).drop_last() =~= all.take(at));
        assert(all.take(at + 1).last() == all[at]);
        let shown: bool = match boundary {
            Some(b) => turn.turn_index < b,
            None => true,
        };
        if shown {
            r.push(turn);
        }
    }
    assert(all.take(all.len() as int) =~= all);
    r
}

/// A visible turn lies before the staged boundary and is one of the turns;
/// without a boundary all turns are visible.
pub proof fn visible_turns_hide_the_staged_suffix(
    turns: Seq<DialogTurnData>,
    boundary: Option<usize>,
)
    ensures
        visible_turns(turns, boundary).len() <= turns.len(),
        forall|i: int|
            0 <= i < visible_turns(turns, boundary).len() ==> is_visible(
                (#[trigger] visible_turns(turns, boundary)[i]).turn_index,
                boundary,
            ) && turns.contains(visible_turns(turns, boundary)[i]),
        forall|i: int|
            0 <= i < turns.len() && is_visible((#[trigger] turns[i]).turn_index, boundary)
                ==> visible_turns(turns, boundary).contains(turns[i]),
        boundary is None ==> visible_turns(turns, boundary) == turns,
    decreases turns.len(),
{
    if turns.len() > 0 {
        let front = turns.drop_last();
        visible_turns_hide_the_staged_suffix(front, boundary);
        let inner = visible_turns(front, boundary);
        let r = visible_turns(turns, boundary);
        assert(turns =~= front.push(turns.last()));
        assert forall|i: int| 0 <= i < r.len() implies is_visible(
            (#[trigger] r[i]).turn_index,
            boundary,
        ) && turns.contains(r[i]) by {
            if i < inner.len() {
                assert(r[i] == inner[i]);
                assert(front.contains(inner[i]));
                let k = choose|k: int| 0 <= k < front.len() && front[k] == inner[i];
                assert(turns[k] == inner[i]);
            } else {
                assert(turns[turns.len() - 1] == r[i]);
            }
        }
        assert forall|i: int|
            0 <= i < turns.len() && is_visible(
                (#[trigger] turns[i]).turn_index,
                boundary,
            ) implies r.contains(turns[i]) by {
            if i < front.len() {
                assert(front[i] == turns[i]);
                assert(inner.contains(turns[i]));
                let k = choose|k: int| 0 <= k < inner.len() && inner[k] == turns[i];
                assert(r[k] == turns[i]);
            } else {
                assert(r[inner.len() as int] == turns[i]);
            }
        }
    } else {
        assert(turns =~= Seq::<DialogTurnData>::empty());
    }
}

/// The indices of the turns at or behind `from`, in order.
pub open spec fn indices_from(turns: Seq<DialogTurnData>, from: nat) -> Seq<usize>
    decreases turns.len(),
{
    if turns.len() == 0 {
        Seq::empty()
    } else if turns.last().turn_index >= from {
        indices_from(turns.drop_last(), from).push(turns.last().turn_index)
    } else {
        indices_from(turns.drop_last(), from)
    }
}

/// The indices of the turns that go when those from `turn_index` on are deleted.
pub fn turn_indices_from(turns: &Vec<DialogTurnData>, turn_index: usize) -> (r: Vec<usize>)
    ensures
        r@ == indices_from(turns@, turn_index as nat),
{
    let mut r: Vec<usize> = Vec::new();
    let mut i: usize = 0;
    while i < turns.len()
        invariant
            i <= turns@.len(),
            r@ == indices_from(turns@.take(i as int), turn_index as nat),
        decreases turns@.len() - i,
    {
        assert(turns@.take(i + 1).drop_last() =~= turns@.take(i as int));
        if turns[i].turn_index >= turn_index {
            r.push(turns[i].turn_index);
        }
        i += 1;
    }
    assert(turns@.take(i as int) =~= turns@);
    r
}

/// The indices of the turns behind `index`, in order.
pub open spec fn indices_after(turns: Seq<DialogTurnData>, index: nat) -> Seq<usize>
    decreases turns.len(),
{
    if turns.len() == 0 {
        Seq::empty()
    } else if turns.last().turn_index > index {
        indices_after(turns.drop_last(), index).push(turns.last().turn_index)
    } else {
        indices_after(turns.drop_last(), index)
    }
}

/// Deleting the turns after one is deleting those from the next on.
pub proof fn deleting_after_is_deleting_from_the_next(turns: Seq<DialogTurnData>, index: nat)
    ensures
        indices_after(turns, index) == indices_from(turns, index + 1),
    decreases turns.len(),
{
    if turns.len() > 0 {
        deleting_after_is_deleting_from_the_next(turns.drop_last(), index);
    }
}

/// The indices of the turns that go when those after `turn_index` are deleted.
pub fn turn_indices_after(turns: &Vec<DialogTurnData>, turn_index: usize) -> (r: Vec<usize>)
    ensures
        r@ == indices_after(turns@, turn_index as nat),
{
    proof {
        deleting_after_is_deleting_from_the_next(turns@, turn_index as nat);
    }
    if turn_index == usize::MAX {
        proof {
            lemma_no_indices_from(turns@, (turn_index + 1) as nat);
        }
        Vec::new()
    } else {
        turn_indices_from(turns, turn_index + 1)
    }
}

proof fn lemma_no_indices_from(turns: Seq<DialogTurnData>, from: nat)
    requires
        from > usize::MAX,
    ensures
        indices_from(turns, from) == Seq::<usize>::empty(),
    decreases turns.len(),
{
    if turns.len() > 0 {
        lemma_no_indices_from(turns.drop_last(), from);
    }
}

/// Deleting the turns from an index on takes exactly those that a boundary at
/// this index hides.
pub proof fn deletion_takes_what_a_boundary_hides(turns: Seq<DialogTurnData>, boundary: usize)
    ensures
        visible_turns(turns, Some(boundary)).len() + indices_from(turns, boundary as nat).len()
            == turns.len(),
        forall|i: int|
            0 <= i < indices_from(turns, boundary as nat).len() ==> !is_visible(
                #[trigger] indices_from(turns, boundary as nat)[i],
                Some(boundary),
            ),
    decreases turns.len(),
{
    if turns.len() > 0 {
        deletion_takes_what_a_boundary_hides(turns.drop_last(), boundary);
    }
}

/// The turns that are left when those of the given indices are gone, in order.
pub open spec fn turns_without(turns: Seq<DialogTurnData>, gone: Seq<usize>) -> Seq<DialogTurnData>
    decreases turns.len(),
{
    if turns.len() == 0 {
        Seq::empty()
    } else if gone.contains(turns.last().turn_index) {
        turns_without(turns.drop_last(), gone)
    } else {
        turns_without(turns.drop_last(), gone).push(turns.last())
    }
}

/// Whether one of the turns has this index.
pub open spec fn has_turn_index(turns: Seq<DialogTurnData>, index: usize) -> bool {
    exists|i: int| 0 <= i < turns.len() && (#[trigger] turns[i]).turn_index == index
}

proof fn lemma_indices_from_are_those_at_or_behind(turns: Seq<DialogTurnData>, from: nat)
    ensures
        forall|x: usize|
            #[trigger] indices_from(turns, from).contains(x) <==> has_turn_index(turns, x) && x
                >= from,
    decreases turns.len(),
{
    let r = indices_from(turns, from);
    if turns.len() > 0 {
        let front = turns.drop_last();
        let inner = indices_from(front, from);
        lemma_indices_from_are_those_at_or_behind(front, from);
        assert forall|x: usize| #[trigger] r.contains(x) <==> has_turn_index(turns, x) && x
            >= from by {
            if has_turn_index(front, x) {
                let i = choose|i: int|
                    0 <= i < front.len() && (#[trigger] front[i]).turn_index == x;
                assert(turns[i].turn_index == x);
            }
            if has_turn_index(turns, x) && turns.last().turn_index != x {
                let i = choose|i: int|
                    0 <= i < turns.len() && (#[trigger] turns[i]).turn_index == x;
                assert(front[i].turn_index == x);
            }
            if turns.last().turn_index == x {
                assert(turns[turns.len() - 1].turn_index == x);
            }
            if inner.contains(x) {
                let m = choose|m: int| 0 <= m < inner.len() && inner[m] == x;
                assert(r[m] == x);
            }
            if r.contains(x) && turns.last().turn_index != x {
                let m = choose|m: int| 0 <= m < r.len() && r[m] == x;
                assert(inner[m] == x);
            }
            if turns.last().turn_index == x && x >= from {
                assert(r[inner.len() as int] == x);
            }
        }
    }
}

proof fn lemma_turns_without_hidden(
    turns: Seq<DialogTurnData>,
    gone: Seq<usize>,
    boundary: usize,
)
    requires
        forall|i: int|
            0 <= i < turns.len() ==> (gone.contains((#[trigger] turns[i]).turn_index)
                <==> turns[i].turn_index >= boundary),
    ensures
        turns_without(turns, gone) == visible_turns(turns, Some(boundary)),
    decreases turns.len(),
{
    if turns.len() > 0 {
        let front = turns.drop_last();
        assert forall|i: int| 0 <= i < front.len() implies (gone.contains(
            (#[trigger] front[i]).turn_index,
        ) <==> front[i].turn_index >= boundary) by {
            assert(front[i] == turns[i]);
        }
        lemma_turns_without_hidden(front, gone, boundary);
        assert(turns[turns.len() - 1] == turns.last());
    }
}

/// Deleting the turns from an index on takes exactly the turns at or behind it
/// and leaves the earlier ones in their order; as many are gone as the number
/// that is left falls short of the number before.
pub proof fn deletion_leaves_the_earlier_turns(turns: Seq<DialogTurnData>, from: usize)
    ensures
        forall|x: usize|
            #[trigger] indices_from(turns, from as nat).contains(x) <==> has_turn_index(turns, x)
                && x >= from,
        turns_without(turns, indices_from(turns, from as nat)) == visible_turns(turns, Some(from)),
        indices_from(turns, from as nat).len() == turns.len() - turns_without(
            turns,
            indices_from(turns, from as nat),
        ).len(),
{
    let gone = indices_from(turns, from as nat);
    lemma_indices_from_are_those_at_or_behind(turns, from as nat);
    assert forall|i: int| 0 <= i < turns.len() implies (gone.contains(
        (#[trigger] turns[i]).turn_index,
    ) <==> turns[i].turn_index >= from) by {
        assert(has_turn_index(turns, turns[i].turn_index));
    }
    lemma_turns_without_hidden(turns, gone, from);
    deletion_takes_what_a_boundary_hides(turns, from);
}

/// The indices at or behind `from`, in order.
pub open spec fn hidden_indices(indices: Seq<usize>, from: usize) -> Seq<usize>
    decreases indices.len(),
{
    if indices.len() == 0 {
        Seq::empty()
    } else if indices.last() >= from {
        hidden_indices(indices.drop_last(), from).push(indices.last())
    } else {
        hidden_indices(indices.drop_last(), from)
    }
}

/// Of the indices of the turn files, those that go when the files from
/// `turn_index` on are deleted.
pub fn file_indices_from(indices: &Vec<usize>, turn_index: usize) -> (r: Vec<usize>)
    ensures
        r@ == hidden_indices(indices@, turn_index),
{
    let mut r: Vec<usize> = Vec::new();
    let mut i: usize = 0;
    while i < indices.len()
        invariant
            i <= indices@.len(),
            r@ == hidden_indices(indices@.take(i as int), turn_index),
        decreases indices@.len() - i,
    {
        assert(indices@.take(i + 1).drop_last() =~= indices@.take(i as int));
        if indices[i] >= turn_index {
            r.push(indices[i]);
        }
        i += 1;
    }
    assert(indices@.take(i as int) =~= indices@);
    r
}

/// Going by the files takes the same turns as going by the turns in them, where
/// each file holds the turn of its index.
pub proof fn file_indices_are_the_turns_indices(
    turns: Seq<DialogTurnData>,
    indices: Seq<usize>,
    from: usize,
)
    requires
        indices.len() == turns.len(),
        forall|i: int| 0 <= i < turns.len() ==> (#[trigger] turns[i]).turn_index == indices[i],
    ensures
        hidden_indices(indices, from) == indices_from(turns, from as nat),
    decreases turns.len(),
{
    if turns.len() > 0 {
        let front = turns.drop_last();
        assert forall|i: int| 0 <= i < front.len() implies (#[trigger] front[i]).turn_index
            == indices.drop_last()[i] by {
            assert(front[i] == turns[i]);
        }
        file_indices_are_the_turns_indices(front, indices.drop_last(), from);
        assert(turns[turns.len() - 1].turn_index == indices[indices.len() - 1]);
    }
}

/// What deleting turns from an index on begins with.
#[derive(Debug, Clone, Copy, PartialEq, Eq, Structural)]
pub enum TurnDeletionPlan {
    /// There is neither a turn directory nor a catalog.
    Nothing,
    /// There is no turn directory; the catalog is to be emptied.
    EmptyCatalog,
    /// Turn files are to be deleted, then metadata and catalog follow.
    DeleteFiles,
}

/// Decides what deleting turns begins with.
pub fn plan_turn_deletion(turns_dir_exists: bool, catalog_exists: bool) -> (r: TurnDeletionPlan)
    ensures
        r == (if turns_dir_exists {
            TurnDeletionPlan::DeleteFiles
        } else if catalog_exists {
            TurnDeletionPlan::EmptyCatalog
        } else {
            TurnDeletionPlan::Nothing
        }),
{
    if turns_dir_exists {
        TurnDeletionPlan::DeleteFiles
    } else if catalog_exists {
        TurnDeletionPlan::EmptyCatalog
    } else {
        TurnDeletionPlan::Nothing
    }
}

/// The position of the first entry for this turn id, or -1.
pub open spec fn entry_with_id(entries: Seq<EntryModel>, turn_id: Seq<char>, from: int) -> int
    decreases entries.len() - from,
{
    if from < 0 || from >= entries.len() {
        -1
    } else if entries[from].turn_id == Some(turn_id) {
        from
    } else {
        entry_with_id(entries, turn_id, from + 1)
    }
}

/// The storage index under which a visible turn is cataloged.
pub open spec fn cataloged_index(
    entries: Seq<EntryModel>,
    turn_id: Seq<char>,
    boundary: Option<usize>,
) -> Option<nat> {
    let k = entry_with_id(entries, turn_id, 0);
    if k < 0 {
        None
    } else if boundary matches Some(b) && entries[k].storage_turn_index >= b {
        None
    } else {
        Some(entries[k].storage_turn_index)
    }
}

/// Finds the storage index of a visible turn in the stored catalog.
pub fn locate_visible_turn(
    cached: &Option<SessionTurnCatalog>,
    turn_id: &str,
    boundary: Option<usize>,
) -> (r: Option<usize>)
    ensures
        match *cached {
            Some(catalog) => {
                let index = cataloged_index(catalog@.entries, turn_id@, boundary);
                r is Some == index is Some && (r matches Some(i) ==> index == Some(i as nat))
            },
            None => r is None,
        },
{
    let catalog = match cached {
        Some(catalog) => catalog,
        None => {
            return None;
        },
    };
    let ghost models = catalog@.entries;
    let mut i: usize = 0;
    while i < catalog.entries.len()
        invariant
            i <= catalog.entries@.len(),
            *cached == Some(*catalog),
            models == catalog@.entries,
            models == entry_models(catalog.entries@),
            entry_with_id(models, turn_id@, 0) == entry_with_id(models, turn_id@, i as int),
        decreases catalog.entries@.len() - i,
    {
        assert(models[i as int] == catalog.entries@[i as int]@);
        let found = match &catalog.entries[i].turn_id {
            Some(id) => same_text(id.as_str(), turn_id),
            None => false,
        };
        if found {
            let index: usize = catalog.entries[i].storage_turn_index;
            let hidden: bool = match boundary {
                Some(b) => index >= b,
                None => false,
            };
            return if hidden {
                None
            } else {
                Some(index)
            };
        }
        i += 1;
    }
    None
}

/// The turn that was read for a catalog entry, when it is the one it should be.
pub fn accept_visible_turn(
    turn: Option<DialogTurnData>,
    session_id: &str,
    turn_id: &str,
    storage_turn_index: usize,
) -> (r: Option<DialogTurnData>)
    ensures
        r == match turn {
            Some(t) => if t.session_id@ == session_id@ && t.turn_id@ == turn_id@ && t.turn_index
                == storage_turn_index {
                Some(t)
            } else {
                None
            },
            None => None,
        },
{
    match turn {
        Some(turn) => if same_text(turn.session_id.as_str(), session_id) && same_text(
            turn.turn_id.as_str(),
            turn_id,
        ) && turn.turn_index == storage_turn_index {
            Some(turn)
        } else {
            None
        },
        None => None,
    }
}

/// Whether an observer reads under the writer lease: it goes on without one when
/// the session is in use elsewhere, and no other failure is passed over.
pub fn observer_lease(lock: Result<(), OpenBitFunError>) -> (r: Result<bool, OpenBitFunError>)
    ensures
        match lock {
            Ok(_) => r == Ok::<bool, OpenBitFunError>(true),
            Err(OpenBitFunError::SessionInUse { session_id }) => r == Ok::<bool, OpenBitFunError>(
                false,
            ),
            Err(error) => r == Err::<bool, OpenBitFunError>(error),
        },
{
    match lock {
        Ok(_) => Ok(true),
        Err(error) => match error {
            OpenBitFunError::SessionInUse { session_id: _ } => Ok(false),
            other => Err(other),
        },
    }
}

/// How long each part of loading a session took, in milliseconds.
#[derive(Debug, Clone, Copy, PartialEq, Eq, Structural)]
pub struct SessionLoadDurations {
    pub metadata_ms: u64,
    pub state_ms: u64,
    pub scan_ms: u64,
    pub read_ms: u64,
    pub build_session_ms: u64,
    pub total_ms: u64,
}

/// How a session's turns were loaded.
#[derive(Debug, Clone, Copy, PartialEq, Eq, Structural)]
pub struct SessionTurnLoadTiming {
    pub requested_tail_turn_count: Option<usize>,
    pub loaded_turn_count: usize,
    pub total_turn_count: usize,
    pub turn_file_count: usize,
    pub missing_turn_file_count: usize,
    pub fast_path: bool,
    pub max_turn_read_duration_ms: u64,
    pub durations: SessionLoadDurations,
}

/// The turns that were loaded, out of how many, and whether the metadata alone
/// led to them.
#[derive(Debug)]
pub struct TailTurnsLoad {
    pub turns: Vec<DialogTurnData>,
    pub total_turn_count: usize,
    pub fast_path: bool,
    pub missing_turn_file_count: usize,
    pub max_turn_read_duration_ms: u64,
}

/// The turns that the metadata led to: nothing when no turn was asked for.
pub fn metadata_tail_load(metadata_turn_count: usize, read: Option<ReadTurnPathsResult>) -> (r:
    TailTurnsLoad)
    ensures
        r.total_turn_count == metadata_turn_count,
        r.fast_path,
        match read {
            Some(result) => r.turns == result.turns && r.missing_turn_file_count
                == result.missing_turn_file_count && r.max_turn_read_duration_ms
                == result.max_turn_read_duration_ms,
            None => r.turns@.len() == 0 && r.missing_turn_file_count == 0
                && r.max_turn_read_duration_ms == 0,
        },
{
    match read {
        Some(result) => TailTurnsLoad {
            turns: result.turns,
            total_turn_count: metadata_turn_count,
            fast_path: true,
            missing_turn_file_count: result.missing_turn_file_count,
            max_turn_read_duration_ms: result.max_turn_read_duration_ms,
        },
        None => TailTurnsLoad {
            turns: Vec::new(),
            total_turn_count: metadata_turn_count,
            fast_path: true,
            missing_turn_file_count: 0,
            max_turn_read_duration_ms: 0,
        },
    }
}

/// The turns that a listing of `listed` turn files led to.
pub fn scanned_tail_load(listed: usize, result: ReadTurnPathsResult) -> (r: TailTurnsLoad)
    ensures
        r.turns == result.turns,
        r.total_turn_count == listed,
        !r.fast_path,
        r.missing_turn_file_count == result.missing_turn_file_count,
        r.max_turn_read_duration_ms == result.max_turn_read_duration_ms,
{
    TailTurnsLoad {
        turns: result.turns,
        total_turn_count: listed,
        fast_path: false,
        missing_turn_file_count: result.missing_turn_file_count,
        max_turn_read_duration_ms: result.max_turn_read_duration_ms,
    }
}

/// Records how a session's turns were loaded.
pub fn session_turn_load_timing(
    requested_tail_turn_count: Option<usize>,
    load: &TailTurnsLoad,
    durations: SessionLoadDurations,
) -> (r: SessionTurnLoadTiming)
    ensures
        r == (SessionTurnLoadTiming {
            requested_tail_turn_count,
            loaded_turn_count: load.turns@.len() as usize,
            total_turn_count: load.total_turn_count,
            turn_file_count: load.total_turn_count,
            missing_turn_file_count: load.missing_turn_file_count,
            fast_path: load.fast_path,
            max_turn_read_duration_ms: load.max_turn_read_duration_ms,
            durations,
        }),
        r.loaded_turn_count == load.turns@.len(),
{
    SessionTurnLoadTiming {
        requested_tail_turn_count,
        loaded_turn_count: load.turns.len(),
        total_turn_count: load.total_turn_count,
        turn_file_count: load.total_turn_count,
        missing_turn_file_count: load.missing_turn_file_count,
        fast_path: load.fast_path,
        max_turn_read_duration_ms: load.max_turn_read_duration_ms,
        durations,
    }
}

/// Unless a read failed, every file was either found or missing.
pub proof fn every_file_is_found_or_missing(reads: Seq<TurnRead>)
    requires
        first_failed_read(reads, 0) == reads.len(),
    ensures
        turns_found(reads).len() + files_missing(reads) == reads.len(),
{
    lemma_no_failed_read(reads, 0);
    lemma_found_or_missing(reads);
}

proof fn lemma_no_failed_read(reads: Seq<TurnRead>, from: int)
    requires
        0 <= from <= reads.len(),
        first_failed_read(reads, from) == reads.len(),
    ensures
        forall|i: int| from <= i < reads.len() ==> (#[trigger] reads[i]).result is Ok,
    decreases reads.len() - from,
{
    if from < reads.len() {
        lemma_no_failed_read(reads, from + 1);
    }
}

proof fn lemma_found_or_missing(reads: Seq<TurnRead>)
    requires
        forall|i: int| 0 <= i < reads.len() ==> (#[trigger] reads[i]).result is Ok,
    ensures
        turns_found(reads).len() + files_missing(reads) == reads.len(),
    decreases reads.len(),
{
    if reads.len() > 0 {
        assert(reads[reads.len() - 1].result is Ok);
        lemma_found_or_missing(reads.drop_last());
    }
}

/// What was found, what was missing and what took longest is gathered read by
/// read: a read adds its turn behind those before, or one to the missing files,
/// and its time counts only when it is the longest.
pub proof fn every_read_counts_by_itself(reads: Seq<TurnRead>, read: TurnRead)
    ensures
        ({
            let all = reads.push(read);
            &&& match read.result {
                Ok(Some(turn)) => turns_found(all) == turns_found(reads).push(turn)
                    && files_missing(all) == files_missing(reads),
                Ok(None) => turns_found(all) == turns_found(reads) && files_missing(all)
                    == files_missing(reads) + 1,
                Err(_) => turns_found(all) == turns_found(reads) && files_missing(all)
                    == files_missing(reads),
            }
            &&& longest_read(all) >= read.duration_ms
            &&& longest_read(all) >= longest_read(reads)
            &&& longest_read(all) == read.duration_ms || longest_read(all) == longest_read(reads)
        }),
        turns_found(Seq::empty()).len() == 0,
        files_missing(Seq::empty()) == 0,
        longest_read(Seq::empty()) == 0,
{
    let all = reads.push(read);
    assert(all.drop_last() =~= reads);
    assert(all.last() == read);
}

/// The first failed read failed, and none before it did.
pub proof fn the_first_failed_read_is_the_first(reads: Seq<TurnRead>, from: int)
    requires
        0 <= from <= reads.len(),
    ensures
        from <= first_failed_read(reads, from) <= reads.len(),
        forall|i: int|
            from <= i < first_failed_read(reads, from) ==> (#[trigger] reads[i]).result is Ok,
        first_failed_read(reads, from) < reads.len() ==> reads[first_failed_read(reads, from)].result
            is Err,
    decreases reads.len() - from,
{
    if from < reads.len() && reads[from].result is Ok {
        the_first_failed_read_is_the_first(reads, from + 1);
    }
}

/// The last items begin where as many are left as were asked for, or at the first
/// item.
pub proof fn a_tail_begins_as_far_from_the_end_as_asked(total: int, count: int)
    requires
        0 <= total,
        0 <= count,
    ensures
        0 <= tail_start(total, count) <= total,
        total - tail_start(total, count) <= count,
        total - tail_start(total, count) == count || tail_start(total, count) == 0,
{
}

/// A staged boundary hides the turn that it names and every later one, and no
/// other; each turn is judged by itself, and those that stay keep their order.
pub proof fn turns_are_hidden_from_the_boundary_on(
    a: Seq<DialogTurnData>,
    b: Seq<DialogTurnData>,
    turn: DialogTurnData,
    boundary: Option<usize>,
)
    ensures
        visible_turns(a + b, boundary) == visible_turns(a, boundary) + visible_turns(b, boundary),
        (boundary is None || turn.turn_index < boundary->0) ==> visible_turns(
            seq![turn],
            boundary,
        ) == seq![turn],
        boundary is Some && turn.turn_index >= boundary->0 ==> visible_turns(
            seq![turn],
            boundary,
        ).len() == 0,
    decreases b.len(),
{
    let one = seq![turn];
    assert(one.drop_last() =~= Seq::<DialogTurnData>::empty());
    assert(visible_turns(one.drop_last(), boundary) =~= Seq::<DialogTurnData>::empty());
    assert(Seq::<DialogTurnData>::empty().push(turn) =~= one);
    if b.len() == 0 {
        assert(a + b =~= a);
    } else {
        turns_are_hidden_from_the_boundary_on(a, b.drop_last(), turn, boundary);
        assert((a + b).drop_last() =~= a + b.drop_last());
        assert((a + b).last() == b.last());
    }
    assert(visible_turns(a + b, boundary) =~= visible_turns(a, boundary) + visible_turns(
        b,
        boundary,
    ));
}

/// Which turns go is decided for each by its index alone: those at the index and
/// behind it, in their order.
pub proof fn turns_go_from_the_index_on(
    a: Seq<DialogTurnData>,
    b: Seq<DialogTurnData>,
    turn: DialogTurnData,
    from: nat,
)
    ensures
        indices_from(a + b, from) == indices_from(a, from) + indices_from(b, from),
        turn.turn_index >= from ==> indices_from(seq![turn], from) == seq![turn.turn_index],
        turn.turn_index < from ==> indices_from(seq![turn], from).len() == 0,
    decreases b.len(),
{
    let one = seq![turn];
    assert(one.drop_last() =~= Seq::<DialogTurnData>::empty());
    assert(indices_from(one.drop_last(), from) =~= Seq::<usize>::empty());
    assert(Seq::<usize>::empty().push(turn.turn_index) =~= seq![turn.turn_index]);
    if b.len() == 0 {
        assert(a + b =~= a);
    } else {
        turns_go_from_the_index_on(a, b.drop_last(), turn, from);
        assert((a + b).drop_last() =~= a + b.drop_last());
        assert((a + b).last() == b.last());
    }
    assert(indices_from(a + b, from) =~= indices_from(a, from) + indices_from(b, from));
}

/// A turn is found under the first entry with its id; it is shown only when that
/// entry lies before the staged boundary, and not at all when no entry has its
/// id.
pub proof fn a_turn_is_found_under_its_first_entry(
    entries: Seq<EntryModel>,
    turn_id: Seq<char>,
    boundary: Option<usize>,
    k: int,
)
    ensures
        0 <= k < entries.len() && entries[k].turn_id == Some(turn_id) && (forall|i: int|
            0 <= i < k ==> (#[trigger] entries[i]).turn_id != Some(turn_id)) ==> cataloged_index(
            entries,
            turn_id,
            boundary,
        ) == (if boundary is Some && entries[k].storage_turn_index >= boundary->0 {
            None
        } else {
            Some(entries[k].storage_turn_index)
        }),
        (forall|i: int| 0 <= i < entries.len() ==> (#[trigger] entries[i]).turn_id != Some(turn_id))
            ==> cataloged_index(entries, turn_id, boundary) is None,
{
    lemma_entry_with_id(entries, turn_id, 0);
    let e = entry_with_id(entries, turn_id, 0);
    if 0 <= k < entries.len() && entries[k].turn_id == Some(turn_id) && (forall|i: int|
        0 <= i < k ==> (#[trigger] entries[i]).turn_id != Some(turn_id)) {
        assert(e >= 0);
        assert(e == k) by {
            if e < k {
                assert(entries[e].turn_id == Some(turn_id));
            }
        }
    }
}

proof fn lemma_entry_with_id(entries: Seq<EntryModel>, turn_id: Seq<char>, from: int)
    requires
        0 <= from <= entries.len(),
    ensures
        ({
            let e = entry_with_id(entries, turn_id, from);
            &&& e == -1 || from <= e < entries.len() && entries[e].turn_id == Some(turn_id)
            &&& forall|i: int|
                from <= i < (if e < 0 {
                    entries.len() as int
                } else {
                    e
                }) ==> (#[trigger] entries[i]).turn_id != Some(turn_id)
        }),
    decreases entries.len() - from,
{
    if from < entries.len() && entries[from].turn_id != Some(turn_id) {
        lemma_entry_with_id(entries, turn_id, from + 1);
    }
}

} // verus!

//! The turn catalog of a session: one light entry for each persisted turn, in
//! storage order, with a revision that identifies the sequence of turns.

use vstd::bytes::{spec_u64_to_le_bytes, u64_to_le_bytes};
use vstd::prelude::*;

use crate::capsule::{
    capsule_model, capsule_option, copy_capsule_option, metadata_model, same_capsule_option,
    turn_rail_capsule_preview, SegmentModel, TurnRailCapsulePreview,
};
use crate::digest::{hex_encode, hex_text, is_lower_hex, sha256, sha256_digest};
use crate::text::{bounded_display_text, first_chars, same_text, trim, trimmed};
use crate::turn::{copy_text_option, same_text_option, text_option, DialogTurnData};

verus! {

pub const SESSION_TURN_CATALOG_PREVIEW_CHAR_LIMIT: usize = 320;

/// What navigation knows of one turn. A placeholder has neither a turn id nor a
/// preview.
#[derive(Debug)]
pub struct SessionTurnCatalogEntry {
    pub ordinal: usize,
    pub storage_turn_index: usize,
    pub turn_id: Option<String>,
    pub preview: Option<String>,
    pub preview_truncated: bool,
    pub capsule_preview: Option<TurnRailCapsulePreview>,
}

/// The catalog of a session's turns.
#[derive(Debug)]
pub struct SessionTurnCatalog {
    pub schema_version: u32,
    pub session_id: String,
    pub revision: String,
    pub total_turn_count: usize,
    pub complete: bool,
    pub entries: Vec<SessionTurnCatalogEntry>,
}

/// What a [`SessionTurnCatalogEntry`] holds.
pub struct EntryModel {
    pub ordinal: nat,
    pub storage_turn_index: nat,
    pub turn_id: Option<Seq<char>>,
    pub preview: Option<Seq<char>>,
    pub preview_truncated: bool,
    pub capsule_preview: Option<Seq<SegmentModel>>,
}

/// What a [`SessionTurnCatalog`] holds.
pub struct CatalogModel {
    pub schema_version: u32,
    pub session_id: Seq<char>,
    pub revision: Seq<char>,
    pub total_turn_count: nat,
    pub complete: bool,
    pub entries: Seq<EntryModel>,
}

impl View for SessionTurnCatalogEntry {
    type V = EntryModel;

    open spec fn view(&self) -> EntryModel {
        EntryModel {
            ordinal: self.ordinal as nat,
            storage_turn_index: self.storage_turn_index as nat,
            turn_id: text_option(self.turn_id),
            preview: text_option(self.preview),
            preview_truncated: self.preview_truncated,
            capsule_preview: capsule_option(self.capsule_preview),
        }
    }
}

/// The models of a list of entries.
pub open spec fn entry_models(entries: Seq<SessionTurnCatalogEntry>) -> Seq<EntryModel> {
    Seq::new(entries.len(), |i: int| entries[i]@)
}

impl View for SessionTurnCatalog {
    type V = CatalogModel;

    open spec fn view(&self) -> CatalogModel {
        CatalogModel {
            schema_version: self.schema_version,
            session_id: self.session_id@,
            revision: self.revision@,
            total_turn_count: self.total_turn_count as nat,
            complete: self.complete,
            entries: entry_models(self.entries@),
        }
    }
}

/// The model of an optional catalog.
pub open spec fn catalog_option(o: Option<SessionTurnCatalog>) -> Option<CatalogModel> {
    match o {
        Some(c) => Some(c@),
        None => None,
    }
}

/// The preview of a turn's content.
pub open spec fn preview_of(content: Seq<char>) -> Seq<char> {
    first_chars(trimmed(content), SESSION_TURN_CATALOG_PREVIEW_CHAR_LIMIT as nat)
}

/// The trimmed content, cut at a fixed number of characters, and whether
/// anything was cut.
pub fn truncate_turn_catalog_preview(content: &str) -> (r: (String, bool))
    ensures
        r.0@ == preview_of(content@),
        r.1 == (trimmed(content@).len() > SESSION_TURN_CATALOG_PREVIEW_CHAR_LIMIT),
{
    let whole = trim(content);
    let preview = bounded_display_text(whole.as_str(), SESSION_TURN_CATALOG_PREVIEW_CHAR_LIMIT);
    let truncated: bool = whole.as_str().unicode_len() > SESSION_TURN_CATALOG_PREVIEW_CHAR_LIMIT;
    (preview, truncated)
}

/// The entry of a turn that has been read.
pub open spec fn turn_entry(turn: DialogTurnData, ordinal: nat) -> EntryModel {
    EntryModel {
        ordinal,
        storage_turn_index: turn.turn_index as nat,
        turn_id: Some(turn.turn_id@),
        preview: Some(preview_of(turn.display_content@)),
        preview_truncated: trimmed(turn.display_content@).len()
            > SESSION_TURN_CATALOG_PREVIEW_CHAR_LIMIT,
        capsule_preview: capsule_model(metadata_model(turn.user_message.metadata)),
    }
}

/// The entry of a turn of which only its place is known.
pub open spec fn placeholder_entry(storage_turn_index: nat, ordinal: nat) -> EntryModel {
    EntryModel {
        ordinal,
        storage_turn_index,
        turn_id: None,
        preview: None,
        preview_truncated: false,
        capsule_preview: None,
    }
}

/// Makes the entry of a turn.
pub fn turn_catalog_entry(turn: &DialogTurnData, ordinal: usize) -> (r: SessionTurnCatalogEntry)
    ensures
        r@ == turn_entry(*turn, ordinal as nat),
{
    let (preview, preview_truncated) = truncate_turn_catalog_preview(turn.display_content.as_str());
    SessionTurnCatalogEntry {
        ordinal,
        storage_turn_index: turn.turn_index,
        turn_id: Some(turn.turn_id.clone()),
        preview: Some(preview),
        preview_truncated,
        capsule_preview: turn_rail_capsule_preview(turn),
    }
}

/// Makes a placeholder.
pub fn placeholder_turn_catalog_entry(storage_turn_index: usize, ordinal: usize) -> (r:
    SessionTurnCatalogEntry)
    ensures
        r@ == placeholder_entry(storage_turn_index as nat, ordinal as nat),
{
    SessionTurnCatalogEntry {
        ordinal,
        storage_turn_index,
        turn_id: None,
        preview: None,
        preview_truncated: false,
        capsule_preview: None,
    }
}

/// Whether indices ascend strictly.
pub open spec fn strictly_ascending(s: Seq<usize>) -> bool {
    forall|i: int, j: int| 0 <= i < j < s.len() ==> #[trigger] s[i] < #[trigger] s[j]
}

/// Ascending indices with one more put in its place, unless it is there.
pub open spec fn with_index(s: Seq<usize>, x: usize) -> Seq<usize>
    decreases s.len(),
{
    if s.len() > 0 && s.last() > x {
        with_index(s.drop_last(), x).push(s.last())
    } else if s.len() > 0 && s.last() == x {
        s
    } else {
        s.push(x)
    }
}

/// The distinct indices of `s` in ascending order.
pub open spec fn ascending_indices(s: Seq<usize>) -> Seq<usize>
    decreases s.len(),
{
    if s.len() == 0 {
        Seq::empty()
    } else {
        with_index(ascending_indices(s.drop_last()), s.last())
    }
}

/// Ascending indices with 0, 1, 2 and so on put in, from `candidate` on, until
/// there are `minimum` of them.
pub open spec fn filled_indices(s: Seq<usize>, candidate: nat, minimum: nat) -> Seq<usize>
    decreases usize::MAX + 1 - candidate,
{
    if s.len() >= minimum || candidate > usize::MAX {
        s
    } else {
        filled_indices(with_index(s, candidate as usize), candidate + 1, minimum)
    }
}

/// The distinct indices of `s` in ascending order, filled up from 0 to at least
/// `minimum` of them.
pub open spec fn completed_indices(s: Seq<usize>, minimum: nat) -> Seq<usize> {
    filled_indices(ascending_indices(s), 0, minimum)
}

proof fn lemma_with_index(s: Seq<usize>, x: usize)
    requires
        strictly_ascending(s),
    ensures
        strictly_ascending(with_index(s, x)),
        forall|y: usize| with_index(s, x).contains(y) <==> (s.contains(y) || y == x),
        with_index(s, x).len() == s.len() + (if s.contains(x) {
            0int
        } else {
            1int
        }),
        with_index(s, x).len() > 0,
        with_index(s, x).last() == (if s.len() > 0 && s.last() > x {
            s.last()
        } else {
            x
        }),
    decreases s.len(),
{
    let r = with_index(s, x);
    if s.len() > 0 && s.last() > x {
        let front = s.drop_last();
        assert(strictly_ascending(front));
        lemma_with_index(front, x);
        let inner = with_index(front, x);
        assert(r == inner.push(s.last()));
        assert(inner.last() < s.last());
        assert forall|y: usize| r.contains(y) <==> (s.contains(y) || y == x) by {
            if r.contains(y) {
                let k = choose|k: int| 0 <= k < r.len() && r[k] == y;
                if k < inner.len() {
                    assert(inner[k] == y);
                    assert(inner.contains(y));
                    if front.contains(y) {
                        let m = choose|m: int| 0 <= m < front.len() && front[m] == y;
                        assert(s[m] == y);
                    }
                } else {
                    assert(s[s.len() - 1] == y);
                }
            }
            if s.contains(y) || y == x {
                if s.contains(y) {
                    let m = choose|m: int| 0 <= m < s.len() && s[m] == y;
                    if m < front.len() {
                        assert(front[m] == y);
                        assert(front.contains(y));
                    } else {
                        assert(r[inner.len() as int] == y);
                    }
                }
                if y != s.last() {
                    assert(inner.contains(y));
                    let k = choose|k: int| 0 <= k < inner.len() && inner[k] == y;
                    assert(r[k] == y);
                }
            }
        }
        assert(s.contains(x) == front.contains(x)) by {
            if s.contains(x) {
                let m = choose|m: int| 0 <= m < s.len() && s[m] == x;
                assert(front[m] == x);
            }
            if front.contains(x) {
                let m = choose|m: int| 0 <= m < front.len() && front[m] == x;
                assert(s[m] == x);
            }
        }
    } else if s.len() > 0 && s.last() == x {
        assert(s[s.len() - 1] == x);
    } else {
        assert forall|y: usize| r.contains(y) <==> (s.contains(y) || y == x) by {
            if s.contains(y) {
                let m = choose|m: int| 0 <= m < s.len() && s[m] == y;
                assert(r[m] == y);
            }
            assert(r[s.len() as int] == x);
        }
        assert(!s.contains(x)) by {
            if s.contains(x) {
                let m = choose|m: int| 0 <= m < s.len() && s[m] == x;
                assert(s[m] <= s.last());
            }
        }
    }
}

/// The distinct indices of a list are those of the list, in strictly ascending
/// order.
pub proof fn ascending_indices_are_the_given_ones(s: Seq<usize>)
    ensures
        strictly_ascending(ascending_indices(s)),
        forall|y: usize| ascending_indices(s).contains(y) <==> s.contains(y),
    decreases s.len(),
{
    if s.len() > 0 {
        let front = s.drop_last();
        ascending_indices_are_the_given_ones(front);
        lemma_with_index(ascending_indices(front), s.last());
        assert forall|y: usize| s.contains(y) <==> (front.contains(y) || y == s.last()) by {
            if s.contains(y) {
                let m = choose|m: int| 0 <= m < s.len() && s[m] == y;
                if m < front.len() {
                    assert(front[m] == y);
                }
            }
            if front.contains(y) {
                let m = choose|m: int| 0 <= m < front.len() && front[m] == y;
                assert(s[m] == y);
            }
            assert(s[s.len() - 1] == s.last());
        }
    }
}

/// Putting the next missing number into indices that begin with all smaller
/// ones.
proof fn lemma_fill_step(s: Seq<usize>, candidate: usize)
    requires
        strictly_ascending(s),
        s.len() >= candidate,
        forall|j: int| 0 <= j < candidate ==> #[trigger] s[j] == j,
    ensures
        with_index(s, candidate).len() > candidate,
        forall|j: int| 0 <= j <= candidate ==> #[trigger] with_index(s, candidate)[j] == j,
{
    lemma_with_index(s, candidate);
    let r = with_index(s, candidate);
    assert(r.contains(candidate));
    assert forall|x: usize| x <= candidate implies #[trigger] r.contains(x) by {
        if x < candidate {
            assert(s[x as int] == x);
            assert(s.contains(x));
        }
    }
    lemma_prefix_of_contained(r, candidate + 1);
}

/// Strictly ascending indices that contain all numbers below `n` begin with
/// them.
proof fn lemma_prefix_of_contained(r: Seq<usize>, n: int)
    requires
        strictly_ascending(r),
        0 <= n <= usize::MAX + 1,
        forall|x: usize| x < n ==> #[trigger] r.contains(x),
    ensures
        r.len() >= n,
        forall|j: int| 0 <= j < n ==> #[trigger] r[j] == j,
    decreases n,
{
    if n > 0 {
        lemma_prefix_of_contained(r, n - 1);
        assert(r.contains((n - 1) as usize));
        let k = choose|k: int| 0 <= k < r.len() && r[k] == (n - 1) as usize;
        if k < n - 1 {
            assert(r[k] == k);
        } else if k > n - 1 {
            lemma_ascending_at_least(r, n - 1);
            assert(r[n - 1] >= n - 1);
            assert(r[n - 1] < r[k]);
        }
    }
}

/// Strictly ascending indices are each at least their position.
proof fn lemma_ascending_at_least(r: Seq<usize>, i: int)
    requires
        strictly_ascending(r),
        0 <= i < r.len(),
    ensures
        r[i] >= i,
    decreases i,
{
    if i > 0 {
        lemma_ascending_at_least(r, i - 1);
        assert(r[i - 1] < r[i]);
    }
}

proof fn lemma_filled_indices(s: Seq<usize>, candidate: nat, minimum: nat)
    requires
        strictly_ascending(s),
        minimum <= usize::MAX,
        candidate <= usize::MAX,
        s.len() >= candidate,
        forall|j: int| 0 <= j < candidate ==> #[trigger] s[j] == j,
    ensures
        strictly_ascending(filled_indices(s, candidate, minimum)),
        forall|y: usize| s.contains(y) ==> filled_indices(s, candidate, minimum).contains(y),
        filled_indices(s, candidate, minimum).len() == (if s.len() >= minimum {
            s.len()
        } else {
            minimum
        }),
    decreases usize::MAX + 1 - candidate,
{
    if s.len() < minimum {
        let next = with_index(s, candidate as usize);
        lemma_with_index(s, candidate as usize);
        lemma_fill_step(s, candidate as usize);
        lemma_filled_indices(next, candidate + 1, minimum);
    }
}

/// Completed indices ascend strictly, hold every given index, and are as many
/// as asked for or as there are distinct ones, whichever is more.
pub proof fn completed_indices_cover(s: Seq<usize>, minimum: nat)
    requires
        minimum <= usize::MAX,
    ensures
        strictly_ascending(completed_indices(s, minimum)),
        forall|y: usize| s.contains(y) ==> completed_indices(s, minimum).contains(y),
        completed_indices(s, minimum).len() == (if ascending_indices(s).len() >= minimum {
            ascending_indices(s).len()
        } else {
            minimum
        }),
{
    ascending_indices_are_the_given_ones(s);
    lemma_filled_indices(ascending_indices(s), 0, minimum);
}

proof fn lemma_filled_is_minimal(s: Seq<usize>, candidate: nat, minimum: nat, added: usize)
    requires
        strictly_ascending(s),
        minimum <= usize::MAX,
        candidate <= usize::MAX,
        s.len() >= candidate,
        forall|j: int| 0 <= j < candidate ==> #[trigger] s[j] == j,
        filled_indices(s, candidate, minimum).contains(added),
        !s.contains(added),
    ensures
        filled_indices(s, candidate, minimum).len() == minimum,
        forall|y: usize| y <= added ==> #[trigger] filled_indices(s, candidate, minimum).contains(y),
    decreases usize::MAX + 1 - candidate,
{
    assert(s.len() < minimum);
    let c = candidate as usize;
    let next = with_index(s, c);
    let filled = filled_indices(s, candidate, minimum);
    lemma_with_index(s, c);
    lemma_fill_step(s, c);
    lemma_filled_indices(next, candidate + 1, minimum);
    assert(filled == filled_indices(next, candidate + 1, minimum));
    if next.contains(added) {
        assert(added == c);
        assert forall|y: usize| y <= added implies #[trigger] filled.contains(y) by {
            assert(next[y as int] == y);
            assert(next.contains(y));
        }
        lemma_filled_indices(s, candidate, minimum);
    } else {
        lemma_filled_is_minimal(next, candidate + 1, minimum, added);
    }
}

/// Completing adds no more than it must: an index that was not given is there
/// only when the completed ones are just as many as asked for, and then so is
/// every smaller index.
pub proof fn completed_indices_add_the_smallest(s: Seq<usize>, minimum: nat, added: usize)
    requires
        minimum <= usize::MAX,
        completed_indices(s, minimum).contains(added),
        !s.contains(added),
    ensures
        completed_indices(s, minimum).len() == minimum,
        ascending_indices(s).len() < minimum,
        forall|y: usize| y <= added ==> #[trigger] completed_indices(s, minimum).contains(y),
{
    ascending_indices_are_the_given_ones(s);
    assert(!ascending_indices(s).contains(added));
    lemma_filled_is_minimal(ascending_indices(s), 0, minimum, added);
}

/// Strictly ascending indices that are enough already are left as they are.
pub proof fn completed_indices_keep_ascending(s: Seq<usize>, minimum: nat)
    requires
        strictly_ascending(s),
        minimum <= s.len(),
    ensures
        completed_indices(s, minimum) == s,
{
    lemma_ascending_fixed(s);
}

proof fn lemma_ascending_fixed(s: Seq<usize>)
    requires
        strictly_ascending(s),
    ensures
        ascending_indices(s) == s,
    decreases s.len(),
{
    if s.len() > 0 {
        let front = s.drop_last();
        assert(strictly_ascending(front));
        lemma_ascending_fixed(front);
        if front.len() > 0 {
            assert(front.last() == s[s.len() - 2]);
        }
        assert(front.push(s.last()) =~= s);
    } else {
        assert(s =~= Seq::<usize>::empty());
    }
}

/// Puts an index into ascending ones.
fn put_index(s: &mut Vec<usize>, x: usize)
    ensures
        final(s)@ == with_index(old(s)@, x),
{
    let ghost before = s@;
    let mut at: usize = s.len();
    assert(before.take(at as int) =~= before);
    assert(before.skip(at as int) =~= Seq::<usize>::empty());
    assert(with_index(before, x) =~= with_index(before.take(at as int), x) + before.skip(
        at as int,
    ));
    while at > 0 && s[at - 1] > x
        invariant
            s@ == before,
            at <= s@.len(),
            with_index(before, x) == with_index(before.take(at as int), x) + before.skip(at as int),
        decreases at,
    {
        let ghost front = before.take(at as int);
        assert(front.drop_last() =~= before.take(at - 1));
        assert(front.last() == before[at - 1]);
        assert(with_index(before.take(at - 1), x).push(before[at - 1]) + before.skip(at as int)
            =~= with_index(before.take(at - 1), x) + before.skip(at - 1));
        at -= 1;
    }
    let ghost front = before.take(at as int);
    if at > 0 && s[at - 1] == x {
        assert(front.last() == before[at - 1]);
        assert(front + before.skip(at as int) =~= before);
    } else {
        s.insert(at, x);
        assert(s@ =~= front.push(x) + before.skip(at as int));
    }
}

/// The distinct indices in ascending order, filled up from 0 until there are at
/// least `minimum_count` of them.
pub fn complete_turn_catalog_indices(indices: &Vec<usize>, minimum_count: usize) -> (r: Vec<usize>)
    ensures
        r@ == completed_indices(indices@, minimum_count as nat),
{
    let mut all: Vec<usize> = Vec::new();
    let mut i: usize = 0;
    while i < indices.len()
        invariant
            i <= indices@.len(),
            all@ == ascending_indices(indices@.take(i as int)),
        decreases indices@.len() - i,
    {
        assert(indices@.take(i + 1).drop_last() =~= indices@.take(i as int));
        put_index(&mut all, indices[i]);
        i += 1;
    }
    assert(indices@.take(i as int) =~= indices@);
    proof {
        ascending_indices_are_the_given_ones(indices@);
    }
    let mut candidate: usize = 0;
    while all.len() < minimum_count
        invariant
            strictly_ascending(all@),
            candidate <= all@.len(),
            forall|j: int| 0 <= j < candidate ==> #[trigger] all@[j] == j,
            completed_indices(indices@, minimum_count as nat) == filled_indices(
                all@,
                candidate as nat,
                minimum_count as nat,
            ),
        decreases usize::MAX - candidate,
    {
        proof {
            lemma_with_index(all@, candidate);
            lemma_fill_step(all@, candidate);
        }
        put_index(&mut all, candidate);
        candidate += 1;
    }
    all
}

/// The bytes that a revision is taken of: the number of entries, then each
/// entry's ordinal and storage index, as 64-bit little-endian numbers.
pub open spec fn revision_bytes(entries: Seq<EntryModel>) -> Seq<u8> {
    spec_u64_to_le_bytes(entries.len() as u64) + entry_bytes(entries)
}

/// The bytes of the entries in order.
pub open spec fn entry_bytes(entries: Seq<EntryModel>) -> Seq<u8>
    decreases entries.len(),
{
    if entries.len() == 0 {
        Seq::empty()
    } else {
        entry_bytes(entries.drop_last()) + spec_u64_to_le_bytes(entries.last().ordinal as u64)
            + spec_u64_to_le_bytes(entries.last().storage_turn_index as u64)
    }
}

/// The revision of a list of entries.
pub open spec fn revision_of(entries: Seq<EntryModel>) -> Seq<char> {
    "v2-"@ + hex_text(sha256(revision_bytes(entries)).take(8))
}

/// Whether a text has the form of a revision: `v2-` and sixteen lower-case
/// hexadecimal digits.
pub open spec fn is_revision(s: Seq<char>) -> bool {
    &&& s.len() == 19
    &&& s.take(3) == "v2-"@
    &&& forall|i: int| 3 <= i < 19 ==> is_lower_hex(#[trigger] s[i])
}

/// Computes the revision of a list of entries.
pub fn turn_catalog_revision(entries: &Vec<SessionTurnCatalogEntry>) -> (r: String)
    ensures
        r@ == revision_of(entry_models(entries@)),
        is_revision(r@),
{
    let ghost models = entry_models(entries@);
    let mut bytes: Vec<u8> = u64_to_le_bytes(entries.len() as u64);
    let mut i: usize = 0;
    assert(models.take(0) =~= Seq::<EntryModel>::empty());
    assert(bytes@ + entry_bytes(models.take(0)) =~= bytes@);
    while i < entries.len()
        invariant
            i <= entries@.len(),
            models == entry_models(entries@),
            bytes@ == spec_u64_to_le_bytes(models.len() as u64) + entry_bytes(
                models.take(i as int),
            ),
        decreases entries@.len() - i,
    {
        let ghost before = bytes@;
        let mut ordinal: Vec<u8> = u64_to_le_bytes(entries[i].ordinal as u64);
        let mut index: Vec<u8> = u64_to_le_bytes(entries[i].storage_turn_index as u64);
        let ghost ordinal_bytes = ordinal@;
        let ghost index_bytes = index@;
        bytes.append(&mut ordinal);
        bytes.append(&mut index);
        assert(models.take(i + 1).drop_last() =~= models.take(i as int));
        assert(models.take(i + 1).last() == models[i as int]);
        assert(bytes@ =~= spec_u64_to_le_bytes(models.len() as u64) + entry_bytes(
            models.take(i + 1),
        ));
        i += 1;
    }
    assert(models.take(i as int) =~= models);
    let mut digest = sha256_digest(&bytes);
    digest.truncate(8);
    assert(digest@ =~= sha256(bytes@).take(8));
    let mut r: String = "v2-".to_owned();
    r.append(hex_encode(&digest).as_str());
    proof {
        reveal_strlit("v2-");
        assert(r@.take(3) =~= "v2-"@);
        assert forall|i: int| 3 <= i < 19 implies is_lower_hex(#[trigger] r@[i]) by {
            assert(r@[i] == hex_text(digest@)[i - 3]);
        }
    }
    r
}

/// A revision speaks of places only: entries with the same ordinals and storage
/// indices have the same revision, whatever else is known of the turns.
pub proof fn revision_ignores_previews(a: Seq<EntryModel>, b: Seq<EntryModel>)
    requires
        a.len() == b.len(),
        forall|i: int|
            0 <= i < a.len() ==> (#[trigger] a[i]).ordinal == b[i].ordinal
                && a[i].storage_turn_index == b[i].storage_turn_index,
    ensures
        revision_of(a) == revision_of(b),
{
    lemma_same_entry_bytes(a, b);
}

proof fn lemma_same_entry_bytes(a: Seq<EntryModel>, b: Seq<EntryModel>)
    requires
        a.len() == b.len(),
        forall|i: int|
            0 <= i < a.len() ==> (#[trigger] a[i]).ordinal == b[i].ordinal
                && a[i].storage_turn_index == b[i].storage_turn_index,
    ensures
        entry_bytes(a) == entry_bytes(b),
    decreases a.len(),
{
    if a.len() > 0 {
        assert forall|i: int| 0 <= i < a.drop_last().len() implies (
        #[trigger] a.drop_last()[i]).ordinal == b.drop_last()[i].ordinal
            && a.drop_last()[i].storage_turn_index == b.drop_last()[i].storage_turn_index by {
            assert(a.drop_last()[i] == a[i] && b.drop_last()[i] == b[i]);
        }
        lemma_same_entry_bytes(a.drop_last(), b.drop_last());
        assert(a.last() == a[a.len() - 1] && b.last() == b[b.len() - 1]);
    }
}

/// Entries in storage order with one more put behind those that do not come
/// after it.
pub open spec fn with_entry(sorted: Seq<EntryModel>, entry: EntryModel) -> Seq<EntryModel>
    decreases sorted.len(),
{
    if sorted.len() > 0 && sorted.last().storage_turn_index > entry.storage_turn_index {
        with_entry(sorted.drop_last(), entry).push(sorted.last())
    } else {
        sorted.push(entry)
    }
}

/// Entries in storage order; entries with one storage index stay in their given
/// order.
pub open spec fn in_storage_order(entries: Seq<EntryModel>) -> Seq<EntryModel>
    decreases entries.len(),
{
    if entries.len() == 0 {
        Seq::empty()
    } else {
        with_entry(in_storage_order(entries.drop_last()), entries.last())
    }
}

/// Entries with their positions as ordinals.
pub open spec fn numbered(entries: Seq<EntryModel>) -> Seq<EntryModel> {
    Seq::new(entries.len(), |i: int| EntryModel { ordinal: i as nat, ..entries[i] })
}

/// Whether every entry has a turn id and a preview.
pub open spec fn all_known(entries: Seq<EntryModel>) -> bool {
    forall|i: int|
        0 <= i < entries.len() ==> (#[trigger] entries[i]).turn_id is Some
            && entries[i].preview is Some
}

/// The catalog made of these entries.
pub open spec fn catalog_of(
    schema_version: u32,
    session_id: Seq<char>,
    entries: Seq<EntryModel>,
) -> CatalogModel {
    let ordered = numbered(in_storage_order(entries));
    CatalogModel {
        schema_version,
        session_id,
        revision: revision_of(ordered),
        total_turn_count: ordered.len(),
        complete: all_known(ordered),
        entries: ordered,
    }
}

/// Puts an entry into entries in storage order.
fn put_entry(sorted: &mut Vec<SessionTurnCatalogEntry>, entry: SessionTurnCatalogEntry)
    ensures
        entry_models(final(sorted)@) == with_entry(entry_models(old(sorted)@), entry@),
        final(sorted)@.len() == old(sorted)@.len() + 1,
{
    let ghost before = entry_models(sorted@);
    let ghost e = entry@;
    let mut at: usize = sorted.len();
    assert(before.take(at as int) =~= before);
    assert(with_entry(before, e) =~= with_entry(before.take(at as int), e) + before.skip(
        at as int,
    ));
    while at > 0 && sorted[at - 1].storage_turn_index > entry.storage_turn_index
        invariant
            at <= sorted@.len(),
            before == entry_models(sorted@),
            e == entry@,
            with_entry(before, e) == with_entry(before.take(at as int), e) + before.skip(at as int),
        decreases at,
    {
        let ghost front = before.take(at as int);
        assert(front.drop_last() =~= before.take(at - 1));
        assert(front.last() == before[at - 1]);
        assert(with_entry(before.take(at - 1), e).push(before[at - 1]) + before.skip(at as int)
            =~= with_entry(before.take(at - 1), e) + before.skip(at - 1));
        at -= 1;
    }
    let ghost front = before.take(at as int);
    assert(at > 0 ==> front.last() == before[at - 1]);
    sorted.insert(at, entry);
    assert(entry_models(sorted@) =~= front.push(e) + before.skip(at as int));
}

/// Makes a catalog: entries in storage order, numbered from 0, with their
/// revision and whether all of them are known.
pub fn build_turn_catalog(
    schema_version: u32,
    session_id: &str,
    entries: Vec<SessionTurnCatalogEntry>,
) -> (r: SessionTurnCatalog)
    ensures
        r@ == catalog_of(schema_version, session_id@, entry_models(entries@)),
        is_revision(r.revision@),
{
    let ghost given = entry_models(entries@);
    let ghost given_entries = entries@;
    let mut sorted: Vec<SessionTurnCatalogEntry> = Vec::new();
    assert(given.take(0) =~= Seq::<EntryModel>::empty());
    assert(entry_models(sorted@) =~= Seq::<EntryModel>::empty());
    for entry in it: entries
        invariant
            it.seq() == given_entries,
            given == entry_models(given_entries),
            entry_models(sorted@) == in_storage_order(given.take(it.index() as int)),
            sorted@.len() == it.index(),
    {
        let ghost at = it.index() as int;
        assert(given.take(at + 1).drop_last() =~= given.take(at));
        assert(given.take(at + 1).last() == given[at]);
        assert(entry@ == given[at]);
        put_entry(&mut sorted, entry);
    }
    assert(given.take(given.len() as int) =~= given);
    let ghost ordered = in_storage_order(given);
    let mut complete: bool = true;
    let n: usize = sorted.len();
    let mut i: usize = 0;
    while i < n
        invariant
            i <= n == sorted@.len() == ordered.len(),
            forall|j: int|
                0 <= j < i ==> (#[trigger] sorted@[j])@ == (EntryModel {
                    ordinal: j as nat,
                    ..ordered[j]
                }),
            forall|j: int| i <= j < n ==> (#[trigger] sorted@[j])@ == ordered[j],
            complete == (forall|j: int|
                0 <= j < i ==> (#[trigger] ordered[j]).turn_id is Some && ordered[j].preview
                    is Some),
        decreases n - i,
    {
        assert(sorted@[i as int]@ == ordered[i as int]);
        if sorted[i].turn_id.is_none() || sorted[i].preview.is_none() {
            complete = false;
        }
        sorted[i].ordinal = i;
        i += 1;
    }
    assert(entry_models(sorted@) =~= numbered(ordered));
    assert(complete == all_known(numbered(ordered))) by {
        if complete {
            assert forall|j: int| 0 <= j < n implies (#[trigger] numbered(ordered)[j]).turn_id
                is Some && numbered(ordered)[j].preview is Some by {
                assert(ordered[j].turn_id is Some);
            }
        } else {
            let j = choose|j: int|
                0 <= j < n && !((#[trigger] ordered[j]).turn_id is Some && ordered[j].preview
                    is Some);
            assert(numbered(ordered)[j].turn_id == ordered[j].turn_id);
        }
    }
    SessionTurnCatalog {
        schema_version,
        session_id: session_id.to_owned(),
        revision: turn_catalog_revision(&sorted),
        total_turn_count: sorted.len(),
        complete,
        entries: sorted,
    }
}

/// Whether entries are numbered from 0 and ascend strictly by storage index.
pub open spec fn entries_ordered(entries: Seq<EntryModel>) -> bool {
    &&& forall|i: int| 0 <= i < entries.len() ==> (#[trigger] entries[i]).ordinal == i
    &&& forall|i: int, j: int|
        0 <= i < j < entries.len() ==> (#[trigger] entries[i]).storage_turn_index < (
        #[trigger] entries[j]).storage_turn_index
}

/// Whether a catalog agrees with its own entries.
pub open spec fn well_formed(catalog: CatalogModel) -> bool {
    &&& catalog.total_turn_count == catalog.entries.len()
    &&& catalog.complete == all_known(catalog.entries)
    &&& entries_ordered(catalog.entries)
    &&& catalog.revision == revision_of(catalog.entries)
}

/// Decides whether a catalog agrees with its own entries.
pub fn is_well_formed_turn_catalog(catalog: &SessionTurnCatalog) -> (r: bool)
    ensures
        r == well_formed(catalog@),
{
    let ghost models = catalog@.entries;
    let entries = &catalog.entries;
    let mut ordered: bool = true;
    let mut known: bool = true;
    let mut i: usize = 0;
    while i < entries.len()
        invariant
            i <= entries@.len(),
            models == entry_models(entries@),
            ordered == ((forall|j: int| 0 <= j < i ==> (#[trigger] models[j]).ordinal == j) && (
            forall|j: int, k: int|
                0 <= j < k < i ==> (#[trigger] models[j]).storage_turn_index < (
                #[trigger] models[k]).storage_turn_index)),
            known == (forall|j: int|
                0 <= j < i ==> (#[trigger] models[j]).turn_id is Some && models[j].preview
                    is Some),
        decreases entries@.len() - i,
    {
        let ghost m = models[i as int];
        assert(m == entries@[i as int]@);
        assert(i > 0 ==> models[i - 1] == entries@[i - 1]@);
        if entries[i].ordinal != i || (i > 0 && entries[i - 1].storage_turn_index
            >= entries[i].storage_turn_index) {
            ordered = false;
        }
        if entries[i].turn_id.is_none() || entries[i].preview.is_none() {
            known = false;
        }
        i += 1;
    }
    catalog.total_turn_count == entries.len() && catalog.complete == known && ordered && same_text(
        catalog.revision.as_str(),
        turn_catalog_revision(entries).as_str(),
    )
}

/// Whether entries ascend by storage index, equal ones allowed.
pub open spec fn storage_ascending(entries: Seq<EntryModel>) -> bool {
    forall|i: int, j: int|
        0 <= i < j < entries.len() ==> (#[trigger] entries[i]).storage_turn_index <= (
        #[trigger] entries[j]).storage_turn_index
}

/// Whether no two entries have one storage index.
pub open spec fn storage_distinct(entries: Seq<EntryModel>) -> bool {
    forall|i: int, j: int|
        0 <= i < j < entries.len() ==> (#[trigger] entries[i]).storage_turn_index != (
        #[trigger] entries[j]).storage_turn_index
}

proof fn lemma_with_entry(sorted: Seq<EntryModel>, entry: EntryModel)
    requires
        storage_ascending(sorted),
    ensures
        storage_ascending(with_entry(sorted, entry)),
        with_entry(sorted, entry).len() == sorted.len() + 1,
        with_entry(sorted, entry).to_multiset() == sorted.to_multiset().insert(entry),
        with_entry(sorted, entry).last().storage_turn_index == (if sorted.len() > 0
            && sorted.last().storage_turn_index > entry.storage_turn_index {
            sorted.last().storage_turn_index
        } else {
            entry.storage_turn_index
        }),
    decreases sorted.len(),
{
    broadcast use vstd::seq_lib::group_to_multiset_ensures;

    if sorted.len() > 0 && sorted.last().storage_turn_index > entry.storage_turn_index {
        let front = sorted.drop_last();
        assert(storage_ascending(front));
        lemma_with_entry(front, entry);
        let inner = with_entry(front, entry);
        assert(inner.last().storage_turn_index <= sorted.last().storage_turn_index) by {
            if front.len() > 0 {
                assert(front.last() == sorted[sorted.len() - 2]);
            }
        }
        assert forall|i: int, j: int|
            0 <= i < j < inner.push(sorted.last()).len() implies (#[trigger] inner.push(
            sorted.last(),
        )[i]).storage_turn_index <= (#[trigger] inner.push(
            sorted.last(),
        )[j]).storage_turn_index by {
            if j == inner.len() {
                assert(inner[i].storage_turn_index <= inner.last().storage_turn_index);
            }
        }
        assert(front.push(sorted.last()) =~= sorted);
        assert(inner.push(sorted.last()).to_multiset() =~= sorted.to_multiset().insert(entry));
    } else {
        let r = sorted.push(entry);
        assert forall|i: int, j: int| 0 <= i < j < r.len() implies (
        #[trigger] r[i]).storage_turn_index <= (#[trigger] r[j]).storage_turn_index by {
            if j == sorted.len() {
                assert(sorted[i].storage_turn_index <= sorted.last().storage_turn_index);
            }
        }
    }
}

/// Storage order holds the same entries, ascending by storage index.
pub proof fn storage_order_is_a_sort(entries: Seq<EntryModel>)
    ensures
        storage_ascending(in_storage_order(entries)),
        in_storage_order(entries).len() == entries.len(),
        in_storage_order(entries).to_multiset() == entries.to_multiset(),
    decreases entries.len(),
{
    broadcast use vstd::seq_lib::group_to_multiset_ensures;

    if entries.len() > 0 {
        storage_order_is_a_sort(entries.drop_last());
        lemma_with_entry(in_storage_order(entries.drop_last()), entries.last());
        assert(entries.drop_last().push(entries.last()) =~= entries);
    } else {
        assert(entries =~= Seq::<EntryModel>::empty());
    }
}

/// The entries with one storage index, in order.
pub open spec fn entries_at(entries: Seq<EntryModel>, index: nat) -> Seq<EntryModel>
    decreases entries.len(),
{
    if entries.len() == 0 {
        Seq::empty()
    } else if entries.last().storage_turn_index == index {
        entries_at(entries.drop_last(), index).push(entries.last())
    } else {
        entries_at(entries.drop_last(), index)
    }
}

proof fn lemma_with_entry_at(sorted: Seq<EntryModel>, entry: EntryModel, index: nat)
    requires
        storage_ascending(sorted),
    ensures
        entries_at(with_entry(sorted, entry), index) == (if entry.storage_turn_index == index {
            entries_at(sorted, index).push(entry)
        } else {
            entries_at(sorted, index)
        }),
    decreases sorted.len(),
{
    if sorted.len() > 0 && sorted.last().storage_turn_index > entry.storage_turn_index {
        let front = sorted.drop_last();
        assert(storage_ascending(front));
        lemma_with_entry_at(front, entry, index);
        let inner = with_entry(front, entry);
        let r = inner.push(sorted.last());
        assert(r.drop_last() =~= inner);
        assert(r.last() == sorted.last());
    } else {
        let r = sorted.push(entry);
        assert(r.drop_last() =~= sorted);
        assert(r.last() == entry);
    }
}

/// Putting entries in storage order is stable: entries with one storage index
/// keep their order.
pub proof fn storage_order_is_stable(entries: Seq<EntryModel>, index: nat)
    ensures
        entries_at(in_storage_order(entries), index) == entries_at(entries, index),
    decreases entries.len(),
{
    if entries.len() > 0 {
        storage_order_is_stable(entries.drop_last(), index);
        storage_order_is_a_sort(entries.drop_last());
        lemma_with_entry_at(in_storage_order(entries.drop_last()), entries.last(), index);
    }
}

/// Entries that ascend already are left in their order.
pub proof fn storage_order_keeps_ascending(entries: Seq<EntryModel>)
    requires
        storage_ascending(entries),
    ensures
        in_storage_order(entries) == entries,
    decreases entries.len(),
{
    if entries.len() > 0 {
        let front = entries.drop_last();
        assert(storage_ascending(front));
        storage_order_keeps_ascending(front);
        if front.len() > 0 {
            assert(front.last() == entries[entries.len() - 2]);
        }
        assert(front.push(entries.last()) =~= entries);
    } else {
        assert(entries =~= Seq::<EntryModel>::empty());
    }
}

proof fn lemma_sorted_distinct(entries: Seq<EntryModel>)
    requires
        storage_distinct(entries),
    ensures
        storage_distinct(in_storage_order(entries)),
    decreases entries.len(),
{
    if entries.len() > 0 {
        let front = entries.drop_last();
        assert(storage_distinct(front));
        lemma_sorted_distinct(front);
        storage_order_is_a_sort(front);
        let sorted = in_storage_order(front);
        let last = entries.last();
        assert forall|i: int| 0 <= i < sorted.len() implies (
        #[trigger] sorted[i]).storage_turn_index != last.storage_turn_index by {
            broadcast use vstd::seq_lib::group_to_multiset_ensures;

            assert(sorted.to_multiset().count(sorted[i]) > 0) by {
                assert(sorted.contains(sorted[i]));
            }
            assert(front.contains(sorted[i]));
            let k = choose|k: int| 0 <= k < front.len() && front[k] == sorted[i];
            assert(entries[k].storage_turn_index != entries[entries.len()
                - 1].storage_turn_index);
        }
        lemma_with_entry_distinct(sorted, last);
    }
}

proof fn lemma_with_entry_distinct(sorted: Seq<EntryModel>, entry: EntryModel)
    requires
        storage_distinct(sorted),
        forall|i: int|
            0 <= i < sorted.len() ==> (#[trigger] sorted[i]).storage_turn_index
                != entry.storage_turn_index,
    ensures
        storage_distinct(with_entry(sorted, entry)),
        forall|i: int|
            0 <= i < with_entry(sorted, entry).len() ==> #[trigger] with_entry(sorted, entry)[i]
                == entry || sorted.contains(with_entry(sorted, entry)[i]),
    decreases sorted.len(),
{
    let r = with_entry(sorted, entry);
    if sorted.len() > 0 && sorted.last().storage_turn_index > entry.storage_turn_index {
        let front = sorted.drop_last();
        assert forall|i: int| 0 <= i < front.len() implies (
        #[trigger] front[i]).storage_turn_index != entry.storage_turn_index by {
            assert(front[i] == sorted[i]);
        }
        lemma_with_entry_distinct(front, entry);
        let inner = with_entry(front, entry);
        assert forall|i: int| 0 <= i < inner.len() implies (
        #[trigger] inner[i]).storage_turn_index != sorted.last().storage_turn_index && (inner[i]
            == entry || sorted.contains(inner[i])) by {
            if inner[i] != entry {
                let k = choose|k: int| 0 <= k < front.len() && front[k] == inner[i];
                assert(sorted[k] == inner[i]);
                assert(sorted[k].storage_turn_index != sorted[sorted.len()
                    - 1].storage_turn_index);
            }
        }
        assert forall|i: int| 0 <= i < r.len() implies #[trigger] r[i] == entry
            || sorted.contains(r[i]) by {
            if i < inner.len() {
                assert(r[i] == inner[i]);
            } else {
                assert(r[i] == sorted[sorted.len() - 1]);
            }
        }
    } else {
        assert forall|i: int| 0 <= i < r.len() implies #[trigger] r[i] == entry
            || sorted.contains(r[i]) by {
            if i < sorted.len() {
                assert(r[i] == sorted[i]);
            }
        }
    }
}

/// A catalog made of entries with distinct storage indices is well formed.
pub proof fn built_catalog_is_well_formed(
    schema_version: u32,
    session_id: Seq<char>,
    entries: Seq<EntryModel>,
)
    requires
        storage_distinct(entries),
    ensures
        well_formed(catalog_of(schema_version, session_id, entries)),
{
    storage_order_is_a_sort(entries);
    lemma_sorted_distinct(entries);
    let sorted = in_storage_order(entries);
    let r = numbered(sorted);
    assert forall|i: int, j: int| 0 <= i < j < r.len() implies (
    #[trigger] r[i]).storage_turn_index < (#[trigger] r[j]).storage_turn_index by {
        assert(sorted[i].storage_turn_index <= sorted[j].storage_turn_index);
        assert(sorted[i].storage_turn_index != sorted[j].storage_turn_index);
    }
}

/// Entries with distinct storage indices hold each index once at most.
proof fn lemma_at_most_one(entries: Seq<EntryModel>, index: nat)
    requires
        storage_distinct(entries),
    ensures
        entries_at(entries, index).len() <= 1,
        forall|i: int|
            0 <= i < entries.len() && (#[trigger] entries[i]).storage_turn_index == index
                ==> entries_at(entries, index).len() == 1,
        (forall|i: int|
            0 <= i < entries.len() ==> (#[trigger] entries[i]).storage_turn_index != index)
            ==> entries_at(entries, index).len() == 0,
    decreases entries.len(),
{
    if entries.len() > 0 {
        let front = entries.drop_last();
        assert(storage_distinct(front));
        lemma_at_most_one(front, index);
        assert forall|i: int| 0 <= i < entries.len() - 1 implies front[i] == #[trigger] entries[i] by {}
        if entries.last().storage_turn_index == index {
            assert forall|i: int| 0 <= i < front.len() implies (
            #[trigger] front[i]).storage_turn_index != index by {
                assert(entries[i].storage_turn_index != entries[entries.len()
                    - 1].storage_turn_index);
            }
        }
    }
}

/// Two entries with one storage index are both among those at this index.
proof fn lemma_two_at(entries: Seq<EntryModel>, i: int, j: int, index: nat)
    requires
        0 <= i < j < entries.len(),
        entries[i].storage_turn_index == index,
        entries[j].storage_turn_index == index,
    ensures
        entries_at(entries, index).len() >= 2,
    decreases entries.len(),
{
    let front = entries.drop_last();
    if j < entries.len() - 1 {
        lemma_two_at(front, i, j, index);
    } else {
        lemma_one_at(front, i, index);
    }
}

proof fn lemma_one_at(entries: Seq<EntryModel>, i: int, index: nat)
    requires
        0 <= i < entries.len(),
        entries[i].storage_turn_index == index,
    ensures
        entries_at(entries, index).len() >= 1,
    decreases entries.len(),
{
    if i < entries.len() - 1 {
        lemma_one_at(entries.drop_last(), i, index);
    }
}

/// A catalog made of entries is well formed exactly when their storage indices
/// are distinct.
pub proof fn a_built_catalog_is_well_formed_exactly_on_distinct_entries(
    schema_version: u32,
    session_id: Seq<char>,
    entries: Seq<EntryModel>,
)
    ensures
        well_formed(catalog_of(schema_version, session_id, entries)) <==> storage_distinct(entries),
{
    let catalog = catalog_of(schema_version, session_id, entries);
    let sorted = in_storage_order(entries);
    storage_order_is_a_sort(entries);
    if storage_distinct(entries) {
        built_catalog_is_well_formed(schema_version, session_id, entries);
    }
    if well_formed(catalog) {
        let r = numbered(sorted);
        assert forall|i: int, j: int| 0 <= i < j < sorted.len() implies (
        #[trigger] sorted[i]).storage_turn_index != (#[trigger] sorted[j]).storage_turn_index by {
            assert(r[i].storage_turn_index < r[j].storage_turn_index);
        }
        assert forall|i: int, j: int| 0 <= i < j < entries.len() implies (
        #[trigger] entries[i]).storage_turn_index != (#[trigger] entries[j]).storage_turn_index by {
            let index = entries[i].storage_turn_index;
            if entries[j].storage_turn_index == index {
                lemma_two_at(entries, i, j, index);
                storage_order_is_stable(entries, index);
                lemma_at_most_one(sorted, index);
            }
        }
    }
}

/// Making a catalog again from the entries of a well-formed one gives the same
/// catalog.
pub proof fn rebuilding_a_well_formed_catalog_changes_nothing(catalog: CatalogModel)
    requires
        well_formed(catalog),
    ensures
        catalog_of(catalog.schema_version, catalog.session_id, catalog.entries) == catalog,
{
    storage_order_keeps_ascending(catalog.entries);
    assert(numbered(catalog.entries) =~= catalog.entries);
}

/// Whether the catalog and the turn files agree up to the saved turn: the files
/// are the cataloged ones, of which the saved turn is one, or those and then the
/// saved turn.
pub open spec fn aligned_with_save(
    entries: Seq<EntryModel>,
    physical: Seq<usize>,
    saved: usize,
) -> bool {
    &&& forall|i: int|
        0 <= i < entries.len() && i < physical.len() ==> (#[trigger] entries[i]).storage_turn_index
            == physical[i]
    &&& if physical.len() == entries.len() {
        exists|i: int|
            0 <= i < entries.len() && (#[trigger] entries[i]).storage_turn_index == saved
    } else {
        physical.len() == entries.len() + 1 && physical.last() == saved
    }
}

/// Decides whether a catalog can take in a saved turn without reading others.
pub fn can_incrementally_update_turn_catalog_after_save(
    catalog: &SessionTurnCatalog,
    physical_indices: &Vec<usize>,
    saved_turn_index: usize,
) -> (r: bool)
    ensures
        r == aligned_with_save(catalog@.entries, physical_indices@, saved_turn_index),
{
    let ghost models = catalog@.entries;
    let entries = &catalog.entries;
    let mut found: bool = false;
    let mut i: usize = 0;
    while i < entries.len()
        invariant
            i <= entries@.len(),
            models == entry_models(entries@),
            models == catalog@.entries,
            forall|j: int|
                0 <= j < i && j < physical_indices@.len() ==> (
                #[trigger] models[j]).storage_turn_index == physical_indices@[j],
            found == exists|j: int|
                0 <= j < i && (#[trigger] models[j]).storage_turn_index == saved_turn_index,
        decreases entries@.len() - i,
    {
        assert(models[i as int] == entries@[i as int]@);
        if i < physical_indices.len() && entries[i].storage_turn_index != physical_indices[i] {
            return false;
        }
        if entries[i].storage_turn_index == saved_turn_index {
            found = true;
        }
        i += 1;
    }
    if physical_indices.len() == entries.len() {
        found
    } else {
        physical_indices.len() > entries.len() && physical_indices.len() - entries.len() == 1
            && physical_indices[physical_indices.len() - 1] == saved_turn_index
    }
}

impl SessionTurnCatalogEntry {
    /// A copy of this entry.
    pub fn duplicate(&self) -> (r: SessionTurnCatalogEntry)
        ensures
            r@ == self@,
    {
        SessionTurnCatalogEntry {
            ordinal: self.ordinal,
            storage_turn_index: self.storage_turn_index,
            turn_id: copy_text_option(&self.turn_id),
            preview: copy_text_option(&self.preview),
            preview_truncated: self.preview_truncated,
            capsule_preview: copy_capsule_option(&self.capsule_preview),
        }
    }

    /// Whether both entries hold the same.
    pub fn same(&self, other: &SessionTurnCatalogEntry) -> (r: bool)
        ensures
            r == (self@ == other@),
    {
        self.ordinal == other.ordinal && self.storage_turn_index == other.storage_turn_index
            && same_text_option(&self.turn_id, &other.turn_id) && same_text_option(
            &self.preview,
            &other.preview,
        ) && self.preview_truncated == other.preview_truncated && same_capsule_option(
            &self.capsule_preview,
            &other.capsule_preview,
        )
    }
}

/// Copies of the first `count` entries, or of all when there are fewer.
pub fn copy_entries(entries: &Vec<SessionTurnCatalogEntry>, count: usize) -> (r: Vec<
    SessionTurnCatalogEntry,
>)
    ensures
        entry_models(r@) == first_entries(entry_models(entries@), count as nat),
{
    let n: usize = if entries.len() <= count {
        entries.len()
    } else {
        count
    };
    let mut r: Vec<SessionTurnCatalogEntry> = Vec::new();
    let mut i: usize = 0;
    while i < n
        invariant
            i <= n <= entries@.len(),
            r@.len() == i,
            forall|j: int| 0 <= j < i ==> (#[trigger] r@[j])@ == entries@[j]@,
        decreases n - i,
    {
        r.push(entries[i].duplicate());
        i += 1;
    }
    assert(entry_models(r@) =~= first_entries(entry_models(entries@), count as nat));
    r
}

/// The first `count` entries, or all when there are fewer.
pub open spec fn first_entries(entries: Seq<EntryModel>, count: nat) -> Seq<EntryModel> {
    if entries.len() <= count {
        entries
    } else {
        entries.take(count as int)
    }
}

impl SessionTurnCatalog {
    /// A copy of this catalog.
    pub fn duplicate(&self) -> (r: SessionTurnCatalog)
        ensures
            r@ == self@,
    {
        SessionTurnCatalog {
            schema_version: self.schema_version,
            session_id: self.session_id.clone(),
            revision: self.revision.clone(),
            total_turn_count: self.total_turn_count,
            complete: self.complete,
            entries: copy_entries(&self.entries, self.entries.len()),
        }
    }

    /// Whether both catalogs hold the same.
    pub fn same(&self, other: &SessionTurnCatalog) -> (r: bool)
        ensures
            r == (self@ == other@),
    {
        if self.entries.len() != other.entries.len() {
            assert(self@.entries.len() != other@.entries.len());
            return false;
        }
        let mut i: usize = 0;
        while i < self.entries.len()
            invariant
                self.entries@.len() == other.entries@.len(),
                i <= self.entries@.len(),
                forall|j: int| 0 <= j < i ==> (#[trigger] self.entries@[j])@ == other.entries@[j]@,
            decreases self.entries@.len() - i,
        {
            if !self.entries[i].same(&other.entries[i]) {
                assert(self@.entries[i as int] != other@.entries[i as int]);
                return false;
            }
            i += 1;
        }
        assert(self@.entries =~= other@.entries);
        self.schema_version == other.schema_version && same_text(
            self.session_id.as_str(),
            other.session_id.as_str(),
        ) && same_text(self.revision.as_str(), other.revision.as_str()) && self.total_turn_count
            == other.total_turn_count && self.complete == other.complete
    }
}

/// Whether an optional catalog is this one.
pub fn is_cached(cached: &Option<SessionTurnCatalog>, catalog: &SessionTurnCatalog) -> (r: bool)
    ensures
        r == (catalog_option(*cached) == Some(catalog@)),
{
    match cached {
        Some(c) => c.same(catalog),
        None => false,
    }
}

/// Whether a stored catalog may be used for a session.
pub open spec fn usable_cache(
    schema_version: u32,
    session_id: Seq<char>,
    stored: CatalogModel,
) -> bool {
    stored.schema_version == schema_version && stored.session_id == session_id && well_formed(
        stored,
    )
}

/// The stored catalog, when it is of this schema and session and well formed.
pub fn accept_session_turn_catalog_cache(
    schema_version: u32,
    session_id: &str,
    stored: Option<SessionTurnCatalog>,
) -> (r: Option<SessionTurnCatalog>)
    ensures
        r is Some <==> stored is Some && usable_cache(schema_version, session_id@, stored->0@),
        r is Some ==> r == stored,
{
    match stored {
        Some(catalog) => if catalog.schema_version == schema_version && same_text(
            catalog.session_id.as_str(),
            session_id,
        ) && is_well_formed_turn_catalog(&catalog) {
            Some(catalog)
        } else {
            None
        },
        None => None,
    }
}

/// A preview is the trimmed content, of which at most the first 320 characters
/// are kept, and it is told whether any were cut.
pub proof fn a_preview_is_the_beginning_of_the_content(turn: DialogTurnData, ordinal: nat)
    ensures
        ({
            let content = trimmed(turn.display_content@);
            let entry = turn_entry(turn, ordinal);
            &&& entry.preview matches Some(preview)
            &&& preview == preview_of(turn.display_content@)
            &&& preview == content.subrange(0, preview.len() as int)
            &&& preview.len() <= 320
            &&& preview.len() == 320 || preview.len() == content.len()
            &&& entry.preview_truncated <==> preview.len() < content.len()
        }),
{
    let content = trimmed(turn.display_content@);
    let preview = preview_of(turn.display_content@);
    assert(preview =~= content.subrange(0, preview.len() as int));
}

/// The entry of a turn names it and its place; a placeholder names its place
/// alone.
pub proof fn an_entry_names_its_turn(turn: DialogTurnData, index: nat, ordinal: nat)
    ensures
        turn_entry(turn, ordinal).turn_id == Some(turn.turn_id@),
        turn_entry(turn, ordinal).storage_turn_index == turn.turn_index,
        turn_entry(turn, ordinal).ordinal == ordinal,
        turn_entry(turn, ordinal).capsule_preview == capsule_model(
            metadata_model(turn.user_message.metadata),
        ),
        placeholder_entry(index, ordinal).storage_turn_index == index,
        placeholder_entry(index, ordinal).ordinal == ordinal,
        placeholder_entry(index, ordinal).turn_id is None,
        placeholder_entry(index, ordinal).preview is None,
        !placeholder_entry(index, ordinal).preview_truncated,
        placeholder_entry(index, ordinal).capsule_preview is None,
        !all_known(seq![placeholder_entry(index, ordinal)]),
        all_known(seq![turn_entry(turn, ordinal)]),
{
    assert(seq![placeholder_entry(index, ordinal)][0] == placeholder_entry(index, ordinal));
}

/// A catalog keeps every entry that it is made of, but for its number: it counts
/// them all, numbers them from 0 in the order of their storage indices, and is
/// complete exactly when each of them has an id and a preview.
pub proof fn a_catalog_keeps_its_entries(
    schema_version: u32,
    session_id: Seq<char>,
    entries: Seq<EntryModel>,
)
    ensures
        ({
            let catalog = catalog_of(schema_version, session_id, entries);
            let sorted = in_storage_order(entries);
            &&& catalog.schema_version == schema_version
            &&& catalog.session_id == session_id
            &&& catalog.total_turn_count == entries.len()
            &&& catalog.entries.len() == entries.len()
            &&& forall|i: int|
                0 <= i < entries.len() ==> (#[trigger] catalog.entries[i]).ordinal == i
                    && catalog.entries[i] == (EntryModel { ordinal: i as nat, ..sorted[i] })
            &&& forall|i: int, j: int|
                0 <= i < j < entries.len() ==> (#[trigger] catalog.entries[i]).storage_turn_index
                    <= (#[trigger] catalog.entries[j]).storage_turn_index
            &&& catalog.complete <==> forall|i: int|
                0 <= i < entries.len() ==> (#[trigger] entries[i]).turn_id is Some
                    && entries[i].preview is Some
        }),
{
    broadcast use vstd::seq_lib::group_to_multiset_ensures;

    storage_order_is_a_sort(entries);
    let catalog = catalog_of(schema_version, session_id, entries);
    let sorted = in_storage_order(entries);
    if catalog.complete {
        assert forall|i: int| 0 <= i < entries.len() implies (#[trigger] entries[i]).turn_id is Some
            && entries[i].preview is Some by {
            assert(entries.contains(entries[i]));
            assert(sorted.to_multiset().count(entries[i]) > 0);
            assert(sorted.contains(entries[i]));
            let k = choose|k: int| 0 <= k < sorted.len() && sorted[k] == entries[i];
            assert(catalog.entries[k].turn_id is Some);
        }
    }
    if forall|i: int|
        0 <= i < entries.len() ==> (#[trigger] entries[i]).turn_id is Some
            && entries[i].preview is Some {
        assert forall|i: int| 0 <= i < catalog.entries.len() implies (
        #[trigger] catalog.entries[i]).turn_id is Some && catalog.entries[i].preview is Some by {
            assert(sorted.contains(sorted[i]));
            assert(entries.to_multiset().count(sorted[i]) > 0);
            assert(entries.contains(sorted[i]));
        }
    }
    assert forall|i: int, j: int| 0 <= i < j < entries.len() implies (
    #[trigger] catalog.entries[i]).storage_turn_index <= (
    #[trigger] catalog.entries[j]).storage_turn_index by {
        assert(sorted[i].storage_turn_index <= sorted[j].storage_turn_index);
    }
}

/// The bytes of a revision hold the number of entries and every place: two lists
/// with the same bytes have the same ordinals and storage indices.
pub proof fn revision_bytes_fix_every_place(a: Seq<EntryModel>, b: Seq<EntryModel>)
    requires
        a.len() <= u64::MAX,
        b.len() <= u64::MAX,
        forall|i: int|
            0 <= i < a.len() ==> (#[trigger] a[i]).ordinal <= u64::MAX && a[i].storage_turn_index
                <= u64::MAX,
        forall|i: int|
            0 <= i < b.len() ==> (#[trigger] b[i]).ordinal <= u64::MAX && b[i].storage_turn_index
                <= u64::MAX,
        revision_bytes(a) == revision_bytes(b),
    ensures
        a.len() == b.len(),
        forall|i: int|
            0 <= i < a.len() ==> (#[trigger] a[i]).ordinal == b[i].ordinal
                && a[i].storage_turn_index == b[i].storage_turn_index,
{
    vstd::bytes::lemma_auto_spec_u64_to_from_le_bytes();
    let x = revision_bytes(a);
    let y = revision_bytes(b);
    let la = spec_u64_to_le_bytes(a.len() as u64);
    let lb = spec_u64_to_le_bytes(b.len() as u64);
    assert(x.take(8) =~= la);
    assert(y.take(8) =~= lb);
    assert(a.len() as u64 == vstd::bytes::spec_u64_from_le_bytes(la));
    assert(b.len() as u64 == vstd::bytes::spec_u64_from_le_bytes(lb));
    assert(x.skip(8) =~= entry_bytes(a));
    assert(y.skip(8) =~= entry_bytes(b));
    lemma_entry_bytes_fix_places(a, b);
}

proof fn lemma_entry_bytes_fix_places(a: Seq<EntryModel>, b: Seq<EntryModel>)
    requires
        a.len() == b.len(),
        forall|i: int|
            0 <= i < a.len() ==> (#[trigger] a[i]).ordinal <= u64::MAX && a[i].storage_turn_index
                <= u64::MAX,
        forall|i: int|
            0 <= i < b.len() ==> (#[trigger] b[i]).ordinal <= u64::MAX && b[i].storage_turn_index
                <= u64::MAX,
        entry_bytes(a) == entry_bytes(b),
    ensures
        forall|i: int|
            0 <= i < a.len() ==> (#[trigger] a[i]).ordinal == b[i].ordinal
                && a[i].storage_turn_index == b[i].storage_turn_index,
    decreases a.len(),
{
    if a.len() > 0 {
        vstd::bytes::lemma_auto_spec_u64_to_from_le_bytes();
        let x = entry_bytes(a);
        let y = entry_bytes(b);
        let fa = a.drop_last();
        let fb = b.drop_last();
        let n = x.len() as int;
        let oa = spec_u64_to_le_bytes(a.last().ordinal as u64);
        let ob = spec_u64_to_le_bytes(b.last().ordinal as u64);
        let sa = spec_u64_to_le_bytes(a.last().storage_turn_index as u64);
        let sb = spec_u64_to_le_bytes(b.last().storage_turn_index as u64);
        assert(x.skip(n - 8) =~= sa);
        assert(y.skip(n - 8) =~= sb);
        assert(x.subrange(n - 16, n - 8) =~= oa);
        assert(y.subrange(n - 16, n - 8) =~= ob);
        assert(x.take(n - 16) =~= entry_bytes(fa));
        assert(y.take(n - 16) =~= entry_bytes(fb));
        assert(a.last().ordinal as u64 == vstd::bytes::spec_u64_from_le_bytes(oa));
        assert(b.last().ordinal as u64 == vstd::bytes::spec_u64_from_le_bytes(ob));
        assert(a.last().storage_turn_index as u64 == vstd::bytes::spec_u64_from_le_bytes(sa));
        assert(b.last().storage_turn_index as u64 == vstd::bytes::spec_u64_from_le_bytes(sb));
        assert(a[a.len() - 1] == a.last());
        assert(b[b.len() - 1] == b.last());
        assert forall|i: int| 0 <= i < fa.len() implies (#[trigger] fa[i]).ordinal <= u64::MAX
            && fa[i].storage_turn_index <= u64::MAX by {
            assert(fa[i] == a[i]);
        }
        assert forall|i: int| 0 <= i < fb.len() implies (#[trigger] fb[i]).ordinal <= u64::MAX
            && fb[i].storage_turn_index <= u64::MAX by {
            assert(fb[i] == b[i]);
        }
        lemma_entry_bytes_fix_places(fa, fb);
        assert forall|i: int| 0 <= i < a.len() implies (#[trigger] a[i]).ordinal == b[i].ordinal
            && a[i].storage_turn_index == b[i].storage_turn_index by {
            if i < fa.len() {
                assert(fa[i] == a[i]);
                assert(fb[i] == b[i]);
            }
        }
    }
}

/// A revision is taken of all entries and shows the first eight bytes of their
/// digest.
pub proof fn a_revision_is_the_beginning_of_a_digest(entries: Seq<EntryModel>)
    requires
        sha256(revision_bytes(entries)).len() == 32,
    ensures
        revision_of(entries).len() == 19,
        revision_of(entries).subrange(0, 3) == seq!['v', '2', '-'],
        revision_of(entries).skip(3) == hex_text(sha256(revision_bytes(entries))).take(16),
        revision_bytes(entries).len() == 8 + 16 * entries.len(),
{
    reveal_strlit("v2-");
    let digest = sha256(revision_bytes(entries));
    assert(hex_text(digest.take(8)) =~= hex_text(digest).take(16));
    assert(revision_of(entries).skip(3) =~= hex_text(digest.take(8)));
    assert(revision_of(entries).subrange(0, 3) =~= seq!['v', '2', '-']);
    lemma_entry_bytes_length(entries);
    vstd::bytes::lemma_auto_spec_u64_to_from_le_bytes();
}

proof fn lemma_entry_bytes_length(entries: Seq<EntryModel>)
    ensures
        entry_bytes(entries).len() == 16 * entries.len(),
    decreases entries.len(),
{
    if entries.len() > 0 {
        vstd::bytes::lemma_auto_spec_u64_to_from_le_bytes();
        lemma_entry_bytes_length(entries.drop_last());
    }
}

/// A catalog and the turn files agree up to a saved turn exactly when the files
/// are those of the entries with the saved turn among them, or those and then the
/// saved turn.
pub proof fn a_save_agrees_with_the_files(
    entries: Seq<EntryModel>,
    physical: Seq<usize>,
    saved: usize,
)
    ensures
        ({
            let cataloged = Seq::new(entries.len(), |i: int| entries[i].storage_turn_index as int);
            let files = Seq::new(physical.len(), |i: int| physical[i] as int);
            aligned_with_save(entries, physical, saved) <==> (files == cataloged
                && cataloged.contains(saved as int)) || files == cataloged.push(saved as int)
        }),
{
    let cataloged = Seq::new(entries.len(), |i: int| entries[i].storage_turn_index as int);
    let files = Seq::new(physical.len(), |i: int| physical[i] as int);
    if aligned_with_save(entries, physical, saved) {
        if physical.len() == entries.len() {
            assert(files =~= cataloged) by {
                assert forall|i: int| 0 <= i < files.len() implies files[i] == cataloged[i] by {
                    assert(entries[i].storage_turn_index == physical[i]);
                }
            }
            let i = choose|i: int|
                0 <= i < entries.len() && (#[trigger] entries[i]).storage_turn_index == saved;
            assert(cataloged[i] == saved as int);
        } else {
            assert(files =~= cataloged.push(saved as int)) by {
                assert forall|i: int| 0 <= i < entries.len() implies files[i] == cataloged[i] by {
                    assert(entries[i].storage_turn_index == physical[i]);
                }
            }
        }
    }
    if files == cataloged && cataloged.contains(saved as int) {
        let i = choose|i: int| 0 <= i < cataloged.len() && cataloged[i] == saved as int;
        assert(entries[i].storage_turn_index == saved);
        assert forall|i: int| 0 <= i < entries.len() && i < physical.len() implies (
        #[trigger] entries[i]).storage_turn_index == physical[i] by {
            assert(files[i] == cataloged[i]);
        }
        assert(physical.len() == files.len());
    }
    if files == cataloged.push(saved as int) {
        assert(physical.len() == files.len());
        assert(files.len() == entries.len() + 1);
        assert(files[entries.len() as int] == saved as int);
        assert(physical.last() == saved);
        assert forall|i: int| 0 <= i < entries.len() && i < physical.len() implies (
        #[trigger] entries[i]).storage_turn_index == physical[i] by {
            assert(files[i] == cataloged[i]);
        }
    }
}

/// A stored catalog is used only for the schema and the session that it was made
/// for, and only when it counts and orders its own entries.
pub proof fn a_foreign_catalog_is_not_used(
    schema_version: u32,
    session_id: Seq<char>,
    stored: CatalogModel,
)
    ensures
        stored.schema_version != schema_version ==> !usable_cache(
            schema_version,
            session_id,
            stored,
        ),
        stored.session_id != session_id ==> !usable_cache(schema_version, session_id, stored),
        stored.total_turn_count != stored.entries.len() ==> !usable_cache(
            schema_version,
            session_id,
            stored,
        ),
        stored.revision != revision_of(stored.entries) ==> !usable_cache(
            schema_version,
            session_id,
            stored,
        ),
        (exists|i: int|
            0 <= i < stored.entries.len() && (#[trigger] stored.entries[i]).ordinal != i)
            ==> !usable_cache(schema_version, session_id, stored),
        (exists|i: int, j: int|
            0 <= i < j < stored.entries.len() && (#[trigger] stored.entries[i]).storage_turn_index
                >= (#[trigger] stored.entries[j]).storage_turn_index) ==> !usable_cache(
            schema_version,
            session_id,
            stored,
        ),
        (exists|i: int|
            0 <= i < stored.entries.len() && ((#[trigger] stored.entries[i]).turn_id is None
                || stored.entries[i].preview is None)) && stored.complete ==> !usable_cache(
            schema_version,
            session_id,
            stored,
        ),
        storage_distinct(stored.entries) ==> usable_cache(
            schema_version,
            session_id,
            catalog_of(schema_version, session_id, stored.entries),
        ),
{
    if storage_distinct(stored.entries) {
        built_catalog_is_well_formed(schema_version, session_id, stored.entries);
    }
}

/// The first entries are as many as asked for, or all, from the front.
pub proof fn first_entries_come_from_the_front(entries: Seq<EntryModel>, count: nat)
    ensures
        first_entries(entries, count).len() <= count,
        first_entries(entries, count).len() == count || first_entries(entries, count) == entries,
        first_entries(entries, count) == entries.subrange(
            0,
            first_entries(entries, count).len() as int,
        ),
{
    assert(first_entries(entries, count) =~= entries.subrange(
        0,
        first_entries(entries, count).len() as int,
    ));
}

} // verus!

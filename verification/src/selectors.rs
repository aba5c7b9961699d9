//! Selectors for the turns of a transcript: single turns such as `15` or `-1`,
//! and slices such as `:20`, `-20:` or `10:30`.

use vstd::prelude::*;

use crate::catalog::strictly_ascending;
use crate::errors::{ErrorModel, OpenBitFunError};
use crate::text::{
    decimal, is_digit, lemma_decimal_value, lemma_next_position, lemma_trimmed_idempotent,
    next_position, parse_signed, pieces, signed_value, split, texts, trim, trimmed,
    trimming_takes_only_white_space,
};

verus! {

/// Which turns a selector picks.
#[derive(Debug, Clone, Copy, PartialEq, Eq, Structural)]
pub enum TranscriptTurnSelector {
    Index(isize),
    Slice { start: Option<isize>, end: Option<isize> },
}

/// A selector and its trimmed text.
#[derive(Debug)]
pub struct ParsedTranscriptTurnSelector {
    pub normalized: String,
    pub selector: TranscriptTurnSelector,
}

/// What a selector text means.
pub enum SelectorReading {
    Empty,
    Invalid,
    Selector(TranscriptTurnSelector),
}

/// The number that a bound denotes: outer `None` when it is not a number, inner
/// `None` when it is left open.
pub open spec fn bound_reading(s: Seq<char>) -> Option<Option<isize>> {
    if s.len() == 0 {
        Some(None)
    } else {
        match signed_value(s) {
            Some(v) => Some(Some(v as isize)),
            None => None,
        }
    }
}

/// What a trimmed selector text means.
pub open spec fn selector_reading(s: Seq<char>) -> SelectorReading {
    let parts = pieces(s, ':');
    if s.len() == 0 {
        SelectorReading::Empty
    } else if parts.len() == 1 {
        match signed_value(s) {
            Some(v) => SelectorReading::Selector(TranscriptTurnSelector::Index(v as isize)),
            None => SelectorReading::Invalid,
        }
    } else if parts.len() == 2 {
        match (bound_reading(parts[0]), bound_reading(parts[1])) {
            (Some(start), Some(end)) => SelectorReading::Selector(
                TranscriptTurnSelector::Slice { start, end },
            ),
            _ => SelectorReading::Invalid,
        }
    } else {
        SelectorReading::Invalid
    }
}

/// The message for a selector that is not understood.
pub open spec fn invalid_selector_message(s: Seq<char>) -> Seq<char> {
    "Invalid turn selector '"@ + s
        + "'. Use forms like ':20', '-20:', '10:30', or '15'."@
}

/// The error for a selector text, or none when it is understood.
pub open spec fn selector_error(s: Seq<char>) -> Option<ErrorModel> {
    match selector_reading(trimmed(s)) {
        SelectorReading::Empty => Some(
            ErrorModel::Validation("turns cannot contain empty selectors"@),
        ),
        SelectorReading::Invalid => Some(
            ErrorModel::Validation(invalid_selector_message(trimmed(s))),
        ),
        SelectorReading::Selector(_) => None,
    }
}

/// Makes the error for a selector that is not understood.
fn invalid_selector(selector: &str) -> (r: OpenBitFunError)
    ensures
        r@ == ErrorModel::Validation(invalid_selector_message(selector@)),
{
    let mut text: String = "Invalid turn selector '".to_owned();
    text.append(selector);
    text.append("'. Use forms like ':20', '-20:', '10:30', or '15'.");
    OpenBitFunError::Validation(text)
}

/// Reads a number in a selector.
pub fn parse_transcript_turn_value(value: &str, selector: &str) -> (r: Result<
    isize,
    OpenBitFunError,
>)
    ensures
        match signed_value(value@) {
            Some(v) => r matches Ok(n) && n == v,
            None => r matches Err(e) && e@ == ErrorModel::Validation(
                invalid_selector_message(selector@),
            ),
        },
{
    match parse_signed(value) {
        Some(n) => Ok(n),
        None => Err(invalid_selector(selector)),
    }
}

/// Reads a bound of a slice.
fn parse_bound(value: &str, selector: &str) -> (r: Result<Option<isize>, OpenBitFunError>)
    ensures
        match bound_reading(value@) {
            Some(bound) => r matches Ok(b) && b == bound,
            None => r matches Err(e) && e@ == ErrorModel::Validation(
                invalid_selector_message(selector@),
            ),
        },
{
    if value.is_empty() {
        Ok(None)
    } else {
        match parse_transcript_turn_value(value, selector) {
            Ok(n) => Ok(Some(n)),
            Err(e) => Err(e),
        }
    }
}

/// Reads a selector.
pub fn parse_transcript_turn_selector(selector: &str) -> (r: Result<
    ParsedTranscriptTurnSelector,
    OpenBitFunError,
>)
    ensures
        match selector_error(selector@) {
            Some(error) => r matches Err(e) && e@ == error,
            None => r matches Ok(parsed) && parsed.normalized@ == trimmed(selector@)
                && SelectorReading::Selector(parsed.selector) == selector_reading(
                trimmed(selector@),
            ),
        },
{
    let normalized = trim(selector);
    if normalized.as_str().is_empty() {
        return Err(
            OpenBitFunError::Validation("turns cannot contain empty selectors".to_owned()),
        );
    }
    let parts = split(normalized.as_str(), ':');
    assert(texts(parts@).len() == parts@.len());
    if parts.len() > 2 {
        return Err(invalid_selector(normalized.as_str()));
    }
    let selector = if parts.len() == 2 {
        assert(texts(parts@)[0] == parts@[0]@ && texts(parts@)[1] == parts@[1]@);
        let start = match parse_bound(parts[0].as_str(), normalized.as_str()) {
            Ok(bound) => bound,
            Err(e) => {
                return Err(e);
            },
        };
        let end = match parse_bound(parts[1].as_str(), normalized.as_str()) {
            Ok(bound) => bound,
            Err(e) => {
                return Err(e);
            },
        };
        TranscriptTurnSelector::Slice { start, end }
    } else {
        match parse_transcript_turn_value(normalized.as_str(), normalized.as_str()) {
            Ok(index) => TranscriptTurnSelector::Index(index),
            Err(e) => {
                return Err(e);
            },
        }
    };
    Ok(ParsedTranscriptTurnSelector { normalized, selector })
}

/// The position of the first selector text that is not understood, or their
/// number.
pub open spec fn first_bad_selector(selectors: Seq<String>, from: int) -> int
    decreases selectors.len() - from,
{
    if from < 0 || from >= selectors.len() {
        selectors.len() as int
    } else if selector_error(selectors[from]@) is Some {
        from
    } else {
        first_bad_selector(selectors, from + 1)
    }
}

/// Whether a selector was read from this text.
pub open spec fn reads_as(selector: String, parsed: ParsedTranscriptTurnSelector) -> bool {
    &&& parsed.normalized@ == trimmed(selector@)
    &&& SelectorReading::Selector(parsed.selector) == selector_reading(trimmed(selector@))
}

/// Reads a list of selectors; the first one that is not understood gives the
/// error.
pub fn parse_transcript_turn_selectors(selectors: &Vec<String>) -> (r: Result<
    Vec<ParsedTranscriptTurnSelector>,
    OpenBitFunError,
>)
    ensures
        if selectors@.len() == 0 {
            r matches Err(e) && e@ == ErrorModel::Validation("turns cannot be an empty array"@)
        } else {
            let bad = first_bad_selector(selectors@, 0);
            if bad < selectors@.len() {
                r matches Err(e) && Some(e@) == selector_error(selectors@[bad]@)
            } else {
                &&& r matches Ok(parsed)
                &&& parsed@.len() == selectors@.len()
                &&& forall|i: int|
                    0 <= i < parsed@.len() ==> reads_as(selectors@[i], #[trigger] parsed@[i])
            }
        },
{
    if selectors.len() == 0 {
        return Err(OpenBitFunError::Validation("turns cannot be an empty array".to_owned()));
    }
    let mut parsed: Vec<ParsedTranscriptTurnSelector> = Vec::new();
    let mut i: usize = 0;
    while i < selectors.len()
        invariant
            selectors@.len() > 0,
            i <= selectors@.len(),
            parsed@.len() == i,
            forall|j: int| 0 <= j < i ==> reads_as(selectors@[j], #[trigger] parsed@[j]),
            first_bad_selector(selectors@, 0) == first_bad_selector(selectors@, i as int),
        decreases selectors@.len() - i,
    {
        match parse_transcript_turn_selector(selectors[i].as_str()) {
            Ok(selector) => {
                parsed.push(selector);
            },
            Err(e) => {
                return Err(e);
            },
        }
        i += 1;
    }
    Ok(parsed)
}

/// A position that may count from the end.
pub open spec fn from_either_end(total: int, position: int) -> int {
    if position < 0 {
        total + position
    } else {
        position
    }
}

/// Where a bound of a slice lies among `total` turns.
pub open spec fn slice_bound(total: int, bound: Option<isize>, default: int) -> int {
    match bound {
        None => default,
        Some(b) => {
            let position = from_either_end(total, b as int);
            if position < 0 {
                0
            } else if position > total {
                total
            } else {
                position
            }
        },
    }
}

/// Finds where a bound of a slice lies.
pub fn transcript_normalize_slice_bound(
    total: usize,
    bound: Option<isize>,
    default: usize,
) -> (r: usize)
    requires
        bound is Some ==> total <= isize::MAX,
    ensures
        r == slice_bound(total as int, bound, default as int),
{
    let bound: isize = match bound {
        None => {
            return default;
        },
        Some(bound) => bound,
    };
    let limit: isize = total as isize;
    let position: isize = if bound < 0 {
        limit + bound
    } else {
        bound
    };
    if position < 0 {
        0
    } else if position > limit {
        total
    } else {
        position as usize
    }
}

/// Where a single position lies among `total` turns, which have to be countable
/// by an `isize`.
pub open spec fn index_position(total: int, index: isize) -> Option<int> {
    let position = from_either_end(total, index as int);
    if total <= isize::MAX && 0 <= position < total {
        Some(position)
    } else {
        None
    }
}

/// Finds where a single position lies.
pub fn transcript_normalize_index(total: usize, index: isize) -> (r: Option<usize>)
    ensures
        r is Some == index_position(total as int, index) is Some,
        r matches Some(i) ==> index_position(total as int, index) == Some(i as int),
{
    if total > isize::MAX as usize {
        return None;
    }
    let limit: isize = total as isize;
    let position: isize = if index < 0 {
        limit + index
    } else {
        index
    };
    if position < 0 || position >= limit {
        None
    } else {
        Some(position as usize)
    }
}

/// Whether a selector picks the turn at `i`.
pub open spec fn picks(total: int, selector: TranscriptTurnSelector, i: int) -> bool {
    match selector {
        TranscriptTurnSelector::Index(index) => index_position(total, index) == Some(i),
        TranscriptTurnSelector::Slice { start, end } => slice_bound(total, start, 0) <= i
            < slice_bound(total, end, total),
    }
}

/// Whether one of these selectors picks the turn at `i`.
pub open spec fn picked(
    total: int,
    selectors: Seq<ParsedTranscriptTurnSelector>,
    i: int,
) -> bool {
    exists|k: int|
        0 <= k < selectors.len() && picks(total, (#[trigger] selectors[k]).selector, i)
}

/// The positions that are picked by one of the selectors, each once, in
/// ascending order.
pub fn transcript_select_turn_indices(
    total: usize,
    selectors: &Vec<ParsedTranscriptTurnSelector>,
) -> (r: Vec<usize>)
    requires
        total <= isize::MAX,
    ensures
        strictly_ascending(r@),
        forall|i: usize|
            #[trigger] r@.contains(i) <==> i < total && picked(total as int, selectors@, i as int),
{
    let mut selected: Vec<bool> = Vec::new();
    while selected.len() < total
        invariant
            selected@.len() <= total,
            forall|j: int| 0 <= j < selected@.len() ==> !#[trigger] selected@[j],
        decreases total - selected@.len(),
    {
        selected.push(false);
    }
    let mut k: usize = 0;
    assert forall|j: int| 0 <= j < total implies #[trigger] selected@[j] == picked(
        total as int,
        selectors@.take(0),
        j,
    ) by {}
    while k < selectors.len()
        invariant
            total <= isize::MAX,
            k <= selectors@.len(),
            selected@.len() == total,
            forall|j: int|
                0 <= j < total ==> #[trigger] selected@[j] == picked(
                    total as int,
                    selectors@.take(k as int),
                    j,
                ),
        decreases selectors@.len() - k,
    {
        let ghost before = selected@;
        let selector = selectors[k].selector;
        let (from, to): (usize, usize) = match selector {
            TranscriptTurnSelector::Index(index) => match transcript_normalize_index(total, index) {
                Some(i) => (i, i + 1),
                None => (0, 0),
            },
            TranscriptTurnSelector::Slice { start, end } => (
                transcript_normalize_slice_bound(total, start, 0),
                transcript_normalize_slice_bound(total, end, total),
            ),
        };
        assert(forall|j: int|
            0 <= j < total ==> (picks(total as int, selector, j) <==> from <= j < to));
        let mut i: usize = from;
        while i < to
            invariant
                from <= i,
                i <= to || i == from,
                to <= total,
                selected@.len() == total == before.len(),
                forall|j: int|
                    0 <= j < total ==> #[trigger] selected@[j] == (before[j] || from <= j < i),
            decreases to - i,
        {
            selected.set(i, true);
            i += 1;
        }
        assert forall|j: int| 0 <= j < total implies #[trigger] selected@[j] == picked(
            total as int,
            selectors@.take(k + 1),
            j,
        ) by {
            let now = selectors@.take(k + 1);
            let then = selectors@.take(k as int);
            assert(before[j] == picked(total as int, then, j));
            if picked(total as int, then, j) {
                let m = choose|m: int|
                    0 <= m < then.len() && picks(total as int, (#[trigger] then[m]).selector, j);
                assert(now[m] == then[m]);
            }
            if picks(total as int, selector, j) {
                assert(now[k as int] == selectors@[k as int]);
            }
            if picked(total as int, now, j) {
                let m = choose|m: int|
                    0 <= m < now.len() && picks(total as int, (#[trigger] now[m]).selector, j);
                if m < k {
                    assert(then[m] == now[m]);
                } else {
                    assert(picks(total as int, selector, j));
                }
            }
        }
        k += 1;
    }
    assert(selectors@.take(k as int) =~= selectors@);
    let mut r: Vec<usize> = Vec::new();
    let mut i: usize = 0;
    while i < total
        invariant
            i <= total == selected@.len(),
            strictly_ascending(r@),
            forall|j: int| 0 <= j < r@.len() ==> #[trigger] r@[j] < i && selected@[r@[j] as int],
            forall|j: int| 0 <= j < i && selected@[j] ==> r@.contains(#[trigger] (j as usize)),
        decreases total - i,
    {
        let ghost before = r@;
        if selected[i] {
            r.push(i);
            assert(r@[before.len() as int] == i);
            assert forall|j: int| 0 <= j < i + 1 && selected@[j] implies r@.contains(
                #[trigger] (j as usize),
            ) by {
                if j < i {
                    assert(before.contains(j as usize));
                    let m = choose|m: int| 0 <= m < before.len() && before[m] == j as usize;
                    assert(r@[m] == j as usize);
                }
            }
        }
        i += 1;
    }
    assert forall|x: usize| #[trigger] r@.contains(x) <==> x < total && picked(
        total as int,
        selectors@,
        x as int,
    ) by {
        if r@.contains(x) {
            let m = choose|m: int| 0 <= m < r@.len() && r@[m] == x;
            assert(selected@[x as int]);
        }
        if x < total && picked(total as int, selectors@, x as int) {
            assert(selected@[x as int]);
            assert((x as int) as usize == x);
        }
    }
    r
}

/// A slice that counts from the end by `n` picks exactly the last `n` turns.
pub proof fn tail_slice_picks_the_last_turns(total: int, n: isize, i: int)
    requires
        0 <= i < total,
        n > 0,
    ensures
        picks(
            total,
            TranscriptTurnSelector::Slice { start: Some((0 - n) as isize), end: None },
            i,
        ) <==> i >= total - n,
{
}

/// A slice that is open at the front picks exactly the first `n` turns.
pub proof fn head_slice_picks_the_first_turns(total: int, n: isize, i: int)
    requires
        0 <= i < total,
        n >= 0,
    ensures
        picks(total, TranscriptTurnSelector::Slice { start: None, end: Some(n) }, i) <==> i < n,
{
}

/// A selector means the same before and after it was normalized.
pub proof fn normalized_selectors_mean_the_same(s: Seq<char>)
    ensures
        selector_reading(trimmed(trimmed(s))) == selector_reading(trimmed(s)),
        selector_error(trimmed(s)) == selector_error(s),
{
    crate::text::lemma_trimmed_idempotent(s);
}

/// Whether a bound names the position `p` among `total`: as itself, or, before
/// the end, counted from the end.
pub open spec fn names_position(total: int, bound: isize, p: int) -> bool {
    bound == p || (p < total && bound == p - total)
}

/// A slice picks every turn from the position of its start up to, and without,
/// that of its end, whichever way the two are counted: as many turns as there
/// are between them.
pub proof fn a_slice_picks_from_its_start_up_to_its_end(
    total: int,
    start: isize,
    end: isize,
    a: int,
    b: int,
)
    requires
        0 <= a <= b <= total,
        names_position(total, start, a),
        names_position(total, end, b),
    ensures
        ({
            let slice = TranscriptTurnSelector::Slice { start: Some(start), end: Some(end) };
            &&& forall|i: int| #[trigger] picks(total, slice, i) <==> a <= i < b
            &&& Set::new(|i: int| picks(total, slice, i)).len() == b - a
        }),
{
    let slice = TranscriptTurnSelector::Slice { start: Some(start), end: Some(end) };
    let picked = Set::new(|i: int| picks(total, slice, i));
    assert(picked =~= vstd::set_lib::set_int_range(a, b));
    vstd::set_lib::lemma_int_range(a, b);
}

/// Two slices that meet at a position pick disjoint turns, and together those of
/// the slice over both.
pub proof fn slices_that_meet_make_the_whole(
    total: int,
    start: isize,
    middle: isize,
    end: isize,
    a: int,
    m: int,
    b: int,
    i: int,
)
    requires
        0 <= a <= m <= b <= total,
        names_position(total, start, a),
        names_position(total, middle, m),
        names_position(total, end, b),
    ensures
        ({
            let first = TranscriptTurnSelector::Slice { start: Some(start), end: Some(middle) };
            let second = TranscriptTurnSelector::Slice { start: Some(middle), end: Some(end) };
            let whole = TranscriptTurnSelector::Slice { start: Some(start), end: Some(end) };
            &&& !(picks(total, first, i) && picks(total, second, i))
            &&& picks(total, whole, i) <==> picks(total, first, i) || picks(total, second, i)
        }),
{
}

/// A bound that is left open is the first position, or the one behind the last;
/// a bound beyond either end is that end. A slice whose end does not lie behind
/// its start picks nothing.
pub proof fn open_and_distant_bounds_are_the_ends(
    total: int,
    start: Option<isize>,
    end: Option<isize>,
    i: int,
)
    requires
        0 <= total,
    ensures
        picks(total, TranscriptTurnSelector::Slice { start: None, end: None }, i) <==> 0 <= i
            < total,
        start matches Some(a) && a < -total ==> picks(
            total,
            TranscriptTurnSelector::Slice { start, end },
            i,
        ) == picks(total, TranscriptTurnSelector::Slice { start: None, end }, i),
        end matches Some(b) && b > total ==> picks(
            total,
            TranscriptTurnSelector::Slice { start, end },
            i,
        ) == picks(total, TranscriptTurnSelector::Slice { start, end: None }, i),
        picks(total, TranscriptTurnSelector::Slice { start, end }, i) ==> 0 <= i < total,
        (start matches Some(a) && end matches Some(b) && 0 <= b <= a) ==> !picks(
            total,
            TranscriptTurnSelector::Slice { start, end },
            i,
        ),
{
}

/// A single position picks the one turn that it names, from the front or, when
/// negative, from the end, and none when there is no such turn.
pub proof fn a_position_picks_the_turn_that_it_names(total: int, index: isize, i: int)
    requires
        0 <= total <= isize::MAX,
    ensures
        index >= 0 ==> (picks(total, TranscriptTurnSelector::Index(index), i) <==> i == index && i
            < total),
        index < 0 ==> (picks(total, TranscriptTurnSelector::Index(index), i) <==> i == total + index
            && i >= 0),
{
}

/// A list of selectors picks what any of them picks.
pub proof fn selectors_pick_together(
    total: int,
    some: Seq<ParsedTranscriptTurnSelector>,
    more: Seq<ParsedTranscriptTurnSelector>,
    one: ParsedTranscriptTurnSelector,
    i: int,
)
    ensures
        picked(total, some + more, i) <==> picked(total, some, i) || picked(total, more, i),
        picked(total, seq![one], i) <==> picks(total, one.selector, i),
        !picked(total, Seq::empty(), i),
{
    let all = some + more;
    if picked(total, some, i) {
        let k = choose|k: int|
            0 <= k < some.len() && picks(total, (#[trigger] some[k]).selector, i);
        assert(all[k] == some[k]);
    }
    if picked(total, more, i) {
        let k = choose|k: int|
            0 <= k < more.len() && picks(total, (#[trigger] more[k]).selector, i);
        assert(all[some.len() + k] == more[k]);
    }
    if picked(total, all, i) {
        let k = choose|k: int| 0 <= k < all.len() && picks(total, (#[trigger] all[k]).selector, i);
        if k < some.len() {
            assert(some[k] == all[k]);
        } else {
            assert(more[k - some.len()] == all[k]);
        }
    }
    if picks(total, one.selector, i) {
        assert(seq![one][0] == one);
    }
}

/// Text without a mark is one piece, and two such texts with a mark between them
/// are two.
proof fn lemma_two_pieces(a: Seq<char>, b: Seq<char>, mark: char)
    requires
        forall|i: int| 0 <= i < a.len() ==> a[i] != mark,
        forall|i: int| 0 <= i < b.len() ==> b[i] != mark,
    ensures
        pieces(a, mark) == seq![a],
        pieces(a + seq![mark] + b, mark) == seq![a, b],
{
    lemma_next_position(a, mark, 0);
    lemma_next_position(b, mark, 0);
    let s = a + seq![mark] + b;
    lemma_next_position(s, mark, 0);
    let at = next_position(s, mark, 0);
    assert(s[a.len() as int] == mark);
    assert(at == a.len()) by {
        if at < a.len() {
            assert(s[at] == a[at]);
        }
    }
    assert(s.take(at) =~= a);
    assert(s.skip(at + 1) =~= b);
    assert(pieces(b, mark) == seq![b]);
    assert(pieces(s, mark) =~= seq![a, b]);
}

/// The numeral of a position, with or without a sign, reads as that position.
proof fn lemma_signed_numeral(n: nat)
    requires
        n <= isize::MAX,
    ensures
        signed_value(decimal(n)) == Some(n as int),
        signed_value(seq!['-'] + decimal(n)) == Some(-(n as int)),
        decimal(n).len() > 0,
        forall|i: int| 0 <= i < decimal(n).len() ==> #[trigger] decimal(n)[i] != ':',
        forall|i: int|
            0 <= i < (seq!['-'] + decimal(n)).len() ==> #[trigger] (seq!['-'] + decimal(n))[i]
                != ':',
{
    lemma_decimal_value(n);
    let d = decimal(n);
    assert(is_digit(d[0]));
    assert forall|i: int| 0 <= i < d.len() implies #[trigger] d[i] != ':' by {
        assert(is_digit(d[i]));
    }
    let m = seq!['-'] + d;
    assert(m.skip(1) =~= d);
    assert(d.skip(0) =~= d);
    assert forall|i: int| 0 <= i < m.len() implies #[trigger] m[i] != ':' by {
        if i > 0 {
            assert(m[i] == d[i - 1]);
        }
    }
}

/// A selector means what is written: a number is a position, two numbers with a
/// colon between them a slice from the first to the second, and either may be
/// left out or counted from the end.
pub proof fn written_selectors_mean_what_they_say(a: nat, b: nat)
    requires
        a <= isize::MAX,
        b <= isize::MAX,
    ensures
        ({
            let from_end = |n: nat| seq!['-'] + decimal(n);
            let slice = |start: Option<isize>, end: Option<isize>|
                SelectorReading::Selector(TranscriptTurnSelector::Slice { start, end });
            let colon = seq![':'];
            &&& selector_reading(decimal(a)) == SelectorReading::Selector(
                TranscriptTurnSelector::Index(a as isize),
            )
            &&& selector_reading(from_end(a)) == SelectorReading::Selector(
                TranscriptTurnSelector::Index((0 - a) as isize),
            )
            &&& selector_reading(decimal(a) + colon + decimal(b)) == slice(
                Some(a as isize),
                Some(b as isize),
            )
            &&& selector_reading(from_end(a) + colon + from_end(b)) == slice(
                Some((0 - a) as isize),
                Some((0 - b) as isize),
            )
            &&& selector_reading(from_end(a) + colon) == slice(Some((0 - a) as isize), None)
            &&& selector_reading(decimal(a) + colon) == slice(Some(a as isize), None)
            &&& selector_reading(colon + decimal(b)) == slice(None, Some(b as isize))
            &&& selector_reading(colon) == slice(None, None)
            &&& selector_reading(Seq::empty()) == SelectorReading::Empty
        }),
{
    let empty = Seq::<char>::empty();
    let colon = seq![':'];
    lemma_signed_numeral(a);
    lemma_signed_numeral(b);
    let ea = seq!['-'] + decimal(a);
    let eb = seq!['-'] + decimal(b);
    lemma_two_pieces(decimal(a), decimal(b), ':');
    lemma_two_pieces(ea, eb, ':');
    lemma_two_pieces(ea, empty, ':');
    lemma_two_pieces(decimal(a), empty, ':');
    lemma_two_pieces(empty, decimal(b), ':');
    lemma_two_pieces(empty, empty, ':');
    assert(ea + colon + empty =~= ea + colon);
    assert(decimal(a) + colon + empty =~= decimal(a) + colon);
    assert(empty + colon + decimal(b) =~= colon + decimal(b));
    assert(empty + colon + empty =~= colon);
}

/// A text with more than one colon, or with a part that is no number, is not a
/// selector.
pub proof fn other_texts_are_no_selectors(a: Seq<char>, b: Seq<char>)
    requires
        forall|i: int| 0 <= i < a.len() ==> a[i] != ':',
        forall|i: int| 0 <= i < b.len() ==> b[i] != ':',
    ensures
        a.len() > 0 && signed_value(a) is None ==> selector_reading(a) is Invalid,
        a.len() > 0 && signed_value(a) is None ==> selector_reading(a + seq![':'] + b) is Invalid,
        b.len() > 0 && signed_value(b) is None ==> selector_reading(a + seq![':'] + b) is Invalid,
        selector_reading(a + seq![':'] + b + seq![':']) is Invalid,
{
    lemma_two_pieces(a, b, ':');
    let s = a + seq![':'] + b + seq![':'];
    let rest = b + seq![':'];
    lemma_two_pieces(b, Seq::empty(), ':');
    assert(b + seq![':'] + Seq::<char>::empty() =~= rest);
    lemma_next_position(s, ':', 0);
    let at = next_position(s, ':', 0);
    assert(s[a.len() as int] == ':');
    assert(at == a.len()) by {
        if at < a.len() {
            assert(s[at] == a[at]);
        }
    }
    assert(s.skip(at + 1) =~= rest);
    assert(pieces(rest, ':').len() == 2);
    assert(pieces(s, ':').len() == 3);
}

/// The selector that gives the error is the first one that is not understood.
pub proof fn the_first_bad_selector_is_the_first(selectors: Seq<String>, from: int)
    requires
        0 <= from <= selectors.len(),
    ensures
        from <= first_bad_selector(selectors, from) <= selectors.len(),
        forall|i: int|
            from <= i < first_bad_selector(selectors, from) ==> selector_reading(
                trimmed((#[trigger] selectors[i])@),
            ) is Selector,
        first_bad_selector(selectors, from) < selectors.len() ==> !(selector_reading(
            trimmed(selectors[first_bad_selector(selectors, from)]@),
        ) is Selector),
    decreases selectors.len() - from,
{
    if from < selectors.len() && selector_error(selectors[from]@) is None {
        the_first_bad_selector_is_the_first(selectors, from + 1);
    }
}

/// A selector that was read is kept with its text, without the white space round
/// it, and reading that text again gives the same selector.
pub proof fn a_read_selector_reads_again(
    selector: String,
    again: String,
    parsed: ParsedTranscriptTurnSelector,
    parsed_again: ParsedTranscriptTurnSelector,
)
    requires
        reads_as(selector, parsed),
        again@ == parsed.normalized@,
        reads_as(again, parsed_again),
    ensures
        exists|before: Seq<char>, after: Seq<char>|
            selector@ == #[trigger] (before + parsed.normalized@ + after),
        trimmed(parsed.normalized@) == parsed.normalized@,
        parsed_again.normalized@ == parsed.normalized@,
        parsed_again.selector == parsed.selector,
        selector_reading(parsed.normalized@) == SelectorReading::Selector(parsed.selector),
{
    lemma_trimmed_idempotent(selector@);
    trimming_takes_only_white_space(selector@);
    let (from, to) = choose|from: int, to: int|
        0 <= from <= to <= selector@.len() && trimmed(selector@) == #[trigger] selector@.subrange(
            from,
            to,
        );
    assert(selector@ =~= selector@.take(from) + parsed.normalized@ + selector@.skip(to));
}

} // verus!

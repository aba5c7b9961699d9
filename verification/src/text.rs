//! Text helpers: trimming, prefixes, decimal numerals and concatenation, each
//! stated over sequences of Unicode scalar values.

use vstd::prelude::*;

verus! {

/// Appends one scalar value.
///
/// Trusted: `String::push` leaves the text followed by the given character.
pub assume_specification[ String::push ](s: &mut String, ch: char)
    ensures
        final(s)@ == old(s)@.push(ch),
;

/// Whether two pieces of text hold the same characters: they do when their
/// encodings are the same.
pub fn same_text(a: &str, b: &str) -> (r: bool)
    ensures
        r == (a@ == b@),
{
    let x: &[u8] = a.as_bytes();
    let y: &[u8] = b.as_bytes();
    if x.len() != y.len() {
        return false;
    }
    let mut i: usize = 0;
    while i < x.len()
        invariant
            i <= x@.len(),
            x@.len() == y@.len(),
            x@ == vstd::utf8::encode_utf8(a@),
            y@ == vstd::utf8::encode_utf8(b@),
            forall|j: int| 0 <= j < i ==> x@[j] == y@[j],
        decreases x@.len() - i,
    {
        if x[i] != y[i] {
            return false;
        }
        i += 1;
    }
    proof {
        assert(x@ =~= y@);
        vstd::utf8::encode_utf8_decode_utf8(a@);
        vstd::utf8::encode_utf8_decode_utf8(b@);
    }
    true
}

/// The code points of the Unicode property `White_Space`.
pub open spec fn is_white_space(c: char) -> bool {
    let u = c as u32;
    ||| 0x09 <= u <= 0x0d
    ||| u == 0x20
    ||| u == 0x85
    ||| u == 0xa0
    ||| u == 0x1680
    ||| 0x2000 <= u <= 0x200a
    ||| u == 0x2028
    ||| u == 0x2029
    ||| u == 0x202f
    ||| u == 0x205f
    ||| u == 0x3000
}

/// Decides [`is_white_space`].
pub fn white_space(c: char) -> (r: bool)
    ensures
        r == is_white_space(c),
{
    let u: u32 = c as u32;
    (0x09 <= u && u <= 0x0d) || u == 0x20 || u == 0x85 || u == 0xa0 || u == 0x1680 || (0x2000 <= u
        && u <= 0x200a) || u == 0x2028 || u == 0x2029 || u == 0x202f || u == 0x205f || u == 0x3000
}

/// Text without its leading white space.
pub open spec fn trimmed_start(s: Seq<char>) -> Seq<char>
    decreases s.len(),
{
    if s.len() > 0 && is_white_space(s[0]) {
        trimmed_start(s.drop_first())
    } else {
        s
    }
}

/// Text without its trailing white space.
pub open spec fn trimmed_end(s: Seq<char>) -> Seq<char>
    decreases s.len(),
{
    if s.len() > 0 && is_white_space(s.last()) {
        trimmed_end(s.drop_last())
    } else {
        s
    }
}

/// Text without surrounding white space.
pub open spec fn trimmed(s: Seq<char>) -> Seq<char> {
    trimmed_end(trimmed_start(s))
}

/// The first `limit` characters, or all of them when there are fewer.
pub open spec fn first_chars(s: Seq<char>, limit: nat) -> Seq<char> {
    if s.len() <= limit {
        s
    } else {
        s.take(limit as int)
    }
}

/// Trimming leaves no white space at either end.
pub proof fn lemma_trimmed_edges(s: Seq<char>)
    ensures
        trimmed(s).len() > 0 ==> !is_white_space(trimmed(s)[0]) && !is_white_space(
            trimmed(s).last(),
        ),
        trimmed(s).len() <= s.len(),
{
    lemma_trimmed_start_head(s);
    lemma_trimmed_end_last(trimmed_start(s));
}

/// Trimming twice is trimming once.
pub proof fn lemma_trimmed_idempotent(s: Seq<char>)
    ensures
        trimmed(trimmed(s)) == trimmed(s),
{
    lemma_trimmed_edges(s);
    let t = trimmed(s);
    assert(trimmed_start(t) == t);
}

proof fn lemma_trimmed_start_head(s: Seq<char>)
    ensures
        trimmed_start(s).len() > 0 ==> !is_white_space(trimmed_start(s)[0]),
        trimmed_start(s).len() <= s.len(),
    decreases s.len(),
{
    if s.len() > 0 && is_white_space(s[0]) {
        lemma_trimmed_start_head(s.drop_first());
    }
}

proof fn lemma_trimmed_end_last(s: Seq<char>)
    ensures
        trimmed_end(s).len() > 0 ==> !is_white_space(trimmed_end(s).last()) && trimmed_end(s)[0]
            == s[0],
        trimmed_end(s).len() <= s.len(),
    decreases s.len(),
{
    if s.len() > 0 && is_white_space(s.last()) {
        lemma_trimmed_end_last(s.drop_last());
    }
}

/// The characters of a piece of text.
pub fn chars_of(s: &str) -> (r: Vec<char>)
    ensures
        r@ == s@,
{
    let mut r: Vec<char> = Vec::new();
    for c in it: s.chars()
        invariant
            r@ == it.seq().take(it.index() as int),
            it.seq() == s@,
    {
        r.push(c);
    }
    r
}

/// The text made of the characters `chars[from..to]`.
pub fn text_between(chars: &Vec<char>, from: usize, to: usize) -> (r: String)
    requires
        from <= to <= chars@.len(),
    ensures
        r@ == chars@.subrange(from as int, to as int),
{
    let mut r: String = String::new();
    let mut i: usize = from;
    while i < to
        invariant
            from <= i <= to <= chars@.len(),
            r@ == chars@.subrange(from as int, i as int),
        decreases to - i,
    {
        r.push(chars[i]);
        i += 1;
    }
    r
}

/// The text made of all of `chars`.
pub fn text_of(chars: &Vec<char>) -> (r: String)
    ensures
        r@ == chars@,
{
    let r = text_between(chars, 0, chars.len());
    assert(chars@.subrange(0, chars@.len() as int) == chars@);
    r
}

/// Removes surrounding white space.
pub fn trim(s: &str) -> (r: String)
    ensures
        r@ == trimmed(s@),
{
    let chars = chars_of(s);
    let n: usize = chars.len();
    let mut from: usize = 0;
    assert(chars@.subrange(0, n as int) == chars@);
    while from < n && white_space(chars[from])
        invariant
            from <= n == chars@.len(),
            trimmed_start(chars@) == trimmed_start(chars@.subrange(from as int, n as int)),
        decreases n - from,
    {
        assert(chars@.subrange(from as int, n as int).drop_first() == chars@.subrange(
            from + 1,
            n as int,
        ));
        from += 1;
    }
    let ghost middle = chars@.subrange(from as int, n as int);
    assert(trimmed_start(middle) == middle);
    let mut to: usize = n;
    while to > from && white_space(chars[to - 1])
        invariant
            from <= to <= n == chars@.len(),
            middle == chars@.subrange(from as int, n as int),
            trimmed_end(middle) == trimmed_end(chars@.subrange(from as int, to as int)),
        decreases to,
    {
        assert(chars@.subrange(from as int, to as int).drop_last() == chars@.subrange(
            from as int,
            to - 1,
        ));
        to -= 1;
    }
    text_between(&chars, from, to)
}

/// The first `limit` characters of `value`.
pub fn bounded_display_text(value: &str, limit: usize) -> (r: String)
    ensures
        r@ == first_chars(value@, limit as nat),
{
    let chars = chars_of(value);
    let end: usize = if chars.len() <= limit {
        chars.len()
    } else {
        limit
    };
    let r = text_between(&chars, 0, end);
    assert(chars@.subrange(0, chars@.len() as int) == chars@);
    r
}

/// Joins two pieces of text.
pub fn joined(a: &str, b: &str) -> (r: String)
    ensures
        r@ == a@ + b@,
{
    let mut r: String = a.to_owned();
    r.append(b);
    r
}

/// Whether `s` begins with `prefix`.
pub open spec fn has_prefix(s: Seq<char>, prefix: Seq<char>) -> bool {
    prefix.len() <= s.len() && s.take(prefix.len() as int) == prefix
}

/// Whether `s` ends with `suffix`.
pub open spec fn has_suffix(s: Seq<char>, suffix: Seq<char>) -> bool {
    suffix.len() <= s.len() && s.skip(s.len() - suffix.len()) == suffix
}

/// Whether `s[at..]` begins with `part`.
fn matches_at(s: &Vec<char>, at: usize, part: &Vec<char>) -> (r: bool)
    requires
        at + part@.len() <= s@.len(),
    ensures
        r == (s@.subrange(at as int, at + part@.len()) == part@),
{
    let n: usize = s.len();
    let mut i: usize = 0;
    while i < part.len()
        invariant
            at + part@.len() <= s@.len() == n,
            i <= part@.len(),
            forall|j: int| 0 <= j < i ==> s@[at + j] == #[trigger] part@[j],
        decreases part@.len() - i,
    {
        if s[at + i] != part[i] {
            assert(s@.subrange(at as int, at + part@.len())[i as int] != part@[i as int]);
            return false;
        }
        i += 1;
    }
    assert(s@.subrange(at as int, at + part@.len()) =~= part@);
    true
}

/// What follows `prefix` in `s`, when `s` begins with it.
pub fn strip_prefix(s: &str, prefix: &str) -> (r: Option<String>)
    ensures
        r is Some == has_prefix(s@, prefix@),
        r is Some ==> r->0@ == s@.skip(prefix@.len() as int),
{
    let chars = chars_of(s);
    let part = chars_of(prefix);
    assert(prefix@.len() <= s@.len() ==> s@.subrange(0, prefix@.len() as int) == s@.take(
        prefix@.len() as int,
    ));
    if part.len() <= chars.len() && matches_at(&chars, 0, &part) {
        let rest = text_between(&chars, part.len(), chars.len());
        assert(rest@ == s@.skip(prefix@.len() as int));
        Some(rest)
    } else {
        None
    }
}

/// What precedes `suffix` in `s`, when `s` ends with it.
pub fn strip_suffix(s: &str, suffix: &str) -> (r: Option<String>)
    ensures
        r is Some == has_suffix(s@, suffix@),
        r is Some ==> r->0@ == s@.take(s@.len() - suffix@.len()),
{
    let chars = chars_of(s);
    let part = chars_of(suffix);
    assert(suffix@.len() <= s@.len() ==> s@.subrange(
        s@.len() - suffix@.len(),
        s@.len() as int,
    ) == s@.skip(s@.len() - suffix@.len()));
    if part.len() <= chars.len() && matches_at(&chars, chars.len() - part.len(), &part) {
        let rest = text_between(&chars, 0, chars.len() - part.len());
        assert(rest@ == s@.take(s@.len() - suffix@.len()));
        Some(rest)
    } else {
        None
    }
}

/// The position of the last `mark` in `s`, or -1.
pub open spec fn last_position(s: Seq<char>, mark: char) -> int
    decreases s.len(),
{
    if s.len() == 0 {
        -1
    } else if s.last() == mark {
        s.len() - 1
    } else {
        last_position(s.drop_last(), mark)
    }
}

/// A last position is where `mark` stands with no other behind it.
pub proof fn lemma_last_position(s: Seq<char>, mark: char)
    ensures
        -1 <= last_position(s, mark) < s.len(),
        last_position(s, mark) >= 0 ==> s[last_position(s, mark)] == mark,
        forall|i: int| last_position(s, mark) < i < s.len() ==> s[i] != mark,
    decreases s.len(),
{
    if s.len() > 0 && s.last() != mark {
        lemma_last_position(s.drop_last(), mark);
        assert forall|i: int| last_position(s, mark) < i < s.len() implies s[i] != mark by {
            if i < s.len() - 1 {
                assert(s.drop_last()[i] == s[i]);
            }
        }
    }
}

/// Splits at the last `mark`.
pub fn rsplit_once(s: &str, mark: char) -> (r: Option<(String, String)>)
    ensures
        r is Some == (last_position(s@, mark) >= 0),
        r matches Some(parts) ==> parts.0@ == s@.take(last_position(s@, mark)) && parts.1@
            == s@.skip(last_position(s@, mark) + 1),
{
    let chars = chars_of(s);
    let n: usize = chars.len();
    let mut i: usize = n;
    assert(chars@.take(n as int) == chars@);
    while i > 0
        invariant
            i <= n == chars@.len(),
            chars@ == s@,
            last_position(s@, mark) == last_position(s@.take(i as int), mark),
        decreases i,
    {
        assert(s@.take(i as int).last() == s@[i - 1]);
        assert(s@.take(i as int).drop_last() == s@.take(i - 1));
        if chars[i - 1] == mark {
            let head = text_between(&chars, 0, i - 1);
            let tail = text_between(&chars, i, n);
            assert(head@ == s@.take(i - 1));
            assert(tail@ == s@.skip(i as int));
            return Some((head, tail));
        }
        i -= 1;
    }
    None
}

/// The position of the first `mark` in `s` at or behind `from`, or `s.len()`.
pub open spec fn next_position(s: Seq<char>, mark: char, from: int) -> int
    decreases s.len() - from,
{
    if from < 0 || from >= s.len() {
        s.len() as int
    } else if s[from] == mark {
        from
    } else {
        next_position(s, mark, from + 1)
    }
}

/// The next position lies in range, is a `mark` when inside the text, and no
/// `mark` stands between.
pub proof fn lemma_next_position(s: Seq<char>, mark: char, from: int)
    requires
        0 <= from <= s.len(),
    ensures
        from <= next_position(s, mark, from) <= s.len(),
        next_position(s, mark, from) < s.len() ==> s[next_position(s, mark, from)] == mark,
        forall|i: int| from <= i < next_position(s, mark, from) ==> s[i] != mark,
    decreases s.len() - from,
{
    if from < s.len() && s[from] != mark {
        lemma_next_position(s, mark, from + 1);
    }
}

/// Finds [`next_position`].
pub fn find_next(chars: &Vec<char>, mark: char, from: usize) -> (r: usize)
    requires
        from <= chars@.len(),
    ensures
        r == next_position(chars@, mark, from as int),
        from <= r <= chars@.len(),
{
    let mut i: usize = from;
    while i < chars.len()
        invariant
            from <= i <= chars@.len(),
            next_position(chars@, mark, from as int) == next_position(chars@, mark, i as int),
        decreases chars@.len() - i,
    {
        if chars[i] == mark {
            return i;
        }
        i += 1;
    }
    i
}

/// The pieces of `s` between the marks, in order; text without a mark is one
/// piece.
pub open spec fn pieces(s: Seq<char>, mark: char) -> Seq<Seq<char>>
    decreases s.len(),
{
    let at = next_position(s, mark, 0);
    if 0 <= at < s.len() {
        seq![s.take(at)] + pieces(s.skip(at + 1), mark)
    } else {
        seq![s]
    }
}

/// The contents of a list of texts.
pub open spec fn texts(v: Seq<String>) -> Seq<Seq<char>> {
    v.map_values(|s: String| s@)
}

/// Splits at every `mark`.
pub fn split(s: &str, mark: char) -> (r: Vec<String>)
    ensures
        texts(r@) == pieces(s@, mark),
        r@.len() >= 1,
{
    let chars = chars_of(s);
    let n: usize = chars.len();
    let mut r: Vec<String> = Vec::new();
    let mut from: usize = 0;
    assert(s@.skip(0) == s@);
    assert(texts(r@) + pieces(s@, mark) == pieces(s@, mark));
    loop
        invariant
            from <= n == chars@.len(),
            chars@ == s@,
            texts(r@) + pieces(s@.skip(from as int), mark) == pieces(s@, mark),
        decreases n - from,
    {
        let at = find_next(&chars, mark, from);
        let piece = text_between(&chars, from, at);
        let ghost rest = s@.skip(from as int);
        let ghost before = r@;
        proof {
            lemma_next_position_shift(s@, mark, from as int, 0);
            lemma_next_position(s@, mark, from as int);
        }
        assert(next_position(rest, mark, 0) == at - from);
        r.push(piece);
        assert(texts(r@) == texts(before).push(piece@));
        if at == n {
            assert(piece@ == rest);
            assert(texts(r@) == texts(before) + seq![rest]);
            return r;
        }
        assert(piece@ == rest.take(at - from));
        assert(rest.skip(at - from + 1) == s@.skip(at + 1));
        assert(texts(r@) + pieces(s@.skip(at + 1), mark) == texts(before) + (seq![piece@] + pieces(
            s@.skip(at + 1),
            mark,
        )));
        from = at + 1;
    }
}

proof fn lemma_next_position_shift(s: Seq<char>, mark: char, from: int, i: int)
    requires
        0 <= from <= s.len(),
        0 <= i <= s.len() - from,
    ensures
        next_position(s.skip(from), mark, i) == next_position(s, mark, from + i) - from,
    decreases s.len() - from - i,
{
    if i < s.len() - from && s[from + i] != mark {
        lemma_next_position_shift(s, mark, from, i + 1);
    }
}

/// Whether `c` is a decimal digit.
pub open spec fn is_digit(c: char) -> bool {
    '0' <= c <= '9'
}

/// Whether `s` is one or more decimal digits.
pub open spec fn is_numeral(s: Seq<char>) -> bool {
    s.len() > 0 && forall|i: int| 0 <= i < s.len() ==> is_digit(#[trigger] s[i])
}

/// The number that decimal digits denote.
pub open spec fn numeral_value(s: Seq<char>) -> nat
    decreases s.len(),
{
    if s.len() == 0 {
        0
    } else {
        numeral_value(s.drop_last()) * 10 + (s.last() as u32 - '0' as u32) as nat
    }
}

/// The unsigned number that `s` denotes: digits behind an optional `+`, no more
/// than a `usize` holds.
pub open spec fn unsigned_value(s: Seq<char>) -> Option<nat> {
    let digits = if s.len() > 0 && s[0] == '+' {
        s.skip(1)
    } else {
        s
    };
    if is_numeral(digits) && numeral_value(digits) <= usize::MAX {
        Some(numeral_value(digits))
    } else {
        None
    }
}

/// The signed number that `s` denotes: digits behind an optional sign, within
/// the range of an `isize`.
pub open spec fn signed_value(s: Seq<char>) -> Option<int> {
    let negative = s.len() > 0 && s[0] == '-';
    let digits = if s.len() > 0 && (s[0] == '+' || s[0] == '-') {
        s.skip(1)
    } else {
        s
    };
    let value: int = if negative {
        -(numeral_value(digits) as int)
    } else {
        numeral_value(digits) as int
    };
    if is_numeral(digits) && isize::MIN <= value <= isize::MAX {
        Some(value)
    } else {
        None
    }
}

proof fn lemma_numeral_value_grows(s: Seq<char>, n: int)
    requires
        0 <= n <= s.len(),
        forall|i: int| 0 <= i < s.len() ==> is_digit(#[trigger] s[i]),
    ensures
        numeral_value(s.take(n)) <= numeral_value(s),
    decreases s.len() - n,
{
    if n < s.len() {
        lemma_numeral_value_grows(s, n + 1);
        assert(s.take(n + 1).drop_last() == s.take(n));
        assert(is_digit(s[n]));
        assert(numeral_value(s.take(n + 1)) >= numeral_value(s.take(n)));
    } else {
        assert(s.take(n) == s);
    }
}

/// Reads the digits `chars[from..]` as a number no greater than `limit`.
fn read_digits(chars: &Vec<char>, from: usize, limit: u128) -> (r: Option<u128>)
    requires
        from <= chars@.len(),
        limit <= u64::MAX as u128 + 1,
    ensures
        r is Some == (is_numeral(chars@.skip(from as int)) && numeral_value(
            chars@.skip(from as int),
        ) <= limit),
        r is Some ==> r->0 == numeral_value(chars@.skip(from as int)),
{
    let ghost digits = chars@.skip(from as int);
    if from == chars.len() {
        return None;
    }
    let mut value: u128 = 0;
    let mut i: usize = from;
    assert(digits.take(0) == Seq::<char>::empty());
    while i < chars.len()
        invariant
            digits == chars@.skip(from as int),
            from <= i <= chars@.len(),
            from < chars@.len(),
            limit <= u64::MAX as u128 + 1,
            value == numeral_value(digits.take(i - from)),
            value <= limit,
            forall|j: int| 0 <= j < i - from ==> is_digit(#[trigger] digits[j]),
        decreases chars@.len() - i,
    {
        let c: char = chars[i];
        assert(digits[i - from] == c);
        if !('0' <= c && c <= '9') {
            assert(!is_numeral(digits));
            return None;
        }
        assert(digits.take(i + 1 - from).drop_last() == digits.take(i - from));
        value = value * 10 + (c as u32 - '0' as u32) as u128;
        i += 1;
        if value > limit {
            proof {
                if is_numeral(digits) {
                    lemma_numeral_value_grows(digits, i - from);
                }
            }
            return None;
        }
    }
    assert(digits.take(i - from) == digits);
    Some(value)
}

/// Parses an unsigned number.
pub fn parse_unsigned(s: &str) -> (r: Option<usize>)
    ensures
        r is Some == unsigned_value(s@) is Some,
        r is Some ==> r->0 == unsigned_value(s@)->0,
{
    let chars = chars_of(s);
    let from: usize = if chars.len() > 0 && chars[0] == '+' {
        1
    } else {
        0
    };
    assert(s@.skip(0) == s@);
    match read_digits(&chars, from, usize::MAX as u128) {
        Some(value) => Some(value as usize),
        None => None,
    }
}

/// Parses a signed number.
pub fn parse_signed(s: &str) -> (r: Option<isize>)
    ensures
        r is Some == signed_value(s@) is Some,
        r is Some ==> r->0 == signed_value(s@)->0,
{
    let chars = chars_of(s);
    let negative: bool = chars.len() > 0 && chars[0] == '-';
    let from: usize = if chars.len() > 0 && (chars[0] == '+' || chars[0] == '-') {
        1
    } else {
        0
    };
    assert(s@.skip(0) == s@);
    let limit: u128 = if negative {
        isize::MAX as u128 + 1
    } else {
        isize::MAX as u128
    };
    match read_digits(&chars, from, limit) {
        Some(value) => if negative {
            Some((0 - (value as i128)) as isize)
        } else {
            Some(value as isize)
        },
        None => None,
    }
}

/// The decimal digit of `d`.
pub open spec fn digit_char(d: nat) -> char {
    (('0' as u32) + d) as u32 as char
}

/// The decimal numeral of `n`, without leading zeros.
pub open spec fn decimal(n: nat) -> Seq<char>
    decreases n,
{
    if n < 10 {
        seq![digit_char(n)]
    } else {
        decimal(n / 10).push(digit_char(n % 10))
    }
}

/// A numeral reads back as its number.
pub proof fn lemma_decimal_value(n: nat)
    ensures
        is_numeral(decimal(n)),
        numeral_value(decimal(n)) == n,
    decreases n,
{
    reveal_with_fuel(numeral_value, 2);
    if n < 10 {
        assert(decimal(n).drop_last() == Seq::<char>::empty());
    } else {
        lemma_decimal_value(n / 10);
        assert(decimal(n).drop_last() == decimal(n / 10));
        assert forall|i: int| 0 <= i < decimal(n).len() implies is_digit(
            #[trigger] decimal(n)[i],
        ) by {
            if i < decimal(n).len() - 1 {
                assert(decimal(n)[i] == decimal(n / 10)[i]);
            }
        }
    }
}

/// The characters of a decimal numeral.
fn decimal_chars(n: u64) -> (r: Vec<char>)
    ensures
        r@ == decimal(n as nat),
    decreases n,
{
    let d: u32 = '0' as u32 + (n % 10) as u32;
    let c: char = (d as u8) as char;
    if n < 10 {
        let mut r: Vec<char> = Vec::new();
        r.push(c);
        r
    } else {
        let mut r = decimal_chars(n / 10);
        r.push(c);
        r
    }
}

/// Writes `n` in decimal.
pub fn decimal_text(n: u64) -> (r: String)
    ensures
        r@ == decimal(n as nat),
{
    text_of(&decimal_chars(n))
}

/// Trimming takes white space off both ends and nothing else.
pub proof fn trimming_takes_only_white_space(s: Seq<char>)
    ensures
        exists|from: int, to: int|
            0 <= from <= to <= s.len() && trimmed(s) == #[trigger] s.subrange(from, to) && (
            forall|i: int| 0 <= i < from ==> is_white_space(#[trigger] s[i])) && (forall|i: int|
                to <= i < s.len() ==> is_white_space(#[trigger] s[i])),
        trimmed(s).len() > 0 ==> !is_white_space(trimmed(s)[0]) && !is_white_space(
            trimmed(s).last(),
        ),
{
    lemma_trimmed_edges(s);
    let from = lemma_trimmed_start_cut(s);
    let mid = s.skip(from);
    let len = lemma_trimmed_end_cut(mid);
    let to = from + len;
    assert(mid.take(len) =~= s.subrange(from, to));
    assert forall|i: int| to <= i < s.len() implies is_white_space(#[trigger] s[i]) by {
        assert(mid[i - from] == s[i]);
    }
    assert(trimmed(s) == s.subrange(from, to));
}

proof fn lemma_trimmed_start_cut(s: Seq<char>) -> (from: int)
    ensures
        0 <= from <= s.len(),
        trimmed_start(s) == s.skip(from),
        forall|i: int| 0 <= i < from ==> is_white_space(#[trigger] s[i]),
    decreases s.len(),
{
    if s.len() > 0 && is_white_space(s[0]) {
        let rest = s.drop_first();
        let k = lemma_trimmed_start_cut(rest);
        assert(rest.skip(k) =~= s.skip(k + 1));
        assert forall|i: int| 0 <= i < k + 1 implies is_white_space(#[trigger] s[i]) by {
            if i > 0 {
                assert(rest[i - 1] == s[i]);
            }
        }
        k + 1
    } else {
        assert(s.skip(0) =~= s);
        0
    }
}

proof fn lemma_trimmed_end_cut(s: Seq<char>) -> (len: int)
    ensures
        0 <= len <= s.len(),
        trimmed_end(s) == s.take(len),
        forall|i: int| len <= i < s.len() ==> is_white_space(#[trigger] s[i]),
    decreases s.len(),
{
    if s.len() > 0 && is_white_space(s.last()) {
        let front = s.drop_last();
        let k = lemma_trimmed_end_cut(front);
        assert(front.take(k) =~= s.take(k));
        assert forall|i: int| k <= i < s.len() implies is_white_space(#[trigger] s[i]) by {
            if i < front.len() {
                assert(front[i] == s[i]);
            }
        }
        k
    } else {
        assert(s.take(s.len() as int) =~= s);
        s.len() as int
    }
}

/// Blanks, tabs and line ends are white space; the graphic characters of ASCII
/// are not.
pub proof fn ascii_white_space(c: char)
    ensures
        is_white_space(' ') && is_white_space('\t') && is_white_space('\n') && is_white_space('\r'),
        '!' <= c <= '~' ==> !is_white_space(c),
{
}

/// The first characters are as many as asked for, or all, from the front.
pub proof fn first_chars_come_from_the_front(s: Seq<char>, limit: nat)
    ensures
        first_chars(s, limit).len() <= limit,
        first_chars(s, limit).len() == limit || first_chars(s, limit) == s,
        first_chars(s, limit) == s.subrange(0, first_chars(s, limit).len() as int),
{
    assert(first_chars(s, limit) =~= s.subrange(0, first_chars(s, limit).len() as int));
}

/// Text without a mark is one piece; text with one begins with the piece before
/// the first mark and goes on with the pieces behind it.
pub proof fn pieces_stand_between_the_marks(first: Seq<char>, rest: Seq<char>, mark: char)
    requires
        forall|i: int| 0 <= i < first.len() ==> first[i] != mark,
    ensures
        pieces(first, mark) == seq![first],
        pieces(first + seq![mark] + rest, mark) == seq![first] + pieces(rest, mark),
{
    lemma_next_position(first, mark, 0);
    let s = first + seq![mark] + rest;
    lemma_next_position(s, mark, 0);
    let at = next_position(s, mark, 0);
    assert(s[first.len() as int] == mark);
    assert(at == first.len()) by {
        if at < first.len() {
            assert(s[at] == first[at]);
        }
    }
    assert(s.take(at) =~= first);
    assert(s.skip(at + 1) =~= rest);
}

/// A numeral reads as its number, also behind a sign, within the range of what it
/// is read into; text with anything but digits behind an optional sign is no
/// number.
pub proof fn numerals_read_as_their_numbers(n: nat, s: Seq<char>)
    ensures
        unsigned_value(decimal(n)) == (if n <= usize::MAX {
            Some(n)
        } else {
            None
        }),
        unsigned_value(seq!['+'] + decimal(n)) == unsigned_value(decimal(n)),
        unsigned_value(seq!['-'] + decimal(n)) is None,
        signed_value(decimal(n)) == (if n <= isize::MAX {
            Some(n as int)
        } else {
            None
        }),
        signed_value(seq!['-'] + decimal(n)) == (if -(n as int) >= isize::MIN {
            Some(-(n as int))
        } else {
            None
        }),
        unsigned_value(Seq::empty()) is None,
        signed_value(Seq::empty()) is None,
        (exists|i: int| 0 < i < s.len() && !('0' <= #[trigger] s[i] <= '9')) ==> unsigned_value(s)
            is None && signed_value(s) is None,
{
    lemma_decimal_value(n);
    let d = decimal(n);
    assert(is_digit(d[0]));
    let plus = seq!['+'] + d;
    let minus = seq!['-'] + d;
    assert(plus.skip(1) =~= d);
    assert(minus.skip(1) =~= d);
    assert(minus[0] == '-');
    assert(!is_numeral(minus)) by {
        assert(!is_digit(minus[0]));
    }
    if exists|i: int| 0 < i < s.len() && !('0' <= #[trigger] s[i] <= '9') {
        let i = choose|i: int| 0 < i < s.len() && !('0' <= #[trigger] s[i] <= '9');
        assert(!is_digit(s[i]));
        assert(s.skip(1)[i - 1] == s[i]);
    }
}

/// A text begins with a part exactly when it is that part and more, and ends with
/// one exactly when it is something and then that part.
pub proof fn a_text_begins_and_ends_with_its_parts(s: Seq<char>, part: Seq<char>)
    ensures
        has_prefix(s, part) <==> exists|rest: Seq<char>| s == #[trigger] (part + rest),
        has_suffix(s, part) <==> exists|front: Seq<char>| s == #[trigger] (front + part),
{
    if has_prefix(s, part) {
        assert(s =~= part + s.skip(part.len() as int));
    }
    if exists|rest: Seq<char>| s == #[trigger] (part + rest) {
        let rest = choose|rest: Seq<char>| s == #[trigger] (part + rest);
        assert((part + rest).take(part.len() as int) =~= part);
    }
    if has_suffix(s, part) {
        assert(s =~= s.take(s.len() - part.len()) + part);
    }
    if exists|front: Seq<char>| s == #[trigger] (front + part) {
        let front = choose|front: Seq<char>| s == #[trigger] (front + part);
        assert((front + part).skip(front.len() as int) =~= part);
    }
}

} // verus!

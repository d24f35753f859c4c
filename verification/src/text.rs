//! Text as sequences of characters: the small algorithms on strings that the
//! rest of the library is built from.

use vstd::prelude::*;
use vstd::std_specs::iter::IteratorSpec;

verus! {

broadcast use vstd::string::group_string_axioms;

/// Whether `char::is_whitespace` holds of a character: whether it has the
/// Unicode property White_Space.
pub uninterp spec fn is_whitespace(c: char) -> bool;

/// Calls `char::is_whitespace`. The contract only gives the result its name.
#[verifier::external_body]
pub(crate) fn char_is_whitespace(c: char) -> (r: bool)
    ensures
        r == is_whitespace(c),
{
    c.is_whitespace()
}

/// Whether `char::is_numeric` holds of a character: whether its Unicode
/// general category is one of the three categories of numbers.
pub uninterp spec fn is_numeric(c: char) -> bool;

/// Calls `char::is_numeric`. The contract only gives the result its name.
#[verifier::external_body]
pub(crate) fn char_is_numeric(c: char) -> (r: bool)
    ensures
        r == is_numeric(c),
{
    c.is_numeric()
}

/// Calls `String::push`, which appends one character to a string.
#[verifier::external_body]
pub(crate) fn push_char(s: &mut String, c: char)
    ensures
        final(s)@ == old(s)@.push(c),
{
    s.push(c)
}

/// The pieces into which the separator `sep` cuts `s`, each as the range of
/// indices it covers. An empty text is one empty piece; each separator ends
/// one piece and starts the next.
pub open spec fn split_ranges(s: Seq<char>, sep: char) -> Seq<(int, int)>
    decreases s.len(),
{
    if s.len() == 0 {
        seq![(0int, 0int)]
    } else {
        let before = split_ranges(s.drop_last(), sep);
        let n = s.len() as int;
        if s.last() == sep {
            before.push((n, n))
        } else {
            before.update(before.len() - 1, (before.last().0, n))
        }
    }
}

/// The pieces into which the separator `sep` cuts `s`.
pub open spec fn split_on(s: Seq<char>, sep: char) -> Seq<Seq<char>> {
    split_ranges(s, sep).map_values(|r: (int, int)| s.subrange(r.0, r.1))
}

/// The lines of a text, each as the range of indices it covers. A line ends
/// at a line feed; a carriage return just before that line feed belongs to
/// the line ending. What follows the last line feed is a line unless it is
/// empty.
pub open spec fn line_ranges(s: Seq<char>) -> Seq<(int, int)> {
    let pieces = split_ranges(s, '\n');
    let count = if pieces.last().0 == pieces.last().1 {
        pieces.len() - 1
    } else {
        pieces.len() as int
    };
    Seq::new(
        count as nat,
        |k: int|
            if k < pieces.len() - 1 && pieces[k].0 < pieces[k].1 && s[pieces[k].1 - 1] == '\r' {
                (pieces[k].0, pieces[k].1 - 1)
            } else {
                pieces[k]
            },
    )
}

/// The lines of a text.
pub open spec fn lines_of(s: Seq<char>) -> Seq<Seq<char>> {
    line_ranges(s).map_values(|r: (int, int)| s.subrange(r.0, r.1))
}

/// Number of whitespace characters at the start of `s`.
pub open spec fn leading_whitespace(s: Seq<char>) -> nat
    decreases s.len(),
{
    if s.len() > 0 && is_whitespace(s[0]) {
        1 + leading_whitespace(s.drop_first())
    } else {
        0
    }
}

/// Number of characters at the start of `s` before the first whitespace.
pub open spec fn leading_word(s: Seq<char>) -> nat
    decreases s.len(),
{
    if s.len() > 0 && !is_whitespace(s[0]) {
        1 + leading_word(s.drop_first())
    } else {
        0
    }
}

/// Length of `s` without the whitespace at its end.
pub open spec fn trimmed_len(s: Seq<char>) -> nat
    decreases s.len(),
{
    if s.len() > 0 && is_whitespace(s.last()) {
        trimmed_len(s.drop_last())
    } else {
        s.len()
    }
}

/// The range of `s` that is left when the whitespace at both ends is taken away.
pub open spec fn trim_range(s: Seq<char>) -> (int, int) {
    let end = trimmed_len(s) as int;
    (leading_whitespace(s.take(end)) as int, end)
}

/// `s` without the whitespace at its start and at its end.
pub open spec fn trim(s: Seq<char>) -> Seq<char> {
    s.subrange(trim_range(s).0, trim_range(s).1)
}

/// The first run of characters of `s` that are no whitespace, as a range;
/// `None` where `s` holds nothing but whitespace.
pub open spec fn first_word_range(s: Seq<char>) -> Option<(int, int)> {
    let start = leading_whitespace(s) as int;
    if start >= s.len() {
        None
    } else {
        Some((start, start + leading_word(s.skip(start))))
    }
}

/// The first run of characters of `s` that are no whitespace.
pub open spec fn first_word(s: Seq<char>) -> Option<Seq<char>> {
    match first_word_range(s) {
        Some(r) => Some(s.subrange(r.0, r.1)),
        None => None,
    }
}

/// `needle` stands in `hay` at index `at`.
pub open spec fn occurs_at(hay: Seq<char>, needle: Seq<char>, at: int) -> bool {
    &&& 0 <= at
    &&& at + needle.len() <= hay.len()
    &&& hay.subrange(at, at + needle.len()) == needle
}

/// `needle` stands somewhere in `hay`.
pub open spec fn contains(hay: Seq<char>, needle: Seq<char>) -> bool {
    exists|at: int| occurs_at(hay, needle, at)
}

/// A decimal digit.
pub open spec fn is_digit(c: char) -> bool {
    '0' <= c <= '9'
}

/// The number that a decimal digit stands for.
pub open spec fn digit_value(c: char) -> nat {
    (c as int - '0' as int) as nat
}

/// The digit that stands for a number under ten.
pub open spec fn digit_char(d: nat) -> char {
    ('0' as int + d) as char
}

/// Every character of `s` is a decimal digit.
pub open spec fn all_digits(s: Seq<char>) -> bool {
    forall|i: int| 0 <= i < s.len() ==> is_digit(#[trigger] s[i])
}

/// The number that a run of decimal digits stands for.
pub open spec fn decimal_value(s: Seq<char>) -> nat
    decreases s.len(),
{
    if s.len() == 0 {
        0
    } else {
        decimal_value(s.drop_last()) * 10 + digit_value(s.last())
    }
}

/// The number that `s` stands for, where it is one or more decimal digits and
/// the number is at most `max`.
pub open spec fn parse_digits(s: Seq<char>, max: nat) -> Option<nat> {
    if s.len() > 0 && all_digits(s) && decimal_value(s) <= max {
        Some(decimal_value(s))
    } else {
        None
    }
}

/// The number that `s` stands for as a `u32`: an optional plus sign, then one
/// or more decimal digits that stay within the type's range.
pub open spec fn parse_u32_spec(s: Seq<char>) -> Option<u32> {
    let digits = if s.len() > 0 && s[0] == '+' {
        s.skip(1)
    } else {
        s
    };
    match parse_digits(digits, u32::MAX as nat) {
        Some(n) => Some(n as u32),
        None => None,
    }
}

/// The number that `s` stands for as an `i32`: an optional sign, then one or
/// more decimal digits that stay within the type's range.
pub open spec fn parse_i32_spec(s: Seq<char>) -> Option<i32> {
    if s.len() > 0 && s[0] == '-' {
        match parse_digits(s.skip(1), 0x8000_0000) {
            Some(n) => Some((-n) as i32),
            None => None,
        }
    } else {
        let digits = if s.len() > 0 && s[0] == '+' {
            s.skip(1)
        } else {
            s
        };
        match parse_digits(digits, i32::MAX as nat) {
            Some(n) => Some(n as i32),
            None => None,
        }
    }
}

/// The decimal digits of a number, without leading zeros.
pub open spec fn decimal_digits(n: nat) -> Seq<char>
    decreases n,
{
    if n < 10 {
        seq![digit_char(n)]
    } else {
        decimal_digits(n / 10).push(digit_char(n % 10))
    }
}

/// The ranges of a vector of ranges, as pairs of integers.
pub open spec fn ranges_view(ranges: Seq<(usize, usize)>) -> Seq<(int, int)> {
    ranges.map_values(|r: (usize, usize)| (r.0 as int, r.1 as int))
}

/// Every range lies inside a text of `len` characters.
pub open spec fn ranges_within(ranges: Seq<(usize, usize)>, len: nat) -> bool {
    forall|k: int| 0 <= k < ranges.len() ==> (#[trigger] ranges[k]).0 <= ranges[k].1 <= len
}

/// Cuts `chars` at each `sep`.
pub fn split(chars: &[char], sep: char) -> (ranges: Vec<(usize, usize)>)
    ensures
        ranges_view(ranges@) == split_ranges(chars@, sep),
        ranges_within(ranges@, chars@.len()),
        ranges@.len() >= 1,
{
    let mut ranges: Vec<(usize, usize)> = Vec::new();
    let mut start: usize = 0;
    let mut i: usize = 0;
    assert(chars@.take(0).len() == 0);
    assert(ranges_view(ranges@).push((0int, 0int)) =~= seq![(0int, 0int)]);
    while i < chars.len()
        invariant
            start <= i <= chars.len(),
            ranges_view(ranges@).push((start as int, i as int)) == split_ranges(
                chars@.take(i as int),
                sep,
            ),
            ranges_within(ranges@, i as nat),
        decreases chars.len() - i,
    {
        let ghost before = chars@.take(i as int);
        let ghost now = chars@.take(i + 1);
        assert(now.drop_last() =~= before);
        assert(now.last() == chars@[i as int]);
        if chars[i] == sep {
            ranges.push((start, i));
            start = i + 1;
            assert(ranges_view(ranges@).push((start as int, start as int)) =~= split_ranges(
                before,
                sep,
            ).push((i + 1, i + 1)));
        } else {
            assert(ranges_view(ranges@).push((start as int, i + 1)) =~= split_ranges(
                before,
                sep,
            ).update(split_ranges(before, sep).len() - 1, (start as int, i + 1)));
        }
        i += 1;
    }
    assert(chars@.take(i as int) =~= chars@);
    ranges.push((start, i));
    assert(ranges_view(ranges@) =~= split_ranges(chars@, sep));
    ranges
}

/// The lines of `chars`, as ranges.
pub fn lines(chars: &[char]) -> (ranges: Vec<(usize, usize)>)
    ensures
        ranges_view(ranges@) == line_ranges(chars@),
        ranges_within(ranges@, chars@.len()),
{
    let pieces = split(chars, '\n');
    let last = pieces[pieces.len() - 1];
    let count = if last.0 == last.1 {
        pieces.len() - 1
    } else {
        pieces.len()
    };
    let mut ranges: Vec<(usize, usize)> = Vec::new();
    let mut k: usize = 0;
    assert(ranges_view(pieces@).last() == ranges_view(pieces@)[pieces.len() - 1]);
    while k < count
        invariant
            k <= count <= pieces.len(),
            count as int == line_ranges(chars@).len(),
            ranges_view(pieces@) == split_ranges(chars@, '\n'),
            ranges_within(pieces@, chars@.len()),
            ranges_within(ranges@, chars@.len()),
            ranges@.len() == k,
            forall|j: int| 0 <= j < k ==> (#[trigger] ranges@[j].0 as int, ranges@[j].1 as int)
                == line_ranges(chars@)[j],
        decreases count - k,
    {
        let piece = pieces[k];
        assert(ranges_view(pieces@)[k as int] == (piece.0 as int, piece.1 as int));
        let range = if k + 1 < pieces.len() && piece.0 < piece.1 && chars[piece.1 - 1] == '\r' {
            (piece.0, piece.1 - 1)
        } else {
            piece
        };
        ranges.push(range);
        k += 1;
    }
    assert(ranges_view(ranges@) =~= line_ranges(chars@));
    ranges
}


/// The characters of a string, in order.
pub fn chars_of(s: &str) -> (chars: Vec<char>)
    ensures
        chars@ == s@,
{
    let mut chars: Vec<char> = Vec::new();
    for c in it: s.chars()
        invariant
            it.seq() == s@,
            chars@ == s@.take(it.index() as int),
    {
        chars.push(c);
        assert(s@.take(it.index() + 1) =~= s@.take(it.index() as int).push(s@[it.index() as int]));
    }
    assert(s@.take(s@.len() as int) =~= s@);
    chars
}

/// The string made of the given characters.
pub fn string_of(chars: &[char]) -> (s: String)
    ensures
        s@ == chars@,
{
    let mut s = String::new();
    let mut i: usize = 0;
    while i < chars.len()
        invariant
            i <= chars.len(),
            s@ == chars@.take(i as int),
        decreases chars.len() - i,
    {
        push_char(&mut s, chars[i]);
        i += 1;
        assert(chars@.take(i as int) =~= chars@.take(i - 1).push(chars@[i - 1]));
    }
    assert(chars@.take(i as int) =~= chars@);
    s
}


proof fn lemma_leading_whitespace_step(s: Seq<char>, done: int)
    requires
        0 <= done <= s.len(),
        forall|k: int| 0 <= k < done ==> is_whitespace(s[k]),
    ensures
        leading_whitespace(s) == done + leading_whitespace(s.skip(done)),
    decreases done,
{
    if done == 0 {
        assert(s.skip(0) =~= s);
    } else {
        lemma_leading_whitespace_step(s.drop_first(), done - 1);
        assert(s.drop_first().skip(done - 1) =~= s.skip(done));
    }
}

proof fn lemma_leading_word_step(s: Seq<char>, done: int)
    requires
        0 <= done <= s.len(),
        forall|k: int| 0 <= k < done ==> !is_whitespace(s[k]),
    ensures
        leading_word(s) == done + leading_word(s.skip(done)),
    decreases done,
{
    if done == 0 {
        assert(s.skip(0) =~= s);
    } else {
        lemma_leading_word_step(s.drop_first(), done - 1);
        assert(s.drop_first().skip(done - 1) =~= s.skip(done));
    }
}

/// Number of whitespace characters at the start of `chars[from..end]`.
fn count_leading_whitespace(chars: &[char], from: usize, end: usize) -> (count: usize)
    requires
        from <= end <= chars@.len(),
    ensures
        count == leading_whitespace(chars@.subrange(from as int, end as int)),
        from + count <= end,
{
    let ghost part = chars@.subrange(from as int, end as int);
    let mut at = from;
    while at < end && char_is_whitespace(chars[at])
        invariant
            from <= at <= end <= chars@.len(),
            part == chars@.subrange(from as int, end as int),
            forall|k: int| 0 <= k < at - from ==> is_whitespace(part[k]),
        decreases end - at,
    {
        at += 1;
    }
    proof {
        lemma_leading_whitespace_step(part, at - from);
        if at < end {
            assert(part.skip(at - from)[0] == chars@[at as int]);
        }
    }
    at - from
}

/// Number of characters at the start of `chars[from..end]` before the first
/// whitespace.
fn count_leading_word(chars: &[char], from: usize, end: usize) -> (count: usize)
    requires
        from <= end <= chars@.len(),
    ensures
        count == leading_word(chars@.subrange(from as int, end as int)),
        from + count <= end,
{
    let ghost part = chars@.subrange(from as int, end as int);
    let mut at = from;
    while at < end && !char_is_whitespace(chars[at])
        invariant
            from <= at <= end <= chars@.len(),
            part == chars@.subrange(from as int, end as int),
            forall|k: int| 0 <= k < at - from ==> !is_whitespace(part[k]),
        decreases end - at,
    {
        at += 1;
    }
    proof {
        lemma_leading_word_step(part, at - from);
        if at < end {
            assert(part.skip(at - from)[0] == chars@[at as int]);
        }
    }
    at - from
}

/// The range of `chars[from..end]` that is left when the whitespace at both
/// ends is taken away, as indices into `chars`.
pub fn trim_within(chars: &[char], from: usize, end: usize) -> (range: (usize, usize))
    requires
        from <= end <= chars@.len(),
    ensures
        from <= range.0 <= range.1 <= end,
        range.0 - from == trim_range(chars@.subrange(from as int, end as int)).0,
        range.1 - from == trim_range(chars@.subrange(from as int, end as int)).1,
        chars@.subrange(range.0 as int, range.1 as int) == trim(
            chars@.subrange(from as int, end as int),
        ),
{
    let ghost part = chars@.subrange(from as int, end as int);
    let mut stop = end;
    assert(part.take(end - from) =~= part);
    while stop > from && char_is_whitespace(chars[stop - 1])
        invariant
            from <= stop <= end <= chars@.len(),
            part == chars@.subrange(from as int, end as int),
            trimmed_len(part) == trimmed_len(part.take(stop - from)),
        decreases stop - from,
    {
        assert(part.take(stop - from).drop_last() =~= part.take(stop - from - 1));
        stop -= 1;
    }
    proof {
        assert(part.take(end - from) =~= part);
        if stop > from {
            assert(part.take(stop - from).last() == chars@[stop - 1]);
        }
        assert(part.take(stop - from) =~= chars@.subrange(from as int, stop as int));
    }
    let lead = count_leading_whitespace(chars, from, stop);
    proof {
        assert(chars@.subrange(from + lead, stop as int) =~= part.subrange(
            lead as int,
            stop - from,
        ));
    }
    (from + lead, stop)
}

/// The first run of characters of `chars[from..end]` that are no whitespace,
/// as indices into `chars`.
pub fn first_word_within(chars: &[char], from: usize, end: usize) -> (range: Option<(usize, usize)>)
    requires
        from <= end <= chars@.len(),
    ensures
        match range {
            Some(r) => {
                &&& from <= r.0 < r.1 <= end
                &&& first_word_range(chars@.subrange(from as int, end as int)) == Some(
                    (r.0 - from, r.1 - from),
                )
                &&& first_word(chars@.subrange(from as int, end as int)) == Some(
                    chars@.subrange(r.0 as int, r.1 as int),
                )
            },
            None => first_word(chars@.subrange(from as int, end as int)) is None,
        },
{
    let ghost part = chars@.subrange(from as int, end as int);
    let lead = count_leading_whitespace(chars, from, end);
    if from + lead >= end {
        return None;
    }
    let start = from + lead;
    proof {
        assert(part.skip(lead as int) =~= chars@.subrange(start as int, end as int));
        assert(!is_whitespace(part.skip(lead as int)[0])) by {
            lemma_leading_whitespace_stops(part);
        }
    }
    let word = count_leading_word(chars, start, end);
    proof {
        assert(chars@.subrange(start as int, start + word) =~= part.subrange(
            lead as int,
            lead + word,
        ));
    }
    Some((start, start + word))
}

proof fn lemma_leading_whitespace_stops(s: Seq<char>)
    ensures
        leading_whitespace(s) <= s.len(),
        leading_whitespace(s) < s.len() ==> !is_whitespace(s[leading_whitespace(s) as int]),
        forall|k: int| 0 <= k < leading_whitespace(s) ==> is_whitespace(#[trigger] s[k]),
    decreases s.len(),
{
    if s.len() > 0 && is_whitespace(s[0]) {
        lemma_leading_whitespace_stops(s.drop_first());
        assert forall|k: int| 0 <= k < leading_whitespace(s) implies is_whitespace(
            #[trigger] s[k],
        ) by {
            if k > 0 {
                assert(s[k] == s.drop_first()[k - 1]);
            }
        }
    }
}

/// Whether `needle` stands in `hay` at index `at`.
pub fn matches_at(hay: &[char], needle: &[char], at: usize) -> (r: bool)
    ensures
        r == occurs_at(hay@, needle@, at as int),
{
    if needle.len() > hay.len() || at > hay.len() - needle.len() {
        return false;
    }
    let mut k: usize = 0;
    while k < needle.len()
        invariant
            k <= needle.len(),
            at + needle.len() <= hay.len(),
            forall|j: int| 0 <= j < k ==> hay@[at + j] == needle@[j],
        decreases needle.len() - k,
    {
        if hay[at + k] != needle[k] {
            assert(hay@.subrange(at as int, at + needle@.len())[k as int] != needle@[k as int]);
            return false;
        }
        k += 1;
    }
    assert(hay@.subrange(at as int, at + needle@.len()) =~= needle@);
    true
}

/// Whether `needle` stands somewhere in `hay[from..end]`.
pub fn contains_within(hay: &[char], from: usize, end: usize, needle: &[char]) -> (r: bool)
    requires
        from <= end <= hay@.len(),
    ensures
        r == contains(hay@.subrange(from as int, end as int), needle@),
{
    let ghost part = hay@.subrange(from as int, end as int);
    if needle.len() > end - from {
        return false;
    }
    let last = end - needle.len();
    let mut at = from;
    while at <= last
        invariant
            from <= at <= last + 1,
            last + needle.len() == end,
            end <= hay@.len(),
            part == hay@.subrange(from as int, end as int),
            forall|j: int| 0 <= j < at - from ==> !occurs_at(part, needle@, j),
        decreases last + 1 - at,
    {
        if matches_at(hay, needle, at) {
            assert(part.subrange(at - from, at - from + needle@.len()) =~= hay@.subrange(
                at as int,
                at + needle@.len(),
            ));
            assert(occurs_at(part, needle@, at - from));
            return true;
        }
        proof {
            assert(part.subrange(at - from, at - from + needle@.len()) =~= hay@.subrange(
                at as int,
                at + needle@.len(),
            ));
        }
        if at == last {
            return false;
        }
        at += 1;
    }
    false
}

/// The value of a run of digits is at least the value of each of its prefixes.
pub proof fn lemma_decimal_value_grows(s: Seq<char>, k: int)
    requires
        0 <= k <= s.len(),
    ensures
        decimal_value(s.take(k)) <= decimal_value(s),
    decreases s.len(),
{
    if k == s.len() {
        assert(s.take(k) =~= s);
    } else {
        lemma_decimal_value_grows(s.drop_last(), k);
        assert(s.drop_last().take(k) =~= s.take(k));
    }
}

/// Reads `chars[from..]` as one or more decimal digits that stand for a number
/// of at most `u32::MAX`.
fn parse_digits_within(chars: &[char], from: usize) -> (r: Option<u32>)
    requires
        from <= chars@.len(),
    ensures
        match r {
            Some(n) => parse_digits(chars@.skip(from as int), u32::MAX as nat) == Some(n as nat),
            None => parse_digits(chars@.skip(from as int), u32::MAX as nat) is None,
        },
{
    let ghost digits = chars@.skip(from as int);
    if from == chars.len() {
        return None;
    }
    let mut value: u32 = 0;
    let mut at = from;
    assert(digits.take(0).len() == 0);
    while at < chars.len()
        invariant
            from <= at <= chars@.len(),
            digits == chars@.skip(from as int),
            all_digits(digits.take(at - from)),
            value == decimal_value(digits.take(at - from)),
        decreases chars.len() - at,
    {
        let c = chars[at];
        let ghost seen = digits.take(at - from + 1);
        assert(seen.drop_last() =~= digits.take(at - from));
        assert(seen.last() == c);
        if c < '0' || c > '9' {
            assert(!is_digit(digits[at - from]));
            return None;
        }
        let digit = c as u32 - '0' as u32;
        let next = match value.checked_mul(10) {
            Some(tens) => tens.checked_add(digit),
            None => None,
        };
        match next {
            Some(n) => {
                value = n;
            },
            None => {
                proof {
                    lemma_decimal_value_grows(digits, at - from + 1);
                }
                return None;
            },
        }
        at += 1;
        assert forall|i: int| 0 <= i < seen.len() implies is_digit(#[trigger] seen[i]) by {
            if i < seen.len() - 1 {
                assert(seen[i] == digits.take(at - from - 1)[i]);
            }
        }
    }
    assert(digits.take(at - from) =~= digits);
    Some(value)
}

/// Reads a `u32` written as an optional plus sign and decimal digits.
pub fn parse_u32(chars: &[char]) -> (r: Option<u32>)
    ensures
        r == parse_u32_spec(chars@),
{
    if chars.len() > 0 && chars[0] == '+' {
        parse_digits_within(chars, 1)
    } else {
        assert(chars@.skip(0) =~= chars@);
        parse_digits_within(chars, 0)
    }
}

/// Reads an `i32` written as an optional sign and decimal digits.
pub fn parse_i32(chars: &[char]) -> (r: Option<i32>)
    ensures
        r == parse_i32_spec(chars@),
{
    if chars.len() > 0 && chars[0] == '-' {
        match parse_digits_within(chars, 1) {
            Some(n) => if n <= 0x8000_0000 {
                Some((-(n as i64)) as i32)
            } else {
                None
            },
            None => None,
        }
    } else {
        let from: usize = if chars.len() > 0 && chars[0] == '+' {
            1
        } else {
            0
        };
        assert(chars@.skip(0) =~= chars@);
        match parse_digits_within(chars, from) {
            Some(n) => if n <= 0x7fff_ffff {
                Some(n as i32)
            } else {
                None
            },
            None => None,
        }
    }
}

/// Appends the decimal digits of `n` to `out`.
pub fn push_decimal(n: u32, out: &mut Vec<char>)
    ensures
        final(out)@ == old(out)@ + decimal_digits(n as nat),
    decreases n,
{
    if n >= 10 {
        push_decimal(n / 10, out);
    }
    let digit = (n % 10) as u8;
    let c = (48u8 + digit) as char;
    assert(c == digit_char((n % 10) as nat));
    out.push(c);
    assert(final(out)@ =~= old(out)@ + decimal_digits(n as nat));
}

/// The decimal digits of `n`, without leading zeros.
pub fn decimal_of(n: u32) -> (digits: Vec<char>)
    ensures
        digits@ == decimal_digits(n as nat),
{
    let mut digits: Vec<char> = Vec::new();
    push_decimal(n, &mut digits);
    assert(digits@ =~= decimal_digits(n as nat));
    digits
}

proof fn lemma_digit_char(d: nat)
    requires
        d < 10,
    ensures
        is_digit(digit_char(d)),
        digit_value(digit_char(d)) == d,
{
    assert(digit_char(d) as int == '0' as int + d);
}

/// The digits of a number are digits, and they stand for that number.
pub proof fn lemma_decimal_digits_value(n: nat)
    ensures
        decimal_digits(n).len() >= 1,
        all_digits(decimal_digits(n)),
        decimal_value(decimal_digits(n)) == n,
    decreases n,
{
    if n < 10 {
        lemma_digit_char(n);
        let s = decimal_digits(n);
        assert(s.drop_last() =~= Seq::<char>::empty());
        assert(decimal_value(s.drop_last()) == 0);
    } else {
        lemma_decimal_digits_value(n / 10);
        lemma_digit_char(n % 10);
        let s = decimal_digits(n);
        assert(s.drop_last() =~= decimal_digits(n / 10));
        assert forall|i: int| 0 <= i < s.len() implies is_digit(#[trigger] s[i]) by {
            if i < s.len() - 1 {
                assert(s[i] == decimal_digits(n / 10)[i]);
            }
        }
    }
}

/// Writing a `u32` in decimal and reading it back gives the same number.
pub proof fn lemma_parse_decimal_roundtrip(n: u32)
    ensures
        parse_u32_spec(decimal_digits(n as nat)) == Some(n),
{
    lemma_decimal_digits_value(n as nat);
    assert(is_digit(decimal_digits(n as nat)[0]));
}

/// The pieces of a text lie one behind the other, with one separator between
/// each two of them: the first starts the text, the last ends it, and none
/// holds a separator. So the text is its pieces joined by the separator.
pub proof fn lemma_split_covers_the_text(s: Seq<char>, sep: char)
    ensures
        split_ranges(s, sep).len() >= 1,
        split_ranges(s, sep)[0].0 == 0,
        split_ranges(s, sep).last().1 == s.len(),
        forall|k: int|
            0 <= k < split_ranges(s, sep).len() ==> 0 <= (#[trigger] split_ranges(s, sep)[k]).0
                <= split_ranges(s, sep)[k].1 <= s.len(),
        forall|k: int|
            0 <= k < split_ranges(s, sep).len() - 1 ==> s[(#[trigger] split_ranges(s, sep)[k]).1]
                == sep && split_ranges(s, sep)[k + 1].0 == split_ranges(s, sep)[k].1 + 1,
        forall|k: int, j: int|
            0 <= k < split_ranges(s, sep).len() && (#[trigger] split_ranges(s, sep)[k]).0 <= j
                < split_ranges(s, sep)[k].1 ==> #[trigger] s[j] != sep,
    decreases s.len(),
{
    if s.len() > 0 {
        let before = s.drop_last();
        lemma_split_covers_the_text(before, sep);
        let earlier = split_ranges(before, sep);
        let now = split_ranges(s, sep);
        assert forall|k: int| 0 <= k < now.len() - 1 implies s[(#[trigger] now[k]).1] == sep
            && now[k + 1].0 == now[k].1 + 1 by {
            if k < earlier.len() - 1 {
                assert(now[k] == earlier[k]);
                assert(before[earlier[k].1] == s[earlier[k].1]);
            }
        }
        assert forall|k: int, j: int|
            0 <= k < now.len() && (#[trigger] now[k]).0 <= j < now[k].1 implies #[trigger] s[j]
            != sep by {
            if k < earlier.len() && j < before.len() {
                assert(earlier[k].0 <= j < earlier[k].1);
                assert(before[j] == s[j]);
            }
        }
    }
}

/// Every line is a range of the text that holds no line feed.
pub proof fn lemma_lines_hold_no_line_feed(s: Seq<char>, k: int, j: int)
    requires
        0 <= k < line_ranges(s).len(),
        line_ranges(s)[k].0 <= j < line_ranges(s)[k].1,
    ensures
        0 <= line_ranges(s)[k].0 <= line_ranges(s)[k].1 <= s.len(),
        s[j] != '\n',
{
    lemma_split_covers_the_text(s, '\n');
    let pieces = split_ranges(s, '\n');
    assert(pieces[k].0 <= j < pieces[k].1);
}

/// What trimming leaves: a range of the text with nothing but whitespace
/// before it and behind it, which neither starts nor ends with whitespace.
pub proof fn lemma_trim_is_tight(s: Seq<char>)
    ensures
        0 <= trim_range(s).0 <= trim_range(s).1 <= s.len(),
        forall|k: int| 0 <= k < trim_range(s).0 ==> is_whitespace(#[trigger] s[k]),
        forall|k: int| trim_range(s).1 <= k < s.len() ==> is_whitespace(#[trigger] s[k]),
        trim_range(s).0 < trim_range(s).1 ==> !is_whitespace(s[trim_range(s).0])
            && !is_whitespace(s[trim_range(s).1 - 1]),
{
    lemma_trimmed_len_stops(s);
    let end = trimmed_len(s) as int;
    lemma_leading_whitespace_stops(s.take(end));
    let start = leading_whitespace(s.take(end)) as int;
    assert forall|k: int| 0 <= k < start implies is_whitespace(#[trigger] s[k]) by {
        assert(s.take(end)[k] == s[k]);
    }
    if start < end {
        assert(s.take(end)[start] == s[start]);
    }
}

proof fn lemma_trimmed_len_stops(s: Seq<char>)
    ensures
        trimmed_len(s) <= s.len(),
        trimmed_len(s) > 0 ==> !is_whitespace(s[trimmed_len(s) - 1]),
        forall|k: int| trimmed_len(s) <= k < s.len() ==> is_whitespace(#[trigger] s[k]),
    decreases s.len(),
{
    if s.len() > 0 && is_whitespace(s.last()) {
        lemma_trimmed_len_stops(s.drop_last());
        assert forall|k: int| trimmed_len(s) <= k < s.len() implies is_whitespace(
            #[trigger] s[k],
        ) by {
            if k < s.len() - 1 {
                assert(s[k] == s.drop_last()[k]);
            }
        }
    }
}

} // verus!

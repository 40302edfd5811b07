//! Line ranges: the window of lines that a request names, and the window
//! that the service is willing to serve.

use vstd::prelude::*;
use vstd::string::StringSliceAdditionalSpecFns;
use crate::error::PreviewError;

verus! {

/// The inclusive, 1-based window of lines that a request names. An absent
/// upper bound leaves the window open-ended.
#[derive(Clone, Copy, Debug, PartialEq, Eq)]
pub struct LineRange {
    pub from: u32,
    pub to: Option<u32>,
}

/// A window of lines with both bounds fixed, inclusive and 1-based. A window
/// whose upper bound is one below its lower bound is empty.
#[derive(Clone, Copy, Debug, PartialEq, Eq)]
pub struct ResolvedRange {
    pub from: u64,
    pub to: u64,
}

/// The byte that separates the two bounds of a range query.
pub const DASH: u8 = 45;

/// The sign that may stand before the digits of a bound.
pub const PLUS: u8 = 43;

/// Whether `b` is one of the characters `0` to `9`.
pub open spec fn is_digit(b: u8) -> bool {
    48 <= b <= 57
}

/// Whether `s` holds digits only.
pub open spec fn all_digits(s: Seq<u8>) -> bool {
    forall|i: int| 0 <= i < s.len() ==> is_digit(#[trigger] s[i])
}

/// The number that a run of digits writes in base ten.
pub open spec fn digits_value(s: Seq<u8>) -> nat
    decreases s.len(),
{
    if s.len() == 0 {
        0
    } else {
        digits_value(s.drop_last()) * 10 + if is_digit(s.last()) {
            (s.last() - 48) as nat
        } else {
            0nat
        }
    }
}

/// A bound without the sign that may stand before its digits.
pub open spec fn unsigned(s: Seq<u8>) -> Seq<u8> {
    if s.len() > 0 && s[0] == PLUS {
        s.skip(1)
    } else {
        s
    }
}

/// The number that a text writes: at least one digit, possibly after a plus
/// sign, with a value that 32 bits hold. Anything else writes no number.
pub open spec fn number_written(s: Seq<u8>) -> Option<u32> {
    let digits = unsigned(s);
    if digits.len() > 0 && all_digits(digits) && digits_value(digits) <= u32::MAX {
        Some(digits_value(digits) as u32)
    } else {
        None
    }
}

/// The range that two bounds ask for. A lower bound that is missing, or 0,
/// stands for the first line; an upper bound that is missing or lies below
/// the lower bound leaves the range open-ended.
pub open spec fn requested(from: Option<u32>, to: Option<u32>) -> LineRange {
    let first = match from {
        Some(f) if f >= 1 => f,
        _ => 1u32,
    };
    LineRange {
        from: first,
        to: match to {
            Some(t) if t >= first => Some(t),
            _ => None,
        },
    }
}

/// Where the first separator of `s` stands, if `s` holds one.
pub open spec fn first_dash(s: Seq<u8>) -> int {
    choose|i: int| 0 <= i < s.len() && s[i] == DASH && !s.take(i).contains(DASH)
}

/// What a range query means. Without a separator the whole query is the
/// lower bound; with one separator the query is its two bounds; with more it
/// is refused. A bound that writes no number counts as missing.
pub open spec fn parsed(s: Seq<u8>) -> Result<LineRange, PreviewError> {
    if !s.contains(DASH) {
        Ok(requested(number_written(s), None))
    } else {
        let at = first_dash(s);
        if s.skip(at + 1).contains(DASH) {
            Err(PreviewError::InvalidRangeFormat)
        } else {
            Ok(requested(number_written(s.take(at)), number_written(s.skip(at + 1))))
        }
    }
}

/// A longer run of digits does not write a smaller number than its
/// beginning does.
pub proof fn lemma_digits_value_grows(s: Seq<u8>, k: int)
    requires
        0 <= k <= s.len(),
    ensures
        digits_value(s.take(k)) <= digits_value(s),
    decreases s.len(),
{
    if k == s.len() {
        assert(s.take(k) =~= s);
    } else {
        lemma_digits_value_grows(s.drop_last(), k);
        assert(s.drop_last().take(k) =~= s.take(k));
    }
}

/// Reads the number that stands in `bytes` from `start` up to `end`.
fn parse_number(bytes: &[u8], start: usize, end: usize) -> (number: Option<u32>)
    requires
        start <= end <= bytes.len(),
    ensures
        number == number_written(bytes@.subrange(start as int, end as int)),
{
    let ghost field = bytes@.subrange(start as int, end as int);
    let mut i: usize = start;
    if i < end && bytes[i] == PLUS {
        i = i + 1;
    }
    let first: usize = i;
    let ghost digits = bytes@.subrange(first as int, end as int);
    assert(digits =~= unsigned(field));
    if first == end {
        return None;
    }
    let mut acc: u64 = 0;
    while i < end
        invariant
            start <= first <= i <= end <= bytes.len(),
            digits == bytes@.subrange(first as int, end as int),
            digits == unsigned(bytes@.subrange(start as int, end as int)),
            all_digits(digits.take(i - first)),
            acc == digits_value(digits.take(i - first)),
            acc <= u32::MAX,
        decreases end - i,
    {
        let b: u8 = bytes[i];
        assert(digits[i - first] == b);
        if b < 48 || b > 57 {
            return None;
        }
        let next: u64 = acc * 10 + (b - 48) as u64;
        proof {
            assert(digits.take(i - first + 1).drop_last() =~= digits.take(i - first));
            lemma_digits_value_grows(digits, i - first + 1);
        }
        if next > u32::MAX as u64 {
            return None;
        }
        acc = next;
        i = i + 1;
    }
    assert(digits.take(i - first) =~= digits);
    Some(acc as u32)
}

/// Reads the number that a text writes, if it writes one.
pub fn number_of(text: &str) -> (number: Option<u32>)
    ensures
        number == number_written(text.spec_bytes()),
{
    let bytes = text.as_bytes();
    assert(bytes@.subrange(0, bytes@.len() as int) =~= bytes@);
    parse_number(bytes, 0, bytes.len())
}

impl LineRange {
    /// The first line is numbered 1, and a present upper bound does not lie
    /// below the lower bound.
    pub open spec fn wf(self) -> bool {
        &&& self.from >= 1
        &&& self.to matches Some(t) ==> t >= self.from
    }

    /// The range that two bounds ask for; either may be missing.
    pub fn new(from: Option<u32>, to: Option<u32>) -> (range: LineRange)
        ensures
            range == requested(from, to),
            range.wf(),
    {
        let first: u32 = match from {
            Some(f) => if f >= 1 { f } else { 1 },
            None => 1,
        };
        let last: Option<u32> = match to {
            Some(t) => if t >= first { Some(t) } else { None },
            None => None,
        };
        LineRange { from: first, to: last }
    }

    /// Reads a range query given as its bytes.
    pub fn parse_bytes(query: &[u8]) -> (result: Result<LineRange, PreviewError>)
        ensures
            result == parsed(query@),
            result matches Ok(range) ==> range.wf(),
    {
        let n: usize = query.len();
        let mut i: usize = 0;
        while i < n && query[i] != DASH
            invariant
                i <= n == query.len(),
                !query@.take(i as int).contains(DASH),
            decreases n - i,
        {
            proof {
                let before = query@.take(i as int);
                let after = query@.take(i + 1);
                assert forall|k: int| 0 <= k < after.len() implies after[k] != DASH by {
                    if k < i {
                        assert(before[k] == after[k]);
                        assert(before.contains(before[k]));
                    }
                }
            }
            i = i + 1;
        }
        if i == n {
            assert(query@.take(i as int) =~= query@);
            assert(query@.subrange(0, n as int) =~= query@);
            return Ok(LineRange::new(parse_number(query, 0, n), None));
        }
        proof {
            assert(query@[i as int] == DASH);
            assert(query@.contains(DASH));
            let at = first_dash(query@);
            if at < i {
                assert(query@.take(i as int)[at] == DASH);
                assert(query@.take(i as int).contains(DASH));
            }
            if at > i {
                assert(query@.take(at)[i as int] == DASH);
                assert(query@.take(at).contains(DASH));
            }
            assert(at == i);
        }
        let mut j: usize = i + 1;
        while j < n && query[j] != DASH
            invariant
                i < j <= n == query.len(),
                !query@.subrange(i + 1, j as int).contains(DASH),
            decreases n - j,
        {
            proof {
                let before = query@.subrange(i + 1, j as int);
                let after = query@.subrange(i + 1, j + 1);
                assert forall|k: int| 0 <= k < after.len() implies after[k] != DASH by {
                    if k < before.len() {
                        assert(before[k] == after[k]);
                        assert(before.contains(before[k]));
                    }
                }
            }
            j = j + 1;
        }
        let ghost rest = query@.skip(i + 1);
        if j < n {
            assert(rest[j - i - 1] == DASH);
            assert(rest.contains(DASH));
            return Err(PreviewError::InvalidRangeFormat);
        }
        assert(query@.subrange(i + 1, j as int) =~= rest);
        assert(query@.subrange(0, i as int) =~= query@.take(i as int));
        Ok(LineRange::new(parse_number(query, 0, i), parse_number(query, i + 1, n)))
    }

    /// Reads a range query of the form `from-to`, `from-` or `from`.
    pub fn parse(query: &str) -> (result: Result<LineRange, PreviewError>)
        ensures
            result == parsed(query.spec_bytes()),
            result matches Ok(range) ==> range.wf(),
    {
        LineRange::parse_bytes(query.as_bytes())
    }
}

/// The range that an image request asks for: the default where it names
/// none, else what its query means. A malformed query fails the request.
pub open spec fn image_lines(query: Option<Seq<u8>>) -> Result<LineRange, PreviewError> {
    match query {
        Some(q) => parsed(q),
        None => Ok(LineRange { from: 1, to: None }),
    }
}

/// The range that a card request asks for: as for an image request, but a
/// malformed query counts as none.
pub open spec fn card_lines(query: Option<Seq<u8>>) -> LineRange {
    match image_lines(query) {
        Ok(range) => range,
        Err(_) => LineRange { from: 1, to: None },
    }
}

/// The range of an image request with the given range query, if it has one.
pub fn lines_for_image(query: Option<&str>) -> (result: Result<LineRange, PreviewError>)
    ensures
        result == image_lines(
            match query {
                Some(q) => Some(q.spec_bytes()),
                None => None,
            },
        ),
        result matches Ok(range) ==> range.wf(),
{
    match query {
        Some(q) => LineRange::parse(q),
        None => Ok(LineRange { from: 1, to: None }),
    }
}

/// The range of a card request with the given range query, if it has one.
pub fn lines_for_card(query: Option<&str>) -> (range: LineRange)
    ensures
        range == card_lines(
            match query {
                Some(q) => Some(q.spec_bytes()),
                None => None,
            },
        ),
        range.wf(),
{
    match lines_for_image(query) {
        Ok(range) => range,
        Err(_) => LineRange { from: 1, to: None },
    }
}

impl Default for LineRange {
    /// The range of a request that names none: from the first line on.
    fn default() -> (range: LineRange)
        ensures
            range == (LineRange { from: 1, to: None }),
            range.wf(),
    {
        LineRange { from: 1, to: None }
    }
}

impl ResolvedRange {
    /// The window starts at line 1 or later and its upper bound lies at most
    /// one line below its lower bound.
    pub open spec fn wf(self) -> bool {
        1 <= self.from <= self.to + 1
    }
}

/// The window that is served for a requested one: the requested window where
/// it is narrower than `max_window` lines measured bound to bound, else the
/// `max_window` lines that start at its first line.
pub open spec fn resolved(range: LineRange, max_window: u32) -> ResolvedRange {
    match range.to {
        Some(t) if t - range.from < max_window => ResolvedRange {
            from: range.from as u64,
            to: t as u64,
        },
        _ => ResolvedRange {
            from: range.from as u64,
            to: (range.from + max_window - 1) as u64,
        },
    }
}

/// Caps a requested window at `max_window` lines without moving its start.
pub fn clamp_query_lines(lines: &LineRange, max_window: u32) -> (window: ResolvedRange)
    requires
        lines.wf(),
    ensures
        window == resolved(*lines, max_window),
        window.wf(),
        window.from == lines.from,
        window.to - window.from < max_window,
{
    let from: u64 = lines.from as u64;
    let capped: u64 = from + max_window as u64 - 1;
    match lines.to {
        Some(t) => {
            if ((t - lines.from) as u64) < max_window as u64 {
                ResolvedRange { from, to: t as u64 }
            } else {
                ResolvedRange { from, to: capped }
            }
        },
        None => ResolvedRange { from, to: capped },
    }
}


/// The digits that write `n` in base ten, without leading zeros.
pub open spec fn decimal(n: nat) -> Seq<u8>
    decreases n,
{
    if n < 10 {
        seq![(48 + n) as u8]
    } else {
        decimal(n / 10).push((48 + n % 10) as u8)
    }
}

/// What is written in base ten reads back as the same number.
pub proof fn lemma_decimal_reads_back(n: nat)
    ensures
        decimal(n).len() > 0,
        all_digits(decimal(n)),
        digits_value(decimal(n)) == n,
        n <= u32::MAX ==> number_written(decimal(n)) == Some(n as u32),
    decreases n,
{
    let s = decimal(n);
    if n < 10 {
        assert(s.drop_last() =~= Seq::<u8>::empty());
        assert(digits_value(Seq::<u8>::empty()) == 0);
        assert(s.last() == 48 + n);
    } else {
        lemma_decimal_reads_back(n / 10);
        assert(s.drop_last() =~= decimal(n / 10));
        assert(s.last() == 48 + n % 10);
        assert(digits_value(s) == (n / 10) * 10 + n % 10);
    }
    assert(is_digit(s[0]));
    assert(unsigned(s) == s);
}

/// A query of two bounds with one separator between them asks for the range
/// of those bounds.
pub proof fn lemma_two_bounds(lower: Seq<u8>, upper: Seq<u8>)
    requires
        !lower.contains(DASH),
        !upper.contains(DASH),
    ensures
        parsed(lower + seq![DASH] + upper) == Ok::<LineRange, PreviewError>(
            requested(number_written(lower), number_written(upper)),
        ),
{
    let s = lower + seq![DASH] + upper;
    let mid = lower.len() as int;
    assert(s[mid] == DASH);
    assert(s.contains(DASH));
    assert(s.take(mid) =~= lower);
    let at = first_dash(s);
    if at < mid {
        assert(lower[at] == DASH);
        assert(lower.contains(DASH));
    }
    if at > mid {
        assert(s.take(at)[mid] == DASH);
        assert(s.take(at).contains(DASH));
    }
    assert(s.skip(mid + 1) =~= upper);
}

/// Digits hold no separator.
pub proof fn lemma_digits_hold_no_dash(s: Seq<u8>)
    requires
        all_digits(s),
    ensures
        !s.contains(DASH),
{
    if s.contains(DASH) {
        let i = choose|i: int| 0 <= i < s.len() && s[i] == DASH;
        assert(is_digit(s[i]));
    }
}

/// A query `from-to` with `1 <= from <= to` asks for exactly the lines
/// `from` to `to`.
pub proof fn law_ascending_query_is_kept(from: u32, to: u32)
    requires
        1 <= from <= to,
    ensures
        parsed(decimal(from as nat) + seq![DASH] + decimal(to as nat)) == Ok::<
            LineRange,
            PreviewError,
        >(LineRange { from, to: Some(to) }),
{
    lemma_decimal_reads_back(from as nat);
    lemma_decimal_reads_back(to as nat);
    lemma_digits_hold_no_dash(decimal(from as nat));
    lemma_digits_hold_no_dash(decimal(to as nat));
    lemma_two_bounds(decimal(from as nat), decimal(to as nat));
}

/// A query `from-to` with `to < from` is not refused: it asks for the lines
/// from `from` on, with no upper bound.
pub proof fn law_descending_query_is_open_ended(from: u32, to: u32)
    requires
        to < from,
    ensures
        parsed(decimal(from as nat) + seq![DASH] + decimal(to as nat)) == Ok::<
            LineRange,
            PreviewError,
        >(LineRange { from, to: None }),
{
    lemma_decimal_reads_back(from as nat);
    lemma_decimal_reads_back(to as nat);
    lemma_digits_hold_no_dash(decimal(from as nat));
    lemma_digits_hold_no_dash(decimal(to as nat));
    lemma_two_bounds(decimal(from as nat), decimal(to as nat));
}

/// Whatever range is requested and whatever the cap, the served window
/// starts where the requested one does and spans fewer than `max_window`
/// lines from bound to bound.
pub proof fn law_resolved_window_is_capped(range: LineRange, max_window: u32)
    requires
        range.wf(),
    ensures
        resolved(range, max_window).wf(),
        resolved(range, max_window).from == range.from,
        resolved(range, max_window).to - resolved(range, max_window).from < max_window,
{
}

/// A requested window that is already narrower than the cap is served
/// unchanged.
pub proof fn law_narrow_range_is_unchanged(range: LineRange, max_window: u32)
    requires
        range.wf(),
        range.to matches Some(t) && t - range.from < max_window,
    ensures
        resolved(range, max_window).from == range.from,
        resolved(range, max_window).to == range.to->Some_0,
{
}

/// Resolving twice changes nothing: a request for the served window is
/// served that same window.
pub proof fn law_resolving_is_idempotent(range: LineRange, max_window: u32, again: LineRange)
    requires
        range.wf(),
        again.from == resolved(range, max_window).from,
        again.to matches Some(t) && t == resolved(range, max_window).to,
    ensures
        resolved(again, max_window) == resolved(range, max_window),
{
}

} // verus!

//! Text as sequences of characters: searching, cutting and writing numbers.

use vstd::prelude::*;
use vstd::string::StrSliceExecFns;
use vstd::string::StringExecFns;
use crate::range::decimal;

verus! {

/// Whether `needle` stands in `hay` at index `at`.
pub open spec fn occurs_at(needle: Seq<char>, hay: Seq<char>, at: int) -> bool {
    &&& 0 <= at
    &&& at + needle.len() <= hay.len()
    &&& hay.subrange(at, at + needle.len()) == needle
}

/// Whether `needle` stands somewhere in `hay`.
pub open spec fn occurs(needle: Seq<char>, hay: Seq<char>) -> bool {
    exists|at: int| occurs_at(needle, hay, at)
}

/// What follows the last `/` of `s`; all of `s` where it holds none.
pub open spec fn after_last_slash(s: Seq<char>) -> Seq<char>
    decreases s.len(),
{
    if s.len() == 0 || s.last() == '/' {
        Seq::empty()
    } else {
        after_last_slash(s.drop_last()).push(s.last())
    }
}

/// Bytes read as characters, one for one.
pub open spec fn text_of(bytes: Seq<u8>) -> Seq<char> {
    Seq::new(bytes.len(), |i: int| bytes[i] as char)
}

/// The text that writes `n` in base ten.
pub open spec fn decimal_text(n: nat) -> Seq<char> {
    text_of(decimal(n))
}

/// The characters of `s`, one by one.
pub fn chars_of(s: &str) -> (out: Vec<char>)
    ensures
        out@ == s@,
{
    let mut out: Vec<char> = Vec::new();
    for c in it: s.chars()
        invariant
            it.seq() == s@,
            out@ == it.seq().take(it.index() as int),
    {
        out.push(c);
        proof {
            assert(it.seq().take(it.index() + 1).drop_last() =~= it.seq().take(it.index() as int));
        }
    }
    out
}

/// Whether `pattern` stands in `text` at `at`.
fn matches_at(text: &Vec<char>, pattern: &Vec<char>, at: usize) -> (found: bool)
    requires
        at + pattern.len() <= text.len(),
    ensures
        found == occurs_at(pattern@, text@, at as int),
{
    let m: usize = pattern.len();
    let ghost piece = text@.subrange(at as int, at + m);
    let mut j: usize = 0;
    while j < m
        invariant
            j <= m == pattern.len(),
            at + m <= text.len(),
            piece == text@.subrange(at as int, at + m),
            forall|k: int| 0 <= k < j ==> piece[k] == pattern@[k],
        decreases m - j,
    {
        if text[at + j] != pattern[j] {
            assert(piece[j as int] != pattern@[j as int]);
            return false;
        }
        j = j + 1;
    }
    assert(piece =~= pattern@);
    true
}

/// Whether `pattern` stands somewhere in `text`.
pub fn mentions(text: &Vec<char>, pattern: &Vec<char>) -> (found: bool)
    ensures
        found == occurs(pattern@, text@),
{
    let n: usize = text.len();
    let m: usize = pattern.len();
    if m > n {
        return false;
    }
    let last: usize = n - m;
    let mut at: usize = 0;
    loop
        invariant
            at <= last,
            last == n - m,
            n == text.len(),
            m == pattern.len(),
            forall|k: int| 0 <= k < at ==> !occurs_at(pattern@, text@, k),
        decreases last - at,
    {
        if matches_at(text, pattern, at) {
            return true;
        }
        if at == last {
            return false;
        }
        at = at + 1;
    }
}

/// Where no `/` stands from `start` on and one stands just before it, the
/// text from `start` on is what follows the last `/`.
pub proof fn lemma_after_last_slash(s: Seq<char>, start: int)
    requires
        0 <= start <= s.len(),
        start == 0 || s[start - 1] == '/',
        forall|k: int| start <= k < s.len() ==> s[k] != '/',
    ensures
        after_last_slash(s) == s.skip(start),
    decreases s.len(),
{
    if s.len() == start {
        assert(s.skip(start) =~= Seq::<char>::empty());
    } else {
        lemma_after_last_slash(s.drop_last(), start);
        assert(s.drop_last().skip(start).push(s.last()) =~= s.skip(start));
    }
}

/// The last segment of a path: what follows its last `/`.
pub fn file_name(path: &str) -> (name: String)
    ensures
        name@ == after_last_slash(path@),
{
    let chars = chars_of(path);
    let mut start: usize = chars.len();
    while start > 0 && chars[start - 1] != '/'
        invariant
            start <= chars.len(),
            forall|k: int| start <= k < chars.len() ==> chars@[k] != '/',
        decreases start,
    {
        start = start - 1;
    }
    proof {
        lemma_after_last_slash(path@, start as int);
        assert(path@.skip(start as int) =~= path@.subrange(start as int, path@.len() as int));
    }
    String::from_str(path.substring_char(start, chars.len()))
}

/// The text of one digit.
fn digit_str(d: u8) -> (text: &'static str)
    requires
        d < 10,
    ensures
        text@ == seq![(48 + d) as u8 as char],
{
    proof {
        reveal_strlit("0");
        reveal_strlit("1");
        reveal_strlit("2");
        reveal_strlit("3");
        reveal_strlit("4");
        reveal_strlit("5");
        reveal_strlit("6");
        reveal_strlit("7");
        reveal_strlit("8");
        reveal_strlit("9");
    }
    let text = match d {
        0 => "0",
        1 => "1",
        2 => "2",
        3 => "3",
        4 => "4",
        5 => "5",
        6 => "6",
        7 => "7",
        8 => "8",
        _ => "9",
    };
    assert(text@ =~= seq![(48 + d) as u8 as char]);
    text
}

/// Writes `n` in base ten at the end of `out`.
pub fn write_decimal(out: &mut String, n: u64)
    ensures
        final(out)@ == old(out)@ + decimal_text(n as nat),
    decreases n,
{
    if n >= 10 {
        write_decimal(out, n / 10);
    }
    let ghost before = out@;
    out.append(digit_str((n % 10) as u8));
    proof {
        let last = seq![(48 + n % 10) as u8 as char];
        if n >= 10 {
            assert(decimal_text(n as nat) =~= decimal_text((n / 10) as nat) + last);
            assert(old(out)@ + decimal_text((n / 10) as nat) + last =~= old(out)@ + decimal_text(
                n as nat,
            ));
        } else {
            assert(decimal_text(n as nat) =~= last);
        }
    }
}

} // verus!

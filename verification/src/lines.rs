//! Cutting a window of lines out of a text that is held whole.

use vstd::prelude::*;
use crate::extract::{
    law_window_is_the_requested_lines, lemma_line_start_bounded, lemma_line_start_monotone,
    lemma_newlines_of_subrange, lemma_newlines_push, line_start, newlines, window, NEWLINE,
};
use crate::range::{clamp_query_lines, resolved, LineRange, ResolvedRange};

verus! {

/// The byte that may stand before a line break and then belongs to it.
pub const CARRIAGE_RETURN: u8 = 13;

/// `w` with each line break written as a single byte: a carriage return
/// that stands just before a line break is left out.
pub open spec fn unbroken(w: Seq<u8>) -> Seq<u8>
    decreases w.len(),
{
    if w.len() == 0 {
        Seq::empty()
    } else if w.len() >= 2 && w.last() == NEWLINE && w[w.len() - 2] == CARRIAGE_RETURN {
        unbroken(w.drop_last().drop_last()).push(NEWLINE)
    } else {
        unbroken(w.drop_last()).push(w.last())
    }
}

/// The lines `range.from ..= range.to` of the text `s`, each ended by a
/// single line break: also the last line of the text where the text does not
/// end it.
pub open spec fn selected_lines(s: Seq<u8>, range: ResolvedRange) -> Seq<u8> {
    let w = s.subrange(
        line_start(s, (range.from - 1) as nat) as int,
        line_start(s, range.to as nat) as int,
    );
    if w.len() > 0 && w.last() != NEWLINE {
        unbroken(w).push(NEWLINE)
    } else {
        unbroken(w)
    }
}

/// The start of a line lies where a beginning of the text that reaches the
/// line puts it.
pub proof fn lemma_line_start_of_prefix(s: Seq<u8>, p: int, k: nat)
    requires
        0 <= p <= s.len(),
        newlines(s.take(p)) >= k,
    ensures
        line_start(s, k) == line_start(s.take(p), k),
    decreases s.len() - p,
{
    if p == s.len() {
        assert(s.take(p) =~= s);
    } else if k > 0 {
        lemma_newlines_of_subrange(s.drop_last(), p, s.len() - 1);
        assert(s.drop_last().take(s.len() - 1) =~= s.drop_last());
        assert(s.drop_last().take(p) =~= s.take(p));
        lemma_line_start_of_prefix(s.drop_last(), p, k);
    }
}

/// Finds where the line with 0-based number `k` starts.
fn find_line_start(text: &[u8], k: u64) -> (at: usize)
    ensures
        at == line_start(text@, k as nat),
{
    if k == 0 {
        return 0;
    }
    let mut i: usize = 0;
    let mut seen: u64 = 0;
    assert(text@.take(0) =~= Seq::<u8>::empty());
    while i < text.len()
        invariant
            i <= text.len(),
            seen == newlines(text@.take(i as int)),
            seen < k,
        decreases text.len() - i,
    {
        proof {
            lemma_newlines_push(text@.take(i as int), text@[i as int]);
            assert(text@.take(i as int).push(text@[i as int]) =~= text@.take(i + 1));
        }
        if text[i] == NEWLINE {
            seen = seen + 1;
            if seen == k {
                proof {
                    let upto = text@.take(i + 1);
                    assert(upto.drop_last() =~= text@.take(i as int));
                    lemma_line_start_of_prefix(text@, i + 1, k as nat);
                }
                return i + 1;
            }
        }
        i = i + 1;
    }
    proof {
        assert(text@.take(i as int) =~= text@);
        lemma_line_start_bounded(text@, k as nat);
    }
    text.len()
}

/// The lines `lines.from ..= lines.to` of a text, each ended by a single
/// line break.
pub fn substring_lines(text: &[u8], lines: &ResolvedRange) -> (out: Vec<u8>)
    requires
        lines.wf(),
    ensures
        out@ == selected_lines(text@, *lines),
{
    let lo: usize = find_line_start(text, lines.from - 1);
    let hi: usize = find_line_start(text, lines.to);
    proof {
        lemma_line_start_monotone(text@, (lines.from - 1) as nat, lines.to as nat);
        lemma_line_start_bounded(text@, lines.to as nat);
    }
    let ghost w = text@.subrange(lo as int, hi as int);
    let mut out: Vec<u8> = Vec::new();
    let mut i: usize = lo;
    assert(w.take(0) =~= Seq::<u8>::empty());
    while i < hi
        invariant
            lo <= i <= hi <= text.len(),
            w == text@.subrange(lo as int, hi as int),
            out@ == unbroken(w.take(i - lo)),
            i > lo && i < hi && text@[i - 1] == CARRIAGE_RETURN ==> text@[i as int] != NEWLINE,
        decreases hi - i,
    {
        let b: u8 = text[i];
        if b == CARRIAGE_RETURN && i + 1 < hi && text[i + 1] == NEWLINE {
            proof {
                let upto = w.take(i - lo + 2);
                assert(upto.drop_last().drop_last() =~= w.take(i - lo));
                assert(upto.last() == NEWLINE);
                assert(upto[upto.len() - 2] == CARRIAGE_RETURN);
            }
            out.push(NEWLINE);
            i = i + 2;
        } else {
            proof {
                let upto = w.take(i - lo + 1);
                assert(upto.drop_last() =~= w.take(i - lo));
                assert(upto.last() == b);
                if upto.len() >= 2 {
                    assert(upto[upto.len() - 2] == text@[i - 1]);
                }
            }
            out.push(b);
            i = i + 1;
        }
    }
    assert(w.take(hi - lo) =~= w);
    if hi > lo && text[hi - 1] != NEWLINE {
        out.push(NEWLINE);
    }
    out
}

/// The lines of a text that a request asks for, capped at `max_window`
/// lines, each ended by a single line break.
pub fn substring_lines_with_max(text: &[u8], lines: &LineRange, max_window: u32) -> (out: Vec<u8>)
    requires
        lines.wf(),
    ensures
        out@ == selected_lines(text@, resolved(*lines, max_window)),
{
    let capped = clamp_query_lines(lines, max_window);
    substring_lines(text, &capped)
}

/// A text without carriage returns has nothing to rewrite.
pub proof fn lemma_unbroken_without_returns(w: Seq<u8>)
    requires
        forall|i: int| 0 <= i < w.len() ==> w[i] != CARRIAGE_RETURN,
    ensures
        unbroken(w) == w,
    decreases w.len(),
{
    if w.len() > 0 {
        lemma_unbroken_without_returns(w.drop_last());
        assert(w.drop_last().push(w.last()) =~= w);
    }
}

/// Cutting lines out of a text that is held whole and cutting them out of
/// the same text as a stream agree: where the text holds no carriage return
/// and reaches the end of the last requested line, and the budget reaches
/// beyond it, both give the same bytes.
pub proof fn law_whole_text_and_stream_agree(s: Seq<u8>, range: ResolvedRange, max_bytes: u32)
    requires
        range.wf(),
        newlines(s) >= range.to,
        line_start(s, range.to as nat) < max_bytes,
        forall|i: int| 0 <= i < s.len() ==> s[i] != CARRIAGE_RETURN,
    ensures
        selected_lines(s, range) == window(s, range, max_bytes),
{
    law_window_is_the_requested_lines(s, range, max_bytes);
    lemma_line_start_bounded(s, range.to as nat);
    lemma_line_start_monotone(s, (range.from - 1) as nat, range.to as nat);
    lemma_unbroken_without_returns(window(s, range, max_bytes));
}

} // verus!

//! Cutting a window of lines out of a byte stream that arrives in chunks,
//! under a budget of bytes that may be read.

use vstd::prelude::*;
use crate::range::ResolvedRange;

verus! {

/// The byte that ends a line.
pub const NEWLINE: u8 = 10;

/// How many line breaks `s` holds.
pub open spec fn newlines(s: Seq<u8>) -> nat
    decreases s.len(),
{
    if s.len() == 0 {
        0
    } else {
        newlines(s.drop_last()) + if s.last() == NEWLINE { 1nat } else { 0nat }
    }
}

/// Where the line with 0-based number `k` starts in `s`: the index just past
/// the `k`-th line break. Line 0 starts at index 0, and a line that `s` does
/// not reach starts at the end of `s`.
pub open spec fn line_start(s: Seq<u8>, k: nat) -> nat
    decreases s.len(),
{
    if k == 0 || s.len() == 0 {
        0
    } else if newlines(s.drop_last()) >= k {
        line_start(s.drop_last(), k)
    } else {
        s.len()
    }
}

/// How many leading bytes of `s` the budget lets through: the byte at index
/// `i` is let through only while `i + 1` stays below `max_bytes`.
pub open spec fn budget_limit(s: Seq<u8>, max_bytes: u32) -> nat {
    if max_bytes == 0 {
        0
    } else if s.len() <= max_bytes - 1 {
        s.len()
    } else {
        (max_bytes - 1) as nat
    }
}

/// The smaller of two indices.
pub open spec fn at_most(a: nat, limit: nat) -> nat {
    if a <= limit {
        a
    } else {
        limit
    }
}

/// The bytes of the lines `range.from ..= range.to` of `s`, each with the
/// line break that ends it, cut off where the budget ends.
pub open spec fn window(s: Seq<u8>, range: ResolvedRange, max_bytes: u32) -> Seq<u8> {
    let limit = budget_limit(s, max_bytes);
    s.subrange(
        at_most(line_start(s, (range.from - 1) as nat), limit) as int,
        at_most(line_start(s, range.to as nat), limit) as int,
    )
}

/// Whether a byte that follows `s` in the stream belongs to the window: the
/// budget still lets it through and it lies on one of the requested lines.
pub open spec fn retains_next(s: Seq<u8>, range: ResolvedRange, max_bytes: u32) -> bool {
    &&& s.len() + 1 < max_bytes
    &&& range.from - 1 <= newlines(s) < range.to
}

/// Whether nothing that follows `s` in the stream can belong to the window:
/// the budget is used up or the last requested line has ended.
pub open spec fn is_closed(s: Seq<u8>, range: ResolvedRange, max_bytes: u32) -> bool {
    s.len() >= max_bytes || newlines(s) >= range.to
}

/// What a scan of `s` keeps that goes byte by byte, keeps a byte where the
/// budget lets it through and it lies on a requested line, and counts a
/// line break to the line that it ends.
pub open spec fn scanned(s: Seq<u8>, range: ResolvedRange, max_bytes: u32) -> Seq<u8>
    decreases s.len(),
{
    if s.len() == 0 {
        Seq::empty()
    } else if retains_next(s.drop_last(), range, max_bytes) {
        scanned(s.drop_last(), range, max_bytes).push(s.last())
    } else {
        scanned(s.drop_last(), range, max_bytes)
    }
}

/// All chunks of a stream, one after the other.
pub open spec fn joined(chunks: Seq<Seq<u8>>) -> Seq<u8>
    decreases chunks.len(),
{
    if chunks.len() == 0 {
        Seq::empty()
    } else {
        joined(chunks.drop_last()) + chunks.last()
    }
}

/// The chunks that the buffers of a stream hold.
pub open spec fn chunks_of(stream: Seq<Vec<u8>>) -> Seq<Seq<u8>> {
    Seq::new(stream.len(), |i: int| stream[i]@)
}

/// A stream cut into chunks of one byte each.
pub open spec fn bytewise(s: Seq<u8>) -> Seq<Seq<u8>> {
    Seq::new(s.len(), |i: int| seq![s[i]])
}

/// A stream holds no more line breaks than bytes.
pub proof fn lemma_newlines_bounded(s: Seq<u8>)
    ensures
        newlines(s) <= s.len(),
    decreases s.len(),
{
    if s.len() > 0 {
        lemma_newlines_bounded(s.drop_last());
    }
}

/// One more byte adds one line break where it is one, and none where it is
/// not.
pub proof fn lemma_newlines_push(s: Seq<u8>, b: u8)
    ensures
        newlines(s.push(b)) == newlines(s) + if b == NEWLINE { 1nat } else { 0nat },
{
    assert(s.push(b).drop_last() =~= s);
}

/// A line starts inside the stream or at its end, and at its end where the
/// stream does not reach the line.
pub proof fn lemma_line_start_bounded(s: Seq<u8>, k: nat)
    ensures
        line_start(s, k) <= s.len(),
        newlines(s) < k ==> line_start(s, k) == s.len(),
    decreases s.len(),
{
    if k != 0 && s.len() != 0 {
        lemma_line_start_bounded(s.drop_last(), k);
    }
}

/// A later line does not start before an earlier one.
pub proof fn lemma_line_start_monotone(s: Seq<u8>, j: nat, k: nat)
    requires
        j <= k,
    ensures
        line_start(s, j) <= line_start(s, k),
    decreases s.len(),
{
    lemma_line_start_bounded(s, j);
    lemma_line_start_bounded(s, k);
    if j != 0 && s.len() != 0 {
        lemma_line_start_monotone(s.drop_last(), j, k);
    }
}

/// One more byte leaves the start of a line that the stream has reached
/// where it was, and moves the start of any later line to the new end.
pub proof fn lemma_line_start_push(s: Seq<u8>, b: u8, k: nat)
    ensures
        line_start(s.push(b), k) == if k == 0 {
            0
        } else if newlines(s) >= k {
            line_start(s, k)
        } else {
            s.len() + 1
        },
{
    assert(s.push(b).drop_last() =~= s);
}

/// One more byte of the stream extends the window by that byte where it
/// belongs to the window, and leaves the window as it is where it does not.
pub proof fn lemma_window_push(s: Seq<u8>, b: u8, range: ResolvedRange, max_bytes: u32)
    requires
        range.wf(),
    ensures
        window(s.push(b), range, max_bytes) == if retains_next(s, range, max_bytes) {
            window(s, range, max_bytes).push(b)
        } else {
            window(s, range, max_bytes)
        },
{
    let t = s.push(b);
    let lo = (range.from - 1) as nat;
    let hi = range.to as nat;
    lemma_line_start_push(s, b, lo);
    lemma_line_start_push(s, b, hi);
    lemma_line_start_bounded(s, lo);
    lemma_line_start_bounded(s, hi);
    lemma_line_start_monotone(s, lo, hi);
    lemma_line_start_monotone(t, lo, hi);
    if retains_next(s, range, max_bytes) {
        assert(window(t, range, max_bytes) =~= window(s, range, max_bytes).push(b));
    } else {
        assert(window(t, range, max_bytes) =~= window(s, range, max_bytes));
    }
}

/// Once the window is closed, whatever follows in the stream changes
/// neither the window nor the fact that it is closed.
pub proof fn lemma_closed_stays(s: Seq<u8>, rest: Seq<u8>, range: ResolvedRange, max_bytes: u32)
    requires
        range.wf(),
        is_closed(s, range, max_bytes),
    ensures
        is_closed(s + rest, range, max_bytes),
        window(s + rest, range, max_bytes) == window(s, range, max_bytes),
    decreases rest.len(),
{
    if rest.len() == 0 {
        assert(s + rest =~= s);
    } else {
        let shorter = rest.drop_last();
        lemma_closed_stays(s, shorter, range, max_bytes);
        lemma_window_push(s + shorter, rest.last(), range, max_bytes);
        lemma_newlines_push(s + shorter, rest.last());
        assert((s + shorter).push(rest.last()) =~= s + rest);
    }
}

/// The scan of a stream for one window of lines. It is fed the stream chunk
/// by chunk, counts the bytes and line breaks that it has read, and keeps
/// the bytes of the window; it stops reading once the window is closed.
pub struct StreamExtractor {
    range: ResolvedRange,
    max_bytes: u32,
    current_line: u64,
    bytes_read: u32,
    done: bool,
    buffer: Vec<u8>,
    fed: Ghost<Seq<u8>>,
}

impl StreamExtractor {
    /// The stream as fed so far, chunk after chunk.
    pub closed spec fn fed(&self) -> Seq<u8> {
        self.fed@
    }

    /// The window that is being cut out.
    pub closed spec fn range(&self) -> ResolvedRange {
        self.range
    }

    /// The budget of bytes that may be read.
    pub closed spec fn max_bytes(&self) -> u32 {
        self.max_bytes
    }

    /// The counters describe the stream as fed, and the buffer holds its
    /// window.
    pub closed spec fn wf(&self) -> bool {
        &&& self.range.wf()
        &&& self.done == is_closed(self.fed@, self.range, self.max_bytes)
        &&& !self.done ==> self.bytes_read == self.fed@.len() && self.current_line == newlines(
            self.fed@,
        )
        &&& self.buffer@ == window(self.fed@, self.range, self.max_bytes)
    }

    /// Starts a scan for `range` that reads at most `max_bytes` bytes.
    pub fn new(range: ResolvedRange, max_bytes: u32) -> (scan: StreamExtractor)
        requires
            range.wf(),
        ensures
            scan.wf(),
            scan.fed() == Seq::<u8>::empty(),
            scan.range() == range,
            scan.max_bytes() == max_bytes,
    {
        proof {
            let nothing = Seq::<u8>::empty();
            assert(window(nothing, range, max_bytes) =~= nothing);
        }
        StreamExtractor {
            range,
            max_bytes,
            current_line: 0,
            bytes_read: 0,
            done: max_bytes == 0 || range.to == 0,
            buffer: Vec::new(),
            fed: Ghost(Seq::empty()),
        }
    }

    /// Reads one byte of the stream.
    fn step(&mut self, byte: u8)
        requires
            old(self).wf(),
        ensures
            final(self).wf(),
            final(self).fed() == old(self).fed().push(byte),
            final(self).range() == old(self).range(),
            final(self).max_bytes() == old(self).max_bytes(),
    {
        proof {
            lemma_window_push(self.fed@, byte, self.range, self.max_bytes);
            lemma_newlines_push(self.fed@, byte);
            lemma_newlines_bounded(self.fed@);
        }
        if !self.done {
            self.bytes_read = self.bytes_read + 1;
            if self.bytes_read >= self.max_bytes {
                self.done = true;
            } else {
                if self.current_line >= self.range.from - 1 {
                    self.buffer.push(byte);
                }
                if byte == NEWLINE {
                    self.current_line = self.current_line + 1;
                    if self.current_line >= self.range.to {
                        self.done = true;
                    }
                }
            }
        }
        self.fed = Ghost(self.fed@.push(byte));
    }

    /// Reads the next chunk of the stream. Bytes that arrive after the
    /// window has closed are passed over.
    pub fn feed(&mut self, chunk: &[u8])
        requires
            old(self).wf(),
        ensures
            final(self).wf(),
            final(self).fed() == old(self).fed() + chunk@,
            final(self).range() == old(self).range(),
            final(self).max_bytes() == old(self).max_bytes(),
    {
        let mut i: usize = 0;
        while i < chunk.len() && !self.done
            invariant
                i <= chunk.len(),
                self.wf(),
                self.fed@ == old(self).fed@ + chunk@.take(i as int),
                self.range == old(self).range,
                self.max_bytes == old(self).max_bytes,
            decreases chunk.len() - i,
        {
            self.step(chunk[i]);
            proof {
                assert(chunk@.take(i as int).push(chunk@[i as int]) =~= chunk@.take(i + 1));
                assert(old(self).fed@ + chunk@.take(i + 1) =~= (old(self).fed@ + chunk@.take(
                    i as int,
                )).push(chunk@[i as int]));
            }
            i = i + 1;
        }
        proof {
            let rest = chunk@.skip(i as int);
            if self.done {
                lemma_closed_stays(self.fed@, rest, self.range, self.max_bytes);
            }
            assert(chunk@.take(i as int) + rest =~= chunk@);
            assert(self.fed@ + rest =~= old(self).fed@ + chunk@);
        }
        self.fed = Ghost(old(self).fed@ + chunk@);
    }

    /// Whether the scan needs no more of the stream: the budget is used up
    /// or the last requested line has ended.
    pub fn is_done(&self) -> (done: bool)
        requires
            self.wf(),
        ensures
            done == is_closed(self.fed(), self.range(), self.max_bytes()),
    {
        self.done
    }

    /// Ends the scan and hands out the window of the stream as fed.
    pub fn finish(self) -> (out: Vec<u8>)
        requires
            self.wf(),
        ensures
            out@ == window(self.fed(), self.range(), self.max_bytes()),
    {
        self.buffer
    }
}

/// Cuts the lines `range.from ..= range.to` out of a stream given as its
/// chunks, reading at most `max_bytes` bytes. The chunks count as one
/// sequence of bytes: where they are divided does not matter.
pub fn extract(stream: &[Vec<u8>], range: ResolvedRange, max_bytes: u32) -> (out: Vec<u8>)
    requires
        range.wf(),
    ensures
        out@ == window(joined(chunks_of(stream@)), range, max_bytes),
{
    let ghost chunks = chunks_of(stream@);
    let mut scan = StreamExtractor::new(range, max_bytes);
    let mut i: usize = 0;
    while i < stream.len() && !scan.is_done()
        invariant
            i <= stream.len(),
            chunks == chunks_of(stream@),
            scan.wf(),
            scan.fed() == joined(chunks.take(i as int)),
            scan.range() == range,
            scan.max_bytes() == max_bytes,
        decreases stream.len() - i,
    {
        scan.feed(stream[i].as_slice());
        proof {
            assert(chunks.take(i + 1).drop_last() =~= chunks.take(i as int));
        }
        i = i + 1;
    }
    proof {
        let rest = joined(chunks).skip(scan.fed().len() as int);
        lemma_joined_extends(chunks, i as int);
        assert(scan.fed() + rest =~= joined(chunks));
        if i < stream.len() {
            lemma_closed_stays(scan.fed(), rest, range, max_bytes);
        } else {
            assert(chunks.take(i as int) =~= chunks);
        }
    }
    scan.finish()
}

/// The chunks up to any point, joined, begin the whole stream.
pub proof fn lemma_joined_extends(chunks: Seq<Seq<u8>>, i: int)
    requires
        0 <= i <= chunks.len(),
    ensures
        joined(chunks.take(i)).is_prefix_of(joined(chunks)),
    decreases chunks.len() - i,
{
    if i == chunks.len() {
        assert(chunks.take(i) =~= chunks);
    } else {
        lemma_joined_extends(chunks, i + 1);
        assert(chunks.take(i + 1).drop_last() =~= chunks.take(i));
    }
}

/// The beginning of `s` that a budget of `max_bytes` lets through whole.
pub open spec fn bounded(s: Seq<u8>, max_bytes: u32) -> Seq<u8> {
    s.take(at_most(s.len(), max_bytes as nat) as int)
}

/// Adds the next chunk of a stream to what has been read of it, as far as
/// the budget reaches, and says whether the budget is used up.
pub fn append_bounded(buffer: &mut Vec<u8>, chunk: &[u8], max_bytes: u32) -> (full: bool)
    ensures
        final(buffer)@ == if old(buffer)@.len() >= max_bytes {
            old(buffer)@
        } else {
            bounded(old(buffer)@ + chunk@, max_bytes)
        },
        full == (final(buffer)@.len() >= max_bytes),
{
    let mut i: usize = 0;
    while i < chunk.len() && buffer.len() < max_bytes as usize
        invariant
            i <= chunk.len(),
            old(buffer)@.len() < max_bytes ==> buffer@ == old(buffer)@ + chunk@.take(i as int),
            old(buffer)@.len() < max_bytes ==> buffer@.len() <= max_bytes,
            old(buffer)@.len() >= max_bytes ==> buffer@ == old(buffer)@,
        decreases chunk.len() - i,
    {
        buffer.push(chunk[i]);
        proof {
            assert(chunk@.take(i as int).push(chunk@[i as int]) =~= chunk@.take(i + 1));
            assert((old(buffer)@ + chunk@.take(i as int)).push(chunk@[i as int]) =~= old(buffer)@
                + chunk@.take(i + 1));
        }
        i = i + 1;
    }
    proof {
        if old(buffer)@.len() < max_bytes {
            assert(chunk@.take(chunk@.len() as int) =~= chunk@);
            assert(buffer@ =~= bounded(old(buffer)@ + chunk@, max_bytes));
        }
    }
    buffer.len() >= max_bytes as usize
}

/// Reads a stream given as its chunks as far as the budget reaches.
pub fn read_bounded(stream: &[Vec<u8>], max_bytes: u32) -> (out: Vec<u8>)
    ensures
        out@ == bounded(joined(chunks_of(stream@)), max_bytes),
{
    let ghost chunks = chunks_of(stream@);
    let mut out: Vec<u8> = Vec::new();
    let mut i: usize = 0;
    while i < stream.len()
        invariant
            i <= stream.len(),
            chunks == chunks_of(stream@),
            out@ == bounded(joined(chunks.take(i as int)), max_bytes),
        decreases stream.len() - i,
    {
        let ghost before = joined(chunks.take(i as int));
        append_bounded(&mut out, stream[i].as_slice(), max_bytes);
        proof {
            assert(chunks.take(i + 1).drop_last() =~= chunks.take(i as int));
            assert(joined(chunks.take(i + 1)) == before + chunks[i as int]);
            assert(out@ =~= bounded(before + chunks[i as int], max_bytes));
        }
        i = i + 1;
    }
    assert(chunks.take(chunks.len() as int) =~= chunks);
    out
}

/// The `k`-th line break of a stream that holds that many stands just before
/// the start of line `k`, and exactly `k` line breaks lie before that start.
pub proof fn lemma_line_start_follows_break(s: Seq<u8>, k: nat)
    requires
        1 <= k <= newlines(s),
    ensures
        1 <= line_start(s, k) <= s.len(),
        s[line_start(s, k) - 1] == NEWLINE,
        newlines(s.take(line_start(s, k) as int)) == k,
    decreases s.len(),
{
    if newlines(s.drop_last()) >= k {
        let shorter = s.drop_last();
        lemma_line_start_follows_break(shorter, k);
        assert(shorter.take(line_start(s, k) as int) =~= s.take(line_start(s, k) as int));
    } else {
        assert(s.take(s.len() as int) =~= s);
    }
}

/// The line breaks of a stretch of a stream are those before its end less
/// those before its start.
pub proof fn lemma_newlines_of_subrange(s: Seq<u8>, a: int, b: int)
    requires
        0 <= a <= b <= s.len(),
    ensures
        newlines(s.subrange(a, b)) == newlines(s.take(b)) - newlines(s.take(a)),
    decreases b - a,
{
    if a == b {
        assert(s.subrange(a, b) =~= Seq::<u8>::empty());
    } else {
        lemma_newlines_of_subrange(s, a, b - 1);
        assert(s.subrange(a, b).drop_last() =~= s.subrange(a, b - 1));
        assert(s.take(b).drop_last() =~= s.take(b - 1));
    }
}

/// A stream cut into single bytes, and a stream in one chunk, join to the
/// same bytes.
pub proof fn lemma_join_of_bytewise(s: Seq<u8>)
    ensures
        joined(bytewise(s)) == s,
        joined(seq![s]) == s,
    decreases s.len(),
{
    assert(seq![s].drop_last() =~= Seq::<Seq<u8>>::empty());
    assert(joined(Seq::<Seq<u8>>::empty()) =~= Seq::<u8>::empty());
    assert(joined(seq![s]) =~= s);
    if s.len() > 0 {
        lemma_join_of_bytewise(s.drop_last());
        assert(bytewise(s).drop_last() =~= bytewise(s.drop_last()));
        assert(s.drop_last() + seq![s.last()] =~= s);
    } else {
        assert(joined(bytewise(s)) =~= s);
    }
}

/// How a stream is divided into chunks does not matter: two divisions of
/// the same bytes give the same window. So do, in particular, a stream that
/// arrives byte by byte and the same stream in one piece.
pub proof fn law_chunking_is_irrelevant(
    one: Seq<Seq<u8>>,
    other: Seq<Seq<u8>>,
    s: Seq<u8>,
    range: ResolvedRange,
    max_bytes: u32,
)
    requires
        joined(one) == joined(other),
    ensures
        window(joined(one), range, max_bytes) == window(joined(other), range, max_bytes),
        window(joined(bytewise(s)), range, max_bytes) == window(joined(seq![s]), range, max_bytes),
        window(joined(bytewise(s)), range, max_bytes) == window(s, range, max_bytes),
{
    lemma_join_of_bytewise(s);
}

/// The window never holds more than the requested lines: it holds at most
/// one line break for each of them, whatever the stream and the budget.
pub proof fn law_window_holds_at_most_the_requested_lines(
    s: Seq<u8>,
    range: ResolvedRange,
    max_bytes: u32,
)
    requires
        range.wf(),
    ensures
        newlines(window(s, range, max_bytes)) <= range.to - range.from + 1,
{
    let lo = (range.from - 1) as nat;
    let hi = range.to as nat;
    let limit = budget_limit(s, max_bytes);
    let a = at_most(line_start(s, lo), limit) as int;
    let b = at_most(line_start(s, hi), limit) as int;
    lemma_line_start_bounded(s, lo);
    lemma_line_start_bounded(s, hi);
    lemma_line_start_monotone(s, lo, hi);
    lemma_newlines_of_subrange(s, a, b);
    if a < b {
        if lo >= 1 {
            lemma_line_start_follows_break(s, lo);
        } else {
            assert(s.take(0) =~= Seq::<u8>::empty());
        }
        let end = line_start(s, hi) as int;
        lemma_newlines_of_subrange(s, b, end);
        if newlines(s) >= hi {
            lemma_line_start_follows_break(s, hi);
        } else {
            assert(s.take(end) =~= s);
        }
    } else {
        assert(s.subrange(a, b) =~= Seq::<u8>::empty());
    }
}

/// The window is what a scan keeps that goes through the stream byte by
/// byte.
pub proof fn law_window_is_what_a_scan_keeps(s: Seq<u8>, range: ResolvedRange, max_bytes: u32)
    requires
        range.wf(),
    ensures
        window(s, range, max_bytes) == scanned(s, range, max_bytes),
    decreases s.len(),
{
    if s.len() == 0 {
        assert(window(s, range, max_bytes) =~= Seq::<u8>::empty());
    } else {
        law_window_is_what_a_scan_keeps(s.drop_last(), range, max_bytes);
        lemma_window_push(s.drop_last(), s.last(), range, max_bytes);
        assert(s.drop_last().push(s.last()) =~= s);
    }
}

/// Where the stream reaches the end of the last requested line and the
/// budget reaches beyond it, the window is exactly the requested lines: it
/// runs from the start of the first to the line break of the last, and holds
/// one line break for each of them.
pub proof fn law_window_is_the_requested_lines(s: Seq<u8>, range: ResolvedRange, max_bytes: u32)
    requires
        range.wf(),
        newlines(s) >= range.to,
        line_start(s, range.to as nat) < max_bytes,
    ensures
        window(s, range, max_bytes) == s.subrange(
            line_start(s, (range.from - 1) as nat) as int,
            line_start(s, range.to as nat) as int,
        ),
        newlines(window(s, range, max_bytes)) == range.to - range.from + 1,
        range.from <= range.to ==> window(s, range, max_bytes).len() > 0 && window(
            s,
            range,
            max_bytes,
        ).last() == NEWLINE,
{
    let lo = (range.from - 1) as nat;
    let hi = range.to as nat;
    lemma_line_start_bounded(s, lo);
    lemma_line_start_bounded(s, hi);
    lemma_line_start_monotone(s, lo, hi);
    lemma_newlines_of_subrange(s, line_start(s, lo) as int, line_start(s, hi) as int);
    if lo >= 1 {
        lemma_line_start_follows_break(s, lo);
    } else {
        assert(s.take(0) =~= Seq::<u8>::empty());
    }
    if hi >= 1 {
        lemma_line_start_follows_break(s, hi);
    }
    if range.from <= range.to {
        if lo >= 1 {
            assert(newlines(s.take(line_start(s, lo) as int)) < newlines(
                s.take(line_start(s, hi) as int),
            ));
        }
        assert(line_start(s, lo) < line_start(s, hi));
    }
}

/// A window that starts beyond the last line of the stream is empty: that is
/// no failure.
pub proof fn law_window_beyond_the_stream_is_empty(
    s: Seq<u8>,
    range: ResolvedRange,
    max_bytes: u32,
)
    requires
        range.wf(),
        newlines(s) < range.from - 1,
    ensures
        window(s, range, max_bytes) == Seq::<u8>::empty(),
{
    lemma_line_start_bounded(s, (range.from - 1) as nat);
    lemma_line_start_bounded(s, range.to as nat);
    assert(window(s, range, max_bytes) =~= Seq::<u8>::empty());
}

/// A smaller budget gives a beginning of what a larger budget gives, never
/// bytes of its own, and the window stays below the budget.
pub proof fn law_budget_truncates(s: Seq<u8>, range: ResolvedRange, small: u32, large: u32)
    requires
        range.wf(),
        small <= large,
    ensures
        window(s, range, small).is_prefix_of(window(s, range, large)),
        window(s, range, small).len() <= budget_limit(s, small),
        small > 0 ==> window(s, range, small).len() < small,
{
    let lo = (range.from - 1) as nat;
    let hi = range.to as nat;
    lemma_line_start_bounded(s, lo);
    lemma_line_start_bounded(s, hi);
    lemma_line_start_monotone(s, lo, hi);
}

} // verus!

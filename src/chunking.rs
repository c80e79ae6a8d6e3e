use vstd::prelude::*;
use vstd::string::*;

use crate::text::{chars_of, trim, trim_range};

verus! {

/// Number of characters that stand for one token in size estimates.
pub const CHARS_PER_TOKEN: usize = 4;

/// A piece of a longer text: `text` holds that text's characters `[start, end)`.
#[derive(Debug, Clone)]
pub struct TextChunk {
    pub text: String,
    pub start: usize,
    pub end: usize,
}

/// Length of the sentence ending that starts at `p` and lies before `hi`, or 0:
/// one of `. .\n ! !\n ? ?\n` or a full-width `。！？`.
pub open spec fn ending_len(t: Seq<char>, p: int, hi: int) -> int {
    if t[p] == '。' || t[p] == '！' || t[p] == '？' {
        1
    } else if (t[p] == '.' || t[p] == '!' || t[p] == '?') && p + 1 < hi && (t[p + 1] == ' '
        || t[p + 1] == '\n') {
        2
    } else {
        0
    }
}

/// Scanning positions `p, p-1, ..., lo`: the end of the rightmost sentence ending, or `hi`.
pub open spec fn scan_break(t: Seq<char>, lo: int, p: int, hi: int) -> int
    decreases p - lo + 1,
{
    if p < lo {
        hi
    } else if ending_len(t, p, hi) > 0 {
        p + ending_len(t, p, hi)
    } else {
        scan_break(t, lo, p - 1, hi)
    }
}

/// Where a chunk that starts at `start` and would end at `ideal_end` is cut: after the
/// rightmost sentence ending that starts in the last fifth of the window, else at `ideal_end`.
pub open spec fn break_point(t: Seq<char>, start: int, ideal_end: int) -> int {
    scan_break(t, start + (ideal_end - start) * 80 / 100, ideal_end - 1, ideal_end)
}

/// Bounds of the chunks from `start` on, windows of `width` characters; each chunk after
/// the first starts `overlap` characters before the previous end, unless that would not
/// move forward.
pub open spec fn bounds_from(t: Seq<char>, start: int, width: int, overlap: int) -> Seq<(int, int)>
    decreases t.len() - start,
{
    if start < 0 || start >= t.len() || width <= 0 || overlap < 0 {
        seq![]
    } else if start + width >= t.len() {
        seq![(start, t.len() as int)]
    } else {
        let e = break_point(t, start, start + width);
        if e <= start || e >= t.len() {
            seq![(start, e)]
        } else {
            let next = if e >= overlap && e - overlap > start {
                e - overlap
            } else {
                e
            };
            seq![(start, e)] + bounds_from(t, next, width, overlap)
        }
    }
}

/// Bounds of the chunks of `t` for a budget of `max_tokens` and an overlap of `overlap_tokens`.
pub open spec fn chunk_bounds(t: Seq<char>, max_tokens: int, overlap_tokens: int) -> Seq<(int, int)> {
    if t.len() <= max_tokens * 4 {
        seq![(0, t.len() as int)]
    } else {
        bounds_from(t, 0, max_tokens * 4, overlap_tokens * 4)
    }
}

proof fn lemma_scan_break_range(t: Seq<char>, lo: int, p: int, hi: int)
    requires
        lo < hi,
        p < hi,
        hi <= t.len(),
        0 <= lo,
    ensures
        lo < scan_break(t, lo, p, hi) <= hi,
    decreases p - lo + 1,
{
    if p >= lo && ending_len(t, p, hi) == 0 {
        lemma_scan_break_range(t, lo, p - 1, hi);
    }
}

/// A break point lies after the window's start and no later than its ideal end.
pub proof fn lemma_break_point_range(t: Seq<char>, start: int, ideal_end: int)
    requires
        0 <= start < ideal_end <= t.len(),
    ensures
        start < break_point(t, start, ideal_end) <= ideal_end,
{
    let lo = start + (ideal_end - start) * 80 / 100;
    assert(start <= lo < ideal_end) by (nonlinear_arith)
        requires
            lo == start + (ideal_end - start) * 80 / 100,
            start < ideal_end,
    ;
    lemma_scan_break_range(t, lo, ideal_end - 1, ideal_end);
}

proof fn lemma_bounds_from(t: Seq<char>, start: int, width: int, overlap: int)
    requires
        0 <= start < t.len(),
        width > 0,
        overlap >= 0,
    ensures
        ({
            let b = bounds_from(t, start, width, overlap);
            &&& b.len() >= 1
            &&& start + width < t.len() ==> b.len() >= 2
            &&& b[0].0 == start
            &&& b[b.len() - 1].1 == t.len()
            &&& forall|i: int| 0 <= i < b.len() ==> (#[trigger] b[i]).0 < b[i].1
            &&& forall|i: int| 0 <= i < b.len() ==> (#[trigger] b[i]).1 <= t.len()
            &&& forall|i: int|
                0 <= i < b.len() - 1 ==> {
                    &&& b[i + 1].0 <= (#[trigger] b[i]).1
                    &&& b[i].0 < b[i + 1].0
                    &&& overlap <= width * 80 / 100 ==> b[i].1 < b[i + 1].1
                }
        }),
    decreases t.len() - start,
{
    let b = bounds_from(t, start, width, overlap);
    if start + width < t.len() {
        let e = break_point(t, start, start + width);
        lemma_break_point_range(t, start, start + width);
        let next = if e >= overlap && e - overlap > start {
            e - overlap
        } else {
            e
        };
        lemma_bounds_from(t, next, width, overlap);
        let rest = bounds_from(t, next, width, overlap);
        assert(b == seq![(start, e)] + rest);
        assert(b[0] == (start, e));
        if overlap <= width * 80 / 100 {
            // the next chunk ends after this one
            if next + width < t.len() {
                let lo = next + width * 80 / 100;
                lemma_scan_break_range(t, lo, next + width - 1, next + width);
                assert(rest[0].1 > lo);
            }
            assert(rest[0].1 > e);
        }
        assert forall|i: int| 0 <= i < b.len() - 1 implies {
            &&& b[i + 1].0 <= (#[trigger] b[i]).1
            &&& b[i].0 < b[i + 1].0
            &&& overlap <= width * 80 / 100 ==> b[i].1 < b[i + 1].1
        } by {
            if i > 0 {
                assert(b[i] == rest[i - 1]);
                assert(b[i + 1] == rest[i]);
            }
        }
        assert forall|i: int| 0 <= i < b.len() implies (#[trigger] b[i]).0 < b[i].1 by {
            if i > 0 {
                assert(b[i] == rest[i - 1]);
            }
        }
        assert forall|i: int| 0 <= i < b.len() implies (#[trigger] b[i]).1 <= t.len() by {
            if i > 0 {
                assert(b[i] == rest[i - 1]);
            }
        }
    }
}

/// The chunks of a text start at its beginning and end at its end, each is non-empty
/// unless the text is, each starts no later than the previous one ends (no gap) and after
/// the previous one starts; when the overlap is at most four fifths of the window, their
/// ends increase too. A text that fits the window is one chunk; a longer one is two or more.
pub proof fn lemma_chunks_cover(t: Seq<char>, max_tokens: int, overlap_tokens: int)
    requires
        max_tokens > 0,
        overlap_tokens >= 0,
    ensures
        ({
            let b = chunk_bounds(t, max_tokens, overlap_tokens);
            &&& b.len() >= 1
            &&& b[0].0 == 0
            &&& b[b.len() - 1].1 == t.len()
            &&& forall|i: int| 0 <= i < b.len() ==> (#[trigger] b[i]).0 <= b[i].1
            &&& forall|i: int| 0 <= i < b.len() ==> (#[trigger] b[i]).1 <= t.len()
            &&& t.len() > 0 ==> forall|i: int| 0 <= i < b.len() ==> (#[trigger] b[i]).0 < b[i].1
            &&& forall|i: int|
                0 <= i < b.len() - 1 ==> {
                    &&& b[i + 1].0 <= (#[trigger] b[i]).1
                    &&& b[i].0 < b[i + 1].0
                    &&& overlap_tokens * 4 <= max_tokens * 4 * 80 / 100 ==> b[i].1 < b[i + 1].1
                }
            &&& t.len() <= max_tokens * 4 ==> b == seq![(0int, t.len() as int)]
            &&& t.len() > max_tokens * 4 ==> b.len() >= 2
        }),
{
    if t.len() > max_tokens * 4 {
        lemma_bounds_from(t, 0, max_tokens * 4, overlap_tokens * 4);
    }
}

fn ending_len_at(t: &Vec<char>, p: usize, hi: usize) -> (r: usize)
    requires
        p < hi <= t@.len(),
    ensures
        r as int == ending_len(t@, p as int, hi as int),
{
    let c = t[p];
    if c == '。' || c == '！' || c == '？' {
        1
    } else if (c == '.' || c == '!' || c == '?') && p + 1 < hi && (t[p + 1] == ' ' || t[p + 1]
        == '\n') {
        2
    } else {
        0
    }
}

/// The cut of a chunk that starts at `start` and would end at `ideal_end`.
pub fn find_break_point(t: &Vec<char>, start: usize, ideal_end: usize) -> (r: usize)
    requires
        start < ideal_end <= t@.len(),
    ensures
        r as int == break_point(t@, start as int, ideal_end as int),
        start < r <= ideal_end,
{
    proof {
        lemma_break_point_range(t@, start as int, ideal_end as int);
    }
    let width = ideal_end - start;
    let lo = start + width / 100 * 80 + width % 100 * 80 / 100;
    assert(lo == start + (ideal_end - start) * 80 / 100) by (nonlinear_arith)
        requires
            lo == start + width / 100 * 80 + width % 100 * 80 / 100,
            width == ideal_end - start,
            width > 0,
    ;
    assert(break_point(t@, start as int, ideal_end as int) == scan_break(
        t@,
        lo as int,
        ideal_end - 1,
        ideal_end as int,
    ));
    // `q` is one past the next position to look at
    let mut q = ideal_end;
    while q > lo
        invariant
            start <= lo <= q <= ideal_end <= t@.len(),
            lo < ideal_end,
            break_point(t@, start as int, ideal_end as int) == scan_break(
                t@,
                lo as int,
                q - 1,
                ideal_end as int,
            ),
        decreases q - lo,
    {
        let p = q - 1;
        let n = ending_len_at(t, p, ideal_end);
        if n > 0 {
            assert(scan_break(t@, lo as int, p as int, ideal_end as int) == p + n);
            return p + n;
        }
        q = p;
    }
    ideal_end
}

/// Splits `text` into overlapping chunks of about `max_tokens` tokens (four characters
/// each), cut at sentence ends where the last fifth of a window holds one.
pub fn chunk_text(text: &str, max_tokens: usize, overlap: usize) -> (r: Vec<TextChunk>)
    requires
        max_tokens > 0,
    ensures
        r@.len() == chunk_bounds(text@, max_tokens as int, overlap as int).len(),
        forall|i: int|
            0 <= i < r@.len() ==> {
                let b = #[trigger] chunk_bounds(text@, max_tokens as int, overlap as int)[i];
                &&& r@[i].start == b.0
                &&& r@[i].end == b.1
                &&& r@[i].text@ == text@.subrange(b.0, b.1)
            },
        // the chunks cover the text in order, with no gap
        r@.len() >= 1,
        r@[0].start == 0,
        r@[r@.len() - 1].end == text@.len(),
        forall|i: int| 0 <= i < r@.len() ==> (#[trigger] r@[i]).start <= r@[i].end <= text@.len(),
        forall|i: int|
            0 <= i < r@.len() - 1 ==> {
                &&& r@[i + 1].start <= (#[trigger] r@[i]).end
                &&& r@[i].start < r@[i + 1].start
                &&& 5 * overlap <= 4 * max_tokens ==> r@[i].end < r@[i + 1].end
            },
        text@.len() <= max_tokens * 4 ==> r@.len() == 1 && r@[0].text@ == text@,
{
    let r = chunk_text_exact(text, max_tokens, overlap);
    proof {
        lemma_chunks_cover(text@, max_tokens as int, overlap as int);
        assert(5 * overlap <= 4 * max_tokens ==> overlap * 4 <= max_tokens * 4 * 80 / 100)
            by (nonlinear_arith);
        let b = chunk_bounds(text@, max_tokens as int, overlap as int);
        assert(r@[0].start == b[0].0);
        assert(r@[r@.len() - 1].end == b[b.len() - 1].1);
        assert forall|i: int| 0 <= i < r@.len() - 1 implies {
            &&& r@[i + 1].start <= (#[trigger] r@[i]).end
            &&& r@[i].start < r@[i + 1].start
            &&& 5 * overlap <= 4 * max_tokens ==> r@[i].end < r@[i + 1].end
        } by {
            assert(r@[i].start == b[i].0 && r@[i].end == b[i].1);
            assert(r@[i + 1].start == b[i + 1].0 && r@[i + 1].end == b[i + 1].1);
        }
        assert forall|i: int| 0 <= i < r@.len() implies (#[trigger] r@[i]).start <= r@[i].end
            <= text@.len() by {
            assert(r@[i].start == b[i].0 && r@[i].end == b[i].1);
        }
        if text@.len() <= max_tokens * 4 {
            assert(text@.subrange(0, text@.len() as int) =~= text@);
        }
    }
    r
}

fn chunk_text_exact(text: &str, max_tokens: usize, overlap: usize) -> (r: Vec<TextChunk>)
    requires
        max_tokens > 0,
    ensures
        r@.len() == chunk_bounds(text@, max_tokens as int, overlap as int).len(),
        forall|i: int|
            0 <= i < r@.len() ==> {
                let b = #[trigger] chunk_bounds(text@, max_tokens as int, overlap as int)[i];
                &&& r@[i].start == b.0
                &&& r@[i].end == b.1
                &&& r@[i].text@ == text@.subrange(b.0, b.1)
            },
{
    let chars = chars_of(text);
    let n = chars.len();
    if max_tokens > usize::MAX / 4 || n <= max_tokens * CHARS_PER_TOKEN {
        proof {
            assert(text@.subrange(0, n as int) =~= text@);
        }
        return vec![TextChunk { text: text.to_owned(), start: 0, end: n }];
    }
    let width = max_tokens * CHARS_PER_TOKEN;
    // an overlap wider than any text never moves a start back
    let back = if overlap > usize::MAX / 4 {
        usize::MAX
    } else {
        overlap * CHARS_PER_TOKEN
    };
    let ghost all = bounds_from(text@, 0, width as int, overlap * 4);
    let ghost mut done: Seq<(int, int)> = seq![];
    let mut chunks: Vec<TextChunk> = Vec::new();
    let mut start: usize = 0;
    loop
        invariant
            chars@ == text@,
            n == text@.len(),
            width == max_tokens * 4,
            overlap * 4 <= usize::MAX ==> back == overlap * 4,
            overlap * 4 > usize::MAX ==> back == usize::MAX,
            n <= usize::MAX,
            0 < width < n,
            start < n,
            all == chunk_bounds(text@, max_tokens as int, overlap as int),
            all == done + bounds_from(text@, start as int, width as int, overlap * 4),
            chunks@.len() == done.len(),
            forall|i: int|
                0 <= i < chunks@.len() ==> {
                    let b = #[trigger] done[i];
                    &&& chunks@[i].start == b.0
                    &&& chunks@[i].end == b.1
                    &&& chunks@[i].text@ == text@.subrange(b.0, b.1)
                },
        decreases n - start,
    {
        if width >= n - start {
            let piece = TextChunk { text: text.substring_char(start, n).to_owned(), start, end: n };
            chunks.push(piece);
            proof {
                done = done.push((start as int, n as int));
                assert(all =~= done);
            }
            return chunks;
        }
        let end = find_break_point(&chars, start, start + width);
        let piece = TextChunk { text: text.substring_char(start, end).to_owned(), start, end };
        chunks.push(piece);
        let next = if end >= back && end - back > start {
            end - back
        } else {
            end
        };
        proof {
            let rest = bounds_from(text@, next as int, width as int, overlap * 4);
            assert(bounds_from(text@, start as int, width as int, overlap * 4) == seq![
                (start as int, end as int),
            ] + rest);
            assert(all =~= done.push((start as int, end as int)) + rest);
            done = done.push((start as int, end as int));
        }
        start = next;
    }
}

/// Paragraphs of `t[i..]`, the current one begun at `from`: pieces between blank lines
/// (`"\n\n"`), trimmed, the empty ones left out.
pub open spec fn paragraphs_from(t: Seq<char>, from: int, i: int) -> Seq<Seq<char>>
    decreases t.len() - i,
{
    if i < 0 || i + 1 >= t.len() {
        let p = trim(t.subrange(from, t.len() as int));
        if p.len() > 0 {
            seq![p]
        } else {
            seq![]
        }
    } else if t[i] == '\n' && t[i + 1] == '\n' {
        let p = trim(t.subrange(from, i));
        let rest = paragraphs_from(t, i + 2, i + 2);
        if p.len() > 0 {
            seq![p] + rest
        } else {
            rest
        }
    } else {
        paragraphs_from(t, from, i + 1)
    }
}

/// The paragraphs of `t`.
pub open spec fn paragraphs(t: Seq<char>) -> Seq<Seq<char>> {
    paragraphs_from(t, 0, 0)
}

/// Splits `text` at blank lines, trims each paragraph and drops the empty ones.
pub fn split_paragraphs(text: &str) -> (r: Vec<String>)
    ensures
        r@.len() == paragraphs(text@).len(),
        forall|i: int| 0 <= i < r@.len() ==> (#[trigger] r@[i])@ == paragraphs(text@)[i],
{
    let chars = chars_of(text);
    let n = chars.len();
    let mut out: Vec<String> = Vec::new();
    let ghost mut done: Seq<Seq<char>> = seq![];
    let mut from: usize = 0;
    let mut i: usize = 0;
    while n > 0 && i < n - 1
        invariant
            chars@ == text@,
            n == text@.len(),
            from <= i <= n,
            paragraphs(text@) == done + paragraphs_from(text@, from as int, i as int),
            out@.len() == done.len(),
            forall|k: int| 0 <= k < out@.len() ==> (#[trigger] out@[k])@ == done[k],
        decreases n - i,
    {
        if chars[i] == '\n' && chars[i + 1] == '\n' {
            let (a, b) = trim_range(&chars, from, i);
            let ghost rest = paragraphs_from(text@, i + 2, i + 2);
            if a < b {
                out.push(text.substring_char(a, b).to_owned());
                proof {
                    let p = trim(text@.subrange(from as int, i as int));
                    assert(paragraphs(text@) =~= done.push(p) + rest);
                    done = done.push(p);
                }
            } else {
                proof {
                    assert(paragraphs(text@) =~= done + rest);
                }
            }
            i = i + 2;
            from = i;
        } else {
            i = i + 1;
        }
    }
    let (a, b) = trim_range(&chars, from, n);
    if a < b {
        out.push(text.substring_char(a, b).to_owned());
        proof {
            let p = trim(text@.subrange(from as int, n as int));
            assert(paragraphs(text@) =~= done.push(p));
            done = done.push(p);
        }
    } else {
        proof {
            assert(paragraphs(text@) =~= done);
        }
    }
    out
}

} // verus!

verus! {

/// Chunking is a function of its inputs: equal texts and parameters give equal bounds.
pub proof fn lemma_chunking_deterministic(
    t1: Seq<char>,
    t2: Seq<char>,
    max_tokens: int,
    overlap_tokens: int,
)
    requires
        t1 == t2,
    ensures
        chunk_bounds(t1, max_tokens, overlap_tokens) == chunk_bounds(t2, max_tokens, overlap_tokens),
{
}

} // verus!
